//! The data version manifest (`data/data_version.json`): which client
//! version and when each derived data file was last refreshed, used to decide
//! between a full re-extraction and filling in what is missing.

use vstd::prelude::*;

verus! {

/// Contents of the data version manifest. An empty `game_version` means that
/// no update was ever recorded.
#[derive(Debug, Clone)]
pub struct DataVersionManifest {
    /// Client version at the last update (the `release/X.Y.Z` token).
    pub game_version: String,
    /// When the BlitzKit databases were last downloaded (RFC 3339).
    pub blitzkit_updated_at: Option<String>,
    /// When the tank cache was last rebuilt.
    pub tank_cache_updated_at: Option<String>,
    /// When the per-tank game data were last extracted.
    pub game_data_updated_at: Option<String>,
    /// Number of BlitzKit tanks at the last update.
    pub tank_count: Option<usize>,
    /// Number of per-tank game data files at the last update.
    pub game_data_files: Option<usize>,
}

impl Default for DataVersionManifest {
    fn default() -> (m: Self)
        ensures
            m.game_version@.len() == 0,
            m.blitzkit_updated_at is None,
            m.tank_cache_updated_at is None,
            m.game_data_updated_at is None,
            m.tank_count is None,
            m.game_data_files is None,
    {
        DataVersionManifest {
            game_version: String::new(),
            blitzkit_updated_at: None,
            tank_cache_updated_at: None,
            game_data_updated_at: None,
            tank_count: None,
            game_data_files: None,
        }
    }
}

impl DataVersionManifest {
    /// Whether any update was recorded (the client version is not empty).
    pub fn has_version(&self) -> (r: bool)
        ensures
            r == (self.game_version@.len() > 0),
    {
        !self.game_version.as_str().is_empty()
    }
}

} // verus!
