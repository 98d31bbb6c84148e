//! Data layer of a World of Tanks Blitz replay and armour analysis tool:
//! readers for the BlitzKit protobuf databases, the DVPL container, the
//! vehicle XML and YAML of the game client and the terrain height fields;
//! the map, session and file name rules; the viewer and playback page
//! templates and configuration indices; and the decision rules of the shell
//! penetration model.

pub mod protobuf;
pub mod text;
pub mod blitzkit;
pub mod dvpl;
pub mod map_assets;
pub mod penetration;
pub mod api_client;
pub mod collision_yaml;
pub mod armor_xml;
pub mod data_version;
pub mod game_extract;
pub mod heatmap_ready;
pub mod playback_viewer;
pub mod sessions;
pub mod snapshot;
pub mod tank_resolver;
pub mod tanks_pb;
pub mod viewer;
