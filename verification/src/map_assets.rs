//! Map assets of the replay player: the whitelists that turn a map's enum
//! name into the client's minimap directory and 3D space directory (no
//! path is ever built from a name that is not in them), and the decoder of
//! the standard terrain height field.
//!
//! Height field format: an 8-byte header (`u32` size = 512, `u32` tile = 16)
//! and size² little-endian `u16` heights stored in 16×16 tiles (tiles in row
//! order, each tile row by row); stored row 0 is south and stored column 0
//! is east. The decoder returns rows south to north and columns west to east.

use vstd::prelude::*;

use crate::game_extract::{contains_chars, contains_vec, ends_with_vec, has_suffix};
use crate::text::{
    chars_of, eq_ignore_ascii_case, str_eq_ignore_ascii_case, str_to_lowercase, unicode_lowercase,
};

verus! {

/// Map enum name (as the replay parser prints it) → minimap directory.
pub const MAP_DIRS: [(&'static str, &'static str); 26] = [
    ("DesertSands", "desert_train"),
    ("Middleburg", "erlenberg"),
    ("Copperfield", "karieri"),
    ("Alpenstadt", "lumber"),
    ("Mines", "rudniki"),
    ("DeadRail", "medvedkovo"),
    ("FortDespair", "fort"),
    ("Himmelsdorf", "himmelsdorf"),
    ("BlackGoldville", "mountain"),
    ("OasisPalms", "savanna"),
    ("GhostFactory", "plant"),
    ("Molendijk", "holland"),
    ("PortBay", "port"),
    ("WinterMalinovka", "malinovka"),
    ("Castilla", "pliego"),
    ("Canal", "canal"),
    ("Vineyards", "italy"),
    ("YamatoHarbor", "milbase"),
    ("Canyon", "canyon"),
    ("MayanRuins", "rock"),
    ("DynastyPearl", "grossberg"),
    ("NavalFrontier", "skit"),
    ("FallsCreek", "amigosville"),
    ("NewBay", "forgecity"),
    ("Normandy", "neptune"),
    ("Wasteland", "holmeisk"),
];

/// Map enum name → 3D space directory (scene and height field).
pub const MAP_SPACES: [(&'static str, &'static str); 26] = [
    ("DesertSands", "02_desert_train_dt"),
    ("Middleburg", "03_erlenberg_er"),
    ("Copperfield", "23_karieri_kr"),
    ("Alpenstadt", "31_lumber_lm"),
    ("Mines", "06_rudniki_rd"),
    ("DeadRail", "04_medvedkovo_md"),
    ("FortDespair", "07_fort_ft"),
    ("Himmelsdorf", "19_himmelsdorf_hm"),
    ("BlackGoldville", "21_mountain_mnt"),
    ("OasisPalms", "09_savanna_sv"),
    ("GhostFactory", "11_plant_pn"),
    ("Molendijk", "16_holland_hl"),
    ("PortBay", "14_port_pt"),
    ("WinterMalinovka", "12_malinovka_ma"),
    ("Castilla", "13_pliego_pl"),
    ("Canal", "18_canal_cn"),
    ("Vineyards", "22_italy_it"),
    ("YamatoHarbor", "24_milibase_mlb"),
    ("Canyon", "25_canyon_ca"),
    ("MayanRuins", "28_rock_rc"),
    ("DynastyPearl", "30_grossberg_sh"),
    ("NavalFrontier", "29_skit_sk"),
    ("FallsCreek", "05_amigosville_am"),
    ("NewBay", "34_forgecity_fc"),
    ("Normandy", "33_neptune_nt"),
    ("Wasteland", "26_holmeisk_hk"),
];

/// The first entry at or after `i` whose key matches `name` ignoring ASCII
/// case.
pub open spec fn first_key_match(
    t: Seq<(&'static str, &'static str)>,
    name: Seq<char>,
    i: int,
) -> Option<int>
    decreases t.len() - i,
{
    if i < 0 || i >= t.len() {
        None
    } else if eq_ignore_ascii_case(t[i].0@, name) {
        Some(i)
    } else {
        first_key_match(t, name, i + 1)
    }
}

/// The value of the first entry whose key matches `name`.
pub open spec fn table_lookup(t: Seq<(&'static str, &'static str)>, name: Seq<char>) -> Option<
    &'static str,
> {
    match first_key_match(t, name, 0) {
        Some(i) => Some(t[i].1),
        None => None,
    }
}

fn lookup(t: &[(&'static str, &'static str); 26], name: &str) -> (res: Option<&'static str>)
    ensures
        res == table_lookup(t@, name@),
{
    let mut i: usize = 0;
    while i < 26
        invariant
            i <= 26,
            t@.len() == 26,
            first_key_match(t@, name@, 0) == first_key_match(t@, name@, i as int),
        decreases 26 - i,
    {
        if str_eq_ignore_ascii_case(t[i].0, name) {
            return Some(t[i].1);
        }
        i = i + 1;
    }
    None
}

/// Minimap directory of a map, through the whitelist only; `None` for any
/// name outside it.
pub fn internal_dir(map_name: &str) -> (res: Option<&'static str>)
    ensures
        res == table_lookup(MAP_DIRS@, map_name@),
{
    lookup(&MAP_DIRS, map_name)
}

/// 3D space directory of a map, through the whitelist only.
pub fn map_space(map_name: &str) -> (res: Option<&'static str>)
    ensures
        res == table_lookup(MAP_SPACES@, map_name@),
{
    lookup(&MAP_SPACES, map_name)
}

/// Older maps whose height field does not follow the standard layout.
pub const HEIGHTMAP_INCOMPATIBLE: [&'static str; 1] = ["Himmelsdorf"];

/// The map's height field follows the standard layout (it is not listed as
/// incompatible, ignoring ASCII case).
pub fn heightmap_compatible(map_name: &str) -> (ok: bool)
    ensures
        ok == !eq_ignore_ascii_case(HEIGHTMAP_INCOMPATIBLE@[0]@, map_name@),
{
    !str_eq_ignore_ascii_case(HEIGHTMAP_INCOMPATIBLE[0], map_name)
}

/// A character allowed in a map name used as a file stem.
pub open spec fn map_name_char(c: char) -> bool {
    ('a' <= c <= 'z') || ('A' <= c <= 'Z') || ('0' <= c <= '9') || c == '_'
}

/// A map name that may become a file stem: 1 to 40 ASCII letters, digits
/// or underscores.
pub open spec fn valid_map_name(s: Seq<char>) -> bool {
    0 < s.len() <= 40 && forall|i: int| 0 <= i < s.len() ==> map_name_char(#[trigger] s[i])
}

/// Path, under the data directory, of a map's layout override file
/// (`maps/<name>.json`); `None` unless the name is a safe file stem.
pub fn meta_path(map_name: &str) -> (res: Option<String>)
    ensures
        valid_map_name(map_name@) ==> (res matches Some(p) && p@ == "maps/"@ + map_name@ + ".json"@),
        !valid_map_name(map_name@) ==> res is None,
{
    let v = chars_of(map_name);
    if v.len() == 0 || v.len() > 40 {
        return None;
    }
    let mut i: usize = 0;
    while i < v.len()
        invariant
            v@ == map_name@,
            i <= v@.len(),
            forall|j: int| 0 <= j < i ==> map_name_char(#[trigger] v@[j]),
        decreases v@.len() - i,
    {
        let c = v[i];
        if !(('a' <= c && c <= 'z') || ('A' <= c && c <= 'Z') || ('0' <= c && c <= '9') || c
            == '_') {
            return None;
        }
        i = i + 1;
    }
    let mut p = "maps/".to_string();
    p.append(map_name);
    p.append(".json");
    Some(p)
}

/// A decoded height field: `heights[r * 512 + c]` is row `r` (south to
/// north) and column `c` (west to east).
pub struct TerrainGrid {
    pub heights: Vec<u16>,
}

/// The little-endian `u16` at `at`.
pub open spec fn le_u16(s: Seq<u8>, at: int) -> int {
    s[at] as int + 256 * (s[at + 1] as int)
}

/// Position in the stored (tiled) order of stored row `row`, column `col`.
pub open spec fn tiled_index(row: int, col: int) -> int {
    (((row / 16) * 32 + col / 16) * 16 + row % 16) * 16 + col % 16
}

/// A buffer in the standard layout: header 512 / 16 and 512² heights.
pub open spec fn standard_heightmap(raw: Seq<u8>) -> bool {
    raw.len() >= 8 && crate::dvpl::le_u32(raw, 0) == 512 && crate::dvpl::le_u32(raw, 4) == 16
        && raw.len() == 8 + 512 * 512 * 2
}

/// Height of output cell `k` (row `k / 512`, column `k % 512`): the stored
/// value at the same row and the mirrored column.
pub open spec fn terrain_cell(raw: Seq<u8>, k: int) -> int {
    le_u16(raw, 8 + 2 * tiled_index(k / 512, 511 - k % 512))
}

proof fn lemma_tiled_index_bound(row: int, col: int)
    requires
        0 <= row < 512,
        0 <= col < 512,
    ensures
        0 <= tiled_index(row, col) < 512 * 512,
{
    assert(0 <= row / 16 < 32);
    assert(0 <= col / 16 < 32);
    assert(0 <= row % 16 < 16);
    assert(0 <= col % 16 < 16);
    assert(0 <= ((row / 16) * 32 + col / 16) < 1024) by (nonlinear_arith)
        requires
            0 <= row / 16 < 32,
            0 <= col / 16 < 32,
    ;
    assert(0 <= (((row / 16) * 32 + col / 16) * 16 + row % 16) < 16384) by (nonlinear_arith)
        requires
            0 <= ((row / 16) * 32 + col / 16) < 1024,
            0 <= row % 16 < 16,
    ;
    assert(0 <= tiled_index(row, col) < 262144) by (nonlinear_arith)
        requires
            0 <= (((row / 16) * 32 + col / 16) * 16 + row % 16) < 16384,
            0 <= col % 16 < 16,
            tiled_index(row, col) == (((row / 16) * 32 + col / 16) * 16 + row % 16) * 16 + col
                % 16,
    ;
}

/// Decodes a height field in the standard layout; any other header or
/// length (older maps) is rejected.
pub fn parse_heightmap(raw: &[u8]) -> (res: Option<TerrainGrid>)
    ensures
        !standard_heightmap(raw@) ==> res is None,
        standard_heightmap(raw@) ==> (res matches Some(t) && t.heights@.len() == 512 * 512
            && forall|k: int|
            0 <= k < 512 * 512 ==> #[trigger] t.heights@[k] as int == terrain_cell(raw@, k)),
{
    if raw.len() < 8 {
        return None;
    }
    let size = crate::dvpl::read_le_u32(raw, 0);
    let tile = crate::dvpl::read_le_u32(raw, 4);
    if size != 512 || tile != 16 || raw.len() != 8 + 512 * 512 * 2 {
        return None;
    }
    let mut out: Vec<u16> = Vec::new();
    let mut r: usize = 0;
    while r < 512
        invariant
            r <= 512,
            raw@.len() == 8 + 512 * 512 * 2,
            out@.len() == r * 512,
            forall|k: int| 0 <= k < r * 512 ==> #[trigger] out@[k] as int == terrain_cell(raw@, k),
        decreases 512 - r,
    {
        let mut c: usize = 0;
        while c < 512
            invariant
                r < 512,
                c <= 512,
                raw@.len() == 8 + 512 * 512 * 2,
                out@.len() == r * 512 + c,
                forall|k: int|
                    0 <= k < r * 512 + c ==> #[trigger] out@[k] as int == terrain_cell(raw@, k),
            decreases 512 - c,
        {
            let col = 511 - c;
            proof {
                lemma_tiled_index_bound(r as int, col as int);
            }
            let j = (((r / 16) * 32 + col / 16) * 16 + r % 16) * 16 + col % 16;
            assert(j == tiled_index(r as int, col as int));
            let v = (raw[8 + 2 * j] as u16) + 256 * (raw[9 + 2 * j] as u16);
            proof {
                let k = r * 512 + c;
                assert(k / 512 == r && k % 512 == c) by (nonlinear_arith)
                    requires
                        k == r * 512 + c,
                        0 <= c < 512,
                        0 <= r,
                ;
            }
            out.push(v);
            c = c + 1;
        }
        r = r + 1;
    }
    Some(TerrainGrid { heights: out })
}

/// Serialises a height field as little-endian `u16`s in row order.
pub fn terrain_bytes(t: &TerrainGrid) -> (bytes: Vec<u8>)
    requires
        t.heights@.len() * 2 <= usize::MAX,
    ensures
        bytes@.len() == 2 * t.heights@.len(),
        forall|k: int| 0 <= k < t.heights@.len() ==> le_u16(bytes@, 2 * k) == #[trigger] t.heights@[k] as int,
{
    let mut bytes: Vec<u8> = Vec::new();
    let mut i: usize = 0;
    while i < t.heights.len()
        invariant
            i <= t.heights@.len(),
            t.heights@.len() * 2 <= usize::MAX,
            bytes@.len() == 2 * i,
            forall|k: int| 0 <= k < i ==> le_u16(bytes@, 2 * k) == #[trigger] t.heights@[k] as int,
        decreases t.heights@.len() - i,
    {
        let v = t.heights[i];
        bytes.push((v % 256) as u8);
        bytes.push((v / 256) as u8);
        i = i + 1;
    }
    bytes
}

/// A file of a map's landscape directory that holds its height field: its
/// lowercased name contains `heightmap` and ends with `.dvpl`.
pub open spec fn is_heightmap_file(name: Seq<char>) -> bool {
    contains_chars(unicode_lowercase(name), "heightmap"@) && has_suffix(
        unicode_lowercase(name),
        ".dvpl"@,
    )
}

/// The first height-field file among the entries of a landscape directory.
pub fn pick_heightmap_file(names: &[String]) -> (r: Option<usize>)
    ensures
        match r {
            Some(i) => i < names@.len() && is_heightmap_file(names@[i as int]@) && forall|j: int|
                0 <= j < i ==> !is_heightmap_file(#[trigger] names@[j]@),
            None => forall|j: int| 0 <= j < names@.len() ==> !is_heightmap_file(#[trigger] names@[j]@),
        },
{
    let key = chars_of("heightmap");
    let ext = chars_of(".dvpl");
    let mut i: usize = 0;
    while i < names.len()
        invariant
            i <= names@.len(),
            key@ == "heightmap"@,
            ext@ == ".dvpl"@,
            forall|j: int| 0 <= j < i ==> !is_heightmap_file(#[trigger] names@[j]@),
        decreases names@.len() - i,
    {
        let low = str_to_lowercase(names[i].as_str());
        let lv = chars_of(low.as_str());
        if contains_vec(&lv, &key) && ends_with_vec(&lv, &ext) {
            return Some(i);
        }
        i = i + 1;
    }
    None
}

} // verus!
