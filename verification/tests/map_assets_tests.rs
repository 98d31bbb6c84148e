use wotb_agent::map_assets::{
    heightmap_compatible, internal_dir, map_space, meta_path, parse_heightmap, pick_heightmap_file,
    terrain_bytes,
    MAP_DIRS, MAP_SPACES,
};

#[test]
fn all_maps_have_internal_dir() {
    for (name, dir) in MAP_DIRS.iter() {
        assert_eq!(internal_dir(name), Some(*dir));
        assert!(dir.chars().all(|c| c.is_ascii_lowercase() || c == '_' || c.is_ascii_digit()));
    }
}

#[test]
fn unknown_name_rejected() {
    assert!(internal_dir("Undefined").is_none());
    assert!(internal_dir("../etc").is_none());
    assert!(meta_path("../evil").is_none());
}

#[test]
fn heightmap_parse_untile_and_flip() {
    let size = 512usize;
    let tile = 16usize;
    let mut raw = vec![0u8; 8 + size * size * 2];
    raw[0..4].copy_from_slice(&(size as u32).to_le_bytes());
    raw[4..8].copy_from_slice(&(tile as u32).to_le_bytes());
    let mut src = vec![0u16; size * size];
    for by in 0..size / tile {
        for bx in 0..size / tile {
            for ly in 0..tile {
                for lx in 0..tile {
                    let v = ((by * tile + ly) * size + bx * tile + lx) as u16 % 65535;
                    src[(by * size / tile + bx) * tile * tile + ly * tile + lx] = v;
                }
            }
        }
    }
    for (i, v) in src.iter().enumerate() {
        raw[8 + i * 2..8 + i * 2 + 2].copy_from_slice(&v.to_le_bytes());
    }
    let t = parse_heightmap(&raw).expect("standard contract must parse");
    for (r, c) in [(0usize, 0usize), (100, 200), (511, 511), (256, 128)] {
        let expect = (r * size + (size - 1 - c)) as u16 % 65535;
        let got = t.heights[r * size + c];
        assert_eq!(got, expect, "({r},{c}): {got} vs {expect}");
    }
    raw[4..8].copy_from_slice(&8u32.to_le_bytes());
    assert!(parse_heightmap(&raw).is_none());
}

#[test]
fn map_space_known_and_unknown() {
    for (name, space) in MAP_SPACES.iter() {
        assert_eq!(map_space(name), Some(*space));
    }
    assert!(map_space("Undefined").is_none());
}

#[test]
fn map_lookup_ignores_ascii_case() {
    let (name, dir) = MAP_DIRS[0];
    assert_eq!(internal_dir(&name.to_ascii_uppercase()), Some(dir));
}

#[test]
fn heightmap_incompatible_list() {
    assert!(!heightmap_compatible("Himmelsdorf"));
    assert!(!heightmap_compatible("himmelsDORF"));
    assert!(heightmap_compatible("Alpenstadt"));
}

#[test]
fn meta_path_of_plain_name() {
    assert_eq!(meta_path("Alpenstadt"), Some("maps/Alpenstadt.json".to_string()));
    assert!(meta_path("").is_none());
    assert!(meta_path("a/b").is_none());
}

#[test]
fn heightmap_wrong_length_rejected() {
    let mut raw = vec![0u8; 8 + 10];
    raw[0..4].copy_from_slice(&512u32.to_le_bytes());
    raw[4..8].copy_from_slice(&16u32.to_le_bytes());
    assert!(parse_heightmap(&raw).is_none());
    assert!(parse_heightmap(&[]).is_none());
}

#[test]
fn terrain_bytes_little_endian() {
    let mut raw = vec![0u8; 8 + 512 * 512 * 2];
    raw[0..4].copy_from_slice(&512u32.to_le_bytes());
    raw[4..8].copy_from_slice(&16u32.to_le_bytes());
    // stored index 0 is row 0, column 0; it lands in output column 511
    raw[8] = 0x34;
    raw[9] = 0x12;
    let t = parse_heightmap(&raw).unwrap();
    assert_eq!(t.heights[511], 0x1234);
    let b = terrain_bytes(&t);
    assert_eq!(b.len(), 512 * 512 * 2);
    assert_eq!(b[511 * 2], 0x34);
    assert_eq!(b[511 * 2 + 1], 0x12);
}

#[test]
fn heightmap_file_choice() {
    let names: Vec<String> = ["a.txt", "Terrain_HeightMap.raw", "x_HEIGHTMAP.heightmap.DVPL", "heightmap2.dvpl"]
        .iter().map(|s| s.to_string()).collect();
    assert_eq!(pick_heightmap_file(&names), Some(2));
    assert_eq!(pick_heightmap_file(&names[..2]), None);
}
