use wotb_agent::game_extract::{
    game_dir_newer_than_data, game_version, norm_file_name, orphan_game_data_ids, parse_u32,
    next_stage, pick_game_dir, pick_vehicle_file, resolve_game_dir, ExtractOutcome, ExtractStage,
    ExtractStats, GameDirError,
    DEFAULT_GAME_DIRS,
};

fn names(v: &[&str]) -> Vec<String> {
    v.iter().map(|s| s.to_string()).collect()
}

#[test]
fn file_name_normal_form() {
    assert_eq!(norm_file_name("GB91_Super_Conqueror"), "gb91superconqueror");
    assert_eq!(norm_file_name("super-conqueror"), "superconqueror");
    assert_eq!(norm_file_name("--"), "");
}

#[test]
fn vehicle_file_contains_shortest_first() {
    let ns = names(&[
        "GB91_Super_Conqueror_Tutorial.xml.dvpl",
        "GB91_Super_Conqueror_IGR.xml.dvpl",
        "GB91_Super_Conqueror.xml.dvpl",
        "readme.txt",
    ]);
    assert_eq!(pick_vehicle_file("super-conqueror", ".xml.dvpl", &ns), Some(2));
}

#[test]
fn vehicle_file_exact_normal_form_wins() {
    let ns = names(&["A_B_C_long.yaml.dvpl", "A-B-C.yaml.dvpl"]);
    assert_eq!(pick_vehicle_file("abc", ".yaml.dvpl", &ns), Some(1));
}

#[test]
fn vehicle_file_anchored_reverse_match() {
    // "m6" is inside "xm66f" but neither a prefix nor a suffix of it
    let ns = names(&["M6.xml.dvpl", "XM66.xml.dvpl"]);
    assert_eq!(pick_vehicle_file("xm66f", ".xml.dvpl", &ns), Some(1));
    let only = names(&["M6.xml.dvpl"]);
    assert_eq!(pick_vehicle_file("xm66f", ".xml.dvpl", &only), None);
}

#[test]
fn vehicle_file_bot_variants_excluded() {
    let ns = names(&["T34_bot.xml.dvpl"]);
    assert_eq!(pick_vehicle_file("t34", ".xml.dvpl", &ns), None);
    assert_eq!(pick_vehicle_file("__", ".xml.dvpl", &names(&["x.xml.dvpl"])), None);
}

#[test]
fn version_prefers_release_token() {
    assert_eq!(
        game_version(b"10.30.0.903 release/11.20.0 WOTB_Win7-\n"),
        Some("release/11.20.0".to_string())
    );
    assert_eq!(game_version(b"  10.30.0.903  \n"), Some("10.30.0.903".to_string()));
    assert_eq!(game_version(b"a b release/1"), Some("release/1".to_string()));
    assert_eq!(game_version(b" \t\n"), None);
    assert_eq!(game_version(b""), None);
}

#[test]
fn u32_parsing_like_std() {
    let p = |s: &str| parse_u32(&s.chars().collect::<Vec<_>>());
    assert_eq!(p("123"), Some(123));
    assert_eq!(p("+7"), Some(7));
    assert_eq!(p("4294967295"), Some(4294967295));
    assert_eq!(p("4294967296"), None);
    assert_eq!(p(""), None);
    assert_eq!(p("+"), None);
    assert_eq!(p("-1"), None);
    assert_eq!(p("12a"), None);
    for s in ["0", "00042", "+0", "99999999999", " 1"] {
        assert_eq!(p(s), s.parse::<u32>().ok());
    }
}

#[test]
fn orphans_sorted() {
    let ns = names(&["30.json", "5.json", "7.json", "notes.txt", "x.json", "12.json"]);
    assert_eq!(orphan_game_data_ids(&ns, &[7, 12]), vec![5, 30]);
    assert!(orphan_game_data_ids(&[], &[]).is_empty());
}

#[test]
fn newer_than_data() {
    assert!(game_dir_newer_than_data(Some(10), &[1, 5, 9]));
    assert!(!game_dir_newer_than_data(Some(10), &[1, 10]));
    assert!(!game_dir_newer_than_data(Some(10), &[]));
    assert!(!game_dir_newer_than_data(None, &[1]));
}

#[test]
fn missing_explicit_dir_is_reported() {
    match resolve_game_dir(Some("/definitely/not/here/wotb"), |p: &str| std::path::Path::new(p).exists()) {
        Err(GameDirError::NotFound(p)) => assert_eq!(p, "/definitely/not/here/wotb"),
        _ => panic!("expected NotFound"),
    }
    assert_eq!(resolve_game_dir(Some("."), |p: &str| std::path::Path::new(p).exists()).unwrap(), ".");
    // the usual locations are probed in order, up to the first that exists
    let probed: std::cell::RefCell<Vec<String>> = std::cell::RefCell::new(Vec::new());
    let probe = |p: &str| {
        probed.borrow_mut().push(p.to_string());
        p == DEFAULT_GAME_DIRS[1]
    };
    assert_eq!(resolve_game_dir(None, probe).unwrap(), DEFAULT_GAME_DIRS[1]);
    assert_eq!(probed.into_inner(), vec![DEFAULT_GAME_DIRS[0].to_string(), DEFAULT_GAME_DIRS[1].to_string()]);
    assert!(matches!(resolve_game_dir(None, |_p: &str| false), Err(GameDirError::NoneFound)));
}

#[test]
fn stats_start_at_zero() {
    let s = ExtractStats::default();
    assert_eq!(s.extracted + s.cached + s.skipped_no_name + s.missing_files, 0);
    assert_eq!(s.parse_failed + s.write_failed, 0);
}

#[test]
fn version_of_invalid_utf8_text() {
    assert_eq!(game_version(&[0xff, b' ', b'r', b'e', b'l', b'e', b'a', b's', b'e', b'/', b'1']),
        Some("release/1".to_string()));
    assert_eq!(game_version(&[b' ', 0xff, b' ']), Some("\u{FFFD}".to_string()));
}

#[test]
fn game_dir_choice_from_probes() {
    assert_eq!(pick_game_dir(Some("/x"), &[true]).unwrap(), "/x");
    match pick_game_dir(Some("/x"), &[false]) {
        Err(GameDirError::NotFound(p)) => assert_eq!(p, "/x"),
        _ => panic!("expected NotFound"),
    }
    assert_eq!(pick_game_dir(None, &[false, true, false, true]).unwrap(), DEFAULT_GAME_DIRS[1]);
    assert_eq!(pick_game_dir(None, &[true, true, true, true]).unwrap(), DEFAULT_GAME_DIRS[0]);
    assert!(matches!(pick_game_dir(None, &[false; 4]), Err(GameDirError::NoneFound)));
}

#[test]
fn stats_count_outcomes() {
    let mut s = ExtractStats::default();
    s.record(ExtractOutcome::Extracted);
    s.record(ExtractOutcome::Extracted);
    s.record(ExtractOutcome::WriteFailed);
    s.record(ExtractOutcome::NoName);
    assert_eq!((s.extracted, s.write_failed, s.skipped_no_name, s.cached), (2, 1, 1, 0));
}

#[test]
fn extraction_stages() {
    let run = |answers: &[bool]| {
        let mut s = ExtractStage::CheckNames;
        for a in answers {
            s = next_stage(s, *a);
        }
        s
    };
    assert_eq!(run(&[false]), ExtractStage::Done(ExtractOutcome::NoName));
    assert_eq!(run(&[true, true]), ExtractStage::Done(ExtractOutcome::Cached));
    assert_eq!(run(&[true, false, false]), ExtractStage::Done(ExtractOutcome::MissingFiles));
    assert_eq!(run(&[true, false, true, false]), ExtractStage::Done(ExtractOutcome::ParseFailed));
    assert_eq!(run(&[true, false, true, true, true]), ExtractStage::Done(ExtractOutcome::Extracted));
    assert_eq!(run(&[true, false, true, true, false, true]), ExtractStage::Done(ExtractOutcome::WriteFailed));
}
