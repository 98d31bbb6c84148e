use wotb_agent::api_client::WgApiClient;
use wotb_agent::data_version::DataVersionManifest;
use wotb_agent::heatmap_ready::{mark_session_ready, session_ready, ReadySessions};
use wotb_agent::penetration::{collect_hits, ArmorSection, ShellType};
use wotb_agent::sessions::valid_id;
use wotb_agent::snapshot::SnapshotStore;
use wotb_agent::tank_resolver::{norm_name, strip_ws, NameIndex};

#[test]
fn api_urls_per_region() {
    let c = WgApiClient::new("abc", "eu");
    assert_eq!(c.base_url(), "https://api.wotblitz.eu");
    assert_eq!(c.application_id(), "abc");
    assert_eq!(
        c.search_player_url("Tom", true),
        "https://api.wotblitz.eu/wotb/account/list/?application_id=abc&search=Tom&type=exact&limit=10"
    );
    assert_eq!(
        c.search_player_url("Tom", false),
        "https://api.wotblitz.eu/wotb/account/list/?application_id=abc&search=Tom&type=startswith&limit=10"
    );
    assert_eq!(
        c.player_stats_url(123456),
        "https://api.wotblitz.eu/wotb/account/info/?application_id=abc&account_id=123456&extra=statistics.rating"
    );
    assert_eq!(WgApiClient::new("a", "na").base_url(), "https://api.wotblitz.com");
    assert_eq!(WgApiClient::new("a", "com").base_url(), "https://api.wotblitz.com");
    assert_eq!(WgApiClient::new("a", "asia").base_url(), "https://api.wotblitz.asia");
    assert_eq!(WgApiClient::new("a", "ru").base_url(), "https://api.wotblitz.asia");
}

#[test]
fn manifest_version_presence() {
    let mut m = DataVersionManifest::default();
    assert!(!m.has_version());
    m.game_version = "release/11.20.0".to_string();
    assert!(m.has_version());
}

#[test]
fn ready_after_mark() {
    let mut r = ReadySessions::new();
    assert!(!session_ready(&r, "s1"));
    mark_session_ready(&mut r, "s1");
    assert!(session_ready(&r, "s1"));
    assert!(!session_ready(&r, "s2"));
    mark_session_ready(&mut r, "s1");
    assert!(session_ready(&r, "s1"));
}

#[test]
fn shell_type_names() {
    assert_eq!(ShellType::from_str("ap"), ShellType::AP);
    assert_eq!(ShellType::from_str("AP_PREMIUM"), ShellType::AP);
    assert_eq!(ShellType::from_str("ap_cr"), ShellType::APCR);
    assert_eq!(ShellType::from_str("apcr"), ShellType::APCR);
    assert_eq!(ShellType::from_str("AP_CR_X"), ShellType::APCR);
    assert_eq!(ShellType::from_str("ap_cr_premium"), ShellType::APCR);
    assert_eq!(ShellType::from_str("ap_c"), ShellType::HE);
    assert_eq!(ShellType::from_str("hc"), ShellType::HEAT);
    assert_eq!(ShellType::from_str("HEAT"), ShellType::HEAT);
    assert_eq!(ShellType::from_str("he_premium"), ShellType::HE);
    assert_eq!(ShellType::from_str("something"), ShellType::HE);
    assert!(ShellType::AP.is_kinetic() && ShellType::APCR.is_kinetic());
    assert!(!ShellType::HE.is_kinetic() && !ShellType::HEAT.is_kinetic());
    assert!(ShellType::HE.is_explosive() && !ShellType::HEAT.is_explosive());
    assert!(ShellType::HE.is_explosive_type() && ShellType::HEAT.is_explosive_type());
    assert!(!ShellType::AP.is_explosive_type());
}

#[test]
fn armor_section_classes() {
    assert!(ArmorSection::Hull.is_primary() && ArmorSection::Gun.is_primary());
    assert!(!ArmorSection::Spaced.is_primary());
    assert!(ArmorSection::Chassis.is_module() && ArmorSection::GunBarrel.is_module());
    assert_eq!(ArmorSection::Chassis.module_variant(), Some("track"));
    assert_eq!(ArmorSection::GunBarrel.module_variant(), Some("gun"));
    assert_eq!(ArmorSection::Turret.module_variant(), None);
}

#[test]
fn hits_stop_at_first_primary() {
    let secs = [
        ArmorSection::Chassis,
        ArmorSection::Chassis,
        ArmorSection::Spaced,
        ArmorSection::GunBarrel,
        ArmorSection::GunBarrel,
        ArmorSection::Hull,
        ArmorSection::Spaced,
        ArmorSection::Turret,
    ];
    assert_eq!(collect_hits(&secs), vec![0, 2, 3, 5]);
    assert_eq!(collect_hits(&[ArmorSection::Spaced, ArmorSection::Chassis]), vec![0, 1]);
    assert!(collect_hits(&[]).is_empty());
}

#[test]
fn session_ids() {
    assert!(valid_id("abc_DEF-123"));
    assert!(!valid_id(""));
    assert!(!valid_id("../x"));
    assert!(!valid_id(&"a".repeat(65)));
    assert!(valid_id(&"a".repeat(64)));
}

#[test]
fn snapshot_store_dir() {
    let s = SnapshotStore::new("snapshots");
    assert_eq!(s.dir(), "snapshots");
}

#[test]
fn tank_name_normalisation() {
    assert_eq!(norm_name("IS-7"), "is 7");
    assert_eq!(norm_name("E_100"), "e 100");
    assert_eq!(norm_name("Ho·Ri"), "ho ri");
    assert_eq!(strip_ws(&norm_name("E 100")), "e100");
    assert_eq!(strip_ws(" a\tb\nc "), "abc");
}

#[test]
fn name_index_entries() {
    let mut idx = NameIndex::new();
    idx.add(7169, "IS-7");
    idx.add(1, "E 100");
    assert_eq!(idx.len(), 2);
    let e = idx.get(0);
    assert_eq!((e.norm.as_str(), e.norm_ns.as_str(), e.id), ("is 7", "is7", 7169));
    let e = idx.get(1);
    assert_eq!((e.norm.as_str(), e.norm_ns.as_str(), e.id), ("e 100", "e100", 1));
}

#[test]
fn name_index_replaces_tank_entry() {
    let mut idx = NameIndex::new();
    idx.add(1, "E-100");
    idx.add(2, "IS-7");
    idx.add(1, "E 100 Renamed");
    assert_eq!(idx.len(), 2);
    let first = idx.get(0);
    assert_eq!((first.norm.as_str(), first.id), ("is 7", 2));
    let last = idx.get(1);
    assert_eq!((last.norm.as_str(), last.norm_ns.as_str(), last.id), ("e 100 renamed", "e100renamed", 1));
}
