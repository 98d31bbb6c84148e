use wotb_agent::sessions::{hand_over_failed, list_ids, start_chat, BusyFlag, ChatError};
use wotb_agent::snapshot::{is_snapshot_file, snapshot_file_name, totals_diff, RatingTotals};

fn strings(v: &[&str]) -> Vec<String> {
    v.iter().map(|s| s.to_string()).collect()
}

#[test]
fn session_ids_merged_and_sorted() {
    let active = strings(&["zeta", "alpha", "alpha"]);
    let files = strings(&["beta.json", "zeta.json", ".json", "notes.txt", "Gamma.json", "a.b.json"]);
    assert_eq!(list_ids(&active, &files), strings(&["Gamma", "a.b", "alpha", "beta", "zeta"]));
    assert!(list_ids(&[], &[]).is_empty());
}

#[test]
fn one_chat_turn_at_a_time() {
    let mut flag = BusyFlag::new();
    assert!(start_chat(&mut flag, "s1").is_ok());
    assert!(flag.busy());
    assert!(matches!(start_chat(&mut flag, "s1"), Err(ChatError::Busy)));
    match hand_over_failed(&mut flag) {
        ChatError::Failed(m) => assert_eq!(m, "session actor terminated"),
        _ => panic!("expected Failed"),
    }
    assert!(!flag.busy());
    assert!(start_chat(&mut flag, "s1").is_ok());
}

#[test]
fn chat_invalid_id_leaves_flag() {
    let mut flag = BusyFlag::new();
    assert!(matches!(start_chat(&mut flag, "../x"), Err(ChatError::InvalidId)));
    assert!(!flag.busy());
    assert!(flag.try_acquire());
    assert!(!flag.try_acquire());
    flag.release();
    assert!(!flag.busy());
}

#[test]
fn snapshot_names() {
    assert_eq!(snapshot_file_name(1700000000), "snapshot_1700000000.json");
    assert_eq!(snapshot_file_name(-5), "snapshot_-5.json");
    assert_eq!(snapshot_file_name(i64::MIN), format!("snapshot_{}.json", i64::MIN));
    assert!(is_snapshot_file("snapshot_1.json"));
    assert!(!is_snapshot_file("snapshot_1.txt"));
    assert!(!is_snapshot_file("other_1.json"));
}

#[test]
fn snapshot_totals_change() {
    check_totals();
}

fn totals(b: u32, w: u32, d: u64) -> RatingTotals {
    RatingTotals { battles: b, wins: w, losses: b - w, damage_dealt: d, frags: 3, shots: 10, hits: 7, xp: d / 2 }
}

fn check_totals() {
    let a = totals(100, 60, 150000);
    let b = totals(110, 65, 162000);
    let d = totals_diff(&a, &b);
    assert_eq!(d.battles_played, 10);
    assert_eq!(d.wins_diff, 5);
    assert_eq!(d.losses_diff, 5);
    assert_eq!(d.damage_diff, 12000);
    assert_eq!(d.xp_diff, 6000);
    let back = totals_diff(&b, &a);
    assert_eq!(back.battles_played, 0);
    assert_eq!(back.damage_diff, -12000);
}

#[test]
fn snapshot_totals_wrap_like_i64() {
    let mut a = totals(1, 0, 0);
    let mut b = totals(1, 0, 0);
    a.damage_dealt = u64::MAX;
    b.damage_dealt = 0;
    assert_eq!(totals_diff(&a, &b).damage_diff, (0u64 as i64).wrapping_sub(u64::MAX as i64));
    a.xp = 5;
    b.xp = u64::MAX;
    assert_eq!(totals_diff(&a, &b).xp_diff, (u64::MAX as i64).wrapping_sub(5u64 as i64));
    b.frags = 1u64 << 63;
    a.frags = 0;
    assert_eq!(totals_diff(&a, &b).frags_diff, ((1u64 << 63) as i64).wrapping_sub(0));
}
