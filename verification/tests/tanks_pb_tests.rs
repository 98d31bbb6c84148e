use wotb_agent::protobuf::PbError;
use wotb_agent::tanks_pb::{icon_url, named_tanks, parse_tanks_pb, tank_full};

fn varint(mut v: u64) -> Vec<u8> {
    let mut out = Vec::new();
    loop {
        let b = (v & 0x7f) as u8;
        v >>= 7;
        if v == 0 {
            out.push(b);
            return out;
        }
        out.push(b | 0x80);
    }
}

fn fv(n: u32, v: u64) -> Vec<u8> {
    let mut out = varint((n as u64) << 3);
    out.extend(varint(v));
    out
}

fn fb(n: u32, b: &[u8]) -> Vec<u8> {
    let mut out = varint(((n as u64) << 3) | 2);
    out.extend(varint(b.len() as u64));
    out.extend_from_slice(b);
    out
}

fn ff(n: u32, x: f32) -> Vec<u8> {
    let mut out = varint(((n as u64) << 3) | 5);
    out.extend_from_slice(&x.to_le_bytes());
    out
}

fn en_name(s: &str) -> Vec<u8> {
    let mut b = vec![0x02, b'e', b'n', 0x12, s.len() as u8];
    b.extend_from_slice(s.as_bytes());
    b
}

fn shell_ap() -> Vec<u8> {
    let mut s = fv(1, 99);
    s.extend(fb(2, &en_name("AP shell")));
    s.extend(fv(4, 460));
    s.extend(fv(5, 180));
    s.extend(fb(7, b"ap"));
    s.extend(fb(8, &ff(1, 251.0)));
    s
}

fn gun_single() -> Vec<u8> {
    let mut g = fb(1, &ff(1, 12.4));
    g.extend(fv(4, 2321));
    g.extend(ff(5, 26.25));
    g.extend(fb(8, &en_name("130 mm S-70")));
    g.extend(fv(9, 30));
    g.extend(fb(10, &shell_ap()));
    g.extend(ff(12, 2.3));
    g.extend(ff(13, 0.4));
    g
}

fn turret(gun: &[u8]) -> Vec<u8> {
    let mut t = fv(1, 8209);
    t.extend(fv(2, 9000));
    t.extend(fv(3, 250));
    t.extend(ff(4, 22.0));
    t.extend(fb(6, b"skipped"));
    t.extend(fb(9, gun));
    t
}

fn body(short: Option<&str>, localized: &str, turrets: &[Vec<u8>]) -> Vec<u8> {
    let mut b = fv(1, 1);
    b.extend(fb(2, b"is-7"));
    b.extend(fv(10, 2040));
    b.extend(fb(11, b"ussr"));
    b.extend(fb(12, &en_name(localized)));
    b.extend(fv(13, 0));
    b.extend(fv(16, 10));
    b.extend(fv(17, 2));
    for t in turrets {
        b.extend(fb(20, t));
    }
    b.extend(ff(25, 59.0));
    b.extend(ff(26, 20.0));
    b.extend(ff(27, 0.5));
    b.extend(fv(31, 68000));
    if let Some(s) = short {
        b.extend(fb(32, s.as_bytes()));
    }
    b
}

fn entry(id: u64, body: &[u8]) -> Vec<u8> {
    let mut e = fv(1, id);
    e.extend(fb(2, body));
    e
}

#[test]
fn tanks_pb_single_shot_tank() {
    let buf = fb(1, &entry(7169, &body(Some("IS7"), "IS-7", &[turret(&gun_single())])));
    let tanks = parse_tanks_pb(&buf).unwrap();
    assert_eq!(tanks.len(), 1);
    let is7 = tank_full(&tanks, 7169).expect("IS-7");
    assert_eq!(is7.name, "IS-7");
    assert_eq!(is7.dev_name, "is-7");
    assert_eq!(is7.nation, "ussr");
    assert_eq!(is7.tier, 10);
    assert_eq!(is7.tank_type, "heavyTank");
    assert_eq!(is7.hp, 2040);
    assert!(!is7.is_premium);
    assert_eq!(f32::from_bits(is7.speed_forward_bits), 59.0);
    assert_eq!(is7.weight, 68000);
    let tur = &is7.turrets[0];
    assert_eq!(tur.module_id, 8209);
    assert_eq!(tur.weight, 9000);
    assert_eq!(tur.view_range, 250);
    assert_eq!(f32::from_bits(tur.traverse_speed_bits), 22.0);
    let gun = &tur.guns[0];
    assert_eq!(gun.module_id, 2321);
    assert_eq!(gun.name, "130 mm S-70");
    assert_eq!(gun.shell_count, 30);
    assert_eq!(f32::from_bits(gun.caliber_factor_bits), 26.25);
    let ap = gun.shells.iter().find(|s| s.shell_type == "ap").unwrap();
    assert_eq!(ap.name, "AP shell");
    assert_eq!(f32::from_bits(ap.penetration_bits) as i64, 251);
    assert_eq!(ap.damage, 460);
    assert_eq!(ap.module_damage, 180);
    assert!((f32::from_bits(gun.reload.reload_bits) - 12.4).abs() < 0.001);
    assert!(!gun.reload.is_burst);
}

#[test]
fn tanks_pb_localized_name_falls_back_to_short() {
    let buf = fb(1, &entry(1, &body(Some("Short"), "", &[])));
    let tanks = parse_tanks_pb(&buf).unwrap();
    assert_eq!(tanks[0].name, "Short");
    assert!(tanks[0].turrets.is_empty());
}

#[test]
fn tanks_pb_body_without_short_name_is_dropped() {
    let buf = fb(1, &entry(1, &body(None, "X", &[])));
    assert!(parse_tanks_pb(&buf).unwrap().is_empty());
}

#[test]
fn tanks_pb_magazine_and_drum() {
    let mut mag = ff(1, 30.0);
    mag.extend(ff(2, 2.5));
    mag.extend(ff(3, 3.0));
    let mut g = fb(2, &mag);
    g.extend(ff(5, 20.0));
    let mut drum = ff(1, 4.0);
    drum.extend(ff(1, 6.5));
    drum.extend(ff(1, f32::NAN));
    drum.extend(ff(1, -9.0));
    drum.extend(ff(2, 1.5));
    drum.extend(ff(3, 3.0));
    let mut d = fb(3, &drum);
    d.extend(ff(5, 20.0));
    let buf = fb(1, &entry(14881, &body(Some("T57"), "T57 Heavy", &[turret(&g), turret(&d)])));
    let tanks = parse_tanks_pb(&buf).unwrap();
    let g0 = &tanks[0].turrets[0].guns[0];
    assert!(g0.reload.is_burst && !g0.reload.is_drum, "T57 should be magazine");
    assert_eq!(f32::from_bits(g0.reload.burst_size_bits) as i64, 3);
    assert_eq!(f32::from_bits(g0.reload.reload_bits), 30.0);
    assert_eq!(f32::from_bits(g0.reload.burst_interval_bits), 2.5);
    let d0 = &tanks[0].turrets[1].guns[0];
    assert!(d0.reload.is_burst && d0.reload.is_drum, "drum expected");
    assert_eq!(d0.reload.burst_reloads.len(), 4);
    assert_eq!(f32::from_bits(d0.reload.reload_bits), 6.5);
}

#[test]
fn tanks_pb_gun_without_caliber_is_dropped() {
    let mut g = fv(4, 5);
    g.extend(ff(5, 1.0));
    let buf = fb(1, &entry(2, &body(Some("N"), "N", &[turret(&g)])));
    let tanks = parse_tanks_pb(&buf).unwrap();
    assert!(tanks[0].turrets.is_empty());
}

#[test]
fn tanks_pb_tank_id_from_earlier_field() {
    let mut e = fb(2, &body(Some("A"), "A", &[]));
    e.extend(fv(1, 77));
    e.extend(fb(2, &body(Some("B"), "B", &[])));
    let tanks = parse_tanks_pb(&fb(1, &e)).unwrap();
    assert_eq!(tanks.len(), 2);
    assert_eq!(tanks[0].tank_id, 0);
    assert_eq!(tanks[1].tank_id, 77);
}

#[test]
fn tanks_pb_unexpected_top_level_field() {
    let buf = fv(2, 1);
    assert!(matches!(parse_tanks_pb(&buf), Err(PbError::UnexpectedField)));
    let trunc = vec![0x0a, 0x05, 0x08];
    assert!(matches!(parse_tanks_pb(&trunc), Err(PbError::Truncated)));
    assert!(parse_tanks_pb(&[]).unwrap().is_empty());
}

#[test]
fn named_tanks_keeps_named_only() {
    let mut buf = fb(1, &entry(1, &body(Some("A"), "A", &[])));
    buf.extend(fb(1, &entry(2, &body(Some(""), "", &[]))));
    buf.extend(fb(1, &entry(3, &body(Some("C"), "", &[]))));
    let tanks = named_tanks(parse_tanks_pb(&buf).unwrap());
    assert_eq!(tanks.iter().map(|t| t.tank_id).collect::<Vec<_>>(), vec![1, 3]);
}

#[test]
fn icon_url_has_id() {
    assert_eq!(icon_url(7169), "https://api.blitzkit.app/tanks/7169/icons/big.webp");
}
