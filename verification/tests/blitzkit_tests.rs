use wotb_agent::blitzkit::{
    decode_class_code, extract_name, load_model_ids, model_info, parse_models_pb, read_varint,
};
use wotb_agent::protobuf::PbError;

fn varint(mut v: u64) -> Vec<u8> {
    let mut out = Vec::new();
    loop {
        let b = (v & 0x7f) as u8;
        v >>= 7;
        if v == 0 {
            out.push(b);
            return out;
        }
        out.push(b | 0x80);
    }
}

fn fv(n: u32, v: u64) -> Vec<u8> {
    let mut out = varint(((n as u64) << 3) | 0);
    out.extend(varint(v));
    out
}

fn fb(n: u32, b: &[u8]) -> Vec<u8> {
    let mut out = varint(((n as u64) << 3) | 2);
    out.extend(varint(b.len() as u64));
    out.extend_from_slice(b);
    out
}

fn gun(module: u64, node: u64) -> Vec<u8> {
    let mut g = fv(1, module);
    g.extend(fb(2, &fv(3, node)));
    g
}

fn turret(module: u64, node: u64, guns: &[(u64, u64)]) -> Vec<u8> {
    let mut content = fv(3, node);
    for (m, n) in guns {
        content.extend(fb(5, &gun(*m, *n)));
    }
    let mut t = fv(1, module);
    t.extend(fb(2, &content));
    t
}

fn tank(id: u64, turrets: &[Vec<u8>]) -> Vec<u8> {
    let mut content = Vec::new();
    for t in turrets {
        content.extend(fb(4, t));
    }
    let mut e = fv(1, id);
    e.extend(fb(2, &content));
    e
}

fn models(tanks: &[Vec<u8>]) -> Vec<u8> {
    let mut out = Vec::new();
    for t in tanks {
        out.extend(fb(1, t));
    }
    out
}

#[test]
fn model_ids_sorted_and_unique() {
    let ids = load_model_ids(&[]);
    assert!(ids.windows(2).all(|w| w[0] < w[1]), "model ids must be strictly ascending");
}

#[test]
fn model_ids_from_buffer_sorted_dedup() {
    let buf = models(&[tank(30, &[]), tank(10, &[]), tank(30, &[]), tank(20, &[])]);
    assert_eq!(load_model_ids(&buf), vec![10, 20, 30]);
    assert!(load_model_ids(&[0x0a, 0x05, 0x01]).is_empty());
}

#[test]
fn models_pb_tiger_layout() {
    let a = turret(8209, 1, &[(2321, 2), (10513, 7), (10769, 8)]);
    let b = turret(8465, 2, &[(2321, 4), (10513, 9), (10769, 10)]);
    let buf = models(&[tank(5137, &[a, b])]);
    let ms = parse_models_pb(&buf).unwrap();
    assert_eq!(ms.len(), 1);
    let tiger = model_info(&ms, 5137).expect("Tiger II");
    assert_eq!(tiger.turrets.len(), 2);
    assert_eq!(tiger.turrets[0].module_id, 8209);
    assert_eq!(tiger.turrets[0].model_node, 1);
    assert_eq!(
        tiger.turrets[0].guns.iter().map(|g| (g.gun_module_id, g.model_node)).collect::<Vec<_>>(),
        vec![(2321, 2), (10513, 7), (10769, 8)]
    );
    assert_eq!(tiger.turrets[1].module_id, 8465);
    assert_eq!(
        tiger.turrets[1].guns.iter().map(|g| (g.gun_module_id, g.model_node)).collect::<Vec<_>>(),
        vec![(2321, 4), (10513, 9), (10769, 10)]
    );
    assert!(model_info(&ms, 1).is_none());
}

#[test]
fn models_pb_entry_without_content_is_skipped() {
    let mut buf = fb(1, &fv(1, 42));
    buf.extend(models(&[tank(7, &[])]));
    let ms = parse_models_pb(&buf).unwrap();
    assert_eq!(ms.len(), 1);
    assert_eq!(ms[0].tank_id, 7);
}

#[test]
fn models_pb_truncated_is_error() {
    let buf = vec![0x0a, 0x10, 0x08];
    assert!(matches!(parse_models_pb(&buf), Err(PbError::Truncated)));
    let bad_wire = vec![0x0b];
    assert!(matches!(parse_models_pb(&bad_wire), Err(PbError::UnsupportedWire)));
}

#[test]
fn class_codes() {
    assert_eq!(decode_class_code(1), "mediumTank");
    assert_eq!(decode_class_code(2), "heavyTank");
    assert_eq!(decode_class_code(3), "AT-SPG");
    assert_eq!(decode_class_code(0), "lightTank");
    assert_eq!(decode_class_code(9), "lightTank");
}

#[test]
fn read_varint_multi_byte() {
    let b = [0xac, 0x02, 0x05];
    let mut i = 0usize;
    assert_eq!(read_varint(&b, &mut i), Some(300));
    assert_eq!(i, 2);
    assert_eq!(read_varint(&b, &mut i), Some(5));
    assert_eq!(read_varint(&b, &mut i), None);
    let cut = [0x80];
    let mut j = 0usize;
    assert_eq!(read_varint(&cut, &mut j), None);
}

#[test]
fn extract_name_finds_english_entry() {
    let mut b = vec![0x0a, 0x02, b'r', b'u', 0x12, 0x01, b'x'];
    b.extend_from_slice(&[0x02, b'e', b'n', 0x12, 0x04]);
    b.extend_from_slice(b"IS-7");
    assert_eq!(extract_name(&b), "IS-7");
    assert_eq!(extract_name(&[0x02, b'e', b'n', 0x12, 0x09, b'a']), "");
    assert_eq!(extract_name(b"no marker"), "");
}

#[test]
fn extract_name_replaces_invalid_utf8() {
    let b = [0x02, b'e', b'n', 0x12, 0x02, 0xff, b'a'];
    assert_eq!(extract_name(&b), "\u{FFFD}a");
}
