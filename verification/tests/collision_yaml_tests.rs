use wotb_agent::collision_yaml::{yaml_readable, CollisionText, Triple};

const YAML: &str = "name: tank
collision:
  chassis:
    bbox:
      min: [-1.5, 0.0, -3.0]
      max: [1.5, 1.0, 3.0]
  hull:
    points: [0.0, 0.8, 0.1]
    bbox:
      min: [ -1.4 , 0.5, -2.9 ]
      max: [1.4, 1.6, 2.9]
  turret_01:
    points: [0, 1.9, -0.2]
  averageThickness:
    hull: 80
    turret_01: 120.5 mm
";

fn t(x: &Triple) -> (String, String, String) {
    (x.x.clone(), x.y.clone(), x.z.clone())
}

fn s3(a: &str, b: &str, c: &str) -> (String, String, String) {
    (a.to_string(), b.to_string(), c.to_string())
}

#[test]
fn collision_boxes_and_points() {
    assert!(yaml_readable(YAML));
    let c = CollisionText::parse_from_yaml(YAML).unwrap();
    let ch = c.chassis_bbox.as_ref().expect("chassis box");
    assert_eq!(t(&ch.min), s3("-1.5", "0.0", "-3.0"));
    assert_eq!(t(&ch.max), s3("1.5", "1.0", "3.0"));
    let hull = c.hull_bbox.as_ref().expect("hull box");
    assert_eq!(t(&hull.min), s3("-1.4", "0.5", "-2.9"));
    assert_eq!(t(c.hull_points.as_ref().unwrap()), s3("0.0", "0.8", "0.1"));
    assert_eq!(t(c.turret_points.as_ref().unwrap()), s3("0", "1.9", "-0.2"));
    assert!(c.turret_bbox.is_none());
    assert!(c.gun_bbox.is_none());
    assert!(c.gun_points.is_none());
    assert_eq!(c.average_thickness_hull.as_deref(), Some("120.5"));
}

#[test]
fn collision_absent_gives_nothing() {
    let c = CollisionText::parse_from_yaml("hull: 1").unwrap();
    assert!(c.hull_bbox.is_none() && c.hull_points.is_none() && c.average_thickness_hull.is_none());
}

#[test]
fn collision_short_lists_are_skipped() {
    let y = "collision:\n  hull:\n    points: [1, x, 2]\n    bbox:\n      min: [1,2]\n      max: [1,2,3]\n";
    let c = CollisionText::parse_from_yaml(y).unwrap();
    assert!(c.hull_points.is_none());
    assert!(c.hull_bbox.is_none());
}

#[test]
fn collision_unreadable_texts() {
    // byte 400 after "hull:" falls inside a two-byte character
    let mut y = String::from("collision:\nhull:");
    y.push_str(&"a".repeat(394));
    y.push('é');
    y.push_str("tail");
    assert!(!yaml_readable(&y));
    // "max:" before "min:"
    assert!(!yaml_readable("collision:\nhull:\n max: [1,2,3]\n min: [1,2,3]\n"));
    // exactly on a boundary is fine
    let mut z = String::from("collision:\nhull:");
    z.push_str(&"a".repeat(395));
    z.push('é');
    assert!(yaml_readable(&z));
}
