use wotb_agent::armor_xml::{is_float_text, parse_hull_position, ArmorModel};

const XML: &str = "<root>
<hull>
  <armor>
    <armor_1> 120 </armor_1>
    <armor_2>80.5<vehicleDamageFactor>0</vehicleDamageFactor></armor_2>
    <armor_3>45</armor_3>
  </armor>
  <primaryArmor> armor_1 armor_3 armor_4 </primaryArmor>
</hull>
<chassis><armor><leftTrack> 20 </leftTrack><rightTrack>20.5</rightTrack></armor></chassis>
<turrets0>
  <armor><armor_1>200</armor_1><armor_7>30<vehicleDamageFactor>0</vehicleDamageFactor></armor_7></armor>
  <primaryArmor>armor_1 armor_2</primaryArmor>
  <guns>
    <armor><armor_1>150</armor_1><gun> 25 </gun></armor>
  </guns>
</turrets0>
</root>";

fn pairs(v: &[(String, String)]) -> Vec<(&str, &str)> {
    v.iter().map(|(a, b)| (a.as_str(), b.as_str())).collect()
}

#[test]
fn armor_model_from_xml() {
    let m = ArmorModel::parse_from_xml(XML).expect("hull armour");
    assert_eq!(pairs(&m.hull.plates), vec![("1", "120"), ("2", "80.5"), ("3", "45")]);
    assert_eq!(m.hull.spaced, vec!["2".to_string()]);
    assert_eq!(m.hull.primary.front, "armor_1");
    assert_eq!(m.hull.primary.sides, "armor_3");
    assert_eq!(m.hull.primary.rear, "armor_4");
    let t = m.turret.expect("turret armour");
    assert_eq!(pairs(&t.plates), vec![("1", "200"), ("7", "30")]);
    assert_eq!(t.spaced, vec!["7".to_string()]);
    assert_eq!(t.primary.front, "armor_1");
    assert_eq!(t.primary.sides, "armor_2");
    assert_eq!(t.primary.rear, "");
    let g = m.gun.expect("gun armour");
    assert_eq!(pairs(&g.plates), vec![("1", "150"), ("gun", "25")]);
    assert_eq!(g.primary.sides, "armor_1");
    let c = m.chassis.expect("tracks");
    assert_eq!(c.left_track, "20");
    assert_eq!(c.right_track, "20.5");
}

#[test]
fn armor_model_needs_hull() {
    assert!(ArmorModel::parse_from_xml("<turrets0></turrets0>").is_none());
    assert!(ArmorModel::parse_from_xml("<hull><armor></hull>").is_none());
}

#[test]
fn armor_defaults_without_primary_and_turret_guns_first() {
    let xml = "<hull><armor><armor_4>10</armor_4></armor></hull>\
               <turrets0><guns><armor><armor_1>5</armor_1></armor></guns></turrets0>";
    let m = ArmorModel::parse_from_xml(xml).unwrap();
    assert_eq!(m.hull.primary.front, "armor_1");
    assert_eq!(m.hull.primary.sides, "armor_3");
    assert_eq!(m.hull.primary.rear, "armor_4");
    assert!(m.turret.is_none());
    let g = m.gun.unwrap();
    assert_eq!(pairs(&g.plates), vec![("1", "5")]);
    assert!(m.chassis.is_none());
}

#[test]
fn float_texts_like_std() {
    let cases = [
        "1", "1.", ".5", "1.5e3", "-2E-2", "+inf", "NaN", "Infinity", "", ".", "e5", "1e", "1.2.3",
        "abc", "- 1", "1_0", "infinit", "+", "0x10", "3.4e+38", "1e999",
    ];
    for c in cases {
        let v: Vec<char> = c.chars().collect();
        assert_eq!(is_float_text(&v), c.parse::<f32>().is_ok(), "{c}");
    }
}

#[test]
fn hull_position_three_numbers() {
    let r = parse_hull_position("<a><hullPosition> 0.0 0.45  -0.1 </hullPosition></a>");
    assert_eq!(r, Some(("0.0".to_string(), "0.45".to_string(), "-0.1".to_string())));
    assert_eq!(parse_hull_position("<hullPosition>1 x 2 3</hullPosition>"),
        Some(("1".to_string(), "2".to_string(), "3".to_string())));
    assert_eq!(parse_hull_position("<hullPosition>1 2</hullPosition>"), None);
    assert_eq!(parse_hull_position("<hullPosition>1 2 3 4</hullPosition>"), None);
    assert_eq!(parse_hull_position("<hullPosition>1 2 3"), None);
}
