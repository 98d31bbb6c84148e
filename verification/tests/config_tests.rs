use wotb_agent::blitzkit::{GunModelInfo, TankModelInfo, TurretModelInfo};
use wotb_agent::tanks_pb::{GunData, GunReload, TurretData};
use wotb_agent::viewer::{config_indices, config_slots, model_config_nodes, node_numbers};

fn gun(module_id: u32) -> GunData {
    GunData {
        module_id,
        name: String::new(),
        caliber_factor_bits: 0,
        shell_count: 0,
        dispersion_bits: 0,
        aim_time_bits: 0,
        shells: Vec::new(),
        reload: GunReload {
            reload_bits: 0,
            is_burst: false,
            is_drum: false,
            burst_size_bits: 0,
            burst_interval_bits: 0,
            burst_reloads: Vec::new(),
        },
    }
}

fn turret(module_id: u32, guns: &[u32]) -> TurretData {
    TurretData {
        module_id,
        name: String::new(),
        weight: 0,
        view_range: 0,
        traverse_speed_bits: 0,
        guns: guns.iter().map(|g| gun(*g)).collect(),
    }
}

fn strings(v: &[&str]) -> Vec<String> {
    v.iter().map(|s| s.to_string()).collect()
}

#[test]
fn model_nodes_last_first() {
    let names = strings(&["chassis", "gun_01", "turret_01", "gun_02", "gun_x", "turret_", "hull"]);
    let (guns, turrets) = model_config_nodes(&names);
    assert_eq!(guns, strings(&["gun_02", "gun_01"]));
    assert_eq!(turrets, strings(&["turret_", "turret_01"]));
    assert_eq!(node_numbers(&guns, 4), vec![1, 2]);
    assert_eq!(node_numbers(&turrets, 7), vec![1]);
    assert_eq!(node_numbers(&strings(&["gun_03", "gun_3", "gun_10"]), 4), vec![3, 10]);
}

#[test]
fn config_indices_from_model_nodes() {
    // Tiger II layout: two turrets sharing three guns, mapped to distinct nodes
    let turrets = vec![turret(8209, &[2321, 10513, 10769]), turret(8465, &[2321, 10513, 10769])];
    let model = TankModelInfo {
        tank_id: 5137,
        turrets: vec![
            TurretModelInfo {
                module_id: 8209,
                model_node: 1,
                guns: vec![
                    GunModelInfo { gun_module_id: 2321, model_node: 2 },
                    GunModelInfo { gun_module_id: 10513, model_node: 7 },
                    GunModelInfo { gun_module_id: 10769, model_node: 8 },
                ],
            },
            TurretModelInfo {
                module_id: 8465,
                model_node: 2,
                guns: vec![
                    GunModelInfo { gun_module_id: 2321, model_node: 4 },
                    GunModelInfo { gun_module_id: 10513, model_node: 9 },
                    GunModelInfo { gun_module_id: 10769, model_node: 10 },
                ],
            },
        ],
    };
    let gun_nums = vec![2, 4, 7, 8, 9, 10];
    let turret_nums = vec![1, 2];
    let idx = config_indices(&turrets, Some(&model), &gun_nums, &turret_nums);
    assert_eq!(idx, vec![(0, 0), (0, 2), (0, 3), (1, 1), (1, 4), (1, 5)]);
}

#[test]
fn config_indices_fallbacks() {
    let turrets = vec![turret(1, &[50, 60]), turret(2, &[60, 70])];
    // no model data and no model nodes: positions and module order
    let idx = config_indices(&turrets, None, &[], &[]);
    assert_eq!(idx, vec![(0, 0), (0, 1), (1, 1), (1, 2)]);
    // turret nodes present: position + 1 looked up among them
    let idx2 = config_indices(&turrets, None, &[], &[1, 2]);
    assert_eq!(idx2, vec![(0, 0), (0, 1), (1, 1), (1, 2)]);
    let idx3 = config_indices(&turrets, None, &[], &[2]);
    assert_eq!(idx3, vec![(0, 0), (0, 1), (0, 1), (0, 2)]);
}

#[test]
fn config_slots_numbered_and_default() {
    let turrets = vec![turret(1, &[50, 60]), turret(2, &[60])];
    assert_eq!(config_slots(&turrets, None, &[], &[]), vec![(0, 0, 0), (1, 0, 1), (2, 1, 1)]);
    let bare = vec![turret(1, &[])];
    assert_eq!(config_slots(&bare, None, &[], &[]), vec![(0, 0, 0)]);
    assert_eq!(config_slots(&[], None, &[], &[]), vec![(0, 0, 0)]);
}
