use wotb_agent::viewer::{
    glb_json_chunk, render_viewer_index, top_node_names, vendor_content_type, viewer_index_html,
    GltfGraph, GltfNode,
};

const TEMPLATE: &str = "<script type=\"importmap\">__IMPORTMAP__</script>\n<script>window.__INITIAL_TANK__ = __INITIAL_TANK_VALUE__; window.__INITIAL_SHOOTER__ = __INITIAL_SHOOTER_VALUE__;</script>\n<img src=\"/logo.png\">\nfetch(\"/api/tank/1\"); fetch('/api/shells/1'); load(\"/glb/1/model.glb\");";

#[test]
fn viewer_page_fills_ids_and_prefix() {
    let html = render_viewer_index(TEMPLATE, 7169, 385, "/armor_view", true);
    assert!(html.contains("window.__INITIAL_TANK__ = 7169;"));
    assert!(html.contains("window.__INITIAL_SHOOTER__ = 385;"));
    assert!(html.contains("<img src=\"/armor_view/logo.png\">"));
    assert!(html.contains("fetch(\"/armor_view/api/tank/1\")"));
    assert!(html.contains("fetch('/armor_view/api/shells/1')"));
    assert!(html.contains("load(\"/armor_view/glb/1/model.glb\")"));
    assert!(html.contains("\"three\": \"/armor_view/vendor/three/three.module.js\""));
    assert!(!html.contains("__IMPORTMAP__"));
}

#[test]
fn viewer_page_without_prefix_keeps_urls() {
    let html = render_viewer_index(TEMPLATE, 1, 2, "", false);
    assert!(html.contains("fetch(\"/api/tank/1\")"));
    assert!(html.contains("https://cdn.jsdelivr.net/npm/three@0.169.0/build/three.module.js"));
    assert!(html.contains("window.__INITIAL_TANK__ = 1;"));
}

#[test]
fn viewer_page_probe_fills_ids() {
    let html = viewer_index_html(TEMPLATE, 0, 4294967295, "", |_p: &str| false);
    assert!(html.contains("window.__INITIAL_TANK__ = 0;"));
    assert!(html.contains("window.__INITIAL_SHOOTER__ = 4294967295;"));
}

#[test]
fn vendor_paths() {
    assert_eq!(vendor_content_type("three.module.js"), Some("application/javascript"));
    assert_eq!(vendor_content_type("addons/x.js.map"), Some("application/json"));
    assert_eq!(vendor_content_type("fonts/a.woff"), Some("application/octet-stream"));
    assert_eq!(vendor_content_type("../secret.js"), None);
    assert_eq!(vendor_content_type("a/..b"), None);
}

#[test]
fn glb_json_chunk_bounds() {
    let mut glb = vec![0u8; 20];
    glb[12..16].copy_from_slice(&3u32.to_le_bytes());
    glb.extend_from_slice(b"{}x");
    assert_eq!(glb_json_chunk(&glb), Some(&b"{}x"[..]));
    glb[12..16].copy_from_slice(&4u32.to_le_bytes());
    assert_eq!(glb_json_chunk(&glb), None);
    assert_eq!(glb_json_chunk(&[0u8; 19]), None);
}

#[test]
fn shown_names_and_labels() {
    assert_eq!(wotb_agent::viewer::shown_name(Some("IS-7"), 7169), "IS-7");
    assert_eq!(wotb_agent::viewer::shown_name(None, 7169), "tank_7169");
    assert_eq!(wotb_agent::viewer::shown_label_of(Some("heavyTank")), "heavyTank");
    assert_eq!(wotb_agent::viewer::shown_label_of(Some("")), "unknown");
    assert_eq!(wotb_agent::viewer::shown_label_of(Some("unknown")), "unknown");
    assert_eq!(wotb_agent::viewer::shown_label_of(None), "unknown");
}

#[test]
fn gltf_top_node_names() {
    let node = |name: Option<&str>, children: Option<Vec<Option<u64>>>| GltfNode {
        name: name.map(|s| s.to_string()),
        children,
    };
    let g = GltfGraph {
        nodes: Some(vec![
            node(Some("root"), Some(vec![Some(1), Some(9), None, Some(2), Some(3)])),
            node(Some("gun_01"), None),
            node(None, None),
            node(Some("turret_01"), None),
        ]),
        scene_roots: Some(vec![Some(0)]),
    };
    assert_eq!(top_node_names(&g), Some(vec!["gun_01".to_string(), "turret_01".to_string()]));
    let no_children = GltfGraph { nodes: Some(vec![node(Some("r"), None)]), scene_roots: Some(vec![Some(0)]) };
    assert_eq!(top_node_names(&no_children), None);
    let bad_root = GltfGraph { nodes: Some(vec![]), scene_roots: Some(vec![Some(0)]) };
    assert_eq!(top_node_names(&bad_root), None);
    let no_scene = GltfGraph { nodes: Some(vec![]), scene_roots: None };
    assert_eq!(top_node_names(&no_scene), None);
}
