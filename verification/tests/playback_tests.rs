use std::io::Read;
use std::sync::Arc;
use wotb_agent::playback_viewer::{
    build_playback_json, gzip_bytes, playback_index_html, render_playback_index, PlaybackCache,
    CACHE_MAX,
};

#[test]
fn index_html_placeholders_replaced() {
    // the local three.js copy under web/vendor/three is present
    let vendored = |p: &str| p == "web/vendor/three/three.module.js";
    let html = playback_index_html("/armor_view", vendored);
    assert!(!html.contains("__IMPORTMAP__"));
    assert!(!html.contains("__ASSET_PREFIX__"));
    assert!(html.contains("/armor_view/vendor/three/three.module.js"));
    assert!(html.contains("const P = \"/armor_view\""));
    let html2 = playback_index_html("", vendored);
    assert!(html2.contains("\"three\": \"/vendor/three/three.module.js\""));
    assert!(html2.contains("const P = \"\""));
}

#[test]
fn index_html_cdn_fallback() {
    let html = render_playback_index("/x", false);
    assert!(html.contains("https://cdn.jsdelivr.net/npm/three@0.169.0/build/three.module.js"));
    assert!(!html.contains("/x/vendor/three/three.module.js"));
    assert!(html.contains("const P = \"/x\""));
}

#[test]
fn index_html_probe_fills_placeholders() {
    let html = playback_index_html("/p", |p: &str| std::path::Path::new(p).exists());
    assert!(!html.contains("__IMPORTMAP__"));
    assert!(!html.contains("__ASSET_PREFIX__"));
    assert!(html.contains("const P = \"/p\""));
}

#[test]
fn playback_cache_builds_once_then_hits() {
    let mut cache = PlaybackCache::new();
    let mut calls = 0;
    let a: Result<Arc<Vec<u8>>, String> = build_playback_json(&mut cache, "k1", || {
        calls += 1;
        Ok(vec![1, 2, 3])
    });
    assert_eq!(*a.unwrap(), vec![1, 2, 3]);
    let b: Result<Arc<Vec<u8>>, String> = build_playback_json(&mut cache, "k1", || {
        calls += 1;
        Ok(vec![9])
    });
    assert_eq!(*b.unwrap(), vec![1, 2, 3]);
    assert_eq!(calls, 1);
    assert_eq!(cache.len(), 1);
}

#[test]
fn playback_cache_error_caches_nothing() {
    let mut cache = PlaybackCache::new();
    let r: Result<Arc<Vec<u8>>, String> =
        build_playback_json(&mut cache, "bad", || Err("broken".to_string()));
    assert_eq!(r.unwrap_err(), "broken");
    assert_eq!(cache.len(), 0);
    assert!(cache.lookup("bad").is_none());
}

#[test]
fn playback_cache_keeps_newest_four() {
    let mut cache = PlaybackCache::new();
    for i in 0..6u8 {
        let key = format!("k{i}");
        let r: Result<Arc<Vec<u8>>, ()> = build_playback_json(&mut cache, &key, || Ok(vec![i]));
        assert!(r.is_ok());
    }
    assert_eq!(cache.len(), CACHE_MAX);
    assert!(cache.lookup("k0").is_none());
    assert!(cache.lookup("k1").is_none());
    assert_eq!(*cache.lookup("k5").unwrap(), vec![5u8]);
    assert_eq!(*cache.lookup("k2").unwrap(), vec![2u8]);
}

#[test]
fn index_html_probes_vendor_module() {
    let local = playback_index_html("/q", |p: &str| p == "web/vendor/three/three.module.js");
    assert!(local.contains("/q/vendor/three/three.module.js"));
    let cdn = playback_index_html("/q", |_p: &str| false);
    assert!(cdn.contains("https://cdn.jsdelivr.net/npm/three@0.169.0/build/three.module.js"));
}

#[test]
fn gzip_body_round_trips() {
    let data = b"{\"vehicles\":[1,2,3]}".to_vec();
    let gz = gzip_bytes(&data);
    assert_eq!(&gz[..3], &[0x1f, 0x8b, 0x08]);
    assert_ne!(gz, data);
    let mut out = Vec::new();
    flate2::read::GzDecoder::new(&gz[..]).read_to_end(&mut out).unwrap();
    assert_eq!(out, data);
}
