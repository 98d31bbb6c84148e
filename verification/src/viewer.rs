//! The 3D armour viewer page: how its HTML template is filled in for a
//! target tank, a shooter and an asset prefix.

use vstd::prelude::*;
use vstd::string::StringExecFns;

use crate::blitzkit::{
    insert_sorted_unique, strictly_ascending, GunModelInfo, TankModelInfo, TankModelView,
    TurretModelInfo,
    TurretModelView,
};
use crate::game_extract::{
    all_digits, contains_chars, contains_u32, contains_vec, ends_with_vec, has_suffix, nvec_range,
    parse_u32, parsed_u32,
};
use crate::dvpl::{le_u32, read_le_u32};
use crate::tanks_pb::{GunView, TurretData, TurretView};
use crate::text::{
    chars_of, decimal, has_prefix, push_decimal, replace_all, starts_with_chars, str_replace,
};

verus! {

/// Where the offline copy of three.js is looked for.
pub const VIEWER_VENDOR_MODULE: &'static str = "web/vendor/three/three.module.js";

/// The import map used with the local copy of three.js.
pub const LOCAL_IMPORTMAP: &'static str = r#"{ "imports": { "three": "/vendor/three/three.module.js", "three/addons/": "/vendor/three/addons/" } }"#;

/// The import map used when three.js comes from the public CDN.
pub const VIEWER_CDN_IMPORTMAP: &'static str = r#"{ "imports": { "three": "https://cdn.jsdelivr.net/npm/three@0.169.0/build/three.module.js", "three/addons/": "https://cdn.jsdelivr.net/npm/three@0.169.0/examples/jsm/" } }"#;

/// The viewer page: the template with the import map and the initial tank
/// ids filled in, and each root-relative URL (`"/glb`, `"/vendor`,
/// `"/api/`, `'/api/`, `src="/`) moved under `prefix`, in that order.
pub open spec fn viewer_page(
    template: Seq<char>,
    tank_id: u32,
    shooter_id: u32,
    prefix: Seq<char>,
    vendor_local: bool,
) -> Seq<char> {
    let importmap = if vendor_local {
        LOCAL_IMPORTMAP@
    } else {
        VIEWER_CDN_IMPORTMAP@
    };
    let s1 = replace_all(template, "__IMPORTMAP__"@, importmap);
    let s2 = replace_all(s1, "__INITIAL_TANK_VALUE__"@, decimal(tank_id as nat));
    let s3 = replace_all(s2, "__INITIAL_SHOOTER_VALUE__"@, decimal(shooter_id as nat));
    let s4 = replace_all(s3, "\"/glb"@, "\""@ + prefix + "/glb"@);
    let s5 = replace_all(s4, "\"/vendor"@, "\""@ + prefix + "/vendor"@);
    let s6 = replace_all(s5, "\"/api/"@, "\""@ + prefix + "/api/"@);
    let s7 = replace_all(s6, "'/api/"@, "'"@ + prefix + "/api/"@);
    replace_all(s7, "src=\"/"@, "src=\""@ + prefix + "/"@)
}

/// `prefix` between two fixed parts.
fn framed(head: &str, prefix: &str, tail: &str) -> (r: String)
    ensures
        r@ == head@ + prefix@ + tail@,
{
    let mut r = String::new();
    r.append(head);
    r.append(prefix);
    r.append(tail);
    assert(r@ =~= head@ + prefix@ + tail@);
    r
}

/// Renders the viewer page from its template, with three.js from the local
/// copy when `vendor_local` holds, else from the CDN.
pub fn render_viewer_index(
    template: &str,
    tank_id: u32,
    shooter_id: u32,
    base_prefix: &str,
    vendor_local: bool,
) -> (r: String)
    ensures
        r@ == viewer_page(template@, tank_id, shooter_id, base_prefix@, vendor_local),
{
    let importmap = if vendor_local {
        LOCAL_IMPORTMAP
    } else {
        VIEWER_CDN_IMPORTMAP
    };
    let mut tank = String::new();
    push_decimal(&mut tank, tank_id as u64);
    let mut shooter = String::new();
    push_decimal(&mut shooter, shooter_id as u64);
    proof {
        reveal_strlit("__IMPORTMAP__");
        reveal_strlit("__INITIAL_TANK_VALUE__");
        reveal_strlit("__INITIAL_SHOOTER_VALUE__");
        reveal_strlit("\"/glb");
        reveal_strlit("\"/vendor");
        reveal_strlit("\"/api/");
        reveal_strlit("'/api/");
        reveal_strlit("src=\"/");
        assert(Seq::<char>::empty() + decimal(tank_id as nat) =~= decimal(tank_id as nat));
        assert(Seq::<char>::empty() + decimal(shooter_id as nat) =~= decimal(shooter_id as nat));
    }
    let s1 = str_replace(template, "__IMPORTMAP__", importmap);
    let s2 = str_replace(s1.as_str(), "__INITIAL_TANK_VALUE__", tank.as_str());
    let s3 = str_replace(s2.as_str(), "__INITIAL_SHOOTER_VALUE__", shooter.as_str());
    let glb = framed("\"", base_prefix, "/glb");
    let s4 = str_replace(s3.as_str(), "\"/glb", glb.as_str());
    let vendor = framed("\"", base_prefix, "/vendor");
    let s5 = str_replace(s4.as_str(), "\"/vendor", vendor.as_str());
    let api = framed("\"", base_prefix, "/api/");
    let s6 = str_replace(s5.as_str(), "\"/api/", api.as_str());
    let api_quoted = framed("'", base_prefix, "/api/");
    let s7 = str_replace(s6.as_str(), "'/api/", api_quoted.as_str());
    let src = framed("src=\"", base_prefix, "/");
    str_replace(s7.as_str(), "src=\"/", src.as_str())
}

/// The viewer page for a target tank and a shooter, under an asset prefix,
/// with three.js from the local copy when `probe` finds
/// `VIEWER_VENDOR_MODULE` (a file-system check), else from the CDN.
pub fn viewer_index_html<F: Fn(&str) -> bool>(
    template: &str,
    tank_id: u32,
    shooter_id: u32,
    base_prefix: &str,
    probe: F,
) -> (r: String)
    requires
        forall|p: &str| call_requires(probe, (p,)),
    ensures
        exists|found: bool|
            call_ensures(probe, (VIEWER_VENDOR_MODULE,), found) && r@ == viewer_page(
                template@,
                tank_id,
                shooter_id,
                base_prefix@,
                found,
            ),
{
    let vendor_local = probe(VIEWER_VENDOR_MODULE);
    render_viewer_index(template, tank_id, shooter_id, base_prefix, vendor_local)
}

/// A top-level node of the tank model named `gun_<digits>`.
pub open spec fn is_gun_node(s: Seq<char>) -> bool {
    has_prefix(s, "gun_"@) && all_digits(s.subrange(4, s.len() as int))
}

/// A top-level node of the tank model named `turret_<digits>`.
pub open spec fn is_turret_node(s: Seq<char>) -> bool {
    has_prefix(s, "turret_"@) && all_digits(s.subrange(7, s.len() as int))
}

/// The names for which `gun` (else turret) nodes are asked, last first.
pub open spec fn nodes_last_first(names: Seq<Seq<char>>, gun: bool) -> Seq<Seq<char>>
    decreases names.len(),
{
    if names.len() == 0 {
        Seq::empty()
    } else {
        let rest = nodes_last_first(names.drop_last(), gun);
        let x = names.last();
        if (gun && is_gun_node(x)) || (!gun && is_turret_node(x)) {
            seq![x] + rest
        } else {
            rest
        }
    }
}

/// The views of strings.
pub open spec fn string_views(v: Seq<String>) -> Seq<Seq<char>> {
    v.map_values(|x: String| x@)
}

/// Whether `v` is a gun (else turret) node name.
fn node_kind(v: &Vec<char>, gun: bool) -> (r: bool)
    ensures
        r == ((gun && is_gun_node(v@)) || (!gun && is_turret_node(v@))),
{
    let prefix = if gun {
        chars_of("gun_")
    } else {
        chars_of("turret_")
    };
    proof {
        reveal_strlit("gun_");
        reveal_strlit("turret_");
    }
    if !starts_with_chars(v.as_slice(), prefix.as_slice()) {
        return false;
    }
    let mut i = prefix.len();
    while i < v.len()
        invariant
            prefix@.len() <= i <= v@.len(),
            prefix@.len() == (if gun { 4int } else { 7int }),
            forall|k: int| prefix@.len() <= k < i ==> crate::game_extract::is_digit(#[trigger] v@[k]),
        decreases v@.len() - i,
    {
        if !('0' <= v[i] && v[i] <= '9') {
            assert(!crate::game_extract::is_digit(v@.subrange(prefix@.len() as int, v@.len() as int)[i - prefix@.len()]));
            return false;
        }
        i = i + 1;
    }
    assert forall|k: int| 0 <= k < v@.len() - prefix@.len() implies crate::game_extract::is_digit(
        #[trigger] v@.subrange(prefix@.len() as int, v@.len() as int)[k],
    ) by {
        assert(v@.subrange(prefix@.len() as int, v@.len() as int)[k] == v@[prefix@.len() + k]);
    }
    true
}

/// The gun and the turret nodes among the model's top-level node names,
/// each list last first.
pub fn model_config_nodes(names: &[String]) -> (r: (Vec<String>, Vec<String>))
    ensures
        string_views(r.0@) == nodes_last_first(string_views(names@), true),
        string_views(r.1@) == nodes_last_first(string_views(names@), false),
{
    let ghost nv = string_views(names@);
    let mut guns: Vec<String> = Vec::new();
    let mut turrets: Vec<String> = Vec::new();
    let mut i: usize = 0;
    while i < names.len()
        invariant
            i <= names@.len(),
            nv == string_views(names@),
            string_views(guns@) == nodes_last_first(nv.take(i as int), true),
            string_views(turrets@) == nodes_last_first(nv.take(i as int), false),
        decreases names@.len() - i,
    {
        proof {
            assert(nv.take(i + 1).drop_last() =~= nv.take(i as int));
            assert(nv.take(i + 1).last() == names@[i as int]@);
        }
        let v = chars_of(names[i].as_str());
        if node_kind(&v, true) {
            let ghost before = string_views(guns@);
            guns.insert(0, names[i].clone());
            assert(string_views(guns@) =~= seq![names@[i as int]@] + before);
        } else if node_kind(&v, false) {
            let ghost before = string_views(turrets@);
            turrets.insert(0, names[i].clone());
            assert(string_views(turrets@) =~= seq![names@[i as int]@] + before);
        }
        proof {
            reveal_strlit("gun_");
            reveal_strlit("turret_");
            if is_gun_node(v@) {
                assert(!has_prefix(v@, "turret_"@)) by {
                    assert(v@.subrange(0, 4)[0] == v@[0]);
                    if v@.len() >= 7 {
                        assert(v@.subrange(0, 7)[0] == v@[0]);
                    }
                }
            }
        }
        i = i + 1;
    }
    assert(nv.take(names@.len() as int) =~= nv);
    (guns, turrets)
}

/// The node number of a node name (the digits after the prefix of
/// `plen` characters), when it fits in 32 bits.
pub open spec fn node_number(name: Seq<char>, plen: int) -> Option<u32> {
    parsed_u32(name.subrange(plen, name.len() as int))
}

/// The node numbers of node names with a prefix of `plen` characters,
/// ascending and without repeats.
pub fn node_numbers(nodes: &[String], plen: usize) -> (r: Vec<u32>)
    requires
        forall|k: int| 0 <= k < nodes@.len() ==> plen <= #[trigger] nodes@[k]@.len(),
    ensures
        strictly_ascending(r@),
        forall|x: u32|
            r@.contains(x) <==> exists|k: int|
                0 <= k < nodes@.len() && node_number(#[trigger] nodes@[k]@, plen as int) == Some(x),
{
    let mut r: Vec<u32> = Vec::new();
    let mut i: usize = 0;
    while i < nodes.len()
        invariant
            i <= nodes@.len(),
            forall|k: int| 0 <= k < nodes@.len() ==> plen <= #[trigger] nodes@[k]@.len(),
            strictly_ascending(r@),
            forall|x: u32|
                r@.contains(x) <==> exists|k: int|
                    0 <= k < i && node_number(#[trigger] nodes@[k]@, plen as int) == Some(x),
        decreases nodes@.len() - i,
    {
        let v = chars_of(nodes[i].as_str());
        let ghost nm = nodes@[i as int]@;
        assert(plen <= v@.len());
        let rest = nvec_range(&v, plen, v.len());
        let ghost before = r@;
        match parse_u32(rest.as_slice()) {
            Some(x) => {
                insert_sorted_unique(&mut r, x);
                assert forall|y: u32|
                    r@.contains(y) <==> exists|k: int|
                        0 <= k < i + 1 && node_number(#[trigger] nodes@[k]@, plen as int) == Some(y) by {
                    if r@.contains(y) && !before.contains(y) {
                        assert(node_number(nodes@[i as int]@, plen as int) == Some(y));
                    }
                    if exists|k: int| 0 <= k < i + 1 && node_number(#[trigger] nodes@[k]@, plen as int) == Some(y) {
                        let k = choose|k: int| 0 <= k < i + 1 && node_number(#[trigger] nodes@[k]@, plen as int) == Some(y);
                        if k < i {
                            assert(before.contains(y));
                        }
                    }
                }
            },
            None => {
                assert forall|y: u32|
                    r@.contains(y) <==> exists|k: int|
                        0 <= k < i + 1 && node_number(#[trigger] nodes@[k]@, plen as int) == Some(y) by {
                    if exists|k: int| 0 <= k < i + 1 && node_number(#[trigger] nodes@[k]@, plen as int) == Some(y) {
                        let k = choose|k: int| 0 <= k < i + 1 && node_number(#[trigger] nodes@[k]@, plen as int) == Some(y);
                        if k == i {
                            assert(node_number(nodes@[i as int]@, plen as int) is None);
                        }
                    }
                }
            },
        }
        i = i + 1;
    }
    r
}

/// `(turret position, turret module, gun module)` of every gun, turret by
/// turret.
pub open spec fn gun_slots(ts: Seq<TurretView>) -> Seq<(int, u32, u32)>
    decreases ts.len(),
{
    if ts.len() == 0 {
        Seq::empty()
    } else {
        let t = ts.last();
        let ti = ts.len() - 1;
        gun_slots(ts.drop_last()) + t.guns.map_values(|g: GunView| (ti, t.module_id, g.module_id))
    }
}

/// The values of `s` in order of first appearance.
pub open spec fn distinct_order(s: Seq<u32>) -> Seq<u32>
    decreases s.len(),
{
    if s.len() == 0 {
        Seq::empty()
    } else {
        let prev = distinct_order(s.drop_last());
        if prev.contains(s.last()) {
            prev
        } else {
            prev.push(s.last())
        }
    }
}

/// The first position of `x` in `s`.
pub open spec fn index_of(s: Seq<u32>, x: int) -> Option<int>
    decreases s.len(),
{
    if s.len() == 0 {
        None
    } else if s[0] as int == x {
        Some(0)
    } else {
        match index_of(s.drop_first(), x) {
            Some(k) => Some(k + 1),
            None => None,
        }
    }
}

/// The first model turret with this module id.
pub open spec fn first_turret_with(ts: Seq<TurretModelView>, tmod: u32) -> Option<int>
    decreases ts.len(),
{
    if ts.len() == 0 {
        None
    } else if ts[0].module_id == tmod {
        Some(0)
    } else {
        match first_turret_with(ts.drop_first(), tmod) {
            Some(k) => Some(k + 1),
            None => None,
        }
    }
}

/// The first model gun with this module id.
pub open spec fn first_gun_with(gs: Seq<GunModelInfo>, gmod: u32) -> Option<int>
    decreases gs.len(),
{
    if gs.len() == 0 {
        None
    } else if gs[0].gun_module_id == gmod {
        Some(0)
    } else {
        match first_gun_with(gs.drop_first(), gmod) {
            Some(k) => Some(k + 1),
            None => None,
        }
    }
}

/// The model index of a turret: its model node (from the model data, else
/// position + 1) among the model's turret node numbers; else its position.
pub open spec fn turret_index_spec(
    ti: int,
    tmod: u32,
    model: Option<TankModelView>,
    turret_nums: Seq<u32>,
) -> int {
    let node: int = match model {
        Some(m) => match first_turret_with(m.turrets, tmod) {
            Some(k) => m.turrets[k].model_node as int,
            None => ti + 1,
        },
        None => ti + 1,
    };
    match index_of(turret_nums, node) {
        Some(k) => k,
        None => ti,
    }
}

/// The model index of a gun: its model node (from the model data) among
/// the model's gun node numbers; else the order in which its module first
/// appears on the tank.
pub open spec fn gun_index_spec(
    tmod: u32,
    gmod: u32,
    model: Option<TankModelView>,
    gun_nums: Seq<u32>,
    distinct: Seq<u32>,
) -> int {
    let fallback: int = match index_of(distinct, gmod as int) {
        Some(k) => k,
        None => 0,
    };
    let node: Option<u32> = match model {
        Some(m) => match first_turret_with(m.turrets, tmod) {
            Some(k) => match first_gun_with(m.turrets[k].guns, gmod) {
                Some(j) => Some(m.turrets[k].guns[j].model_node),
                None => None,
            },
            None => None,
        },
        None => None,
    };
    match node {
        Some(n) => if n != u32::MAX {
            match index_of(gun_nums, n as int) {
                Some(k) => k,
                None => fallback,
            }
        } else {
            fallback
        },
        None => fallback,
    }
}

/// `(turret index, gun index)` of every configuration (turret × gun).
pub open spec fn config_indices_spec(
    ts: Seq<TurretView>,
    model: Option<TankModelView>,
    gun_nums: Seq<u32>,
    turret_nums: Seq<u32>,
) -> Seq<(int, int)> {
    let slots = gun_slots(ts);
    let distinct = distinct_order(slots.map_values(|p: (int, u32, u32)| p.2));
    slots.map_values(
        |p: (int, u32, u32)|
            (
                turret_index_spec(p.0, p.1, model, turret_nums),
                gun_index_spec(p.1, p.2, model, gun_nums, distinct),
            ),
    )
}

/// The views of a list of turrets.
pub open spec fn turret_views(v: Seq<TurretData>) -> Seq<TurretView> {
    v.map_values(|t: TurretData| t@)
}

fn index_of_u32(s: &[u32], x: u64) -> (r: Option<usize>)
    ensures
        r matches Some(k) ==> k < s@.len(),
        match index_of(s@, x as int) {
            Some(k) => r matches Some(y) && y as int == k,
            None => r is None,
        },
{
    let mut i: usize = 0;
    assert(s@.subrange(0, s@.len() as int) =~= s@);
    while i < s.len()
        invariant
            i <= s@.len(),
            index_of(s@, x as int) == match index_of(s@.subrange(i as int, s@.len() as int), x as int) {
                Some(k) => Some(k + i),
                None => None,
            },
        decreases s@.len() - i,
    {
        proof {
            assert(s@.subrange(i as int, s@.len() as int).drop_first() =~= s@.subrange(
                i + 1,
                s@.len() as int,
            ));
        }
        if s[i] as u64 == x {
            return Some(i);
        }
        i = i + 1;
    }
    None
}

/// Flattens the guns of the turrets into slots.
fn slots_of(turrets: &[TurretData]) -> (r: Vec<(usize, u32, u32)>)
    ensures
        r@.map_values(|p: (usize, u32, u32)| (p.0 as int, p.1, p.2)) == gun_slots(
            turret_views(turrets@),
        ),
        forall|k: int| 0 <= k < r@.len() ==> #[trigger] r@[k].0 < turrets@.len(),
{
    let ghost tv = turret_views(turrets@);
    let mut r: Vec<(usize, u32, u32)> = Vec::new();
    let mut ti: usize = 0;
    while ti < turrets.len()
        invariant
            ti <= turrets@.len(),
            tv == turret_views(turrets@),
            r@.map_values(|p: (usize, u32, u32)| (p.0 as int, p.1, p.2)) == gun_slots(
                tv.take(ti as int),
            ),
            forall|k: int| 0 <= k < r@.len() ==> #[trigger] r@[k].0 < ti,
        decreases turrets@.len() - ti,
    {
        let t = &turrets[ti];
        let ghost tview = tv[ti as int];
        let ghost base = gun_slots(tv.take(ti as int));
        proof {
            assert(tv.take(ti + 1).drop_last() =~= tv.take(ti as int));
            assert(tv.take(ti + 1).last() == tview);
        }
        let mut gi: usize = 0;
        while gi < t.guns.len()
            invariant
                gi <= t.guns@.len(),
                tview == t@,
                ti < turrets@.len(),
                forall|k: int| 0 <= k < r@.len() ==> #[trigger] r@[k].0 <= ti,
                r@.map_values(|p: (usize, u32, u32)| (p.0 as int, p.1, p.2)) == base + tview.guns.take(
                    gi as int,
                ).map_values(|g: GunView| (ti as int, tview.module_id, g.module_id)),
            decreases t.guns@.len() - gi,
        {
            let ghost before = r@.map_values(|p: (usize, u32, u32)| (p.0 as int, p.1, p.2));
            let gm = t.guns[gi].module_id;
            r.push((ti, t.module_id, gm));
            assert(tview.guns[gi as int] == t.guns@[gi as int]@);
            assert(r@.map_values(|p: (usize, u32, u32)| (p.0 as int, p.1, p.2)) =~= before.push(
                (ti as int, tview.module_id, gm),
            ));
            assert(tview.guns.take(gi + 1).map_values(
                |g: GunView| (ti as int, tview.module_id, g.module_id),
            ) =~= tview.guns.take(gi as int).map_values(
                |g: GunView| (ti as int, tview.module_id, g.module_id),
            ).push((ti as int, tview.module_id, gm)));
            assert(r@.map_values(|p: (usize, u32, u32)| (p.0 as int, p.1, p.2)) =~= base
                + tview.guns.take(gi + 1).map_values(
                |g: GunView| (ti as int, tview.module_id, g.module_id),
            ));
            gi = gi + 1;
        }
        assert(tview.guns.take(t.guns@.len() as int) =~= tview.guns);
        assert(gun_slots(tv.take(ti + 1)) =~= base + tview.guns.map_values(
            |g: GunView| (ti as int, tview.module_id, g.module_id),
        ));
        ti = ti + 1;
    }
    assert(tv.take(turrets@.len() as int) =~= tv);
    r
}

/// The gun modules of the slots in order of first appearance.
fn distinct_modules(slots: &Vec<(usize, u32, u32)>) -> (r: Vec<u32>)
    ensures
        r@ == distinct_order(slots@.map_values(|p: (usize, u32, u32)| p.2)),
        r@.len() <= slots@.len(),
{
    let ghost mods = slots@.map_values(|p: (usize, u32, u32)| p.2);
    let mut r: Vec<u32> = Vec::new();
    let mut i: usize = 0;
    while i < slots.len()
        invariant
            i <= slots@.len(),
            mods == slots@.map_values(|p: (usize, u32, u32)| p.2),
            r@ == distinct_order(mods.take(i as int)),
            r@.len() <= i,
        decreases slots@.len() - i,
    {
        proof {
            assert(mods.take(i + 1).drop_last() =~= mods.take(i as int));
            assert(mods.take(i + 1).last() == slots@[i as int].2);
        }
        let m = slots[i].2;
        if !contains_u32(r.as_slice(), m) {
            r.push(m);
        }
        i = i + 1;
    }
    assert(mods.take(slots@.len() as int) =~= mods);
    r
}

/// The first model turret with this module id.
fn first_turret_idx(m: &TankModelInfo, tmod: u32) -> (r: Option<usize>)
    ensures
        r matches Some(k) ==> k < m.turrets@.len(),
        match first_turret_with(m@.turrets, tmod) {
            Some(k) => r matches Some(y) && y as int == k,
            None => r is None,
        },
{
    let ghost ts = m@.turrets;
    let mut i: usize = 0;
    assert(ts.subrange(0, ts.len() as int) =~= ts);
    while i < m.turrets.len()
        invariant
            i <= m.turrets@.len(),
            ts == m@.turrets,
            ts.len() == m.turrets@.len(),
            first_turret_with(ts, tmod) == match first_turret_with(ts.subrange(i as int, ts.len() as int), tmod) {
                Some(k) => Some(k + i),
                None => None,
            },
        decreases m.turrets@.len() - i,
    {
        proof {
            assert(ts.subrange(i as int, ts.len() as int).drop_first() =~= ts.subrange(i + 1, ts.len() as int));
            assert(ts[i as int].module_id == m.turrets@[i as int].module_id);
        }
        if m.turrets[i].module_id == tmod {
            return Some(i);
        }
        i = i + 1;
    }
    None
}

/// The first model gun of a model turret with this module id.
fn first_gun_idx(t: &TurretModelInfo, gmod: u32) -> (r: Option<usize>)
    ensures
        r matches Some(k) ==> k < t.guns@.len(),
        match first_gun_with(t.guns@, gmod) {
            Some(k) => r matches Some(y) && y as int == k,
            None => r is None,
        },
{
    let ghost gs = t.guns@;
    let mut i: usize = 0;
    assert(gs.subrange(0, gs.len() as int) =~= gs);
    while i < t.guns.len()
        invariant
            i <= t.guns@.len(),
            gs == t.guns@,
            first_gun_with(gs, gmod) == match first_gun_with(gs.subrange(i as int, gs.len() as int), gmod) {
                Some(k) => Some(k + i),
                None => None,
            },
        decreases t.guns@.len() - i,
    {
        proof {
            assert(gs.subrange(i as int, gs.len() as int).drop_first() =~= gs.subrange(i + 1, gs.len() as int));
        }
        if t.guns[i].gun_module_id == gmod {
            return Some(i);
        }
        i = i + 1;
    }
    None
}

/// The view of an optional model.
pub open spec fn model_view(model: Option<&TankModelInfo>) -> Option<TankModelView> {
    match model {
        Some(m) => Some(m@),
        None => None,
    }
}

/// The turret index and the gun index in the 3D model of every
/// configuration (turret × gun) of a tank, from the model data
/// (`models.pb`) and the model's turret and gun node numbers.
pub fn config_indices(
    turrets: &[TurretData],
    model: Option<&TankModelInfo>,
    gun_nums: &[u32],
    turret_nums: &[u32],
) -> (r: Vec<(u32, u32)>)
    requires
        turrets@.len() < u32::MAX,
        gun_slots(turret_views(turrets@)).len() <= u32::MAX,
        gun_nums@.len() <= u32::MAX,
        turret_nums@.len() <= u32::MAX,
    ensures
        r@.map_values(|p: (u32, u32)| (p.0 as int, p.1 as int)) == config_indices_spec(
            turret_views(turrets@),
            model_view(model),
            gun_nums@,
            turret_nums@,
        ),
{
    let slots = slots_of(turrets);
    let ghost sv = slots@.map_values(|p: (usize, u32, u32)| (p.0 as int, p.1, p.2));
    let distinct = distinct_modules(&slots);
    let ghost mv = model_view(model);
    proof {
        assert(sv.map_values(|p: (int, u32, u32)| p.2) =~= slots@.map_values(|p: (usize, u32, u32)| p.2));
    }
    let mut r: Vec<(u32, u32)> = Vec::new();
    let mut i: usize = 0;
    while i < slots.len()
        invariant
            i <= slots@.len(),
            sv == slots@.map_values(|p: (usize, u32, u32)| (p.0 as int, p.1, p.2)),
            sv == gun_slots(turret_views(turrets@)),
            distinct@ == distinct_order(sv.map_values(|p: (int, u32, u32)| p.2)),
            distinct@.len() <= slots@.len(),
            slots@.len() <= u32::MAX,
            turrets@.len() < u32::MAX,
            gun_nums@.len() <= u32::MAX,
            turret_nums@.len() <= u32::MAX,
            mv == model_view(model),
            forall|k: int| 0 <= k < slots@.len() ==> #[trigger] slots@[k].0 < turrets@.len(),
            r@.map_values(|p: (u32, u32)| (p.0 as int, p.1 as int)) == config_indices_spec(
                turret_views(turrets@),
                mv,
                gun_nums@,
                turret_nums@,
            ).take(i as int),
        decreases slots@.len() - i,
    {
        let (ti, tmod, gmod) = slots[i];
        let node: u64 = match model {
            Some(m) => match first_turret_idx(m, tmod) {
                Some(k) => {
                    assert(m@.turrets[k as int].model_node == m.turrets@[k as int].model_node);
                    m.turrets[k].model_node as u64
                },
                None => ti as u64 + 1,
            },
            None => ti as u64 + 1,
        };
        let t_index: u32 = match index_of_u32(turret_nums, node) {
            Some(k) => k as u32,
            None => ti as u32,
        };
        let fallback: u32 = match index_of_u32(distinct.as_slice(), gmod as u64) {
            Some(k) => k as u32,
            None => 0,
        };
        let gnode: Option<u32> = match model {
            Some(m) => match first_turret_idx(m, tmod) {
                Some(k) => match first_gun_idx(&m.turrets[k], gmod) {
                    Some(j) => {
                        assert(m@.turrets[k as int] == m.turrets@[k as int]@);
                        Some(m.turrets[k].guns[j].model_node)
                    },
                    None => {
                        assert(m@.turrets[k as int] == m.turrets@[k as int]@);
                        None
                    },
                },
                None => None,
            },
            None => None,
        };
        let g_index: u32 = match gnode {
            Some(n) => if n != u32::MAX {
                match index_of_u32(gun_nums, n as u64) {
                    Some(k) => k as u32,
                    None => fallback,
                }
            } else {
                fallback
            },
            None => fallback,
        };
        let ghost before = r@.map_values(|p: (u32, u32)| (p.0 as int, p.1 as int));
        r.push((t_index, g_index));
        proof {
            let full = config_indices_spec(turret_views(turrets@), mv, gun_nums@, turret_nums@);
            assert(sv[i as int] == (ti as int, tmod, gmod));
            assert(full[i as int] == (t_index as int, g_index as int));
            assert(r@.map_values(|p: (u32, u32)| (p.0 as int, p.1 as int)) =~= before.push(
                (t_index as int, g_index as int),
            ));
            assert(full.take(i + 1) =~= full.take(i as int).push(full[i as int]));
        }
        i = i + 1;
    }
    proof {
        let full = config_indices_spec(turret_views(turrets@), mv, gun_nums@, turret_nums@);
        assert(full.take(slots@.len() as int) =~= full);
    }
    r
}

/// The configurations of a tank as `(id, turret index, gun index)`: one
/// per turret × gun, numbered from 0 in order; a tank without any gun gets
/// the single default configuration `(0, 0, 0)`.
pub open spec fn config_slots_spec(idx: Seq<(int, int)>) -> Seq<(int, int, int)> {
    if idx.len() == 0 {
        seq![(0, 0, 0)]
    } else {
        Seq::new(idx.len(), |i: int| (i, idx[i].0, idx[i].1))
    }
}

/// The numbered configurations of a tank (see `config_slots_spec`).
pub fn config_slots(
    turrets: &[TurretData],
    model: Option<&TankModelInfo>,
    gun_nums: &[u32],
    turret_nums: &[u32],
) -> (r: Vec<(u32, u32, u32)>)
    requires
        turrets@.len() < u32::MAX,
        gun_slots(turret_views(turrets@)).len() <= u32::MAX,
        gun_nums@.len() <= u32::MAX,
        turret_nums@.len() <= u32::MAX,
    ensures
        r@.map_values(|p: (u32, u32, u32)| (p.0 as int, p.1 as int, p.2 as int)) == config_slots_spec(
            config_indices_spec(turret_views(turrets@), model_view(model), gun_nums@, turret_nums@),
        ),
{
    let idx = config_indices(turrets, model, gun_nums, turret_nums);
    let ghost iv = idx@.map_values(|p: (u32, u32)| (p.0 as int, p.1 as int));
    let mut r: Vec<(u32, u32, u32)> = Vec::new();
    if idx.len() == 0 {
        r.push((0, 0, 0));
        assert(r@.map_values(|p: (u32, u32, u32)| (p.0 as int, p.1 as int, p.2 as int)) =~= seq![
            (0int, 0int, 0int),
        ]);
        return r;
    }
    assert(iv.len() == idx@.len());
    assert(config_indices_spec(turret_views(turrets@), model_view(model), gun_nums@, turret_nums@).len()
        == gun_slots(turret_views(turrets@)).len());
    let mut i: usize = 0;
    while i < idx.len()
        invariant
            i <= idx@.len(),
            idx@.len() <= u32::MAX,
            iv == idx@.map_values(|p: (u32, u32)| (p.0 as int, p.1 as int)),
            r@.map_values(|p: (u32, u32, u32)| (p.0 as int, p.1 as int, p.2 as int)) == Seq::new(
                i as nat,
                |k: int| (k, iv[k].0, iv[k].1),
            ),
        decreases idx@.len() - i,
    {
        let (t, g) = idx[i];
        let ghost before = r@.map_values(|p: (u32, u32, u32)| (p.0 as int, p.1 as int, p.2 as int));
        r.push((i as u32, t, g));
        assert(iv[i as int] == (t as int, g as int));
        assert((i as u32) as int == i as int);
        assert(r@.map_values(|p: (u32, u32, u32)| (p.0 as int, p.1 as int, p.2 as int)) =~= before.push(
            (i as int, t as int, g as int),
        ));
        assert(r@.map_values(|p: (u32, u32, u32)| (p.0 as int, p.1 as int, p.2 as int)) =~= Seq::new(
            (i + 1) as nat,
            |k: int| (k, iv[k].0, iv[k].1),
        ));
        i = i + 1;
    }
    r
}

/// A class or nation as the viewer shows it: the known value, or
/// `unknown` when it is missing, empty or already `unknown`.
pub open spec fn shown_label(v: Option<Seq<char>>) -> Seq<char> {
    match v {
        Some(x) => if x.len() > 0 && x != "unknown"@ {
            x
        } else {
            "unknown"@
        },
        None => "unknown"@,
    }
}

/// Executable `shown_label`.
pub fn shown_label_of(v: Option<&str>) -> (r: String)
    ensures
        r@ == shown_label(match v {
            Some(x) => Some(x@),
            None => None,
        }),
{
    match v {
        Some(x) => {
            if !x.is_empty() && !crate::text::str_eq(x, "unknown") {
                x.to_string()
            } else {
                "unknown".to_string()
            }
        },
        None => "unknown".to_string(),
    }
}

/// A tank's name as the viewer shows it: the known name, else `tank_<id>`.
pub fn shown_name(name: Option<&str>, tank_id: u32) -> (r: String)
    ensures
        r@ == match name {
            Some(x) => x@,
            None => "tank_"@ + decimal(tank_id as nat),
        },
{
    match name {
        Some(x) => x.to_string(),
        None => {
            let mut s = "tank_".to_string();
            push_decimal(&mut s, tank_id as u64);
            s
        },
    }
}

/// How a request for a file of the offline three.js copy is answered:
/// `None` (refused) for a path containing `..`, else the content type by
/// the extension (`.js`, `.map`, anything else).
pub open spec fn vendor_answer(path: Seq<char>) -> Option<Seq<char>> {
    if contains_chars(path, ".."@) {
        None
    } else if has_suffix(path, ".js"@) {
        Some("application/javascript"@)
    } else if has_suffix(path, ".map"@) {
        Some("application/json"@)
    } else {
        Some("application/octet-stream"@)
    }
}

/// The content type for a requested vendor file, or `None` when the path
/// may leave the vendor directory.
pub fn vendor_content_type(path: &str) -> (r: Option<&'static str>)
    ensures
        match vendor_answer(path@) {
            Some(t) => r matches Some(x) && x@ == t,
            None => r is None,
        },
{
    let v = chars_of(path);
    let dots = chars_of("..");
    if contains_vec(&v, &dots) {
        return None;
    }
    if ends_with_vec(&v, &chars_of(".js")) {
        Some("application/javascript")
    } else if ends_with_vec(&v, &chars_of(".map")) {
        Some("application/json")
    } else {
        Some("application/octet-stream")
    }
}

/// The JSON chunk of a GLB file: its length is the little-endian `u32` at
/// byte 12 and it starts at byte 20; `None` for a file shorter than the
/// header or than the chunk it announces.
pub open spec fn glb_json_spec(bytes: Seq<u8>) -> Option<Seq<u8>> {
    if bytes.len() < 20 {
        None
    } else {
        let n = le_u32(bytes, 12);
        if 20 + n > bytes.len() {
            None
        } else {
            Some(bytes.subrange(20, 20 + n))
        }
    }
}

/// Executable `glb_json_spec`.
pub fn glb_json_chunk(bytes: &[u8]) -> (r: Option<&[u8]>)
    ensures
        match glb_json_spec(bytes@) {
            Some(c) => r matches Some(x) && x@ == c,
            None => r is None,
        },
{
    if bytes.len() < 20 {
        return None;
    }
    let n = read_le_u32(bytes, 12) as usize;
    if n > bytes.len() - 20 {
        return None;
    }
    Some(&bytes[20..20 + n])
}

/// One node of a glTF scene graph, as far as the model's configuration
/// nodes need it: its name (when it is a string) and its children (when
/// the node has a list of them; an entry that is not an index is `None`).
pub struct GltfNode {
    pub name: Option<String>,
    pub children: Option<Vec<Option<u64>>>,
}

/// The node graph of a glTF document: its nodes (when the document has a
/// node list) and the root nodes of its first scene (when there is one with
/// a node list).
pub struct GltfGraph {
    pub nodes: Option<Vec<GltfNode>>,
    pub scene_roots: Option<Vec<Option<u64>>>,
}

/// Mathematical value of a `GltfNode`.
pub struct GltfNodeView {
    pub name: Option<Seq<char>>,
    pub children: Option<Seq<Option<u64>>>,
}

/// Mathematical value of a `GltfGraph`.
pub struct GltfGraphView {
    pub nodes: Option<Seq<GltfNodeView>>,
    pub scene_roots: Option<Seq<Option<u64>>>,
}

impl View for GltfNode {
    type V = GltfNodeView;

    open spec fn view(&self) -> GltfNodeView {
        GltfNodeView {
            name: match self.name {
                Some(n) => Some(n@),
                None => None,
            },
            children: match self.children {
                Some(c) => Some(c@),
                None => None,
            },
        }
    }
}

impl View for GltfGraph {
    type V = GltfGraphView;

    open spec fn view(&self) -> GltfGraphView {
        GltfGraphView {
            nodes: match self.nodes {
                Some(n) => Some(n@.map_values(|x: GltfNode| x@)),
                None => None,
            },
            scene_roots: match self.scene_roots {
                Some(r) => Some(r@),
                None => None,
            },
        }
    }
}

/// The names of the listed children that are nodes with a name, in order.
pub open spec fn child_names(nodes: Seq<GltfNodeView>, ch: Seq<Option<u64>>) -> Seq<Seq<char>>
    decreases ch.len(),
{
    if ch.len() == 0 {
        Seq::empty()
    } else {
        let prev = child_names(nodes, ch.drop_last());
        match ch.last() {
            Some(c) => if (c as int) < nodes.len() && nodes[c as int].name is Some {
                prev.push(nodes[c as int].name->Some_0)
            } else {
                prev
            },
            None => prev,
        }
    }
}

/// The names of the top-level nodes of a model: the children of the first
/// root of the first scene that are named nodes; `None` when the document
/// has no node list, no first scene with a root that is a node, or that
/// root has no list of children.
pub open spec fn top_names_spec(g: GltfGraphView) -> Option<Seq<Seq<char>>> {
    match (g.nodes, g.scene_roots) {
        (Some(nodes), Some(roots)) => if roots.len() == 0 {
            None
        } else {
            match roots[0] {
                None => None,
                Some(r) => if (r as int) < nodes.len() {
                    match nodes[r as int].children {
                        Some(ch) => Some(child_names(nodes, ch)),
                        None => None,
                    }
                } else {
                    None
                },
            }
        },
        _ => None,
    }
}

/// The names of the top-level nodes of a model's scene graph.
pub fn top_node_names(g: &GltfGraph) -> (r: Option<Vec<String>>)
    ensures
        match top_names_spec(g@) {
            Some(n) => r matches Some(v) && string_views(v@) == n,
            None => r is None,
        },
{
    let nodes = match &g.nodes {
        Some(n) => n,
        None => return None,
    };
    let roots = match &g.scene_roots {
        Some(r) => r,
        None => return None,
    };
    let ghost nv = nodes@.map_values(|x: GltfNode| x@);
    if roots.len() == 0 {
        return None;
    }
    let root = match roots[0] {
        Some(r) => r,
        None => return None,
    };
    if root >= nodes.len() as u64 {
        return None;
    }
    let ri = root as usize;
    assert(nv[ri as int] == nodes@[ri as int]@);
    let ch = match &nodes[ri].children {
        Some(c) => c,
        None => return None,
    };
    let mut out: Vec<String> = Vec::new();
    let mut i: usize = 0;
    while i < ch.len()
        invariant
            i <= ch@.len(),
            nv == nodes@.map_values(|x: GltfNode| x@),
            string_views(out@) == child_names(nv, ch@.take(i as int)),
        decreases ch@.len() - i,
    {
        proof {
            assert(ch@.take(i + 1).drop_last() =~= ch@.take(i as int));
            assert(ch@.take(i + 1).last() == ch@[i as int]);
        }
        if let Some(c) = ch[i] {
            if c < nodes.len() as u64 {
                let ci = c as usize;
                assert(nv[ci as int] == nodes@[ci as int]@);
                if let Some(n) = &nodes[ci].name {
                    let ghost before = string_views(out@);
                    out.push(n.clone());
                    assert(string_views(out@) =~= before.push(n@));
                }
            }
        }
        i = i + 1;
    }
    assert(ch@.take(ch@.len() as int) =~= ch@);
    Some(out)
}

} // verus!
