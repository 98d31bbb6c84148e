//! Readers for the BlitzKit tank databases (`tanks.pb`, `models.pb`).
//!
//! `models.pb` layout:
//!   top level, field 1 (repeated) = one tank entry:
//!     field 1 = tank id, field 2 = model content;
//!   model content, field 4 (repeated) = one turret:
//!     field 1 = turret module id, field 2 = turret content;
//!   turret content: field 3 = turret model node, field 5 (repeated) = one gun:
//!     field 1 = gun module id, field 2 = gun content with field 3 = gun model node.

use vstd::prelude::*;

use crate::protobuf::{
    collect_fields, field_of, fields_from, join, last_bytes, lemma_collect_push, lemma_fields_step, lemma_last_bytes_push, lemma_last_varint_push,
    lemma_walk_error,     message_fields, spec_varint, varint_step, varint_u32_or_zero, Field, FieldValue, PbError, Reader,
};
use crate::text::{string_from_utf8_lossy, utf8_lossy};

verus! {

/// Model node of one gun (from `models.pb`).
#[derive(Debug, Clone, Copy)]
pub struct GunModelInfo {
    /// Gun module id.
    pub gun_module_id: u32,
    /// The `X` of the model's `gun_0X` node.
    pub model_node: u32,
}

/// Model nodes of one turret and its guns (from `models.pb`).
#[derive(Debug, Clone)]
pub struct TurretModelInfo {
    /// Turret module id.
    pub module_id: u32,
    /// The `X` of the model's `turret_0X` node.
    pub model_node: u32,
    pub guns: Vec<GunModelInfo>,
}

/// Model nodes of one tank (from `models.pb`).
#[derive(Debug, Clone)]
pub struct TankModelInfo {
    pub tank_id: u32,
    pub turrets: Vec<TurretModelInfo>,
}

/// Mathematical value of a `TurretModelInfo`.
pub struct TurretModelView {
    pub module_id: u32,
    pub model_node: u32,
    pub guns: Seq<GunModelInfo>,
}

/// Mathematical value of a `TankModelInfo`.
pub struct TankModelView {
    pub tank_id: u32,
    pub turrets: Seq<TurretModelView>,
}

impl View for TurretModelInfo {
    type V = TurretModelView;

    open spec fn view(&self) -> TurretModelView {
        TurretModelView { module_id: self.module_id, model_node: self.model_node, guns: self.guns@ }
    }
}

impl View for TankModelInfo {
    type V = TankModelView;

    open spec fn view(&self) -> TankModelView {
        TankModelView {
            tank_id: self.tank_id,
            turrets: self.turrets@.map_values(|t: TurretModelInfo| t@),
        }
    }
}

/// A gun entry: module id (field 1) and, inside field 2, the model node
/// (field 3); a missing field 2 gives model node 0.
pub open spec fn model_gun_spec(buf: Seq<u8>) -> Option<GunModelInfo> {
    match message_fields(buf) {
        None => None,
        Some(fs) => {
            let gmod = varint_u32_or_zero(fs, 1);
            match last_bytes(fs, 2) {
                None => Some(GunModelInfo { gun_module_id: gmod, model_node: 0 }),
                Some(inner) => match message_fields(inner) {
                    None => None,
                    Some(ifs) => Some(
                        GunModelInfo { gun_module_id: gmod, model_node: varint_u32_or_zero(ifs, 3) },
                    ),
                },
            }
        },
    }
}

/// A turret-content field: field 5 holds a gun entry, others are skipped.
pub open spec fn gun_of_field(f: Field) -> Option<Option<GunModelInfo>> {
    if f.number == 5 && f.wire == 2 && f.value is Bytes {
        match model_gun_spec(f.value->Bytes_0) {
            None => None,
            Some(g) => Some(Some(g)),
        }
    } else {
        Some(None)
    }
}

/// `gun_of_field` as a function value.
pub open spec fn gun_field_fn() -> spec_fn(Field) -> Option<Option<GunModelInfo>> {
    |f: Field| gun_of_field(f)
}

/// A turret entry: `Some(None)` when it has no content (field 2).
pub open spec fn model_turret_spec(buf: Seq<u8>) -> Option<Option<TurretModelView>> {
    match message_fields(buf) {
        None => None,
        Some(fs) => {
            let tmod = varint_u32_or_zero(fs, 1);
            match last_bytes(fs, 2) {
                None => Some(None),
                Some(content) => match message_fields(content) {
                    None => None,
                    Some(cfs) => match collect_fields(cfs, gun_field_fn()) {
                        None => None,
                        Some(guns) => Some(
                            Some(
                                TurretModelView {
                                    module_id: tmod,
                                    model_node: varint_u32_or_zero(cfs, 3),
                                    guns,
                                },
                            ),
                        ),
                    },
                },
            }
        },
    }
}

/// A model-content field: field 4 holds a turret entry.
pub open spec fn turret_of_field(f: Field) -> Option<Option<TurretModelView>> {
    if f.number == 4 && f.wire == 2 && f.value is Bytes {
        model_turret_spec(f.value->Bytes_0)
    } else {
        Some(None)
    }
}

/// `turret_of_field` as a function value.
pub open spec fn turret_field_fn() -> spec_fn(Field) -> Option<Option<TurretModelView>> {
    |f: Field| turret_of_field(f)
}

/// A tank entry: `Some(None)` when it has no model content (field 2).
pub open spec fn model_tank_spec(buf: Seq<u8>) -> Option<Option<TankModelView>> {
    match message_fields(buf) {
        None => None,
        Some(fs) => {
            let tank_id = varint_u32_or_zero(fs, 1);
            match last_bytes(fs, 2) {
                None => Some(None),
                Some(content) => match message_fields(content) {
                    None => None,
                    Some(cfs) => match collect_fields(cfs, turret_field_fn()) {
                        None => None,
                        Some(turrets) => Some(Some(TankModelView { tank_id, turrets })),
                    },
                },
            }
        },
    }
}

/// A top-level field of `models.pb`: field 1 holds a tank entry.
pub open spec fn tank_of_field(f: Field) -> Option<Option<TankModelView>> {
    if f.number == 1 && f.wire == 2 && f.value is Bytes {
        model_tank_spec(f.value->Bytes_0)
    } else {
        Some(None)
    }
}

/// `tank_of_field` as a function value.
pub open spec fn tank_field_fn() -> spec_fn(Field) -> Option<Option<TankModelView>> {
    |f: Field| tank_of_field(f)
}

/// The whole of `models.pb`: the tank entries that have model content, in
/// file order; `None` when the buffer is malformed.
pub open spec fn models_pb_spec(buf: Seq<u8>) -> Option<Seq<TankModelView>> {
    match message_fields(buf) {
        None => None,
        Some(fs) => collect_fields(fs, tank_field_fn()),
    }
}

/// Reads one gun entry of `models.pb`.
fn parse_model_gun(gb: &[u8]) -> (res: Result<GunModelInfo, PbError>)
    ensures
        match model_gun_spec(gb@) {
            Some(g) => res matches Ok(x) && x == g,
            None => res is Err,
        },
{
    let mut gr = Reader::new(gb);
    let mut gmod: u32 = 0;
    let mut inner: Option<&[u8]> = None;
    let ghost mut seen: Seq<Field> = Seq::empty();
    loop
        invariant
            gr.buf@ == gb@,
            gr.pos <= gb@.len(),
            message_fields(gb@) == join(seen, fields_from(gb@, gr.pos as int)),
            gmod == varint_u32_or_zero(seen, 1),
            match inner {
                Some(b) => last_bytes(seen, 2) == Some(b@),
                None => last_bytes(seen, 2) is None,
            },
        ensures
            gr.pos >= gb@.len(),
            message_fields(gb@) == join(seen, fields_from(gb@, gr.pos as int)),
            gmod == varint_u32_or_zero(seen, 1),
            match inner {
                Some(b) => last_bytes(seen, 2) == Some(b@),
                None => last_bytes(seen, 2) is None,
            },
        decreases gb@.len() - gr.pos,
    {
        let ghost pos0 = gr.pos as int;
        match gr.read_field() {
            None => break,
            Some(Err(e)) => {
                proof {
                    lemma_fields_step(gb@, pos0, seen);
                }
                return Err(e);
            },
            Some(Ok((f, w, v))) => {
                proof {
                    lemma_fields_step(gb@, pos0, seen);
                    lemma_last_varint_push(seen, field_of(f, w, v@), 1);
                    lemma_last_bytes_push(seen, field_of(f, w, v@), 2);
                    seen = seen.push(field_of(f, w, v@));
                }
                match v {
                    FieldValue::Varint(x) => {
                        if f == 1 && w == 0 {
                            gmod = #[verifier::truncate] (x as u32);
                        }
                    },
                    FieldValue::Bytes(b) => {
                        if f == 2 && w == 2 {
                            inner = Some(b);
                        }
                    },
                    _ => {},
                }
            },
        }
    }
    assert(message_fields(gb@) == Some(seen)) by {
        assert(seen + Seq::<Field>::empty() =~= seen);
    }
    let inner = match inner {
        None => {
            return Ok(GunModelInfo { gun_module_id: gmod, model_node: 0 });
        },
        Some(b) => b,
    };
    let mut ir = Reader::new(inner);
    let mut model_node: u32 = 0;
    let ghost mut iseen: Seq<Field> = Seq::empty();
    loop
        invariant
            ir.buf@ == inner@,
            ir.pos <= inner@.len(),
            message_fields(inner@) == join(iseen, fields_from(inner@, ir.pos as int)),
            model_node == varint_u32_or_zero(iseen, 3),
            message_fields(gb@) == Some(seen),
            last_bytes(seen, 2) == Some(inner@),
            gmod == varint_u32_or_zero(seen, 1),
        ensures
            ir.pos >= inner@.len(),
            message_fields(inner@) == join(iseen, fields_from(inner@, ir.pos as int)),
            model_node == varint_u32_or_zero(iseen, 3),
        decreases inner@.len() - ir.pos,
    {
        let ghost pos0 = ir.pos as int;
        match ir.read_field() {
            None => break,
            Some(Err(e)) => {
                proof {
                    lemma_fields_step(inner@, pos0, iseen);
                }
                return Err(e);
            },
            Some(Ok((f, w, v))) => {
                proof {
                    lemma_fields_step(inner@, pos0, iseen);
                    lemma_last_varint_push(iseen, field_of(f, w, v@), 3);
                    iseen = iseen.push(field_of(f, w, v@));
                }
                if let FieldValue::Varint(x) = v {
                    if f == 3 && w == 0 {
                        model_node = #[verifier::truncate] (x as u32);
                    }
                }
            },
        }
    }
    assert(message_fields(inner@) == Some(iseen)) by {
        assert(iseen + Seq::<Field>::empty() =~= iseen);
    }
    Ok(GunModelInfo { gun_module_id: gmod, model_node })
}

/// Reads one turret entry of `models.pb`; `None` when it has no content.
fn parse_model_turret(tb: &[u8]) -> (res: Result<Option<TurretModelInfo>, PbError>)
    ensures
        match model_turret_spec(tb@) {
            None => res is Err,
            Some(None) => res matches Ok(None),
            Some(Some(t)) => res matches Ok(Some(x)) && x@ == t,
        },
{
    let mut tr = Reader::new(tb);
    let mut tmod: u32 = 0;
    let mut content: Option<&[u8]> = None;
    let ghost mut seen: Seq<Field> = Seq::empty();
    loop
        invariant
            tr.buf@ == tb@,
            tr.pos <= tb@.len(),
            message_fields(tb@) == join(seen, fields_from(tb@, tr.pos as int)),
            tmod == varint_u32_or_zero(seen, 1),
            match content {
                Some(b) => last_bytes(seen, 2) == Some(b@),
                None => last_bytes(seen, 2) is None,
            },
        ensures
            tr.pos >= tb@.len(),
            message_fields(tb@) == join(seen, fields_from(tb@, tr.pos as int)),
            tmod == varint_u32_or_zero(seen, 1),
            match content {
                Some(b) => last_bytes(seen, 2) == Some(b@),
                None => last_bytes(seen, 2) is None,
            },
        decreases tb@.len() - tr.pos,
    {
        let ghost pos0 = tr.pos as int;
        match tr.read_field() {
            None => break,
            Some(Err(e)) => {
                proof {
                    lemma_fields_step(tb@, pos0, seen);
                }
                return Err(e);
            },
            Some(Ok((f, w, v))) => {
                proof {
                    lemma_fields_step(tb@, pos0, seen);
                    lemma_last_varint_push(seen, field_of(f, w, v@), 1);
                    lemma_last_bytes_push(seen, field_of(f, w, v@), 2);
                    seen = seen.push(field_of(f, w, v@));
                }
                match v {
                    FieldValue::Varint(x) => {
                        if f == 1 && w == 0 {
                            tmod = #[verifier::truncate] (x as u32);
                        }
                    },
                    FieldValue::Bytes(b) => {
                        if f == 2 && w == 2 {
                            content = Some(b);
                        }
                    },
                    _ => {},
                }
            },
        }
    }
    assert(message_fields(tb@) == Some(seen)) by {
        assert(seen + Seq::<Field>::empty() =~= seen);
    }
    let content = match content {
        None => {
            return Ok(None);
        },
        Some(b) => b,
    };
    let mut cr = Reader::new(content);
    let mut model_node: u32 = 0;
    let mut guns: Vec<GunModelInfo> = Vec::new();
    let ghost mut cseen: Seq<Field> = Seq::empty();
    loop
        invariant
            cr.buf@ == content@,
            cr.pos <= content@.len(),
            message_fields(content@) == join(cseen, fields_from(content@, cr.pos as int)),
            model_node == varint_u32_or_zero(cseen, 3),
            collect_fields(cseen, gun_field_fn()) == Some(guns@),
            message_fields(tb@) == Some(seen),
            last_bytes(seen, 2) == Some(content@),
            tmod == varint_u32_or_zero(seen, 1),
        ensures
            cr.pos >= content@.len(),
            message_fields(content@) == join(cseen, fields_from(content@, cr.pos as int)),
            model_node == varint_u32_or_zero(cseen, 3),
            collect_fields(cseen, gun_field_fn()) == Some(guns@),
        decreases content@.len() - cr.pos,
    {
        let ghost pos0 = cr.pos as int;
        match cr.read_field() {
            None => break,
            Some(Err(e)) => {
                proof {
                    lemma_fields_step(content@, pos0, cseen);
                }
                return Err(e);
            },
            Some(Ok((f, w, v))) => {
                let ghost fld = field_of(f, w, v@);
                proof {
                    lemma_fields_step(content@, pos0, cseen);
                    lemma_last_varint_push(cseen, fld, 3);
                    lemma_collect_push(cseen, fld, gun_field_fn());
                    cseen = cseen.push(fld);
                }
                match v {
                    FieldValue::Varint(x) => {
                        if f == 3 && w == 0 {
                            model_node = #[verifier::truncate] (x as u32);
                        }
                    },
                    FieldValue::Bytes(b) => {
                        if f == 5 && w == 2 {
                            match parse_model_gun(b) {
                                Ok(g) => {
                                    guns.push(g);
                                },
                                Err(e) => {
                                    proof {
                                        lemma_walk_error(
                                            content@,
                                            cseen,
                                            cr.pos as int,
                                            gun_field_fn(),
                                        );
                                    }
                                    return Err(e);
                                },
                            }
                        }
                    },
                    _ => {},
                }
            },
        }
    }
    assert(message_fields(content@) == Some(cseen)) by {
        assert(cseen + Seq::<Field>::empty() =~= cseen);
    }
    Ok(Some(TurretModelInfo { module_id: tmod, model_node, guns }))
}

/// Reads one tank entry of `models.pb`; `None` when it has no model content.
fn parse_model_tank_entry(tb: &[u8]) -> (res: Result<Option<TankModelInfo>, PbError>)
    ensures
        match model_tank_spec(tb@) {
            None => res is Err,
            Some(None) => res matches Ok(None),
            Some(Some(t)) => res matches Ok(Some(x)) && x@ == t,
        },
{
    let mut tr = Reader::new(tb);
    let mut tank_id: u32 = 0;
    let mut content: Option<&[u8]> = None;
    let ghost mut seen: Seq<Field> = Seq::empty();
    loop
        invariant
            tr.buf@ == tb@,
            tr.pos <= tb@.len(),
            message_fields(tb@) == join(seen, fields_from(tb@, tr.pos as int)),
            tank_id == varint_u32_or_zero(seen, 1),
            match content {
                Some(b) => last_bytes(seen, 2) == Some(b@),
                None => last_bytes(seen, 2) is None,
            },
        ensures
            tr.pos >= tb@.len(),
            message_fields(tb@) == join(seen, fields_from(tb@, tr.pos as int)),
            tank_id == varint_u32_or_zero(seen, 1),
            match content {
                Some(b) => last_bytes(seen, 2) == Some(b@),
                None => last_bytes(seen, 2) is None,
            },
        decreases tb@.len() - tr.pos,
    {
        let ghost pos0 = tr.pos as int;
        match tr.read_field() {
            None => break,
            Some(Err(e)) => {
                proof {
                    lemma_fields_step(tb@, pos0, seen);
                }
                return Err(e);
            },
            Some(Ok((f, w, v))) => {
                proof {
                    lemma_fields_step(tb@, pos0, seen);
                    lemma_last_varint_push(seen, field_of(f, w, v@), 1);
                    lemma_last_bytes_push(seen, field_of(f, w, v@), 2);
                    seen = seen.push(field_of(f, w, v@));
                }
                match v {
                    FieldValue::Varint(x) => {
                        if f == 1 && w == 0 {
                            tank_id = #[verifier::truncate] (x as u32);
                        }
                    },
                    FieldValue::Bytes(b) => {
                        if f == 2 && w == 2 {
                            content = Some(b);
                        }
                    },
                    _ => {},
                }
            },
        }
    }
    assert(message_fields(tb@) == Some(seen)) by {
        assert(seen + Seq::<Field>::empty() =~= seen);
    }
    let content = match content {
        None => {
            return Ok(None);
        },
        Some(b) => b,
    };
    let mut cr = Reader::new(content);
    let mut turrets: Vec<TurretModelInfo> = Vec::new();
    let ghost mut cseen: Seq<Field> = Seq::empty();
    loop
        invariant
            cr.buf@ == content@,
            cr.pos <= content@.len(),
            message_fields(content@) == join(cseen, fields_from(content@, cr.pos as int)),
            collect_fields(cseen, turret_field_fn()) == Some(
                turrets@.map_values(|t: TurretModelInfo| t@),
            ),
            message_fields(tb@) == Some(seen),
            last_bytes(seen, 2) == Some(content@),
            tank_id == varint_u32_or_zero(seen, 1),
        ensures
            cr.pos >= content@.len(),
            message_fields(content@) == join(cseen, fields_from(content@, cr.pos as int)),
            collect_fields(cseen, turret_field_fn()) == Some(
                turrets@.map_values(|t: TurretModelInfo| t@),
            ),
        decreases content@.len() - cr.pos,
    {
        let ghost pos0 = cr.pos as int;
        match cr.read_field() {
            None => break,
            Some(Err(e)) => {
                proof {
                    lemma_fields_step(content@, pos0, cseen);
                }
                return Err(e);
            },
            Some(Ok((f, w, v))) => {
                let ghost fld = field_of(f, w, v@);
                proof {
                    lemma_fields_step(content@, pos0, cseen);
                    lemma_collect_push(cseen, fld, turret_field_fn());
                    cseen = cseen.push(fld);
                }
                if let FieldValue::Bytes(b) = v {
                    if f == 4 && w == 2 {
                        match parse_model_turret(b) {
                            Ok(Some(t)) => {
                                let ghost old_view = turrets@.map_values(|t: TurretModelInfo| t@);
                                turrets.push(t);
                                assert(turrets@.map_values(|t: TurretModelInfo| t@) =~= old_view.push(t@));
                            },
                            Ok(None) => {},
                            Err(e) => {
                                proof {
                                    lemma_walk_error(
                                        content@,
                                        cseen,
                                        cr.pos as int,
                                        turret_field_fn(),
                                    );
                                }
                                return Err(e);
                            },
                        }
                    }
                }
            },
        }
    }
    assert(message_fields(content@) == Some(cseen)) by {
        assert(cseen + Seq::<Field>::empty() =~= cseen);
    }
    Ok(Some(TankModelInfo { tank_id, turrets }))
}

/// Parses BlitzKit `models.pb`: for each tank that has model content, the
/// model node of every turret and gun, in file order.
pub fn parse_models_pb(buf: &[u8]) -> (res: Result<Vec<TankModelInfo>, PbError>)
    ensures
        match models_pb_spec(buf@) {
            None => res is Err,
            Some(ts) => res matches Ok(v) && v@.map_values(|t: TankModelInfo| t@) == ts,
        },
{
    let mut top = Reader::new(buf);
    let mut result: Vec<TankModelInfo> = Vec::new();
    let ghost mut seen: Seq<Field> = Seq::empty();
    loop
        invariant
            top.buf@ == buf@,
            top.pos <= buf@.len(),
            message_fields(buf@) == join(seen, fields_from(buf@, top.pos as int)),
            collect_fields(seen, tank_field_fn()) == Some(
                result@.map_values(|t: TankModelInfo| t@),
            ),
        ensures
            top.pos >= buf@.len(),
            message_fields(buf@) == join(seen, fields_from(buf@, top.pos as int)),
            collect_fields(seen, tank_field_fn()) == Some(
                result@.map_values(|t: TankModelInfo| t@),
            ),
        decreases buf@.len() - top.pos,
    {
        let ghost pos0 = top.pos as int;
        match top.read_field() {
            None => break,
            Some(Err(e)) => {
                proof {
                    lemma_fields_step(buf@, pos0, seen);
                }
                return Err(e);
            },
            Some(Ok((f, w, v))) => {
                let ghost fld = field_of(f, w, v@);
                proof {
                    lemma_fields_step(buf@, pos0, seen);
                    lemma_collect_push(seen, fld, tank_field_fn());
                    seen = seen.push(fld);
                }
                if let FieldValue::Bytes(b) = v {
                    if f == 1 && w == 2 {
                        match parse_model_tank_entry(b) {
                            Ok(Some(t)) => {
                                let ghost old_view = result@.map_values(|t: TankModelInfo| t@);
                                result.push(t);
                                assert(result@.map_values(|t: TankModelInfo| t@) =~= old_view.push(t@));
                            },
                            Ok(None) => {},
                            Err(e) => {
                                proof {
                                    lemma_walk_error(buf@, seen, top.pos as int, tank_field_fn());
                                }
                                return Err(e);
                            },
                        }
                    }
                }
            },
        }
    }
    assert(message_fields(buf@) == Some(seen)) by {
        assert(seen + Seq::<Field>::empty() =~= seen);
    }
    Ok(result)
}

/// `s` is in strictly ascending order.
pub open spec fn strictly_ascending(s: Seq<u32>) -> bool {
    forall|i: int, j: int| 0 <= i < j < s.len() ==> s[i] < s[j]
}

/// Inserts `x` into a strictly ascending vector unless it is already there.
pub(crate) fn insert_sorted_unique(v: &mut Vec<u32>, x: u32)
    requires
        strictly_ascending(old(v)@),
    ensures
        strictly_ascending(final(v)@),
        forall|y: u32| final(v)@.contains(y) <==> (old(v)@.contains(y) || y == x),
{
    let mut i: usize = 0;
    while i < v.len() && v[i] < x
        invariant
            i <= v@.len(),
            v@ == old(v)@,
            forall|k: int| 0 <= k < i ==> v@[k] < x,
        decreases v@.len() - i,
    {
        i = i + 1;
    }
    if i < v.len() && v[i] == x {
        return;
    }
    let ghost before = v@;
    assert(before == old(v)@);
    v.insert(i, x);
    assert(v@ =~= before.subrange(0, i as int).push(x) + before.subrange(i as int, before.len() as int));
    assert forall|y: u32| v@.contains(y) <==> (before.contains(y) || y == x) by {
        if v@.contains(y) {
            let k = choose|k: int| 0 <= k < v@.len() && v@[k] == y;
            if k < i {
                assert(before[k] == y);
            } else if k > i {
                assert(before[k - 1] == y);
            }
        }
        if before.contains(y) {
            let k = choose|k: int| 0 <= k < before.len() && before[k] == y;
            if k < i {
                assert(v@[k] == y);
            } else {
                assert(v@[k + 1] == y);
            }
        }
        if y == x {
            assert(v@[i as int] == x);
        }
    }
    assert(forall|y: u32| v@.contains(y) <==> (old(v)@.contains(y) || y == x));
}

/// The tank ids that have model data in `models.pb`, strictly ascending;
/// empty when the buffer (for instance an absent file) does not parse.
pub fn load_model_ids(models_pb: &[u8]) -> (ids: Vec<u32>)
    ensures
        strictly_ascending(ids@),
        match models_pb_spec(models_pb@) {
            None => ids@.len() == 0,
            Some(ts) => forall|id: u32|
                ids@.contains(id) <==> exists|k: int| 0 <= k < ts.len() && ts[k].tank_id == id,
        },
{
    let mut ids: Vec<u32> = Vec::new();
    match parse_models_pb(models_pb) {
        Err(_) => ids,
        Ok(tanks) => {
            let ghost ts = tanks@.map_values(|t: TankModelInfo| t@);
            let mut i: usize = 0;
            while i < tanks.len()
                invariant
                    i <= tanks@.len(),
                    ts == tanks@.map_values(|t: TankModelInfo| t@),
                    strictly_ascending(ids@),
                    forall|id: u32|
                        ids@.contains(id) <==> exists|k: int| 0 <= k < i && ts[k].tank_id == id,
                decreases tanks@.len() - i,
            {
                let ghost before = ids@;
                insert_sorted_unique(&mut ids, tanks[i].tank_id);
                assert forall|id: u32|
                    ids@.contains(id) <==> exists|k: int| 0 <= k < i + 1 && ts[k].tank_id == id by {
                    if ids@.contains(id) && id == tanks@[i as int].tank_id {
                        assert(ts[i as int].tank_id == id);
                    }
                }
                i = i + 1;
            }
            ids
        },
    }
}

/// Decodes a tank class code: 1 = medium, 2 = heavy, 3 = tank destroyer,
/// anything else = light.
pub open spec fn class_name(code: u32) -> Seq<char> {
    if code == 1 {
        "mediumTank"@
    } else if code == 2 {
        "heavyTank"@
    } else if code == 3 {
        "AT-SPG"@
    } else {
        "lightTank"@
    }
}

/// Decodes a tank class code (`tanks.pb` field 17).
pub fn decode_class_code(code: u32) -> (s: String)
    ensures
        s@ == class_name(code),
{
    if code == 1 {
        "mediumTank".to_string()
    } else if code == 2 {
        "heavyTank".to_string()
    } else if code == 3 {
        "AT-SPG".to_string()
    } else {
        "lightTank".to_string()
    }
}

/// Where a scan for a varint from `pos` stops: after the byte that ends
/// it, after the tenth byte when it runs longer, or at the end of the
/// buffer when it is cut short.
pub open spec fn varint_scan_end(buf: Seq<u8>, pos: int, shift: u64) -> int
    decreases buf.len() - pos,
{
    if pos < 0 || pos >= buf.len() || shift > 63 {
        pos
    } else if buf[pos] & 0x80 == 0 || shift + 7 > 63 {
        pos + 1
    } else {
        varint_scan_end(buf, pos + 1, (shift + 7) as u64)
    }
}

/// Reads a varint at `*i` and moves `*i` past it; on failure `*i` is left
/// where the scan stopped (the end of the buffer when the varint is cut
/// short, ten bytes on when it is too long).
pub fn read_varint(b: &[u8], i: &mut usize) -> (res: Option<u64>)
    ensures
        *old(i) >= b@.len() ==> res is None && *final(i) == *old(i),
        *old(i) < b@.len() ==> match spec_varint(b@, *old(i) as int) {
            Some((v, p)) => res == Some(v) && *final(i) == p,
            None => res is None && *final(i) == varint_scan_end(b@, *old(i) as int, 0),
        },
{
    let ghost start = *i as int;
    let mut r: u64 = 0;
    let mut s: u64 = 0;
    while *i < b.len()
        invariant
            start == *old(i),
            start <= *i <= b@.len() || (*i == start && start > b@.len()),
            s <= 63,
            start < b@.len() ==> varint_step(b@, *i as int, s, r) == spec_varint(b@, start),
            start < b@.len() ==> varint_scan_end(b@, *i as int, s) == varint_scan_end(b@, start, 0),
        decreases b@.len() - *i,
    {
        let x = b[*i];
        *i = *i + 1;
        r = r | (((x & 0x7f) as u64) << s);
        if x & 0x80 == 0 {
            return Some(r);
        }
        if s + 7 > 63 {
            return None;
        }
        s = s + 7;
    }
    None
}

/// The four bytes `\x02 e n \x12` that open the English entry of a
/// localised name block start at `k`.
pub open spec fn en_marker_at(s: Seq<u8>, k: int) -> bool {
    0 <= k && k + 4 <= s.len() && s[k] == 0x02u8 && s[k + 1] == 0x65u8 && s[k + 2] == 0x6eu8
        && s[k + 3] == 0x12u8
}

/// The first position at or after `k` where the English marker starts.
pub open spec fn first_en_marker_from(s: Seq<u8>, k: int) -> Option<int>
    decreases s.len() - k,
{
    if k < 0 || k + 4 > s.len() {
        None
    } else if en_marker_at(s, k) {
        Some(k)
    } else {
        first_en_marker_from(s, k + 1)
    }
}

/// The English display name in a localised name block: after the first
/// marker comes a varint length and the UTF-8 name; the empty text when
/// there is no marker or the length overruns the block.
pub open spec fn extract_name_spec(s: Seq<u8>) -> Seq<char> {
    match first_en_marker_from(s, 0) {
        None => Seq::empty(),
        Some(k) => match spec_varint(s, k + 4) {
            None => Seq::empty(),
            Some((n, j)) => if j + n <= s.len() {
                utf8_lossy(s.subrange(j, j + n))
            } else {
                Seq::empty()
            },
        },
    }
}

/// Extracts the English name from a localised name block.
pub fn extract_name(name_bytes: &[u8]) -> (name: String)
    ensures
        name@ == extract_name_spec(name_bytes@),
{
    let len = name_bytes.len();
    if len < 4 {
        return String::new();
    }
    let mut k: usize = 0;
    while k <= len - 4
        invariant
            len == name_bytes@.len(),
            len >= 4,
            k <= len - 3,
            first_en_marker_from(name_bytes@, 0) == first_en_marker_from(name_bytes@, k as int),
        decreases len - k,
    {
        if name_bytes[k] == 0x02u8 && name_bytes[k + 1] == 0x65u8 && name_bytes[k + 2] == 0x6eu8
            && name_bytes[k + 3] == 0x12u8 {
            let mut j: usize = k + 4;
            proof {
                crate::protobuf::lemma_varint_step_advances(name_bytes@, k + 4, 0, 0);
            }
            match read_varint(name_bytes, &mut j) {
                Some(nlen) => {
                    if nlen <= (len - j) as u64 {
                        let end = j + nlen as usize;
                        return string_from_utf8_lossy(&name_bytes[j..end]);
                    }
                    return String::new();
                },
                None => {
                    return String::new();
                },
            }
        }
        k = k + 1;
    }
    String::new()
}

/// The model nodes of the first tank with this id.
pub fn model_info(models: &[TankModelInfo], tank_id: u32) -> (r: Option<&TankModelInfo>)
    ensures
        match r {
            Some(t) => exists|k: int|
                0 <= k < models@.len() && models@[k] == *t && t.tank_id == tank_id && forall|j: int|
                    0 <= j < k ==> models@[j].tank_id != tank_id,
            None => forall|j: int| 0 <= j < models@.len() ==> models@[j].tank_id != tank_id,
        },
{
    let mut i: usize = 0;
    while i < models.len()
        invariant
            i <= models@.len(),
            forall|j: int| 0 <= j < i ==> models@[j].tank_id != tank_id,
        decreases models@.len() - i,
    {
        if models[i].tank_id == tank_id {
            return Some(&models[i]);
        }
        i = i + 1;
    }
    None
}

} // verus!
