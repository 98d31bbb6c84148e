//! Reader for BlitzKit `tanks.pb`, the tank database: per tank its metadata,
//! turrets, guns, shells and reload data.
//!
//! Layout (field numbers):
//!   top level, field 1 (repeated) = one entry: field 1 = tank id,
//!     field 2 = tank body;
//!   tank body: 2 = dev name, 10 = hit points, 11 = nation, 12 = localised
//!     names, 13 = premium flag, 16 = tier, 17 = class code, 20 = turret
//!     (repeated), 25 / 26 = forward / reverse speed, 27 = hull traverse,
//!     31 = weight, 32 = short name;
//!   turret: 1 = module id, 2 = weight, 3 = view range, 4 = traverse speed,
//!     9 = gun (repeated);
//!   gun: 1 = single-shot reload, 2 = magazine, 3 = drum, 4 = module id,
//!     5 = caliber factor, 8 = localised names, 9 = shell count,
//!     10 = shell (repeated), 12 = aim time, 13 = dispersion;
//!   shell: 2 = localised names, 4 = damage, 5 = module damage, 7 = type,
//!     8 = penetration block (its field 1).
//!
//! Four-byte values are IEEE-754 single floats; they are kept here as their
//! bit patterns (`*_bits` fields), and integer values that the tool shows as
//! numbers are kept as the integers read.

use vstd::prelude::*;

use crate::blitzkit::{class_name, decode_class_code, extract_name, extract_name_spec};
use crate::dvpl::{le_u32, read_le_u32};
use crate::protobuf::{
    field_of, fields_from, fold_fields, join, last_bytes, last_fixed32, last_varint,
    lemma_fields_step, lemma_fold_push, lemma_fold_walk_error, lemma_last_bytes_push,
    lemma_last_fixed32_push, lemma_last_varint_push, message_fields, varint_u32_or_zero, Field,
    FieldValue, PbError, Reader, collect_fields, lemma_collect_push, lemma_walk_error,
};
use crate::text::{decimal, push_decimal, replace_all, str_replace, string_from_utf8_lossy, utf8_lossy};

verus! {

/// The bit pattern of a four-byte little-endian float (0 for a value of
/// another length).
pub open spec fn f32_bits(b: Seq<u8>) -> u32 {
    if b.len() == 4 {
        le_u32(b, 0) as u32
    } else {
        0
    }
}

fn f32_bits_of(b: &[u8]) -> (r: u32)
    ensures
        r == f32_bits(b@),
{
    if b.len() == 4 {
        read_le_u32(b, 0)
    } else {
        0
    }
}

/// The last four-byte field with this number as float bits, or 0 (+0.0).
pub open spec fn f32_or_zero(fs: Seq<Field>, number: u32) -> u32 {
    match last_fixed32(fs, number) {
        Some(b) => f32_bits(b),
        None => 0,
    }
}

/// The last varint with this number, or 0.
pub open spec fn varint_or_zero(fs: Seq<Field>, number: u32) -> u64 {
    match last_varint(fs, number) {
        Some(v) => v,
        None => 0,
    }
}

/// The payload of the last length-delimited field with this number, or
/// nothing.
pub open spec fn bytes_or_empty(fs: Seq<Field>, number: u32) -> Seq<u8> {
    match last_bytes(fs, number) {
        Some(b) => b,
        None => Seq::empty(),
    }
}

/// The text of the last length-delimited field with this number (invalid
/// UTF-8 replaced), or the empty text.
pub open spec fn lossy_or_empty(fs: Seq<Field>, number: u32) -> Seq<char> {
    match last_bytes(fs, number) {
        Some(b) => utf8_lossy(b),
        None => Seq::empty(),
    }
}

/// The float bits of every four-byte field with this number, in order.
pub open spec fn all_fixed32(fs: Seq<Field>, number: u32) -> Seq<u32>
    decreases fs.len(),
{
    if fs.len() == 0 {
        Seq::empty()
    } else {
        let f = fs.last();
        let prev = all_fixed32(fs.drop_last(), number);
        if f.number == number && f.wire == 5 && f.value is Fixed32 {
            prev.push(f32_bits(f.value->Fixed32_0))
        } else {
            prev
        }
    }
}

/// The four-byte fields 1, 2 and 3 of a small float block: the last of
/// each, and every field 1 in order.
pub struct F32Block {
    pub last1: Option<u32>,
    pub last2: Option<u32>,
    pub last3: Option<u32>,
    pub all1: Vec<u32>,
}

/// The last four-byte field with this number, as float bits.
pub open spec fn last_f32(fs: Seq<Field>, number: u32) -> Option<u32> {
    match last_fixed32(fs, number) {
        Some(b) => Some(f32_bits(b)),
        None => None,
    }
}

/// Reads a float block (the penetration block of a shell, or a reload
/// block of a gun).
fn read_f32_block(b: &[u8]) -> (res: Result<F32Block, PbError>)
    ensures
        match message_fields(b@) {
            None => res is Err,
            Some(fs) => res matches Ok(blk) && blk.last1 == last_f32(fs, 1) && blk.last2 == last_f32(
                fs,
                2,
            ) && blk.last3 == last_f32(fs, 3) && blk.all1@ == all_fixed32(fs, 1),
        },
{
    let mut r = Reader::new(b);
    let mut blk = F32Block { last1: None, last2: None, last3: None, all1: Vec::new() };
    let ghost mut seen: Seq<Field> = Seq::empty();
    loop
        invariant
            r.buf@ == b@,
            r.pos <= b@.len(),
            message_fields(b@) == join(seen, fields_from(b@, r.pos as int)),
            blk.last1 == last_f32(seen, 1),
            blk.last2 == last_f32(seen, 2),
            blk.last3 == last_f32(seen, 3),
            blk.all1@ == all_fixed32(seen, 1),
        ensures
            r.pos >= b@.len(),
            message_fields(b@) == join(seen, fields_from(b@, r.pos as int)),
            blk.last1 == last_f32(seen, 1),
            blk.last2 == last_f32(seen, 2),
            blk.last3 == last_f32(seen, 3),
            blk.all1@ == all_fixed32(seen, 1),
        decreases b@.len() - r.pos,
    {
        let ghost pos0 = r.pos as int;
        match r.read_field() {
            None => break,
            Some(Err(e)) => {
                proof {
                    lemma_fields_step(b@, pos0, seen);
                }
                return Err(e);
            },
            Some(Ok((f, w, v))) => {
                let ghost fld = field_of(f, w, v@);
                proof {
                    lemma_fields_step(b@, pos0, seen);
                    lemma_last_fixed32_push(seen, fld, 1);
                    lemma_last_fixed32_push(seen, fld, 2);
                    lemma_last_fixed32_push(seen, fld, 3);
                    assert(seen.push(fld).drop_last() =~= seen);
                    seen = seen.push(fld);
                }
                if let FieldValue::Fixed32(x) = v {
                    if w == 5 {
                        let bits = f32_bits_of(x);
                        if f == 1 {
                            blk.last1 = Some(bits);
                            blk.all1.push(bits);
                        } else if f == 2 {
                            blk.last2 = Some(bits);
                        } else if f == 3 {
                            blk.last3 = Some(bits);
                        }
                    }
                }
            },
        }
    }
    assert(message_fields(b@) == Some(seen)) by {
        assert(seen + Seq::<Field>::empty() =~= seen);
    }
    Ok(blk)
}

/// One shell type of a gun.
pub struct ShellData {
    /// English name.
    pub name: String,
    /// Kind, as written in the database (for instance "ARMOR_PIERCING").
    pub shell_type: String,
    pub damage: u64,
    /// Penetration (mm), as float bits.
    pub penetration_bits: u32,
    pub module_damage: u64,
}

/// Mathematical value of a `ShellData`.
pub struct ShellView {
    pub name: Seq<char>,
    pub shell_type: Seq<char>,
    pub damage: u64,
    pub penetration_bits: u32,
    pub module_damage: u64,
}

impl View for ShellData {
    type V = ShellView;

    open spec fn view(&self) -> ShellView {
        ShellView {
            name: self.name@,
            shell_type: self.shell_type@,
            damage: self.damage,
            penetration_bits: self.penetration_bits,
            module_damage: self.module_damage,
        }
    }
}

/// One step of the penetration walk of a shell: each penetration block
/// (field 8) with a field 1 sets the value; a block without one keeps it.
pub open spec fn pen_step(p: u32, f: Field) -> Option<u32> {
    if f.number == 8 && f.wire == 2 && f.value is Bytes {
        match message_fields(f.value->Bytes_0) {
            None => None,
            Some(ifs) => Some(
                match last_f32(ifs, 1) {
                    Some(x) => x,
                    None => p,
                },
            ),
        }
    } else {
        Some(p)
    }
}

/// `pen_step` as a function value.
pub open spec fn pen_step_fn() -> spec_fn(u32, Field) -> Option<u32> {
    |p: u32, f: Field| pen_step(p, f)
}

/// A shell block; `None` when it is malformed.
pub open spec fn shell_spec(buf: Seq<u8>) -> Option<ShellView> {
    match message_fields(buf) {
        None => None,
        Some(fs) => match fold_fields(fs, 0u32, pen_step_fn()) {
            None => None,
            Some(pen) => Some(
                ShellView {
                    name: extract_name_spec(bytes_or_empty(fs, 2)),
                    shell_type: lossy_or_empty(fs, 7),
                    damage: varint_or_zero(fs, 4),
                    penetration_bits: pen,
                    module_damage: varint_or_zero(fs, 5),
                },
            ),
        },
    }
}

/// The text of an optional byte block (invalid UTF-8 replaced), or the
/// empty text.
fn lossy_text(b: Option<&[u8]>) -> (s: String)
    ensures
        match b {
            Some(x) => s@ == utf8_lossy(x@),
            None => s@ == Seq::<char>::empty(),
        },
{
    match b {
        Some(x) => string_from_utf8_lossy(x),
        None => String::new(),
    }
}

/// The English name in an optional localised name block, or the empty text.
fn name_of(b: Option<&[u8]>) -> (s: String)
    ensures
        match b {
            Some(x) => s@ == extract_name_spec(x@),
            None => s@ == extract_name_spec(Seq::empty()),
        },
{
    match b {
        Some(x) => extract_name(x),
        None => {
            let e: [u8; 0] = [];
            extract_name(&e)
        },
    }
}

/// Reads one shell block.
fn parse_shell(sb: &[u8]) -> (res: Result<ShellData, PbError>)
    ensures
        match shell_spec(sb@) {
            None => res is Err,
            Some(v) => res matches Ok(x) && x@ == v,
        },
{
    let mut r = Reader::new(sb);
    let mut name_bytes: Option<&[u8]> = None;
    let mut type_bytes: Option<&[u8]> = None;
    let mut damage: u64 = 0;
    let mut module_damage: u64 = 0;
    let mut pen: u32 = 0;
    let ghost mut seen: Seq<Field> = Seq::empty();
    loop
        invariant
            r.buf@ == sb@,
            r.pos <= sb@.len(),
            message_fields(sb@) == join(seen, fields_from(sb@, r.pos as int)),
            match name_bytes {
                Some(b) => last_bytes(seen, 2) == Some(b@),
                None => last_bytes(seen, 2) is None,
            },
            match type_bytes {
                Some(b) => last_bytes(seen, 7) == Some(b@),
                None => last_bytes(seen, 7) is None,
            },
            damage == varint_or_zero(seen, 4),
            module_damage == varint_or_zero(seen, 5),
            fold_fields(seen, 0u32, pen_step_fn()) == Some(pen),
        ensures
            r.pos >= sb@.len(),
            message_fields(sb@) == join(seen, fields_from(sb@, r.pos as int)),
            match name_bytes {
                Some(b) => last_bytes(seen, 2) == Some(b@),
                None => last_bytes(seen, 2) is None,
            },
            match type_bytes {
                Some(b) => last_bytes(seen, 7) == Some(b@),
                None => last_bytes(seen, 7) is None,
            },
            damage == varint_or_zero(seen, 4),
            module_damage == varint_or_zero(seen, 5),
            fold_fields(seen, 0u32, pen_step_fn()) == Some(pen),
        decreases sb@.len() - r.pos,
    {
        let ghost pos0 = r.pos as int;
        match r.read_field() {
            None => break,
            Some(Err(e)) => {
                proof {
                    lemma_fields_step(sb@, pos0, seen);
                }
                return Err(e);
            },
            Some(Ok((f, w, v))) => {
                let ghost fld = field_of(f, w, v@);
                proof {
                    lemma_fields_step(sb@, pos0, seen);
                    lemma_last_bytes_push(seen, fld, 2);
                    lemma_last_bytes_push(seen, fld, 7);
                    lemma_last_varint_push(seen, fld, 4);
                    lemma_last_varint_push(seen, fld, 5);
                    lemma_fold_push(seen, fld, 0u32, pen_step_fn());
                    seen = seen.push(fld);
                }
                match v {
                    FieldValue::Varint(x) => {
                        if f == 4 && w == 0 {
                            damage = x;
                        } else if f == 5 && w == 0 {
                            module_damage = x;
                        }
                    },
                    FieldValue::Bytes(b) => {
                        if f == 2 && w == 2 {
                            name_bytes = Some(b);
                        } else if f == 7 && w == 2 {
                            type_bytes = Some(b);
                        } else if f == 8 && w == 2 {
                            match read_f32_block(b) {
                                Ok(blk) => {
                                    if let Some(x) = blk.last1 {
                                        pen = x;
                                    }
                                },
                                Err(e) => {
                                    proof {
                                        lemma_fold_walk_error(
                                            sb@,
                                            seen,
                                            r.pos as int,
                                            0u32,
                                            pen_step_fn(),
                                        );
                                    }
                                    return Err(e);
                                },
                            }
                        }
                    },
                    _ => {},
                }
            },
        }
    }
    assert(message_fields(sb@) == Some(seen)) by {
        assert(seen + Seq::<Field>::empty() =~= seen);
    }
    let name = name_of(name_bytes);
    let shell_type = lossy_text(type_bytes);
    Ok(ShellData { name, shell_type, damage, penetration_bits: pen, module_damage })
}

/// A float value (as bits) is a number greater than 1.0: positive, above
/// the bits of 1.0, and not NaN (positive infinity counts).
pub open spec fn f32_above_one(bits: u32) -> bool {
    0x3f80_0000u32 < bits <= 0x7f80_0000u32
}

/// The largest of the per-shot reload times of a drum, starting from +0.0:
/// only non-negative, non-NaN values can win, and among those the float
/// order is the order of the bits.
pub open spec fn drum_max(shots: Seq<u32>) -> u32
    decreases shots.len(),
{
    if shots.len() == 0 {
        0
    } else {
        let m = drum_max(shots.drop_last());
        let x = shots.last();
        if x <= 0x7f80_0000u32 && x > m {
            x
        } else {
            m
        }
    }
}

/// The reload of a drum is at least every non-negative, non-NaN per-shot
/// reload, and it is one of them (or +0.0 when there is none).
pub proof fn law_drum_reload_is_largest(shots: Seq<u32>)
    ensures
        forall|k: int| 0 <= k < shots.len() && shots[k] <= 0x7f80_0000u32 ==> shots[k] <= drum_max(shots),
        drum_max(shots) == 0 || shots.contains(drum_max(shots)),
        drum_max(shots) <= 0x7f80_0000u32,
    decreases shots.len(),
{
    if shots.len() > 0 {
        let pre = shots.drop_last();
        law_drum_reload_is_largest(pre);
        assert forall|k: int| 0 <= k < shots.len() && shots[k] <= 0x7f80_0000u32 implies shots[k]
            <= drum_max(shots) by {
            if k < shots.len() - 1 {
                assert(shots[k] == pre[k]);
            }
        }
        if drum_max(shots) != 0 && drum_max(shots) != shots.last() {
            let j = choose|j: int| 0 <= j < pre.len() && pre[j] == drum_max(pre);
            assert(shots[j] == pre[j]);
        }
    }
}

fn drum_max_of(shots: &Vec<u32>) -> (r: u32)
    ensures
        r == drum_max(shots@),
{
    let mut m: u32 = 0;
    let mut i: usize = 0;
    while i < shots.len()
        invariant
            i <= shots@.len(),
            m == drum_max(shots@.take(i as int)),
        decreases shots@.len() - i,
    {
        proof {
            assert(shots@.take(i + 1).drop_last() =~= shots@.take(i as int));
        }
        let x = shots[i];
        if x <= 0x7f80_0000u32 && x > m {
            m = x;
        }
        i = i + 1;
    }
    assert(shots@.take(shots@.len() as int) =~= shots@);
    m
}

/// Reload data of a gun.
pub struct GunReload {
    /// Single shot: the reload; magazine: the whole-magazine reload; drum:
    /// the largest per-shot reload. Float bits.
    pub reload_bits: u32,
    /// Magazine or drum.
    pub is_burst: bool,
    /// Drum (each shell reloads on its own).
    pub is_drum: bool,
    /// Magazine or drum size, float bits.
    pub burst_size_bits: u32,
    /// Interval between shots in a burst, float bits.
    pub burst_interval_bits: u32,
    /// Per-shot reloads of a drum, float bits; empty otherwise.
    pub burst_reloads: Vec<u32>,
}

/// Mathematical value of a `GunReload`.
pub struct ReloadView {
    pub reload_bits: u32,
    pub is_burst: bool,
    pub is_drum: bool,
    pub burst_size_bits: u32,
    pub burst_interval_bits: u32,
    pub burst_reloads: Seq<u32>,
}

impl View for GunReload {
    type V = ReloadView;

    open spec fn view(&self) -> ReloadView {
        ReloadView {
            reload_bits: self.reload_bits,
            is_burst: self.is_burst,
            is_drum: self.is_drum,
            burst_size_bits: self.burst_size_bits,
            burst_interval_bits: self.burst_interval_bits,
            burst_reloads: self.burst_reloads@,
        }
    }
}

/// An optional float (bits), or +0.0.
pub open spec fn or_zero(x: Option<u32>) -> u32 {
    match x {
        Some(v) => v,
        None => 0,
    }
}

/// No reload data yet.
pub open spec fn reload_init() -> ReloadView {
    ReloadView {
        reload_bits: 0,
        is_burst: false,
        is_drum: false,
        burst_size_bits: 0,
        burst_interval_bits: 0,
        burst_reloads: Seq::empty(),
    }
}

/// One step of the reload walk of a gun. A single-shot block (field 1)
/// sets the reload if it holds one; a magazine block (field 2) and a drum
/// block (field 3) replace the whole reload data.
pub open spec fn reload_step(r: ReloadView, f: Field) -> Option<ReloadView> {
    if f.wire == 2 && f.value is Bytes && (f.number == 1 || f.number == 2 || f.number == 3) {
        match message_fields(f.value->Bytes_0) {
            None => None,
            Some(ifs) => if f.number == 1 {
                Some(
                    match last_f32(ifs, 1) {
                        Some(x) => ReloadView {
                            reload_bits: x,
                            is_burst: r.is_burst,
                            is_drum: r.is_drum,
                            burst_size_bits: r.burst_size_bits,
                            burst_interval_bits: r.burst_interval_bits,
                            burst_reloads: r.burst_reloads,
                        },
                        None => r,
                    },
                )
            } else if f.number == 2 {
                Some(
                    ReloadView {
                        reload_bits: or_zero(last_f32(ifs, 1)),
                        is_burst: true,
                        is_drum: false,
                        burst_size_bits: or_zero(last_f32(ifs, 3)),
                        burst_interval_bits: or_zero(last_f32(ifs, 2)),
                        burst_reloads: Seq::empty(),
                    },
                )
            } else {
                Some(
                    ReloadView {
                        reload_bits: drum_max(all_fixed32(ifs, 1)),
                        is_burst: true,
                        is_drum: true,
                        burst_size_bits: or_zero(last_f32(ifs, 3)),
                        burst_interval_bits: or_zero(last_f32(ifs, 2)),
                        burst_reloads: all_fixed32(ifs, 1),
                    },
                )
            },
        }
    } else {
        Some(r)
    }
}

/// `reload_step` as a function value.
pub open spec fn reload_step_fn() -> spec_fn(ReloadView, Field) -> Option<ReloadView> {
    |r: ReloadView, f: Field| reload_step(r, f)
}

/// Some caliber field (5) of the gun holds a value above 1.0.
pub open spec fn caliber_seen(fs: Seq<Field>) -> bool
    decreases fs.len(),
{
    if fs.len() == 0 {
        false
    } else {
        let f = fs.last();
        (f.number == 5 && f.wire == 5 && f.value is Fixed32 && f32_above_one(
            f32_bits(f.value->Fixed32_0),
        )) || caliber_seen(fs.drop_last())
    }
}

/// A gun field: field 10 holds a shell.
pub open spec fn shell_of_field(f: Field) -> Option<Option<ShellView>> {
    if f.number == 10 && f.wire == 2 && f.value is Bytes {
        match shell_spec(f.value->Bytes_0) {
            None => None,
            Some(sv) => Some(Some(sv)),
        }
    } else {
        Some(None)
    }
}

/// `shell_of_field` as a function value.
pub open spec fn shell_field_fn() -> spec_fn(Field) -> Option<Option<ShellView>> {
    |f: Field| shell_of_field(f)
}

/// One gun of a turret.
pub struct GunData {
    pub module_id: u32,
    /// English name.
    pub name: String,
    /// Caliber factor, float bits.
    pub caliber_factor_bits: u32,
    pub shell_count: u32,
    /// Dispersion at 100 m, float bits.
    pub dispersion_bits: u32,
    /// Aim time (s), float bits.
    pub aim_time_bits: u32,
    pub shells: Vec<ShellData>,
    pub reload: GunReload,
}

/// Mathematical value of a `GunData`.
pub struct GunView {
    pub module_id: u32,
    pub name: Seq<char>,
    pub caliber_factor_bits: u32,
    pub shell_count: u32,
    pub dispersion_bits: u32,
    pub aim_time_bits: u32,
    pub shells: Seq<ShellView>,
    pub reload: ReloadView,
}

impl View for GunData {
    type V = GunView;

    open spec fn view(&self) -> GunView {
        GunView {
            module_id: self.module_id,
            name: self.name@,
            caliber_factor_bits: self.caliber_factor_bits,
            shell_count: self.shell_count,
            dispersion_bits: self.dispersion_bits,
            aim_time_bits: self.aim_time_bits,
            shells: self.shells@.map_values(|x: ShellData| x@),
            reload: self.reload@,
        }
    }
}

/// A gun block: `Some(None)` for a gun without a caliber above 1.0 (not a
/// real gun), `None` when it is malformed.
pub open spec fn gun_spec(buf: Seq<u8>) -> Option<Option<GunView>> {
    match message_fields(buf) {
        None => None,
        Some(fs) => match fold_fields(fs, reload_init(), reload_step_fn()) {
            None => None,
            Some(rl) => match collect_fields(fs, shell_field_fn()) {
                None => None,
                Some(shells) => if !caliber_seen(fs) {
                    Some(None)
                } else {
                    Some(
                        Some(
                            GunView {
                                module_id: varint_u32_or_zero(fs, 4),
                                name: extract_name_spec(bytes_or_empty(fs, 8)),
                                caliber_factor_bits: f32_or_zero(fs, 5),
                                shell_count: varint_u32_or_zero(fs, 9),
                                dispersion_bits: f32_or_zero(fs, 13),
                                aim_time_bits: f32_or_zero(fs, 12),
                                shells,
                                reload: rl,
                            },
                        ),
                    )
                },
            },
        },
    }
}

/// Law: a gun read from a gun block carries, field by field, the block's
/// own values: module id = last varint 4, caliber = last four-byte field 5
/// (a number above 1.0), shell count = last varint 9, aim time = last
/// four-byte field 12, dispersion = last four-byte field 13 (0 where the
/// field is missing).
pub proof fn law_gun_fields_from_block(buf: Seq<u8>)
    ensures
        match (message_fields(buf), gun_spec(buf)) {
            (Some(fs), Some(Some(g))) => {
                &&& g.module_id == (match last_varint(fs, 4) {
                    Some(v) => v as u32,
                    None => 0u32,
                })
                &&& g.shell_count == (match last_varint(fs, 9) {
                    Some(v) => v as u32,
                    None => 0u32,
                })
                &&& g.aim_time_bits == (match last_fixed32(fs, 12) {
                    Some(b) => f32_bits(b),
                    None => 0u32,
                })
                &&& g.dispersion_bits == (match last_fixed32(fs, 13) {
                    Some(b) => f32_bits(b),
                    None => 0u32,
                })
                &&& g.caliber_factor_bits == (match last_fixed32(fs, 5) {
                    Some(b) => f32_bits(b),
                    None => 0u32,
                })
                &&& caliber_seen(fs)
            },
            _ => true,
        },
{
}

fn opt_or_zero(x: Option<u32>) -> (r: u32)
    ensures
        r == or_zero(x),
{
    match x {
        Some(v) => v,
        None => 0,
    }
}

/// Reads one gun block; `None` for a gun without a caliber above 1.0.
fn parse_gun(gb: &[u8]) -> (res: Result<Option<GunData>, PbError>)
    ensures
        match gun_spec(gb@) {
            None => res is Err,
            Some(None) => res matches Ok(None),
            Some(Some(g)) => res matches Ok(Some(x)) && x@ == g,
        },
{
    let mut r = Reader::new(gb);
    let mut reload = GunReload {
        reload_bits: 0,
        is_burst: false,
        is_drum: false,
        burst_size_bits: 0,
        burst_interval_bits: 0,
        burst_reloads: Vec::new(),
    };
    let mut module_id: u32 = 0;
    let mut caliber: u32 = 0;
    let mut saw_caliber = false;
    let mut name_bytes: Option<&[u8]> = None;
    let mut shell_count: u32 = 0;
    let mut shells: Vec<ShellData> = Vec::new();
    let mut aim: u32 = 0;
    let mut disp: u32 = 0;
    let ghost mut seen: Seq<Field> = Seq::empty();
    assert(reload@ =~= reload_init());
    loop
        invariant
            r.buf@ == gb@,
            r.pos <= gb@.len(),
            message_fields(gb@) == join(seen, fields_from(gb@, r.pos as int)),
            fold_fields(seen, reload_init(), reload_step_fn()) == Some(reload@),
            collect_fields(seen, shell_field_fn()) == Some(shells@.map_values(|x: ShellData| x@)),
            saw_caliber == caliber_seen(seen),
            module_id == varint_u32_or_zero(seen, 4),
            caliber == f32_or_zero(seen, 5),
            shell_count == varint_u32_or_zero(seen, 9),
            aim == f32_or_zero(seen, 12),
            disp == f32_or_zero(seen, 13),
            match name_bytes {
                Some(b) => last_bytes(seen, 8) == Some(b@),
                None => last_bytes(seen, 8) is None,
            },
        ensures
            r.pos >= gb@.len(),
            message_fields(gb@) == join(seen, fields_from(gb@, r.pos as int)),
            fold_fields(seen, reload_init(), reload_step_fn()) == Some(reload@),
            collect_fields(seen, shell_field_fn()) == Some(shells@.map_values(|x: ShellData| x@)),
            saw_caliber == caliber_seen(seen),
            module_id == varint_u32_or_zero(seen, 4),
            caliber == f32_or_zero(seen, 5),
            shell_count == varint_u32_or_zero(seen, 9),
            aim == f32_or_zero(seen, 12),
            disp == f32_or_zero(seen, 13),
            match name_bytes {
                Some(b) => last_bytes(seen, 8) == Some(b@),
                None => last_bytes(seen, 8) is None,
            },
        decreases gb@.len() - r.pos,
    {
        let ghost pos0 = r.pos as int;
        match r.read_field() {
            None => break,
            Some(Err(e)) => {
                proof {
                    lemma_fields_step(gb@, pos0, seen);
                }
                return Err(e);
            },
            Some(Ok((f, w, v))) => {
                let ghost fld = field_of(f, w, v@);
                let ghost old_reload = reload@;
                proof {
                    lemma_fields_step(gb@, pos0, seen);
                    lemma_fold_push(seen, fld, reload_init(), reload_step_fn());
                    lemma_collect_push(seen, fld, shell_field_fn());
                    lemma_last_varint_push(seen, fld, 4);
                    lemma_last_varint_push(seen, fld, 9);
                    lemma_last_fixed32_push(seen, fld, 5);
                    lemma_last_fixed32_push(seen, fld, 12);
                    lemma_last_fixed32_push(seen, fld, 13);
                    lemma_last_bytes_push(seen, fld, 8);
                    assert(seen.push(fld).drop_last() =~= seen);
                    seen = seen.push(fld);
                }
                match v {
                    FieldValue::Varint(x) => {
                        if f == 4 && w == 0 {
                            module_id = #[verifier::truncate] (x as u32);
                        } else if f == 9 && w == 0 {
                            shell_count = #[verifier::truncate] (x as u32);
                        }
                    },
                    FieldValue::Fixed32(x) => {
                        if w == 5 {
                            let bits = f32_bits_of(x);
                            if f == 5 {
                                caliber = bits;
                                if 0x3f80_0000u32 < bits && bits <= 0x7f80_0000u32 {
                                    saw_caliber = true;
                                }
                            } else if f == 12 {
                                aim = bits;
                            } else if f == 13 {
                                disp = bits;
                            }
                        }
                    },
                    FieldValue::Bytes(b) => {
                        if w == 2 && (f == 1 || f == 2 || f == 3) {
                            let blk = match read_f32_block(b) {
                                Ok(blk) => blk,
                                Err(e) => {
                                    proof {
                                        lemma_fold_walk_error(
                                            gb@,
                                            seen,
                                            r.pos as int,
                                            reload_init(),
                                            reload_step_fn(),
                                        );
                                    }
                                    return Err(e);
                                },
                            };
                            if f == 1 {
                                if let Some(x) = blk.last1 {
                                    reload.reload_bits = x;
                                }
                            } else if f == 2 {
                                reload = GunReload {
                                    reload_bits: opt_or_zero(blk.last1),
                                    is_burst: true,
                                    is_drum: false,
                                    burst_size_bits: opt_or_zero(blk.last3),
                                    burst_interval_bits: opt_or_zero(blk.last2),
                                    burst_reloads: Vec::new(),
                                };
                            } else {
                                let m = drum_max_of(&blk.all1);
                                reload = GunReload {
                                    reload_bits: m,
                                    is_burst: true,
                                    is_drum: true,
                                    burst_size_bits: opt_or_zero(blk.last3),
                                    burst_interval_bits: opt_or_zero(blk.last2),
                                    burst_reloads: blk.all1,
                                };
                            }
                            assert(reload@ =~= reload_step(old_reload, fld).unwrap());
                        } else if f == 8 && w == 2 {
                            name_bytes = Some(b);
                        } else if f == 10 && w == 2 {
                            match parse_shell(b) {
                                Ok(sh) => {
                                    let ghost old_view = shells@.map_values(|x: ShellData| x@);
                                    shells.push(sh);
                                    assert(shells@.map_values(|x: ShellData| x@) =~= old_view.push(
                                        sh@,
                                    ));
                                },
                                Err(e) => {
                                    proof {
                                        lemma_walk_error(gb@, seen, r.pos as int, shell_field_fn());
                                    }
                                    return Err(e);
                                },
                            }
                        }
                    },
                    _ => {},
                }
            },
        }
    }
    assert(message_fields(gb@) == Some(seen)) by {
        assert(seen + Seq::<Field>::empty() =~= seen);
    }
    if !saw_caliber {
        return Ok(None);
    }
    let name = name_of(name_bytes);
    Ok(
        Some(
            GunData {
                module_id,
                name,
                caliber_factor_bits: caliber,
                shell_count,
                dispersion_bits: disp,
                aim_time_bits: aim,
                shells,
                reload,
            },
        ),
    )
}

/// A turret field: field 9 holds a gun.
pub open spec fn tank_gun_of_field(f: Field) -> Option<Option<GunView>> {
    if f.number == 9 && f.wire == 2 && f.value is Bytes {
        gun_spec(f.value->Bytes_0)
    } else {
        Some(None)
    }
}

/// `tank_gun_of_field` as a function value.
pub open spec fn tank_gun_field_fn() -> spec_fn(Field) -> Option<Option<GunView>> {
    |f: Field| tank_gun_of_field(f)
}

/// One turret of a tank, with its guns.
pub struct TurretData {
    pub module_id: u32,
    /// Always empty: the database gives turrets no name here.
    pub name: String,
    pub weight: u64,
    pub view_range: u64,
    /// Traverse speed, float bits.
    pub traverse_speed_bits: u32,
    pub guns: Vec<GunData>,
}

/// Mathematical value of a `TurretData`.
pub struct TurretView {
    pub module_id: u32,
    pub name: Seq<char>,
    pub weight: u64,
    pub view_range: u64,
    pub traverse_speed_bits: u32,
    pub guns: Seq<GunView>,
}

impl View for TurretData {
    type V = TurretView;

    open spec fn view(&self) -> TurretView {
        TurretView {
            module_id: self.module_id,
            name: self.name@,
            weight: self.weight,
            view_range: self.view_range,
            traverse_speed_bits: self.traverse_speed_bits,
            guns: self.guns@.map_values(|g: GunData| g@),
        }
    }
}

/// A turret block: `Some(None)` for a turret without a real gun, `None`
/// when it is malformed.
pub open spec fn turret_spec(buf: Seq<u8>) -> Option<Option<TurretView>> {
    match message_fields(buf) {
        None => None,
        Some(fs) => match collect_fields(fs, tank_gun_field_fn()) {
            None => None,
            Some(guns) => if guns.len() == 0 {
                Some(None)
            } else {
                Some(
                    Some(
                        TurretView {
                            module_id: varint_u32_or_zero(fs, 1),
                            name: Seq::empty(),
                            weight: varint_or_zero(fs, 2),
                            view_range: varint_or_zero(fs, 3),
                            traverse_speed_bits: f32_or_zero(fs, 4),
                            guns,
                        },
                    ),
                )
            },
        },
    }
}

/// Reads one turret block; `None` for a turret without a real gun.
fn parse_turret(tb: &[u8]) -> (res: Result<Option<TurretData>, PbError>)
    ensures
        match turret_spec(tb@) {
            None => res is Err,
            Some(None) => res matches Ok(None),
            Some(Some(t)) => res matches Ok(Some(x)) && x@ == t,
        },
{
    let mut r = Reader::new(tb);
    let mut module_id: u32 = 0;
    let mut weight: u64 = 0;
    let mut view_range: u64 = 0;
    let mut traverse: u32 = 0;
    let mut guns: Vec<GunData> = Vec::new();
    let ghost mut seen: Seq<Field> = Seq::empty();
    loop
        invariant
            r.buf@ == tb@,
            r.pos <= tb@.len(),
            message_fields(tb@) == join(seen, fields_from(tb@, r.pos as int)),
            collect_fields(seen, tank_gun_field_fn()) == Some(guns@.map_values(|g: GunData| g@)),
            module_id == varint_u32_or_zero(seen, 1),
            weight == varint_or_zero(seen, 2),
            view_range == varint_or_zero(seen, 3),
            traverse == f32_or_zero(seen, 4),
        ensures
            r.pos >= tb@.len(),
            message_fields(tb@) == join(seen, fields_from(tb@, r.pos as int)),
            collect_fields(seen, tank_gun_field_fn()) == Some(guns@.map_values(|g: GunData| g@)),
            module_id == varint_u32_or_zero(seen, 1),
            weight == varint_or_zero(seen, 2),
            view_range == varint_or_zero(seen, 3),
            traverse == f32_or_zero(seen, 4),
        decreases tb@.len() - r.pos,
    {
        let ghost pos0 = r.pos as int;
        match r.read_field() {
            None => break,
            Some(Err(e)) => {
                proof {
                    lemma_fields_step(tb@, pos0, seen);
                }
                return Err(e);
            },
            Some(Ok((f, w, v))) => {
                let ghost fld = field_of(f, w, v@);
                proof {
                    lemma_fields_step(tb@, pos0, seen);
                    lemma_collect_push(seen, fld, tank_gun_field_fn());
                    lemma_last_varint_push(seen, fld, 1);
                    lemma_last_varint_push(seen, fld, 2);
                    lemma_last_varint_push(seen, fld, 3);
                    lemma_last_fixed32_push(seen, fld, 4);
                    seen = seen.push(fld);
                }
                match v {
                    FieldValue::Varint(x) => {
                        if f == 1 && w == 0 {
                            module_id = #[verifier::truncate] (x as u32);
                        } else if f == 2 && w == 0 {
                            weight = x;
                        } else if f == 3 && w == 0 {
                            view_range = x;
                        }
                    },
                    FieldValue::Fixed32(x) => {
                        if f == 4 && w == 5 {
                            traverse = f32_bits_of(x);
                        }
                    },
                    FieldValue::Bytes(b) => {
                        if f == 9 && w == 2 {
                            match parse_gun(b) {
                                Ok(Some(g)) => {
                                    let ghost old_view = guns@.map_values(|g: GunData| g@);
                                    guns.push(g);
                                    assert(guns@.map_values(|g: GunData| g@) =~= old_view.push(g@));
                                },
                                Ok(None) => {},
                                Err(e) => {
                                    proof {
                                        lemma_walk_error(
                                            tb@,
                                            seen,
                                            r.pos as int,
                                            tank_gun_field_fn(),
                                        );
                                    }
                                    return Err(e);
                                },
                            }
                        }
                    },
                    _ => {},
                }
            },
        }
    }
    assert(message_fields(tb@) == Some(seen)) by {
        assert(seen + Seq::<Field>::empty() =~= seen);
    }
    if guns.len() == 0 {
        return Ok(None);
    }
    Ok(
        Some(
            TurretData {
                module_id,
                name: String::new(),
                weight,
                view_range,
                traverse_speed_bits: traverse,
                guns,
            },
        ),
    )
}

/// A tank-body field: field 20 holds a turret.
pub open spec fn tank_turret_of_field(f: Field) -> Option<Option<TurretView>> {
    if f.number == 20 && f.wire == 2 && f.value is Bytes {
        turret_spec(f.value->Bytes_0)
    } else {
        Some(None)
    }
}

/// `tank_turret_of_field` as a function value.
pub open spec fn tank_turret_field_fn() -> spec_fn(Field) -> Option<Option<TurretView>> {
    |f: Field| tank_turret_of_field(f)
}

/// One tank: metadata, turrets, guns, shells and reloads.
pub struct TankFullData {
    pub tank_id: u32,
    pub dev_name: String,
    /// English display name, else the short name.
    pub name: String,
    pub nation: String,
    pub tier: u32,
    /// Class name ("lightTank", "mediumTank", "heavyTank", "AT-SPG"), empty
    /// when the database gives no class.
    pub tank_type: String,
    pub hp: u32,
    pub is_premium: bool,
    /// Forward and reverse speed limits and hull traverse, float bits.
    pub speed_forward_bits: u32,
    pub speed_reverse_bits: u32,
    pub hull_traverse_bits: u32,
    pub weight: u64,
    pub turrets: Vec<TurretData>,
}

/// Mathematical value of a `TankFullData`.
pub struct TankView {
    pub tank_id: u32,
    pub dev_name: Seq<char>,
    pub name: Seq<char>,
    pub nation: Seq<char>,
    pub tier: u32,
    pub tank_type: Seq<char>,
    pub hp: u32,
    pub is_premium: bool,
    pub speed_forward_bits: u32,
    pub speed_reverse_bits: u32,
    pub hull_traverse_bits: u32,
    pub weight: u64,
    pub turrets: Seq<TurretView>,
}

impl View for TankFullData {
    type V = TankView;

    open spec fn view(&self) -> TankView {
        TankView {
            tank_id: self.tank_id,
            dev_name: self.dev_name@,
            name: self.name@,
            nation: self.nation@,
            tier: self.tier,
            tank_type: self.tank_type@,
            hp: self.hp,
            is_premium: self.is_premium,
            speed_forward_bits: self.speed_forward_bits,
            speed_reverse_bits: self.speed_reverse_bits,
            hull_traverse_bits: self.hull_traverse_bits,
            weight: self.weight,
            turrets: self.turrets@.map_values(|t: TurretData| t@),
        }
    }
}

/// A tank body read under `tank_id`: `Some(None)` for a body without a
/// short name (field 32), `None` when it is malformed. The display name is
/// the English localised name when that is not empty, else the short name.
pub open spec fn tank_main_spec(buf: Seq<u8>, tank_id: u32) -> Option<Option<TankView>> {
    match message_fields(buf) {
        None => None,
        Some(fs) => match collect_fields(fs, tank_turret_field_fn()) {
            None => None,
            Some(turrets) => if last_bytes(fs, 32) is None {
                Some(None)
            } else {
                let localized = extract_name_spec(bytes_or_empty(fs, 12));
                Some(
                    Some(
                        TankView {
                            tank_id,
                            dev_name: lossy_or_empty(fs, 2),
                            name: if localized.len() > 0 {
                                localized
                            } else {
                                lossy_or_empty(fs, 32)
                            },
                            nation: lossy_or_empty(fs, 11),
                            tier: varint_u32_or_zero(fs, 16),
                            tank_type: match last_varint(fs, 17) {
                                Some(c) => class_name(c as u32),
                                None => Seq::empty(),
                            },
                            hp: varint_u32_or_zero(fs, 10),
                            is_premium: last_varint(fs, 13) == Some(1u64),
                            speed_forward_bits: f32_or_zero(fs, 25),
                            speed_reverse_bits: f32_or_zero(fs, 26),
                            hull_traverse_bits: f32_or_zero(fs, 27),
                            weight: varint_or_zero(fs, 31),
                            turrets,
                        },
                    ),
                )
            },
        },
    }
}

/// Law: a tank read from a tank body carries, field by field, the body's
/// own values: hit points = last varint 10, tier = last varint 16, weight =
/// last varint 31, forward / reverse speed and hull traverse = last
/// four-byte fields 25 / 26 / 27, premium exactly when the last varint 13 is
/// 1 (0 or not premium where a field is missing).
pub proof fn law_tank_fields_from_body(buf: Seq<u8>, tank_id: u32)
    ensures
        match (message_fields(buf), tank_main_spec(buf, tank_id)) {
            (Some(fs), Some(Some(t))) => {
                &&& t.tank_id == tank_id
                &&& t.hp == (match last_varint(fs, 10) {
                    Some(v) => v as u32,
                    None => 0u32,
                })
                &&& t.tier == (match last_varint(fs, 16) {
                    Some(v) => v as u32,
                    None => 0u32,
                })
                &&& t.weight == (match last_varint(fs, 31) {
                    Some(v) => v,
                    None => 0u64,
                })
                &&& t.speed_forward_bits == (match last_fixed32(fs, 25) {
                    Some(b) => f32_bits(b),
                    None => 0u32,
                })
                &&& t.speed_reverse_bits == (match last_fixed32(fs, 26) {
                    Some(b) => f32_bits(b),
                    None => 0u32,
                })
                &&& t.hull_traverse_bits == (match last_fixed32(fs, 27) {
                    Some(b) => f32_bits(b),
                    None => 0u32,
                })
                &&& t.is_premium == (last_varint(fs, 13) == Some(1u64))
                &&& last_bytes(fs, 32) is Some
            },
            _ => true,
        },
{
}

/// Law: a shell read from a shell block carries the block's damage (last
/// varint 4) and module damage (last varint 5), 0 where missing.
pub proof fn law_shell_fields_from_block(buf: Seq<u8>)
    ensures
        match (message_fields(buf), shell_spec(buf)) {
            (Some(fs), Some(sh)) => {
                &&& sh.damage == (match last_varint(fs, 4) {
                    Some(v) => v,
                    None => 0u64,
                })
                &&& sh.module_damage == (match last_varint(fs, 5) {
                    Some(v) => v,
                    None => 0u64,
                })
            },
            _ => true,
        },
{
}

/// Reads one tank body; `None` for a body without a short name.
fn parse_tank_main(sub: &[u8], tank_id: u32) -> (res: Result<Option<TankFullData>, PbError>)
    ensures
        match tank_main_spec(sub@, tank_id) {
            None => res is Err,
            Some(None) => res matches Ok(None),
            Some(Some(t)) => res matches Ok(Some(x)) && x@ == t,
        },
{
    let mut r = Reader::new(sub);
    let mut dev_name: Option<&[u8]> = None;
    let mut nation: Option<&[u8]> = None;
    let mut localized: Option<&[u8]> = None;
    let mut short_name: Option<&[u8]> = None;
    let mut hp: u32 = 0;
    let mut premium: Option<u64> = None;
    let mut tier: u32 = 0;
    let mut class_code: Option<u64> = None;
    let mut speed_forward: u32 = 0;
    let mut speed_reverse: u32 = 0;
    let mut hull_traverse: u32 = 0;
    let mut weight: u64 = 0;
    let mut turrets: Vec<TurretData> = Vec::new();
    let ghost mut seen: Seq<Field> = Seq::empty();
    loop
        invariant
            r.buf@ == sub@,
            r.pos <= sub@.len(),
            message_fields(sub@) == join(seen, fields_from(sub@, r.pos as int)),
            collect_fields(seen, tank_turret_field_fn()) == Some(
                turrets@.map_values(|t: TurretData| t@),
            ),
            match dev_name {
                Some(b) => last_bytes(seen, 2) == Some(b@),
                None => last_bytes(seen, 2) is None,
            },
            match nation {
                Some(b) => last_bytes(seen, 11) == Some(b@),
                None => last_bytes(seen, 11) is None,
            },
            match localized {
                Some(b) => last_bytes(seen, 12) == Some(b@),
                None => last_bytes(seen, 12) is None,
            },
            match short_name {
                Some(b) => last_bytes(seen, 32) == Some(b@),
                None => last_bytes(seen, 32) is None,
            },
            hp == varint_u32_or_zero(seen, 10),
            premium == last_varint(seen, 13),
            tier == varint_u32_or_zero(seen, 16),
            class_code == last_varint(seen, 17),
            speed_forward == f32_or_zero(seen, 25),
            speed_reverse == f32_or_zero(seen, 26),
            hull_traverse == f32_or_zero(seen, 27),
            weight == varint_or_zero(seen, 31),
        ensures
            r.pos >= sub@.len(),
            message_fields(sub@) == join(seen, fields_from(sub@, r.pos as int)),
            collect_fields(seen, tank_turret_field_fn()) == Some(
                turrets@.map_values(|t: TurretData| t@),
            ),
            match dev_name {
                Some(b) => last_bytes(seen, 2) == Some(b@),
                None => last_bytes(seen, 2) is None,
            },
            match nation {
                Some(b) => last_bytes(seen, 11) == Some(b@),
                None => last_bytes(seen, 11) is None,
            },
            match localized {
                Some(b) => last_bytes(seen, 12) == Some(b@),
                None => last_bytes(seen, 12) is None,
            },
            match short_name {
                Some(b) => last_bytes(seen, 32) == Some(b@),
                None => last_bytes(seen, 32) is None,
            },
            hp == varint_u32_or_zero(seen, 10),
            premium == last_varint(seen, 13),
            tier == varint_u32_or_zero(seen, 16),
            class_code == last_varint(seen, 17),
            speed_forward == f32_or_zero(seen, 25),
            speed_reverse == f32_or_zero(seen, 26),
            hull_traverse == f32_or_zero(seen, 27),
            weight == varint_or_zero(seen, 31),
        decreases sub@.len() - r.pos,
    {
        let ghost pos0 = r.pos as int;
        match r.read_field() {
            None => break,
            Some(Err(e)) => {
                proof {
                    lemma_fields_step(sub@, pos0, seen);
                }
                return Err(e);
            },
            Some(Ok((f, w, v))) => {
                let ghost fld = field_of(f, w, v@);
                proof {
                    lemma_fields_step(sub@, pos0, seen);
                    lemma_collect_push(seen, fld, tank_turret_field_fn());
                    lemma_last_bytes_push(seen, fld, 2);
                    lemma_last_bytes_push(seen, fld, 11);
                    lemma_last_bytes_push(seen, fld, 12);
                    lemma_last_bytes_push(seen, fld, 32);
                    lemma_last_varint_push(seen, fld, 10);
                    lemma_last_varint_push(seen, fld, 13);
                    lemma_last_varint_push(seen, fld, 16);
                    lemma_last_varint_push(seen, fld, 17);
                    lemma_last_varint_push(seen, fld, 31);
                    lemma_last_fixed32_push(seen, fld, 25);
                    lemma_last_fixed32_push(seen, fld, 26);
                    lemma_last_fixed32_push(seen, fld, 27);
                    seen = seen.push(fld);
                }
                match v {
                    FieldValue::Varint(x) => {
                        if w == 0 {
                            if f == 10 {
                                hp = #[verifier::truncate] (x as u32);
                            } else if f == 13 {
                                premium = Some(x);
                            } else if f == 16 {
                                tier = #[verifier::truncate] (x as u32);
                            } else if f == 17 {
                                class_code = Some(x);
                            } else if f == 31 {
                                weight = x;
                            }
                        }
                    },
                    FieldValue::Fixed32(x) => {
                        if w == 5 {
                            if f == 25 {
                                speed_forward = f32_bits_of(x);
                            } else if f == 26 {
                                speed_reverse = f32_bits_of(x);
                            } else if f == 27 {
                                hull_traverse = f32_bits_of(x);
                            }
                        }
                    },
                    FieldValue::Bytes(b) => {
                        if w == 2 {
                            if f == 2 {
                                dev_name = Some(b);
                            } else if f == 11 {
                                nation = Some(b);
                            } else if f == 12 {
                                localized = Some(b);
                            } else if f == 32 {
                                short_name = Some(b);
                            } else if f == 20 {
                                match parse_turret(b) {
                                    Ok(Some(t)) => {
                                        let ghost old_view = turrets@.map_values(
                                            |t: TurretData| t@,
                                        );
                                        turrets.push(t);
                                        assert(turrets@.map_values(|t: TurretData| t@)
                                            =~= old_view.push(t@));
                                    },
                                    Ok(None) => {},
                                    Err(e) => {
                                        proof {
                                            lemma_walk_error(
                                                sub@,
                                                seen,
                                                r.pos as int,
                                                tank_turret_field_fn(),
                                            );
                                        }
                                        return Err(e);
                                    },
                                }
                            }
                        }
                    },
                    _ => {},
                }
            },
        }
    }
    assert(message_fields(sub@) == Some(seen)) by {
        assert(seen + Seq::<Field>::empty() =~= seen);
    }
    if short_name.is_none() {
        return Ok(None);
    }
    let loc = name_of(localized);
    let name = if !loc.as_str().is_empty() {
        loc
    } else {
        lossy_text(short_name)
    };
    let tank_type = match class_code {
        Some(c) => decode_class_code(#[verifier::truncate] (c as u32)),
        None => String::new(),
    };
    Ok(
        Some(
            TankFullData {
                tank_id,
                dev_name: lossy_text(dev_name),
                name,
                nation: lossy_text(nation),
                tier,
                tank_type,
                hp,
                is_premium: match premium {
                    Some(p) => p == 1,
                    None => false,
                },
                speed_forward_bits: speed_forward,
                speed_reverse_bits: speed_reverse,
                hull_traverse_bits: hull_traverse,
                weight,
                turrets,
            },
        ),
    )
}

/// One step of an entry walk: field 1 sets the current tank id, and each
/// tank body (field 2) is read under the id seen so far.
pub open spec fn entry_step(st: (u32, Seq<TankView>), f: Field) -> Option<(u32, Seq<TankView>)> {
    if f.number == 1 && f.wire == 0 && f.value is Varint {
        Some(((f.value->Varint_0) as u32, st.1))
    } else if f.number == 2 && f.wire == 2 && f.value is Bytes {
        match tank_main_spec(f.value->Bytes_0, st.0) {
            None => None,
            Some(None) => Some(st),
            Some(Some(t)) => Some((st.0, st.1.push(t))),
        }
    } else {
        Some(st)
    }
}

/// `entry_step` as a function value.
pub open spec fn entry_step_fn() -> spec_fn((u32, Seq<TankView>), Field) -> Option<
    (u32, Seq<TankView>),
> {
    |st: (u32, Seq<TankView>), f: Field| entry_step(st, f)
}

/// The tanks of one top-level entry; `None` when it is malformed.
pub open spec fn entry_tanks(buf: Seq<u8>) -> Option<Seq<TankView>> {
    match message_fields(buf) {
        None => None,
        Some(fs) => match fold_fields(fs, (0u32, Seq::<TankView>::empty()), entry_step_fn()) {
            None => None,
            Some(st) => Some(st.1),
        },
    }
}

/// One step of the top-level walk: every field must be an entry (field 1,
/// length-delimited).
pub open spec fn top_step(ts: Seq<TankView>, f: Field) -> Option<Seq<TankView>> {
    if f.number == 1 && f.wire == 2 && f.value is Bytes {
        match entry_tanks(f.value->Bytes_0) {
            None => None,
            Some(es) => Some(ts + es),
        }
    } else {
        None
    }
}

/// `top_step` as a function value.
pub open spec fn top_step_fn() -> spec_fn(Seq<TankView>, Field) -> Option<Seq<TankView>> {
    |ts: Seq<TankView>, f: Field| top_step(ts, f)
}

/// The whole of `tanks.pb`: every tank with a short name, in file order;
/// `None` when the buffer is malformed or holds a top-level field other
/// than an entry.
pub open spec fn tanks_pb_spec(buf: Seq<u8>) -> Option<Seq<TankView>> {
    match message_fields(buf) {
        None => None,
        Some(fs) => fold_fields(fs, Seq::<TankView>::empty(), top_step_fn()),
    }
}

/// The views of a list of tanks.
pub open spec fn tank_views(v: Seq<TankFullData>) -> Seq<TankView> {
    v.map_values(|t: TankFullData| t@)
}

/// Reads one top-level entry.
fn parse_entry(eb: &[u8]) -> (res: Result<Vec<TankFullData>, PbError>)
    ensures
        match entry_tanks(eb@) {
            None => res is Err,
            Some(ts) => res matches Ok(v) && tank_views(v@) == ts,
        },
{
    let mut r = Reader::new(eb);
    let mut tank_id: u32 = 0;
    let mut out: Vec<TankFullData> = Vec::new();
    let ghost mut seen: Seq<Field> = Seq::empty();
    let ghost init = (0u32, Seq::<TankView>::empty());
    assert(tank_views(out@) =~= Seq::<TankView>::empty());
    loop
        invariant
            r.buf@ == eb@,
            r.pos <= eb@.len(),
            init == (0u32, Seq::<TankView>::empty()),
            message_fields(eb@) == join(seen, fields_from(eb@, r.pos as int)),
            fold_fields(seen, init, entry_step_fn()) == Some((tank_id, tank_views(out@))),
        ensures
            r.pos >= eb@.len(),
            message_fields(eb@) == join(seen, fields_from(eb@, r.pos as int)),
            fold_fields(seen, init, entry_step_fn()) == Some((tank_id, tank_views(out@))),
        decreases eb@.len() - r.pos,
    {
        let ghost pos0 = r.pos as int;
        match r.read_field() {
            None => break,
            Some(Err(e)) => {
                proof {
                    lemma_fields_step(eb@, pos0, seen);
                }
                return Err(e);
            },
            Some(Ok((f, w, v))) => {
                let ghost fld = field_of(f, w, v@);
                proof {
                    lemma_fields_step(eb@, pos0, seen);
                    lemma_fold_push(seen, fld, init, entry_step_fn());
                    seen = seen.push(fld);
                }
                match v {
                    FieldValue::Varint(x) => {
                        if f == 1 && w == 0 {
                            tank_id = #[verifier::truncate] (x as u32);
                        }
                    },
                    FieldValue::Bytes(b) => {
                        if f == 2 && w == 2 {
                            match parse_tank_main(b, tank_id) {
                                Ok(Some(t)) => {
                                    let ghost old_view = tank_views(out@);
                                    out.push(t);
                                    assert(tank_views(out@) =~= old_view.push(t@));
                                },
                                Ok(None) => {},
                                Err(e) => {
                                    proof {
                                        lemma_fold_walk_error(
                                            eb@,
                                            seen,
                                            r.pos as int,
                                            init,
                                            entry_step_fn(),
                                        );
                                    }
                                    return Err(e);
                                },
                            }
                        }
                    },
                    _ => {},
                }
            },
        }
    }
    assert(message_fields(eb@) == Some(seen)) by {
        assert(seen + Seq::<Field>::empty() =~= seen);
    }
    Ok(out)
}

/// Parses BlitzKit `tanks.pb`: every tank with a short name, with its
/// turrets, guns, shells and reload data, in file order.
pub fn parse_tanks_pb(buf: &[u8]) -> (res: Result<Vec<TankFullData>, PbError>)
    ensures
        match tanks_pb_spec(buf@) {
            None => res is Err,
            Some(ts) => res matches Ok(v) && tank_views(v@) == ts,
        },
{
    let mut r = Reader::new(buf);
    let mut out: Vec<TankFullData> = Vec::new();
    let ghost mut seen: Seq<Field> = Seq::empty();
    let ghost init = Seq::<TankView>::empty();
    assert(tank_views(out@) =~= init);
    loop
        invariant
            r.buf@ == buf@,
            r.pos <= buf@.len(),
            init == Seq::<TankView>::empty(),
            message_fields(buf@) == join(seen, fields_from(buf@, r.pos as int)),
            fold_fields(seen, init, top_step_fn()) == Some(tank_views(out@)),
        ensures
            r.pos >= buf@.len(),
            message_fields(buf@) == join(seen, fields_from(buf@, r.pos as int)),
            fold_fields(seen, init, top_step_fn()) == Some(tank_views(out@)),
        decreases buf@.len() - r.pos,
    {
        let ghost pos0 = r.pos as int;
        match r.read_field() {
            None => break,
            Some(Err(e)) => {
                proof {
                    lemma_fields_step(buf@, pos0, seen);
                }
                return Err(e);
            },
            Some(Ok((f, w, v))) => {
                let ghost fld = field_of(f, w, v@);
                proof {
                    lemma_fields_step(buf@, pos0, seen);
                    lemma_fold_push(seen, fld, init, top_step_fn());
                    seen = seen.push(fld);
                }
                let eb = match v {
                    FieldValue::Bytes(b) => {
                        if f == 1 && w == 2 {
                            b
                        } else {
                            proof {
                                lemma_fold_walk_error(buf@, seen, r.pos as int, init, top_step_fn());
                            }
                            return Err(PbError::UnexpectedField);
                        }
                    },
                    _ => {
                        proof {
                            lemma_fold_walk_error(buf@, seen, r.pos as int, init, top_step_fn());
                        }
                        return Err(PbError::UnexpectedField);
                    },
                };
                match parse_entry(eb) {
                    Ok(mut tanks) => {
                        let ghost old_view = tank_views(out@);
                        let ghost add = tank_views(tanks@);
                        out.append(&mut tanks);
                        assert(tank_views(out@) =~= old_view + add);
                    },
                    Err(e) => {
                        proof {
                            lemma_fold_walk_error(buf@, seen, r.pos as int, init, top_step_fn());
                        }
                        return Err(e);
                    },
                }
            },
        }
    }
    assert(message_fields(buf@) == Some(seen)) by {
        assert(seen + Seq::<Field>::empty() =~= seen);
    }
    Ok(out)
}

/// The tanks whose display name is not empty, in order.
pub open spec fn named(ts: Seq<TankView>) -> Seq<TankView> {
    ts.filter(|t: TankView| t.name.len() > 0)
}

/// Keeps the tanks that have a display name.
pub fn named_tanks(tanks: Vec<TankFullData>) -> (r: Vec<TankFullData>)
    ensures
        tank_views(r@) == named(tank_views(tanks@)),
{
    let mut r: Vec<TankFullData> = Vec::new();
    let mut rest = tanks;
    let ghost all = tank_views(rest@);
    let ghost n = all.len();
    assert(tank_views(rest@) =~= all.subrange(0, n as int));
    while rest.len() > 0
        invariant
            n == all.len(),
            rest@.len() <= n,
            tank_views(rest@) == all.subrange(n - rest@.len(), n as int),
            tank_views(r@) == named(all.take(n - rest@.len())),
        decreases rest@.len(),
    {
        let ghost k = n - rest@.len();
        let ghost before = rest@;
        let t = rest.remove(0);
        proof {
            assert(tank_views(before)[0] == t@);
            assert(all[k] == t@);
            assert(rest@ =~= before.remove(0));
            assert forall|j: int| 0 <= j < rest@.len() implies tank_views(rest@)[j] == all[k + 1 + j] by {
                assert(rest@[j] == before[j + 1]);
                assert(tank_views(before)[j + 1] == all.subrange(k, n as int)[j + 1]);
            }
            assert(tank_views(rest@) =~= all.subrange(k + 1, n as int));
            assert(all.take(k + 1).drop_last() =~= all.take(k));
            reveal_with_fuel(Seq::filter, 1);
        }
        if !t.name.as_str().is_empty() {
            let ghost old_view = tank_views(r@);
            r.push(t);
            assert(tank_views(r@) =~= old_view.push(t@));
        }
    }
    assert(all.take(n as int) =~= all);
    r
}

/// The first tank with this id.
pub fn tank_full(tanks: &[TankFullData], tank_id: u32) -> (r: Option<&TankFullData>)
    ensures
        match r {
            Some(t) => exists|k: int|
                0 <= k < tanks@.len() && tanks@[k] == *t && t.tank_id == tank_id && forall|j: int|
                    0 <= j < k ==> tanks@[j].tank_id != tank_id,
            None => forall|j: int| 0 <= j < tanks@.len() ==> tanks@[j].tank_id != tank_id,
        },
{
    let mut i: usize = 0;
    while i < tanks.len()
        invariant
            i <= tanks@.len(),
            forall|j: int| 0 <= j < i ==> tanks@[j].tank_id != tank_id,
        decreases tanks@.len() - i,
    {
        if tanks[i].tank_id == tank_id {
            return Some(&tanks[i]);
        }
        i = i + 1;
    }
    None
}

/// URL of a tank's cover image; `{}` stands for the tank id.
pub const ICON_URL: &'static str = "https://api.blitzkit.app/tanks/{}/icons/big.webp";

/// The cover image URL of a tank.
pub fn icon_url(tank_id: u32) -> (r: String)
    ensures
        r@ == replace_all(ICON_URL@, "{}"@, decimal(tank_id as nat)),
{
    let mut id = String::new();
    push_decimal(&mut id, tank_id as u64);
    proof {
        reveal_strlit("{}");
        assert(Seq::<char>::empty() + decimal(tank_id as nat) =~= decimal(tank_id as nat));
    }
    str_replace(ICON_URL, "{}", id.as_str())
}

} // verus!
