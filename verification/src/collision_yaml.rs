//! The collision data in a vehicle's YAML parameters: bounding boxes and
//! part offsets of the chassis, hull, turret and gun, and the hull's average
//! thickness. Numbers are kept as their decimal text.
//!
//! Each part's data is searched in a window of 400 bytes after the part's
//! name; a window that would end inside a multi-byte character, or a `max:`
//! that comes less than four characters after `min:`, makes the text
//! unreadable (`collision_readable`).

use vstd::prelude::*;

use crate::armor_xml::{find, find_chars_from, float_text, is_float_text, lemma_find_from_found};
use crate::game_extract::{nvec_range, trim, trim_bounds, trim_start};
use crate::text::{chars_of, is_white_space, is_whitespace, string_from_chars};

verus! {

/// Number of bytes of a character in UTF-8.
pub open spec fn char_bytes(c: char) -> int {
    vstd::utf8::encode_utf8(seq![c]).len() as int
}

/// Executable `char_bytes`.
fn utf8_width(c: char) -> (r: usize)
    ensures
        r == char_bytes(c),
        1 <= r <= 4,
{
    let v = c as u32;
    proof {
        broadcast use vstd::utf8::char_is_scalar;
        assert(seq![c].drop_first() =~= Seq::<char>::empty());
        assert(seq![c][0] == c);
        assert(vstd::utf8::is_scalar(c as u32));
        assert(vstd::utf8::encode_utf8(Seq::<char>::empty()) =~= Seq::<u8>::empty());
        assert(vstd::utf8::encode_utf8(seq![c]) =~= vstd::utf8::encode_scalar(c as u32));
    }
    if v <= 0x7f {
        1
    } else if v <= 0x7ff {
        2
    } else if v <= 0xffff {
        3
    } else {
        4
    }
}

/// Where a 400-byte window starting at character `i` (with `acc` bytes
/// already in it) ends, as a character position: the end of the text when
/// fewer bytes remain; `None` when byte 400 falls inside a character.
pub open spec fn window_end_from(t: Seq<char>, i: int, acc: int) -> Option<int>
    decreases t.len() - i,
{
    if i < 0 || i >= t.len() {
        Some(t.len() as int)
    } else {
        let a2 = acc + char_bytes(t[i]);
        if a2 == 400 {
            Some(i + 1)
        } else if a2 > 400 {
            None
        } else {
            window_end_from(t, i + 1, a2)
        }
    }
}

/// Executable `window_end_from(t, idx, 0)`.
fn window_end(t: &Vec<char>, idx: usize) -> (r: Option<usize>)
    requires
        idx <= t@.len(),
    ensures
        match window_end_from(t@, idx as int, 0) {
            Some(e) => r matches Some(x) && x as int == e && idx <= x <= t@.len(),
            None => r is None,
        },
{
    let mut i = idx;
    let mut acc: usize = 0;
    while i < t.len()
        invariant
            idx <= i <= t@.len(),
            acc < 400,
            window_end_from(t@, idx as int, 0) == window_end_from(t@, i as int, acc as int),
        decreases t@.len() - i,
    {
        let a2 = acc + utf8_width(t[i]);
        if a2 == 400 {
            return Some(i + 1);
        } else if a2 > 400 {
            return None;
        }
        acc = a2;
        i = i + 1;
    }
    Some(t.len())
}

/// The pieces of `s` between commas, from position `i`, the current piece
/// starting at `start`.
pub open spec fn comma_pieces_from(s: Seq<char>, i: int, start: int) -> Seq<Seq<char>>
    decreases s.len() - i,
{
    if i >= s.len() {
        seq![s.subrange(start, s.len() as int)]
    } else if s[i] == ',' {
        seq![s.subrange(start, i)] + comma_pieces_from(s, i + 1, i + 1)
    } else {
        comma_pieces_from(s, i + 1, start)
    }
}

/// The pieces of `s` between commas (`str::split(',')`).
pub open spec fn comma_pieces(s: Seq<char>) -> Seq<Seq<char>> {
    comma_pieces_from(s, 0, 0)
}

/// The trimmed pieces that are numbers, in order.
pub open spec fn number_pieces(ps: Seq<Seq<char>>) -> Seq<Seq<char>>
    decreases ps.len(),
{
    if ps.len() == 0 {
        Seq::empty()
    } else {
        let prev = number_pieces(ps.drop_last());
        let t = trim(ps.last());
        if float_text(t) {
            prev.push(t)
        } else {
            prev
        }
    }
}

/// The first three numbers of the list between the first `[` and the first
/// `]` of `s`; `None` when there are fewer or the brackets are missing or
/// out of order.
pub open spec fn float_array_spec(s: Seq<char>) -> Option<Seq<Seq<char>>> {
    match find(s, "["@) {
        None => None,
        Some(st) => match find(s, "]"@) {
            None => None,
            Some(en) => if en <= st {
                None
            } else {
                let nums = number_pieces(comma_pieces(s.subrange(st + 1, en)));
                if nums.len() >= 3 {
                    Some(nums.take(3))
                } else {
                    None
                }
            },
        },
    }
}

/// Three numbers, as text.
pub struct Triple {
    pub x: String,
    pub y: String,
    pub z: String,
}

impl View for Triple {
    type V = Seq<Seq<char>>;

    open spec fn view(&self) -> Seq<Seq<char>> {
        seq![self.x@, self.y@, self.z@]
    }
}

/// The trimmed pieces of `s[lo..hi]` that are numbers, up to three.
fn number_pieces_in(v: &Vec<char>, lo: usize, hi: usize) -> (r: Vec<Vec<char>>)
    requires
        lo <= hi <= v@.len(),
    ensures
        r@.map_values(|p: Vec<char>| p@) == number_pieces(comma_pieces(v@.subrange(lo as int, hi as int))),
{
    let ghost s = v@.subrange(lo as int, hi as int);
    let mut out: Vec<Vec<char>> = Vec::new();
    let mut start: usize = lo;
    let mut i: usize = lo;
    proof {
        lemma_number_pieces_concat(Seq::empty(), comma_pieces(s));
    }
    while i < hi
        invariant
            lo <= start <= i <= hi <= v@.len(),
            s == v@.subrange(lo as int, hi as int),
            number_pieces(comma_pieces(s)) == out@.map_values(|p: Vec<char>| p@) + number_pieces(
                comma_pieces_from(s, i - lo, start - lo),
            ),
        decreases hi - i,
    {
        assert(s[i - lo] == v@[i as int]);
        if v[i] == ',' {
            let piece = nvec_range(v, start, i);
            assert(s.subrange(start - lo, i - lo) =~= piece@);
            let (a, b) = trim_bounds(&piece);
            let t = nvec_range(&piece, a, b);
            let ghost before = out@.map_values(|p: Vec<char>| p@);
            let ghost rest = comma_pieces_from(s, i - lo + 1, i - lo + 1);
            proof {
                assert(comma_pieces_from(s, i - lo, start - lo) == seq![piece@] + rest);
                lemma_number_pieces_concat(seq![piece@], rest);
                assert(seq![piece@].drop_last() =~= Seq::<Seq<char>>::empty());
                assert(seq![piece@].last() == piece@);
                assert(number_pieces(Seq::<Seq<char>>::empty()) == Seq::<Seq<char>>::empty());
                assert(t@ == trim(piece@));
                if float_text(trim(piece@)) {
                    assert(number_pieces(seq![piece@]) == Seq::<Seq<char>>::empty().push(trim(piece@)));
                } else {
                    assert(number_pieces(seq![piece@]) == Seq::<Seq<char>>::empty());
                }
            }
            if is_float_text(&t) {
                out.push(t);
                assert(out@.map_values(|p: Vec<char>| p@) =~= before.push(trim(piece@)));
                assert(before + (Seq::<Seq<char>>::empty().push(trim(piece@)) + number_pieces(rest))
                    =~= before.push(trim(piece@)) + number_pieces(rest));
            } else {
                assert(before + (Seq::<Seq<char>>::empty() + number_pieces(rest)) =~= before
                    + number_pieces(rest));
            }
            start = i + 1;
            assert(number_pieces(comma_pieces(s)) == out@.map_values(|p: Vec<char>| p@)
                + number_pieces(comma_pieces_from(s, i + 1 - lo, start - lo)));
        } else {
            assert(comma_pieces_from(s, i - lo, start - lo) == comma_pieces_from(
                s,
                i + 1 - lo,
                start - lo,
            ));
        }
        i = i + 1;
    }
    let piece = nvec_range(v, start, hi);
    assert(s.subrange(start - lo, hi - lo) =~= piece@);
    let (a, b) = trim_bounds(&piece);
    let t = nvec_range(&piece, a, b);
    let ghost before = out@.map_values(|p: Vec<char>| p@);
    proof {
        assert(comma_pieces_from(s, hi - lo, start - lo) == seq![piece@]);
        assert(seq![piece@].drop_last() =~= Seq::<Seq<char>>::empty());
    }
    if is_float_text(&t) {
        out.push(t);
        assert(out@.map_values(|p: Vec<char>| p@) =~= before.push(trim(piece@)));
    } else {
        assert(before + Seq::<Seq<char>>::empty() =~= before);
    }
    out
}

/// `number_pieces` distributes over concatenation.
proof fn lemma_number_pieces_concat(a: Seq<Seq<char>>, b: Seq<Seq<char>>)
    ensures
        number_pieces(a + b) == number_pieces(a) + number_pieces(b),
    decreases b.len(),
{
    if b.len() == 0 {
        assert(a + b =~= a);
        assert(number_pieces(a) + Seq::<Seq<char>>::empty() =~= number_pieces(a));
    } else {
        lemma_number_pieces_concat(a, b.drop_last());
        assert((a + b).drop_last() =~= a + b.drop_last());
        assert((a + b).last() == b.last());
        let t = trim(b.last());
        if float_text(t) {
            assert(number_pieces(a) + number_pieces(b.drop_last()).push(t) =~= (number_pieces(a)
                + number_pieces(b.drop_last())).push(t));
        }
    }
}

/// Reads the first three numbers of the bracketed list in `s[lo..hi]`.
fn float_array(v: &Vec<char>, lo: usize, hi: usize) -> (r: Option<Triple>)
    requires
        lo <= hi <= v@.len(),
    ensures
        match float_array_spec(v@.subrange(lo as int, hi as int)) {
            Some(t) => r matches Some(x) && x@ == t,
            None => r is None,
        },
{
    let s = nvec_range(v, lo, hi);
    let open = chars_of("[");
    let close = chars_of("]");
    let st = match find_chars_from(&s, &open, 0) {
        Some(p) => p,
        None => return None,
    };
    let en = match find_chars_from(&s, &close, 0) {
        Some(p) => p,
        None => return None,
    };
    if en <= st {
        return None;
    }
    proof {
        lemma_find_from_found(s@, open@, 0);
        lemma_find_from_found(s@, close@, 0);
    }
    let nums = number_pieces_in(&s, st + 1, en);
    if nums.len() < 3 {
        return None;
    }
    let ghost nv = nums@.map_values(|p: Vec<char>| p@);
    assert(nv[0] == nums@[0]@ && nv[1] == nums@[1]@ && nv[2] == nums@[2]@);
    let t = Triple {
        x: string_from_chars(nums[0].as_slice()),
        y: string_from_chars(nums[1].as_slice()),
        z: string_from_chars(nums[2].as_slice()),
    };
    assert(t@ =~= nv.take(3));
    Some(t)
}

/// A bounding box, as text.
pub struct BoxText {
    pub min: Triple,
    pub max: Triple,
}

/// The bounding box of a part: `Some(None)` when it is missing or its
/// lists do not read, `None` when the text is unreadable there.
pub open spec fn bbox_spec(ct: Seq<char>, name: Seq<char>) -> Option<
    Option<(Seq<Seq<char>>, Seq<Seq<char>>)>,
> {
    match find(ct, name) {
        None => Some(None),
        Some(idx) => match window_end_from(ct, idx, 0) {
            None => None,
            Some(e) => {
                let sec = ct.subrange(idx, e);
                match find(sec, "min:"@) {
                    None => Some(None),
                    Some(mi) => match find(sec, "max:"@) {
                        None => Some(None),
                        Some(ma) => if ma < mi + 4 {
                            None
                        } else {
                            match (
                                float_array_spec(sec.subrange(mi + 4, ma)),
                                float_array_spec(sec.subrange(ma + 4, sec.len() as int)),
                            ) {
                                (Some(a), Some(b)) => Some(Some((a, b))),
                                _ => Some(None),
                            }
                        },
                    },
                }
            },
        },
    }
}

/// The offset of a part (`points:`): `Some(None)` when it is missing or
/// does not read, `None` when the text is unreadable there.
pub open spec fn points_spec(ct: Seq<char>, name: Seq<char>) -> Option<Option<Seq<Seq<char>>>> {
    match find(ct, name) {
        None => Some(None),
        Some(idx) => match window_end_from(ct, idx, 0) {
            None => None,
            Some(e) => {
                let sec = ct.subrange(idx, e);
                match find(sec, "points:"@) {
                    None => Some(None),
                    Some(p) => Some(float_array_spec(sec.subrange(p + 7, sec.len() as int))),
                }
            },
        },
    }
}

/// The window of a part, from its name on.
fn part_window(ct: &Vec<char>, name: &str) -> (r: Option<Option<Vec<char>>>)
    ensures
        match find(ct@, name@) {
            None => r matches Some(None),
            Some(idx) => match window_end_from(ct@, idx, 0) {
                None => r is None,
                Some(e) => r matches Some(Some(w)) && w@ == ct@.subrange(idx, e),
            },
        },
{
    let n = chars_of(name);
    let idx = match find_chars_from(ct, &n, 0) {
        None => return Some(None),
        Some(i) => i,
    };
    proof {
        lemma_find_from_found(ct@, n@, 0);
    }
    let e = match window_end(ct, idx) {
        None => return None,
        Some(e) => e,
    };
    Some(Some(nvec_range(ct, idx, e)))
}

/// Reads the bounding box of a part.
fn parse_section_bbox(ct: &Vec<char>, name: &str) -> (r: Option<Option<BoxText>>)
    ensures
        match bbox_spec(ct@, name@) {
            None => r is None,
            Some(None) => r matches Some(None),
            Some(Some((a, b))) => r matches Some(Some(x)) && x.min@ == a && x.max@ == b,
        },
{
    let sec = match part_window(ct, name) {
        None => return None,
        Some(None) => return Some(None),
        Some(Some(w)) => w,
    };
    let sl = sec.len();
    let min_key = chars_of("min:");
    let max_key = chars_of("max:");
    let mi = match find_chars_from(&sec, &min_key, 0) {
        None => return Some(None),
        Some(p) => p,
    };
    let ma = match find_chars_from(&sec, &max_key, 0) {
        None => return Some(None),
        Some(p) => p,
    };
    proof {
        reveal_strlit("min:");
        reveal_strlit("max:");
        lemma_find_from_found(sec@, min_key@, 0);
        lemma_find_from_found(sec@, max_key@, 0);
    }
    if ma < mi + 4 {
        return None;
    }
    let lo = float_array(&sec, mi + 4, ma);
    let hi = float_array(&sec, ma + 4, sec.len());
    match (lo, hi) {
        (Some(a), Some(b)) => Some(Some(BoxText { min: a, max: b })),
        _ => Some(None),
    }
}

/// Reads the offset of a part.
fn parse_section_points(ct: &Vec<char>, name: &str) -> (r: Option<Option<Triple>>)
    ensures
        match points_spec(ct@, name@) {
            None => r is None,
            Some(None) => r matches Some(None),
            Some(Some(t)) => r matches Some(Some(x)) && x@ == t,
        },
{
    let sec = match part_window(ct, name) {
        None => return None,
        Some(None) => return Some(None),
        Some(Some(w)) => w,
    };
    let sl = sec.len();
    let key = chars_of("points:");
    let p = match find_chars_from(&sec, &key, 0) {
        None => return Some(None),
        Some(p) => p,
    };
    proof {
        reveal_strlit("points:");
        lemma_find_from_found(sec@, key@, 0);
    }
    Some(float_array(&sec, p + 7, sec.len()))
}

/// A character of a number written out: an ASCII digit, `.` or `-`.
pub open spec fn number_char(c: char) -> bool {
    ('0' <= c <= '9') || c == '.' || c == '-'
}

/// The longest prefix of `s` made of number characters.
pub open spec fn number_prefix(s: Seq<char>) -> Seq<char>
    decreases s.len(),
{
    if s.len() > 0 && number_char(s[0]) {
        seq![s[0]] + number_prefix(s.drop_first())
    } else {
        Seq::empty()
    }
}

/// The hull's average thickness: the number after the first `turret_01:`
/// that follows `averageThickness:`.
pub open spec fn avg_thickness_spec(ct: Seq<char>) -> Option<Seq<char>> {
    match find(ct, "averageThickness:"@) {
        None => None,
        Some(a) => {
            let after = ct.subrange(a, ct.len() as int);
            match find(after, "turret_01:"@) {
                None => None,
                Some(t) => {
                    let num = number_prefix(trim_start(after.subrange(t + 10, after.len() as int)));
                    if float_text(num) {
                        Some(num)
                    } else {
                        None
                    }
                },
            }
        },
    }
}

/// Reads the hull's average thickness.
fn parse_avg_thickness(ct: &Vec<char>) -> (r: Option<String>)
    ensures
        match avg_thickness_spec(ct@) {
            Some(n) => r matches Some(x) && x@ == n,
            None => r is None,
        },
{
    let key = chars_of("averageThickness:");
    let a = find_chars_from(ct, &key, 0)?;
    proof {
        lemma_find_from_found(ct@, key@, 0);
    }
    let after = nvec_range(ct, a, ct.len());
    let tkey = chars_of("turret_01:");
    let t = find_chars_from(&after, &tkey, 0)?;
    proof {
        reveal_strlit("turret_01:");
        lemma_find_from_found(after@, tkey@, 0);
    }
    let rest = nvec_range(&after, t + 10, after.len());
    let mut i: usize = 0;
    assert(rest@.subrange(0, rest@.len() as int) =~= rest@);
    while i < rest.len() && is_whitespace(rest[i])
        invariant
            i <= rest@.len(),
            trim_start(rest@) == trim_start(rest@.subrange(i as int, rest@.len() as int)),
        decreases rest@.len() - i,
    {
        assert(rest@.subrange(i as int, rest@.len() as int).drop_first() =~= rest@.subrange(
            i + 1,
            rest@.len() as int,
        ));
        i = i + 1;
    }
    let ghost tail = rest@.subrange(i as int, rest@.len() as int);
    proof {
        if i == rest@.len() {
            assert(tail =~= Seq::<char>::empty());
        }
    }
    let mut num: Vec<char> = Vec::new();
    let mut j = i;
    assert(rest@.subrange(j as int, rest@.len() as int) =~= tail);
    while j < rest.len() && (('0' <= rest[j] && rest[j] <= '9') || rest[j] == '.' || rest[j] == '-')
        invariant
            i <= j <= rest@.len(),
            tail == rest@.subrange(i as int, rest@.len() as int),
            number_prefix(tail) == num@ + number_prefix(rest@.subrange(j as int, rest@.len() as int)),
        decreases rest@.len() - j,
    {
        let ghost before = num@;
        assert(rest@.subrange(j as int, rest@.len() as int).drop_first() =~= rest@.subrange(
            j + 1,
            rest@.len() as int,
        ));
        num.push(rest[j]);
        assert(before + (seq![rest@[j as int]] + number_prefix(rest@.subrange(j + 1, rest@.len() as int)))
            =~= num@ + number_prefix(rest@.subrange(j + 1, rest@.len() as int)));
        j = j + 1;
    }
    assert(num@ + Seq::<char>::empty() =~= num@);
    if is_float_text(&num) {
        Some(string_from_chars(num.as_slice()))
    } else {
        None
    }
}

/// The collision data of a vehicle, numbers as text.
pub struct CollisionText {
    pub hull_bbox: Option<BoxText>,
    pub turret_bbox: Option<BoxText>,
    pub gun_bbox: Option<BoxText>,
    pub chassis_bbox: Option<BoxText>,
    pub average_thickness_hull: Option<String>,
    pub hull_points: Option<Triple>,
    pub turret_points: Option<Triple>,
    pub gun_points: Option<Triple>,
}

/// Mathematical value of an optional box.
pub open spec fn box_view(b: Option<BoxText>) -> Option<(Seq<Seq<char>>, Seq<Seq<char>>)> {
    match b {
        Some(x) => Some((x.min@, x.max@)),
        None => None,
    }
}

/// Mathematical value of an optional triple.
pub open spec fn triple_view(t: Option<Triple>) -> Option<Seq<Seq<char>>> {
    match t {
        Some(x) => Some(x@),
        None => None,
    }
}

/// Mathematical value of a `CollisionText`.
pub struct CollisionView {
    pub hull_bbox: Option<(Seq<Seq<char>>, Seq<Seq<char>>)>,
    pub turret_bbox: Option<(Seq<Seq<char>>, Seq<Seq<char>>)>,
    pub gun_bbox: Option<(Seq<Seq<char>>, Seq<Seq<char>>)>,
    pub chassis_bbox: Option<(Seq<Seq<char>>, Seq<Seq<char>>)>,
    pub average_thickness_hull: Option<Seq<char>>,
    pub hull_points: Option<Seq<Seq<char>>>,
    pub turret_points: Option<Seq<Seq<char>>>,
    pub gun_points: Option<Seq<Seq<char>>>,
}

impl View for CollisionText {
    type V = CollisionView;

    open spec fn view(&self) -> CollisionView {
        CollisionView {
            hull_bbox: box_view(self.hull_bbox),
            turret_bbox: box_view(self.turret_bbox),
            gun_bbox: box_view(self.gun_bbox),
            chassis_bbox: box_view(self.chassis_bbox),
            average_thickness_hull: match self.average_thickness_hull {
                Some(x) => Some(x@),
                None => None,
            },
            hull_points: triple_view(self.hull_points),
            turret_points: triple_view(self.turret_points),
            gun_points: triple_view(self.gun_points),
        }
    }
}

/// The collision data of a vehicle YAML: every part is read from the text
/// after the first `collision:`; nothing when there is none. `None` when the
/// text is unreadable.
pub open spec fn collision_spec(text: Seq<char>) -> Option<CollisionView> {
    match find(text, "collision:"@) {
        None => Some(
            CollisionView {
                hull_bbox: None,
                turret_bbox: None,
                gun_bbox: None,
                chassis_bbox: None,
                average_thickness_hull: None,
                hull_points: None,
                turret_points: None,
                gun_points: None,
            },
        ),
        Some(ci) => {
            let ct = text.subrange(ci, text.len() as int);
            match (
                bbox_spec(ct, "chassis:"@),
                bbox_spec(ct, "gun_01:"@),
                bbox_spec(ct, "hull:"@),
                bbox_spec(ct, "turret_01:"@),
                points_spec(ct, "hull:"@),
                points_spec(ct, "turret_01:"@),
                points_spec(ct, "gun_01:"@),
            ) {
                (Some(ch), Some(gu), Some(hu), Some(tu), Some(hp), Some(tp), Some(gp)) => Some(
                    CollisionView {
                        hull_bbox: hu,
                        turret_bbox: tu,
                        gun_bbox: gu,
                        chassis_bbox: ch,
                        average_thickness_hull: avg_thickness_spec(ct),
                        hull_points: hp,
                        turret_points: tp,
                        gun_points: gp,
                    },
                ),
                _ => None,
            }
        },
    }
}

/// The text can be read: no part window ends inside a character and no
/// `max:` comes too close after `min:`.
pub open spec fn collision_readable(text: Seq<char>) -> bool {
    collision_spec(text) is Some
}

/// Reads the collision data; `None` when the text is unreadable.
fn collision_of(text: &str) -> (r: Option<CollisionText>)
    ensures
        match collision_spec(text@) {
            Some(c) => r matches Some(x) && x@ == c,
            None => r is None,
        },
{
    let v = chars_of(text);
    let key = chars_of("collision:");
    let ci = match find_chars_from(&v, &key, 0) {
        None => {
            return Some(
                CollisionText {
                    hull_bbox: None,
                    turret_bbox: None,
                    gun_bbox: None,
                    chassis_bbox: None,
                    average_thickness_hull: None,
                    hull_points: None,
                    turret_points: None,
                    gun_points: None,
                },
            );
        },
        Some(p) => p,
    };
    proof {
        lemma_find_from_found(v@, key@, 0);
    }
    let ct = nvec_range(&v, ci, v.len());
    let chassis_bbox = parse_section_bbox(&ct, "chassis:")?;
    let gun_bbox = parse_section_bbox(&ct, "gun_01:")?;
    let hull_bbox = parse_section_bbox(&ct, "hull:")?;
    let turret_bbox = parse_section_bbox(&ct, "turret_01:")?;
    let hull_points = parse_section_points(&ct, "hull:")?;
    let turret_points = parse_section_points(&ct, "turret_01:")?;
    let gun_points = parse_section_points(&ct, "gun_01:")?;
    let average_thickness_hull = parse_avg_thickness(&ct);
    Some(
        CollisionText {
            hull_bbox,
            turret_bbox,
            gun_bbox,
            chassis_bbox,
            average_thickness_hull,
            hull_points,
            turret_points,
            gun_points,
        },
    )
}

/// Whether a vehicle YAML can be read.
pub fn yaml_readable(text: &str) -> (r: bool)
    ensures
        r == collision_readable(text@),
{
    collision_of(text).is_some()
}

impl CollisionText {
    /// Reads the collision data of a vehicle YAML.
    pub fn parse_from_yaml(text: &str) -> (r: Option<CollisionText>)
        requires
            collision_readable(text@),
        ensures
            r matches Some(x) && collision_spec(text@) == Some(x@),
    {
        collision_of(text)
    }
}

} // verus!
