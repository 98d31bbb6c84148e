//! The armour model in a vehicle's item definition XML: for the hull, the
//! turret and the gun, the plate thicknesses (`<armor_N>`), the plates that
//! are spaced armour (those with a `vehicleDamageFactor`), and the primary
//! front / side / rear plates; and the track armour of the chassis.
//!
//! Thickness values are kept as the decimal text that the XML holds.

use vstd::prelude::*;

use crate::game_extract::{all_digits, contains_chars, contains_vec, is_digit, nvec_range, trim, trim_bounds};
use crate::text::{eq_ignore_ascii_case, is_white_space, is_whitespace, str_eq_ignore_ascii_case};
use crate::text::{chars_of, string_from_chars};

verus! {

/// The first position at or after `k` where `n` occurs in `h`.
pub open spec fn find_from(h: Seq<char>, n: Seq<char>, k: int) -> Option<int>
    decreases h.len() + 1 - k,
{
    if k < 0 || k + n.len() > h.len() {
        None
    } else if h.subrange(k, k + n.len()) == n {
        Some(k)
    } else {
        find_from(h, n, k + 1)
    }
}

/// The first position where `n` occurs in `h`.
pub open spec fn find(h: Seq<char>, n: Seq<char>) -> Option<int> {
    find_from(h, n, 0)
}

/// A position that `find_from` gives holds the searched text.
pub proof fn lemma_find_from_found(h: Seq<char>, n: Seq<char>, k: int)
    ensures
        find_from(h, n, k) matches Some(e) ==> k <= e && e + n.len() <= h.len() && h.subrange(
            e,
            e + n.len(),
        ) == n,
    decreases h.len() + 1 - k,
{
    if !(k < 0 || k + n.len() > h.len()) && h.subrange(k, k + n.len()) != n {
        lemma_find_from_found(h, n, k + 1);
    }
}

/// `open` and `close` are an opening and a closing XML tag: `<…>` with no
/// other `<` in `open`, and `</…>`.
pub open spec fn tag_pair(open: Seq<char>, close: Seq<char>) -> bool {
    open.len() >= 2 && close.len() >= 2 && open[0] == '<' && close[0] == '<' && close[1] == '/'
        && open[1] != '/' && forall|j: int| 1 <= j < open.len() ==> #[trigger] open[j] != '<'
}

/// A closing tag cannot start inside the opening tag just found, so the
/// search for it may start after the opening tag.
proof fn lemma_close_after_open(h: Seq<char>, open: Seq<char>, close: Seq<char>, a: int, j: int)
    requires
        tag_pair(open, close),
        0 <= a,
        a + open.len() <= h.len(),
        h.subrange(a, a + open.len()) == open,
        0 <= j <= open.len(),
    ensures
        find_from(h, close, a + j) == find_from(h, close, a + open.len()),
    decreases open.len() - j,
{
    if j < open.len() {
        lemma_close_after_open(h, open, close, a, j + 1);
        let k = a + j;
        if k + close.len() <= h.len() {
            if j == 0 {
                assert(h[k + 1] == open[1]);
                assert(h.subrange(k, k + close.len())[1] != close[1]);
            } else {
                assert(h[k] == open[j]);
                assert(h.subrange(k, k + close.len())[0] != close[0]);
            }
        }
    }
}

/// Executable `find_from`.
pub fn find_chars_from(h: &Vec<char>, n: &Vec<char>, k: usize) -> (r: Option<usize>)
    ensures
        match find_from(h@, n@, k as int) {
            Some(e) => r matches Some(x) && x as int == e,
            None => r is None,
        },
{
    let hl = h.len();
    if k > hl {
        return None;
    }
    let mut i: usize = k;
    while n.len() <= hl - i
        invariant
            hl == h@.len(),
            k <= i <= hl,
            find_from(h@, n@, k as int) == find_from(h@, n@, i as int),
        decreases hl - i,
    {
        if crate::text::chars_match_at(h.as_slice(), n.as_slice(), i) {
            return Some(i);
        }
        if i == hl {
            proof {
                assert(h@.subrange(i as int, i as int) =~= n@);
            }
            return None;
        }
        i = i + 1;
    }
    None
}

/// All the literal tag pairs that the XML reader looks for are tag pairs.
proof fn lemma_tag_pairs()
    ensures
        tag_pair("<hull>"@, "</hull>"@),
        tag_pair("<armor>"@, "</armor>"@),
        tag_pair("<primaryArmor>"@, "</primaryArmor>"@),
        tag_pair("<turrets0>"@, "</turrets0>"@),
        tag_pair("<guns>"@, "</guns>"@),
        tag_pair("<gun>"@, "</gun>"@),
        tag_pair("<chassis>"@, "</chassis>"@),
        tag_pair("<leftTrack>"@, "</leftTrack>"@),
        tag_pair("<rightTrack>"@, "</rightTrack>"@),
{
    reveal_strlit("<hull>");
    reveal_strlit("</hull>");
    reveal_strlit("<armor>");
    reveal_strlit("</armor>");
    reveal_strlit("<primaryArmor>");
    reveal_strlit("</primaryArmor>");
    reveal_strlit("<turrets0>");
    reveal_strlit("</turrets0>");
    reveal_strlit("<guns>");
    reveal_strlit("</guns>");
    reveal_strlit("<gun>");
    reveal_strlit("</gun>");
    reveal_strlit("<chassis>");
    reveal_strlit("</chassis>");
    reveal_strlit("<leftTrack>");
    reveal_strlit("</leftTrack>");
    reveal_strlit("<rightTrack>");
    reveal_strlit("</rightTrack>");
}

/// What the plate pattern `<armor_(\d+)>\s*(\d+(?:\.\d+)?)` finds in a
/// block: for each match, left to right and without overlap, the plate id,
/// the thickness text and the text after the match; `None` if the pattern
/// does not compile.
pub uninterp spec fn armor_regex_captures(block: Seq<char>) -> Option<
    Seq<(Seq<char>, Seq<char>, Seq<char>)>,
>;

/// The views of captured plates.
pub open spec fn captures_view(v: Seq<(String, String, String)>) -> Seq<
    (Seq<char>, Seq<char>, Seq<char>),
> {
    v.map_values(|c: (String, String, String)| (c.0@, c.1@, c.2@))
}

/// `regex::Regex::new` with the plate pattern, then `captures_iter` over the
/// block: each match gives its two groups and the text after it. The result
/// is named `armor_regex_captures`.
#[verifier::external_body]
fn armor_plate_captures(block: &str) -> (r: Option<Vec<(String, String, String)>>)
    ensures
        match armor_regex_captures(block@) {
            Some(caps) => r matches Some(v) && captures_view(v@) == caps,
            None => r is None,
        },
{
    let re = regex::Regex::new(r"<armor_(\d+)>\s*(\d+(?:\.\d+)?)").ok()?;
    Some(
        re.captures_iter(block).map(
            |c| (c[1].to_string(), c[2].to_string(), block[c.get(0).unwrap().end()..].to_string()),
        ).collect(),
    )
}

/// The primary plates of a section: front, sides, rear (plate names such as
/// `armor_1`).
pub struct PrimaryArmor {
    pub front: String,
    pub sides: String,
    pub rear: String,
}

/// Mathematical value of a `PrimaryArmor`.
pub struct PrimaryView {
    pub front: Seq<char>,
    pub sides: Seq<char>,
    pub rear: Seq<char>,
}

impl View for PrimaryArmor {
    type V = PrimaryView;

    open spec fn view(&self) -> PrimaryView {
        PrimaryView { front: self.front@, sides: self.sides@, rear: self.rear@ }
    }
}

/// The armour of one section (hull, turret or gun).
pub struct SectionArmor {
    /// `(plate id, thickness text)` in the order of the XML; a later entry
    /// for the same id replaces an earlier one.
    pub plates: Vec<(String, String)>,
    pub primary: PrimaryArmor,
    /// Ids of the spaced plates, in the order found.
    pub spaced: Vec<String>,
}

/// Mathematical value of a `SectionArmor`.
pub struct SectionView {
    pub plates: Seq<(Seq<char>, Seq<char>)>,
    pub primary: PrimaryView,
    pub spaced: Seq<Seq<char>>,
}

/// The views of `(id, text)` pairs.
pub open spec fn pairs_view(v: Seq<(String, String)>) -> Seq<(Seq<char>, Seq<char>)> {
    v.map_values(|p: (String, String)| (p.0@, p.1@))
}

/// The views of strings.
pub open spec fn strings_view(v: Seq<String>) -> Seq<Seq<char>> {
    v.map_values(|x: String| x@)
}

impl View for SectionArmor {
    type V = SectionView;

    open spec fn view(&self) -> SectionView {
        SectionView {
            plates: pairs_view(self.plates@),
            primary: self.primary@,
            spaced: strings_view(self.spaced@),
        }
    }
}

/// The `(id, thickness)` pairs of the captured plates.
pub open spec fn plates_of(caps: Seq<(Seq<char>, Seq<char>, Seq<char>)>) -> Seq<
    (Seq<char>, Seq<char>),
> {
    caps.map_values(|c: (Seq<char>, Seq<char>, Seq<char>)| (c.0, c.1))
}

/// A captured plate is spaced armour: before its closing tag
/// `</armor_ID>` there is a `vehicleDamageFactor`.
pub open spec fn is_spaced(c: (Seq<char>, Seq<char>, Seq<char>)) -> bool {
    match find(c.2, "</armor_"@ + c.0 + ">"@) {
        Some(p) => contains_chars(c.2.subrange(0, p), "vehicleDamageFactor"@),
        None => false,
    }
}

/// The ids of the spaced plates among the captured ones, in order.
pub open spec fn spaced_of(caps: Seq<(Seq<char>, Seq<char>, Seq<char>)>) -> Seq<Seq<char>>
    decreases caps.len(),
{
    if caps.len() == 0 {
        Seq::empty()
    } else {
        let prev = spaced_of(caps.drop_last());
        if is_spaced(caps.last()) {
            prev.push(caps.last().0)
        } else {
            prev
        }
    }
}

/// The plates and spaced plates of an armour block.
pub open spec fn block_spec(block: Seq<char>) -> Option<
    (Seq<(Seq<char>, Seq<char>)>, Seq<Seq<char>>),
> {
    match armor_regex_captures(block) {
        None => None,
        Some(caps) => Some((plates_of(caps), spaced_of(caps))),
    }
}

/// The character sequence of an owned string.
fn string_chars(s: &String) -> (v: Vec<char>)
    ensures
        v@ == s@,
{
    chars_of(s.as_str())
}

/// Reads the plates of an armour block.
fn block_plates(block: &Vec<char>) -> (r: Option<(Vec<(String, String)>, Vec<String>)>)
    ensures
        match block_spec(block@) {
            None => r is None,
            Some((pl, sp)) => r matches Some((p, s)) && pairs_view(p@) == pl && strings_view(s@)
                == sp,
        },
{
    let text = string_from_chars(block.as_slice());
    let caps = match armor_plate_captures(text.as_str()) {
        Some(c) => c,
        None => return None,
    };
    let ghost cv = captures_view(caps@);
    let marker = chars_of("vehicleDamageFactor");
    let mut plates: Vec<(String, String)> = Vec::new();
    let mut spaced: Vec<String> = Vec::new();
    let mut i: usize = 0;
    while i < caps.len()
        invariant
            i <= caps@.len(),
            cv == captures_view(caps@),
            marker@ == "vehicleDamageFactor"@,
            pairs_view(plates@) == plates_of(cv.take(i as int)),
            strings_view(spaced@) == spaced_of(cv.take(i as int)),
        decreases caps@.len() - i,
    {
        let ghost c = cv[i as int];
        proof {
            assert(cv.take(i + 1).drop_last() =~= cv.take(i as int));
            assert(cv.take(i + 1).last() == c);
        }
        let id = caps[i].0.clone();
        let val = caps[i].1.clone();
        let after = string_chars(&caps[i].2);
        let mut close = String::new();
        close.append("</armor_");
        close.append(id.as_str());
        close.append(">");
        let close_v = string_chars(&close);
        assert(close_v@ =~= "</armor_"@ + c.0 + ">"@);
        let spaced_here = match find_chars_from(&after, &close_v, 0) {
            Some(p) => {
                proof {
                    lemma_find_from_found(after@, close_v@, 0);
                }
                let content = nvec_range(&after, 0, p);
                contains_vec(&content, &marker)
            },
            None => false,
        };
        assert(spaced_here == is_spaced(c));
        let ghost old_plates = pairs_view(plates@);
        let ghost old_spaced = strings_view(spaced@);
        if spaced_here {
            let sid = id.clone();
            spaced.push(sid);
            assert(strings_view(spaced@) =~= old_spaced.push(c.0));
        }
        plates.push((id, val));
        assert(pairs_view(plates@) =~= old_plates.push((c.0, c.1)));
        assert(plates_of(cv.take(i + 1)) =~= plates_of(cv.take(i as int)).push((c.0, c.1)));
        i = i + 1;
    }
    assert(cv.take(caps@.len() as int) =~= cv);
    Some((plates, spaced))
}

/// An exponent marker.
pub open spec fn is_exp_char(c: char) -> bool {
    c == 'e' || c == 'E'
}

/// The digits of a decimal number: digits, or digits with one `.` among
/// them and at least one digit.
pub open spec fn mantissa_ok(m: Seq<char>) -> bool {
    m.len() > 0 && (all_digits(m) || exists|k: int|
        0 <= k < m.len() && m[k] == '.' && m.len() >= 2 && all_digits(m.subrange(0, k))
            && all_digits(#[trigger] m.subrange(k + 1, m.len() as int)))
}

/// An exponent after the marker: an optional sign and at least one digit.
pub open spec fn exp_ok(x: Seq<char>) -> bool {
    let d = if x.len() > 0 && (x[0] == '+' || x[0] == '-') {
        x.drop_first()
    } else {
        x
    };
    d.len() > 0 && all_digits(d)
}

/// A decimal number with an optional exponent.
pub open spec fn number_ok(b: Seq<char>) -> bool {
    ((forall|k: int| 0 <= k < b.len() ==> !is_exp_char(#[trigger] b[k])) && mantissa_ok(b)) || exists|k: int|
        0 <= k < b.len() && is_exp_char(b[k]) && mantissa_ok(#[trigger] b.subrange(0, k)) && exp_ok(
            b.subrange(k + 1, b.len() as int),
        )
}

/// The text after an optional sign.
pub open spec fn unsigned_part(s: Seq<char>) -> Seq<char> {
    if s.len() > 0 && (s[0] == '+' || s[0] == '-') {
        s.drop_first()
    } else {
        s
    }
}

/// What `str::parse` accepts as a floating-point number, by the grammar
/// that std documents: an optional sign, then `inf`, `infinity` or `nan` in
/// any case, or a decimal number with an optional exponent.
pub open spec fn float_text(s: Seq<char>) -> bool {
    let b = unsigned_part(s);
    eq_ignore_ascii_case(b, "inf"@) || eq_ignore_ascii_case(b, "infinity"@) || eq_ignore_ascii_case(
        b,
        "nan"@,
    ) || number_ok(b)
}

/// The first position in `lo..hi` holding `c1` or `c2`, else `hi`.
fn first_of(v: &Vec<char>, c1: char, c2: char, lo: usize, hi: usize) -> (r: usize)
    requires
        lo <= hi <= v@.len(),
    ensures
        lo <= r <= hi,
        forall|k: int| lo <= k < r ==> v@[k] != c1 && v@[k] != c2,
        r < hi ==> (v@[r as int] == c1 || v@[r as int] == c2),
{
    let mut i = lo;
    while i < hi
        invariant
            lo <= i <= hi <= v@.len(),
            forall|k: int| lo <= k < i ==> v@[k] != c1 && v@[k] != c2,
        decreases hi - i,
    {
        if v[i] == c1 || v[i] == c2 {
            return i;
        }
        i = i + 1;
    }
    hi
}

/// Whether positions `lo..hi` hold only digits.
fn digits_in(v: &Vec<char>, lo: usize, hi: usize) -> (r: bool)
    requires
        lo <= hi <= v@.len(),
    ensures
        r == all_digits(v@.subrange(lo as int, hi as int)),
{
    let mut i = lo;
    while i < hi
        invariant
            lo <= i <= hi <= v@.len(),
            forall|k: int| lo <= k < i ==> is_digit(#[trigger] v@[k]),
        decreases hi - i,
    {
        if !('0' <= v[i] && v[i] <= '9') {
            assert(!is_digit(v@.subrange(lo as int, hi as int)[i - lo]));
            return false;
        }
        i = i + 1;
    }
    assert forall|k: int| 0 <= k < hi - lo implies is_digit(#[trigger] v@.subrange(lo as int, hi as int)[k]) by {
        assert(v@.subrange(lo as int, hi as int)[k] == v@[lo + k]);
    }
    true
}

/// Whether positions `lo..hi` form a valid mantissa.
fn mantissa_in(v: &Vec<char>, lo: usize, hi: usize) -> (r: bool)
    requires
        lo <= hi <= v@.len(),
    ensures
        r == mantissa_ok(v@.subrange(lo as int, hi as int)),
{
    let ghost m = v@.subrange(lo as int, hi as int);
    if lo == hi {
        return false;
    }
    let d = first_of(v, '.', '.', lo, hi);
    if d == hi {
        let r = digits_in(v, lo, hi);
        proof {
            if !r {
                assert forall|k: int| 0 <= k < m.len() && m[k] == '.' implies false by {
                    assert(m[k] == v@[lo + k]);
                }
            }
        }
        return r;
    }
    let a = digits_in(v, lo, d);
    let b = digits_in(v, d + 1, hi);
    let r = a && b && hi - lo >= 2;
    proof {
        let k0 = d - lo;
        assert(m[k0] == '.');
        assert(m.subrange(0, k0) =~= v@.subrange(lo as int, d as int));
        assert(m.subrange(k0 + 1, m.len() as int) =~= v@.subrange(d + 1, hi as int));
        assert(!all_digits(m)) by {
            assert(!is_digit(m[k0]));
        }
        if !r {
            assert forall|k: int|
                0 <= k < m.len() && m[k] == '.' && m.len() >= 2 && all_digits(m.subrange(0, k))
                    implies !all_digits(#[trigger] m.subrange(k + 1, m.len() as int)) by {
                if k < k0 {
                    assert(m[k] == v@[lo + k]);
                } else if k > k0 {
                    assert(!is_digit(m.subrange(0, k)[k0]));
                }
            }
        }
    }
    r
}

/// Whether positions `lo..hi` form a valid exponent.
fn exp_in(v: &Vec<char>, lo: usize, hi: usize) -> (r: bool)
    requires
        lo <= hi <= v@.len(),
    ensures
        r == exp_ok(v@.subrange(lo as int, hi as int)),
{
    let ghost x = v@.subrange(lo as int, hi as int);
    let mut start = lo;
    if lo < hi && (v[lo] == '+' || v[lo] == '-') {
        start = lo + 1;
        assert(x.drop_first() =~= v@.subrange(start as int, hi as int));
    } else {
        assert(x =~= v@.subrange(start as int, hi as int));
    }
    start < hi && digits_in(v, start, hi)
}

/// Whether `v` is a floating-point number as `str::parse` reads one.
pub fn is_float_text(v: &Vec<char>) -> (r: bool)
    ensures
        r == float_text(v@),
{
    let n = v.len();
    let mut start: usize = 0;
    if n > 0 && (v[0] == '+' || v[0] == '-') {
        start = 1;
    }
    let ghost b = unsigned_part(v@);
    assert(b =~= v@.subrange(start as int, n as int));
    let body = nvec_range(v, start, n);
    let bs = string_from_chars(body.as_slice());
    if str_eq_ignore_ascii_case(bs.as_str(), "inf") || str_eq_ignore_ascii_case(bs.as_str(), "infinity")
        || str_eq_ignore_ascii_case(bs.as_str(), "nan") {
        return true;
    }
    let e = first_of(v, 'e', 'E', start, n);
    if e == n {
        let r = mantissa_in(v, start, n);
        proof {
            assert forall|k: int| 0 <= k < b.len() implies !is_exp_char(#[trigger] b[k]) by {
                assert(b[k] == v@[start + k]);
            }
        }
        return r;
    }
    let m = mantissa_in(v, start, e);
    let x = exp_in(v, e + 1, n);
    proof {
        let k0 = e - start;
        assert(b.subrange(0, k0) =~= v@.subrange(start as int, e as int));
        assert(b.subrange(k0 + 1, b.len() as int) =~= v@.subrange(e + 1, n as int));
        assert(is_exp_char(b[k0]));
        if !(m && x) {
            assert forall|k: int|
                0 <= k < b.len() && is_exp_char(b[k]) && mantissa_ok(#[trigger] b.subrange(0, k))
                    implies !exp_ok(b.subrange(k + 1, b.len() as int)) by {
                if k < k0 {
                    assert(b[k] == v@[start + k]);
                } else if k > k0 {
                    let mm = b.subrange(0, k);
                    assert(mm[k0] == b[k0]);
                    assert(!is_digit(mm[k0]));
                    assert(!all_digits(mm));
                    if exists|j: int|
                        0 <= j < mm.len() && mm[j] == '.' && mm.len() >= 2 && all_digits(mm.subrange(0, j))
                            && all_digits(#[trigger] mm.subrange(j + 1, mm.len() as int)) {
                        let j = choose|j: int|
                            0 <= j < mm.len() && mm[j] == '.' && mm.len() >= 2 && all_digits(mm.subrange(0, j))
                                && all_digits(#[trigger] mm.subrange(j + 1, mm.len() as int));
                        if k0 < j {
                            assert(!is_digit(mm.subrange(0, j)[k0]));
                        } else {
                            assert(!is_digit(mm.subrange(j + 1, mm.len() as int)[k0 - j - 1]));
                        }
                    }
                }
            }
        }
    }
    m && x
}

/// The whitespace-separated tokens of `s` from position `i` on; `start` is
/// where the token under way began, or -1 between tokens.
pub open spec fn ws_tokens_from(s: Seq<char>, i: int, start: int) -> Seq<Seq<char>>
    decreases s.len() - i,
{
    if i >= s.len() {
        if start >= 0 {
            seq![s.subrange(start, s.len() as int)]
        } else {
            Seq::empty()
        }
    } else if is_white_space(s[i]) {
        (if start >= 0 {
            seq![s.subrange(start, i)]
        } else {
            Seq::empty()
        }) + ws_tokens_from(s, i + 1, -1)
    } else {
        ws_tokens_from(s, i + 1, if start >= 0 { start } else { i })
    }
}

/// The whitespace-separated tokens of `s`.
pub open spec fn ws_tokens(s: Seq<char>) -> Seq<Seq<char>> {
    ws_tokens_from(s, 0, -1)
}

/// Token `k`, or the empty text when there are fewer.
pub open spec fn token_or_empty(ts: Seq<Seq<char>>, k: int) -> Seq<char> {
    if 0 <= k < ts.len() {
        ts[k]
    } else {
        Seq::empty()
    }
}

/// The views of token vectors.
pub open spec fn tokens_view(v: Seq<Vec<char>>) -> Seq<Seq<char>> {
    v.map_values(|t: Vec<char>| t@)
}

/// Splits `s[lo..hi]` at whitespace.
fn split_ws(v: &Vec<char>, lo: usize, hi: usize) -> (r: Vec<Vec<char>>)
    requires
        lo <= hi <= v@.len(),
    ensures
        tokens_view(r@) == ws_tokens(v@.subrange(lo as int, hi as int)),
{
    let ghost s = v@.subrange(lo as int, hi as int);
    let mut out: Vec<Vec<char>> = Vec::new();
    let mut start: Option<usize> = None;
    let mut i: usize = lo;
    while i < hi
        invariant
            lo <= i <= hi <= v@.len(),
            s == v@.subrange(lo as int, hi as int),
            match start {
                Some(st) => lo <= st < i,
                None => true,
            },
            ws_tokens(s) == tokens_view(out@) + ws_tokens_from(
                s,
                i - lo,
                match start {
                    Some(st) => st - lo,
                    None => -1,
                },
            ),
        decreases hi - i,
    {
        let c = v[i];
        assert(s[i - lo] == c);
        let ghost before = tokens_view(out@);
        if is_whitespace(c) {
            if let Some(st) = start {
                let tok = nvec_range(v, st, i);
                assert(s.subrange(st - lo, i - lo) =~= tok@);
                out.push(tok);
                assert(tokens_view(out@) =~= before.push(tok@));
                assert(before + (seq![tok@] + ws_tokens_from(s, i - lo + 1, -1)) =~= before.push(tok@)
                    + ws_tokens_from(s, i - lo + 1, -1));
            } else {
                assert(Seq::<Seq<char>>::empty() + ws_tokens_from(s, i - lo + 1, -1) =~= ws_tokens_from(
                    s,
                    i - lo + 1,
                    -1,
                ));
            }
            start = None;
        } else {
            if start.is_none() {
                start = Some(i);
            }
        }
        i = i + 1;
    }
    if let Some(st) = start {
        let tok = nvec_range(v, st, hi);
        assert(s.subrange(st - lo, hi - lo) =~= tok@);
        let ghost before = tokens_view(out@);
        out.push(tok);
        assert(tokens_view(out@) =~= before.push(tok@));
    } else {
        assert(tokens_view(out@) + Seq::<Seq<char>>::empty() =~= tokens_view(out@));
    }
    out
}

/// The primary plates named in a section: the first three tokens between
/// `<primaryArmor>` and `</primaryArmor>` (missing ones empty); without
/// that tag, `armor_1`, `armor_3`, `armor_4`; `None` when the tag is not
/// closed.
pub open spec fn primary_spec(section: Seq<char>) -> Option<PrimaryView> {
    match find(section, "<primaryArmor>"@) {
        None => Some(PrimaryView { front: "armor_1"@, sides: "armor_3"@, rear: "armor_4"@ }),
        Some(pa) => match find_from(section, "</primaryArmor>"@, pa) {
            None => None,
            Some(pe) => {
                let ts = ws_tokens(section.subrange(pa + 14, pe));
                Some(
                    PrimaryView {
                        front: token_or_empty(ts, 0),
                        sides: token_or_empty(ts, 1),
                        rear: token_or_empty(ts, 2),
                    },
                )
            },
        },
    }
}

/// Token `k` as a string, or the empty string.
fn token_string(ts: &Vec<Vec<char>>, k: usize) -> (r: String)
    ensures
        r@ == token_or_empty(tokens_view(ts@), k as int),
{
    if k < ts.len() {
        string_from_chars(ts[k].as_slice())
    } else {
        String::new()
    }
}

/// Reads the primary plates of a section (`section[lo..hi]`).
fn primary_of(v: &Vec<char>) -> (r: Option<PrimaryArmor>)
    ensures
        match primary_spec(v@) {
            None => r is None,
            Some(p) => r matches Some(x) && x@ == p,
        },
{
    let open = chars_of("<primaryArmor>");
    let close = chars_of("</primaryArmor>");
    proof {
        reveal_strlit("<primaryArmor>");
        lemma_tag_pairs();
    }
    let pa = match find_chars_from(v, &open, 0) {
        None => {
            return Some(
                PrimaryArmor {
                    front: "armor_1".to_string(),
                    sides: "armor_3".to_string(),
                    rear: "armor_4".to_string(),
                },
            );
        },
        Some(p) => p,
    };
    proof {
        lemma_find_from_found(v@, open@, 0);
        lemma_close_after_open(v@, open@, close@, pa as int, 0);
    }
    let pe = match find_chars_from(v, &close, pa) {
        None => return None,
        Some(e) => e,
    };
    proof {
        lemma_find_from_found(v@, close@, pa + 14);
    }
    let ts = split_ws(v, pa + 14, pe);
    Some(
        PrimaryArmor {
            front: token_string(&ts, 0),
            sides: token_string(&ts, 1),
            rear: token_string(&ts, 2),
        },
    )
}

/// The text between the first `open` tag and the next `close` tag after
/// it, the opening tag included.
pub open spec fn tagged_section(text: Seq<char>, open: Seq<char>, close: Seq<char>) -> Option<
    Seq<char>,
> {
    match find(text, open) {
        None => None,
        Some(s) => match find_from(text, close, s) {
            None => None,
            Some(e) => Some(text.subrange(s, e)),
        },
    }
}

/// The content of the first `<armor>` block of a section.
pub open spec fn armor_block_of(sec: Seq<char>) -> Option<Seq<char>> {
    match find(sec, "<armor>"@) {
        None => None,
        Some(a) => match find_from(sec, "</armor>"@, a) {
            None => None,
            Some(ae) => Some(sec.subrange(a + 7, ae)),
        },
    }
}

/// The hull armour: the `<armor>` block and the primary plates of the
/// `<hull>` section.
pub open spec fn hull_spec(text: Seq<char>) -> Option<SectionView> {
    match tagged_section(text, "<hull>"@, "</hull>"@) {
        None => None,
        Some(sec) => match armor_block_of(sec) {
            None => None,
            Some(block) => match block_spec(block) {
                None => None,
                Some((pl, sp)) => match primary_spec(sec) {
                    None => None,
                    Some(pr) => Some(SectionView { plates: pl, primary: pr, spaced: sp }),
                },
            },
        },
    }
}

/// The turret armour: the first `<armor>` block of `<turrets0>` when it
/// comes before `<guns>`, and the primary plates named before `<guns>`.
pub open spec fn turret_spec(text: Seq<char>) -> Option<SectionView> {
    match tagged_section(text, "<turrets0>"@, "</turrets0>"@) {
        None => None,
        Some(sec) => {
            let gs = find(sec, "<guns>"@);
            match find(sec, "<armor>"@) {
                None => None,
                Some(a) => if gs matches Some(g) && a >= g {
                    None
                } else {
                    match find_from(sec, "</armor>"@, a) {
                        None => None,
                        Some(ae) => match block_spec(sec.subrange(a + 7, ae)) {
                            None => None,
                            Some((pl, sp)) => {
                                let only = match gs {
                                    Some(g) => sec.subrange(0, g),
                                    None => sec,
                                };
                                match primary_spec(only) {
                                    None => None,
                                    Some(pr) => Some(SectionView { plates: pl, primary: pr, spaced: sp }),
                                }
                            },
                        },
                    }
                },
            }
        },
    }
}

/// The barrel thickness of a gun armour block: the trimmed text of its
/// `<gun>` tag as an extra plate `gun` when it is a number; `None` when the
/// tag is not closed.
pub open spec fn gun_value(block: Seq<char>) -> Option<Seq<(Seq<char>, Seq<char>)>> {
    match find(block, "<gun>"@) {
        None => Some(Seq::empty()),
        Some(g) => match find_from(block, "</gun>"@, g) {
            None => None,
            Some(ge) => {
                let v = trim(block.subrange(g + 5, ge));
                if float_text(v) {
                    Some(seq![("gun"@, v)])
                } else {
                    Some(Seq::empty())
                }
            },
        },
    }
}

/// The gun armour: the `<armor>` block of the `<guns>` part of `<turrets0>`,
/// with the barrel thickness; every primary plate is `armor_1`.
pub open spec fn gun_spec(text: Seq<char>) -> Option<SectionView> {
    match tagged_section(text, "<turrets0>"@, "</turrets0>"@) {
        None => None,
        Some(sec) => match tagged_section(sec, "<guns>"@, "</guns>"@) {
            None => None,
            Some(gsec) => match armor_block_of(gsec) {
                None => None,
                Some(block) => match block_spec(block) {
                    None => None,
                    Some((pl, sp)) => match gun_value(block) {
                        None => None,
                        Some(extra) => Some(
                            SectionView {
                                plates: pl + extra,
                                primary: PrimaryView {
                                    front: "armor_1"@,
                                    sides: "armor_1"@,
                                    rear: "armor_1"@,
                                },
                                spaced: sp,
                            },
                        ),
                    },
                },
            },
        },
    }
}

/// Reads the section between the first `open` and the next `close`.
fn section_between(v: &Vec<char>, open: &str, close: &str) -> (r: Option<Vec<char>>)
    requires
        tag_pair(open@, close@),
    ensures
        match tagged_section(v@, open@, close@) {
            None => r is None,
            Some(sec) => r matches Some(x) && x@ == sec,
        },
{
    let o = chars_of(open);
    let c = chars_of(close);
    let s = match find_chars_from(v, &o, 0) {
        None => return None,
        Some(s) => s,
    };
    proof {
        lemma_find_from_found(v@, o@, 0);
        lemma_close_after_open(v@, o@, c@, s as int, 0);
        lemma_find_from_found(v@, c@, s + o@.len());
    }
    let e = match find_chars_from(v, &c, s) {
        None => return None,
        Some(e) => e,
    };
    Some(nvec_range(v, s, e))
}

/// The content of the first `<armor>` block of `sec`, from position `a` of
/// its opening tag.
fn armor_block_at(sec: &Vec<char>, a: usize) -> (r: Option<Vec<char>>)
    requires
        find(sec@, "<armor>"@) == Some(a as int),
    ensures
        match find_from(sec@, "</armor>"@, a as int) {
            None => r is None,
            Some(ae) => r matches Some(x) && x@ == sec@.subrange(a + 7, ae),
        },
{
    let close = chars_of("</armor>");
    proof {
        reveal_strlit("<armor>");
        lemma_tag_pairs();
        lemma_find_from_found(sec@, "<armor>"@, 0);
        lemma_close_after_open(sec@, "<armor>"@, close@, a as int, 0);
        lemma_find_from_found(sec@, close@, a + 7);
    }
    let ae = match find_chars_from(sec, &close, a) {
        None => return None,
        Some(e) => e,
    };
    Some(nvec_range(sec, a + 7, ae))
}

/// Reads the hull armour.
fn parse_section_armor(text: &Vec<char>) -> (r: Option<SectionArmor>)
    ensures
        match hull_spec(text@) {
            None => r is None,
            Some(h) => r matches Some(x) && x@ == h,
        },
{
    proof {
        lemma_tag_pairs();
    }
    let sec = section_between(text, "<hull>", "</hull>")?;
    let open = chars_of("<armor>");
    let a = find_chars_from(&sec, &open, 0)?;
    let block = armor_block_at(&sec, a)?;
    let (plates, spaced) = block_plates(&block)?;
    let primary = primary_of(&sec)?;
    Some(SectionArmor { plates, primary, spaced })
}

/// Reads the turret armour.
fn parse_turret_armor(text: &Vec<char>) -> (r: Option<SectionArmor>)
    ensures
        match turret_spec(text@) {
            None => r is None,
            Some(t) => r matches Some(x) && x@ == t,
        },
{
    proof {
        lemma_tag_pairs();
    }
    let sec = section_between(text, "<turrets0>", "</turrets0>")?;
    let guns_open = chars_of("<guns>");
    let gs = find_chars_from(&sec, &guns_open, 0);
    let open = chars_of("<armor>");
    let a = find_chars_from(&sec, &open, 0)?;
    if let Some(g) = gs {
        if a >= g {
            return None;
        }
    }
    let block = armor_block_at(&sec, a)?;
    let (plates, spaced) = block_plates(&block)?;
    let end = match gs {
        Some(g) => g,
        None => sec.len(),
    };
    proof {
        if gs matches Some(g) {
            lemma_find_from_found(sec@, guns_open@, 0);
        } else {
            assert(sec@.subrange(0, sec@.len() as int) =~= sec@);
        }
    }
    let only = nvec_range(&sec, 0, end);
    let primary = primary_of(&only)?;
    Some(SectionArmor { plates, primary, spaced })
}

/// Reads the barrel thickness of a gun armour block.
fn gun_value_of(block: &Vec<char>) -> (r: Option<Option<(String, String)>>)
    ensures
        match gun_value(block@) {
            None => r is None,
            Some(extra) => r matches Some(x) && match x {
                Some(p) => extra == seq![(p.0@, p.1@)],
                None => extra.len() == 0,
            },
        },
{
    let open = chars_of("<gun>");
    let close = chars_of("</gun>");
    proof {
        reveal_strlit("<gun>");
        lemma_tag_pairs();
    }
    let g = match find_chars_from(block, &open, 0) {
        None => return Some(None),
        Some(g) => g,
    };
    proof {
        lemma_find_from_found(block@, open@, 0);
        lemma_close_after_open(block@, open@, close@, g as int, 0);
        lemma_find_from_found(block@, close@, g + 5);
    }
    let ge = find_chars_from(block, &close, g)?;
    let raw = nvec_range(block, g + 5, ge);
    let (a, b) = trim_bounds(&raw);
    let val = nvec_range(&raw, a, b);
    if is_float_text(&val) {
        Some(Some(("gun".to_string(), string_from_chars(val.as_slice()))))
    } else {
        Some(None)
    }
}

/// Reads the gun armour.
fn parse_gun_armor(text: &Vec<char>) -> (r: Option<SectionArmor>)
    ensures
        match gun_spec(text@) {
            None => r is None,
            Some(t) => r matches Some(x) && x@ == t,
        },
{
    proof {
        lemma_tag_pairs();
    }
    let sec = section_between(text, "<turrets0>", "</turrets0>")?;
    let gsec = section_between(&sec, "<guns>", "</guns>")?;
    let open = chars_of("<armor>");
    let a = find_chars_from(&gsec, &open, 0)?;
    let block = armor_block_at(&gsec, a)?;
    let (mut plates, spaced) = block_plates(&block)?;
    let extra = gun_value_of(&block)?;
    let ghost before = pairs_view(plates@);
    if let Some(p) = extra {
        plates.push(p);
        assert(pairs_view(plates@) =~= before + seq![(p.0@, p.1@)]);
    } else {
        assert(pairs_view(plates@) =~= before + Seq::<(Seq<char>, Seq<char>)>::empty());
    }
    Some(
        SectionArmor {
            plates,
            primary: PrimaryArmor {
                front: "armor_1".to_string(),
                sides: "armor_1".to_string(),
                rear: "armor_1".to_string(),
            },
            spaced,
        },
    )
}

/// Track armour of the chassis, as the numbers' text.
pub struct ChassisArmor {
    pub left_track: String,
    pub right_track: String,
}

/// The trimmed text of the first `open … close` tag of `t` when it is a
/// number.
pub open spec fn tag_value(t: Seq<char>, open: Seq<char>, close: Seq<char>) -> Option<Seq<char>> {
    match find(t, open) {
        None => None,
        Some(st) => match find_from(t, close, st) {
            None => None,
            Some(en) => {
                let v = trim(t.subrange(st + open.len(), en));
                if float_text(v) {
                    Some(v)
                } else {
                    None
                }
            },
        },
    }
}

/// The chassis armour: left and right track values of `<chassis>`, both
/// required.
pub open spec fn chassis_spec(text: Seq<char>) -> Option<(Seq<char>, Seq<char>)> {
    match tagged_section(text, "<chassis>"@, "</chassis>"@) {
        None => None,
        Some(sec) => match tag_value(sec, "<leftTrack>"@, "</leftTrack>"@) {
            None => None,
            Some(l) => match tag_value(sec, "<rightTrack>"@, "</rightTrack>"@) {
                None => None,
                Some(r) => Some((l, r)),
            },
        },
    }
}

/// Reads the numeric value of a tag.
fn extract_tag_value(t: &Vec<char>, open: &str, close: &str) -> (r: Option<String>)
    requires
        tag_pair(open@, close@),
    ensures
        match tag_value(t@, open@, close@) {
            None => r is None,
            Some(v) => r matches Some(x) && x@ == v,
        },
{
    let o = chars_of(open);
    let c = chars_of(close);
    let st = find_chars_from(t, &o, 0)?;
    proof {
        lemma_find_from_found(t@, o@, 0);
        lemma_close_after_open(t@, o@, c@, st as int, 0);
        lemma_find_from_found(t@, c@, st + o@.len());
    }
    let en = find_chars_from(t, &c, st)?;
    let raw = nvec_range(t, st + o.len(), en);
    let (a, b) = trim_bounds(&raw);
    let val = nvec_range(&raw, a, b);
    if is_float_text(&val) {
        Some(string_from_chars(val.as_slice()))
    } else {
        None
    }
}

/// Reads the chassis armour.
fn parse_chassis_armor(text: &Vec<char>) -> (r: Option<ChassisArmor>)
    ensures
        match chassis_spec(text@) {
            None => r is None,
            Some((l, rt)) => r matches Some(x) && x.left_track@ == l && x.right_track@ == rt,
        },
{
    proof {
        lemma_tag_pairs();
    }
    let sec = section_between(text, "<chassis>", "</chassis>")?;
    let left = extract_tag_value(&sec, "<leftTrack>", "</leftTrack>")?;
    let right = extract_tag_value(&sec, "<rightTrack>", "</rightTrack>")?;
    Some(ChassisArmor { left_track: left, right_track: right })
}

/// The armour model of a vehicle.
pub struct ArmorModel {
    pub hull: SectionArmor,
    pub turret: Option<SectionArmor>,
    pub gun: Option<SectionArmor>,
    pub chassis: Option<ChassisArmor>,
}

impl ArmorModel {
    /// Reads the armour model from a vehicle's item definition XML; `None`
    /// when the hull armour cannot be read.
    pub fn parse_from_xml(text: &str) -> (r: Option<ArmorModel>)
        ensures
            match hull_spec(text@) {
                None => r is None,
                Some(h) => r matches Some(m) && m.hull@ == h && match turret_spec(text@) {
                    None => m.turret is None,
                    Some(t) => m.turret matches Some(x) && x@ == t,
                } && match gun_spec(text@) {
                    None => m.gun is None,
                    Some(g) => m.gun matches Some(x) && x@ == g,
                } && match chassis_spec(text@) {
                    None => m.chassis is None,
                    Some((l, rt)) => m.chassis matches Some(x) && x.left_track@ == l
                        && x.right_track@ == rt,
                },
            },
    {
        let v = chars_of(text);
        let hull = parse_section_armor(&v)?;
        let turret = parse_turret_armor(&v);
        let gun = parse_gun_armor(&v);
        let chassis = parse_chassis_armor(&v);
        Some(ArmorModel { hull, turret, gun, chassis })
    }
}

/// The tokens that are numbers, in order.
pub open spec fn float_tokens(ts: Seq<Seq<char>>) -> Seq<Seq<char>>
    decreases ts.len(),
{
    if ts.len() == 0 {
        Seq::empty()
    } else {
        let prev = float_tokens(ts.drop_last());
        if float_text(ts.last()) {
            prev.push(ts.last())
        } else {
            prev
        }
    }
}

/// The hull's position on the chassis: the numbers between
/// `<hullPosition>` and the next `</hullPosition>`, when there are exactly
/// three.
pub open spec fn hull_position_spec(xml: Seq<char>) -> Option<Seq<Seq<char>>> {
    match find(xml, "<hullPosition>"@) {
        None => None,
        Some(p) => match find_from(xml, "</hullPosition>"@, p + 14) {
            None => None,
            Some(e) => {
                let nums = float_tokens(ws_tokens(xml.subrange(p + 14, e)));
                if nums.len() == 3 {
                    Some(nums)
                } else {
                    None
                }
            },
        },
    }
}

/// Reads the hull position of an item definition XML (numbers as text).
pub fn parse_hull_position(xml: &str) -> (r: Option<(String, String, String)>)
    ensures
        match hull_position_spec(xml@) {
            Some(n) => r matches Some((x, y, z)) && seq![x@, y@, z@] == n,
            None => r is None,
        },
{
    let v = chars_of(xml);
    let vl = v.len();
    let open = chars_of("<hullPosition>");
    let close = chars_of("</hullPosition>");
    let p = find_chars_from(&v, &open, 0)?;
    proof {
        reveal_strlit("<hullPosition>");
        lemma_find_from_found(v@, open@, 0);
    }
    let e = find_chars_from(&v, &close, p + 14)?;
    proof {
        lemma_find_from_found(v@, close@, p + 14);
    }
    let ts = split_ws(&v, p + 14, e);
    let ghost tv = tokens_view(ts@);
    let mut nums: Vec<String> = Vec::new();
    let mut i: usize = 0;
    while i < ts.len()
        invariant
            i <= ts@.len(),
            tv == tokens_view(ts@),
            nums@.map_values(|x: String| x@) == float_tokens(tv.take(i as int)),
        decreases ts@.len() - i,
    {
        proof {
            assert(tv.take(i + 1).drop_last() =~= tv.take(i as int));
            assert(tv.take(i + 1).last() == ts@[i as int]@);
        }
        if is_float_text(&ts[i]) {
            let ghost before = nums@.map_values(|x: String| x@);
            nums.push(string_from_chars(ts[i].as_slice()));
            assert(nums@.map_values(|x: String| x@) =~= before.push(ts@[i as int]@));
        }
        i = i + 1;
    }
    assert(tv.take(ts@.len() as int) =~= tv);
    if nums.len() != 3 {
        return None;
    }
    let ghost nv = nums@.map_values(|x: String| x@);
    assert(nv[0] == nums@[0]@ && nv[1] == nums@[1]@ && nv[2] == nums@[2]@);
    let z = nums.pop().unwrap();
    let y = nums.pop().unwrap();
    let x = nums.pop().unwrap();
    assert(seq![x@, y@, z@] =~= nv);
    Some((x, y, z))
}

} // verus!
