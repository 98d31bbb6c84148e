//! Extraction of per-tank game data from a local client install: locating
//! the client's data directory, reading the client version, and matching a
//! tank's BlitzKit dev name to the client's vehicle file names.

use vstd::prelude::*;

use crate::text::{
    ascii_lower, chars_match_at, chars_of, has_prefix, is_white_space, is_whitespace, starts_with_chars,
    str_to_lowercase, string_from_chars, string_from_utf8_lossy, to_ascii_lower,
    unicode_lowercase, utf8_lossy,
};

verus! {

/// Usual install locations of the client's data directory (WSL and Windows).
pub const DEFAULT_GAME_DIRS: [&'static str; 4] = [
    "/mnt/d/SteamLibrary/steamapps/common/World of Tanks Blitz/Data",
    "D:/SteamLibrary/steamapps/common/World of Tanks Blitz/Data",
    "/mnt/c/Program Files (x86)/Steam/steamapps/common/World of Tanks Blitz/Data",
    "C:/Program Files (x86)/Steam/steamapps/common/World of Tanks Blitz/Data",
];

/// Why no client data directory was found.
#[derive(Debug)]
pub enum GameDirError {
    /// The directory given explicitly does not exist.
    NotFound(String),
    /// None of the usual locations exists.
    NoneFound,
}

/// The first position at or after `i` whose probe found a directory.
pub open spec fn first_found(found: Seq<bool>, i: int) -> Option<int>
    decreases found.len() - i,
{
    if i < 0 || i >= found.len() {
        None
    } else if found[i] {
        Some(i)
    } else {
        first_found(found, i + 1)
    }
}

/// The view of an optional directory.
pub open spec fn opt_view(explicit: Option<&str>) -> Option<Seq<char>> {
    match explicit {
        Some(d) => Some(d@),
        None => None,
    }
}

/// The answer for the given probe results: for an explicit directory `d`
/// (one probe), `d` if it exists, else `NotFound(d)`; otherwise (one probe
/// per usual location, in order) the first location that exists, else
/// `NoneFound`.
pub open spec fn game_dir_answer(
    explicit: Option<Seq<char>>,
    found: Seq<bool>,
    r: Result<String, GameDirError>,
) -> bool {
    match explicit {
        Some(d) => if found[0] {
            r matches Ok(p) && p@ == d
        } else {
            r matches Err(GameDirError::NotFound(p)) && p@ == d
        },
        None => match first_found(found, 0) {
            Some(i) => r matches Ok(p) && p@ == DEFAULT_GAME_DIRS@[i]@,
            None => r matches Err(GameDirError::NoneFound),
        },
    }
}

/// The number of probes for a request: one for an explicit directory,
/// one per usual location otherwise.
pub open spec fn probe_count(explicit: Option<Seq<char>>) -> int {
    if explicit is Some {
        1
    } else {
        4
    }
}

/// Chooses the client data directory from the probe results: `found[0]`
/// for an explicit directory, `found[i]` for `DEFAULT_GAME_DIRS[i]`.
pub fn pick_game_dir(explicit: Option<&str>, found: &[bool]) -> (r: Result<String, GameDirError>)
    requires
        found@.len() == probe_count(opt_view(explicit)),
    ensures
        game_dir_answer(opt_view(explicit), found@, r),
{
    if let Some(d) = explicit {
        if found[0] {
            return Ok(d.to_string());
        }
        return Err(GameDirError::NotFound(d.to_string()));
    }
    let mut i: usize = 0;
    while i < 4
        invariant
            i <= 4,
            found@.len() == 4,
            explicit is None,
            first_found(found@, 0) == first_found(found@, i as int),
        decreases 4 - i,
    {
        if found[i] {
            let p = DEFAULT_GAME_DIRS[i].to_string();
            assert(p@ == DEFAULT_GAME_DIRS@[i as int]@);
            return Ok(p);
        }
        i = i + 1;
    }
    Err(GameDirError::NoneFound)
}

/// The probe results that `resolve_game_dir` hands to `pick_game_dir`:
/// for an explicit directory, what `probe` said of it; otherwise, for each
/// usual location in order up to the first that exists, what `probe` said
/// of it (the locations after that one are not probed and count as not
/// found).
pub open spec fn probed<F: Fn(&str) -> bool>(
    explicit: Option<&str>,
    probe: F,
    found: Seq<bool>,
) -> bool {
    found.len() == probe_count(opt_view(explicit)) && match explicit {
        Some(d) => call_ensures(probe, (d,), found[0]),
        None => forall|i: int|
            0 <= i < 4 ==> (if first_found(found, 0) matches Some(h) && h < i {
                !found[i]
            } else {
                call_ensures(probe, (DEFAULT_GAME_DIRS@[i],), #[trigger] found[i])
            }),
    }
}

/// The client data directory: the explicit one if `probe` finds it (an
/// error if not), else the first of the usual locations that `probe`
/// finds, probed in order.
pub fn resolve_game_dir<F: Fn(&str) -> bool>(explicit: Option<&str>, probe: F) -> (res: Result<
    String,
    GameDirError,
>)
    requires
        forall|p: &str| call_requires(probe, (p,)),
    ensures
        exists|found: Seq<bool>|
            probed(explicit, probe, found) && game_dir_answer(opt_view(explicit), found, res),
{
    let mut found: Vec<bool> = Vec::new();
    match explicit {
        Some(d) => {
            let f = probe(d);
            found.push(f);
        },
        None => {
            let mut hit = false;
            let mut i: usize = 0;
            while i < 4
                invariant
                    i <= 4,
                    explicit is None,
                    found@.len() == i,
                    forall|p: &str| call_requires(probe, (p,)),
                    hit == (first_found(found@, 0) is Some),
                    forall|j: int|
                        0 <= j < i ==> (if first_found(found@, 0) matches Some(h) && h < j {
                            !found@[j]
                        } else {
                            call_ensures(probe, (DEFAULT_GAME_DIRS@[j],), #[trigger] found@[j])
                        }),
                decreases 4 - i,
            {
                let ghost before = found@;
                let ghost was_hit = hit;
                if hit {
                    found.push(false);
                } else {
                    let dir = DEFAULT_GAME_DIRS[i];
                    let f = probe(dir);
                    assert(dir == DEFAULT_GAME_DIRS@[i as int]);
                    found.push(f);
                    hit = f;
                }
                proof {
                    let nv = found@[i as int];
                    assert(found@ == before.push(nv));
                    assert(was_hit ==> !nv);
                    assert(!was_hit ==> call_ensures(probe, (DEFAULT_GAME_DIRS@[i as int],), nv));
                    lemma_first_found_push(before, nv);
                    assert forall|j: int| 0 <= j < i + 1 implies (if first_found(found@, 0) matches Some(h) && h < j {
                        !found@[j]
                    } else {
                        call_ensures(probe, (DEFAULT_GAME_DIRS@[j],), #[trigger] found@[j])
                    }) by {
                        if j < i {
                            assert(found@[j] == before[j]);
                        } else {
                            if was_hit {
                                let h = first_found(before, 0)->Some_0;
                                assert(first_found(found@, 0) == Some(h));
                                lemma_first_found_bound(before);
                            }
                        }
                    }
                }
                i = i + 1;
            }
        },
    }
    let r = pick_game_dir(explicit, found.as_slice());
    assert(probed(explicit, probe, found@) && game_dir_answer(opt_view(explicit), found@, r));
    r
}

/// A position that `first_found` gives lies within the results.
proof fn lemma_first_found_bound(s: Seq<bool>)
    ensures
        first_found(s, 0) matches Some(h) ==> 0 <= h < s.len(),
{
    lemma_first_found_bound_from(s, 0);
}

proof fn lemma_first_found_bound_from(s: Seq<bool>, i: int)
    requires
        0 <= i,
    ensures
        first_found(s, i) matches Some(h) ==> i <= h < s.len(),
    decreases s.len() - i,
{
    if i < s.len() && !s[i] {
        lemma_first_found_bound_from(s, i + 1);
    }
}

/// `first_found` over probe results extended by one.
proof fn lemma_first_found_push(s: Seq<bool>, b: bool)
    ensures
        first_found(s.push(b), 0) == (match first_found(s, 0) {
            Some(h) => Some(h),
            None => if b {
                Some(s.len() as int)
            } else {
                None
            },
        }),
{
    lemma_first_found_push_from(s, b, 0);
}

proof fn lemma_first_found_push_from(s: Seq<bool>, b: bool, i: int)
    requires
        0 <= i <= s.len(),
    ensures
        first_found(s.push(b), i) == (match first_found(s, i) {
            Some(h) => Some(h),
            None => if b {
                Some(s.len() as int)
            } else {
                None
            },
        }),
    decreases s.len() - i,
{
    if i < s.len() {
        assert(s.push(b)[i] == s[i]);
        lemma_first_found_push_from(s, b, i + 1);
    } else {
        assert(s.push(b)[i] == b);
        assert(first_found(s.push(b), i + 1) is None);
    }
}

/// An ASCII letter or digit.
pub open spec fn ascii_alnum(c: char) -> bool {
    ('a' <= c <= 'z') || ('A' <= c <= 'Z') || ('0' <= c <= '9')
}

/// File-name normal form: only ASCII letters and digits, lowercased
/// ("GB91_Super_Conqueror" → "gb91superconqueror").
pub open spec fn norm_file(s: Seq<char>) -> Seq<char> {
    s.filter(|c: char| ascii_alnum(c)).map_values(|c: char| ascii_lower(c))
}

fn norm_file_chars(v: &Vec<char>) -> (r: Vec<char>)
    ensures
        r@ == norm_file(v@),
{
    let mut r: Vec<char> = Vec::new();
    let mut i: usize = 0;
    while i < v.len()
        invariant
            i <= v@.len(),
            r@ == norm_file(v@.take(i as int)),
        decreases v@.len() - i,
    {
        let c = v[i];
        proof {
            reveal_with_fuel(Seq::filter, 1);
            assert(v@.take(i + 1).drop_last() =~= v@.take(i as int));
            let f = v@.take(i as int).filter(|c: char| ascii_alnum(c));
            if ascii_alnum(c) {
                assert(v@.take(i + 1).filter(|c: char| ascii_alnum(c)) =~= f.push(c));
                assert(f.push(c).map_values(|c: char| ascii_lower(c)) =~= f.map_values(
                    |c: char| ascii_lower(c),
                ).push(ascii_lower(c)));
            } else {
                assert(v@.take(i + 1).filter(|c: char| ascii_alnum(c)) =~= f);
            }
        }
        if ('a' <= c && c <= 'z') || ('A' <= c && c <= 'Z') || ('0' <= c && c <= '9') {
            r.push(to_ascii_lower(c));
        }
        i = i + 1;
    }
    assert(v@.take(v@.len() as int) =~= v@);
    r
}

/// Normalises a name for file-name comparison.
pub fn norm_file_name(s: &str) -> (r: String)
    ensures
        r@ == norm_file(s@),
{
    let v = chars_of(s);
    let n = norm_file_chars(&v);
    string_from_chars(&n)
}

/// `hay` contains `needle` as a contiguous part.
pub open spec fn contains_chars(hay: Seq<char>, needle: Seq<char>) -> bool {
    exists|k: int| 0 <= k && k + needle.len() <= hay.len() && #[trigger] hay.subrange(k, k + needle.len()) == needle
}

/// `a` ends with `p`.
pub open spec fn has_suffix(a: Seq<char>, p: Seq<char>) -> bool {
    p.len() <= a.len() && a.subrange(a.len() - p.len(), a.len() as int) == p
}

/// Executable `contains_chars`.
pub fn contains_vec(hay: &Vec<char>, needle: &Vec<char>) -> (r: bool)
    ensures
        r == contains_chars(hay@, needle@),
{
    if needle.len() > hay.len() {
        return false;
    }
    if needle.len() == 0 {
        assert(hay@.subrange(0, 0 + needle@.len() as int) =~= needle@);
        return true;
    }
    let hl = hay.len();
    let mut k: usize = 0;
    while k <= hay.len() - needle.len()
        invariant
            hl == hay@.len(),
            1 <= needle@.len() <= hay@.len(),
            k <= hay@.len() - needle@.len() + 1,
            forall|j: int| 0 <= j < k ==> #[trigger] hay@.subrange(j, j + needle@.len()) != needle@,
        decreases hay@.len() - needle@.len() + 1 - k,
    {
        if chars_match_at(hay.as_slice(), needle.as_slice(), k) {
            return true;
        }
        k = k + 1;
    }
    false
}

/// Executable `has_suffix`.
pub fn ends_with_vec(a: &Vec<char>, p: &Vec<char>) -> (r: bool)
    ensures
        r == has_suffix(a@, p@),
{
    if p.len() > a.len() {
        return false;
    }
    let r = chars_match_at(a.as_slice(), p.as_slice(), a.len() - p.len());
    r
}

/// Rank of one file name as the vehicle file for `dev`: `(0, 0)` for an
/// equal normal form; `(1, name bytes - ext bytes)` when the normal form
/// contains the target (shortest first); `(2, usize::MAX - normal form
/// length)` when the target starts or ends with the normal form (longest
/// first); `None` when the name lacks the extension, is a tutorial or bot
/// variant, or matches in no way.
pub open spec fn file_rank(target: Seq<char>, ext: Seq<char>, name: Seq<char>) -> Option<(int, int)> {
    if !has_suffix(name, ext) {
        None
    } else {
        let base = name.subrange(0, name.len() - ext.len());
        let low = unicode_lowercase(base);
        if contains_chars(low, "tutorial"@) || contains_chars(low, "bot"@) {
            None
        } else {
            let norm = norm_file(base);
            if norm == target {
                Some((0, 0))
            } else if contains_chars(norm, target) {
                Some((1, vstd::utf8::encode_utf8(base).len() as int))
            } else if has_prefix(target, norm) || has_suffix(target, norm) {
                Some((2, usize::MAX - norm.len()))
            } else {
                None
            }
        }
    }
}

/// Rank order: by tier, then by the tie-breaker.
pub open spec fn rank_lt(a: (int, int), b: (int, int)) -> bool {
    a.0 < b.0 || (a.0 == b.0 && a.1 < b.1)
}

/// Among the first `n` names, the index of the best-ranked one, the
/// earliest among equals.
pub open spec fn best_file(target: Seq<char>, ext: Seq<char>, names: Seq<Seq<char>>, n: int) -> Option<
    int,
>
    decreases n,
{
    if n <= 0 {
        None
    } else {
        let prev = best_file(target, ext, names, n - 1);
        match file_rank(target, ext, names[n - 1]) {
            None => prev,
            Some(r) => match prev {
                None => Some(n - 1),
                Some(p) => if rank_lt(r, file_rank(target, ext, names[p]).unwrap()) {
                    Some(n - 1)
                } else {
                    Some(p)
                },
            },
        }
    }
}

/// The picked file has the best rank of all the names that rank, and no
/// earlier name ranks as well; when nothing is picked, no name ranks.
pub proof fn law_picked_file_is_best(
    target: Seq<char>,
    ext: Seq<char>,
    names: Seq<Seq<char>>,
    n: int,
)
    requires
        0 <= n <= names.len(),
    ensures
        match best_file(target, ext, names, n) {
            Some(p) => 0 <= p < n && file_rank(target, ext, names[p]) is Some && forall|j: int|
                0 <= j < n && #[trigger] file_rank(target, ext, names[j]) is Some ==> !rank_lt(
                    file_rank(target, ext, names[j]).unwrap(),
                    file_rank(target, ext, names[p]).unwrap(),
                ) && (j < p ==> file_rank(target, ext, names[j]).unwrap() != file_rank(
                    target,
                    ext,
                    names[p],
                ).unwrap()),
            None => forall|j: int| 0 <= j < n ==> #[trigger] file_rank(target, ext, names[j]) is None,
        },
    decreases n,
{
    if n > 0 {
        law_picked_file_is_best(target, ext, names, n - 1);
    }
}

/// The normal form of a file name without its extension.
pub open spec fn base_norm(ext: Seq<char>, name: Seq<char>) -> Seq<char> {
    norm_file(name.subrange(0, name.len() - ext.len()))
}

/// Name `p` is picked by the anchored reverse match and is the most specific
/// such name: no name equals or contains the target (every name that ranks
/// at all is a prefix or suffix match), and no such name has a longer
/// normal form.
pub open spec fn longest_reverse_match(
    target: Seq<char>,
    ext: Seq<char>,
    names: Seq<Seq<char>>,
    p: int,
) -> bool {
    forall|j: int|
        0 <= j < names.len() && #[trigger] file_rank(target, ext, names[j]) is Some ==> (has_prefix(
            target,
            base_norm(ext, names[j]),
        ) || has_suffix(target, base_norm(ext, names[j]))) && base_norm(ext, names[j]) != target
            && !contains_chars(base_norm(ext, names[j]), target) && base_norm(ext, names[j]).len()
            <= base_norm(ext, names[p]).len()
}

/// Law: when the picked file is a reverse match (its normal form is a
/// prefix or suffix of the target), no name matched the target more
/// closely, and among the reverse matches the picked one has the longest
/// normal form.
pub proof fn law_reverse_match_longest(
    target: Seq<char>,
    ext: Seq<char>,
    names: Seq<Seq<char>>,
    n: int,
)
    requires
        0 <= n <= names.len(),
    ensures
        match best_file(target, ext, names, n) {
            Some(p) => match file_rank(target, ext, names[p]) {
                Some(r) => r.0 == 2 ==> longest_reverse_match(target, ext, names.take(n), p),
                None => true,
            },
            None => true,
        },
{
    law_picked_file_is_best(target, ext, names, n);
    if let Some(p) = best_file(target, ext, names, n) {
        if let Some(r) = file_rank(target, ext, names[p]) {
            if r.0 == 2 {
                let tk = names.take(n);
                assert forall|j: int|
                    0 <= j < tk.len() && #[trigger] file_rank(target, ext, tk[j]) is Some implies (
                    has_prefix(target, base_norm(ext, tk[j])) || has_suffix(
                        target,
                        base_norm(ext, tk[j]),
                    )) && base_norm(ext, tk[j]) != target && !contains_chars(
                    base_norm(ext, tk[j]),
                    target,
                ) && base_norm(ext, tk[j]).len() <= base_norm(ext, tk[p]).len() by {
                    assert(tk[j] == names[j]);
                    assert(tk[p] == names[p]);
                    assert(file_rank(target, ext, names[j]) is Some);
                }
            }
        }
    }
}

/// The views of a list of names.
pub open spec fn names_view(names: Seq<String>) -> Seq<Seq<char>> {
    names.map_values(|s: String| s@)
}

/// Picks the client vehicle file for a BlitzKit dev name among the file
/// names of a nation directory (after the exact `dev_name + ext` file was
/// found missing): the best rank, the earliest in `names` among equals;
/// `None` when the dev name normalises to nothing or no name ranks.
pub fn pick_vehicle_file(dev_name: &str, ext: &str, names: &[String]) -> (res: Option<usize>)
    ensures
        norm_file(dev_name@).len() == 0 ==> res is None,
        norm_file(dev_name@).len() > 0 ==> match best_file(
            norm_file(dev_name@),
            ext@,
            names_view(names@),
            names@.len() as int,
        ) {
            Some(p) => res == Some(p as usize),
            None => res is None,
        },
        match res {
            Some(p) => match file_rank(norm_file(dev_name@), ext@, names@[p as int]@) {
                Some(r) => r.0 == 2 ==> longest_reverse_match(
                    norm_file(dev_name@),
                    ext@,
                    names_view(names@),
                    p as int,
                ),
                None => true,
            },
            None => true,
        },
{
    proof {
        if norm_file(dev_name@).len() > 0 {
            law_reverse_match_longest(
                norm_file(dev_name@),
                ext@,
                names_view(names@),
                names@.len() as int,
            );
            law_picked_file_is_best(
                norm_file(dev_name@),
                ext@,
                names_view(names@),
                names@.len() as int,
            );
            assert(names_view(names@).take(names@.len() as int) =~= names_view(names@));
            if let Some(p) = best_file(
                norm_file(dev_name@),
                ext@,
                names_view(names@),
                names@.len() as int,
            ) {
                assert(names_view(names@)[p] == names@[p]@);
            }
        }
    }
    let dv = chars_of(dev_name);
    let target = norm_file_chars(&dv);
    if target.len() == 0 {
        return None;
    }
    let ev = chars_of(ext);
    let tutorial = chars_of("tutorial");
    let bot = chars_of("bot");
    let ghost nv = names_view(names@);
    let mut best: Option<(usize, u8, usize)> = None;
    let mut i: usize = 0;
    while i < names.len()
        invariant
            i <= names@.len(),
            target@ == norm_file(dev_name@),
            target@.len() > 0,
            ev@ == ext@,
            tutorial@ == "tutorial"@,
            bot@ == "bot"@,
            nv == names_view(names@),
            match best_file(target@, ext@, nv, i as int) {
                Some(p) => best matches Some((bi, br, bt)) && bi == p && file_rank(
                    target@,
                    ext@,
                    nv[p],
                ) == Some((br as int, bt as int)),
                None => best is None,
            },
        decreases names@.len() - i,
    {
        let name = names[i].as_str();
        let ghost nm = nv[i as int];
        assert(nm == name@);
        let nvec = chars_of(name);
        let rank: Option<(u8, usize)> = if !ends_with_vec(&nvec, &ev) {
            None
        } else {
            proof {
                lemma_utf8_len_suffix(nm, ext@);
            }
            let blen = nvec.len() - ev.len();
            let base_v = nvec_prefix(&nvec, blen);
            let base_s = string_from_chars(&base_v);
            let low = str_to_lowercase(base_s.as_str());
            let low_v = chars_of(low.as_str());
            if contains_vec(&low_v, &tutorial) || contains_vec(&low_v, &bot) {
                None
            } else {
                let norm = norm_file_chars(&base_v);
                if vec_eq(&norm, &target) {
                    Some((0u8, 0usize))
                } else if contains_vec(&norm, &target) {
                    Some((1u8, name.as_bytes().len() - ext.as_bytes().len()))
                } else if starts_with_chars(target.as_slice(), norm.as_slice()) || ends_with_vec(
                    &target,
                    &norm,
                ) {
                    Some((2u8, usize::MAX - norm.len()))
                } else {
                    None
                }
            }
        };
        assert(match rank {
            None => file_rank(target@, ext@, nm) is None,
            Some((r, t)) => file_rank(target@, ext@, nm) == Some((r as int, t as int)),
        });
        match rank {
            None => {},
            Some((r, t)) => {
                match best {
                    None => {
                        best = Some((i, r, t));
                    },
                    Some((_, br, bt)) => {
                        if r < br || (r == br && t < bt) {
                            best = Some((i, r, t));
                        }
                    },
                }
            },
        }
        i = i + 1;
    }
    match best {
        Some((bi, _, _)) => Some(bi),
        None => None,
    }
}

/// UTF-8 encoding distributes over concatenation.
proof fn lemma_encode_concat(a: Seq<char>, b: Seq<char>)
    ensures
        vstd::utf8::encode_utf8(a + b) == vstd::utf8::encode_utf8(a) + vstd::utf8::encode_utf8(b),
    decreases a.len(),
{
    if a.len() == 0 {
        assert(a + b =~= b);
        assert(vstd::utf8::encode_utf8(a) =~= Seq::<u8>::empty());
        assert(Seq::<u8>::empty() + vstd::utf8::encode_utf8(b) =~= vstd::utf8::encode_utf8(b));
    } else {
        assert((a + b).drop_first() =~= a.drop_first() + b);
        assert((a + b)[0] == a[0]);
        lemma_encode_concat(a.drop_first(), b);
        let e0 = vstd::utf8::encode_scalar(a[0] as u32);
        assert(e0 + (vstd::utf8::encode_utf8(a.drop_first()) + vstd::utf8::encode_utf8(b)) =~= (e0
            + vstd::utf8::encode_utf8(a.drop_first())) + vstd::utf8::encode_utf8(b));
    }
}

/// For a name that ends with `ext`, its byte length minus that of `ext` is
/// the byte length of the part before `ext`.
proof fn lemma_utf8_len_suffix(name: Seq<char>, ext: Seq<char>)
    requires
        has_suffix(name, ext),
    ensures
        vstd::utf8::encode_utf8(name).len() - vstd::utf8::encode_utf8(ext).len()
            == vstd::utf8::encode_utf8(name.subrange(0, name.len() - ext.len())).len(),
{
    let base = name.subrange(0, name.len() - ext.len());
    assert(base + ext =~= name);
    lemma_encode_concat(base, ext);
}

/// The first `n` characters.
pub(crate) fn nvec_prefix(v: &Vec<char>, n: usize) -> (r: Vec<char>)
    requires
        n <= v@.len(),
    ensures
        r@ == v@.subrange(0, n as int),
{
    let mut r: Vec<char> = Vec::new();
    let mut i: usize = 0;
    while i < n
        invariant
            n <= v@.len(),
            i <= n,
            r@ == v@.subrange(0, i as int),
        decreases n - i,
    {
        r.push(v[i]);
        i = i + 1;
        assert(r@ =~= v@.subrange(0, i as int));
    }
    r
}

/// Equality of two character vectors.
fn vec_eq(a: &Vec<char>, b: &Vec<char>) -> (r: bool)
    ensures
        r == (a@ == b@),
{
    if a.len() != b.len() {
        return false;
    }
    let mut i: usize = 0;
    while i < a.len()
        invariant
            a@.len() == b@.len(),
            i <= a@.len(),
            forall|j: int| 0 <= j < i ==> a@[j] == b@[j],
        decreases a@.len() - i,
    {
        if a[i] != b[i] {
            return false;
        }
        i = i + 1;
    }
    assert(a@ =~= b@);
    true
}

/// An ASCII decimal digit.
pub open spec fn is_digit(c: char) -> bool {
    '0' <= c <= '9'
}

/// Every character is a decimal digit.
pub open spec fn all_digits(d: Seq<char>) -> bool {
    forall|i: int| 0 <= i < d.len() ==> is_digit(#[trigger] d[i])
}

/// The value of a string of decimal digits.
pub open spec fn digits_value(s: Seq<char>) -> nat
    decreases s.len(),
{
    if s.len() == 0 {
        0
    } else {
        digits_value(s.drop_last()) * 10 + ((s.last() as u32) - ('0' as u32)) as nat
    }
}

/// What `u32`'s `from_str` gives: an optional `+`, then at least one
/// decimal digit and nothing else, of a value that fits in 32 bits.
pub open spec fn parsed_u32(s: Seq<char>) -> Option<u32> {
    let d = if s.len() > 0 && s[0] == '+' {
        s.drop_first()
    } else {
        s
    };
    if d.len() > 0 && all_digits(d) && digits_value(d) <= u32::MAX {
        Some(digits_value(d) as u32)
    } else {
        None
    }
}

/// Parses an unsigned 32-bit decimal number as `u32`'s `from_str` does.
pub fn parse_u32(s: &[char]) -> (r: Option<u32>)
    ensures
        r == parsed_u32(s@),
{
    let n = s.len();
    let mut i: usize = 0;
    if n > 0 && s[0] == '+' {
        i = 1;
    }
    let ghost d = if s@.len() > 0 && s@[0] == '+' {
        s@.drop_first()
    } else {
        s@
    };
    assert(d =~= s@.subrange(i as int, n as int));
    if i == n {
        return None;
    }
    let mut acc: u64 = 0;
    let start = i;
    while i < n
        invariant
            n == s@.len(),
            start < n,
            start <= i <= n,
            d == s@.subrange(start as int, n as int),
            d == (if s@.len() > 0 && s@[0] == '+' {
                s@.drop_first()
            } else {
                s@
            }),
            forall|k: int| start <= k < i ==> is_digit(#[trigger] s@[k]),
            acc == digits_value(s@.subrange(start as int, i as int)),
            acc <= u32::MAX,
        decreases n - i,
    {
        let c = s[i];
        if !('0' <= c && c <= '9') {
            assert(!is_digit(d[i - start]));
            assert(parsed_u32(s@) is None);
            return None;
        }
        let dv = (c as u32 - '0' as u32) as u64;
        proof {
            let p = s@.subrange(start as int, i + 1);
            assert(p.drop_last() =~= s@.subrange(start as int, i as int));
            assert(p.last() == c);
        }
        acc = acc * 10 + dv;
        i = i + 1;
        if acc > 4294967295 {
            proof {
                lemma_digits_value_prefix(d, (i - start) as int);
                assert(d.subrange(0, i - start) =~= s@.subrange(start as int, i as int));
                assert(parsed_u32(s@) is None);
            }
            return None;
        }
    }
    assert(s@.subrange(start as int, n as int) == d);
    Some(acc as u32)
}

/// A longer digit string has at least the value of its prefix.
proof fn lemma_digits_value_prefix(d: Seq<char>, k: int)
    requires
        0 <= k <= d.len(),
    ensures
        digits_value(d.subrange(0, k)) <= digits_value(d),
    decreases d.len() - k,
{
    if k < d.len() {
        lemma_digits_value_prefix(d, k + 1);
        let p = d.subrange(0, k + 1);
        assert(p.drop_last() =~= d.subrange(0, k));
    } else {
        assert(d.subrange(0, k) =~= d);
    }
}

/// The ids of the files among `names` that are named `<id>.json` with an id
/// that is not in `known`, in the order of `names`.
pub open spec fn orphan_list(names: Seq<Seq<char>>, known: Seq<u32>) -> Seq<u32>
    decreases names.len(),
{
    if names.len() == 0 {
        Seq::empty()
    } else {
        let prev = orphan_list(names.drop_last(), known);
        let nm = names.last();
        if has_suffix(nm, ".json"@) {
            match parsed_u32(nm.subrange(0, nm.len() - 5)) {
                Some(id) => if known.contains(id) {
                    prev
                } else {
                    prev.push(id)
                },
                None => prev,
            }
        } else {
            prev
        }
    }
}

/// Ascending order.
pub open spec fn sorted_u32(s: Seq<u32>) -> bool {
    forall|i: int, j: int| 0 <= i < j < s.len() ==> s[i] <= s[j]
}

/// Inserts `x` into an ascending vector, keeping it ascending.
fn insert_ascending(v: &mut Vec<u32>, x: u32)
    requires
        sorted_u32(old(v)@),
    ensures
        sorted_u32(final(v)@),
        final(v)@.to_multiset() == old(v)@.to_multiset().insert(x),
{
    let mut p: usize = 0;
    while p < v.len() && v[p] <= x
        invariant
            p <= v@.len(),
            forall|k: int| 0 <= k < p ==> v@[k] <= x,
        decreases v@.len() - p,
    {
        p = p + 1;
    }
    let ghost before = v@;
    v.insert(p, x);
    proof {
        assert(v@.remove(p as int) =~= before);
        broadcast use vstd::seq_lib::group_to_multiset_ensures;
        assert(v@[p as int] == x);
        assert(v@.to_multiset().remove(x) == before.to_multiset());
        assert(v@.to_multiset().count(x) > 0);
        assert(v@.to_multiset() =~= before.to_multiset().insert(x));
    }
}

/// The ids of the stored `<id>.json` files whose tank is no longer in the
/// tank database, ascending.
pub fn orphan_game_data_ids(names: &[String], known: &[u32]) -> (r: Vec<u32>)
    ensures
        sorted_u32(r@),
        r@.to_multiset() == orphan_list(names_view(names@), known@).to_multiset(),
{
    let ghost nv = names_view(names@);
    let mut r: Vec<u32> = Vec::new();
    let mut i: usize = 0;
    while i < names.len()
        invariant
            i <= names@.len(),
            nv == names_view(names@),
            sorted_u32(r@),
            r@.to_multiset() == orphan_list(nv.take(i as int), known@).to_multiset(),
        decreases names@.len() - i,
    {
        let v = chars_of(names[i].as_str());
        let ghost nm = nv[i as int];
        assert(nm == v@);
        proof {
            assert(nv.take(i + 1).drop_last() =~= nv.take(i as int));
            assert(nv.take(i + 1).last() == nm);
        }
        let json = chars_of(".json");
        proof {
            reveal_strlit(".json");
        }
        if ends_with_vec(&v, &json) {
            let stem = nvec_prefix(&v, v.len() - 5);
            match parse_u32(stem.as_slice()) {
                Some(id) => {
                    if !contains_u32(known, id) {
                        proof {
                            broadcast use vstd::seq_lib::group_to_multiset_ensures;
                        }
                        insert_ascending(&mut r, id);
                    }
                },
                None => {},
            }
        }
        i = i + 1;
    }
    assert(nv.take(names@.len() as int) =~= nv);
    r
}

/// Whether `x` occurs in `s`.
pub(crate) fn contains_u32(s: &[u32], x: u32) -> (r: bool)
    ensures
        r == s@.contains(x),
{
    let mut i: usize = 0;
    while i < s.len()
        invariant
            i <= s@.len(),
            forall|k: int| 0 <= k < i ==> s@[k] != x,
        decreases s@.len() - i,
    {
        if s[i] == x {
            return true;
        }
        i = i + 1;
    }
    false
}

/// Whether the client was updated after the data was extracted: the
/// modification time of `version.txt.dvpl` (if it could be read) is later
/// than that of every stored data file, of which there is at least one.
/// Times are nanoseconds from the Unix epoch.
pub fn game_dir_newer_than_data(version_time: Option<i128>, data_times: &[i128]) -> (r: bool)
    ensures
        r == (version_time matches Some(vt) && data_times@.len() > 0 && forall|k: int|
            0 <= k < data_times@.len() ==> data_times@[k] < vt),
{
    let vt = match version_time {
        Some(t) => t,
        None => return false,
    };
    if data_times.len() == 0 {
        return false;
    }
    let mut newest: i128 = data_times[0];
    let mut i: usize = 1;
    while i < data_times.len()
        invariant
            1 <= i <= data_times@.len(),
            exists|k: int| 0 <= k < i && data_times@[k] == newest,
            forall|k: int| 0 <= k < i ==> data_times@[k] <= newest,
        decreases data_times@.len() - i,
    {
        if data_times[i] > newest {
            newest = data_times[i];
        }
        i = i + 1;
    }
    vt > newest
}

/// Counters of one extraction run.
pub struct ExtractStats {
    pub extracted: usize,
    pub cached: usize,
    pub skipped_no_name: usize,
    pub missing_files: usize,
    pub parse_failed: usize,
    pub write_failed: usize,
}

impl Default for ExtractStats {
    fn default() -> (r: Self)
        ensures
            r.extracted == 0 && r.cached == 0 && r.skipped_no_name == 0 && r.missing_files == 0
                && r.parse_failed == 0 && r.write_failed == 0,
    {
        ExtractStats {
            extracted: 0,
            cached: 0,
            skipped_no_name: 0,
            missing_files: 0,
            parse_failed: 0,
            write_failed: 0,
        }
    }
}

/// How the extraction of one tank ended.
#[derive(Debug, Clone, Copy, PartialEq, Eq, Structural)]
pub enum ExtractOutcome {
    /// The tank has no dev name or nation.
    NoName,
    /// Its data file exists and no re-extraction was asked for.
    Cached,
    /// Its XML or YAML file was not found.
    MissingFiles,
    /// Neither file could be read.
    ParseFailed,
    /// Its data file was written.
    Extracted,
    /// Writing its data file failed.
    WriteFailed,
}

impl ExtractStats {
    /// The counter of an outcome.
    pub open spec fn count_of(&self, o: ExtractOutcome) -> usize {
        match o {
            ExtractOutcome::NoName => self.skipped_no_name,
            ExtractOutcome::Cached => self.cached,
            ExtractOutcome::MissingFiles => self.missing_files,
            ExtractOutcome::ParseFailed => self.parse_failed,
            ExtractOutcome::Extracted => self.extracted,
            ExtractOutcome::WriteFailed => self.write_failed,
        }
    }

    /// All tanks counted.
    pub open spec fn total(&self) -> int {
        self.skipped_no_name + self.cached + self.missing_files + self.parse_failed + self.extracted
            + self.write_failed
    }

    /// Counts one tank's outcome: its counter goes up by one, the others
    /// stay, so every tank is counted exactly once.
    pub fn record(&mut self, o: ExtractOutcome)
        requires
            old(self).count_of(o) < usize::MAX,
        ensures
            final(self).count_of(o) == old(self).count_of(o) + 1,
            final(self).total() == old(self).total() + 1,
            forall|p: ExtractOutcome| p != o ==> final(self).count_of(p) == old(self).count_of(p),
    {
        match o {
            ExtractOutcome::NoName => self.skipped_no_name = self.skipped_no_name + 1,
            ExtractOutcome::Cached => self.cached = self.cached + 1,
            ExtractOutcome::MissingFiles => self.missing_files = self.missing_files + 1,
            ExtractOutcome::ParseFailed => self.parse_failed = self.parse_failed + 1,
            ExtractOutcome::Extracted => self.extracted = self.extracted + 1,
            ExtractOutcome::WriteFailed => self.write_failed = self.write_failed + 1,
        }
    }
}

/// Where the extraction of one tank stands.
#[derive(Debug, Clone, Copy, PartialEq, Eq, Structural)]
pub enum ExtractStage {
    /// Next: does the tank have a dev name and a nation?
    CheckNames,
    /// Next: may an existing data file be kept (it exists, no force)?
    CheckCached,
    /// Next: were its XML and YAML files found?
    FindFiles,
    /// Next: did either file parse?
    Parse,
    /// Next: was the data file written?
    Write,
    /// The tank is done, with this outcome.
    Done(ExtractOutcome),
}

/// The next stage after the answer to the current stage's question (for
/// `CheckCached`, `true` means the existing file is kept).
pub open spec fn next_stage_spec(s: ExtractStage, answer: bool) -> ExtractStage {
    match s {
        ExtractStage::CheckNames => if answer {
            ExtractStage::CheckCached
        } else {
            ExtractStage::Done(ExtractOutcome::NoName)
        },
        ExtractStage::CheckCached => if answer {
            ExtractStage::Done(ExtractOutcome::Cached)
        } else {
            ExtractStage::FindFiles
        },
        ExtractStage::FindFiles => if answer {
            ExtractStage::Parse
        } else {
            ExtractStage::Done(ExtractOutcome::MissingFiles)
        },
        ExtractStage::Parse => if answer {
            ExtractStage::Write
        } else {
            ExtractStage::Done(ExtractOutcome::ParseFailed)
        },
        ExtractStage::Write => if answer {
            ExtractStage::Done(ExtractOutcome::Extracted)
        } else {
            ExtractStage::Done(ExtractOutcome::WriteFailed)
        },
        ExtractStage::Done(o) => ExtractStage::Done(o),
    }
}

/// One step of a tank's extraction: the stage that follows the answer.
pub fn next_stage(s: ExtractStage, answer: bool) -> (r: ExtractStage)
    ensures
        r == next_stage_spec(s, answer),
{
    match s {
        ExtractStage::CheckNames => if answer {
            ExtractStage::CheckCached
        } else {
            ExtractStage::Done(ExtractOutcome::NoName)
        },
        ExtractStage::CheckCached => if answer {
            ExtractStage::Done(ExtractOutcome::Cached)
        } else {
            ExtractStage::FindFiles
        },
        ExtractStage::FindFiles => if answer {
            ExtractStage::Parse
        } else {
            ExtractStage::Done(ExtractOutcome::MissingFiles)
        },
        ExtractStage::Parse => if answer {
            ExtractStage::Write
        } else {
            ExtractStage::Done(ExtractOutcome::ParseFailed)
        },
        ExtractStage::Write => if answer {
            ExtractStage::Done(ExtractOutcome::Extracted)
        } else {
            ExtractStage::Done(ExtractOutcome::WriteFailed)
        },
        ExtractStage::Done(o) => ExtractStage::Done(o),
    }
}

/// The stage after a sequence of answers.
pub open spec fn stage_after(s: ExtractStage, answers: Seq<bool>) -> ExtractStage
    decreases answers.len(),
{
    if answers.len() == 0 {
        s
    } else {
        next_stage_spec(stage_after(s, answers.drop_last()), answers.last())
    }
}

/// The number of questions still to be answered from a stage.
pub open spec fn stages_left(s: ExtractStage) -> int {
    match s {
        ExtractStage::CheckNames => 5,
        ExtractStage::CheckCached => 4,
        ExtractStage::FindFiles => 3,
        ExtractStage::Parse => 2,
        ExtractStage::Write => 1,
        ExtractStage::Done(_) => 0,
    }
}

proof fn lemma_stage_progress(s: ExtractStage, answers: Seq<bool>)
    ensures
        stages_left(stage_after(s, answers)) <= if stages_left(s) - answers.len() > 0 {
            stages_left(s) - answers.len()
        } else {
            0
        },
        stage_after(s, answers) is Done ==> stage_after(s, answers.push(true)) == stage_after(
            s,
            answers,
        ) && stage_after(s, answers.push(false)) == stage_after(s, answers),
    decreases answers.len(),
{
    if answers.len() > 0 {
        lemma_stage_progress(s, answers.drop_last());
    }
    assert(answers.push(true).drop_last() =~= answers);
    assert(answers.push(false).drop_last() =~= answers);
}

/// Law: whatever the answers, a tank's extraction ends after at most five
/// steps with one outcome, and a finished tank stays finished.
pub proof fn law_every_tank_ends(answers: Seq<bool>)
    requires
        answers.len() >= 5,
    ensures
        stage_after(ExtractStage::CheckNames, answers) is Done,
        forall|a: bool|
            next_stage_spec(stage_after(ExtractStage::CheckNames, answers), a) == stage_after(
                ExtractStage::CheckNames,
                answers,
            ),
{
    lemma_stage_progress(ExtractStage::CheckNames, answers);
}

/// `s` without its leading whitespace.
pub open spec fn trim_start(s: Seq<char>) -> Seq<char>
    decreases s.len(),
{
    if s.len() > 0 && is_white_space(s[0]) {
        trim_start(s.drop_first())
    } else {
        s
    }
}

/// `s` without its trailing whitespace.
pub open spec fn trim_end(s: Seq<char>) -> Seq<char>
    decreases s.len(),
{
    if s.len() > 0 && is_white_space(s.last()) {
        trim_end(s.drop_last())
    } else {
        s
    }
}

/// `s` without leading and trailing whitespace.
pub open spec fn trim(s: Seq<char>) -> Seq<char> {
    trim_end(trim_start(s))
}

/// The first whitespace-separated token of `s`, from position `i` on, that
/// starts with "release/"; `start` is where the token under way began, or
/// -1 between tokens.
pub open spec fn release_token_from(s: Seq<char>, i: int, start: int) -> Option<Seq<char>>
    decreases s.len() - i,
{
    if i >= s.len() {
        if start >= 0 && has_prefix(s.subrange(start, s.len() as int), "release/"@) {
            Some(s.subrange(start, s.len() as int))
        } else {
            None
        }
    } else if is_white_space(s[i]) {
        if start >= 0 && has_prefix(s.subrange(start, i), "release/"@) {
            Some(s.subrange(start, i))
        } else {
            release_token_from(s, i + 1, -1)
        }
    } else {
        release_token_from(s, i + 1, if start >= 0 { start } else { i })
    }
}

/// The client version in the text of `version.txt`: the first token that
/// starts with "release/", else the whole trimmed text; `None` for a text
/// that is blank.
pub open spec fn version_of_text(text: Seq<char>) -> Option<Seq<char>> {
    let t = trim(text);
    if t.len() == 0 {
        None
    } else {
        match release_token_from(t, 0, -1) {
            Some(tok) => Some(tok),
            None => Some(t),
        }
    }
}

/// The trimmed part of `v`, as the positions `(a, b)` it spans.
pub(crate) fn trim_bounds(v: &Vec<char>) -> (r: (usize, usize))
    ensures
        r.0 <= r.1 <= v@.len(),
        v@.subrange(r.0 as int, r.1 as int) == trim(v@),
{
    let n = v.len();
    let mut i: usize = 0;
    assert(v@.subrange(0, n as int) =~= v@);
    while i < n && is_whitespace(v[i])
        invariant
            n == v@.len(),
            i <= n,
            trim_start(v@) == trim_start(v@.subrange(i as int, n as int)),
        decreases n - i,
    {
        proof {
            assert(v@.subrange(i as int, n as int).drop_first() =~= v@.subrange(i + 1, n as int));
        }
        i = i + 1;
    }
    proof {
        if i == n {
            assert(v@.subrange(i as int, n as int) =~= Seq::<char>::empty());
        }
    }
    let mut j: usize = n;
    while j > i && is_whitespace(v[j - 1])
        invariant
            n == v@.len(),
            i <= j <= n,
            trim(v@) == trim_end(v@.subrange(i as int, j as int)),
        decreases j - i,
    {
        proof {
            assert(v@.subrange(i as int, j as int).drop_last() =~= v@.subrange(i as int, j - 1));
        }
        j = j - 1;
    }
    (i, j)
}

/// The client version from the decoded bytes of `version.txt.dvpl`
/// (read as UTF-8 with invalid sequences replaced).
pub fn game_version(data: &[u8]) -> (res: Option<String>)
    ensures
        match version_of_text(utf8_lossy(data@)) {
            Some(t) => res matches Some(r) && r@ == t,
            None => res is None,
        },
{
    let text = string_from_utf8_lossy(data);
    let v = chars_of(text.as_str());
    let (a, b) = trim_bounds(&v);
    if a == b {
        return None;
    }
    let ghost t = v@.subrange(a as int, b as int);
    let release = chars_of("release/");
    let mut start: Option<usize> = None;
    let mut i: usize = a;
    while i < b
        invariant
            a <= i <= b <= v@.len(),
            t == v@.subrange(a as int, b as int),
            t == trim(utf8_lossy(data@)),
            a < b,
            release@ == "release/"@,
            match start {
                Some(st) => a <= st < i,
                None => true,
            },
            release_token_from(t, 0, -1) == release_token_from(
                t,
                i - a,
                match start {
                    Some(st) => st - a,
                    None => -1,
                },
            ),
        decreases b - i,
    {
        let c = v[i];
        assert(t[i - a] == c);
        if is_whitespace(c) {
            if let Some(st) = start {
                let tok = nvec_range(&v, st, i);
                assert(t.subrange(st - a, i - a) =~= tok@);
                if starts_with_chars(tok.as_slice(), release.as_slice()) {
                    assert(release_token_from(t, i - a, st - a) == Some(tok@));
                    return Some(string_from_chars(tok.as_slice()));
                }
            }
            start = None;
        } else {
            if start.is_none() {
                start = Some(i);
            }
        }
        i = i + 1;
    }
    if let Some(st) = start {
        let tok = nvec_range(&v, st, b);
        assert(t.subrange(st - a, b - a) =~= tok@);
        if starts_with_chars(tok.as_slice(), release.as_slice()) {
            return Some(string_from_chars(tok.as_slice()));
        }
    }
    let whole = nvec_range(&v, a, b);
    Some(string_from_chars(whole.as_slice()))
}

/// The characters at positions `a..b`.
pub(crate) fn nvec_range(v: &Vec<char>, a: usize, b: usize) -> (r: Vec<char>)
    requires
        a <= b <= v@.len(),
    ensures
        r@ == v@.subrange(a as int, b as int),
{
    let mut r: Vec<char> = Vec::new();
    let mut i: usize = a;
    while i < b
        invariant
            a <= i <= b <= v@.len(),
            r@ == v@.subrange(a as int, i as int),
        decreases b - i,
    {
        r.push(v[i]);
        i = i + 1;
        assert(r@ =~= v@.subrange(a as int, i as int));
    }
    r
}

} // verus!
