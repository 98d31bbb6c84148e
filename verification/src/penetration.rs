//! The discrete rules of the shell penetration model: armour classes, shell
//! classes and which ray hits take part in a shot. (The angle and thickness
//! arithmetic itself is floating point and lives outside the library.)

use vstd::prelude::*;

use crate::text::{ascii_lower, chars_of, has_prefix, starts_with_chars, to_ascii_lower};

verus! {

/// Armour classes: primary (hull, turret, gun mantlet), spaced, and the
/// external modules (tracks, gun barrel).
#[derive(Debug, Clone, Copy, PartialEq, Eq, Structural)]
pub enum ArmorSection {
    Hull,
    Turret,
    Gun,
    Spaced,
    Chassis,
    GunBarrel,
}

/// Shell classes.
#[derive(Debug, Clone, Copy, PartialEq, Eq, Structural)]
pub enum ShellType {
    AP,
    APCR,
    HE,
    HEAT,
}

impl ShellType {
    /// Kinetic shells (AP, APCR).
    pub fn is_kinetic(&self) -> (r: bool)
        ensures
            r == (*self is AP || *self is APCR),
    {
        matches!(self, ShellType::AP | ShellType::APCR)
    }

    /// Shells that splash (HE only).
    pub fn is_explosive(&self) -> (r: bool)
        ensures
            r == (*self is HE),
    {
        matches!(self, ShellType::HE)
    }

    /// Shells that never ricochet (HEAT and HE).
    pub fn is_explosive_type(&self) -> (r: bool)
        ensures
            r == (*self is HEAT || *self is HE),
    {
        matches!(self, ShellType::HEAT | ShellType::HE)
    }

    /// Parses a shell type name, as `tanks.pb` writes it or normalised,
    /// ignoring case: `ap`, `ap_premium` = AP; `apcr` and every `ap_cr…`
    /// = APCR; `he`, `he_premium` = HE; `heat`, `hc`, `hc_premium` = HEAT;
    /// anything else = HE.
    pub fn from_str(s: &str) -> (t: ShellType)
        ensures
            t == shell_type_of(s@.map_values(|c: char| ascii_lower(c))),
            names_class(s@.map_values(|c: char| ascii_lower(c)), t),
    {
        proof {
            law_shell_names(s@.map_values(|c: char| ascii_lower(c)));
        }
        let v = chars_of(s);
        let mut l: Vec<char> = Vec::new();
        let mut i: usize = 0;
        while i < v.len()
            invariant
                v@ == s@,
                i <= v@.len(),
                l@ == v@.take(i as int).map_values(|c: char| ascii_lower(c)),
            decreases v@.len() - i,
        {
            l.push(to_ascii_lower(v[i]));
            i = i + 1;
            assert(l@ =~= v@.take(i as int).map_values(|c: char| ascii_lower(c)));
        }
        assert(v@.take(v@.len() as int) =~= v@);
        if chars_eq(&l, "ap") || chars_eq(&l, "ap_premium") {
            ShellType::AP
        } else if chars_eq(&l, "apcr") || starts_with_chars(l.as_slice(), chars_of("ap_cr").as_slice()) {
            ShellType::APCR
        } else if chars_eq(&l, "he") || chars_eq(&l, "he_premium") {
            ShellType::HE
        } else if chars_eq(&l, "heat") || chars_eq(&l, "hc") || chars_eq(&l, "hc_premium") {
            ShellType::HEAT
        } else {
            ShellType::HE
        }
    }
}

/// The shell class named by an already lowercased name.
pub open spec fn shell_type_of(l: Seq<char>) -> ShellType {
    if l == "ap"@ || l == "ap_premium"@ {
        ShellType::AP
    } else if l == "apcr"@ || has_prefix(l, "ap_cr"@) {
        ShellType::APCR
    } else if l == "he"@ || l == "he_premium"@ {
        ShellType::HE
    } else if l == "heat"@ || l == "hc"@ || l == "hc_premium"@ {
        ShellType::HEAT
    } else {
        ShellType::HE
    }
}

/// The class that `tanks.pb`'s shell names (already lowercased) stand for:
/// `heat`, `hc`, `hc_premium` are HEAT; `ap`, `ap_premium` are AP; `apcr`
/// and every name that starts with `ap_cr` are APCR; `he`, `he_premium`
/// are HE.
pub open spec fn names_class(l: Seq<char>, t: ShellType) -> bool {
    &&& (l == "heat"@ || l == "hc"@ || l == "hc_premium"@) ==> t == ShellType::HEAT
    &&& (l == "ap"@ || l == "ap_premium"@) ==> t == ShellType::AP
    &&& (l == "apcr"@ || (l.len() >= 5 && l[0] == 'a' && l[1] == 'p' && l[2] == '_' && l[3] == 'c'
        && l[4] == 'r')) ==> t == ShellType::APCR
    &&& (l == "he"@ || l == "he_premium"@) ==> t == ShellType::HE
}

/// Law: each shell name of `tanks.pb`, lowercased, is classified as the
/// class it names.
pub proof fn law_shell_names(l: Seq<char>)
    ensures
        names_class(l, shell_type_of(l)),
{
    reveal_strlit("heat");
    reveal_strlit("hc");
    reveal_strlit("hc_premium");
    reveal_strlit("ap");
    reveal_strlit("ap_premium");
    reveal_strlit("apcr");
    reveal_strlit("ap_cr");
    reveal_strlit("he");
    reveal_strlit("he_premium");
    if l.len() >= 5 && l[0] == 'a' && l[1] == 'p' && l[2] == '_' && l[3] == 'c' && l[4] == 'r' {
        assert(l.subrange(0, 5) =~= "ap_cr"@);
    }
    if l.len() >= 5 {
        assert(l.subrange(0, 5)[0] == l[0]);
        assert(l.subrange(0, 5)[1] == l[1]);
        assert(l.subrange(0, 5)[2] == l[2]);
    }
    if l == "heat"@ || l == "hc"@ || l == "hc_premium"@ || l == "he"@ || l == "he_premium"@ {
        assert(l[0] == 'h');
        assert(!has_prefix(l, "ap_cr"@));
        assert(l != "apcr"@ && l != "ap"@ && l != "ap_premium"@);
    }
    if l == "ap"@ {
        assert(l.len() == 2);
        assert(!has_prefix(l, "ap_cr"@));
    }
    if l == "ap_premium"@ {
        assert("ap_premium"@[3] == 'p');
        assert("ap_cr"@[3] == 'c');
        assert(l.subrange(0, 5)[3] == l[3]);
        assert(!has_prefix(l, "ap_cr"@));
    }
    if l == "heat"@ || l == "hc"@ || l == "hc_premium"@ {
        assert("he"@.len() == 2 && "heat"@.len() == 4);
        assert("hc"@[1] == 'c' && "he"@[1] == 'e');
        assert("hc_premium"@[1] == 'c' && "he_premium"@[1] == 'e' && "heat"@[1] == 'e');
        assert(l != "he"@ && l != "he_premium"@);
    }
}

/// These characters spell `lit`.
fn chars_eq(a: &Vec<char>, lit: &str) -> (r: bool)
    ensures
        r == (a@ == lit@),
{
    let b = chars_of(lit);
    if a.len() != b.len() {
        return false;
    }
    let mut i: usize = 0;
    while i < a.len()
        invariant
            b@ == lit@,
            a@.len() == b@.len(),
            i <= a@.len(),
            forall|j: int| 0 <= j < i ==> a@[j] == b@[j],
        decreases a@.len() - i,
    {
        if a[i] != b[i] {
            return false;
        }
        i = i + 1;
    }
    assert(a@ =~= b@);
    true
}

/// External modules: flat thickness, no angle, no normalisation, no ricochet.
pub open spec fn section_is_module(s: ArmorSection) -> bool {
    s is Chassis || s is GunBarrel
}

/// Primary armour: collecting hits stops right after it.
pub open spec fn section_is_primary(s: ArmorSection) -> bool {
    s is Hull || s is Turret || s is Gun
}

impl ArmorSection {
    /// External module (tracks, gun barrel).
    pub fn is_module(&self) -> (r: bool)
        ensures
            r == section_is_module(*self),
    {
        matches!(self, ArmorSection::Chassis | ArmorSection::GunBarrel)
    }

    /// Primary armour (hull, turret, gun mantlet).
    pub fn is_primary(&self) -> (r: bool)
        ensures
            r == section_is_primary(*self),
    {
        matches!(self, ArmorSection::Hull | ArmorSection::Turret | ArmorSection::Gun)
    }

    /// The variant by which external modules are deduplicated: `track` for
    /// tracks, `gun` for the barrel; none for other armour.
    pub fn module_variant(&self) -> (v: Option<&'static str>)
        ensures
            *self is Chassis ==> v == Some("track"),
            *self is GunBarrel ==> v == Some("gun"),
            !section_is_module(*self) ==> v is None,
    {
        match self {
            ArmorSection::Chassis => Some("track"),
            ArmorSection::GunBarrel => Some("gun"),
            _ => None,
        }
    }
}

/// The hits from `i` on that take part in the shot, given whether a track
/// hit and a barrel hit were already taken: an external module counts once
/// per variant; any other hit counts, and the first primary hit is the last
/// one taken.
pub open spec fn collected_from(
    secs: Seq<ArmorSection>,
    i: int,
    seen_track: bool,
    seen_gun: bool,
) -> Seq<int>
    decreases secs.len() - i,
{
    if i < 0 || i >= secs.len() {
        Seq::empty()
    } else {
        let s = secs[i];
        if s is Chassis {
            if seen_track {
                collected_from(secs, i + 1, seen_track, seen_gun)
            } else {
                seq![i] + collected_from(secs, i + 1, true, seen_gun)
            }
        } else if s is GunBarrel {
            if seen_gun {
                collected_from(secs, i + 1, seen_track, seen_gun)
            } else {
                seq![i] + collected_from(secs, i + 1, seen_track, true)
            }
        } else if section_is_primary(s) {
            seq![i]
        } else {
            seq![i] + collected_from(secs, i + 1, seen_track, seen_gun)
        }
    }
}

/// Indices of the hits, in ray order, that the shot goes through.
pub open spec fn collected_hits(secs: Seq<ArmorSection>) -> Seq<int> {
    collected_from(secs, 0, false, false)
}

/// Chooses, in ray order, the hits that take part in a shot: external
/// modules once per variant, every spaced plate, up to and including the
/// first primary plate; nothing after it.
pub fn collect_hits(sections: &[ArmorSection]) -> (idx: Vec<usize>)
    ensures
        idx@.map_values(|i: usize| i as int) == collected_hits(sections@),
{
    let mut idx: Vec<usize> = Vec::new();
    let mut seen_track = false;
    let mut seen_gun = false;
    let mut i: usize = 0;
    while i < sections.len()
        invariant_except_break
            idx@.map_values(|k: usize| k as int) + collected_from(sections@, i as int, seen_track, seen_gun)
                == collected_hits(sections@),
        invariant
            i <= sections@.len(),
        ensures
            idx@.map_values(|k: usize| k as int) == collected_hits(sections@),
        decreases sections@.len() - i,
    {
        let ghost before = idx@.map_values(|k: usize| k as int);
        let s = sections[i];
        match s {
            ArmorSection::Chassis => {
                if !seen_track {
                    seen_track = true;
                    idx.push(i);
                }
            },
            ArmorSection::GunBarrel => {
                if !seen_gun {
                    seen_gun = true;
                    idx.push(i);
                }
            },
            _ => {
                idx.push(i);
                if s.is_primary() {
                    assert(idx@.map_values(|k: usize| k as int) =~= before.push(i as int));
                    assert(before + seq![i as int] =~= before.push(i as int));
                    break;
                }
            },
        }
        proof {
            let now = idx@.map_values(|k: usize| k as int);
            if now.len() > before.len() {
                assert(now =~= before.push(i as int));
            } else {
                assert(now =~= before);
            }
            assert(before + (seq![i as int] + collected_from(sections@, i + 1, seen_track, seen_gun))
                =~= before.push(i as int) + collected_from(sections@, i + 1, seen_track, seen_gun));
        }
        i = i + 1;
    }
    proof {
        let now = idx@.map_values(|k: usize| k as int);
        if i >= sections.len() {
            assert(now + Seq::<int>::empty() =~= now);
        }
    }
    idx
}

/// The collected hits are in increasing ray order and lie within the ray.
pub proof fn lemma_collected_from_ordered(
    secs: Seq<ArmorSection>,
    i: int,
    seen_track: bool,
    seen_gun: bool,
)
    requires
        0 <= i,
    ensures
        ({
            let c = collected_from(secs, i, seen_track, seen_gun);
            &&& forall|a: int, b: int| 0 <= a < b < c.len() ==> c[a] < c[b]
            &&& forall|a: int| 0 <= a < c.len() ==> i <= #[trigger] c[a] < secs.len()
        }),
    decreases secs.len() - i,
{
    if i < secs.len() {
        lemma_collected_from_ordered(secs, i + 1, seen_track, seen_gun);
        lemma_collected_from_ordered(secs, i + 1, true, seen_gun);
        lemma_collected_from_ordered(secs, i + 1, seen_track, true);
        lemma_cons_ordered(i, collected_from(secs, i + 1, seen_track, seen_gun), secs.len() as int);
        lemma_cons_ordered(i, collected_from(secs, i + 1, true, seen_gun), secs.len() as int);
        lemma_cons_ordered(i, collected_from(secs, i + 1, seen_track, true), secs.len() as int);
        lemma_cons_ordered(i, Seq::empty(), secs.len() as int);
        assert(seq![i] =~= seq![i] + Seq::<int>::empty());
    }
}

proof fn lemma_cons_ordered(i: int, rest: Seq<int>, n: int)
    requires
        i < n,
        forall|a: int, b: int| 0 <= a < b < rest.len() ==> rest[a] < rest[b],
        forall|a: int| 0 <= a < rest.len() ==> i + 1 <= #[trigger] rest[a] < n,
    ensures
        ({
            let c = seq![i] + rest;
            &&& forall|a: int, b: int| 0 <= a < b < c.len() ==> c[a] < c[b]
            &&& forall|a: int| 0 <= a < c.len() ==> i <= #[trigger] c[a] < n
        }),
{
    let c = seq![i] + rest;
    assert forall|a: int, b: int| 0 <= a < b < c.len() implies c[a] < c[b] by {
        if a == 0 {
            assert(c[b] == rest[b - 1]);
        } else {
            assert(c[a] == rest[a - 1]);
            assert(c[b] == rest[b - 1]);
        }
    }
    assert forall|a: int| 0 <= a < c.len() implies i <= #[trigger] c[a] < n by {
        if a > 0 {
            assert(c[a] == rest[a - 1]);
        }
    }
}

/// Only the last collected hit can be primary, and an external-module
/// variant that was already taken is not taken again.
pub proof fn lemma_collected_from_shape(
    secs: Seq<ArmorSection>,
    i: int,
    seen_track: bool,
    seen_gun: bool,
)
    requires
        0 <= i,
    ensures
        ({
            let c = collected_from(secs, i, seen_track, seen_gun);
            &&& forall|a: int| 0 <= a < c.len() - 1 ==> !section_is_primary(#[trigger] secs[c[a]])
            &&& seen_track ==> forall|a: int| 0 <= a < c.len() ==> !(#[trigger] secs[c[a]] is Chassis)
            &&& seen_gun ==> forall|a: int| 0 <= a < c.len() ==> !(#[trigger] secs[c[a]] is GunBarrel)
            &&& forall|a: int, b: int|
                0 <= a < b < c.len() && secs[c[a]] is Chassis ==> !(secs[c[b]] is Chassis)
            &&& forall|a: int, b: int|
                0 <= a < b < c.len() && secs[c[a]] is GunBarrel ==> !(secs[c[b]] is GunBarrel)
        }),
    decreases secs.len() - i,
{
    if i < secs.len() {
        lemma_collected_from_shape(secs, i + 1, seen_track, seen_gun);
        lemma_collected_from_shape(secs, i + 1, true, seen_gun);
        lemma_collected_from_shape(secs, i + 1, seen_track, true);
    }
}

/// Law of the hit collection: the hits taken are in ray order, at most one
/// is primary and it is the last, and each external-module variant (tracks,
/// barrel) is taken at most once.
pub proof fn law_collected_hits(secs: Seq<ArmorSection>)
    ensures
        ({
            let c = collected_hits(secs);
            &&& forall|a: int, b: int| 0 <= a < b < c.len() ==> c[a] < c[b]
            &&& forall|a: int| 0 <= a < c.len() ==> 0 <= #[trigger] c[a] < secs.len()
            &&& forall|a: int| 0 <= a < c.len() - 1 ==> !section_is_primary(#[trigger] secs[c[a]])
            &&& forall|a: int, b: int|
                0 <= a < b < c.len() && secs[c[a]] is Chassis ==> !(secs[c[b]] is Chassis)
            &&& forall|a: int, b: int|
                0 <= a < b < c.len() && secs[c[a]] is GunBarrel ==> !(secs[c[b]] is GunBarrel)
        }),
{
    lemma_collected_from_ordered(secs, 0, false, false);
    lemma_collected_from_shape(secs, 0, false, false);
}

} // verus!
