//! Tank name normalisation for fuzzy lookups, and the armour summary of a
//! tank (front / side / rear thickness, mm).

use vstd::prelude::*;

use crate::text::{
    chars_of, is_white_space, is_whitespace, str_to_lowercase, string_from_chars,
    unicode_lowercase,
};

verus! {

/// Armour summary (mm) for the information panel.
#[derive(Debug, Clone, Copy)]
pub struct ArmorData {
    pub turret_front: u32,
    pub turret_sides: u32,
    pub turret_rear: u32,
    pub hull_front: u32,
    pub hull_sides: u32,
    pub hull_rear: u32,
}

/// A separator that name matching treats as a space: `-`, `·`, `.`, `_`.
pub open spec fn name_separator(c: char) -> bool {
    c == '-' || c == '·' || c == '.' || c == '_'
}

/// Separators replaced by spaces.
pub open spec fn separators_to_spaces(s: Seq<char>) -> Seq<char> {
    s.map_values(|c: char| if name_separator(c) { ' ' } else { c })
}

/// Normalises a tank name: separators become spaces, then lowercase, so that
/// "E 100" and "E-100", "IS-7" and "IS 7" meet.
pub fn norm_name(s: &str) -> (r: String)
    ensures
        r@ == unicode_lowercase(separators_to_spaces(s@)),
        forall|t: Seq<char>| #[trigger] spaced_form(s@, t) ==> r@ == unicode_lowercase(t),
{
    proof {
        assert forall|t: Seq<char>| #[trigger] spaced_form(s@, t) implies separators_to_spaces(s@) == t by {
            law_separators_become_spaces(s@, t);
        }
    }
    let v = chars_of(s);
    let mut m: Vec<char> = Vec::new();
    let mut i: usize = 0;
    while i < v.len()
        invariant
            v@ == s@,
            i <= v@.len(),
            m@ == separators_to_spaces(v@.take(i as int)),
        decreases v@.len() - i,
    {
        let c = v[i];
        if c == '-' || c == '·' || c == '.' || c == '_' {
            m.push(' ');
        } else {
            m.push(c);
        }
        i = i + 1;
        assert(m@ =~= separators_to_spaces(v@.take(i as int)));
    }
    assert(v@.take(v@.len() as int) =~= v@);
    let spaced = string_from_chars(&m);
    str_to_lowercase(spaced.as_str())
}

/// `t` is `s` with every `-`, `·`, `.` and `_` written as a space.
pub open spec fn spaced_form(s: Seq<char>, t: Seq<char>) -> bool {
    &&& t.len() == s.len()
    &&& forall|i: int|
        0 <= i < s.len() ==> #[trigger] t[i] == (if s[i] == '-' || s[i] == '·' || s[i] == '.' || s[i]
            == '_' {
            ' '
        } else {
            s[i]
        })
}

/// Law: normalising a name is lowercasing it with every `-`, `·`, `.` and
/// `_` written as a space, so a name meets the same name written with
/// spaces ("Pz.Kpfw. IV" meets "Pz Kpfw  IV", "IS-7" meets "IS 7"), in the
/// name index too.
pub proof fn law_separators_become_spaces(s: Seq<char>, t: Seq<char>)
    requires
        spaced_form(s, t),
    ensures
        separators_to_spaces(s) == t,
        unicode_lowercase(separators_to_spaces(s)) == unicode_lowercase(separators_to_spaces(t)),
        forall|id: u32| #[trigger] index_entry(s, id) == index_entry(t, id),
{
    assert(separators_to_spaces(s) =~= t);
    assert(separators_to_spaces(t) =~= t) by {
        assert forall|i: int| 0 <= i < t.len() implies !name_separator(t[i]) by {
            assert(t[i] == (if s[i] == '-' || s[i] == '·' || s[i] == '.' || s[i] == '_' {
                ' '
            } else {
                s[i]
            }));
        }
    }
}

/// `s` without its whitespace characters.
pub open spec fn without_white_space(s: Seq<char>) -> Seq<char> {
    s.filter(|c: char| !is_white_space(c))
}

/// Removes all whitespace: "ho ri" meets "hori", "e 100" meets "e100".
pub fn strip_ws(s: &str) -> (r: String)
    ensures
        r@ == without_white_space(s@),
{
    let v = chars_of(s);
    let mut m: Vec<char> = Vec::new();
    let mut i: usize = 0;
    while i < v.len()
        invariant
            v@ == s@,
            i <= v@.len(),
            m@ == without_white_space(v@.take(i as int)),
        decreases v@.len() - i,
    {
        let c = v[i];
        proof {
            reveal_with_fuel(Seq::filter, 1);
            assert(v@.take(i + 1).drop_last() =~= v@.take(i as int));
        }
        if !is_whitespace(c) {
            m.push(c);
        }
        i = i + 1;
    }
    assert(v@.take(v@.len() as int) =~= v@);
    string_from_chars(&m)
}

/// Names that differ only in using separators where the other has spaces
/// (or other separators) normalise to the same name.
pub proof fn law_norm_name_ignores_separators(a: Seq<char>, b: Seq<char>)
    requires
        a.len() == b.len(),
        forall|i: int|
            0 <= i < a.len() ==> (#[trigger] a[i] == b[i] || ((name_separator(a[i]) || a[i] == ' ')
                && (name_separator(b[i]) || b[i] == ' '))),
    ensures
        unicode_lowercase(separators_to_spaces(a)) == unicode_lowercase(separators_to_spaces(b)),
{
    assert(separators_to_spaces(a) =~= separators_to_spaces(b));
}

/// One entry of the name index: the normalised name, the same without
/// whitespace, and the tank id.
pub struct NameIndexEntry {
    pub norm: String,
    pub norm_ns: String,
    pub id: u32,
}

/// The entry that the index holds for a tank named `name`.
pub open spec fn index_entry(name: Seq<char>, id: u32) -> (Seq<char>, Seq<char>, u32) {
    let norm = unicode_lowercase(separators_to_spaces(name));
    (norm, without_white_space(norm), id)
}

/// Normalised tank names, for fuzzy lookups, in the order the tanks were
/// added.
pub struct NameIndex {
    entries: Vec<NameIndexEntry>,
}

/// The views of index entries.
pub open spec fn entry_views(v: Seq<NameIndexEntry>) -> Seq<(Seq<char>, Seq<char>, u32)> {
    v.map_values(|e: NameIndexEntry| (e.norm@, e.norm_ns@, e.id))
}

/// No tank id has two entries.
pub open spec fn ids_unique(s: Seq<(Seq<char>, Seq<char>, u32)>) -> bool {
    forall|a: int, b: int| 0 <= a < b < s.len() ==> s[a].2 != s[b].2
}

impl View for NameIndex {
    type V = Seq<(Seq<char>, Seq<char>, u32)>;

    closed spec fn view(&self) -> Self::V {
        entry_views(self.entries@)
    }
}

impl NameIndex {
    /// An empty index.
    pub fn new() -> (r: NameIndex)
        ensures
            r@ == Seq::<(Seq<char>, Seq<char>, u32)>::empty(),
            ids_unique(r@),
    {
        let r = NameIndex { entries: Vec::new() };
        assert(r@ =~= Seq::<(Seq<char>, Seq<char>, u32)>::empty());
        r
    }

    /// Adds the entry of a tank named `name`, in place of any entry the
    /// tank had, so that the index stays in step with the tanks' current
    /// names.
    pub fn add(&mut self, tank_id: u32, name: &str)
        ensures
            final(self)@ == old(self)@.filter(|e: (Seq<char>, Seq<char>, u32)| e.2 != tank_id).push(
                index_entry(name@, tank_id),
            ),
            ids_unique(old(self)@) ==> ids_unique(final(self)@),
    {
        let ghost before = self@;
        let mut kept: Vec<NameIndexEntry> = Vec::new();
        let mut k: usize = 0;
        while k < self.entries.len()
            invariant
                k <= self.entries@.len(),
                before == self@,
                entry_views(kept@) == before.take(k as int).filter(
                    |e: (Seq<char>, Seq<char>, u32)| e.2 != tank_id,
                ),
                forall|m: int|
                    0 <= m < kept@.len() ==> kept@[m].id != tank_id && exists|j: int|
                        0 <= j < k && #[trigger] before[j].2 == kept@[m].id,
                ids_unique(before) ==> ids_unique(entry_views(kept@)),
            decreases self.entries@.len() - k,
        {
            let e = &self.entries[k];
            let ghost ev = before[k as int];
            assert(ev == (e.norm@, e.norm_ns@, e.id));
            proof {
                assert(before.take(k + 1).drop_last() =~= before.take(k as int));
                assert(before.take(k + 1).last() == ev);
                reveal_with_fuel(Seq::filter, 1);
            }
            if e.id != tank_id {
                let ghost old_kept = entry_views(kept@);
                kept.push(NameIndexEntry { norm: e.norm.clone(), norm_ns: e.norm_ns.clone(), id: e.id });
                assert(entry_views(kept@) =~= old_kept.push(ev));
                assert forall|m: int| 0 <= m < kept@.len() implies kept@[m].id != tank_id && exists|j: int|
                    0 <= j < k + 1 && #[trigger] before[j].2 == kept@[m].id by {
                    if m == kept@.len() - 1 {
                        assert(before[k as int].2 == kept@[m].id);
                    } else {
                        let j = choose|j: int| 0 <= j < k && #[trigger] before[j].2 == kept@[m].id;
                        assert(before[j].2 == kept@[m].id);
                    }
                }
                proof {
                    if ids_unique(before) {
                        assert forall|a: int, b: int|
                            0 <= a < b < entry_views(kept@).len() implies entry_views(kept@)[a].2
                            != entry_views(kept@)[b].2 by {
                            if b == kept@.len() - 1 {
                                let j = choose|j: int| 0 <= j < k && #[trigger] before[j].2 == kept@[a].id;
                                assert(before[j].2 != before[k as int].2);
                            }
                        }
                    }
                }
            }
            k = k + 1;
        }
        assert(before.take(before.len() as int) =~= before);
        let norm = norm_name(name);
        let norm_ns = strip_ws(norm.as_str());
        let ghost kv = entry_views(kept@);
        kept.push(NameIndexEntry { norm, norm_ns, id: tank_id });
        assert(entry_views(kept@) =~= kv.push(index_entry(name@, tank_id)));
        self.entries = kept;
        assert(self@ == entry_views(self.entries@));
    }

    /// The number of entries.
    pub fn len(&self) -> (r: usize)
        ensures
            r == self@.len(),
    {
        self.entries.len()
    }

    /// The entry at `i`.
    pub fn get(&self, i: usize) -> (r: &NameIndexEntry)
        requires
            i < self@.len(),
        ensures
            (r.norm@, r.norm_ns@, r.id) == self@[i as int],
    {
        &self.entries[i]
    }
}

/// After a tank is added, its only entry is the one built from the name it
/// was just added with.
pub proof fn law_index_one_entry_per_tank(
    entries: Seq<(Seq<char>, Seq<char>, u32)>,
    tank_id: u32,
    name: Seq<char>,
)
    ensures
        ({
            let after = entries.filter(|e: (Seq<char>, Seq<char>, u32)| e.2 != tank_id).push(
                index_entry(name, tank_id),
            );
            &&& after.last() == index_entry(name, tank_id)
            &&& forall|i: int| 0 <= i < after.len() - 1 ==> #[trigger] after[i].2 != tank_id
        }),
{
    let pred = |e: (Seq<char>, Seq<char>, u32)| e.2 != tank_id;
    let kept = entries.filter(pred);
    broadcast use vstd::seq_lib::group_filter_ensures;
    let after = kept.push(index_entry(name, tank_id));
    assert forall|i: int| 0 <= i < after.len() - 1 implies #[trigger] after[i].2 != tank_id by {
        assert(after[i] == kept[i]);
        assert(pred(kept[i]));
    }
}

} // verus!
