//! Statistics snapshots: the API only returns running totals, so snapshots
//! are taken over time and compared. The store keeps `snapshot_{timestamp}.json`
//! files in one directory.

use vstd::prelude::*;
use vstd::string::StringExecFns;

use crate::game_extract::{ends_with_vec, has_suffix};
use crate::text::{chars_of, decimal, has_prefix, push_char, push_decimal, starts_with_chars};

verus! {

/// A snapshot store rooted at a directory.
pub struct SnapshotStore {
    dir: String,
}

impl SnapshotStore {
    /// The store's directory.
    pub closed spec fn spec_dir(&self) -> Seq<char> {
        self.dir@
    }

    /// A store in `dir`.
    pub fn new(dir: &str) -> (s: SnapshotStore)
        ensures
            s.spec_dir() == dir@,
    {
        SnapshotStore { dir: dir.to_string() }
    }

    /// The store's directory.
    pub fn dir(&self) -> (d: &str)
        ensures
            d@ == self.spec_dir(),
    {
        self.dir.as_str()
    }
}

/// The decimal form of a signed number.
pub open spec fn signed_decimal(i: int) -> Seq<char> {
    if i < 0 {
        seq!['-'] + decimal((-i) as nat)
    } else {
        decimal(i as nat)
    }
}

/// The file name of the snapshot taken at `timestamp` (seconds).
pub fn snapshot_file_name(timestamp: i64) -> (r: String)
    ensures
        r@ == "snapshot_"@ + signed_decimal(timestamp as int) + ".json"@,
{
    let mut r = String::new();
    r.append("snapshot_");
    let ghost head = r@;
    if timestamp < 0 {
        push_char(&mut r, '-');
        let mag: u64 = ((-(timestamp + 1)) as u64) + 1;
        push_decimal(&mut r, mag);
        assert(r@ =~= head + signed_decimal(timestamp as int));
    } else {
        push_decimal(&mut r, timestamp as u64);
        assert(r@ =~= head + signed_decimal(timestamp as int));
    }
    r.append(".json");
    r
}

/// A file of the store: its extension is `json` and its name starts with
/// `snapshot_`.
pub open spec fn is_snapshot_name(name: Seq<char>) -> bool {
    has_suffix(name, ".json"@) && name.len() > 5 && has_prefix(name, "snapshot_"@)
}

/// Whether a file name is one of the store's snapshots.
pub fn is_snapshot_file(name: &str) -> (r: bool)
    ensures
        r == is_snapshot_name(name@),
{
    let v = chars_of(name);
    let json = chars_of(".json");
    let prefix = chars_of("snapshot_");
    v.len() > 5 && ends_with_vec(&v, &json) && starts_with_chars(v.as_slice(), prefix.as_slice())
}

/// The rating-battle running totals of one snapshot.
pub struct RatingTotals {
    pub battles: u32,
    pub wins: u32,
    pub losses: u32,
    pub damage_dealt: u64,
    pub frags: u64,
    pub shots: u64,
    pub hits: u64,
    pub xp: u64,
}

/// The change of the totals between two snapshots.
pub struct TotalsDiff {
    /// Battles played in between (0 if the count went down).
    pub battles_played: u32,
    pub wins_diff: i64,
    pub losses_diff: i64,
    pub damage_diff: i64,
    pub frags_diff: i64,
    pub shots_diff: i64,
    pub hits_diff: i64,
    pub xp_diff: i64,
}

/// `a - b` as a signed 64-bit difference of the two counts taken as signed
/// 64-bit numbers: the true difference modulo 2^64, read in two's
/// complement (it is the true difference whenever that fits).
pub open spec fn signed_diff64(a: u64, b: u64) -> int {
    let m: int = if a >= b {
        a - b
    } else {
        a - b + 0x1_0000_0000_0000_0000
    };
    if m <= i64::MAX {
        m
    } else {
        m - 0x1_0000_0000_0000_0000
    }
}

/// Executable `signed_diff64`.
fn diff64(a: u64, b: u64) -> (r: i64)
    ensures
        r == signed_diff64(a, b),
{
    let m: u64 = if a >= b {
        a - b
    } else {
        (u64::MAX - (b - a)) + 1
    };
    if m <= 0x7fff_ffff_ffff_ffff {
        m as i64
    } else {
        let k: u64 = u64::MAX - m;
        -(k as i64) - 1
    }
}

/// The integer part of the comparison of two snapshots: battles played
/// (saturating at 0) and the signed change of every other total (for the
/// 64-bit totals, taken modulo 2^64 as a signed 64-bit number).
pub fn totals_diff(from: &RatingTotals, to: &RatingTotals) -> (r: TotalsDiff)
    ensures
        r.battles_played == (if to.battles >= from.battles {
            to.battles - from.battles
        } else {
            0
        }),
        r.wins_diff == to.wins - from.wins,
        r.losses_diff == to.losses - from.losses,
        r.damage_diff == signed_diff64(to.damage_dealt, from.damage_dealt),
        r.frags_diff == signed_diff64(to.frags, from.frags),
        r.shots_diff == signed_diff64(to.shots, from.shots),
        r.hits_diff == signed_diff64(to.hits, from.hits),
        r.xp_diff == signed_diff64(to.xp, from.xp),
{
    TotalsDiff {
        battles_played: to.battles.saturating_sub(from.battles),
        wins_diff: to.wins as i64 - from.wins as i64,
        losses_diff: to.losses as i64 - from.losses as i64,
        damage_diff: diff64(to.damage_dealt, from.damage_dealt),
        frags_diff: diff64(to.frags, from.frags),
        shots_diff: diff64(to.shots, from.shots),
        hits_diff: diff64(to.hits, from.hits),
        xp_diff: diff64(to.xp, from.xp),
    }
}

} // verus!
