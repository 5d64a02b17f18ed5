//! Size and recency of one project folder, from the entries of its subtree.
use vstd::prelude::*;

verus! {

/// Nanoseconds in one day.
pub const DAY_NANOS: i128 = 86_400_000_000_000;

/// A point in time: whole seconds relative to the Unix epoch (negative before
/// it), plus nanoseconds after that second.
#[derive(Clone, Copy, Debug, PartialEq, Eq, Structural)]
pub struct Stamp {
    pub secs: i64,
    pub nanos: u32,
}

impl Stamp {
    /// The instant in nanoseconds relative to the epoch.
    pub open spec fn instant(self) -> int {
        self.secs * 1_000_000_000 + self.nanos
    }

    /// The instant in nanoseconds relative to the epoch.
    pub fn instant_nanos(&self) -> (r: i128)
        ensures
            r == self.instant(),
    {
        proof {
            lemma_instant_bounds(*self);
        }
        self.secs as i128 * 1_000_000_000 + self.nanos as i128
    }
}

proof fn lemma_instant_bounds(s: Stamp)
    ensures
        -0x1_0000_0000_0000_0000_0000_0000 <= s.instant() <= 0x1_0000_0000_0000_0000_0000_0000,
{
    assert(-0x8000_0000_0000_0000 * 1_000_000_000 <= s.secs * 1_000_000_000
        <= 0x7fff_ffff_ffff_ffff * 1_000_000_000) by (nonlinear_arith)
        requires
            -0x8000_0000_0000_0000 <= s.secs <= 0x7fff_ffff_ffff_ffff,
    ;
}

/// What a walk of a project folder saw at one entry.
#[derive(Clone, Copy, Debug, PartialEq, Eq, Structural)]
pub enum WalkEntry {
    /// The entry or its metadata could not be read.
    Unreadable,
    /// A directory, symbolic link or special file.
    Other,
    /// A regular file of `len` bytes, with its modification time where the
    /// platform reports one.
    File { len: u64, modified: Option<Stamp> },
}

/// The bytes that an entry adds to its project's size.
pub open spec fn entry_size(e: WalkEntry) -> nat {
    match e {
        WalkEntry::File { len, .. } => len as nat,
        _ => 0,
    }
}

/// The modification time that an entry contributes, if any.
pub open spec fn entry_stamp(e: WalkEntry) -> Option<Stamp> {
    match e {
        WalkEntry::File { modified, .. } => modified,
        _ => None,
    }
}

/// The sum of the sizes of the regular files among `s`.
pub open spec fn size_sum(s: Seq<WalkEntry>) -> nat
    decreases s.len(),
{
    if s.len() == 0 {
        0
    } else {
        size_sum(s.drop_last()) + entry_size(s.last())
    }
}

/// The newer of a running maximum and a candidate; on a tie the running
/// maximum stays.
pub open spec fn newer(cur: Option<Stamp>, cand: Option<Stamp>) -> Option<Stamp> {
    match (cur, cand) {
        (Some(c), Some(n)) => if n.instant() > c.instant() {
            Some(n)
        } else {
            Some(c)
        },
        (None, n) => n,
        (c, None) => c,
    }
}

/// The latest modification time among the regular files of `s`, the first
/// one seen among equals; `None` where no file reports one.
pub open spec fn newest_stamp(s: Seq<WalkEntry>) -> Option<Stamp>
    decreases s.len(),
{
    if s.len() == 0 {
        None
    } else {
        newer(newest_stamp(s.drop_last()), entry_stamp(s.last()))
    }
}

/// The running maximum is the latest modification time among the regular
/// files: no file reports a later one, it is one of theirs, and it is absent
/// only where none reports one.
pub proof fn newest_stamp_is_latest(s: Seq<WalkEntry>)
    ensures
        forall|i: int|
            0 <= i < s.len() && (#[trigger] entry_stamp(s[i])) is Some ==> newest_stamp(s) is Some
                && entry_stamp(s[i])->0.instant() <= newest_stamp(s)->0.instant(),
        newest_stamp(s) matches Some(n) ==> exists|i: int|
            0 <= i < s.len() && #[trigger] entry_stamp(s[i]) == Some(n),
    decreases s.len(),
{
    if s.len() > 0 {
        let rest = s.drop_last();
        newest_stamp_is_latest(rest);
        assert forall|i: int|
            0 <= i < s.len() && (#[trigger] entry_stamp(s[i])) is Some implies newest_stamp(s) is Some
                && entry_stamp(s[i])->0.instant() <= newest_stamp(s)->0.instant() by {
            if i < rest.len() {
                assert(s[i] == rest[i]);
            }
        }
        if newest_stamp(s) != newest_stamp(rest) {
            assert(entry_stamp(s[s.len() - 1]) == newest_stamp(s));
        } else if let Some(n) = newest_stamp(rest) {
            let i = choose|i: int| 0 <= i < rest.len() && #[trigger] entry_stamp(rest[i]) == Some(n);
            assert(s[i] == rest[i]);
        }
    }
}

/// Whole days from `then` to `now`, rounded down; 0 where `then` is not
/// before `now`, or absent.
pub open spec fn age_spec(now: Stamp, then: Option<Stamp>) -> nat {
    match then {
        Some(t) => if now.instant() > t.instant() {
            ((now.instant() - t.instant()) / (DAY_NANOS as int)) as nat
        } else {
            0
        },
        None => 0,
    }
}

/// What a walk of one project folder adds up to.
#[derive(Clone, Copy, Debug, PartialEq, Eq, Structural)]
pub struct Tally {
    /// Sum of the sizes of the regular files.
    pub total_size_bytes: u64,
    /// Latest modification time among the regular files, if any reported one.
    pub newest: Option<Stamp>,
}

proof fn lemma_size_sum_prefix(s: Seq<WalkEntry>, i: int)
    requires
        0 <= i <= s.len(),
    ensures
        size_sum(s.take(i)) <= size_sum(s),
    decreases s.len() - i,
{
    if i < s.len() {
        lemma_size_sum_prefix(s, i + 1);
        assert(s.take(i + 1).drop_last() =~= s.take(i));
    } else {
        assert(s.take(i) =~= s);
    }
}

/// Adds up the regular files among `entries`: their total size and their
/// latest modification time. Entries that could not be read and entries that
/// are not regular files count for nothing. `None` exactly where the total
/// does not fit in 64 bits.
pub fn tally_entries(entries: &Vec<WalkEntry>) -> (r: Option<Tally>)
    ensures
        r is None <==> size_sum(entries@) > u64::MAX,
        r matches Some(t) ==> t.total_size_bytes == size_sum(entries@) && t.newest
            == newest_stamp(entries@),
{
    let mut total: u64 = 0;
    let mut newest: Option<Stamp> = None;
    let mut i: usize = 0;
    while i < entries.len()
        invariant
            i <= entries@.len(),
            total == size_sum(entries@.take(i as int)),
            newest == newest_stamp(entries@.take(i as int)),
        decreases entries@.len() - i,
    {
        proof {
            assert(entries@.take(i + 1).drop_last() =~= entries@.take(i as int));
        }
        match entries[i] {
            WalkEntry::File { len, modified } => {
                if len > u64::MAX - total {
                    proof {
                        lemma_size_sum_prefix(entries@, i + 1);
                    }
                    return None;
                }
                total = total + len;
                if let Some(m) = modified {
                    match newest {
                        Some(c) => {
                            if m.instant_nanos() > c.instant_nanos() {
                                newest = Some(m);
                            }
                        },
                        None => {
                            newest = Some(m);
                        },
                    }
                }
            },
            _ => {},
        }
        i = i + 1;
    }
    assert(entries@.take(i as int) =~= entries@);
    Some(Tally { total_size_bytes: total, newest })
}

/// Whole days from `then` to `now`, rounded down; 0 where `then` is absent or
/// not before `now`.
pub fn age_in_days(now: Stamp, then: Option<Stamp>) -> (r: u64)
    ensures
        r == age_spec(now, then),
{
    match then {
        Some(t) => {
            let a = now.instant_nanos();
            let b = t.instant_nanos();
            proof {
                lemma_instant_bounds(now);
                lemma_instant_bounds(t);
            }
            if a > b {
                let d = (a - b) / DAY_NANOS;
                assert(0 <= d <= 0xffff_ffff_ffff_ffffint) by (nonlinear_arith)
                    requires
                        0 < a - b <= 0x2_0000_0000_0000_0000_0000_0000int,
                        d == (a - b) / 86_400_000_000_000,
                ;
                d as u64
            } else {
                0
            }
        },
        None => 0,
    }
}

pub(crate) proof fn lemma_age_fits(now: Stamp, then: Option<Stamp>)
    ensures
        age_spec(now, then) <= u64::MAX,
{
    if let Some(t) = then {
        lemma_instant_bounds(now);
        lemma_instant_bounds(t);
        if now.instant() > t.instant() {
            let x = now.instant() - t.instant();
            assert(x / (DAY_NANOS as int) <= 0xffff_ffff_ffff_ffffint) by (nonlinear_arith)
                requires
                    0 < x <= 0x2_0000_0000_0000_0000_0000_0000int,
            ;
        }
    }
}

/// Ages only grow: the age of a fixed time measured at a later `now` is no
/// smaller than at an earlier one.
pub proof fn age_is_monotone(earlier: Stamp, later: Stamp, then: Option<Stamp>)
    requires
        earlier.instant() <= later.instant(),
    ensures
        age_spec(earlier, then) <= age_spec(later, then),
{
    if let Some(t) = then {
        if earlier.instant() > t.instant() {
            let x = earlier.instant() - t.instant();
            let y = later.instant() - t.instant();
            assert(x / (DAY_NANOS as int) <= y / (DAY_NANOS as int)) by (nonlinear_arith)
                requires
                    0 < x <= y,
            ;
        }
    }
}

} // verus!
