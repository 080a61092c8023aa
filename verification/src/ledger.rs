//! The durable keyed store: one record per participant, with a zero-value
//! default for participants never written, modelled as a sequence of
//! uniquely-keyed entries.

use vstd::prelude::*;

verus! {

/// Everything the vault records about one participant.
///
/// Absent participants are indistinguishable from the zero record: entries
/// come into being lazily on the first write and are never removed, so claim
/// history survives for as long as the vault does.
#[derive(Clone, Copy, Debug, PartialEq, Eq, Structural)]
pub struct ParticipantRecord {
    /// Total of the deposit asset this participant has paid in.
    pub deposited: u128,
    /// Entitlement to the reward asset, derived from the deposits.
    pub allocated: u128,
    /// Whether the entitlement has been released.
    pub claimed: bool,
}

/// The record a participant has before their first deposit.
pub open spec fn zero_record() -> ParticipantRecord {
    ParticipantRecord { deposited: 0, allocated: 0, claimed: false }
}

/// The record a sequence of entries holds for `p`: the first entry keyed by
/// `p`, or the zero record when there is none.
pub(crate) open spec fn seq_get(s: Seq<(u64, ParticipantRecord)>, p: u64) -> ParticipantRecord
    decreases s.len(),
{
    if s.len() == 0 {
        zero_record()
    } else if s[0].0 == p {
        s[0].1
    } else {
        seq_get(s.drop_first(), p)
    }
}

/// The sum of all deposited amounts a sequence of entries records.
pub(crate) open spec fn sum_deposited(s: Seq<(u64, ParticipantRecord)>) -> int
    decreases s.len(),
{
    if s.len() == 0 {
        0
    } else {
        s[0].1.deposited + sum_deposited(s.drop_first())
    }
}

/// No two entries share a key.
pub(crate) open spec fn unique_keys(s: Seq<(u64, ParticipantRecord)>) -> bool {
    forall|i: int, j: int|
        0 <= i < j < s.len() ==> (#[trigger] s[i].0) != (#[trigger] s[j].0)
}

pub(crate) proof fn lemma_sum_nonneg(s: Seq<(u64, ParticipantRecord)>)
    ensures
        sum_deposited(s) >= 0,
    decreases s.len(),
{
    if s.len() > 0 {
        lemma_sum_nonneg(s.drop_first());
    }
}

/// One participant's recorded deposit never exceeds the recorded sum.
pub(crate) proof fn lemma_get_le_sum(s: Seq<(u64, ParticipantRecord)>, p: u64)
    ensures
        seq_get(s, p).deposited <= sum_deposited(s),
    decreases s.len(),
{
    if s.len() == 0 {
    } else if s[0].0 == p {
        lemma_sum_nonneg(s.drop_first());
    } else {
        lemma_get_le_sum(s.drop_first(), p);
    }
}

/// The key of each entry, in entry order.
pub(crate) open spec fn keys_of(s: Seq<(u64, ParticipantRecord)>) -> Seq<u64> {
    s.map_values(|e: (u64, ParticipantRecord)| e.0)
}

/// A key no entry holds is mapped to the zero record.
pub(crate) proof fn lemma_get_absent(s: Seq<(u64, ParticipantRecord)>, p: u64)
    requires
        forall|k: int| 0 <= k < s.len() ==> (#[trigger] s[k].0) != p,
    ensures
        seq_get(s, p) == zero_record(),
    decreases s.len(),
{
    if s.len() > 0 {
        lemma_get_absent(s.drop_first(), p);
    }
}

/// With no key held twice, each entry is what its key is mapped to.
pub(crate) proof fn lemma_get_at_key(s: Seq<(u64, ParticipantRecord)>, i: int)
    requires
        unique_keys(s),
        0 <= i < s.len(),
    ensures
        seq_get(s, s[i].0) == s[i].1,
    decreases i,
{
    if i > 0 {
        assert(s[0].0 != s[i].0);
        lemma_get_at_key(s.drop_first(), i - 1);
        assert(s.drop_first()[i - 1] == s[i]);
    }
}

/// Overwriting the first entry keyed by `s[i].0` rewrites exactly that
/// participant's record and shifts the recorded sum by the difference.
pub(crate) proof fn lemma_update_props(
    s: Seq<(u64, ParticipantRecord)>,
    i: int,
    r: ParticipantRecord,
)
    requires
        0 <= i < s.len(),
        forall|k: int| 0 <= k < i ==> (#[trigger] s[k].0) != s[i].0,
    ensures
        seq_get(s, s[i].0) == s[i].1,
        seq_get(s.update(i, (s[i].0, r)), s[i].0) == r,
        forall|q: u64|
            q != s[i].0 ==> #[trigger] seq_get(s.update(i, (s[i].0, r)), q) == seq_get(s, q),
        sum_deposited(s.update(i, (s[i].0, r))) == sum_deposited(s) - s[i].1.deposited
            + r.deposited,
        unique_keys(s) ==> unique_keys(s.update(i, (s[i].0, r))),
    decreases i,
{
    let u = s.update(i, (s[i].0, r));
    if i == 0 {
        assert(u.drop_first() =~= s.drop_first());
        assert forall|q: u64| q != s[0].0 implies #[trigger] seq_get(u, q) == seq_get(s, q) by {
            assert(seq_get(u, q) == seq_get(u.drop_first(), q));
            assert(seq_get(s, q) == seq_get(s.drop_first(), q));
        }
        assert(sum_deposited(u) == u[0].1.deposited + sum_deposited(u.drop_first()));
        assert(sum_deposited(s) == s[0].1.deposited + sum_deposited(s.drop_first()));
    } else {
        let st = s.drop_first();
        let ut = st.update(i - 1, (st[i - 1].0, r));
        lemma_update_props(st, i - 1, r);
        assert(st[i - 1] == s[i]);
        assert(u[0] == s[0]);
        assert(u.drop_first() =~= ut);
        assert(s[0].0 != s[i].0);
        assert(seq_get(s, s[i].0) == seq_get(st, s[i].0));
        assert(seq_get(u, s[i].0) == seq_get(ut, s[i].0));
        assert forall|q: u64| q != s[i].0 implies #[trigger] seq_get(u, q) == seq_get(s, q) by {
            if s[0].0 != q {
                assert(seq_get(u, q) == seq_get(ut, q));
                assert(seq_get(s, q) == seq_get(st, q));
            }
        }
        assert(sum_deposited(u) == u[0].1.deposited + sum_deposited(ut));
        assert(sum_deposited(s) == s[0].1.deposited + sum_deposited(st));
    }
    if unique_keys(s) {
        assert forall|a: int, b: int| 0 <= a < b < u.len() implies (#[trigger] u[a].0)
            != (#[trigger] u[b].0) by {
            assert(u[a].0 == s[a].0 && u[b].0 == s[b].0);
        }
    }
}

/// Appending an entry for a fresh key `p` makes `p`'s record `r`, leaves all
/// other records as they were, and adds `r.deposited` to the recorded sum.
pub(crate) proof fn lemma_push_props(
    s: Seq<(u64, ParticipantRecord)>,
    p: u64,
    r: ParticipantRecord,
)
    requires
        forall|k: int| 0 <= k < s.len() ==> (#[trigger] s[k].0) != p,
    ensures
        seq_get(s, p) == zero_record(),
        seq_get(s.push((p, r)), p) == r,
        forall|q: u64| q != p ==> #[trigger] seq_get(s.push((p, r)), q) == seq_get(s, q),
        sum_deposited(s.push((p, r))) == sum_deposited(s) + r.deposited,
        unique_keys(s) ==> unique_keys(s.push((p, r))),
    decreases s.len(),
{
    let u = s.push((p, r));
    if s.len() == 0 {
        assert(u[0] == (p, r));
        assert(u.drop_first() =~= Seq::<(u64, ParticipantRecord)>::empty());
        assert forall|q: u64| q != p implies #[trigger] seq_get(u, q) == seq_get(s, q) by {
            assert(seq_get(u, q) == seq_get(u.drop_first(), q));
        }
        assert(sum_deposited(u) == u[0].1.deposited + sum_deposited(u.drop_first()));
    } else {
        let st = s.drop_first();
        let ut = st.push((p, r));
        lemma_push_props(st, p, r);
        assert(u[0] == s[0]);
        assert(u.drop_first() =~= ut);
        assert(s[0].0 != p);
        assert(seq_get(u, p) == seq_get(ut, p));
        assert(seq_get(s, p) == seq_get(st, p));
        assert forall|q: u64| q != p implies #[trigger] seq_get(u, q) == seq_get(s, q) by {
            if s[0].0 != q {
                assert(seq_get(u, q) == seq_get(ut, q));
                assert(seq_get(s, q) == seq_get(st, q));
            }
        }
        assert(sum_deposited(u) == u[0].1.deposited + sum_deposited(ut));
        assert(sum_deposited(s) == s[0].1.deposited + sum_deposited(st));
    }
    if unique_keys(s) {
        assert forall|a: int, b: int| 0 <= a < b < u.len() implies (#[trigger] u[a].0)
            != (#[trigger] u[b].0) by {
            if b < s.len() {
                assert(u[a].0 == s[a].0 && u[b].0 == s[b].0);
            } else {
                assert(u[a].0 == s[a].0 && u[b].0 == p);
            }
        }
    }
}

/// The durable keyed store behind the vault: participant identity to record,
/// with one entry per participant that has ever been written.
pub(crate) struct Ledger {
    pub(crate) entries: Vec<(u64, ParticipantRecord)>,
}

impl Ledger {
    pub(crate) fn new() -> (r: Ledger)
        ensures
            r.entries@ == Seq::<(u64, ParticipantRecord)>::empty(),
    {
        Ledger { entries: Vec::new() }
    }

    /// The record stored for `p`; the zero record when `p` is absent.
    pub(crate) fn get(&self, p: u64) -> (r: ParticipantRecord)
        ensures
            r == seq_get(self.entries@, p),
    {
        let n = self.entries.len();
        let mut i: usize = 0;
        proof {
            assert(self.entries@.skip(0) =~= self.entries@);
        }
        while i < n
            invariant
                i <= n,
                n == self.entries.len(),
                seq_get(self.entries@, p) == seq_get(self.entries@.skip(i as int), p),
            decreases n - i,
        {
            let e = self.entries[i];
            proof {
                assert(self.entries@.skip(i as int)[0] == self.entries@[i as int]);
                assert(self.entries@.skip(i as int).drop_first() =~= self.entries@.skip(
                    i as int + 1,
                ));
            }
            if e.0 == p {
                return e.1;
            }
            i += 1;
        }
        proof {
            assert(self.entries@.skip(n as int) =~= Seq::<(u64, ParticipantRecord)>::empty());
        }
        ParticipantRecord { deposited: 0, allocated: 0, claimed: false }
    }

    /// Total overwrite of `p`'s record; every other record stays as it was.
    pub(crate) fn set(&mut self, p: u64, r: ParticipantRecord)
        requires
            unique_keys(old(self).entries@),
        ensures
            unique_keys(final(self).entries@),
            seq_get(final(self).entries@, p) == r,
            forall|q: u64|
                q != p ==> #[trigger] seq_get(final(self).entries@, q) == seq_get(
                    old(self).entries@,
                    q,
                ),
            sum_deposited(final(self).entries@) == sum_deposited(old(self).entries@) - seq_get(
                old(self).entries@,
                p,
            ).deposited + r.deposited,
    {
        let n = self.entries.len();
        let mut i: usize = 0;
        while i < n
            invariant
                i <= n,
                n == self.entries.len(),
                self.entries@ == old(self).entries@,
                unique_keys(self.entries@),
                forall|k: int| 0 <= k < i ==> (#[trigger] self.entries@[k].0) != p,
            decreases n - i,
        {
            let e = self.entries[i];
            if e.0 == p {
                proof {
                    assert(self.entries@[i as int].0 == p);
                    lemma_update_props(self.entries@, i as int, r);
                }
                self.entries[i] = (p, r);
                proof {
                    assert(self.entries@ == old(self).entries@.update(
                        i as int,
                        (old(self).entries@[i as int].0, r),
                    ));
                }
                return;
            }
            i += 1;
        }
        proof {
            lemma_push_props(self.entries@, p, r);
        }
        self.entries.push((p, r));
    }
}

} // verus!
