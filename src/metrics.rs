use vstd::prelude::*;

verus! {

/// One validator's voting state as reported by the node.
pub struct ValidatorVoteState {
    pub vote_pubkey: String,
    pub root_slot: u64,
    pub last_vote: u64,
    /// `(epoch, credits, previous_credits)` per epoch, oldest first.
    pub epoch_credits: Vec<(u64, u64, u64)>,
}

/// Health metrics derived for one active validator.
pub struct ValidatorMetrics {
    pub vote_pubkey: String,
    pub root_distance: u64,
    pub vote_distance: u64,
    pub credits_earned: u64,
    pub rank: usize,
}

/// What a metric says about its validator, apart from its rank.
pub struct MetricEntry {
    pub identity: Seq<char>,
    pub root_distance: u64,
    pub vote_distance: u64,
    pub credits_earned: u64,
}

impl ValidatorMetrics {
    pub open spec fn entry(&self) -> MetricEntry {
        MetricEntry {
            identity: self.vote_pubkey@,
            root_distance: self.root_distance,
            vote_distance: self.vote_distance,
            credits_earned: self.credits_earned,
        }
    }
}

pub open spec fn saturating_diff(x: u64, y: u64) -> u64 {
    if x >= y {
        (x - y) as u64
    } else {
        0
    }
}

/// Highest root slot among the accounts, 0 when there are none.
pub open spec fn top_root(s: Seq<ValidatorVoteState>) -> u64
    decreases s.len(),
{
    if s.len() == 0 {
        0
    } else {
        let m = top_root(s.drop_last());
        if s.last().root_slot > m {
            s.last().root_slot
        } else {
            m
        }
    }
}

/// Highest voted slot among the accounts, 0 when there are none.
pub open spec fn top_vote(s: Seq<ValidatorVoteState>) -> u64
    decreases s.len(),
{
    if s.len() == 0 {
        0
    } else {
        let m = top_vote(s.drop_last());
        if s.last().last_vote > m {
            s.last().last_vote
        } else {
            m
        }
    }
}

/// An account is active when its latest epoch entry holds positive credits.
pub open spec fn is_active(a: ValidatorVoteState) -> bool {
    a.epoch_credits@.len() > 0 && a.epoch_credits@.last().1 > 0
}

pub open spec fn entry_of(a: ValidatorVoteState, top_r: u64, top_v: u64) -> MetricEntry {
    MetricEntry {
        identity: a.vote_pubkey@,
        root_distance: saturating_diff(top_r, a.root_slot),
        vote_distance: saturating_diff(top_v, a.last_vote),
        credits_earned: a.epoch_credits@.last().1,
    }
}

/// The entries of the active accounts, in input order.
pub open spec fn active_entries(s: Seq<ValidatorVoteState>, top_r: u64, top_v: u64) -> Seq<
    MetricEntry,
>
    decreases s.len(),
{
    if s.len() == 0 {
        Seq::empty()
    } else {
        let r = active_entries(s.drop_last(), top_r, top_v);
        if is_active(s.last()) {
            r.push(entry_of(s.last(), top_r, top_v))
        } else {
            r
        }
    }
}

/// Places `e` after every entry, counted from the back, whose credits are at least its own.
pub open spec fn insert_desc(s: Seq<MetricEntry>, e: MetricEntry) -> Seq<MetricEntry>
    decreases s.len(),
{
    if s.len() == 0 {
        seq![e]
    } else if s.last().credits_earned >= e.credits_earned {
        s.push(e)
    } else {
        insert_desc(s.drop_last(), e).push(s.last())
    }
}

/// Stable ordering by credits, highest first.
pub open spec fn ranked(s: Seq<MetricEntry>) -> Seq<MetricEntry>
    decreases s.len(),
{
    if s.len() == 0 {
        Seq::empty()
    } else {
        insert_desc(ranked(s.drop_last()), s.last())
    }
}

/// The active validators of a snapshot, ordered as they are ranked.
pub open spec fn ranked_metrics(s: Seq<ValidatorVoteState>) -> Seq<MetricEntry> {
    ranked(active_entries(s, top_root(s), top_vote(s)))
}

/// The entries whose credits equal `c`, in their order.
pub open spec fn with_credits(s: Seq<MetricEntry>, c: u64) -> Seq<MetricEntry>
    decreases s.len(),
{
    if s.len() == 0 {
        Seq::empty()
    } else {
        let r = with_credits(s.drop_last(), c);
        if s.last().credits_earned == c {
            r.push(s.last())
        } else {
            r
        }
    }
}

pub open spec fn sorted_desc(s: Seq<MetricEntry>) -> bool {
    forall|i: int, j: int|
        0 <= i < j < s.len() ==> s[i].credits_earned >= s[j].credits_earned
}

proof fn lemma_insert_desc_members(s: Seq<MetricEntry>, e: MetricEntry)
    ensures
        insert_desc(s, e).len() == s.len() + 1,
        forall|x: MetricEntry| #[trigger]
            insert_desc(s, e).contains(x) ==> x == e || s.contains(x),
    decreases s.len(),
{
    if s.len() > 0 && s.last().credits_earned < e.credits_earned {
        let t = s.drop_last();
        lemma_insert_desc_members(t, e);
        assert forall|x: MetricEntry| #[trigger]
            insert_desc(s, e).contains(x) implies x == e || s.contains(x) by {
            let k = choose|k: int| 0 <= k < insert_desc(s, e).len() && insert_desc(s, e)[k] == x;
            if k < t.len() + 1 {
                assert(insert_desc(t, e).contains(x));
                if x != e {
                    let m = choose|m: int| 0 <= m < t.len() && t[m] == x;
                    assert(s[m] == x);
                }
            } else {
                assert(s[s.len() - 1] == x);
            }
        }
    } else if s.len() > 0 {
        assert forall|x: MetricEntry| #[trigger]
            insert_desc(s, e).contains(x) implies x == e || s.contains(x) by {
            let k = choose|k: int| 0 <= k < insert_desc(s, e).len() && insert_desc(s, e)[k] == x;
            if k < s.len() {
                assert(s[k] == x);
            }
        }
    }
}

proof fn lemma_insert_desc_at(s: Seq<MetricEntry>, e: MetricEntry, p: int)
    requires
        0 <= p <= s.len(),
        forall|k: int| p <= k < s.len() ==> s[k].credits_earned < e.credits_earned,
        p == 0 || s[p - 1].credits_earned >= e.credits_earned,
    ensures
        insert_desc(s, e) == s.insert(p, e),
    decreases s.len(),
{
    if s.len() == 0 {
        assert(s.insert(p, e) =~= seq![e]);
    } else if s.last().credits_earned >= e.credits_earned {
        assert(s.insert(p, e) =~= s.push(e));
    } else {
        let t = s.drop_last();
        lemma_insert_desc_at(t, e, p);
        assert(t.insert(p, e).push(s.last()) =~= s.insert(p, e));
    }
}

proof fn lemma_insert_desc_sorted(s: Seq<MetricEntry>, e: MetricEntry)
    requires
        sorted_desc(s),
    ensures
        sorted_desc(insert_desc(s, e)),
    decreases s.len(),
{
    lemma_insert_desc_members(s, e);
    if s.len() > 0 {
        let t = s.drop_last();
        if s.last().credits_earned >= e.credits_earned {
            let r = s.push(e);
            assert forall|i: int, j: int| 0 <= i < j < r.len() implies r[i].credits_earned
                >= r[j].credits_earned by {
                if j == s.len() && i < s.len() - 1 {
                    assert(s[i].credits_earned >= s[s.len() - 1].credits_earned);
                }
            }
        } else {
            lemma_insert_desc_sorted(t, e);
            lemma_insert_desc_members(t, e);
            let u = insert_desc(t, e);
            let r = u.push(s.last());
            assert forall|i: int, j: int| 0 <= i < j < r.len() implies r[i].credits_earned
                >= r[j].credits_earned by {
                if j == u.len() {
                    assert(u.contains(u[i]));
                    if u[i] != e {
                        let m = choose|m: int| 0 <= m < t.len() && t[m] == u[i];
                        assert(s[m] == u[i]);
                    }
                }
            }
        }
    }
}

proof fn lemma_insert_desc_with_credits(s: Seq<MetricEntry>, e: MetricEntry, c: u64)
    ensures
        with_credits(insert_desc(s, e), c) == (if e.credits_earned == c {
            with_credits(s, c).push(e)
        } else {
            with_credits(s, c)
        }),
    decreases s.len(),
{
    if s.len() == 0 {
        assert(seq![e].drop_last() =~= s);
        assert(seq![e].last() == e);
        assert(with_credits(s, c) =~= Seq::<MetricEntry>::empty());
    } else if s.last().credits_earned >= e.credits_earned {
        assert(s.push(e).drop_last() =~= s);
        assert(s.push(e).last() == e);
    } else {
        let t = s.drop_last();
        lemma_insert_desc_with_credits(t, e, c);
        let u = insert_desc(t, e);
        assert(u.push(s.last()).drop_last() =~= u);
        assert(with_credits(u.push(s.last()), c) == (if s.last().credits_earned == c {
            with_credits(u, c).push(s.last())
        } else {
            with_credits(u, c)
        }));
        assert(with_credits(s, c) == (if s.last().credits_earned == c {
            with_credits(t, c).push(s.last())
        } else {
            with_credits(t, c)
        }));
    }
}

/// Ranking orders the entries by credits, highest first.
pub proof fn lemma_ranked_sorted(s: Seq<MetricEntry>)
    ensures
        sorted_desc(ranked(s)),
        ranked(s).len() == s.len(),
    decreases s.len(),
{
    if s.len() > 0 {
        lemma_ranked_sorted(s.drop_last());
        lemma_insert_desc_sorted(ranked(s.drop_last()), s.last());
        lemma_insert_desc_members(ranked(s.drop_last()), s.last());
    }
}

/// Ranking is stable: the entries that share a credit value keep their input order.
pub proof fn lemma_ranked_stable(s: Seq<MetricEntry>, c: u64)
    ensures
        with_credits(ranked(s), c) == with_credits(s, c),
    decreases s.len(),
{
    if s.len() > 0 {
        lemma_ranked_stable(s.drop_last(), c);
        lemma_insert_desc_with_credits(ranked(s.drop_last()), s.last(), c);
    }
}

pub open spec fn entries(v: Seq<ValidatorMetrics>) -> Seq<MetricEntry> {
    v.map_values(|m: ValidatorMetrics| m.entry())
}

proof fn lemma_active_entries_members(s: Seq<ValidatorVoteState>, top_r: u64, top_v: u64)
    ensures
        forall|x: MetricEntry| #[trigger]
            active_entries(s, top_r, top_v).contains(x) ==> x.credits_earned > 0
                && x.root_distance <= top_r && x.vote_distance <= top_v,
    decreases s.len(),
{
    if s.len() > 0 {
        let t = s.drop_last();
        lemma_active_entries_members(t, top_r, top_v);
        let r = active_entries(t, top_r, top_v);
        if is_active(s.last()) {
            assert forall|x: MetricEntry| #[trigger] r.push(entry_of(s.last(), top_r, top_v)).contains(x)
                implies x.credits_earned > 0 && x.root_distance <= top_r && x.vote_distance <= top_v by {
                let k = choose|k: int| 0 <= k < r.len() + 1 && r.push(entry_of(s.last(), top_r, top_v))[k] == x;
                if k < r.len() {
                    assert(r.contains(x));
                }
            }
        }
    }
}

proof fn lemma_ranked_members(s: Seq<MetricEntry>)
    ensures
        forall|x: MetricEntry| #[trigger] ranked(s).contains(x) ==> s.contains(x),
    decreases s.len(),
{
    if s.len() > 0 {
        let t = s.drop_last();
        lemma_ranked_members(t);
        lemma_insert_desc_members(ranked(t), s.last());
        assert forall|x: MetricEntry| #[trigger] ranked(s).contains(x) implies s.contains(x) by {
            if x != s.last() {
                assert(ranked(t).contains(x));
                let m = choose|m: int| 0 <= m < t.len() && t[m] == x;
                assert(s[m] == x);
            } else {
                assert(s[s.len() - 1] == x);
            }
        }
    }
}

/// Every ranked validator has earned credits, and its distances are measured from the
/// highest slots of the snapshot, so neither exceeds that slot.
pub proof fn lemma_ranked_metrics_active(s: Seq<ValidatorVoteState>)
    ensures
        forall|i: int|
            0 <= i < ranked_metrics(s).len() ==> {
                &&& #[trigger] ranked_metrics(s)[i].credits_earned > 0
                &&& ranked_metrics(s)[i].root_distance <= top_root(s)
                &&& ranked_metrics(s)[i].vote_distance <= top_vote(s)
            },
{
    let a = active_entries(s, top_root(s), top_vote(s));
    lemma_active_entries_members(s, top_root(s), top_vote(s));
    lemma_ranked_members(a);
    assert forall|i: int| 0 <= i < ranked_metrics(s).len() implies {
        &&& #[trigger] ranked_metrics(s)[i].credits_earned > 0
        &&& ranked_metrics(s)[i].root_distance <= top_root(s)
        &&& ranked_metrics(s)[i].vote_distance <= top_vote(s)
    } by {
        assert(ranked(a).contains(ranked(a)[i]));
    }
}

/// The ranking of a snapshot is a stable sort of its active validators: credits never
/// increase along it, and the validators that share a credit value appear in input order.
pub proof fn lemma_ranked_metrics_stable_sort(s: Seq<ValidatorVoteState>, c: u64)
    ensures
        sorted_desc(ranked_metrics(s)),
        with_credits(ranked_metrics(s), c) == with_credits(
            active_entries(s, top_root(s), top_vote(s)),
            c,
        ),
{
    lemma_ranked_sorted(active_entries(s, top_root(s), top_vote(s)));
    lemma_ranked_stable(active_entries(s, top_root(s), top_vote(s)), c);
}

/// Ranks the active validators of a snapshot.
///
/// The result holds one metric per account whose latest epoch entry has positive
/// credits, ordered by credits (highest first, ties in input order), with ranks
/// 1, 2, ... in that order, and the number of such accounts.
pub fn calculate_metrics(accounts: &Vec<ValidatorVoteState>) -> (r: (Vec<ValidatorMetrics>, usize))
    ensures
        r.1 == r.0@.len(),
        entries(r.0@) == ranked_metrics(accounts@),
        forall|j: int| 0 <= j < r.0@.len() ==> #[trigger] r.0@[j].rank == j + 1,
{
    let mut top_r: u64 = 0;
    let mut top_v: u64 = 0;
    let mut i: usize = 0;
    while i < accounts.len()
        invariant
            i <= accounts@.len(),
            top_r == top_root(accounts@.subrange(0, i as int)),
            top_v == top_vote(accounts@.subrange(0, i as int)),
        decreases accounts@.len() - i,
    {
        assert(accounts@.subrange(0, i + 1).drop_last() =~= accounts@.subrange(0, i as int));
        if accounts[i].root_slot > top_r {
            top_r = accounts[i].root_slot;
        }
        if accounts[i].last_vote > top_v {
            top_v = accounts[i].last_vote;
        }
        i = i + 1;
    }
    assert(accounts@.subrange(0, i as int) =~= accounts@);

    let mut sorted: Vec<ValidatorMetrics> = Vec::new();
    let mut active_count: usize = 0;
    let mut i: usize = 0;
    while i < accounts.len()
        invariant
            i <= accounts@.len(),
            top_r == top_root(accounts@),
            top_v == top_vote(accounts@),
            entries(sorted@) == ranked(active_entries(accounts@.subrange(0, i as int), top_r, top_v)),
            active_count == sorted@.len(),
            active_count <= i,
        decreases accounts@.len() - i,
    {
        let ghost prev = accounts@.subrange(0, i as int);
        let ghost prev_active = active_entries(prev, top_r, top_v);
        assert(accounts@.subrange(0, i + 1).drop_last() =~= prev);
        assert(accounts@.subrange(0, i + 1).last() == accounts@[i as int]);
        proof {
            lemma_ranked_sorted(active_entries(prev, top_r, top_v));
        }
        let account = &accounts[i];
        let n = account.epoch_credits.len();
        if n > 0 && account.epoch_credits[n - 1].1 > 0 {
            let credits = account.epoch_credits[n - 1].1;
            let root_distance = if top_r >= account.root_slot { top_r - account.root_slot } else { 0 };
            let vote_distance = if top_v >= account.last_vote { top_v - account.last_vote } else { 0 };
            let m = ValidatorMetrics {
                vote_pubkey: account.vote_pubkey.clone(),
                root_distance,
                vote_distance,
                credits_earned: credits,
                rank: 0,
            };
            let mut p: usize = sorted.len();
            while p > 0 && sorted[p - 1].credits_earned < credits
                invariant
                    p <= sorted@.len(),
                    forall|k: int| p <= k < sorted@.len() ==> sorted@[k].credits_earned < credits,
                decreases p,
            {
                p = p - 1;
            }
            let ghost old_sorted = sorted@;
            assert(m.entry() == entry_of(accounts@[i as int], top_r, top_v));
            sorted.insert(p, m);
            proof {
                lemma_insert_desc_at(entries(old_sorted), m.entry(), p as int);
                assert(entries(sorted@) =~= entries(old_sorted).insert(p as int, m.entry()));
                assert(prev_active.push(m.entry()).drop_last() =~= prev_active);
                assert(prev_active.push(m.entry()).last() == m.entry());
            }
            active_count = active_count + 1;
        }
        i = i + 1;
    }
    assert(accounts@.subrange(0, i as int) =~= accounts@);

    let mut result: Vec<ValidatorMetrics> = Vec::new();
    let mut j: usize = 0;
    while j < sorted.len()
        invariant
            j <= sorted@.len(),
            result@.len() == j,
            forall|k: int| 0 <= k < j ==> #[trigger] result@[k].entry() == sorted@[k].entry(),
            forall|k: int| 0 <= k < j ==> #[trigger] result@[k].rank == k + 1,
        decreases sorted@.len() - j,
    {
        let m = &sorted[j];
        result.push(ValidatorMetrics {
            vote_pubkey: m.vote_pubkey.clone(),
            root_distance: m.root_distance,
            vote_distance: m.vote_distance,
            credits_earned: m.credits_earned,
            rank: j + 1,
        });
        j = j + 1;
    }
    assert(entries(result@) =~= entries(sorted@));
    (result, active_count)
}

} // verus!
