//! Costs of the claws, polled one by one and rolled up for the fleet.
//!
//! Amounts of money are of a type that the program chooses, together with their
//! addition; counts are rolled up here.

use vstd::prelude::*;
use vstd::string::*;
use crate::keymap::KeyMap;
use crate::text;

verus! {

/// What a claw reports of its costs, with amounts of type `M` and the breakdown
/// by model of type `B`.
#[derive(Debug)]
pub struct CostSummary<M, B> {
    pub session_cost_usd: M,
    pub daily_cost_usd: M,
    pub monthly_cost_usd: M,
    pub total_tokens: u64,
    pub request_count: u64,
    pub by_model: B,
}

impl<M: Default, B: Default> Default for CostSummary<M, B> {
    /// No cost: every amount is the default of its type.
    fn default() -> (r: Self)
        ensures
            call_ensures(M::default, (), r.session_cost_usd),
            call_ensures(M::default, (), r.daily_cost_usd),
            call_ensures(M::default, (), r.monthly_cost_usd),
            r.total_tokens == 0,
            r.request_count == 0,
            call_ensures(B::default, (), r.by_model),
    {
        CostSummary {
            session_cost_usd: M::default(),
            daily_cost_usd: M::default(),
            monthly_cost_usd: M::default(),
            total_tokens: 0,
            request_count: 0,
            by_model: B::default(),
        }
    }
}

/// What is known of the costs of a claw.
#[derive(Debug)]
pub struct CostSnapshot<M, B> {
    pub claw: String,
    pub summary: CostSummary<M, B>,
    /// When the summary was fetched.
    pub fetched_at: String,
    /// The error of the last poll, if it failed; the summary is then an old one.
    pub last_error: Option<String>,
}

/// The snapshots of all claws that have been polled.
pub type CostCache<M, B> = KeyMap<CostSnapshot<M, B>>;

/// A cache that holds nothing.
pub fn new_cache<M, B>() -> (r: CostCache<M, B>)
    ensures
        r@ == Map::<Seq<char>, CostSnapshot<M, B>>::empty(),
{
    KeyMap::new()
}

/// The address of a claw's cost report.
pub fn cost_url(upstream_base: &str) -> (r: String)
    ensures
        r@ == upstream_base@ + "/api/cost"@,
{
    text::labelled(upstream_base, "/api/cost")
}

/// How often costs are polled: as often as asked for, but not more than once in
/// five seconds.
pub fn poll_interval(asked_secs: u64) -> (r: u64)
    ensures
        r >= 5,
        r >= asked_secs,
        r == 5 || r == asked_secs,
{
    if asked_secs < 5 {
        5
    } else {
        asked_secs
    }
}

/// The part of a cost report that is the summary: what it holds under `cost`, or
/// the whole report where it holds nothing there.
pub fn summary_part<V>(under_cost: Option<V>, whole: V) -> (r: V)
    ensures
        r == match under_cost {
            Some(v) => v,
            None => whole,
        },
{
    match under_cost {
        Some(v) => v,
        None => whole,
    }
}

// ---- the cache --------------------------------------------------------

/// Notes the summary that a poll brought.
pub fn record_success<M, B>(
    cache: &mut CostCache<M, B>,
    claw: &str,
    summary: CostSummary<M, B>,
    fetched_at: &str,
)
    ensures
        exists|snap: CostSnapshot<M, B>|
            {
                &&& final(cache)@ == #[trigger] old(cache)@.insert(claw@, snap)
                &&& snap.claw@ == claw@
                &&& snap.summary == summary
                &&& snap.fetched_at@ == fetched_at@
                &&& snap.last_error is None
            },
{
    let snap = CostSnapshot {
        claw: claw.to_owned(),
        summary,
        fetched_at: fetched_at.to_owned(),
        last_error: None,
    };
    let ghost was = cache@;
    let ghost put = snap;
    cache.insert(claw.to_owned(), snap);
    assert(cache@ == was.insert(claw@, put));
}

/// Notes that a poll failed. A summary that was fetched before stays, with the
/// time at which it was fetched; a claw that was never polled gets `nothing`.
pub fn record_failure<M, B>(
    cache: &mut CostCache<M, B>,
    claw: &str,
    error: &str,
    polled_at: &str,
    nothing: CostSummary<M, B>,
)
    ensures
        exists|snap: CostSnapshot<M, B>|
            {
                &&& final(cache)@ == #[trigger] old(cache)@.insert(claw@, snap)
                &&& text::opt_text(snap.last_error) == Some(error@)
                &&& if old(cache)@.dom().contains(claw@) {
                    let before = old(cache)@[claw@];
                    &&& snap.claw == before.claw
                    &&& snap.summary == before.summary
                    &&& snap.fetched_at == before.fetched_at
                } else {
                    &&& snap.claw@ == claw@
                    &&& snap.summary == nothing
                    &&& snap.fetched_at@ == polled_at@
                }
            },
{
    let ghost was = cache@;
    let snap = match cache.remove(claw) {
        Some(before) => CostSnapshot {
            claw: before.claw,
            summary: before.summary,
            fetched_at: before.fetched_at,
            last_error: Some(error.to_owned()),
        },
        None => CostSnapshot {
            claw: claw.to_owned(),
            summary: nothing,
            fetched_at: polled_at.to_owned(),
            last_error: Some(error.to_owned()),
        },
    };
    let ghost put = snap;
    cache.insert(claw.to_owned(), snap);
    assert(cache@ =~= was.insert(claw@, put));
}

// ---- the roll-up ------------------------------------------------------

/// The costs of the fleet.
#[derive(Debug)]
pub struct FleetCostRollup<M> {
    /// How many claws are counted.
    pub claws: u32,
    /// How many of them report an old summary.
    pub stale: u32,
    pub session_cost_usd: M,
    pub daily_cost_usd: M,
    pub monthly_cost_usd: M,
    pub total_tokens: u64,
    pub request_count: u64,
}

/// The sum of a sequence of counts.
pub open spec fn sum(counts: Seq<u64>) -> int
    decreases counts.len(),
{
    if counts.len() == 0 {
        0
    } else {
        sum(counts.drop_last()) + counts.last()
    }
}

/// `partial` are the subtotals that the addition `plus` makes of the amounts, one
/// after the other, starting from `zero`.
pub open spec fn subtotals<M, F: Fn(&M, &M) -> M>(
    plus: F,
    zero: M,
    amounts: Seq<M>,
    partial: Seq<M>,
) -> bool {
    &&& partial.len() == amounts.len() + 1
    &&& partial[0] == zero
    &&& forall|i: int|
        0 <= i < amounts.len() ==> call_ensures(
            plus,
            (&partial[i], &#[trigger] amounts[i]),
            partial[i + 1],
        )
}

/// `total` is what the addition `plus` makes of the amounts.
pub open spec fn adds_up<M, F: Fn(&M, &M) -> M>(
    plus: F,
    zero: M,
    amounts: Seq<M>,
    total: M,
) -> bool {
    exists|partial: Seq<M>| #[trigger]
        subtotals(plus, zero, amounts, partial) && partial.last() == total
}

/// How many snapshots carry an error.
pub open spec fn stale_count<M, B>(snaps: Seq<CostSnapshot<M, B>>) -> int
    decreases snaps.len(),
{
    if snaps.len() == 0 {
        0
    } else {
        stale_count(snaps.drop_last()) + if snaps.last().last_error is Some {
            1int
        } else {
            0
        }
    }
}

pub open spec fn tokens<M, B>(snaps: Seq<CostSnapshot<M, B>>) -> Seq<u64> {
    snaps.map_values(|s: CostSnapshot<M, B>| s.summary.total_tokens)
}

pub open spec fn requests<M, B>(snaps: Seq<CostSnapshot<M, B>>) -> Seq<u64> {
    snaps.map_values(|s: CostSnapshot<M, B>| s.summary.request_count)
}

pub open spec fn sessions<M, B>(snaps: Seq<CostSnapshot<M, B>>) -> Seq<M> {
    snaps.map_values(|s: CostSnapshot<M, B>| s.summary.session_cost_usd)
}

pub open spec fn dailies<M, B>(snaps: Seq<CostSnapshot<M, B>>) -> Seq<M> {
    snaps.map_values(|s: CostSnapshot<M, B>| s.summary.daily_cost_usd)
}

pub open spec fn monthlies<M, B>(snaps: Seq<CostSnapshot<M, B>>) -> Seq<M> {
    snaps.map_values(|s: CostSnapshot<M, B>| s.summary.monthly_cost_usd)
}

/// The counts of the fleet fit into their types.
pub open spec fn totals_fit<M, B>(snaps: Seq<CostSnapshot<M, B>>) -> bool {
    &&& snaps.len() <= u32::MAX
    &&& sum(tokens(snaps)) <= u64::MAX
    &&& sum(requests(snaps)) <= u64::MAX
}

proof fn lemma_sum_grows(counts: Seq<u64>, n: int)
    requires
        0 <= n <= counts.len(),
    ensures
        0 <= sum(counts.take(n)) <= sum(counts),
    decreases counts.len(),
{
    if n < counts.len() {
        lemma_sum_grows(counts.drop_last(), n);
        assert(counts.drop_last().take(n) =~= counts.take(n));
    } else {
        assert(counts.take(n) =~= counts);
        if counts.len() > 0 {
            lemma_sum_grows(counts.drop_last(), n - 1);
        }
    }
}

proof fn lemma_adds_one<M, F: Fn(&M, &M) -> M>(
    plus: F,
    zero: M,
    amounts: Seq<M>,
    before: M,
    total: M,
)
    requires
        amounts.len() > 0,
        adds_up(plus, zero, amounts.drop_last(), before),
        call_ensures(plus, (&before, &amounts.last()), total),
    ensures
        adds_up(plus, zero, amounts, total),
{
    let all = amounts;
    let head = amounts.drop_last();
    let partial = choose|partial: Seq<M>| #[trigger]
        subtotals(plus, zero, head, partial) && partial.last() == before;
    let longer = partial.push(total);
    assert forall|i: int| 0 <= i < all.len() implies call_ensures(
        plus,
        (&longer[i], &#[trigger] all[i]),
        longer[i + 1],
    ) by {
        if i < head.len() {
            assert(head[i] == all[i]);
        }
    }
    assert(subtotals(plus, zero, all, longer));
}

proof fn lemma_adds_nothing<M, F: Fn(&M, &M) -> M>(plus: F, zero: M, amounts: Seq<M>)
    requires
        amounts.len() == 0,
    ensures
        adds_up(plus, zero, amounts, zero),
{
    assert(subtotals(plus, zero, amounts, seq![zero]));
}

/// The claws with an old summary are counted among all claws.
pub proof fn law_stale_claws_are_counted<M, B>(snaps: Seq<CostSnapshot<M, B>>)
    ensures
        0 <= stale_count(snaps) <= snaps.len(),
    decreases snaps.len(),
{
    if snaps.len() > 0 {
        law_stale_claws_are_counted(snaps.drop_last());
    }
}

/// Whether the counts of the fleet fit into their types.
pub fn can_roll_up<M, B>(cache: &CostCache<M, B>) -> (r: bool)
    ensures
        r == totals_fit(cache.values()),
{
    let n = cache.len();
    let ghost snaps = cache.values();
    let mut total_tokens: u64 = 0;
    let mut request_count: u64 = 0;
    let mut i: usize = 0;
    assert(tokens(snaps).take(0) =~= Seq::<u64>::empty());
    assert(requests(snaps).take(0) =~= Seq::<u64>::empty());
    while i < n
        invariant
            i <= n,
            n == cache.keys().len(),
            n == snaps.len(),
            snaps == cache.values(),
            total_tokens == sum(tokens(snaps).take(i as int)),
            request_count == sum(requests(snaps).take(i as int)),
        decreases n - i,
    {
        let s = &cache.value_at(i).summary;
        proof {
            assert(tokens(snaps).take(i + 1).drop_last() =~= tokens(snaps).take(i as int));
            assert(requests(snaps).take(i + 1).drop_last() =~= requests(snaps).take(i as int));
            lemma_sum_grows(tokens(snaps), i + 1);
            lemma_sum_grows(requests(snaps), i + 1);
        }
        match total_tokens.checked_add(s.total_tokens) {
            Some(t) => {
                total_tokens = t;
            },
            None => return false,
        }
        match request_count.checked_add(s.request_count) {
            Some(t) => {
                request_count = t;
            },
            None => return false,
        }
        i = i + 1;
    }
    assert(tokens(snaps).take(n as int) =~= tokens(snaps));
    assert(requests(snaps).take(n as int) =~= requests(snaps));
    n as u64 <= u32::MAX as u64
}

/// Rolls the snapshots up into the costs of the fleet. Amounts are added with
/// `plus`, starting from `zero`, in the order of the claws' names.
pub fn fleet_rollup<M: Copy, B, F: Fn(&M, &M) -> M>(
    cache: &CostCache<M, B>,
    zero: M,
    plus: F,
) -> (r: FleetCostRollup<M>)
    requires
        totals_fit(cache.values()),
        forall|a: &M, b: &M| call_requires(plus, (a, b)),
    ensures
        r.claws == cache.values().len(),
        r.stale == stale_count(cache.values()),
        adds_up(plus, zero, sessions(cache.values()), r.session_cost_usd),
        adds_up(plus, zero, dailies(cache.values()), r.daily_cost_usd),
        adds_up(plus, zero, monthlies(cache.values()), r.monthly_cost_usd),
        r.total_tokens == sum(tokens(cache.values())),
        r.request_count == sum(requests(cache.values())),
{
    let n = cache.len();
    let ghost snaps = cache.values();
    let mut session = zero;
    let mut daily = zero;
    let mut monthly = zero;
    let mut total_tokens: u64 = 0;
    let mut request_count: u64 = 0;
    let mut claws: u32 = 0;
    let mut stale: u32 = 0;
    let mut i: usize = 0;
    proof {
        assert(snaps.take(0) =~= Seq::<CostSnapshot<M, B>>::empty());
        assert(tokens(snaps).take(0) =~= Seq::<u64>::empty());
        assert(requests(snaps).take(0) =~= Seq::<u64>::empty());
        assert(sessions(snaps).take(0) =~= Seq::<M>::empty());
        assert(dailies(snaps).take(0) =~= Seq::<M>::empty());
        assert(monthlies(snaps).take(0) =~= Seq::<M>::empty());
        lemma_adds_nothing(plus, zero, Seq::<M>::empty());
    }
    while i < n
        invariant
            i <= n,
            n == cache.keys().len(),
            n == snaps.len(),
            snaps == cache.values(),
            totals_fit(snaps),
            forall|a: &M, b: &M| call_requires(plus, (a, b)),
            claws == i,
            stale == stale_count(snaps.take(i as int)),
            total_tokens == sum(tokens(snaps).take(i as int)),
            request_count == sum(requests(snaps).take(i as int)),
            adds_up(plus, zero, sessions(snaps).take(i as int), session),
            adds_up(plus, zero, dailies(snaps).take(i as int), daily),
            adds_up(plus, zero, monthlies(snaps).take(i as int), monthly),
        decreases n - i,
    {
        let snap = cache.value_at(i);
        proof {
            assert(snaps.take(i + 1).drop_last() =~= snaps.take(i as int));
            assert(tokens(snaps).take(i + 1).drop_last() =~= tokens(snaps).take(i as int));
            assert(requests(snaps).take(i + 1).drop_last() =~= requests(snaps).take(i as int));
            assert(sessions(snaps).take(i + 1).drop_last() =~= sessions(snaps).take(i as int));
            assert(dailies(snaps).take(i + 1).drop_last() =~= dailies(snaps).take(i as int));
            assert(monthlies(snaps).take(i + 1).drop_last() =~= monthlies(snaps).take(i as int));
            lemma_sum_grows(tokens(snaps), i + 1);
            lemma_sum_grows(requests(snaps), i + 1);
            law_stale_claws_are_counted(snaps.take(i as int));
        }
        claws = claws + 1;
        if snap.last_error.is_some() {
            stale = stale + 1;
        }
        let ghost (s0, d0, m0) = (session, daily, monthly);
        session = plus(&session, &snap.summary.session_cost_usd);
        daily = plus(&daily, &snap.summary.daily_cost_usd);
        monthly = plus(&monthly, &snap.summary.monthly_cost_usd);
        proof {
            lemma_adds_one(plus, zero, sessions(snaps).take(i + 1), s0, session);
            lemma_adds_one(plus, zero, dailies(snaps).take(i + 1), d0, daily);
            lemma_adds_one(plus, zero, monthlies(snaps).take(i + 1), m0, monthly);
        }
        total_tokens = total_tokens + snap.summary.total_tokens;
        request_count = request_count + snap.summary.request_count;
        i = i + 1;
    }
    proof {
        assert(snaps.take(n as int) =~= snaps);
        assert(tokens(snaps).take(n as int) =~= tokens(snaps));
        assert(requests(snaps).take(n as int) =~= requests(snaps));
        assert(sessions(snaps).take(n as int) =~= sessions(snaps));
        assert(dailies(snaps).take(n as int) =~= dailies(snaps));
        assert(monthlies(snaps).take(n as int) =~= monthlies(snaps));
    }
    FleetCostRollup {
        claws,
        stale,
        session_cost_usd: session,
        daily_cost_usd: daily,
        monthly_cost_usd: monthly,
        total_tokens,
        request_count,
    }
}

// ---- what holds of roll-ups -------------------------------------------

/// Each amount of a roll-up is the sum of that same amount of every claw: the
/// session costs make up the session cost, the daily costs the daily cost and the
/// monthly costs the monthly cost, claw by claw, starting from nothing.
pub proof fn law_amounts_are_added_claw_by_claw<M: Copy, B, F: Fn(&M, &M) -> M>(
    cache: CostCache<M, B>,
    zero: M,
    plus: F,
    r: FleetCostRollup<M>,
)
    requires
        call_ensures(fleet_rollup::<M, B, F>, (&cache, zero, plus), r),
    ensures
        exists|partial: Seq<M>|
            #![trigger partial.last()]
            {
                &&& partial.len() == cache.values().len() + 1
                &&& partial[0] == zero
                &&& partial.last() == r.session_cost_usd
                &&& forall|i: int|
                    0 <= i < cache.values().len() ==> call_ensures(
                        plus,
                        (&partial[i], &(#[trigger] cache.values()[i]).summary.session_cost_usd),
                        partial[i + 1],
                    )
            },
        exists|partial: Seq<M>|
            #![trigger partial.last()]
            {
                &&& partial.len() == cache.values().len() + 1
                &&& partial[0] == zero
                &&& partial.last() == r.daily_cost_usd
                &&& forall|i: int|
                    0 <= i < cache.values().len() ==> call_ensures(
                        plus,
                        (&partial[i], &(#[trigger] cache.values()[i]).summary.daily_cost_usd),
                        partial[i + 1],
                    )
            },
        exists|partial: Seq<M>|
            #![trigger partial.last()]
            {
                &&& partial.len() == cache.values().len() + 1
                &&& partial[0] == zero
                &&& partial.last() == r.monthly_cost_usd
                &&& forall|i: int|
                    0 <= i < cache.values().len() ==> call_ensures(
                        plus,
                        (&partial[i], &(#[trigger] cache.values()[i]).summary.monthly_cost_usd),
                        partial[i + 1],
                    )
            },
{
    let snaps = cache.values();
    let s = choose|partial: Seq<M>| #[trigger]
        subtotals(plus, zero, sessions(snaps), partial) && partial.last() == r.session_cost_usd;
    let d = choose|partial: Seq<M>| #[trigger]
        subtotals(plus, zero, dailies(snaps), partial) && partial.last() == r.daily_cost_usd;
    let m = choose|partial: Seq<M>| #[trigger]
        subtotals(plus, zero, monthlies(snaps), partial) && partial.last() == r.monthly_cost_usd;
    assert forall|i: int| 0 <= i < snaps.len() implies call_ensures(
        plus,
        (&s[i], &(#[trigger] snaps[i]).summary.session_cost_usd),
        s[i + 1],
    ) && call_ensures(plus, (&d[i], &snaps[i].summary.daily_cost_usd), d[i + 1])
        && call_ensures(plus, (&m[i], &snaps[i].summary.monthly_cost_usd), m[i + 1]) by {
        assert(sessions(snaps)[i] == snaps[i].summary.session_cost_usd);
        assert(dailies(snaps)[i] == snaps[i].summary.daily_cost_usd);
        assert(monthlies(snaps)[i] == snaps[i].summary.monthly_cost_usd);
    }
    assert(s.last() == r.session_cost_usd);
    assert(d.last() == r.daily_cost_usd);
    assert(m.last() == r.monthly_cost_usd);
}

/// The roll-up of a fleet of one claw is what that claw reports, each amount added
/// to nothing; that of an empty fleet is nothing.
pub proof fn law_rollup_of_one_claw<M: Copy, B, F: Fn(&M, &M) -> M>(
    cache: CostCache<M, B>,
    zero: M,
    plus: F,
    r: FleetCostRollup<M>,
)
    requires
        call_ensures(fleet_rollup::<M, B, F>, (&cache, zero, plus), r),
        cache.values().len() <= 1,
    ensures
        r.claws == cache.values().len(),
        cache.values().len() == 0 ==> r.session_cost_usd == zero && r.daily_cost_usd == zero
            && r.monthly_cost_usd == zero && r.total_tokens == 0 && r.request_count == 0 && r.stale
            == 0,
        cache.values().len() == 1 ==> {
            let only = cache.values()[0];
            &&& call_ensures(plus, (&zero, &only.summary.session_cost_usd), r.session_cost_usd)
            &&& call_ensures(plus, (&zero, &only.summary.daily_cost_usd), r.daily_cost_usd)
            &&& call_ensures(plus, (&zero, &only.summary.monthly_cost_usd), r.monthly_cost_usd)
            &&& r.total_tokens == only.summary.total_tokens
            &&& r.request_count == only.summary.request_count
            &&& r.stale == if only.last_error is Some {
                1int
            } else {
                0
            }
        },
{
    law_amounts_are_added_claw_by_claw(cache, zero, plus, r);
    let snaps = cache.values();
    if snaps.len() == 1 {
        assert(snaps =~= Seq::empty().push(snaps[0]));
        law_one_more_claw_adds_its_counts(Seq::empty(), snaps[0]);
    }
    lemma_nothing_to_count::<M, B>();
    if snaps.len() == 0 {
        assert(snaps =~= Seq::empty());
    }
}

proof fn lemma_nothing_to_count<M, B>()
    ensures
        sum(tokens(Seq::<CostSnapshot<M, B>>::empty())) == 0,
        sum(requests(Seq::<CostSnapshot<M, B>>::empty())) == 0,
        stale_count(Seq::<CostSnapshot<M, B>>::empty()) == 0,
{
}

/// One more claw adds its tokens and its requests to those of the fleet, and one
/// to the claws with an old summary where its last poll failed.
pub proof fn law_one_more_claw_adds_its_counts<M, B>(
    snaps: Seq<CostSnapshot<M, B>>,
    one: CostSnapshot<M, B>,
)
    ensures
        sum(tokens(snaps.push(one))) == sum(tokens(snaps)) + one.summary.total_tokens,
        sum(requests(snaps.push(one))) == sum(requests(snaps)) + one.summary.request_count,
        stale_count(snaps.push(one)) == stale_count(snaps) + if one.last_error is Some {
            1int
        } else {
            0
        },
{
    let more = snaps.push(one);
    assert(more.drop_last() =~= snaps);
    assert(tokens(more).drop_last() =~= tokens(snaps));
    assert(requests(more).drop_last() =~= requests(snaps));
}

/// Two fleets of which one has a claw more, last by name: its roll-up counts the
/// claw's tokens and requests on top, the claw itself, and its staleness.
pub proof fn law_rollup_grows_with_the_fleet<M: Copy, B, F: Fn(&M, &M) -> M>(
    cache: CostCache<M, B>,
    larger: CostCache<M, B>,
    one: CostSnapshot<M, B>,
    zero: M,
    plus: F,
    r: FleetCostRollup<M>,
    s: FleetCostRollup<M>,
)
    requires
        call_ensures(fleet_rollup::<M, B, F>, (&cache, zero, plus), r),
        call_ensures(fleet_rollup::<M, B, F>, (&larger, zero, plus), s),
        larger.values() == cache.values().push(one),
    ensures
        s.claws == r.claws + 1,
        s.total_tokens == r.total_tokens + one.summary.total_tokens,
        s.request_count == r.request_count + one.summary.request_count,
        s.stale == r.stale + if one.last_error is Some {
            1int
        } else {
            0
        },
{
    law_one_more_claw_adds_its_counts(cache.values(), one);
}

/// A fleet can be rolled up unless it has more claws than can be counted, or its
/// tokens or requests are more than their type can hold.
pub proof fn law_fleet_can_be_rolled_up<M, B>(
    snaps: Seq<CostSnapshot<M, B>>,
    one: CostSnapshot<M, B>,
)
    ensures
        totals_fit(Seq::<CostSnapshot<M, B>>::empty()),
        totals_fit(snaps) ==> (totals_fit(snaps.push(one)) <==> {
            &&& snaps.len() + 1 <= u32::MAX
            &&& sum(tokens(snaps)) + one.summary.total_tokens <= u64::MAX
            &&& sum(requests(snaps)) + one.summary.request_count <= u64::MAX
        }),
        totals_fit(snaps.push(one)) ==> totals_fit(snaps),
{
    lemma_nothing_to_count::<M, B>();
    law_one_more_claw_adds_its_counts(snaps, one);
}

} // verus!
