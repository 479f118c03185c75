//! The periodic traffic bookkeeping of the server.
//!
//! Every collection round compares each live tunnel's byte counters with
//! those seen the round before and records the growth; when enough rounds
//! have passed, the recorded growth is written out together with the
//! per-tunnel, per-client and overall totals, and the record starts again.
//! Clients whose last heartbeat is too old are closed.
use crate::model::data_io_len::DataIOLen;
use std::collections::HashMap;
use vstd::prelude::*;
use vstd::std_specs::hash::spec_hash_map_iter;
use vstd::std_specs::iter::IteratorSpec;

verus! {

/// A live tunnel's counters at the moment of a collection round.
#[derive(Clone, Copy, Debug, PartialEq, Eq, Structural)]
pub struct ChannelSample {
    pub channel_id: i64,
    pub client_id: i64,
    pub data_len: DataIOLen,
}

/// The growth of a tunnel's traffic since the previous change seen.
#[derive(Clone, Copy, Debug, PartialEq, Eq, Structural)]
pub struct TrafficStats {
    pub forward_id: i64,
    pub client_id: i64,
    pub channel_id: i64,
    /// Seconds since the epoch of the round.
    pub date: i64,
    pub in_len: i64,
    pub out_len: i64,
}

/// The first position of `id` among the keys of `pairs`.
pub open spec fn key_index(pairs: Seq<(i64, DataIOLen)>, id: i64) -> Option<int>
    decreases pairs.len(),
{
    if pairs.len() == 0 {
        None
    } else {
        match key_index(pairs.drop_last(), id) {
            Some(i) => Some(i),
            None => if pairs.last().0 == id {
                Some(pairs.len() - 1)
            } else {
                None
            },
        }
    }
}

/// No key occurs twice.
pub open spec fn distinct_keys(pairs: Seq<(i64, DataIOLen)>) -> bool {
    forall|i: int, j: int| 0 <= i < j < pairs.len() ==> pairs[i].0 != pairs[j].0
}

/// The counts stored for `id`, zero when there are none.
pub open spec fn prev_of(m: Map<i64, DataIOLen>, id: i64) -> DataIOLen {
    if m.contains_key(id) {
        m[id]
    } else {
        DataIOLen { in_len: 0, out_len: 0 }
    }
}

/// The growth record of a sample against the previous counts.
pub open spec fn growth(s: ChannelSample, prev: DataIOLen, now: i64) -> TrafficStats {
    TrafficStats {
        forward_id: 0,
        client_id: s.client_id,
        channel_id: s.channel_id,
        date: now,
        in_len: (s.data_len.in_len - prev.in_len) as i64,
        out_len: (s.data_len.out_len - prev.out_len) as i64,
    }
}

/// One round over the samples, in order: each tunnel seen for the first
/// time starts from zero; a tunnel whose counters differ from the previous
/// ones records its growth and remembers the new counters.
pub open spec fn collect(
    pre: Map<i64, DataIOLen>,
    samples: Seq<ChannelSample>,
    now: i64,
) -> (Map<i64, DataIOLen>, Seq<TrafficStats>)
    decreases samples.len(),
{
    if samples.len() == 0 {
        (pre, seq![])
    } else {
        let r = collect(pre, samples.drop_last(), now);
        let s = samples.last();
        let p = prev_of(r.0, s.channel_id);
        if p == s.data_len {
            (r.0.insert(s.channel_id, p), r.1)
        } else {
            (r.0.insert(s.channel_id, s.data_len), r.1.push(growth(s, p, now)))
        }
    }
}

/// The counters never shrink: each sample holds at least the counts stored
/// for its tunnel, and no tunnel is sampled twice.
pub open spec fn samples_ok(pre: Map<i64, DataIOLen>, samples: Seq<ChannelSample>) -> bool {
    &&& forall|i: int|
        0 <= i < samples.len() ==> prev_of(pre, #[trigger] samples[i].channel_id).in_len
            <= samples[i].data_len.in_len && prev_of(pre, samples[i].channel_id).out_len
            <= samples[i].data_len.out_len
    &&& forall|i: int, j: int|
        0 <= i < j < samples.len() ==> samples[i].channel_id != samples[j].channel_id
}

/// After a round, every sampled tunnel's stored counters are the ones just
/// sampled, so the next round measures growth from them; tunnels not
/// sampled keep what they had.
pub proof fn lemma_collect_remembers_latest(
    pre: Map<i64, DataIOLen>,
    samples: Seq<ChannelSample>,
    now: i64,
)
    requires
        forall|i: int, j: int|
            0 <= i < j < samples.len() ==> samples[i].channel_id != samples[j].channel_id,
    ensures
        forall|i: int|
            0 <= i < samples.len() ==> prev_of(
                collect(pre, samples, now).0,
                #[trigger] samples[i].channel_id,
            ) == samples[i].data_len,
        forall|c: i64|
            (forall|i: int| 0 <= i < samples.len() ==> samples[i].channel_id != c) ==> prev_of(
                collect(pre, samples, now).0,
                c,
            ) == prev_of(pre, c),
    decreases samples.len(),
{
    if samples.len() > 0 {
        let init = samples.drop_last();
        lemma_collect_remembers_latest(pre, init, now);
        let s = samples.last();
        assert forall|i: int| 0 <= i < samples.len() implies prev_of(
            collect(pre, samples, now).0,
            #[trigger] samples[i].channel_id,
        ) == samples[i].data_len by {
            if i < samples.len() - 1 {
                assert(samples[i] == init[i]);
                assert(samples[i].channel_id != s.channel_id);
            }
        }
        assert forall|c: i64|
            (forall|i: int| 0 <= i < samples.len() ==> samples[i].channel_id != c) implies prev_of(
            collect(pre, samples, now).0,
            c,
        ) == prev_of(pre, c) by {
            assert(samples[samples.len() - 1].channel_id != c);
            assert forall|i: int| 0 <= i < init.len() implies init[i].channel_id != c by {
                assert(init[i] == samples[i]);
            }
        }
    }
}

/// The inbound growth of the records, each taken `as u64`.
pub open spec fn sum_in(stats: Seq<TrafficStats>) -> int
    decreases stats.len(),
{
    if stats.len() == 0 {
        0
    } else {
        sum_in(stats.drop_last()) + (stats.last().in_len as u64)
    }
}

/// The outbound growth of the records, each taken `as u64`.
pub open spec fn sum_out(stats: Seq<TrafficStats>) -> int
    decreases stats.len(),
{
    if stats.len() == 0 {
        0
    } else {
        sum_out(stats.drop_last()) + (stats.last().out_len as u64)
    }
}

/// The records of one client.
pub open spec fn of_client(stats: Seq<TrafficStats>, client_id: i64) -> Seq<TrafficStats> {
    stats.filter(|t: TrafficStats| t.client_id == client_id)
}

/// What a flush writes.
pub struct FlushPlan {
    /// The growth records, in order.
    pub stats: Vec<TrafficStats>,
    /// The latest counters of every tunnel seen, each tunnel once.
    pub channel_totals: Vec<(i64, DataIOLen)>,
    /// The summed growth of each client with records, each client once.
    pub client_totals: Vec<(i64, DataIOLen)>,
    /// The summed growth of all records.
    pub total: DataIOLen,
}

/// The state kept between collection rounds.
pub struct TrafficCollector {
    /// The counters last seen of each tunnel.
    pub pre_channel_len: HashMap<i64, DataIOLen>,
    /// Milliseconds collected since the last flush.
    pub pre_insert_time: u64,
    /// Growth records waiting for the next flush.
    pub cache: Vec<TrafficStats>,
}

fn prev_index(pre: &Vec<(i64, DataIOLen)>, id: i64) -> (r: Option<usize>)
    ensures
        r matches Some(i) ==> key_index(pre@, id) == Some(i as int),
        r is None ==> key_index(pre@, id) is None,
{
    let mut i: usize = 0;
    while i < pre.len()
        invariant
            i <= pre@.len(),
            key_index(pre@.take(i as int), id) is None,
        decreases pre.len() - i,
    {
        assert(pre@.take(i + 1).drop_last() =~= pre@.take(i as int));
        if pre[i].0 == id {
            proof {
                lemma_key_index_prefix(pre@, (i + 1) as int, id);
            }
            return Some(i);
        }
        i = i + 1;
    }
    assert(pre@.take(pre@.len() as int) =~= pre@);
    None
}

/// A key found in a prefix is found at the same place in the whole.
proof fn lemma_key_index_prefix(pairs: Seq<(i64, DataIOLen)>, n: int, id: i64)
    requires
        0 <= n <= pairs.len(),
        key_index(pairs.take(n), id) is Some,
    ensures
        key_index(pairs, id) == key_index(pairs.take(n), id),
    decreases pairs.len() - n,
{
    if n < pairs.len() {
        assert(pairs.take(n + 1).drop_last() =~= pairs.take(n));
        lemma_key_index_prefix(pairs, n + 1, id);
    } else {
        assert(pairs.take(n) =~= pairs);
    }
}

/// `key_index` finds a matching key, and the first one.
proof fn lemma_key_index(pairs: Seq<(i64, DataIOLen)>, id: i64)
    ensures
        key_index(pairs, id) matches Some(i) ==> 0 <= i < pairs.len() && pairs[i].0 == id,
        key_index(pairs, id) is None ==> forall|j: int| 0 <= j < pairs.len() ==> pairs[j].0 != id,
    decreases pairs.len(),
{
    if pairs.len() > 0 {
        lemma_key_index(pairs.drop_last(), id);
        assert forall|j: int| 0 <= j < pairs.len() - 1 implies pairs[j] == pairs.drop_last()[j] by {}
    }
}

impl TrafficCollector {
    /// A collector with nothing seen yet.
    pub fn new() -> (r: Self)
        ensures
            r.pre_channel_len@ == Map::<i64, DataIOLen>::empty(),
            r.pre_insert_time == 0,
            r.cache@.len() == 0,
    {
        TrafficCollector { pre_channel_len: HashMap::new(), pre_insert_time: 0, cache: Vec::new() }
    }

    /// One collection round at time `now` (seconds) over the live tunnels,
    /// `interval` milliseconds after the previous one: the growth of every
    /// tunnel whose counters changed is recorded. Returns whether more than
    /// `insert_interval` milliseconds have been collected, that is, whether
    /// a flush is due.
    pub fn collect_data(
        &mut self,
        samples: &Vec<ChannelSample>,
        now: i64,
        interval: u64,
        insert_interval: u64,
    ) -> (flush_due: bool)
        requires
            samples_ok(old(self).pre_channel_len@, samples@),
            old(self).pre_insert_time + interval <= u64::MAX,
        ensures
            final(self).pre_channel_len@ == collect(
                old(self).pre_channel_len@,
                samples@,
                now,
            ).0,
            final(self).cache@ == old(self).cache@ + collect(
                old(self).pre_channel_len@,
                samples@,
                now,
            ).1,
            final(self).pre_insert_time == old(self).pre_insert_time + interval,
            flush_due == (final(self).pre_insert_time > insert_interval),
    {
        broadcast use vstd::std_specs::hash::group_hash_axioms;

        self.pre_insert_time = self.pre_insert_time + interval;
        let ghost pre0 = self.pre_channel_len@;
        let ghost cache0 = self.cache@;
        let mut k: usize = 0;
        while k < samples.len()
            invariant
                k <= samples@.len(),
                self.pre_insert_time == old(self).pre_insert_time + interval,
                samples_ok(pre0, samples@),
                self.pre_channel_len@ == collect(pre0, samples@.take(k as int), now).0,
                self.cache@ == cache0 + collect(pre0, samples@.take(k as int), now).1,
                forall|c: i64|
                    (forall|j: int| 0 <= j < k ==> samples@[j].channel_id != c) ==> prev_of(
                        self.pre_channel_len@,
                        c,
                    ) == prev_of(pre0, c),
            decreases samples.len() - k,
        {
            let s = samples[k];
            assert(samples@.take(k + 1).drop_last() =~= samples@.take(k as int));
            assert(samples@.take(k + 1).last() == s);
            assert forall|j: int| 0 <= j < k implies samples@[j].channel_id != s.channel_id by {
                assert(samples@[j] == samples@[j]);
            }
            assert(prev_of(self.pre_channel_len@, s.channel_id) == prev_of(pre0, s.channel_id));
            let ghost cur_pre = self.pre_channel_len@;
            let found: Option<DataIOLen> = match self.pre_channel_len.get(&s.channel_id) {
                Some(v) => Some(*v),
                None => None,
            };
            let p = match found {
                Some(v) => v,
                None => DataIOLen { in_len: 0, out_len: 0 },
            };
            assert(p == prev_of(cur_pre, s.channel_id));
            if p.in_len == s.data_len.in_len && p.out_len == s.data_len.out_len {
                assert(p == s.data_len);
                if found.is_none() {
                    self.pre_channel_len.insert(s.channel_id, p);
                } else {
                    assert(cur_pre.insert(s.channel_id, p) =~= cur_pre);
                }
            } else {
                proof {
                    assert(prev_of(pre0, samples@[k as int].channel_id).in_len
                        <= samples@[k as int].data_len.in_len);
                }
                let stat = TrafficStats {
                    forward_id: 0,
                    client_id: s.client_id,
                    channel_id: s.channel_id,
                    date: now,
                    in_len: (s.data_len.in_len - p.in_len) as i64,
                    out_len: (s.data_len.out_len - p.out_len) as i64,
                };
                self.cache.push(stat);
                self.pre_channel_len.insert(s.channel_id, s.data_len);
            }
            proof {
                assert forall|c: i64|
                    (forall|j: int| 0 <= j < k + 1 ==> samples@[j].channel_id != c) implies prev_of(
                    self.pre_channel_len@,
                    c,
                ) == prev_of(pre0, c) by {
                    assert(samples@[k as int].channel_id != c);
                }
            }
            k = k + 1;
        }
        assert(samples@.take(samples@.len() as int) =~= samples@);
        self.pre_insert_time > insert_interval
    }

    /// The latest counters of every tunnel seen, in the map's order.
    fn channel_totals(&self) -> (r: Vec<(i64, DataIOLen)>)
        ensures
            distinct_keys(r@),
            r@.len() == self.pre_channel_len@.dom().len(),
            forall|i: int|
                0 <= i < r@.len() ==> self.pre_channel_len@.contains_key(#[trigger] r@[i].0)
                    && self.pre_channel_len@[r@[i].0] == r@[i].1,
            forall|c: i64| #[trigger] self.pre_channel_len@.contains_key(c) ==> key_index(r@, c) is Some,
    {
        broadcast use vstd::std_specs::hash::group_hash_axioms;

        let m = &self.pre_channel_len;
        let mut r: Vec<(i64, DataIOLen)> = Vec::new();
        let ghost v = spec_hash_map_iter(m).remaining();
        for e in it: m.iter()
            invariant
                it.seq() == v,
                r@.len() == it.index(),
                it.index() <= v.len(),
                forall|i: int| 0 <= i < r@.len() ==> #[trigger] r@[i] == (*v[i].0, *v[i].1),
        {
            let (k, x) = e;
            r.push((*k, *x));
        }
        proof {
            assert forall|i: int| 0 <= i < r@.len() implies self.pre_channel_len@.contains_key(#[trigger] r@[i].0)
                && self.pre_channel_len@[r@[i].0] == r@[i].1 by {
                assert(m@.contains_key(*v[i].0));
            }
            assert forall|i: int, j: int| 0 <= i < j < r@.len() implies r@[i].0 != r@[j].0 by {
                if r@[i].0 == r@[j].0 {
                    assert(m@.contains_key(*v[i].0));
                    assert(m@.contains_key(*v[j].0));
                    assert(v[i] == v[j]);
                }
            }
            assert forall|c: i64| #[trigger] self.pre_channel_len@.contains_key(c) implies key_index(r@, c) is Some by {
                assert(v.contains((&c, &m@[c])));
                let w = choose|w: int| 0 <= w < v.len() && v[w] == (&c, &m@[c]);
                assert(r@[w].0 == c);
                lemma_key_index(r@, c);
            }
        }
        r
    }

    /// What the due flush writes: the waiting records, the latest counters
    /// of every tunnel, each client's summed growth and the overall sum.
    /// The sums must fit in `u64`.
    pub fn flush_plan(&self) -> (plan: FlushPlan)
        requires
            sum_in(self.cache@) <= u64::MAX,
            sum_out(self.cache@) <= u64::MAX,
        ensures
            plan.stats@ == self.cache@,
            distinct_keys(plan.channel_totals@),
            plan.channel_totals@.len() == self.pre_channel_len@.dom().len(),
            forall|i: int|
                0 <= i < plan.channel_totals@.len() ==> self.pre_channel_len@.contains_key(
                    #[trigger] plan.channel_totals@[i].0,
                ) && self.pre_channel_len@[plan.channel_totals@[i].0] == plan.channel_totals@[i].1,
            forall|c: i64| #[trigger]
                self.pre_channel_len@.contains_key(c) ==> key_index(plan.channel_totals@, c) is Some,
            distinct_keys(plan.client_totals@),
            forall|i: int|
                0 <= i < plan.client_totals@.len() ==> {
                    let (c, d) = #[trigger] plan.client_totals@[i];
                    &&& of_client(self.cache@, c).len() > 0
                    &&& d.in_len == sum_in(of_client(self.cache@, c))
                    &&& d.out_len == sum_out(of_client(self.cache@, c))
                },
            forall|j: int|
                0 <= j < self.cache@.len() ==> key_index(
                    plan.client_totals@,
                    #[trigger] self.cache@[j].client_id,
                ) is Some,
            plan.total.in_len == sum_in(self.cache@),
            plan.total.out_len == sum_out(self.cache@),
    {
        let totals = client_totals(&self.cache);
        let total = grand_total(&totals);
        let mut stats: Vec<TrafficStats> = Vec::new();
        let mut i: usize = 0;
        while i < self.cache.len()
            invariant
                i <= self.cache@.len(),
                stats@ == self.cache@.take(i as int),
            decreases self.cache.len() - i,
        {
            stats.push(self.cache[i]);
            assert(stats@ =~= self.cache@.take(i + 1));
            i = i + 1;
        }
        assert(stats@ =~= self.cache@);
        let channels = self.channel_totals();
        FlushPlan { stats, channel_totals: channels, client_totals: totals, total }
    }

    /// After a flush was written: no records wait and the collected time
    /// starts again.
    pub fn flushed(&mut self)
        ensures
            final(self).cache@.len() == 0,
            final(self).pre_insert_time == 0,
            final(self).pre_channel_len@ == old(self).pre_channel_len@,
    {
        self.cache.clear();
        self.pre_insert_time = 0;
    }
}

/// The sums of the values of `pairs`.
pub open spec fn vals_in(pairs: Seq<(i64, DataIOLen)>) -> int
    decreases pairs.len(),
{
    if pairs.len() == 0 {
        0
    } else {
        vals_in(pairs.drop_last()) + pairs.last().1.in_len
    }
}

/// The sums of the values of `pairs`.
pub open spec fn vals_out(pairs: Seq<(i64, DataIOLen)>) -> int
    decreases pairs.len(),
{
    if pairs.len() == 0 {
        0
    } else {
        vals_out(pairs.drop_last()) + pairs.last().1.out_len
    }
}

proof fn lemma_vals_update(pairs: Seq<(i64, DataIOLen)>, i: int, e: (i64, DataIOLen))
    requires
        0 <= i < pairs.len(),
    ensures
        vals_in(pairs.update(i, e)) == vals_in(pairs) - pairs[i].1.in_len + e.1.in_len,
        vals_out(pairs.update(i, e)) == vals_out(pairs) - pairs[i].1.out_len + e.1.out_len,
    decreases pairs.len(),
{
    if i < pairs.len() - 1 {
        assert(pairs.update(i, e).drop_last() =~= pairs.drop_last().update(i, e));
        lemma_vals_update(pairs.drop_last(), i, e);
    } else {
        assert(pairs.update(i, e).drop_last() =~= pairs.drop_last());
    }
}

/// Traffic sums are never negative.
pub proof fn lemma_sum_nonneg(stats: Seq<TrafficStats>)
    ensures
        sum_in(stats) >= 0,
        sum_out(stats) >= 0,
    decreases stats.len(),
{
    if stats.len() > 0 {
        lemma_sum_nonneg(stats.drop_last());
    }
}

/// The traffic of a prefix is at most that of the whole sequence.
pub proof fn lemma_sum_prefix(stats: Seq<TrafficStats>, n: int)
    requires
        0 <= n <= stats.len(),
    ensures
        sum_in(stats.take(n)) <= sum_in(stats),
        sum_out(stats.take(n)) <= sum_out(stats),
    decreases stats.len() - n,
{
    if n < stats.len() {
        lemma_sum_prefix(stats.drop_last(), n);
        assert(stats.drop_last().take(n) =~= stats.take(n));
    } else {
        assert(stats.take(n) =~= stats);
    }
}

proof fn lemma_group_le(stats: Seq<TrafficStats>, c: i64)
    ensures
        sum_in(of_client(stats, c)) <= sum_in(stats),
        sum_out(of_client(stats, c)) <= sum_out(stats),
    decreases stats.len(),
{
    if stats.len() > 0 {
        lemma_group_le(stats.drop_last(), c);
        lemma_filter_last(stats, c);
        lemma_sum_push(of_client(stats.drop_last(), c), stats.last());
    }
}

proof fn lemma_sum_push(x: Seq<TrafficStats>, e: TrafficStats)
    ensures
        sum_in(x.push(e)) == sum_in(x) + (e.in_len as u64),
        sum_out(x.push(e)) == sum_out(x) + (e.out_len as u64),
{
    assert(x.push(e).drop_last() =~= x);
}

proof fn lemma_filter_last(stats: Seq<TrafficStats>, c: i64)
    requires
        stats.len() > 0,
    ensures
        of_client(stats, c) == if stats.last().client_id == c {
            of_client(stats.drop_last(), c).push(stats.last())
        } else {
            of_client(stats.drop_last(), c)
        },
{
    reveal(Seq::filter);
}

/// Each client's summed growth, each client once, in order of first record.
fn client_totals(stats: &Vec<TrafficStats>) -> (r: Vec<(i64, DataIOLen)>)
    requires
        sum_in(stats@) <= u64::MAX,
        sum_out(stats@) <= u64::MAX,
    ensures
        distinct_keys(r@),
        forall|i: int|
            0 <= i < r@.len() ==> {
                let (c, d) = #[trigger] r@[i];
                &&& of_client(stats@, c).len() > 0
                &&& d.in_len == sum_in(of_client(stats@, c))
                &&& d.out_len == sum_out(of_client(stats@, c))
            },
        forall|j: int| 0 <= j < stats@.len() ==> key_index(r@, #[trigger] stats@[j].client_id) is Some,
        vals_in(r@) == sum_in(stats@),
        vals_out(r@) == sum_out(stats@),
{
    let mut r: Vec<(i64, DataIOLen)> = Vec::new();
    let mut i: usize = 0;
    while i < stats.len()
        invariant
            i <= stats@.len(),
            sum_in(stats@) <= u64::MAX,
            sum_out(stats@) <= u64::MAX,
            distinct_keys(r@),
            forall|m: int|
                0 <= m < r@.len() ==> {
                    let (c, d) = #[trigger] r@[m];
                    &&& of_client(stats@.take(i as int), c).len() > 0
                    &&& d.in_len == sum_in(of_client(stats@.take(i as int), c))
                    &&& d.out_len == sum_out(of_client(stats@.take(i as int), c))
                },
            forall|j: int| 0 <= j < i ==> key_index(r@, #[trigger] stats@[j].client_id) is Some,
            vals_in(r@) == sum_in(stats@.take(i as int)),
            vals_out(r@) == sum_out(stats@.take(i as int)),
        decreases stats.len() - i,
    {
        let t = stats[i];
        let ghost c = t.client_id;
        let ghost pre = stats@.take(i as int);
        let ghost post = stats@.take(i + 1);
        proof {
            assert(post.drop_last() =~= pre);
            assert(post.last() == t);
            lemma_filter_last(post, c);
            assert forall|c2: i64| c2 != c implies of_client(post, c2) == of_client(pre, c2) by {
                lemma_filter_last(post, c2);
            }
            lemma_sum_prefix(stats@, i + 1);
            lemma_group_le(post, c);
            lemma_sum_push(of_client(pre, c), t);
            lemma_sum_push(pre, t);
            lemma_key_index(r@, c);
        }
        let ghost r0 = r@;
        match prev_index(&r, t.client_id) {
            Some(m) => {
                assert(r0[m as int].0 == c);
                let d = r[m].1;
                let nd = DataIOLen {
                    in_len: d.in_len + t.in_len as u64,
                    out_len: d.out_len + t.out_len as u64,
                };
                r.set(m, (t.client_id, nd));
                proof {
                    lemma_vals_update(r0, m as int, (c, nd));
                    assert forall|x: int| 0 <= x < r@.len() implies r@[x].0 == r0[x].0 by {}
                    assert forall|x: int|
                        0 <= x < r@.len() && x != m implies #[trigger] r@[x] == r0[x] && r0[x].0 != c by {
                        assert(r0[x].0 != r0[m as int].0);
                    }
                }
            },
            None => {
                let nd = DataIOLen { in_len: t.in_len as u64, out_len: t.out_len as u64 };
                r.push((t.client_id, nd));
                proof {
                    assert(r@.drop_last() =~= r0);
                    assert forall|x: int| 0 <= x < r0.len() implies #[trigger] r@[x] == r0[x] && r0[x].0 != c by {}
                    assert(of_client(pre, c).len() == 0) by {
                        if of_client(pre, c).len() > 0 {
                            let p = |u: TrafficStats| u.client_id == c;
                            let x = pre.filter(p)[0];
                            assert(pre.filter(p).contains(x));
                            pre.lemma_filter_pred(p, 0);
                            pre.lemma_filter_contains_rev(p, x);
                            let j = choose|j: int| 0 <= j < pre.len() && pre[j] == x;
                            assert(stats@[j] == pre[j]);
                            lemma_key_index(r0, stats@[j].client_id);
                        }
                    }
                    assert(of_client(pre, c) =~= Seq::<TrafficStats>::empty());
                }
            },
        }
        proof {
            assert(r@[key_index(r@, c).unwrap()].0 == c) by {
                lemma_key_index(r@, c);
                if key_index(r@, c) is None {
                    let q: int = choose|q: int| 0 <= q < r@.len() && r@[q].0 == c;
                    assert(r@[q].0 == c);
                }
            }
            assert forall|j: int| 0 <= j < i + 1 implies key_index(
                r@,
                #[trigger] stats@[j].client_id,
            ) is Some by {
                let k = stats@[j].client_id;
                lemma_key_index(r@, k);
                if j < i {
                    lemma_key_index(r0, k);
                    let q = key_index(r0, k).unwrap();
                    assert(r@[q].0 == k);
                } else {
                    assert(stats@[j] == t);
                }
            }
        }
        i = i + 1;
    }
    assert(stats@.take(stats@.len() as int) =~= stats@);
    r
}

/// The overall sum of the per-client sums.
fn grand_total(totals: &Vec<(i64, DataIOLen)>) -> (r: DataIOLen)
    requires
        vals_in(totals@) <= u64::MAX,
        vals_out(totals@) <= u64::MAX,
    ensures
        r.in_len == vals_in(totals@),
        r.out_len == vals_out(totals@),
{
    let mut acc = DataIOLen { in_len: 0, out_len: 0 };
    let mut i: usize = 0;
    while i < totals.len()
        invariant
            i <= totals@.len(),
            vals_in(totals@) <= u64::MAX,
            vals_out(totals@) <= u64::MAX,
            acc.in_len == vals_in(totals@.take(i as int)),
            acc.out_len == vals_out(totals@.take(i as int)),
        decreases totals.len() - i,
    {
        assert(totals@.take(i + 1).drop_last() =~= totals@.take(i as int));
        proof {
            lemma_vals_prefix(totals@, i + 1);
        }
        acc = acc + totals[i].1;
        i = i + 1;
    }
    assert(totals@.take(totals@.len() as int) =~= totals@);
    acc
}

proof fn lemma_vals_prefix(pairs: Seq<(i64, DataIOLen)>, n: int)
    requires
        0 <= n <= pairs.len(),
    ensures
        vals_in(pairs.take(n)) <= vals_in(pairs),
        vals_out(pairs.take(n)) <= vals_out(pairs),
    decreases pairs.len() - n,
{
    if n < pairs.len() {
        lemma_vals_prefix(pairs.drop_last(), n);
        assert(pairs.drop_last().take(n) =~= pairs.take(n));
    } else {
        assert(pairs.take(n) =~= pairs);
    }
}

/// The clients whose last heartbeat (milliseconds) is more than
/// `2 * heart_time` before `now`, in the order given.
pub fn stale_clients(clients: &Vec<(i64, u64)>, now: u64, heart_time: u64) -> (r: Vec<i64>)
    requires
        forall|i: int| 0 <= i < clients@.len() ==> #[trigger] clients@[i].1 <= now,
        2 * heart_time <= u64::MAX,
    ensures
        r@ == clients@.filter(|c: (i64, u64)| now - c.1 > 2 * heart_time).map_values(
            |c: (i64, u64)| c.0,
        ),
{
    let ghost f = |c: (i64, u64)| now - c.1 > 2 * heart_time;
    let mut r: Vec<i64> = Vec::new();
    let mut i: usize = 0;
    while i < clients.len()
        invariant
            i <= clients@.len(),
            2 * heart_time <= u64::MAX,
            f == (|c: (i64, u64)| now - c.1 > 2 * heart_time),
            forall|j: int| 0 <= j < clients@.len() ==> #[trigger] clients@[j].1 <= now,
            r@ == clients@.take(i as int).filter(f).map_values(|c: (i64, u64)| c.0),
        decreases clients.len() - i,
    {
        let (id, heart) = clients[i];
        assert(heart == clients@[i as int].1);
        let ghost r0 = r@;
        if now - heart > 2 * heart_time {
            r.push(id);
        }
        proof {
            reveal(Seq::filter);
            let t0 = clients@.take(i as int);
            let t1 = clients@.take(i + 1);
            assert(t1.drop_last() =~= t0);
            assert(t1.last() == (id, heart));
            if f((id, heart)) {
                assert(t1.filter(f) == t0.filter(f).push((id, heart)));
                assert(r@ =~= t1.filter(f).map_values(|c: (i64, u64)| c.0));
            } else {
                assert(t1.filter(f) == t0.filter(f));
            }
        }
        i = i + 1;
    }
    assert(clients@.take(clients@.len() as int) =~= clients@);
    r
}

/// The records of one tunnel.
pub open spec fn of_channel(stats: Seq<TrafficStats>, channel_id: i64) -> Seq<TrafficStats> {
    stats.filter(|t: TrafficStats| t.channel_id == channel_id)
}

proof fn lemma_of_channel_push(stats: Seq<TrafficStats>, e: TrafficStats, c: i64)
    ensures
        of_channel(stats.push(e), c) == (if e.channel_id == c {
            of_channel(stats, c).push(e)
        } else {
            of_channel(stats, c)
        }),
{
    reveal(Seq::filter);
    assert(stats.push(e).drop_last() =~= stats);
}

/// No traffic is lost in a round: for every sampled tunnel, the counters
/// stored before the round plus the growth recorded for it in the round
/// are the counters just sampled; a tunnel gets one record when its
/// counters changed and none when they did not; tunnels not sampled get
/// no record. (Each growth must fit in `i64`, the records' type.)
pub proof fn lemma_collect_keeps_all_traffic(
    pre: Map<i64, DataIOLen>,
    samples: Seq<ChannelSample>,
    now: i64,
)
    requires
        samples_ok(pre, samples),
        forall|i: int|
            0 <= i < samples.len() ==> #[trigger] samples[i].data_len.in_len - prev_of(
                pre,
                samples[i].channel_id,
            ).in_len <= i64::MAX && samples[i].data_len.out_len - prev_of(
                pre,
                samples[i].channel_id,
            ).out_len <= i64::MAX,
    ensures
        forall|i: int|
            0 <= i < samples.len() ==> {
                let c = #[trigger] samples[i].channel_id;
                let recs = of_channel(collect(pre, samples, now).1, c);
                &&& prev_of(pre, c).in_len + sum_in(recs) == samples[i].data_len.in_len
                &&& prev_of(pre, c).out_len + sum_out(recs) == samples[i].data_len.out_len
                &&& recs.len() == (if samples[i].data_len == prev_of(pre, c) {
                    0int
                } else {
                    1int
                })
            },
        forall|c: i64|
            (forall|i: int| 0 <= i < samples.len() ==> samples[i].channel_id != c) ==> #[trigger] of_channel(
                collect(pre, samples, now).1,
                c,
            ).len() == 0,
    decreases samples.len(),
{
    reveal(Seq::filter);
    if samples.len() > 0 {
        let init = samples.drop_last();
        let s = samples.last();
        let n = samples.len() - 1;
        assert forall|i: int| 0 <= i < init.len() implies init[i] == samples[i] by {}
        lemma_collect_keeps_all_traffic(pre, init, now);
        lemma_collect_remembers_latest(pre, init, now);
        let r = collect(pre, init, now);
        assert forall|i: int| 0 <= i < init.len() implies init[i].channel_id != s.channel_id by {
            assert(samples[i].channel_id != samples[n].channel_id);
        }
        let p = prev_of(r.0, s.channel_id);
        assert(p == prev_of(pre, s.channel_id));
        assert(of_channel(r.1, s.channel_id).len() == 0);
        assert(of_channel(r.1, s.channel_id) =~= Seq::<TrafficStats>::empty());
        let g = growth(s, p, now);
        lemma_of_channel_push(r.1, g, s.channel_id);
        assert forall|c: i64| c != s.channel_id implies of_channel(collect(pre, samples, now).1, c)
            == of_channel(r.1, c) by {
            lemma_of_channel_push(r.1, g, c);
        }
        if p != s.data_len {
            let one = seq![g];
            assert(of_channel(collect(pre, samples, now).1, s.channel_id) =~= one);
            assert(one.drop_last() =~= Seq::<TrafficStats>::empty());
            assert(sum_in(one.drop_last()) == 0);
            assert(sum_out(one.drop_last()) == 0);
            assert(one.last() == g);
            assert(sum_in(one) == g.in_len as u64);
            assert(sum_out(one) == g.out_len as u64);
            assert(samples[n] == s);
        }
        assert forall|i: int| 0 <= i < samples.len() implies {
            let c = #[trigger] samples[i].channel_id;
            let recs = of_channel(collect(pre, samples, now).1, c);
            &&& prev_of(pre, c).in_len + sum_in(recs) == samples[i].data_len.in_len
            &&& prev_of(pre, c).out_len + sum_out(recs) == samples[i].data_len.out_len
            &&& recs.len() == (if samples[i].data_len == prev_of(pre, c) {
                0int
            } else {
                1int
            })
        } by {
            if i < n {
                assert(init[i] == samples[i]);
                assert(samples[i].channel_id != s.channel_id);
            } else {
                assert(samples[i] == s);
                if p == s.data_len {
                    assert(of_channel(collect(pre, samples, now).1, s.channel_id) =~= Seq::<TrafficStats>::empty());
                }
            }
        }
        assert forall|c: i64|
            (forall|i: int| 0 <= i < samples.len() ==> samples[i].channel_id != c) implies #[trigger] of_channel(
            collect(pre, samples, now).1,
            c,
        ).len() == 0 by {
            assert(samples[n].channel_id != c);
            assert forall|i: int| 0 <= i < init.len() implies init[i].channel_id != c by {
                assert(init[i] == samples[i]);
            }
            assert(of_channel(r.1, c).len() == 0);
            lemma_of_channel_push(r.1, g, c);
            assert(of_channel(collect(pre, samples, now).1, c) == of_channel(r.1, c));
        }
    }
}

} // verus!
