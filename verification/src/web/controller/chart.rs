//! The traffic charts: the current counts of a tunnel, a client or the
//! whole server, and the scale of a traffic history.
use crate::model::data_io_len::DataIOLen;
use crate::nps::nps_timer::ChannelSample;
use crate::text::{append_chars, chars_of, dec, dec_exec, string_of};
use vstd::prelude::*;

verus! {

/// Which traffic a chart shows: a tunnel, else a client, else everything.
pub struct ChartParam {
    pub client_id: Option<i64>,
    pub channel_id: Option<i64>,
    pub forward_id: Option<i64>,
}

/// The period of a traffic history, in seconds since the epoch.
pub struct DataLenQuery {
    pub client_id: Option<i64>,
    pub channel_id: Option<i64>,
    pub forward_id: Option<i64>,
    pub start_time: i64,
    pub end_time: i64,
}

/// The summed counters of the samples.
pub open spec fn sum_samples(s: Seq<ChannelSample>) -> (int, int)
    decreases s.len(),
{
    if s.len() == 0 {
        (0, 0)
    } else {
        let p = sum_samples(s.drop_last());
        (p.0 + s.last().data_len.in_len, p.1 + s.last().data_len.out_len)
    }
}

/// The samples of one client.
pub open spec fn client_samples(s: Seq<ChannelSample>, client_id: i64) -> Seq<ChannelSample> {
    s.filter(|c: ChannelSample| c.client_id == client_id)
}

/// The first sample of a tunnel.
pub open spec fn channel_sample(s: Seq<ChannelSample>, channel_id: i64) -> Option<ChannelSample>
    decreases s.len(),
{
    if s.len() == 0 {
        None
    } else {
        match channel_sample(s.drop_last(), channel_id) {
            Some(c) => Some(c),
            None => if s.last().channel_id == channel_id {
                Some(s.last())
            } else {
                None
            },
        }
    }
}

/// The counts a chart shows: the tunnel's (zero when it is not live), else
/// the sum over the client's tunnels, else the sum over all tunnels.
pub open spec fn current_len(param: ChartParam, s: Seq<ChannelSample>) -> (int, int) {
    match param.channel_id {
        Some(id) => match channel_sample(s, id) {
            Some(c) => (c.data_len.in_len as int, c.data_len.out_len as int),
            None => (0, 0),
        },
        None => match param.client_id {
            Some(cid) => sum_samples(client_samples(s, cid)),
            None => sum_samples(s),
        },
    }
}

proof fn lemma_sum_push(s: Seq<ChannelSample>, e: ChannelSample)
    ensures
        sum_samples(s.push(e)) == (sum_samples(s).0 + e.data_len.in_len, sum_samples(s).1
            + e.data_len.out_len),
{
    assert(s.push(e).drop_last() =~= s);
}

proof fn lemma_sum_nonneg(s: Seq<ChannelSample>)
    ensures
        sum_samples(s).0 >= 0,
        sum_samples(s).1 >= 0,
    decreases s.len(),
{
    if s.len() > 0 {
        lemma_sum_nonneg(s.drop_last());
    }
}

proof fn lemma_sum_prefix(s: Seq<ChannelSample>, n: int)
    requires
        0 <= n <= s.len(),
    ensures
        sum_samples(s.take(n)).0 <= sum_samples(s).0,
        sum_samples(s.take(n)).1 <= sum_samples(s).1,
    decreases s.len() - n,
{
    if n < s.len() {
        lemma_sum_prefix(s.drop_last(), n);
        assert(s.drop_last().take(n) =~= s.take(n));
    } else {
        assert(s.take(n) =~= s);
    }
}

/// The summed counts of the samples that `keep` selects, overflow-free.
fn sum_selected(samples: &Vec<ChannelSample>, client: Option<i64>) -> (r: DataIOLen)
    requires
        ({
            let sel = match client {
                Some(cid) => client_samples(samples@, cid),
                None => samples@,
            };
            sum_samples(sel).0 <= u64::MAX && sum_samples(sel).1 <= u64::MAX
        }),
    ensures
        ({
            let sel = match client {
                Some(cid) => client_samples(samples@, cid),
                None => samples@,
            };
            r.in_len == sum_samples(sel).0 && r.out_len == sum_samples(sel).1
        }),
{
    let ghost sel = match client {
        Some(cid) => client_samples(samples@, cid),
        None => samples@,
    };
    let ghost p = |c: ChannelSample| match client {
        Some(cid) => c.client_id == cid,
        None => true,
    };
    proof {
        reveal(Seq::filter);
        assert(sel =~= samples@.filter(p)) by {
            lemma_filter_all_or_client(samples@, client);
        }
    }
    let mut acc = DataIOLen { in_len: 0, out_len: 0 };
    let mut i: usize = 0;
    while i < samples.len()
        invariant
            i <= samples@.len(),
            p == (|c: ChannelSample| match client {
                Some(cid) => c.client_id == cid,
                None => true,
            }),
            sel == samples@.filter(p),
            sum_samples(sel).0 <= u64::MAX && sum_samples(sel).1 <= u64::MAX,
            acc.in_len == sum_samples(samples@.take(i as int).filter(p)).0,
            acc.out_len == sum_samples(samples@.take(i as int).filter(p)).1,
        decreases samples.len() - i,
    {
        let c = samples[i];
        let ghost t0 = samples@.take(i as int);
        let ghost t1 = samples@.take(i + 1);
        proof {
            reveal(Seq::filter);
            assert(t1.drop_last() =~= t0);
            assert(t1.last() == c);
            lemma_filter_prefix_sum(samples@, i + 1, p);
            lemma_sum_push(t0.filter(p), c);
        }
        let keep = match client {
            Some(cid) => c.client_id == cid,
            None => true,
        };
        if keep {
            assert(t1.filter(p) == t0.filter(p).push(c));
            acc = DataIOLen {
                in_len: acc.in_len + c.data_len.in_len,
                out_len: acc.out_len + c.data_len.out_len,
            };
        } else {
            assert(t1.filter(p) == t0.filter(p));
        }
        i = i + 1;
    }
    assert(samples@.take(samples@.len() as int) =~= samples@);
    acc
}

proof fn lemma_filter_all_or_client(s: Seq<ChannelSample>, client: Option<i64>)
    ensures
        (match client {
            Some(cid) => client_samples(s, cid),
            None => s,
        }) == s.filter(
            |c: ChannelSample| match client {
                Some(cid) => c.client_id == cid,
                None => true,
            },
        ),
    decreases s.len(),
{
    reveal(Seq::filter);
    let p = |c: ChannelSample| match client {
        Some(cid) => c.client_id == cid,
        None => true,
    };
    match client {
        Some(cid) => {
            assert(client_samples(s, cid) == s.filter(|c: ChannelSample| c.client_id == cid));
            assert forall|c: ChannelSample| #[trigger] p(c) == (c.client_id == cid) by {}
            assert((|c: ChannelSample| c.client_id == cid) =~= p);
        },
        None => {
            if s.len() > 0 {
                lemma_filter_all_or_client(s.drop_last(), client);
                assert(s.drop_last().push(s.last()) =~= s);
            }
        },
    }
}

proof fn lemma_filter_prefix_sum(s: Seq<ChannelSample>, n: int, p: spec_fn(ChannelSample) -> bool)
    requires
        0 <= n <= s.len(),
    ensures
        sum_samples(s.take(n).filter(p)).0 <= sum_samples(s.filter(p)).0,
        sum_samples(s.take(n).filter(p)).1 <= sum_samples(s.filter(p)).1,
    decreases s.len() - n,
{
    reveal(Seq::filter);
    if n < s.len() {
        lemma_filter_prefix_sum(s.drop_last(), n, p);
        assert(s.drop_last().take(n) =~= s.take(n));
        if p(s.last()) {
            lemma_sum_push(s.drop_last().filter(p), s.last());
        }
    } else {
        assert(s.take(n) =~= s);
    }
}

/// The counts a chart shows, as `in:out` in decimal. The sums must fit in
/// `u64`.
pub fn get_current_len(param: &ChartParam, samples: &Vec<ChannelSample>) -> (r: String)
    requires
        0 <= current_len(*param, samples@).0 <= u64::MAX,
        0 <= current_len(*param, samples@).1 <= u64::MAX,
    ensures
        r@ == dec(current_len(*param, samples@).0 as nat) + seq![':'] + dec(
            current_len(*param, samples@).1 as nat,
        ),
{
    let d: DataIOLen = match param.channel_id {
        Some(id) => match find_channel(samples, id) {
            Some(f) => f,
            None => DataIOLen { in_len: 0, out_len: 0 },
        },
        None => sum_selected(samples, param.client_id),
    };
    let mut v = dec_exec(d.in_len);
    v.push(':');
    append_chars(&mut v, &dec_exec(d.out_len));
    string_of(&v)
}

/// The counters of the first sample of the tunnel.
fn find_channel(samples: &Vec<ChannelSample>, id: i64) -> (r: Option<DataIOLen>)
    ensures
        r matches Some(f) ==> channel_sample(samples@, id) matches Some(c) && c.data_len == f,
        r is None ==> channel_sample(samples@, id) is None,
{
    let mut i: usize = 0;
    while i < samples.len()
        invariant
            i <= samples@.len(),
            channel_sample(samples@.take(i as int), id) is None,
        decreases samples.len() - i,
    {
        assert(samples@.take(i + 1).drop_last() =~= samples@.take(i as int));
        if samples[i].channel_id == id {
            proof {
                assert(channel_sample(samples@.take(i + 1), id) == Some(samples@[i as int]));
                lemma_channel_prefix(samples@, i + 1, id);
            }
            return Some(samples[i].data_len);
        }
        i = i + 1;
    }
    assert(samples@.take(samples@.len() as int) =~= samples@);
    None
}

proof fn lemma_channel_prefix(s: Seq<ChannelSample>, n: int, id: i64)
    requires
        0 <= n <= s.len(),
        channel_sample(s.take(n), id) is Some,
    ensures
        channel_sample(s, id) == channel_sample(s.take(n), id),
    decreases s.len() - n,
{
    if n < s.len() {
        assert(s.take(n + 1).drop_last() =~= s.take(n));
        lemma_channel_prefix(s, n + 1, id);
    } else {
        assert(s.take(n) =~= s);
    }
}

/// The date pattern of a history's labels, finer for shorter periods: to
/// the second up to a minute, to the minute up to an hour, to the hour up
/// to a day, to the day up to 31 days, to the month up to 366 days, else
/// to the year.
pub fn label_format(time_span: i64) -> (r: &'static str)
    ensures
        r@ == if time_span <= 60 {
            "%Y-%m-%d %H:%M:%S"@
        } else if time_span <= 3600 {
            "%Y-%m-%d %H:%M"@
        } else if time_span <= 86400 {
            "%Y-%m-%d %H"@
        } else if time_span <= 2678400 {
            "%Y-%m-%d"@
        } else if time_span <= 31622400 {
            "%Y-%m"@
        } else {
            "%Y"@
        },
{
    if time_span <= 60 {
        "%Y-%m-%d %H:%M:%S"
    } else if time_span <= 60 * 60 {
        "%Y-%m-%d %H:%M"
    } else if time_span <= 24 * 60 * 60 {
        "%Y-%m-%d %H"
    } else if time_span <= 31 * 24 * 60 * 60 {
        "%Y-%m-%d"
    } else if time_span <= 366 * 24 * 60 * 60 {
        "%Y-%m"
    } else {
        "%Y"
    }
}

/// The unit of a history whose largest count is `max_size`: the largest of
/// GB, MB, KB that the count exceeds, else bytes; with its size in bytes.
pub fn data_unit(max_size: u64) -> (r: (u64, &'static str))
    ensures
        r.0 == (if max_size > 1073741824 {
            1073741824u64
        } else if max_size > 1048576 {
            1048576u64
        } else if max_size > 1024 {
            1024u64
        } else {
            1u64
        }),
        r.1@ == (if max_size > 1073741824 {
            "GB"@
        } else if max_size > 1048576 {
            "MB"@
        } else if max_size > 1024 {
            "KB"@
        } else {
            "B"@
        }),
{
    if max_size > 1024 * 1024 * 1024 {
        (1024 * 1024 * 1024, "GB")
    } else if max_size > 1024 * 1024 {
        (1024 * 1024, "MB")
    } else if max_size > 1024 {
        (1024, "KB")
    } else {
        (1, "B")
    }
}

/// Labelled counts as text.
pub open spec fn label_view(v: Seq<(String, DataIOLen)>) -> Seq<(Seq<char>, DataIOLen)> {
    v.map_values(|e: (String, DataIOLen)| (e.0@, e.1))
}

/// The summed counts of labelled entries.
pub open spec fn entry_sum(es: Seq<(Seq<char>, DataIOLen)>) -> (int, int)
    decreases es.len(),
{
    if es.len() == 0 {
        (0, 0)
    } else {
        let p = entry_sum(es.drop_last());
        (p.0 + es.last().1.in_len, p.1 + es.last().1.out_len)
    }
}

/// The entries with one label.
pub open spec fn with_label(es: Seq<(Seq<char>, DataIOLen)>, label: Seq<char>) -> Seq<
    (Seq<char>, DataIOLen),
> {
    es.filter(|e: (Seq<char>, DataIOLen)| e.0 == label)
}

/// Some entry carries the label.
pub open spec fn label_present(es: Seq<(Seq<char>, DataIOLen)>, label: Seq<char>) -> bool {
    exists|m: int| 0 <= m < es.len() && #[trigger] es[m].0 == label
}

/// No label occurs twice.
pub open spec fn distinct_labels(es: Seq<(Seq<char>, DataIOLen)>) -> bool {
    forall|i: int, j: int| 0 <= i < j < es.len() ==> es[i].0 != es[j].0
}

proof fn lemma_entry_push(es: Seq<(Seq<char>, DataIOLen)>, e: (Seq<char>, DataIOLen))
    ensures
        entry_sum(es.push(e)) == (entry_sum(es).0 + e.1.in_len, entry_sum(es).1 + e.1.out_len),
{
    assert(es.push(e).drop_last() =~= es);
}

proof fn lemma_entry_nonneg(es: Seq<(Seq<char>, DataIOLen)>)
    ensures
        entry_sum(es).0 >= 0,
        entry_sum(es).1 >= 0,
    decreases es.len(),
{
    if es.len() > 0 {
        lemma_entry_nonneg(es.drop_last());
    }
}

proof fn lemma_with_label_last(es: Seq<(Seq<char>, DataIOLen)>, label: Seq<char>)
    requires
        es.len() > 0,
    ensures
        with_label(es, label) == if es.last().0 == label {
            with_label(es.drop_last(), label).push(es.last())
        } else {
            with_label(es.drop_last(), label)
        },
{
    reveal(Seq::filter);
}

proof fn lemma_with_label_member(es: Seq<(Seq<char>, DataIOLen)>, label: Seq<char>)
    requires
        with_label(es, label).len() > 0,
    ensures
        label_present(es, label),
    decreases es.len(),
{
    reveal(Seq::filter);
    if es.len() > 0 {
        lemma_with_label_last(es, label);
        if es.last().0 == label {
            assert(es[es.len() - 1].0 == label);
        } else {
            lemma_with_label_member(es.drop_last(), label);
            let m = choose|m: int| 0 <= m < es.drop_last().len() && es.drop_last()[m].0 == label;
            assert(es[m] == es.drop_last()[m]);
        }
    }
}

/// The first position of the label among the labelled counts.
fn find_label(r: &Vec<(String, DataIOLen)>, label: &String) -> (k: Option<usize>)
    ensures
        k matches Some(i) ==> i < r@.len() && label_view(r@)[i as int].0 == label@,
        k is None ==> !label_present(label_view(r@), label@),
{
    let mut k: usize = 0;
    while k < r.len()
        invariant
            k <= r@.len(),
            forall|q: int| 0 <= q < k ==> label_view(r@)[q].0 != label@,
        decreases r.len() - k,
    {
        if crate::text::str_eq(r[k].0.as_str(), label.as_str()) {
            return Some(k);
        }
        k = k + 1;
    }
    None
}

proof fn lemma_with_label_le(es: Seq<(Seq<char>, DataIOLen)>, label: Seq<char>)
    ensures
        entry_sum(with_label(es, label)).0 <= entry_sum(es).0,
        entry_sum(with_label(es, label)).1 <= entry_sum(es).1,
    decreases es.len(),
{
    if es.len() > 0 {
        lemma_with_label_le(es.drop_last(), label);
        lemma_with_label_last(es, label);
        lemma_entry_push(with_label(es.drop_last(), label), es.last());
    }
}

proof fn lemma_entry_prefix(es: Seq<(Seq<char>, DataIOLen)>, n: int)
    requires
        0 <= n <= es.len(),
    ensures
        entry_sum(es.take(n)).0 <= entry_sum(es).0,
        entry_sum(es.take(n)).1 <= entry_sum(es).1,
    decreases es.len() - n,
{
    if n < es.len() {
        lemma_entry_prefix(es.drop_last(), n);
        assert(es.drop_last().take(n) =~= es.take(n));
    } else {
        assert(es.take(n) =~= es);
    }
}

/// The counts summed per label, each label once, in order of first
/// appearance. The overall sums must fit in `u64`.
pub fn group_by_label(entries: &Vec<(String, DataIOLen)>) -> (r: Vec<(String, DataIOLen)>)
    requires
        entry_sum(label_view(entries@)).0 <= u64::MAX,
        entry_sum(label_view(entries@)).1 <= u64::MAX,
    ensures
        distinct_labels(label_view(r@)),
        forall|i: int|
            0 <= i < r@.len() ==> {
                let (l, d) = #[trigger] label_view(r@)[i];
                &&& with_label(label_view(entries@), l).len() > 0
                &&& d.in_len == entry_sum(with_label(label_view(entries@), l)).0
                &&& d.out_len == entry_sum(with_label(label_view(entries@), l)).1
            },
        forall|j: int|
            0 <= j < entries@.len() ==> label_present(label_view(r@), #[trigger] label_view(entries@)[j].0),
{
    let ghost ev = label_view(entries@);
    let mut r: Vec<(String, DataIOLen)> = Vec::new();
    let mut i: usize = 0;
    while i < entries.len()
        invariant
            i <= entries@.len(),
            ev == label_view(entries@),
            entry_sum(ev).0 <= u64::MAX,
            entry_sum(ev).1 <= u64::MAX,
            distinct_labels(label_view(r@)),
            forall|m: int|
                0 <= m < r@.len() ==> {
                    let (l, d) = #[trigger] label_view(r@)[m];
                    &&& with_label(ev.take(i as int), l).len() > 0
                    &&& d.in_len == entry_sum(with_label(ev.take(i as int), l)).0
                    &&& d.out_len == entry_sum(with_label(ev.take(i as int), l)).1
                },
            forall|j: int| 0 <= j < i ==> label_present(label_view(r@), #[trigger] ev[j].0),
        decreases entries.len() - i,
    {
        let label = &entries[i].0;
        let d = entries[i].1;
        let ghost l = ev[i as int].0;
        let ghost pre = ev.take(i as int);
        let ghost post = ev.take(i + 1);
        let ghost r0 = label_view(r@);
        proof {
            assert(post.drop_last() =~= pre);
            assert(post.last() == ev[i as int]);
            assert(ev[i as int] == (label@, d));
            lemma_with_label_last(post, l);
            assert forall|l2: Seq<char>| l2 != l implies with_label(post, l2) == with_label(pre, l2) by {
                lemma_with_label_last(post, l2);
            }
            lemma_entry_prefix(ev, i + 1);
            lemma_with_label_le(post, l);
            lemma_entry_push(with_label(pre, l), ev[i as int]);
            lemma_entry_nonneg(with_label(pre, l));
        }
        let pos = find_label(&r, label);
        let found = pos.is_some();
        let k: usize = match pos {
            Some(x) => x,
            None => 0,
        };
        if found {
            assert(r0[k as int].0 == l);
            let old_d = r[k].1;
            let nd = DataIOLen { in_len: old_d.in_len + d.in_len, out_len: old_d.out_len + d.out_len };
            let key = crate::text::string_of(&crate::text::chars_of(r[k].0.as_str()));
            r.set(k, (key, nd));
            proof {
                assert forall|x: int| 0 <= x < r@.len() implies label_view(r@)[x].0 == r0[x].0 by {}
                assert forall|x: int| 0 <= x < r@.len() && x != k implies #[trigger] label_view(r@)[x] == r0[x] by {}
            }
        } else {
            let key = crate::text::string_of(&crate::text::chars_of(label.as_str()));
            r.push((key, d));
            proof {
                assert(label_view(r@).drop_last() =~= r0);
                assert forall|x: int| 0 <= x < r0.len() implies #[trigger] label_view(r@)[x] == r0[x] by {}
                assert(with_label(pre, l).len() == 0) by {
                    if with_label(pre, l).len() > 0 {
                        lemma_with_label_member(pre, l);
                        let j = choose|j: int| 0 <= j < pre.len() && pre[j].0 == l;
                        assert(ev[j] == pre[j]);
                        assert(label_present(r0, ev[j].0));
                    }
                }
                assert(with_label(pre, l) =~= Seq::<(Seq<char>, DataIOLen)>::empty());
            }
        }
        proof {
            let rv = label_view(r@);
            assert forall|a: int, b: int| 0 <= a < b < rv.len() implies rv[a].0 != rv[b].0 by {
                if b < r0.len() {
                    assert(rv[a].0 == r0[a].0 && rv[b].0 == r0[b].0);
                } else {
                    assert(rv[a].0 == r0[a].0);
                }
            }
            assert forall|m: int| 0 <= m < rv.len() implies {
                let (l2, d2) = #[trigger] rv[m];
                &&& with_label(post, l2).len() > 0
                &&& d2.in_len == entry_sum(with_label(post, l2)).0
                &&& d2.out_len == entry_sum(with_label(post, l2)).1
            } by {
                if rv[m].0 != l {
                    assert(rv[m] == r0[m]);
                }
            }
            assert forall|j: int| 0 <= j < i + 1 implies label_present(rv, #[trigger] ev[j].0) by {
                if j < i {
                    assert(label_present(r0, ev[j].0));
                    let m = choose|m: int| 0 <= m < r0.len() && r0[m].0 == ev[j].0;
                    assert(rv[m].0 == r0[m].0);
                } else {
                    if found {
                        assert(rv[k as int].0 == ev[j].0);
                    } else {
                        assert(rv[rv.len() - 1].0 == ev[j].0);
                    }
                }
            }
        }
        i = i + 1;
    }
    assert(ev.take(ev.len() as int) =~= ev);
    assert forall|j: int| 0 <= j < entries@.len() implies label_present(
        label_view(r@),
        #[trigger] label_view(entries@)[j].0,
    ) by {
        assert(ev[j] == label_view(entries@)[j]);
    }
    r
}

/// The larger of the two counts.
pub open spec fn larger(v: DataIOLen) -> u64 {
    if v.in_len > v.out_len {
        v.in_len
    } else {
        v.out_len
    }
}

/// The largest inbound or outbound count among the values; 0 when there
/// are none.
pub fn max_data_size(values: &Vec<DataIOLen>) -> (r: u64)
    ensures
        forall|i: int| 0 <= i < values@.len() ==> larger(#[trigger] values@[i]) <= r,
        values@.len() == 0 ==> r == 0,
        values@.len() > 0 ==> exists|i: int| 0 <= i < values@.len() && r == larger(#[trigger] values@[i]),
{
    let mut m: u64 = 0;
    let mut i: usize = 0;
    while i < values.len()
        invariant
            i <= values@.len(),
            forall|j: int| 0 <= j < i ==> larger(#[trigger] values@[j]) <= m,
            i == 0 ==> m == 0,
            i > 0 ==> exists|j: int| 0 <= j < i && m == larger(#[trigger] values@[j]),
        decreases values.len() - i,
    {
        let v = values[i];
        let x = if v.in_len > v.out_len { v.in_len } else { v.out_len };
        assert(x == larger(values@[i as int]));
        if i == 0 || x > m {
            m = x;
        }
        i = i + 1;
    }
    m
}

// ---------------------------------------------------------------------------
// A traffic history as chart counts
// ---------------------------------------------------------------------------

/// Whether chrono can represent the instant `secs` seconds after the epoch:
/// from January 1, 262144 BCE to December 31, 262142 CE (UTC).
pub open spec fn secs_in_range(secs: i64) -> bool {
    -8334601228800 <= secs <= 8210266876799
}

/// One of the label patterns of a history (see [`label_format`]).
pub open spec fn is_label_format(f: Seq<char>) -> bool {
    ||| f == "%Y-%m-%d %H:%M:%S"@
    ||| f == "%Y-%m-%d %H:%M"@
    ||| f == "%Y-%m-%d %H"@
    ||| f == "%Y-%m-%d"@
    ||| f == "%Y-%m"@
    ||| f == "%Y"@
}

/// `DateTime::from_timestamp_secs(secs)` in the local time zone, formatted
/// with one of the label patterns: `None` exactly when the instant lies
/// outside chrono's range; the text is never empty (each pattern writes at
/// least the year). Which text depends on the machine's time zone.
#[verifier::external_body]
fn local_label(secs: i64, fmt: &str) -> (r: Option<String>)
    requires
        is_label_format(fmt@),
    ensures
        r is Some <==> secs_in_range(secs),
        r matches Some(s) ==> s@.len() > 0,
{
    chrono::DateTime::from_timestamp_secs(secs).map(
        |dt| dt.with_timezone(&chrono::Local).format(fmt).to_string(),
    )
}

/// The local time of `secs` moved one calendar day on
/// (`checked_add_days(Days::new(1))`), as seconds since the epoch; `None`
/// outside chrono's range or where the new local time does not exist or is
/// ambiguous. Which instant depends on the machine's time zone.
#[verifier::external_body]
fn local_next_day(secs: i64) -> (r: Option<i64>) {
    chrono::DateTime::from_timestamp_secs(secs)?.with_timezone(&chrono::Local).checked_add_days(
        chrono::Days::new(1),
    ).map(|d| d.timestamp())
}

/// The local time of `secs` moved `months` calendar months on
/// (`checked_add_months(Months::new(months))`), as seconds since the epoch;
/// `None` outside chrono's range or where the new local time does not exist
/// or is ambiguous. Which instant depends on the machine's time zone.
#[verifier::external_body]
fn local_add_months(secs: i64, months: u32) -> (r: Option<i64>) {
    chrono::DateTime::from_timestamp_secs(secs)?.with_timezone(&chrono::Local).checked_add_months(
        chrono::Months::new(months),
    ).map(|d| d.timestamp())
}

/// The next point of a history's walk: a second, a minute or an hour on
/// for the three finest patterns, else a local calendar day, month or
/// twelve months on (chosen as [`label_format`] chooses the pattern).
fn step_after(t: i64, span: i64) -> (r: Option<i64>)
    requires
        secs_in_range(t),
    ensures
        span <= 60 ==> r == Some((t + 1) as i64),
        60 < span <= 3600 ==> r == Some((t + 60) as i64),
        3600 < span <= 86400 ==> r == Some((t + 3600) as i64),
{
    if span <= 60 {
        Some(t + 1)
    } else if span <= 60 * 60 {
        Some(t + 60)
    } else if span <= 24 * 60 * 60 {
        Some(t + 3600)
    } else if span <= 31 * 24 * 60 * 60 {
        local_next_day(t)
    } else if span <= 366 * 24 * 60 * 60 {
        local_add_months(t, 1)
    } else {
        local_add_months(t, 12)
    }
}

/// The rows of a history paired with their labels.
pub open spec fn row_entries(labels: Seq<String>, rows: Seq<(i64, DataIOLen)>) -> Seq<
    (Seq<char>, DataIOLen),
> {
    Seq::new(rows.len(), |i: int| (labels[i]@, rows[i].1))
}

/// The summed counts of the rows.
pub open spec fn row_total(rows: Seq<(i64, DataIOLen)>) -> (int, int)
    decreases rows.len(),
{
    if rows.len() == 0 {
        (0, 0)
    } else {
        let p = row_total(rows.drop_last());
        (p.0 + rows.last().1.in_len, p.1 + rows.last().1.out_len)
    }
}

/// The larger of the two summed counts of a label.
pub open spec fn label_larger(es: Seq<(Seq<char>, DataIOLen)>, l: Seq<char>) -> int {
    let s = entry_sum(with_label(es, l));
    if s.0 > s.1 {
        s.0
    } else {
        s.1
    }
}

/// The unit size [`data_unit`] picks for a largest count.
pub open spec fn unit_size_of(m: u64) -> u64 {
    if m > 1073741824 {
        1073741824
    } else if m > 1048576 {
        1048576
    } else if m > 1024 {
        1024
    } else {
        1
    }
}

/// The unit name [`data_unit`] picks for a largest count.
pub open spec fn unit_name_of(m: u64) -> Seq<char> {
    if m > 1073741824 {
        "GB"@
    } else if m > 1048576 {
        "MB"@
    } else if m > 1024 {
        "KB"@
    } else {
        "B"@
    }
}

/// A traffic history as counts: each row's label, the label of each step
/// of the period with the summed counts of the rows that carry it, and the
/// unit that the page scales them to.
pub struct ChartCounts {
    /// The label of each row, in the rows' order.
    pub row_labels: Vec<String>,
    /// The label of each step of the period, in order.
    pub labels: Vec<String>,
    /// The summed inbound counts of each step's label.
    pub in_lens: Vec<u64>,
    /// The summed outbound counts of each step's label.
    pub out_lens: Vec<u64>,
    /// The largest summed count of a label.
    pub max_size: u64,
    /// The unit's size in bytes.
    pub unit_size: u64,
    /// The unit's name.
    pub unit: String,
}

proof fn lemma_row_entries_sum(labels: Seq<String>, rows: Seq<(i64, DataIOLen)>)
    requires
        labels.len() == rows.len(),
    ensures
        entry_sum(row_entries(labels, rows)) == row_total(rows),
    decreases rows.len(),
{
    if rows.len() > 0 {
        let n = rows.len() - 1;
        lemma_row_entries_sum(labels.take(n), rows.drop_last());
        assert(row_entries(labels, rows).drop_last() =~= row_entries(labels.take(n), rows.drop_last()));
    }
}

/// The counts of a traffic history over the period of the query: the
/// labels are local dates in the pattern [`label_format`] picks for the
/// period's length; the walk starts at the start time and moves a second,
/// a minute, an hour, a local day, a local month or twelve local months on
/// while it stays at or before the end time, each step getting the summed
/// counts of the rows with its label (0 without such rows). The unit is
/// chosen by the largest summed count. A local step that chrono cannot take
/// (outside its range, or into a local time that does not exist) ends the
/// walk. The instants must lie in chrono's range and the sums must fit in
/// `u64`.
pub fn data_len_counts(q: &DataLenQuery, rows: &Vec<(i64, DataIOLen)>) -> (r: ChartCounts)
    requires
        secs_in_range(q.start_time),
        secs_in_range(q.end_time),
        forall|j: int| 0 <= j < rows@.len() ==> secs_in_range(#[trigger] rows@[j].0),
        row_total(rows@).0 <= u64::MAX,
        row_total(rows@).1 <= u64::MAX,
    ensures
        r.row_labels@.len() == rows@.len(),
        forall|j: int| 0 <= j < rows@.len() ==> (#[trigger] r.row_labels@[j])@.len() > 0,
        r.in_lens@.len() == r.labels@.len(),
        r.out_lens@.len() == r.labels@.len(),
        forall|i: int| 0 <= i < r.labels@.len() ==> (#[trigger] r.labels@[i])@.len() > 0,
        q.start_time > q.end_time <==> r.labels@.len() == 0,
        forall|i: int|
            0 <= i < r.labels@.len() ==> {
                let s = entry_sum(with_label(row_entries(r.row_labels@, rows@), (#[trigger] r.labels@[i])@));
                r.in_lens@[i] == s.0 && r.out_lens@[i] == s.1
            },
        forall|j: int|
            0 <= j < rows@.len() ==> label_larger(
                row_entries(r.row_labels@, rows@),
                (#[trigger] r.row_labels@[j])@,
            ) <= r.max_size,
        rows@.len() == 0 ==> r.max_size == 0,
        rows@.len() > 0 ==> exists|j: int|
            0 <= j < rows@.len() && r.max_size == label_larger(
                row_entries(r.row_labels@, rows@),
                (#[trigger] r.row_labels@[j])@,
            ),
        r.unit_size == unit_size_of(r.max_size),
        r.unit@ == unit_name_of(r.max_size),
{
    let span = q.end_time - q.start_time;
    let fmt = label_format(span);
    proof {
        reveal_strlit("%Y-%m-%d %H:%M:%S");
        reveal_strlit("%Y-%m-%d %H:%M");
        reveal_strlit("%Y-%m-%d %H");
        reveal_strlit("%Y-%m-%d");
        reveal_strlit("%Y-%m");
        reveal_strlit("%Y");
    }
    assert(is_label_format(fmt@));
    let mut entries: Vec<(String, DataIOLen)> = Vec::new();
    let mut row_labels: Vec<String> = Vec::new();
    let mut j: usize = 0;
    while j < rows.len()
        invariant
            j <= rows@.len(),
            is_label_format(fmt@),
            forall|k: int| 0 <= k < rows@.len() ==> secs_in_range(#[trigger] rows@[k].0),
            row_labels@.len() == j,
            forall|k: int| 0 <= k < j ==> (#[trigger] row_labels@[k])@.len() > 0,
            label_view(entries@) == row_entries(row_labels@, rows@.take(j as int)),
        decreases rows.len() - j,
    {
        let row = rows[j];
        let label = match local_label(row.0, fmt) {
            Some(l) => l,
            None => {
                assert(secs_in_range(rows@[j as int].0));
                String::new()
            },
        };
        let copy = string_of(&chars_of(label.as_str()));
        let ghost lv = label_view(entries@);
        let ghost old_labels = row_labels@;
        assert(lv.len() == j);
        let ghost lab = label@;
        entries.push((label, row.1));
        row_labels.push(copy);
        assert(row_labels@[j as int]@ == lab);
        assert forall|k: int| 0 <= k < j implies row_labels@[k] == old_labels[k] by {}
        assert forall|k: int| 0 <= k < j implies rows@.take(j + 1)[k] == rows@.take(j as int)[k] by {}
        assert(lv.len() == j);
        assert(label_view(entries@) =~= lv.push((lab, row.1)));
        assert(row_entries(row_labels@, rows@.take(j + 1)) =~= row_entries(
            old_labels,
            rows@.take(j as int),
        ).push((lab, row.1)));
        assert(label_view(entries@) =~= row_entries(row_labels@, rows@.take(j + 1)));
        j = j + 1;
    }
    assert(rows@.take(rows@.len() as int) =~= rows@);
    let ghost es = row_entries(row_labels@, rows@);
    proof {
        lemma_row_entries_sum(row_labels@, rows@);
    }
    let grouped = group_by_label(&entries);
    let mut values: Vec<DataIOLen> = Vec::new();
    let mut k: usize = 0;
    while k < grouped.len()
        invariant
            k <= grouped@.len(),
            values@.len() == k,
            forall|m: int| 0 <= m < k ==> #[trigger] values@[m] == grouped@[m].1,
        decreases grouped.len() - k,
    {
        values.push(grouped[k].1);
        k = k + 1;
    }
    proof {
        if rows@.len() == 0 {
            if grouped@.len() > 0 {
                let l = label_view(grouped@)[0].0;
                assert(label_view(entries@) =~= Seq::<(Seq<char>, DataIOLen)>::empty());
                assert(with_label(label_view(entries@), l) =~= Seq::<(Seq<char>, DataIOLen)>::empty());
            }
        }
    }
    let max_size = max_data_size(&values);
    let (unit_size, unit) = data_unit(max_size);
    proof {
        let g = label_view(grouped@);
        assert forall|jj: int| 0 <= jj < rows@.len() implies label_larger(
            es,
            (#[trigger] row_labels@[jj])@,
        ) <= max_size by {
            assert(es[jj].0 == row_labels@[jj]@);
            assert(label_view(entries@)[jj].0 == es[jj].0);
            assert(label_present(g, label_view(entries@)[jj].0));
            let m = choose|m: int| 0 <= m < g.len() && #[trigger] g[m].0 == es[jj].0;
            assert(larger(values@[m]) <= max_size);
        }
        if rows@.len() > 0 {
            assert(values@.len() > 0) by {
                assert(label_present(g, label_view(entries@)[0].0));
            }
            let m = choose|m: int| 0 <= m < values@.len() && max_size == larger(#[trigger] values@[m]);
            assert(with_label(es, g[m].0).len() > 0);
            lemma_with_label_member(es, g[m].0);
            let jj = choose|jj: int| 0 <= jj < es.len() && #[trigger] es[jj].0 == g[m].0;
            assert(row_labels@[jj]@ == es[jj].0);
            assert(max_size == label_larger(es, row_labels@[jj]@));
        }
    }
    let mut labels: Vec<String> = Vec::new();
    let mut in_lens: Vec<u64> = Vec::new();
    let mut out_lens: Vec<u64> = Vec::new();
    let mut t = q.start_time;
    while t <= q.end_time
        invariant
            is_label_format(fmt@),
            secs_in_range(q.start_time),
            secs_in_range(q.end_time),
            q.start_time <= t,
            es == row_entries(row_labels@, rows@),
            es == label_view(entries@),
            distinct_labels(label_view(grouped@)),
            forall|i: int|
                0 <= i < grouped@.len() ==> {
                    let (l, d) = #[trigger] label_view(grouped@)[i];
                    &&& d.in_len == entry_sum(with_label(es, l)).0
                    &&& d.out_len == entry_sum(with_label(es, l)).1
                },
            forall|jj: int|
                0 <= jj < entries@.len() ==> label_present(
                    label_view(grouped@),
                    #[trigger] label_view(entries@)[jj].0,
                ),
            in_lens@.len() == labels@.len(),
            out_lens@.len() == labels@.len(),
            labels@.len() == 0 ==> t == q.start_time,
            labels@.len() > 0 ==> q.start_time <= q.end_time,
            forall|i: int| 0 <= i < labels@.len() ==> (#[trigger] labels@[i])@.len() > 0,
            forall|i: int|
                0 <= i < labels@.len() ==> {
                    let s = entry_sum(with_label(es, (#[trigger] labels@[i])@));
                    in_lens@[i] == s.0 && out_lens@[i] == s.1
                },
        ensures
            in_lens@.len() == labels@.len(),
            out_lens@.len() == labels@.len(),
            labels@.len() == 0 <==> q.start_time > q.end_time,
        decreases q.end_time - t,
    {
        let label = match local_label(t, fmt) {
            Some(l) => l,
            None => String::new(),
        };
        let ghost lv = label@;
        match find_label(&grouped, &label) {
            Some(m) => {
                let d = grouped[m].1;
                in_lens.push(d.in_len);
                out_lens.push(d.out_len);
            },
            None => {
                proof {
                    if with_label(es, lv).len() > 0 {
                        lemma_with_label_member(es, lv);
                        let jj = choose|jj: int| 0 <= jj < es.len() && #[trigger] es[jj].0 == lv;
                        assert(label_present(label_view(grouped@), label_view(entries@)[jj].0));
                    }
                    assert(with_label(es, lv) =~= Seq::<(Seq<char>, DataIOLen)>::empty());
                }
                in_lens.push(0);
                out_lens.push(0);
            },
        }
        assert(lv.len() > 0);
        labels.push(label);
        match step_after(t, span) {
            Some(n) => {
                if n > t && n <= q.end_time {
                    t = n;
                } else {
                    break;
                }
            },
            None => {
                break;
            },
        }
    }
    ChartCounts {
        row_labels,
        labels,
        in_lens,
        out_lens,
        max_size,
        unit_size,
        unit: string_of(&chars_of(unit)),
    }
}

} // verus!
