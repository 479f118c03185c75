//! The status page.
use crate::model::data_io_len::DataIOLen;
use crate::nps::nps_timer::{lemma_sum_nonneg, lemma_sum_prefix, sum_in, sum_out, TrafficStats};
use vstd::prelude::*;

verus! {

/// The running state of the server.
pub struct NPSStatus {
    /// Tunnels listening.
    pub channel_count: usize,
    /// Clients online.
    pub online_client_count: usize,
    /// Bridged connections.
    pub tcp_bridge_count: usize,
    /// Pooled connections.
    pub tcp_pool_count: usize,
    /// Inbound traffic.
    pub in_len: String,
    /// Outbound traffic.
    pub out_len: String,
    /// Port forwards listening.
    pub forward_count: usize,
    /// Port-forward sessions.
    pub forward_bridge_count: usize,
}

/// The growth waiting to be written, summed (each record taken `as u64`).
fn cache_total(cache: &Vec<TrafficStats>) -> (r: DataIOLen)
    requires
        sum_in(cache@) <= u64::MAX,
        sum_out(cache@) <= u64::MAX,
    ensures
        r.in_len == sum_in(cache@),
        r.out_len == sum_out(cache@),
{
    let mut acc = DataIOLen { in_len: 0, out_len: 0 };
    let mut i: usize = 0;
    while i < cache.len()
        invariant
            i <= cache@.len(),
            sum_in(cache@) <= u64::MAX,
            sum_out(cache@) <= u64::MAX,
            acc.in_len == sum_in(cache@.take(i as int)),
            acc.out_len == sum_out(cache@.take(i as int)),
        decreases cache.len() - i,
    {
        let t = cache[i];
        proof {
            assert(cache@.take(i + 1).drop_last() =~= cache@.take(i as int));
            lemma_sum_prefix(cache@, i + 1);
        }
        acc = DataIOLen { in_len: acc.in_len + t.in_len as u64, out_len: acc.out_len + t.out_len as u64 };
        i = i + 1;
    }
    assert(cache@.take(cache@.len() as int) =~= cache@);
    acc
}

/// The traffic the status page shows: the stored totals (each converted as
/// `as u64`) plus the tunnel and port-forward growth not yet written. The
/// sums must fit in `u64`.
pub fn total_traffic(
    system_in: i64,
    system_out: i64,
    channel_cache: &Vec<TrafficStats>,
    forward_cache: &Vec<TrafficStats>,
) -> (r: DataIOLen)
    requires
        (system_in as u64) + sum_in(channel_cache@) + sum_in(forward_cache@) <= u64::MAX,
        (system_out as u64) + sum_out(channel_cache@) + sum_out(forward_cache@) <= u64::MAX,
    ensures
        r.in_len == (system_in as u64) + sum_in(channel_cache@) + sum_in(forward_cache@),
        r.out_len == (system_out as u64) + sum_out(channel_cache@) + sum_out(forward_cache@),
{
    proof {
        lemma_sum_nonneg(channel_cache@);
        lemma_sum_nonneg(forward_cache@);
    }
    let system = DataIOLen::from(system_in, system_out);
    let c = cache_total(channel_cache);
    let f = cache_total(forward_cache);
    system + c + f
}

/// The sum of a sequence of counts.
pub open spec fn count_sum(s: Seq<usize>) -> int
    decreases s.len(),
{
    if s.len() == 0 {
        0
    } else {
        count_sum(s.drop_last()) + s.last()
    }
}

/// The counts of the status page.
pub struct StatusCounts {
    /// Tunnels listening.
    pub channel_count: usize,
    /// Clients online.
    pub online_client_count: usize,
    /// Bridged connections of the tunnels.
    pub tcp_bridge_count: usize,
    /// Pooled connections of the clients.
    pub tcp_pool_count: usize,
    /// Port forwards listening.
    pub forward_count: usize,
    /// Port-forward sessions.
    pub forward_bridge_count: usize,
}

proof fn lemma_count_prefix(s: Seq<usize>, n: int)
    requires
        0 <= n <= s.len(),
    ensures
        count_sum(s.take(n)) <= count_sum(s),
    decreases s.len() - n,
{
    if n < s.len() {
        lemma_count_prefix(s.drop_last(), n);
        assert(s.drop_last().take(n) =~= s.take(n));
    } else {
        assert(s.take(n) =~= s);
    }
}

fn total_count(s: &Vec<usize>) -> (r: usize)
    requires
        count_sum(s@) <= usize::MAX,
    ensures
        r == count_sum(s@),
{
    let mut acc: usize = 0;
    let mut i: usize = 0;
    while i < s.len()
        invariant
            i <= s@.len(),
            count_sum(s@) <= usize::MAX,
            acc == count_sum(s@.take(i as int)),
        decreases s.len() - i,
    {
        proof {
            assert(s@.take(i + 1).drop_last() =~= s@.take(i as int));
            lemma_count_prefix(s@, i + 1);
        }
        acc = acc + s[i];
        i = i + 1;
    }
    assert(s@.take(s@.len() as int) =~= s@);
    acc
}

/// The counts from the live tables: one entry per client online (its
/// pooled connections), per tunnel listening (its bridged connections) and
/// per port forward (its sessions). The sums must fit in `usize`.
pub fn status_counts(
    client_pools: &Vec<usize>,
    channel_bridges: &Vec<usize>,
    forward_bridges: &Vec<usize>,
) -> (r: StatusCounts)
    requires
        count_sum(client_pools@) <= usize::MAX,
        count_sum(channel_bridges@) <= usize::MAX,
        count_sum(forward_bridges@) <= usize::MAX,
    ensures
        r.online_client_count == client_pools@.len(),
        r.tcp_pool_count == count_sum(client_pools@),
        r.channel_count == channel_bridges@.len(),
        r.tcp_bridge_count == count_sum(channel_bridges@),
        r.forward_count == forward_bridges@.len(),
        r.forward_bridge_count == count_sum(forward_bridges@),
{
    StatusCounts {
        channel_count: channel_bridges.len(),
        online_client_count: client_pools.len(),
        tcp_bridge_count: total_count(channel_bridges),
        tcp_pool_count: total_count(client_pools),
        forward_count: forward_bridges.len(),
        forward_bridge_count: total_count(forward_bridges),
    }
}

} // verus!
