//! The connection pools of all clients: a client's pool exists from the
//! moment its session starts; connections join at the back, are taken from
//! the front (oldest first), and are dropped once older than the recycle
//! time.
use crate::nps::nps_pool::tcp_pool::TCPPool;
use std::collections::HashMap;
use vstd::prelude::*;
use vstd::std_specs::hash::spec_hash_map_iter;
use vstd::std_specs::iter::IteratorSpec;

verus! {

/// Each client's pool as a sequence.
pub open spec fn pools_view<T>(m: Map<i64, Vec<TCPPool<T>>>) -> Map<i64, Seq<TCPPool<T>>> {
    m.map_values(|v: Vec<TCPPool<T>>| v@)
}

/// A pooled connection is still fresh: at most `timeout` seconds old.
pub open spec fn is_fresh<T>(e: TCPPool<T>, now: u64, timeout: u64) -> bool {
    now - e.create_time <= timeout
}

/// The fresh connections of a pool, in order.
pub open spec fn fresh_of<T>(q: Seq<TCPPool<T>>, now: u64, timeout: u64) -> Seq<TCPPool<T>> {
    q.filter(|x: TCPPool<T>| is_fresh(x, now, timeout))
}

/// Every client's pool without its stale connections.
pub open spec fn fresh_pools<T>(p: Map<i64, Seq<TCPPool<T>>>, now: u64, timeout: u64) -> Map<
    i64,
    Seq<TCPPool<T>>,
> {
    p.map_values(|q: Seq<TCPPool<T>>| fresh_of(q, now, timeout))
}

/// What became of a connection offered to a pool.
pub enum AddOutcome<T> {
    /// It joined the client's pool.
    Added,
    /// The client has no pool; the connection is handed back.
    NoClient(T),
    /// The pool already holds the most connections allowed; the connection
    /// is handed back to be shut down.
    Full(T),
}

/// How many connections to ask a client for after one was taken from a
/// pool that held `count`: one when the pool was full, else two.
pub fn pool_request_count(count: usize, max: usize) -> (r: u8)
    ensures
        r == (if count == max { 1u8 } else { 2u8 }),
{
    if max == count {
        1
    } else {
        2
    }
}

/// What to do next while fetching a connection for a client.
pub enum FetchAction {
    /// Use the connection taken, and ask the client for this many more.
    Use(u8),
    /// Ask the client for more connections and wait a second.
    RequestAndWait,
}

/// The tries made to take a connection from a client's pool.
pub struct PoolFetch {
    pub attempts: u8,
}

impl PoolFetch {
    /// No tries yet.
    pub fn new() -> (r: Self)
        ensures
            r.attempts == 0,
    {
        PoolFetch { attempts: 0 }
    }

    /// Whether the five tries are used up.
    pub fn exhausted(&self) -> (r: bool)
        ensures
            r == (self.attempts >= 5),
    {
        self.attempts >= 5
    }

    /// The next step after a try: `taken` is the pool size when a
    /// connection was taken, `None` when the pool had none. A taken
    /// connection is used and one more (from a full pool) or two are asked
    /// for; after an empty pool the client is asked for more and the try is
    /// counted.
    pub fn next(&mut self, taken: Option<usize>, max: usize) -> (r: FetchAction)
        requires
            old(self).attempts < 5,
        ensures
            taken matches Some(count) ==> r == FetchAction::Use(if count == max { 1u8 } else { 2u8 })
                && final(self).attempts == old(self).attempts,
            taken is None ==> r == FetchAction::RequestAndWait && final(self).attempts == old(self).attempts + 1,
    {
        match taken {
            Some(count) => FetchAction::Use(pool_request_count(count, max)),
            None => {
                self.attempts = self.attempts + 1;
                FetchAction::RequestAndWait
            },
        }
    }
}

/// The pools of all clients, by client.
pub struct TcpPoolManager<T> {
    pub pools: HashMap<i64, Vec<TCPPool<T>>>,
}

impl<T> TcpPoolManager<T> {
    /// The pools, each as a sequence.
    pub open spec fn view_pools(&self) -> Map<i64, Seq<TCPPool<T>>> {
        pools_view(self.pools@)
    }

    /// No pools.
    pub fn new() -> (r: Self)
        ensures
            r.view_pools() == Map::<i64, Seq<TCPPool<T>>>::empty(),
    {
        let r = TcpPoolManager { pools: HashMap::new() };
        assert(r.view_pools() =~= Map::<i64, Seq<TCPPool<T>>>::empty());
        r
    }

    /// The number of connections in the client's pool; 0 without a pool.
    pub fn get_pool_count(&self, client_id: i64) -> (r: usize)
        ensures
            r == if self.view_pools().contains_key(client_id) {
                self.view_pools()[client_id].len()
            } else {
                0
            },
    {
        broadcast use vstd::std_specs::hash::group_hash_axioms;

        match self.pools.get(&client_id) {
            Some(ps) => ps.len(),
            None => 0,
        }
    }

    /// Gives the client a new, empty pool; an old pool is dropped.
    pub fn init_empty_pool_by_client(&mut self, client_id: i64)
        ensures
            final(self).view_pools() == old(self).view_pools().insert(
                client_id,
                Seq::<TCPPool<T>>::empty(),
            ),
    {
        broadcast use vstd::std_specs::hash::group_hash_axioms;

        let ghost v = self.view_pools();
        self.pools.insert(client_id, Vec::new());
        assert(self.view_pools() =~= v.insert(client_id, Seq::<TCPPool<T>>::empty()));
    }

    /// Offers a connection that joined at time `now` (seconds) to the
    /// client's pool of at most `max` connections.
    pub fn add(&mut self, client_id: i64, tcp: T, now: u64, max: usize) -> (r: AddOutcome<T>)
        ensures
            !old(self).view_pools().contains_key(client_id) ==> r == AddOutcome::NoClient(tcp)
                && final(self).view_pools() == old(self).view_pools(),
            old(self).view_pools().contains_key(client_id) ==> if old(
                self,
            ).view_pools()[client_id].len() >= max {
                r == AddOutcome::Full(tcp) && final(self).view_pools() == old(self).view_pools()
            } else {
                r == AddOutcome::<T>::Added && final(self).view_pools() == old(
                    self,
                ).view_pools().insert(
                    client_id,
                    old(self).view_pools()[client_id].push(TCPPool { tcp, create_time: now }),
                )
            },
    {
        broadcast use vstd::std_specs::hash::group_hash_axioms;

        let ghost v = self.view_pools();
        let ghost m0 = self.pools@;
        match self.pools.remove(&client_id) {
            None => AddOutcome::NoClient(tcp),
            Some(ps) => {
                let mut ps = ps;
                if ps.len() >= max {
                    self.pools.insert(client_id, ps);
                    assert(self.pools@ =~= m0);
                    AddOutcome::Full(tcp)
                } else {
                    ps.push(TCPPool { tcp, create_time: now });
                    self.pools.insert(client_id, ps);
                    assert(self.view_pools() =~= v.insert(
                        client_id,
                        v[client_id].push(TCPPool { tcp, create_time: now }),
                    ));
                    AddOutcome::Added
                }
            },
        }
    }

    /// Takes the oldest connection of the client's pool, with the number of
    /// connections the pool held; `None` without a pool or with an empty one.
    pub fn get(&mut self, client_id: i64) -> (r: Option<(T, usize)>)
        ensures
            !old(self).view_pools().contains_key(client_id) ==> r is None && final(self).view_pools()
                == old(self).view_pools(),
            old(self).view_pools().contains_key(client_id) ==> if old(
                self,
            ).view_pools()[client_id].len() == 0 {
                r is None && final(self).view_pools() == old(self).view_pools()
            } else {
                &&& r matches Some((t, count)) && t == old(self).view_pools()[client_id][0].tcp
                    && count == old(self).view_pools()[client_id].len()
                &&& final(self).view_pools() == old(self).view_pools().insert(
                    client_id,
                    old(self).view_pools()[client_id].skip(1),
                )
            },
    {
        broadcast use vstd::std_specs::hash::group_hash_axioms;

        let ghost v = self.view_pools();
        let ghost m0 = self.pools@;
        match self.pools.remove(&client_id) {
            None => None,
            Some(ps) => {
                let mut ps = ps;
                let count = ps.len();
                if count == 0 {
                    self.pools.insert(client_id, ps);
                    assert(self.pools@ =~= m0);
                    return None;
                }
                let first = ps.remove(0);
                self.pools.insert(client_id, ps);
                assert(self.view_pools() =~= v.insert(client_id, v[client_id].skip(1)));
                Some((first.tcp, count))
            },
        }
    }

    /// Drops the client's pool.
    pub fn shutdown_by_client(&mut self, client_id: i64)
        ensures
            final(self).view_pools() == old(self).view_pools().remove(client_id),
    {
        broadcast use vstd::std_specs::hash::group_hash_axioms;

        let ghost v = self.view_pools();
        let _old = self.pools.remove(&client_id);
        assert(self.view_pools() =~= v.remove(client_id));
    }

    /// The clients that have a pool, each once.
    fn clients(&self) -> (r: Vec<i64>)
        ensures
            r@.no_duplicates(),
            forall|k: i64| #[trigger] r@.contains(k) <==> self.pools@.contains_key(k),
    {
        broadcast use vstd::std_specs::hash::group_hash_axioms;

        let m = &self.pools;
        let mut r: Vec<i64> = Vec::new();
        let ghost v = spec_hash_map_iter(m).remaining();
        for e in it: m.iter()
            invariant
                it.seq() == v,
                r@.len() == it.index(),
                it.index() <= v.len(),
                forall|i: int| 0 <= i < r@.len() ==> #[trigger] r@[i] == *v[i].0,
        {
            let (k, _x) = e;
            r.push(*k);
        }
        proof {
            assert forall|i: int, j: int| 0 <= i < j < r@.len() implies r@[i] != r@[j] by {
                if r@[i] == r@[j] {
                    assert(m@.contains_key(*v[i].0));
                    assert(m@.contains_key(*v[j].0));
                    assert(v[i] == v[j]);
                }
            }
            assert forall|k: i64| #[trigger] r@.contains(k) implies self.pools@.contains_key(k) by {
                let i = choose|i: int| 0 <= i < r@.len() && r@[i] == k;
                assert(m@.contains_key(*v[i].0));
            }
            assert forall|k: i64| self.pools@.contains_key(k) implies #[trigger] r@.contains(k) by {
                assert(v.contains((&k, &m@[k])));
                let w = choose|w: int| 0 <= w < v.len() && v[w] == (&k, &m@[k]);
                assert(r@[w] == k);
            }
        }
        r
    }

    /// Drops every connection more than `timeout` seconds old at `now` and
    /// returns the clients whose pool is then empty, each once.
    pub fn timeout_check(&mut self, now: u64, timeout: u64) -> (r: Vec<i64>)
        requires
            forall|k: i64, j: int|
                old(self).view_pools().contains_key(k) && 0 <= j < old(self).view_pools()[k].len()
                    ==> #[trigger] old(self).view_pools()[k][j].create_time <= now,
        ensures
            final(self).view_pools() == fresh_pools(old(self).view_pools(), now, timeout),
            r@.no_duplicates(),
            forall|k: i64| #[trigger]
                r@.contains(k) <==> final(self).view_pools().contains_key(k)
                    && final(self).view_pools()[k].len() == 0,
    {
        broadcast use vstd::std_specs::hash::group_hash_axioms;

        let ghost v = self.view_pools();
        let ghost fv = fresh_pools(v, now, timeout);
        let keys = self.clients();
        let mut empty: Vec<i64> = Vec::new();
        let mut i: usize = 0;
        while i < keys.len()
            invariant
                i <= keys@.len(),
                keys@.no_duplicates(),
                forall|k: i64| #[trigger] keys@.contains(k) <==> v.contains_key(k),
                fv == fresh_pools(v, now, timeout),
                self.view_pools().dom() == v.dom(),
                forall|k: i64|
                    #[trigger] self.view_pools().contains_key(k) ==> self.view_pools()[k] == if keys@.take(
                        i as int,
                    ).contains(k) {
                        fv[k]
                    } else {
                        v[k]
                    },
                forall|k: i64, j: int|
                    v.contains_key(k) && 0 <= j < v[k].len() ==> #[trigger] v[k][j].create_time <= now,
                empty@.no_duplicates(),
                forall|k: i64| #[trigger]
                    empty@.contains(k) <==> keys@.take(i as int).contains(k) && fv[k].len() == 0,
            decreases keys.len() - i,
        {
            let k = keys[i];
            assert(keys@.contains(k));
            assert(!keys@.take(i as int).contains(k)) by {
                if keys@.take(i as int).contains(k) {
                    let j = choose|j: int| 0 <= j < i && keys@.take(i as int)[j] == k;
                    assert(keys@[j] == keys@[i as int]);
                }
            }
            let ghost t0 = keys@.take(i as int);
            let ghost t1 = keys@.take(i + 1);
            assert(t1 =~= t0.push(k));
            assert forall|k2: i64| #[trigger] t1.contains(k2) <==> (t0.contains(k2) || k2 == k) by {
                if t0.contains(k2) {
                    let j = choose|j: int| 0 <= j < t0.len() && t0[j] == k2;
                    assert(t1[j] == k2);
                }
                if k2 == k {
                    assert(t1[i as int] == k);
                }
                if t1.contains(k2) {
                    let j = choose|j: int| 0 <= j < t1.len() && t1[j] == k2;
                    if j < i {
                        assert(t0[j] == k2);
                    }
                }
            }
            assert(!empty@.contains(k));
            let ghost e0 = empty@;
            let ghost before = self.view_pools();
            assert(before[k] == v[k]);
            let ps = match self.pools.remove(&k) {
                Some(ps) => ps,
                None => {
                    assert(false);
                    Vec::new()
                },
            };
            assert(ps@ == v[k]);
            let kept = retain_fresh(ps, now, timeout, Ghost(v[k]));
            let kept_len = kept.len();
            self.pools.insert(k, kept);
            assert(self.view_pools() =~= before.insert(k, fv[k]));
            if kept_len == 0 {
                empty.push(k);
                assert(empty@ =~= e0.push(k));
                assert forall|a: int, b: int| 0 <= a < b < empty@.len() implies empty@[a] != empty@[b] by {
                    if b == e0.len() {
                        assert(e0.contains(empty@[a]));
                    }
                }
                assert forall|k2: i64| #[trigger] empty@.contains(k2) <==> e0.contains(k2) || k2 == k by {
                    if e0.contains(k2) {
                        let j = choose|j: int| 0 <= j < e0.len() && e0[j] == k2;
                        assert(empty@[j] == k2);
                    }
                    if k2 == k {
                        assert(empty@[e0.len() as int] == k);
                    }
                    if empty@.contains(k2) {
                        let j = choose|j: int| 0 <= j < empty@.len() && empty@[j] == k2;
                        if j < e0.len() {
                            assert(e0[j] == k2);
                        }
                    }
                }
            }
            i = i + 1;
        }
        proof {
            assert(keys@.take(keys@.len() as int) =~= keys@);
            assert(self.view_pools() =~= fv);
        }
        empty
    }
}

/// Connections leave a pool in the order they joined: after `e` joins a
/// pool, the next one taken is the pool's oldest (or `e` when the pool was
/// empty), and what stays is the rest with `e` last.
pub proof fn lemma_pool_fifo<T>(q: Seq<TCPPool<T>>, e: TCPPool<T>)
    ensures
        q.push(e)[0] == (if q.len() == 0 { e } else { q[0] }),
        q.push(e).skip(1) == (if q.len() == 0 { Seq::<TCPPool<T>>::empty() } else { q.skip(1).push(e) }),
{
    if q.len() == 0 {
        assert(q.push(e).skip(1) =~= Seq::<TCPPool<T>>::empty());
    } else {
        assert(q.push(e).skip(1) =~= q.skip(1).push(e));
    }
}

/// The connections of `ps` that are still fresh at `now`, in order; the
/// stale ones are dropped.
fn retain_fresh<T>(ps: Vec<TCPPool<T>>, now: u64, timeout: u64, Ghost(orig): Ghost<Seq<TCPPool<T>>>) -> (r: Vec<TCPPool<T>>)
    requires
        ps@ == orig,
        forall|j: int| 0 <= j < orig.len() ==> #[trigger] orig[j].create_time <= now,
    ensures
        r@ == orig.filter(|x: TCPPool<T>| is_fresh(x, now, timeout)),
{
    let ghost f = |x: TCPPool<T>| is_fresh(x, now, timeout);
    let n = ps.len();
    let mut rest = ps;
    let mut kept: Vec<TCPPool<T>> = Vec::new();
    let mut j: usize = 0;
    while rest.len() > 0
        invariant
            j <= orig.len(),
            orig.len() == n,
            rest@ == orig.skip(j as int),
            kept@ == orig.take(j as int).filter(f),
            f == (|x: TCPPool<T>| is_fresh(x, now, timeout)),
            forall|q: int| 0 <= q < orig.len() ==> #[trigger] orig[q].create_time <= now,
        decreases rest.len(),
    {
        let e = rest.remove(0);
        assert(e == orig[j as int]);
        let ghost k0 = kept@;
        if now - e.create_time <= timeout {
            kept.push(e);
        }
        proof {
            reveal(Seq::filter);
            let t1 = orig.take(j + 1);
            assert(t1.drop_last() =~= orig.take(j as int));
            assert(t1.last() == e);
            assert(rest@ =~= orig.skip(j + 1));
        }
        j = j + 1;
    }
    assert(orig.take(j as int) =~= orig);
    kept
}

} // verus!
