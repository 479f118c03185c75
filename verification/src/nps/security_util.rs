//! The byte-substitution keys of encrypted tunnels.
//!
//! The server key is a random permutation of the 256 byte values; the
//! client key is its inverse. The server encodes a byte `b` as
//! `server[b]`, and the client decodes it as `client[server[b]] == b`
//! (and the other way round).
use rand::seq::SliceRandom;
use vstd::prelude::*;

verus! {

/// A key: each of the 256 byte values exactly once.
pub open spec fn is_key(k: Seq<u8>) -> bool {
    &&& k.len() == 256
    &&& k.no_duplicates()
    &&& forall|v: u8| #[trigger] k.contains(v)
}

/// `client` undoes `server`: `client[server[i]] == i` for every position.
pub open spec fn is_inverse(server: Seq<u8>, client: Seq<u8>) -> bool {
    &&& server.len() == 256
    &&& client.len() == 256
    &&& forall|i: int| 0 <= i < 256 ==> #[trigger] client[server[i] as int] == i
}

/// Each byte replaced by the key's entry for it.
pub open spec fn substitute(key: Seq<u8>, s: Seq<u8>) -> Seq<u8> {
    s.map_values(|b: u8| key[b as int])
}

/// `rand::seq::SliceRandom::shuffle` with the thread-local generator: the
/// items end in a random order. Only that the result is a rearrangement of
/// the items is stated.
#[verifier::external_body]
fn shuffle_bytes(v: &mut Vec<u8>)
    ensures
        final(v)@.to_multiset() == old(v)@.to_multiset(),
{
    v.as_mut_slice().shuffle(&mut rand::rng());
}

/// A fresh random server key.
pub fn new_server_key() -> (k: Vec<u8>)
    ensures
        is_key(k@),
{
    let mut k: Vec<u8> = Vec::new();
    let mut i: u32 = 0;
    while i < 256
        invariant
            i <= 256,
            k@.len() == i,
            forall|j: int| 0 <= j < i ==> #[trigger] k@[j] == j,
        decreases 256 - i,
    {
        k.push(i as u8);
        i = i + 1;
    }
    let ghost before = k@;
    assert(before.no_duplicates());
    assert forall|v: u8| #[trigger] before.contains(v) by {
        assert(before[v as int] == v);
    }
    shuffle_bytes(&mut k);
    proof {
        broadcast use vstd::seq_lib::group_to_multiset_ensures;
        before.lemma_multiset_has_no_duplicates();
        assert(k@.len() == 256) by {
            assert(k@.to_multiset().len() == before.to_multiset().len());
        }
        assert forall|x: u8| k@.to_multiset().contains(x) implies k@.to_multiset().count(x) == 1 by {
            assert(before.to_multiset().contains(x));
        }
        k@.lemma_multiset_has_no_duplicates_conv();
        assert forall|v: u8| #[trigger] k@.contains(v) by {
            assert(before.contains(v));
            assert(before.to_multiset().count(v) > 0);
            assert(k@.to_multiset().count(v) > 0);
        }
    }
    k
}

/// The client key of a server key: its inverse.
pub fn client_key_of(server: &Vec<u8>) -> (c: Vec<u8>)
    requires
        is_key(server@),
    ensures
        is_inverse(server@, c@),
        is_key(c@),
{
    let mut c: Vec<u8> = Vec::new();
    let mut i: u32 = 0;
    while i < 256
        invariant
            i <= 256,
            c@.len() == i,
        decreases 256 - i,
    {
        c.push(0);
        i = i + 1;
    }
    let mut i: usize = 0;
    while i < 256
        invariant
            i <= 256,
            c@.len() == 256,
            is_key(server@),
            forall|j: int| 0 <= j < i ==> #[trigger] c@[server@[j] as int] == j,
        decreases 256 - i,
    {
        let v = server[i];
        c.set(v as usize, i as u8);
        assert forall|j: int| 0 <= j < i + 1 implies #[trigger] c@[server@[j] as int] == j by {
            if j < i {
                assert(server@[j] != server@[i as int]);
            }
        }
        i = i + 1;
    }
    proof {
        lemma_inverse_is_key(server@, c@);
    }
    c
}

/// The inverse of a key is a key, and undoes it on either side.
pub proof fn lemma_inverse_is_key(server: Seq<u8>, client: Seq<u8>)
    requires
        is_key(server),
        is_inverse(server, client),
    ensures
        is_key(client),
        forall|b: u8| #[trigger] client[server[b as int] as int] == b,
        forall|b: u8| #[trigger] server[client[b as int] as int] == b,
{
    assert forall|b: u8| #[trigger] server[client[b as int] as int] == b by {
        assert(server.contains(b));
        let i = choose|i: int| 0 <= i < server.len() && server[i] == b;
        assert(client[server[i] as int] == i);
    }
    assert forall|b: u8| #[trigger] client.contains(b) by {
        assert(client[server[b as int] as int] == b);
    }
    assert forall|a: int, b: int| 0 <= a < b < 256 implies client[a] != client[b] by {
        assert(server[client[a] as int] == a as u8);
        assert(server[client[b] as int] == b as u8);
    }
}

/// Replaces each of the first `n` bytes of `buf` by the key's entry for it;
/// the rest is left as it is.
pub fn apply_key(key: &Vec<u8>, buf: &mut Vec<u8>, n: usize)
    requires
        key@.len() == 256,
        n <= old(buf)@.len(),
    ensures
        final(buf)@ == substitute(key@, old(buf)@.take(n as int)) + old(buf)@.skip(n as int),
{
    let ghost orig = buf@;
    let mut i: usize = 0;
    while i < n
        invariant
            key@.len() == 256,
            n <= orig.len(),
            buf@.len() == orig.len(),
            i <= n,
            forall|j: int| 0 <= j < i ==> buf@[j] == key@[orig[j] as int],
            forall|j: int| i <= j < orig.len() ==> buf@[j] == orig[j],
        decreases n - i,
    {
        let b = buf[i];
        buf.set(i, key[b as usize]);
        i = i + 1;
    }
    assert(buf@ =~= substitute(key@, orig.take(n as int)) + orig.skip(n as int));
}

/// Decoding undoes encoding: substituting with the server key and then
/// with its inverse gives back the bytes, and so does the other order.
pub proof fn lemma_decode_encode(server: Seq<u8>, client: Seq<u8>, s: Seq<u8>)
    requires
        is_key(server),
        is_inverse(server, client),
    ensures
        substitute(client, substitute(server, s)) == s,
        substitute(server, substitute(client, s)) == s,
{
    lemma_inverse_is_key(server, client);
    assert forall|i: int| 0 <= i < s.len() implies #[trigger] substitute(
        client,
        substitute(server, s),
    )[i] == s[i] by {
        let b = s[i];
        assert(client[server[b as int] as int] == b);
    }
    assert forall|i: int| 0 <= i < s.len() implies #[trigger] substitute(
        server,
        substitute(client, s),
    )[i] == s[i] by {
        let b = s[i];
        assert(server[client[b as int] as int] == b);
    }
    assert(substitute(client, substitute(server, s)) =~= s);
    assert(substitute(server, substitute(client, s)) =~= s);
}

/// The server key and the client key that undoes it.
pub struct SecurityKeys {
    pub server: Vec<u8>,
    pub client: Vec<u8>,
}

impl SecurityKeys {
    /// The server key is a key and the client key its inverse.
    pub open spec fn wf(&self) -> bool {
        is_key(self.server@) && is_inverse(self.server@, self.client@) && is_key(self.client@)
    }

    /// A fresh random key pair.
    pub fn new() -> (keys: Self)
        ensures
            keys.wf(),
    {
        let server = new_server_key();
        let client = client_key_of(&server);
        SecurityKeys { server, client }
    }
}

} // verus!
