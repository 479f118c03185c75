//! The opening of a bridged connection: the client is told whether to
//! encrypt and which target to connect to, as `state|target` behind a
//! one-byte length.
use crate::text::{append_str, dec, dec_int, dec_int_exec, split_char, string_of};
use vstd::prelude::*;

verus! {

/// The target text: the security state in decimal, `|`, the target port.
pub open spec fn target_text(security_state: i64, target_port: Seq<char>) -> Seq<char> {
    dec_int(security_state as int) + seq!['|'] + target_port
}

/// The target text of a bridge: `1|80` asks for encryption towards port 80.
pub fn target_info(security_state: i64, target_port: &str) -> (r: String)
    ensures
        r@ == target_text(security_state, target_port@),
{
    let mut v = dec_int_exec(security_state);
    v.push('|');
    append_str(&mut v, target_port);
    string_of(&v)
}

/// The bytes sent for the target text: its UTF-8 length as one byte (the
/// length modulo 256), then its UTF-8 bytes.
pub fn target_info_frame(security_state: i64, target_port: &str) -> (r: Vec<u8>)
    ensures
        r@ == seq![(vstd::utf8::encode_utf8(target_text(security_state, target_port@)).len() % 256) as u8]
            + vstd::utf8::encode_utf8(target_text(security_state, target_port@)),
{
    let info = target_info(security_state, target_port);
    let bytes = info.as_str().as_bytes();
    let n = bytes.len();
    let mut r: Vec<u8> = Vec::new();
    r.push((n % 256) as u8);
    let mut i: usize = 0;
    while i < n
        invariant
            i <= n,
            n == bytes@.len(),
            r@ == seq![(n % 256) as u8] + bytes@.take(i as int),
        decreases n - i,
    {
        r.push(bytes[i]);
        assert(bytes@.take(i + 1) =~= bytes@.take(i as int).push(bytes@[i as int]));
        i = i + 1;
    }
    assert(bytes@.take(n as int) =~= bytes@);
    r
}

/// The client reads the target text back: splitting at `|` gives the
/// state's decimal text and a target without `|`.
pub proof fn lemma_target_roundtrip(security_state: i64, target_port: Seq<char>)
    requires
        !target_port.contains('|'),
    ensures
        split_char(target_text(security_state, target_port), '|') == seq![
            dec_int(security_state as int),
            target_port,
        ],
{
    let d = dec_int(security_state as int);
    assert(!d.contains('|')) by {
        if security_state < 0 {
            crate::text::lemma_dec_chars((-(security_state as int)) as nat);
            if d.contains('|') {
                let j = choose|j: int| 0 <= j < d.len() && d[j] == '|';
                if j > 0 {
                    assert(d[j] == dec((-(security_state as int)) as nat)[j - 1]);
                }
            }
        } else {
            crate::text::lemma_dec_chars(security_state as nat);
            if d.contains('|') {
                let j = choose|j: int| 0 <= j < d.len() && d[j] == '|';
                assert(d[j] == dec(security_state as nat)[j]);
            }
        }
    }
    crate::text::lemma_split_two(d, target_port, '|');
}

} // verus!
