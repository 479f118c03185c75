//! The first message of a client's main connection: `key|version`.
use crate::text::{
    chars_of, split_char, split_exec, string_of, views,
};
use vstd::prelude::*;

verus! {

/// `String::from_utf8_lossy(bytes)` as text (a fact of std): every invalid
/// UTF-8 sequence becomes U+FFFD.
pub uninterp spec fn lossy_utf8(bytes: Seq<u8>) -> Seq<char>;

/// `String::from_utf8_lossy`, owned: the bytes as text; on valid UTF-8 it is
/// the decoded text (std's documentation). How invalid sequences are
/// replaced is not stated beyond the name.
#[verifier::external_body]
fn utf8_lossy(bytes: &[u8]) -> (r: String)
    ensures
        r@ == lossy_utf8(bytes@),
        vstd::utf8::valid_utf8(bytes@) ==> r@ == vstd::utf8::decode_utf8(bytes@),
{
    String::from_utf8_lossy(bytes).into_owned()
}

/// Why a main connection was refused.
pub enum SessionError {
    /// The header is not `key|version`; it holds the header text.
    InvalidHeader(String),
}

/// The client key and version of a header text: exactly two `|`-separated
/// pieces, else the header is refused with its text.
pub fn parse_header_text(header: &str) -> (r: Result<(String, String), SessionError>)
    ensures
        split_char(header@, '|').len() == 2 <==> r is Ok,
        r matches Ok((key, version)) ==> key@ == split_char(header@, '|')[0] && version@
            == split_char(header@, '|')[1],
        r matches Err(SessionError::InvalidHeader(h)) ==> h@ == header@,
{
    let bar: Vec<char> = vec!['|'];
    assert(bar@ =~= seq!['|']);
    let parts = split_exec(&chars_of(header), &bar);
    if parts.len() != 2 {
        return Err(SessionError::InvalidHeader(string_of(&chars_of(header))));
    }
    assert(views(parts@)[0] == parts@[0]@);
    assert(views(parts@)[1] == parts@[1]@);
    Ok((string_of(&parts[0]), string_of(&parts[1])))
}

/// The client key and version of the header bytes read from a main
/// connection (decoded as by `String::from_utf8_lossy`).
pub fn parse_session_header(header_data: &[u8]) -> (r: Result<(String, String), SessionError>)
    ensures
        split_char(lossy_utf8(header_data@), '|').len() == 2 <==> r is Ok,
        r matches Ok((key, version)) ==> key@ == split_char(lossy_utf8(header_data@), '|')[0]
            && version@ == split_char(lossy_utf8(header_data@), '|')[1],
        r matches Err(SessionError::InvalidHeader(h)) ==> h@ == lossy_utf8(header_data@),
{
    let header = utf8_lossy(header_data);
    parse_header_text(header.as_str())
}

/// A header made of a key and a version without `|` reads back as that key
/// and version.
pub proof fn lemma_header_roundtrip(key: Seq<char>, version: Seq<char>)
    requires
        !key.contains('|'),
        !version.contains('|'),
    ensures
        split_char(key + seq!['|'] + version, '|') == seq![key, version],
{
    crate::text::lemma_split_two(key, version, '|');
}

} // verus!
