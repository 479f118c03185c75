//! Extractors of request data, and the answers given when extraction fails:
//! the failure text is read to tell a missing field from a field whose
//! value could not be converted.
use crate::text::{
    append_chars, append_str, chars_of, ends_with, ends_with_exec, find, find_char_exec, rfind_char,
    rfind_char_exec, slice_exec, starts_with, starts_with_exec, string_of, trim, trim_exec,
};
use crate::web::model::{field_error, ResultData};
use vstd::prelude::*;

verus! {

/// Query-string data.
pub struct AppQuery<T>(pub T);

/// Path data.
pub struct AppPath<T>(pub T);

/// Form data.
pub struct AppForm<T>(pub T);

/// JSON data.
pub struct AppJson<T>(pub T);

/// The answer to request data that could not be extracted.
pub enum RequestError {
    /// A business error with this message.
    Format(String),
    /// A required field is missing: answered as a failed form whose field
    /// is marked `该字段必须`.
    MissingField(String),
    /// A field's value could not be converted: answered as a failed form
    /// whose field carries the message.
    InvalidField { field: String, message: String },
}

/// `r` is the format error with message `m`.
pub open spec fn is_format_error(r: RequestError, m: Seq<char>) -> bool {
    r matches RequestError::Format(x) && x@ == m
}

/// `r` is the missing-field answer for field `f`.
pub open spec fn is_missing_answer(r: RequestError, f: Seq<char>) -> bool {
    r matches RequestError::MissingField(x) && x@ == f
}

/// `r` is the conversion-failure answer for field `f` with message `m`.
pub open spec fn is_invalid_answer(r: RequestError, f: Seq<char>, m: Seq<char>) -> bool {
    r matches RequestError::InvalidField { field, message } && field@ == f && message@ == m
}

/// The field named between the first two colons, trimmed.
pub open spec fn colon_field(rejection: Seq<char>) -> Seq<char> {
    trim(
        rejection.subrange(
            char_positions(rejection, ':')[0] + 1,
            char_positions(rejection, ':')[1],
        ),
    )
}

/// The positions of `c` in `s`, in order.
pub open spec fn char_positions(s: Seq<char>, c: char) -> Seq<int>
    decreases s.len(),
{
    if s.len() == 0 {
        seq![]
    } else {
        let p = char_positions(s.drop_last(), c);
        if s.last() == c {
            p.push(s.len() - 1)
        } else {
            p
        }
    }
}

/// The `k`-th position of `c` in `s`, 0 when there is none.
pub open spec fn nth_position(s: Seq<char>, c: char, k: int) -> int {
    if k < char_positions(s, c).len() {
        char_positions(s, c)[k]
    } else {
        0
    }
}

/// The message of a request whose data is malformed.
pub open spec fn format_message(rejection: Seq<char>) -> Seq<char> {
    "请求数据格式错误: "@ + rejection
}

proof fn lemma_positions(s: Seq<char>, c: char)
    ensures
        forall|k: int|
            0 <= k < char_positions(s, c).len() ==> 0 <= #[trigger] char_positions(s, c)[k] < s.len()
                && s[char_positions(s, c)[k]] == c,
        forall|a: int, b: int|
            0 <= a < b < char_positions(s, c).len() ==> char_positions(s, c)[a] < char_positions(
                s,
                c,
            )[b],
    decreases s.len(),
{
    if s.len() > 0 {
        lemma_positions(s.drop_last(), c);
        let p = char_positions(s.drop_last(), c);
        assert forall|k: int| 0 <= k < p.len() implies s[p[k]] == s.drop_last()[p[k]] by {}
    }
}

fn positions_exec(s: &[char], c: char) -> (r: Vec<usize>)
    ensures
        r@.map_values(|x: usize| x as int) == char_positions(s@, c),
{
    let mut r: Vec<usize> = Vec::new();
    let mut i: usize = 0;
    while i < s.len()
        invariant
            i <= s@.len(),
            r@.map_values(|x: usize| x as int) == char_positions(s@.take(i as int), c),
        decreases s.len() - i,
    {
        let ghost before = r@.map_values(|x: usize| x as int);
        assert(s@.take(i + 1).drop_last() =~= s@.take(i as int));
        if s[i] == c {
            r.push(i);
            assert(r@.map_values(|x: usize| x as int) =~= before.push(i as int));
        }
        i = i + 1;
    }
    assert(s@.take(s@.len() as int) =~= s@);
    r
}

fn format_error(rejection: &[char]) -> (r: RequestError)
    ensures
        is_format_error(r, format_message(rejection@)),
{
    let mut m = chars_of("请求数据格式错误: ");
    append_chars(&mut m, rejection);
    RequestError::Format(string_of(&m))
}

/// The missing-field answer reads the field between the first and the last
/// backtick; without a backtick after the start it is a format error.
pub open spec fn not_found_result(rejection: Seq<char>) -> (bool, Seq<char>) {
    let start = match find(rejection, seq!['`']) {
        Some(i) => i + 1,
        None => 1,
    };
    let end = match rfind_char(rejection, '`') {
        Some(i) => i,
        None => 0,
    };
    if end == 0 {
        (false, format_message(rejection))
    } else {
        (true, rejection.subrange(start, end))
    }
}

/// A text with one backtick only, after its start, cannot be cut.
pub open spec fn not_found_ok(rejection: Seq<char>) -> bool {
    match (find(rejection, seq!['`']), rfind_char(rejection, '`')) {
        (Some(i), Some(j)) => j == 0 || i + 1 <= j,
        _ => true,
    }
}

/// The answer to a missing field (see [`not_found_result`]).
pub fn not_found_error_handler(rejection: &str) -> (r: RequestError)
    requires
        not_found_ok(rejection@),
    ensures
        not_found_result(rejection@).0 ==> is_missing_answer(r, not_found_result(rejection@).1),
        !not_found_result(rejection@).0 ==> is_format_error(r, not_found_result(rejection@).1),
{
    let s = chars_of(rejection);
    proof {
        crate::text::lemma_find(s@, seq!['`']);
        crate::text::lemma_rfind_char(s@, '`');
    }
    let n = s.len();
    let start = match find_char_exec(&s, '`') {
        Some(i) => {
            assert(i < n);
            i + 1
        },
        None => 1,
    };
    let end = match rfind_char_exec(&s, '`') {
        Some(i) => i,
        None => 0,
    };
    if end == 0 {
        return format_error(&s);
    }
    RequestError::MissingField(string_of(&slice_exec(&s, start, end)))
}

/// The answer to form data that could not be extracted: always a format
/// error naming the failure.
pub fn form_error_handler(rejection: &str) -> (r: RequestError)
    ensures
        is_format_error(r, format_message(rejection@)),
{
    format_error(&chars_of(rejection))
}

/// The message for a value that could not be converted, by how the failure
/// text ends.
pub open spec fn invalid_message(rejection: Seq<char>) -> Seq<char> {
    if ends_with(rejection, "invalid digit found in string"@) {
        "无效的数字格式"@
    } else if ends_with(rejection, "cannot parse integer from empty string"@) {
        "不能将空字符串转换为数字"@
    } else {
        "类型转换失败"@
    }
}

/// The answer to a value that could not be converted: the field is the
/// text between the first two colons, trimmed; without two colons it is a
/// format error.
pub fn invalid_error_handler(rejection: &str) -> (r: RequestError)
    ensures
        char_positions(rejection@, ':').len() >= 2 ==> is_invalid_answer(
            r,
            colon_field(rejection@),
            invalid_message(rejection@),
        ),
        char_positions(rejection@, ':').len() < 2 ==> is_format_error(r, format_message(rejection@)),
{
    let s = chars_of(rejection);
    let colons = positions_exec(&s, ':');
    proof {
        lemma_positions(s@, ':');
    }
    if colons.len() < 2 {
        return format_error(&s);
    }
    let a = colons[0];
    let b = colons[1];
    assert(a as int == char_positions(s@, ':')[0]);
    assert(b as int == char_positions(s@, ':')[1]);
    let field = trim_exec(&slice_exec(&s, a + 1, b));
    proof {
        reveal_strlit("invalid digit found in string");
        reveal_strlit("cannot parse integer from empty string");
    }
    let msg: &str = if ends_with_exec(&s, &chars_of("invalid digit found in string")) {
        "无效的数字格式"
    } else if ends_with_exec(&s, &chars_of("cannot parse integer from empty string")) {
        "不能将空字符串转换为数字"
    } else {
        "类型转换失败"
    };
    RequestError::InvalidField { field: string_of(&field), message: string_of(&chars_of(msg)) }
}

/// The failure text says a field is missing.
pub open spec fn is_missing_field(rejection: Seq<char>) -> bool {
    ||| starts_with(rejection, "Failed to deserialize query string: missing field"@)
    ||| starts_with(rejection, "Failed to deserialize form body: missing field"@)
    ||| starts_with(
        rejection,
        "Failed to deserialize the JSON body into the target type: missing field"@,
    )
}

/// The failure text says data could not be converted.
pub open spec fn is_invalid_data(rejection: Seq<char>) -> bool {
    ||| starts_with(rejection, "Failed to deserialize form body:"@)
    ||| starts_with(rejection, "Failed to deserialize query string:"@)
    ||| starts_with(rejection, "Failed to deserialize the JSON body into the target type:"@)
}

/// The answer to request data that could not be extracted: a missing
/// field, a value that could not be converted, or else a format error.
pub fn error_handler(rejection: &str) -> (r: RequestError)
    requires
        is_missing_field(rejection@) ==> not_found_ok(rejection@),
    ensures
        is_missing_field(rejection@) && not_found_result(rejection@).0 ==> is_missing_answer(
            r,
            not_found_result(rejection@).1,
        ),
        is_missing_field(rejection@) && !not_found_result(rejection@).0 ==> is_format_error(
            r,
            not_found_result(rejection@).1,
        ),
        !is_missing_field(rejection@) && is_invalid_data(rejection@) && char_positions(
            rejection@,
            ':',
        ).len() >= 2 ==> is_invalid_answer(r, colon_field(rejection@), invalid_message(rejection@)),
        !is_missing_field(rejection@) && is_invalid_data(rejection@) && char_positions(
            rejection@,
            ':',
        ).len() < 2 ==> is_format_error(r, format_message(rejection@)),
        !is_missing_field(rejection@) && !is_invalid_data(rejection@) ==> is_format_error(
            r,
            format_message(rejection@),
        ),
{
    let s = chars_of(rejection);
    proof {
        reveal_strlit("Failed to deserialize query string: missing field");
        reveal_strlit("Failed to deserialize form body: missing field");
        reveal_strlit("Failed to deserialize the JSON body into the target type: missing field");
        reveal_strlit("Failed to deserialize form body:");
        reveal_strlit("Failed to deserialize query string:");
        reveal_strlit("Failed to deserialize the JSON body into the target type:");
    }
    if starts_with_exec(&s, &chars_of("Failed to deserialize query string: missing field"))
        || starts_with_exec(&s, &chars_of("Failed to deserialize form body: missing field"))
        || starts_with_exec(
        &s,
        &chars_of("Failed to deserialize the JSON body into the target type: missing field"),
    ) {
        not_found_error_handler(rejection)
    } else if starts_with_exec(&s, &chars_of("Failed to deserialize form body:")) || starts_with_exec(
        &s,
        &chars_of("Failed to deserialize query string:"),
    ) || starts_with_exec(
        &s,
        &chars_of("Failed to deserialize the JSON body into the target type:"),
    ) {
        invalid_error_handler(rejection)
    } else {
        format_error(&s)
    }
}

/// The message for a path value that could not be parsed: the value
/// between the first two backticks and the type between the third and the
/// fourth, each trimmed.
pub open spec fn path_message(rejection: Seq<char>) -> Seq<char> {
    let p = char_positions(rejection, '`');
    "无法将路径参数的值 '"@ + trim(rejection.subrange(p[0] + 1, p[1])) + "' 转换为目标'"@ + trim(
        rejection.subrange(p[2] + 1, p[3]),
    ) + "' 类型"@
}

/// The answer to a path value that could not be extracted: for a parse
/// failure naming the value and the type between backticks, a message
/// naming both; otherwise a format error.
pub fn path_error_handler(rejection: &str) -> (r: RequestError)
    ensures
        is_format_error(
            r,
            if starts_with(rejection@, "Cannot parse"@) && nth_position(rejection@, '`', 3) != 0 {
                path_message(rejection@)
            } else {
                format_message(rejection@)
            },
        ),
{
    let s = chars_of(rejection);
    proof {
        reveal_strlit("Cannot parse");
        reveal_strlit("无法将路径参数的值 '");
        reveal_strlit("' 转换为目标'");
        reveal_strlit("' 类型");
        lemma_positions(s@, '`');
    }
    if !starts_with_exec(&s, &chars_of("Cannot parse")) {
        return format_error(&s);
    }
    let ticks = positions_exec(&s, '`');
    assert(ticks@.len() == char_positions(s@, '`').len());
    if ticks.len() < 4 || ticks[3] == 0 {
        return format_error(&s);
    }
    let first = ticks[0];
    let second = ticks[1];
    let third = ticks[2];
    let fourth = ticks[3];
    assert(first as int == char_positions(s@, '`')[0]);
    assert(second as int == char_positions(s@, '`')[1]);
    assert(third as int == char_positions(s@, '`')[2]);
    assert(fourth as int == char_positions(s@, '`')[3]);
    let value = trim_exec(&slice_exec(&s, first + 1, second));
    let ty = trim_exec(&slice_exec(&s, third + 1, fourth));
    let mut m = chars_of("无法将路径参数的值 '");
    append_chars(&mut m, &value);
    append_str(&mut m, "' 转换为目标'");
    append_chars(&mut m, &ty);
    append_str(&mut m, "' 类型");
    RequestError::Format(string_of(&m))
}

/// The failed-form body that answers a request error, with HTTP status 500:
/// code 2, `表单验证失败`, and the field at fault with its one message,
/// `该字段必须` for a missing field or the conversion message for a value
/// that could not be converted. A format error is answered as a business
/// error carrying its message instead, and has no such body.
pub fn answer_body(e: &RequestError) -> (r: Option<ResultData<Vec<(String, Vec<String>)>>>)
    ensures
        e is Format <==> r is None,
        r matches Some(b) ==> {
            &&& b.code == 2
            &&& b.msg@ == "表单验证失败"@
            &&& b.data@.len() == 1
            &&& b.data@[0].1@.len() == 1
            &&& match *e {
                RequestError::MissingField(f) => b.data@[0].0@ == f@ && b.data@[0].1@[0]@ == "该字段必须"@,
                RequestError::InvalidField { field, message } => b.data@[0].0@ == field@
                    && b.data@[0].1@[0]@ == message@,
                RequestError::Format(_) => false,
            }
        },
{
    match e {
        RequestError::Format(_) => None,
        RequestError::MissingField(f) => Some(field_error(f.as_str(), "该字段必须")),
        RequestError::InvalidField { field, message } => Some(field_error(field.as_str(), message.as_str())),
    }
}

} // verus!
