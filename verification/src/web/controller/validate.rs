//! Field validation: length limits counted in chars, and the message that
//! lists the fields that failed.
use crate::text::{append_chars, append_str, chars_of, join, string_of, views};
use vstd::prelude::*;

verus! {

/// A field whose value failed a check, and the check's message.
pub struct FieldError {
    pub field: String,
    pub message: String,
}

/// The field errors as text pairs.
pub open spec fn error_pairs(errs: Seq<FieldError>) -> Seq<(Seq<char>, Seq<char>)> {
    errs.map_values(|e: FieldError| (e.field@, e.message@))
}

/// `field: message` for each error, separated by `, `.
pub open spec fn errors_text(errs: Seq<(Seq<char>, Seq<char>)>) -> Seq<char> {
    join(errs.map_values(|e: (Seq<char>, Seq<char>)| e.0 + ": "@ + e.1), ", "@)
}

/// The text of a failed form: `表单验证失败: ` and the field errors.
pub open spec fn form_error_text(errs: Seq<(Seq<char>, Seq<char>)>) -> Seq<char> {
    "表单验证失败: "@ + errors_text(errs)
}

/// The value's length in chars lies within the bounds.
pub open spec fn length_ok(s: Seq<char>, min: nat, max: nat) -> bool {
    min <= s.len() <= max
}

/// An error for `field` when the value's length in chars lies outside
/// `min..=max`.
pub fn check_length(errs: &mut Vec<FieldError>, field: &str, value: &str, min: usize, max: usize, message: &str)
    ensures
        error_pairs(final(errs)@) == if length_ok(value@, min as nat, max as nat) {
            error_pairs(old(errs)@)
        } else {
            error_pairs(old(errs)@).push((field@, message@))
        },
{
    let n = value.unicode_len();
    if n < min || n > max {
        let e = FieldError { field: string_of(&chars_of(field)), message: string_of(&chars_of(message)) };
        let ghost before = errs@;
        errs.push(e);
        assert(error_pairs(errs@) =~= error_pairs(before).push((field@, message@)));
    }
}

/// The text of a failed form (see [`form_error_text`]).
pub fn form_error_message(errs: &Vec<FieldError>) -> (r: String)
    ensures
        r@ == form_error_text(error_pairs(errs@)),
{
    let mut items: Vec<Vec<char>> = Vec::new();
    let mut i: usize = 0;
    let ghost f = |e: (Seq<char>, Seq<char>)| e.0 + ": "@ + e.1;
    proof {
        reveal_strlit(": ");
        reveal_strlit(", ");
        reveal_strlit("表单验证失败: ");
    }
    while i < errs.len()
        invariant
            i <= errs@.len(),
            f == (|e: (Seq<char>, Seq<char>)| e.0 + ": "@ + e.1),
            views(items@) == error_pairs(errs@).take(i as int).map_values(f),
        decreases errs.len() - i,
    {
        let mut item = chars_of(errs[i].field.as_str());
        append_str(&mut item, ": ");
        append_str(&mut item, errs[i].message.as_str());
        let ghost before = views(items@);
        items.push(item);
        proof {
            assert(views(items@) =~= before.push(item@));
            assert(error_pairs(errs@).take(i + 1).map_values(f) =~= error_pairs(errs@).take(
                i as int,
            ).map_values(f).push(f(error_pairs(errs@)[i as int])));
        }
        i = i + 1;
    }
    assert(error_pairs(errs@).take(errs@.len() as int) =~= error_pairs(errs@));
    let mut out = chars_of("表单验证失败: ");
    append_chars(&mut out, &crate::text::join_exec(&items, &chars_of(", ")));
    string_of(&out)
}

} // verus!
