//! The body of an answer: a code, a message and data.
use crate::text::{chars_of, string_of};
use vstd::prelude::*;

verus! {

/// A code, a message and data.
pub struct ResultData<T> {
    pub code: usize,
    pub msg: String,
    pub data: T,
}

/// The body of a failed form with one field at fault: code 2, `表单验证失败`,
/// and the field with its one message.
pub fn field_error(field: &str, message: &str) -> (r: ResultData<Vec<(String, Vec<String>)>>)
    ensures
        r.code == 2,
        r.msg@ == "表单验证失败"@,
        r.data@.len() == 1,
        r.data@[0].0@ == field@,
        r.data@[0].1@.len() == 1,
        r.data@[0].1@[0]@ == message@,
{
    let messages: Vec<String> = vec![string_of(&chars_of(message))];
    let data: Vec<(String, Vec<String>)> = vec![(string_of(&chars_of(field)), messages)];
    ResultData { code: 2, msg: string_of(&chars_of("表单验证失败")), data }
}

} // verus!
