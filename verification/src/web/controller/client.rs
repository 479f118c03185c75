//! Client pages: the list, the details, and the edit form with its checks.
use crate::web::controller::channel::name_errors;
use crate::web::controller::validate::{check_length, error_pairs, length_ok, FieldError};
use vstd::prelude::*;

verus! {

/// A row of the client list.
pub struct ClitentList {
    pub id: i64,
    pub name: String,
    pub key: String,
    pub ip: String,
    pub client_version: String,
    pub enable_state: i64,
    pub in_len: String,
    pub out_len: String,
    pub is_online: bool,
}

/// The details of a client.
pub struct ClientDetail {
    pub id: i64,
    pub name: String,
    /// Version for optimistic locking.
    pub version: i64,
    pub client_version: Option<String>,
    /// Authentication key.
    pub key: String,
    pub ip: Option<String>,
    pub in_len: String,
    pub out_len: String,
    pub online_state: String,
    pub enable_state: String,
    pub last_login_date: String,
    pub created_at: String,
    pub updated_at: String,
    pub remark: Option<String>,
}

/// The client edit form.
pub struct ClientEdit {
    pub id: i64,
    pub name: String,
    /// Version for optimistic locking.
    pub version: i64,
    /// Authentication key.
    pub key: String,
    pub remark: Option<String>,
}

/// The checks of the client form: name and key of 1 to 32 chars each.
pub open spec fn client_edit_errors(name: Seq<char>, key: Seq<char>) -> Seq<(Seq<char>, Seq<char>)> {
    if length_ok(key, 1, 32) {
        name_errors(name)
    } else {
        name_errors(name).push(("key"@, "认证秘钥不能为空;长度不能超过32位"@))
    }
}

impl ClientEdit {
    /// The field errors of the form, name first.
    pub fn validate(&self) -> (r: Vec<FieldError>)
        ensures
            error_pairs(r@) == client_edit_errors(self.name@, self.key@),
    {
        let mut errs: Vec<FieldError> = Vec::new();
        check_length(&mut errs, "name", self.name.as_str(), 1, 32, "名称不能为空;长度不能超过32位");
        check_length(&mut errs, "key", self.key.as_str(), 1, 32, "认证秘钥不能为空;长度不能超过32位");
        assert(error_pairs(errs@) =~= client_edit_errors(self.name@, self.key@));
        errs
    }
}

/// The answer to a failed save of a client: a key already used by another
/// client is reported on the `key` field; anything else as is.
pub fn edit_failure(err_msg: &str) -> (r: crate::web::controller::channel::EditFailure)
    ensures
        err_msg@ == "UNIQUE constraint failed: client.key"@ ==> (r matches crate::web::controller::channel::EditFailure::Field {
            field,
            message,
        } && field@ == "key"@ && message@ == "该秘钥已被其他客户端使用，请换一个秘钥。"@),
        err_msg@ != "UNIQUE constraint failed: client.key"@ ==> (r matches crate::web::controller::channel::EditFailure::Business(
            m,
        ) && m@ == err_msg@),
{
    if crate::text::str_eq(err_msg, "UNIQUE constraint failed: client.key") {
        crate::web::controller::channel::EditFailure::Field {
            field: crate::text::string_of(&crate::text::chars_of("key")),
            message: crate::text::string_of(
                &crate::text::chars_of("该秘钥已被其他客户端使用，请换一个秘钥。"),
            ),
        }
    } else {
        crate::web::controller::channel::EditFailure::Business(
            crate::text::string_of(&crate::text::chars_of(err_msg)),
        )
    }
}

/// The shown enable state: `关闭` for 0, else `开启`.
pub fn enable_state_text(enable_state: i64) -> (r: &'static str)
    ensures
        r@ == if enable_state == 0 { "关闭"@ } else { "开启"@ },
{
    if enable_state == 0 {
        "关闭"
    } else {
        "开启"
    }
}

/// The shown online state.
pub fn online_state_text(online: bool) -> (r: &'static str)
    ensures
        r@ == if online { "在线"@ } else { "离线"@ },
{
    if online {
        "在线"
    } else {
        "离线"
    }
}

/// The enable state after a toggle, and whether the client's session is to
/// be closed (when it was enabled).
pub fn toggle_enable_state(enable_state: i64) -> (r: (i64, bool))
    ensures
        r == if enable_state == 0 { (1i64, false) } else { (0i64, true) },
{
    if enable_state == 0 {
        (1, false)
    } else {
        (0, true)
    }
}

} // verus!
