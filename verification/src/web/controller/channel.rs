//! Tunnel pages: the list, the details, and the edit form with its checks.
use crate::web::controller::validate::{check_length, error_pairs, length_ok, FieldError};
use crate::dao::channel_dao::Channel;
use vstd::prelude::*;

verus! {

/// The tunnels of a client.
pub struct ChannelListQuery {
    pub client_id: i64,
}

/// A row of the tunnel list.
pub struct ChannelList {
    pub id: i64,
    pub client_id: i64,
    pub client_name: String,
    pub name: String,
    pub mode: i64,
    pub server_port: i64,
    pub target_port: String,
    pub is_enabled: bool,
    pub in_len: String,
    pub out_len: String,
    pub security_state: i64,
    pub error: Option<String>,
}

/// Which tunnel's details to show.
pub struct DetailQuery {
    pub id: i64,
    pub client_id: i64,
}

/// The details of a tunnel.
pub struct ChannelDetail {
    pub id: i64,
    pub client_id: i64,
    pub client_name: String,
    pub name: String,
    pub mode: i64,
    pub server_port: i64,
    pub target_port: String,
    pub remark: Option<String>,
    pub created_at: String,
    pub is_enabled: String,
    pub in_len: String,
    pub out_len: String,
    pub security_state: i64,
    /// Version for optimistic locking.
    pub version: i64,
}

/// The tunnel edit form.
pub struct ChannelEdit {
    pub id: i64,
    pub client_id: i64,
    pub name: String,
    pub mode: i64,
    pub server_port: i64,
    pub target_port: String,
    pub security_state: i64,
    pub remark: Option<String>,
    /// Version for optimistic locking.
    pub version: i64,
}

/// The check of a name field: 1 to 32 chars.
pub open spec fn name_errors(name: Seq<char>) -> Seq<(Seq<char>, Seq<char>)> {
    if length_ok(name, 1, 32) {
        seq![]
    } else {
        seq![("name"@, "名称不能为空;长度不能超过32位"@)]
    }
}

impl ChannelEdit {
    /// The field errors of the form: the name must have 1 to 32 chars.
    pub fn validate(&self) -> (r: Vec<FieldError>)
        ensures
            error_pairs(r@) == name_errors(self.name@),
    {
        let mut errs: Vec<FieldError> = Vec::new();
        check_length(&mut errs, "name", self.name.as_str(), 1, 32, "名称不能为空;长度不能超过32位");
        assert(error_pairs(errs@) =~= name_errors(self.name@));
        errs
    }
}

/// The answer to a failed save of a tunnel.
pub enum EditFailure {
    /// A field is at fault: the field and the message.
    Field { field: String, message: String },
    /// Any other failure, with the database's message.
    Business(String),
}

/// The answer to a failed save: a server port already used by another
/// tunnel is reported on the `serverPort` field; anything else as is.
pub fn edit_failure(err_msg: &str) -> (r: EditFailure)
    ensures
        err_msg@ == "UNIQUE constraint failed: channel.server_port"@ ==> (r matches EditFailure::Field {
            field,
            message,
        } && field@ == "serverPort"@ && message@ == "该服务器端口已被其他隧道占用，请换一个端口。"@),
        err_msg@ != "UNIQUE constraint failed: channel.server_port"@ ==> (r matches EditFailure::Business(
            m,
        ) && m@ == err_msg@),
{
    if crate::text::str_eq(err_msg, "UNIQUE constraint failed: channel.server_port") {
        EditFailure::Field {
            field: crate::text::string_of(&crate::text::chars_of("serverPort")),
            message: crate::text::string_of(
                &crate::text::chars_of("该服务器端口已被其他隧道占用，请换一个端口。"),
            ),
        }
    } else {
        EditFailure::Business(crate::text::string_of(&crate::text::chars_of(err_msg)))
    }
}

/// `c` holds the form's fields: id, client, name, mode, server port,
/// target port, security state, remark and version.
pub open spec fn holds_form(c: Channel, form: ChannelEdit) -> bool {
    &&& c.id == form.id && c.client_id == form.client_id && c.name@ == form.name@
    &&& c.mode == form.mode && c.server_port == form.server_port
    &&& c.target_port@ == form.target_port@ && c.security_state == form.security_state
    &&& c.remark == form.remark && c.version == form.version
}

/// `c` keeps the other fields of `base`: traffic, states, times and error.
pub open spec fn keeps_rest(c: Channel, base: Channel) -> bool {
    &&& c.in_data == base.in_data && c.out_data == base.out_data
    &&& c.enable_state == base.enable_state && c.acl_state == base.acl_state
    &&& c.created_at == base.created_at && c.updated_at == base.updated_at
    &&& c.error == base.error
}

/// The tunnel that an edit saves: a new tunnel (form id 0) starts enabled
/// (`enable_state` 1) with everything else empty; an existing one starts
/// from its stored row, and is an error `未找到隧道信息` when none was found.
/// The form's fields are then written over it.
pub fn edit_channel(form: ChannelEdit, stored: Option<Channel>) -> (r: Result<Channel, String>)
    ensures
        form.id != 0 && stored is None <==> r is Err,
        r matches Err(m) ==> m@ == "未找到隧道信息"@,
        r matches Ok(c) ==> holds_form(c, form),
        r matches Ok(c) ==> form.id == 0 ==> {
            &&& c.enable_state == 1 && c.acl_state == 0
            &&& c.in_data == 0 && c.out_data == 0
            &&& c.created_at == 0 && c.updated_at == 0 && c.error is None
        },
        r matches Ok(c) ==> form.id != 0 ==> keeps_rest(c, stored->0),
{
    let base = if form.id == 0 {
        Channel { enable_state: 1, ..Channel::default() }
    } else {
        match stored {
            Some(c) => c,
            None => {
                return Err(crate::text::string_of(&crate::text::chars_of("未找到隧道信息")));
            },
        }
    };
    Ok(
        Channel {
            id: form.id,
            client_id: form.client_id,
            name: form.name,
            mode: form.mode,
            server_port: form.server_port,
            target_port: form.target_port,
            security_state: form.security_state,
            remark: form.remark,
            version: form.version,
            ..base
        },
    )
}

/// Whether a saved tunnel starts listening: it is enabled and its client
/// is online.
pub fn starts_listening(c: &Channel, client_online: bool) -> (r: bool)
    ensures
        r == (c.enable_state != 0 && client_online),
{
    c.enable_state != 0 && client_online
}

} // verus!
