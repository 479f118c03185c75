//! Port-forward pages: the list, the details, and the edit form with its
//! checks.
use crate::web::controller::channel::name_errors;
use crate::web::controller::validate::{check_length, error_pairs, FieldError};
use vstd::prelude::*;

verus! {

/// A row of the port-forward list.
pub struct ForwardList {
    pub id: i64,
    pub name: String,
    pub server_port: i64,
    pub target_port: String,
    pub is_enabled: bool,
    pub in_len: String,
    pub out_len: String,
    pub error: Option<String>,
}

/// The details of a port forward.
pub struct ForwardDetail {
    pub id: i64,
    pub name: String,
    pub server_port: i64,
    pub target_port: String,
    pub remark: Option<String>,
    pub created_at: String,
    pub is_enabled: String,
    /// Whether its traffic is counted.
    pub is_stats_traffic: bool,
    pub in_len: String,
    pub out_len: String,
}

/// The port-forward edit form.
pub struct ForwardEdit {
    pub id: i64,
    pub name: String,
    pub server_port: i64,
    pub target_port: String,
    /// Whether its traffic is counted.
    pub is_stats_traffic: bool,
    pub remark: Option<String>,
}

impl ForwardEdit {
    /// The field errors of the form: the name must have 1 to 32 chars.
    pub fn validate(&self) -> (r: Vec<FieldError>)
        ensures
            error_pairs(r@) == name_errors(self.name@),
    {
        let mut errs: Vec<FieldError> = Vec::new();
        check_length(&mut errs, "name", self.name.as_str(), 1, 32, "名称不能为空;长度不能超过32位");
        assert(error_pairs(errs@) =~= name_errors(self.name@));
        errs
    }
}

} // verus!
