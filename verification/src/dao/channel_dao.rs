//! Tunnel rows.
use vstd::prelude::*;

verus! {

/// A tunnel.
pub struct Channel {
    pub id: i64,
    pub client_id: i64,
    pub name: String,
    pub mode: i64,
    pub server_port: i64,
    pub target_port: String,
    pub in_data: i64,
    pub out_data: i64,
    pub enable_state: i64,
    pub security_state: i64,
    pub acl_state: i64,
    pub created_at: i64,
    pub updated_at: i64,
    pub remark: Option<String>,
    pub error: Option<String>,
    pub version: i64,
}

impl Default for Channel {
    /// All numbers 0, all texts empty, no remark and no error.
    fn default() -> (r: Self)
        ensures
            r.id == 0 && r.client_id == 0 && r.mode == 0 && r.server_port == 0 && r.in_data == 0
                && r.out_data == 0 && r.enable_state == 0 && r.security_state == 0 && r.acl_state
                == 0 && r.created_at == 0 && r.updated_at == 0 && r.version == 0,
            r.name@.len() == 0 && r.target_port@.len() == 0,
            r.remark is None && r.error is None,
    {
        Channel {
            id: 0,
            client_id: 0,
            name: String::new(),
            mode: 0,
            server_port: 0,
            target_port: String::new(),
            in_data: 0,
            out_data: 0,
            enable_state: 0,
            security_state: 0,
            acl_state: 0,
            created_at: 0,
            updated_at: 0,
            remark: None,
            error: None,
            version: 0,
        }
    }
}

} // verus!
