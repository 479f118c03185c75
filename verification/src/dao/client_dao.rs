//! Client rows.
use crate::text::str_eq;
use vstd::prelude::*;

verus! {

/// A client.
pub struct Client {
    pub id: i64,
    pub name: String,
    pub key: String,
    pub in_data: i64,
    pub out_data: i64,
    pub last_login_date: i64,
    pub enable_state: i64,
    pub online_state: i64,
    pub remark: Option<String>,
}

impl Default for Client {
    /// All numbers 0, all texts empty, no remark.
    fn default() -> (r: Self)
        ensures
            r.id == 0 && r.in_data == 0 && r.out_data == 0 && r.last_login_date == 0
                && r.enable_state == 0 && r.online_state == 0,
            r.name@.len() == 0 && r.key@.len() == 0,
            r.remark is None,
    {
        Client {
            id: 0,
            name: String::new(),
            key: String::new(),
            in_data: 0,
            out_data: 0,
            last_login_date: 0,
            enable_state: 0,
            online_state: 0,
            remark: None,
        }
    }
}

/// The first of the stored clients whose authentication key is `key`;
/// `None` when no client has that key.
pub fn select_by_key<'a>(clients: &'a Vec<Client>, key: &str) -> (r: Option<&'a Client>)
    ensures
        r matches Some(c) ==> exists|i: int|
            0 <= i < clients@.len() && *c == clients@[i] && clients@[i].key@ == key@ && forall|k: int|
                0 <= k < i ==> #[trigger] clients@[k].key@ != key@,
        r is None ==> forall|k: int| 0 <= k < clients@.len() ==> #[trigger] clients@[k].key@ != key@,
{
    let mut i: usize = 0;
    while i < clients.len()
        invariant
            i <= clients@.len(),
            forall|k: int| 0 <= k < i ==> #[trigger] clients@[k].key@ != key@,
        decreases clients.len() - i,
    {
        if str_eq(clients[i].key.as_str(), key) {
            return Some(&clients[i]);
        }
        i = i + 1;
    }
    None
}

} // verus!
