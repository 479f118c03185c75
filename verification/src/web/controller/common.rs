//! Data shared by all pages: the restart state and drop-down entries.
use crate::application::{is_need_restart, is_restarting, RestartFlags};
use crate::dao::channel_dao::Channel;
use crate::dao::client_dao::Client;
use crate::text::{chars_of, dec_int, dec_int_exec, str_eq, string_of};
use vstd::prelude::*;

verus! {

/// The restart state shown on every page.
pub struct GlobalData {
    pub is_need_restart: bool,
    pub is_restarting: bool,
}

/// An entry of a drop-down list.
pub struct Dropdown {
    pub label: String,
    pub value: String,
}

/// The restart state shown on every page.
pub fn global(flags: &RestartFlags) -> (r: GlobalData)
    ensures
        r.is_need_restart == flags.need_restart,
        r.is_restarting == flags.restarting,
{
    GlobalData { is_need_restart: is_need_restart(flags), is_restarting: is_restarting(flags) }
}

/// The drop-down entries as text: each named row's name and decimal id.
pub open spec fn entries_text(e: Seq<Dropdown>) -> Seq<(Seq<char>, Seq<char>)> {
    e.map_values(|d: Dropdown| (d.label@, d.value@))
}

/// The clients' entries.
pub open spec fn client_entries(c: Seq<Client>) -> Seq<(Seq<char>, Seq<char>)> {
    c.map_values(|x: Client| (x.name@, dec_int(x.id as int)))
}

/// The tunnels' entries.
pub open spec fn channel_entries(c: Seq<Channel>) -> Seq<(Seq<char>, Seq<char>)> {
    c.map_values(|x: Channel| (x.name@, dec_int(x.id as int)))
}

/// The entries of the drop-down list named `tag`: the clients for
/// `client`, the tunnels for `channel`, none otherwise.
pub fn dropdown(tag: &str, clients: &Vec<Client>, channels: &Vec<Channel>) -> (r: Vec<Dropdown>)
    ensures
        entries_text(r@) == if tag@ == "client"@ {
            client_entries(clients@)
        } else if tag@ == "channel"@ {
            channel_entries(channels@)
        } else {
            Seq::<(Seq<char>, Seq<char>)>::empty()
        },
{
    let mut r: Vec<Dropdown> = Vec::new();
    if str_eq(tag, "client") {
        let mut i: usize = 0;
        while i < clients.len()
            invariant
                i <= clients@.len(),
                entries_text(r@) == client_entries(clients@.take(i as int)),
            decreases clients.len() - i,
        {
            let d = Dropdown {
                label: string_of(&chars_of(clients[i].name.as_str())),
                value: string_of(&dec_int_exec(clients[i].id)),
            };
            let ghost before = entries_text(r@);
            r.push(d);
            assert(entries_text(r@) =~= before.push((d.label@, d.value@)));
            assert(client_entries(clients@.take(i + 1)) =~= client_entries(clients@.take(i as int)).push(
                (clients@[i as int].name@, dec_int(clients@[i as int].id as int)),
            ));
            i = i + 1;
        }
        assert(clients@.take(clients@.len() as int) =~= clients@);
    } else if str_eq(tag, "channel") {
        let mut i: usize = 0;
        while i < channels.len()
            invariant
                i <= channels@.len(),
                entries_text(r@) == channel_entries(channels@.take(i as int)),
            decreases channels.len() - i,
        {
            let d = Dropdown {
                label: string_of(&chars_of(channels[i].name.as_str())),
                value: string_of(&dec_int_exec(channels[i].id)),
            };
            let ghost before = entries_text(r@);
            r.push(d);
            assert(entries_text(r@) =~= before.push((d.label@, d.value@)));
            assert(channel_entries(channels@.take(i + 1)) =~= channel_entries(
                channels@.take(i as int),
            ).push((channels@[i as int].name@, dec_int(channels@[i as int].id as int))));
            i = i + 1;
        }
        assert(channels@.take(channels@.len() as int) =~= channels@);
    } else {
        assert(entries_text(r@) =~= Seq::<(Seq<char>, Seq<char>)>::empty());
    }
    r
}

} // verus!
