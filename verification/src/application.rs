//! The restart state of the server and the arguments of a restarted
//! process.
use crate::text::{chars_of, string_of};
use vstd::prelude::*;

verus! {

/// Command-line arguments.
pub struct Args {
    /// The process was started by a restart.
    pub is_restart_mode: bool,
}

/// Whether a restart is needed and whether one is under way.
pub struct RestartFlags {
    pub need_restart: bool,
    pub restarting: bool,
}

impl RestartFlags {
    /// Neither needed nor under way.
    pub fn new() -> (r: Self)
        ensures
            !r.need_restart && !r.restarting,
    {
        RestartFlags { need_restart: false, restarting: false }
    }
}

/// Marks that a restart is needed.
pub fn restart_mark(flags: &mut RestartFlags)
    ensures
        final(flags).need_restart,
        final(flags).restarting == old(flags).restarting,
{
    flags.need_restart = true;
}

/// Whether a restart is needed.
pub fn is_need_restart(flags: &RestartFlags) -> (r: bool)
    ensures
        r == flags.need_restart,
{
    flags.need_restart
}

/// Whether a restart is under way.
pub fn is_restarting(flags: &RestartFlags) -> (r: bool)
    ensures
        r == flags.restarting,
{
    flags.restarting
}

/// A restart begins: it is no longer pending, it is under way.
pub fn begin_restart(flags: &mut RestartFlags)
    ensures
        !final(flags).need_restart,
        final(flags).restarting,
{
    flags.need_restart = false;
    flags.restarting = true;
}

/// The arguments of the restarted process: the current ones, with
/// `--is-restart-mode` added unless the process already runs in that mode.
pub fn restart_args(args: &Vec<String>, is_restart_mode: bool) -> (r: Vec<String>)
    ensures
        r@.map_values(|s: String| s@) == if is_restart_mode {
            args@.map_values(|s: String| s@)
        } else {
            args@.map_values(|s: String| s@).push("--is-restart-mode"@)
        },
{
    let mut r: Vec<String> = Vec::new();
    let mut i: usize = 0;
    while i < args.len()
        invariant
            i <= args@.len(),
            r@.map_values(|s: String| s@) == args@.take(i as int).map_values(|s: String| s@),
        decreases args.len() - i,
    {
        let ghost before = r@.map_values(|s: String| s@);
        r.push(string_of(&chars_of(args[i].as_str())));
        assert(r@.map_values(|s: String| s@) =~= before.push(args@[i as int]@));
        assert(args@.take(i + 1).map_values(|s: String| s@) =~= args@.take(i as int).map_values(
            |s: String| s@,
        ).push(args@[i as int]@));
        i = i + 1;
    }
    assert(args@.take(args@.len() as int) =~= args@);
    if !is_restart_mode {
        let ghost before = r@.map_values(|s: String| s@);
        r.push(string_of(&chars_of("--is-restart-mode")));
        assert(r@.map_values(|s: String| s@) =~= before.push("--is-restart-mode"@));
    }
    r
}

} // verus!
