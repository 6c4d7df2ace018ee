//! The entries of the process list.
use vstd::prelude::*;

verus! {

/// How a process is named: by its command line, or by its command name.
pub enum Cmd {
    Cmdline(Vec<String>),
    Comm(String),
}

/// A running process.
pub struct Process {
    pub pid: i32,
    pub ppid: i32,
    pub cmd: Option<Cmd>,
    pub state: String,
}

/// The entry of a process: named by its command line where that was read
/// and is not empty, else by its command name.
pub fn process_entry(
    pid: i32,
    ppid: i32,
    state: String,
    comm: String,
    cmdline: Option<Vec<String>>,
) -> (p: Process)
    ensures
        p.pid == pid,
        p.ppid == ppid,
        p.state == state,
        match cmdline {
            Some(args) => if args@.len() > 0 {
                p.cmd == Some(Cmd::Cmdline(args))
            } else {
                p.cmd == Some(Cmd::Comm(comm))
            },
            None => p.cmd == Some(Cmd::Comm(comm)),
        },
{
    let cmd = match cmdline {
        Some(args) => {
            if args.len() > 0 {
                Cmd::Cmdline(args)
            } else {
                Cmd::Comm(comm)
            }
        },
        None => Cmd::Comm(comm),
    };
    Process { pid, ppid, cmd: Some(cmd), state }
}

} // verus!
