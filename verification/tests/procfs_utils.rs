use ziofa::procfs_utils::{process_entry, Cmd};

#[test]
fn command_line_names_the_process() {
    let p = process_entry(10, 1, "S".to_string(), "app".to_string(), Some(vec!["/bin/app".to_string(), "-v".to_string()]));
    assert_eq!((p.pid, p.ppid, p.state.as_str()), (10, 1, "S"));
    match p.cmd {
        Some(Cmd::Cmdline(args)) => assert_eq!(args, vec!["/bin/app", "-v"]),
        _ => panic!("expected the command line"),
    }
}

#[test]
fn empty_or_missing_command_line_falls_back_to_comm() {
    for cmdline in [Some(vec![]), None] {
        let p = process_entry(2, 0, "R".to_string(), "kthreadd".to_string(), cmdline);
        match p.cmd {
            Some(Cmd::Comm(c)) => assert_eq!(c, "kthreadd"),
            _ => panic!("expected the command name"),
        }
    }
}
