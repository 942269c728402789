use aterm::cwd::{
    basename_of, cwd_of_pid, cwd_of_pid_impl, foreground_pid, invoked_name, invoked_name_from_procargs,
    invoked_name_impl, name_from_component, proc_name_text, process_name, process_name_impl,
};

#[test]
fn nonexistent_pid_returns_none() {
    // The lookup for pid 0 fails on every platform; a failed lookup is None.
    assert!(cwd_of_pid(None).is_none());
}

#[test]
fn foreground_pid_bad_fd_returns_none() {
    // tcgetpgrp(-1) fails with EBADF and returns -1.
    assert!(foreground_pid(-1).is_none());
}

#[test]
fn process_name_nonexistent_returns_none() {
    assert!(process_name(None).is_none());
}

#[test]
fn invoked_name_nonexistent_returns_none() {
    assert!(invoked_name(None).is_none());
}

#[test]
fn basename_of_strips_path_and_login_dash() {
    assert_eq!(basename_of(b"mytool").as_deref(), Some("mytool"));
    assert_eq!(
        basename_of(b"/Users/x/.local/share/mytool/versions/2.1.150").as_deref(),
        Some("2.1.150")
    );
    assert_eq!(basename_of(b"./ssh").as_deref(), Some("ssh"));
    assert_eq!(basename_of(b"-zsh").as_deref(), Some("zsh"));
    assert_eq!(basename_of(b""), None);
}

#[test]
fn basename_of_follows_path_file_name_rules() {
    assert_eq!(basename_of(b"/usr/bin/vim/").as_deref(), Some("vim"));
    assert_eq!(basename_of(b"/usr/bin/./").as_deref(), Some("bin"));
    assert_eq!(basename_of(b"/"), None);
    assert_eq!(basename_of(b"a/.."), None);
    assert_eq!(basename_of(b"."), None);
    assert_eq!(basename_of(b"-"), None);
    assert_eq!(basename_of(b"/bin/\xff").as_deref(), Some("\u{FFFD}"));
}

#[test]
fn foreground_pid_positive_is_the_pid() {
    assert_eq!(foreground_pid(0), None);
    assert_eq!(foreground_pid(4242), Some(4242));
}

#[test]
fn process_name_trims_comm() {
    assert_eq!(process_name(Some("htop\n".to_string())).as_deref(), Some("htop"));
    assert_eq!(process_name(Some(" \n".to_string())), None);
    assert_eq!(process_name_impl("  vim "), Some("vim".to_string()));
}

#[test]
fn invoked_name_reads_argv0_of_cmdline() {
    assert_eq!(invoked_name(Some(b"/opt/bin/mytool\0--resume\0".to_vec())).as_deref(), Some("mytool"));
    assert_eq!(invoked_name_impl(b"-bash\0"), Some("bash".to_string()));
    assert_eq!(invoked_name_impl(b"\0x\0"), None);
}

#[test]
fn procargs_record_yields_argv0_not_exec_path() {
    let mut blob = vec![2u8, 0, 0, 0];
    blob.extend_from_slice(b"/opt/versions/2.1.150\0\0\0\0mytool\0--x\0HOME=/h\0");
    assert_eq!(invoked_name_from_procargs(&blob).as_deref(), Some("mytool"));
    assert_eq!(invoked_name_from_procargs(&[1, 0, 0]), None);
}

#[test]
fn proc_name_buffer_stops_at_nul() {
    let mut buf = [0u8; 16];
    buf[..5].copy_from_slice(b"zsh\0x");
    assert_eq!(proc_name_text(&buf, 5).as_deref(), Some("zsh"));
    assert_eq!(proc_name_text(&buf, 0), None);
    assert_eq!(proc_name_text(&buf, -1), None);
    assert_eq!(proc_name_text(b"top", 99).as_deref(), Some("top"));
}

#[test]
fn cwd_path_buffer_up_to_nul() {
    assert_eq!(cwd_of_pid_impl(b"/home/u\0junk"), Some(b"/home/u".to_vec()));
    assert_eq!(cwd_of_pid_impl(b"\0"), None);
    assert_eq!(cwd_of_pid(Some(b"/tmp".to_vec())), Some(b"/tmp".to_vec()));
    assert_eq!(cwd_of_pid(Some(Vec::new())), None);
}

#[test]
fn name_from_component_strips_one_login_dash() {
    assert_eq!(name_from_component("-zsh").as_deref(), Some("zsh"));
    assert_eq!(name_from_component("--x").as_deref(), Some("-x"));
    assert_eq!(name_from_component("-"), None);
    assert_eq!(name_from_component("").as_deref(), None);
    // Invalid UTF-8 is replaced, never turned into a separator.
    let name = basename_of(b"/bin/a\xffb").unwrap();
    assert_eq!(name, "a\u{fffd}b");
    assert!(!name.contains('/'));
}
