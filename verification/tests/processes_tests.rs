use std::collections::HashSet;

use packet_source::processes::{linux_list, nix_list, ProcessRecord, WindowRecord};

fn record(pid: u32, exe: Option<&str>, euid: Option<u32>) -> ProcessRecord {
    ProcessRecord { pid, executable: exe.map(String::from), euid }
}

#[test]
fn linux_list_process_list() {
    let procs = vec![
        record(1, Some("/sbin/init"), Some(0)),
        record(100, Some("/usr/bin/sh"), Some(1000)),
        record(101, Some("/usr/bin/sh"), Some(1000)),
        record(102, None, Some(1000)),
    ];
    let lst = linux_list::active_executables(&procs);
    assert!(!lst.is_empty());
    assert_eq!(lst.len(), 2);
    assert_eq!(lst[0].executable, "/sbin/init");
    assert_eq!(lst[1].executable, "/usr/bin/sh");
    for p in &lst {
        assert_eq!(p.display_name, "");
        assert!(!p.is_visible);
        assert!(!p.is_system);
    }
}

#[test]
fn nix_list_process_list() {
    let procs = vec![
        record(1, Some("/sbin/launchd"), Some(0)),
        record(50, Some("/Applications/Tool.app/tool"), Some(501)),
        record(51, Some("/Applications/Tool.app/tool"), Some(501)),
        record(60, None, None),
    ];
    let mut visible = HashSet::new();
    visible.insert(51u32);
    let lst = nix_list::active_executables(&procs, &visible);
    assert!(!lst.is_empty());
    assert_eq!(lst.len(), 2);
    assert_eq!(lst[0].executable, "/sbin/launchd");
    assert_eq!(lst[0].display_name, "launchd");
    assert!(lst[0].is_system);
    assert!(!lst[0].is_visible);
    // The second process of the same executable owns a visible window,
    // so the merged entry is visible.
    assert_eq!(lst[1].executable, "/Applications/Tool.app/tool");
    assert_eq!(lst[1].display_name, "tool");
    assert!(!lst[1].is_system);
    assert!(lst[1].is_visible);
}

#[test]
fn nix_list_first_occurrence_sets_metadata() {
    let procs = vec![
        record(10, Some("/bin/a"), Some(501)),
        record(11, Some("/bin/a"), Some(0)),
    ];
    let visible = HashSet::new();
    let lst = nix_list::active_executables(&procs, &visible);
    assert_eq!(lst.len(), 1);
    // The superuser process came second: the entry keeps the first
    // process's flag.
    assert!(!lst[0].is_system);
}

#[test]
fn nix_list_display_name_fallbacks() {
    let procs = vec![
        record(1, Some("plain"), None),
        record(2, Some("/ends/in/.."), None),
        record(3, Some("/usr/bin/curl"), None),
        record(4, Some("/opt/tool/"), None),
        record(5, Some("///"), None),
        record(6, Some("/ends/in/."), None),
    ];
    let visible = HashSet::new();
    let lst = nix_list::active_executables(&procs, &visible);
    assert_eq!(lst[0].display_name, "plain");
    assert_eq!(lst[1].display_name, "/ends/in/..");
    assert_eq!(lst[2].display_name, "curl");
    // Trailing separators are ignored.
    assert_eq!(lst[3].display_name, "tool");
    // A path of separators alone has no final component.
    assert_eq!(lst[4].display_name, "///");
    // A final current-directory entry is no display name either.
    assert_eq!(lst[5].display_name, "/ends/in/.");
}

#[test]
fn visible_windows_list() {
    let windows = vec![
        WindowRecord { owner_pid: Some(301) },
        WindowRecord { owner_pid: None },
        WindowRecord { owner_pid: Some(302) },
        WindowRecord { owner_pid: Some(999) },
    ];
    let open_windows_pids = nix_list::visible_windows(&windows);
    assert!(!open_windows_pids.is_empty());
    assert!(open_windows_pids.contains(&301));
    assert!(open_windows_pids.contains(&302));
    // The enumeration's final record is not consulted.
    assert!(!open_windows_pids.contains(&999));
}

#[test]
fn visible_windows_empty_enumeration() {
    let open_windows_pids = nix_list::visible_windows(&Vec::new());
    assert!(open_windows_pids.is_empty());
}
