use shally::smart_history::{HistoryEntry, SmartHistory};

fn entry(command: &str, cwd: &str, timestamp: u64) -> HistoryEntry {
    let mut e = HistoryEntry::new(command, cwd, 0);
    e.timestamp = timestamp;
    e
}

#[test]
fn adding_counts_distinct_commands() {
    let mut h = SmartHistory::new();
    for cmd in ["ls", "git status", "ls", "cargo test", "git status", "ls"] {
        h.add(entry(cmd, "/p", 1));
    }
    assert_eq!(h.len(), 3);
    let freq = h.get_frequent_commands(10);
    assert_eq!(freq, vec![("ls".to_string(), 3), ("git status".to_string(), 2), ("cargo test".to_string(), 1)]);
}

#[test]
fn known_command_keeps_its_first_fields() {
    let mut h = SmartHistory::new();
    h.add(entry("make", "/first", 10));
    h.add(entry("make", "/second", 99));
    let recent = h.get_recent(5);
    assert_eq!(recent.len(), 1);
    assert_eq!(recent[0].cwd, "/first");
    assert_eq!(recent[0].timestamp, 10);
    assert_eq!(recent[0].frequency, 2);
}

#[test]
fn search_lists_each_match_once() {
    let mut h = SmartHistory::new();
    h.add(entry("git status", "/p", 1));
    h.add(entry("git log", "/p", 2));
    h.add(entry("ls", "/p", 3));
    h.add(entry("git status", "/p", 4));
    let r = h.search("git", None);
    let mut cmds: Vec<&str> = r.iter().map(|x| x.command.as_str()).collect();
    assert_eq!(cmds.len(), 2);
    cmds.sort();
    assert_eq!(cmds, vec!["git log", "git status"]);
}

#[test]
fn exact_match_scores_above_partial() {
    let mut h = SmartHistory::new();
    h.add(entry("git status --short", "/p", 1));
    h.add(entry("GIT STATUS", "/p", 2));
    let r = h.search("git status", None);
    assert_eq!(r[0].command, "GIT STATUS");
    assert!(r[0].score > r[1].score);
}

#[test]
fn recent_leaves_out_only_older_entries() {
    let mut h = SmartHistory::new();
    h.add(entry("a", "/", 30));
    h.add(entry("b", "/", 50));
    h.add(entry("c", "/", 10));
    h.add(entry("d", "/", 50));
    let r = h.get_recent(2);
    let cmds: Vec<&str> = r.iter().map(|x| x.command.as_str()).collect();
    assert_eq!(cmds, vec!["b", "d"]);
}
