use shally::history::{HistoryEntry, HistoryManager, recency_score};
use shally::shell_core::StringMap;

const NOW: u64 = 1_700_000_000;

fn manager(name: &str) -> HistoryManager {
    HistoryManager::new(Some(&format!("/tmp/{}", name)), None)
}

fn stamped(command: &str, timestamp: u64, exit_code: i32) -> HistoryEntry {
    let mut e = HistoryEntry::new(command);
    e.timestamp = timestamp;
    e.exit_code = exit_code;
    e
}

#[test]
fn test_history_entry_creation() {
    let entry = HistoryEntry::new("ls -la");
    assert_eq!(entry.command, "ls -la");
    assert_eq!(entry.exit_code, -1);
    assert!(entry.ai_suggestion.is_none());
}

#[test]
fn test_history_entry_with_ai() {
    let entry = HistoryEntry::new("ls -la").with_ai_suggestion("ls -lah");
    assert_eq!(entry.ai_suggestion, Some("ls -lah".to_string()));
}

#[test]
fn test_mark_completed() {
    let mut entry = HistoryEntry::new("ls -la");
    entry.mark_completed(0, 150);
    assert_eq!(entry.exit_code, 0);
    assert_eq!(entry.duration_ms, 150);
}

#[test]
fn test_add_and_get_recent() {
    let mut hm = manager("shellai_test_history.json");
    hm.add_entry(HistoryEntry::new("cmd1")).unwrap();
    hm.add_entry(HistoryEntry::new("cmd2")).unwrap();
    hm.add_entry(HistoryEntry::new("cmd3")).unwrap();
    let recent = hm.get_recent(2);
    assert_eq!(recent.len(), 2);
    assert_eq!(recent[0].command, "cmd2");
    assert_eq!(recent[1].command, "cmd3");
}

#[test]
fn test_search() {
    let mut hm = manager("shellai_test_history2.json");
    hm.add_entry(HistoryEntry::new("git status")).unwrap();
    hm.add_entry(HistoryEntry::new("ls -la")).unwrap();
    hm.add_entry(HistoryEntry::new("git log")).unwrap();
    let results = hm.search("git");
    assert_eq!(results.len(), 2);
    assert!(results.iter().all(|e| e.command.contains("git")));
}

#[test]
fn test_max_entries_enforced() {
    let mut hm = manager("shellai_test_history4.json").with_max_entries(3);
    for i in 0..5 {
        hm.add_entry(HistoryEntry::new(&format!("cmd{}", i))).unwrap();
    }
    assert_eq!(hm.len(), 3);
    let entries = hm.get_recent(3);
    assert_eq!(entries[0].command, "cmd2");
    assert_eq!(entries[2].command, "cmd4");
}

#[test]
fn test_clear() {
    let mut hm = manager("shellai_test_history5.json");
    hm.add_entry(HistoryEntry::new("cmd1")).unwrap();
    hm.clear_entries();
    assert!(hm.is_empty());
}

#[test]
fn test_relevant_for_ai() {
    let mut hm = manager("shellai_test_history6.json");
    hm.add_entry(HistoryEntry::new("git status")).unwrap();
    hm.add_entry(HistoryEntry::new("ls -la")).unwrap();
    hm.add_entry(HistoryEntry::new("cd /home")).unwrap();
    let mut ctx = StringMap::new();
    ctx.insert("PWD".to_string(), "/home".to_string());
    ctx.insert("GIT_BRANCH".to_string(), "main".to_string());
    let relevant = hm.get_relevant_for_ai(&ctx, 2);
    assert!(!relevant.is_empty());
    assert!(relevant.len() <= 2);
}

#[test]
fn test_recency_score() {
    let now = NOW;
    assert_eq!(recency_score(now, now), 20);
    assert_eq!(recency_score(now, now - 1800), 20);
    assert_eq!(recency_score(now, now - 40000), 10);
    assert_eq!(recency_score(now, now - 86400 * 3), 5);
    assert_eq!(recency_score(now, 0), 1);
}

#[test]
fn recency_bands_edges_and_future() {
    assert_eq!(recency_score(NOW, NOW - 3599), 20);
    assert_eq!(recency_score(NOW, NOW - 3600), 10);
    assert_eq!(recency_score(NOW, NOW - 86400), 5);
    assert_eq!(recency_score(NOW, NOW - 604800), 1);
    assert_eq!(recency_score(NOW, NOW + 50), 20);
}

#[test]
fn relevance_ranks_context_hits_first() {
    let mut hm = manager("rank.json");
    hm.add_entry(stamped("ls -la", NOW - 10, 0)).unwrap();
    hm.add_entry(stamped("cd /home", NOW - 100_000, 1)).unwrap();
    hm.add_entry(stamped("git status", NOW - 10, 0)).unwrap();
    hm.add_entry(stamped("echo PWD is /home", NOW - 1_000_000, 0)).unwrap();
    let mut ctx = StringMap::new();
    ctx.insert("PWD".to_string(), "/home".to_string());
    // echo PWD is /home: 10 + 15 + 5 + 1 = 31; cd /home: 15 + 0 + 5 = 20;
    // ls -la and git status: 5 + 20 = 25 each, kept in history order.
    let r = hm.relevant_at(&ctx, 10, NOW);
    let names: Vec<&str> = r.iter().map(|e| e.command.as_str()).collect();
    assert_eq!(names, vec!["echo PWD is /home", "ls -la", "git status", "cd /home"]);
    let top = hm.relevant_at(&ctx, 2, NOW);
    assert_eq!(top.len(), 2);
    assert_eq!(top[1].command, "ls -la");
}

#[test]
fn search_ignores_case() {
    let mut hm = manager("case.json");
    hm.add_entry(HistoryEntry::new("Docker PS")).unwrap();
    hm.add_entry(HistoryEntry::new("ls")).unwrap();
    let r = hm.search("docker ps");
    assert_eq!(r.len(), 1);
    assert_eq!(r[0].command, "Docker PS");
}

#[test]
fn zero_capacity_keeps_nothing() {
    let mut hm = manager("zero.json").with_max_entries(0);
    hm.add_entry(HistoryEntry::new("a")).unwrap();
    assert!(hm.is_empty());
    assert_eq!(hm.get_recent(5).len(), 0);
}

#[test]
fn default_history_location() {
    assert_eq!(HistoryManager::new(None, Some("/home/ann")).history_path(), "/home/ann/.shellai_history.json");
    assert_eq!(HistoryManager::new(None, Some("/root/")).history_path(), "/root/.shellai_history.json");
    assert_eq!(HistoryManager::new(None, None).history_path(), ".shellai_history.json");
    assert_eq!(HistoryManager::new(Some("/x/h.json"), Some("/home/ann")).history_path(), "/x/h.json");
    assert_eq!(HistoryManager::new(None, None).max_entries(), 1000);
}

#[test]
fn replace_entries_reports_count() {
    let mut hm = manager("load.json").with_max_entries(1);
    let n = hm.replace_entries(vec![HistoryEntry::new("a"), HistoryEntry::new("b")]);
    assert_eq!(n, 2);
    assert_eq!(hm.len(), 2);
    assert_eq!(hm.entries()[1].command, "b");
}

#[test]
fn most_recent_after_add_is_the_added_entry() {
    let mut hm = manager("recent_after_add.json").with_max_entries(2);
    for cmd in ["a", "b", "c", "d"] {
        hm.add_entry(HistoryEntry::new(cmd)).unwrap();
        let recent = hm.get_recent(1);
        assert_eq!(recent.len(), 1);
        assert_eq!(recent[0].command, cmd);
    }
    assert_eq!(hm.len(), 2);
}
