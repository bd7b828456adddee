use std::collections::HashMap;
use shrimp::session::Session;
use shrimp::session::SnapshotManager;

#[test]
fn sessions_collect_messages() {
    let mut s = Session::with_id("20240101_000000".to_string());
    s.add_message("user", "hi");
    assert_eq!(s.messages.len(), 1);
    assert_eq!(s.file_path("/tmp/sessions"), "/tmp/sessions/20240101_000000.json");
}

#[test]
fn new_session_is_named_after_the_time() {
    let s = Session::new().unwrap();
    assert_eq!(s.id.len(), 15);
    assert_eq!(&s.id[8..9], "_");
    assert!(s.id.chars().filter(|c| *c != '_').all(|c| c.is_ascii_digit()));
}

#[test]
fn undo_restores_newest_first() {
    let mut m = SnapshotManager::new();
    m.record_file("a.rs", "/r", Some(b"old".to_vec()));
    m.record_file("/abs/b.rs", "/r", None);
    let order = m.undo_order();
    assert_eq!(order.len(), 2);
    assert_eq!(order[0].path, "/abs/b.rs");
    assert_eq!(order[1].path, "/r/a.rs");
    assert_eq!(order[1].prior_content.as_deref(), Some(&b"old"[..]));
    m.begin_turn();
    assert!(m.undo_order().is_empty());
}

#[test]
fn a_new_session_is_named_by_the_time() {
    let s = Session::new().unwrap();
    let id: Vec<char> = s.id.chars().collect();
    assert!(id.len() >= 15);
    let n = id.len();
    assert_eq!(id[n - 7], '_');
    for (i, c) in id.iter().enumerate() {
        if i != n - 7 {
            assert!(c.is_ascii_digit() || (i == 0 && *c == '+'));
        }
    }
    assert!(s.messages.is_empty());
}

#[test]
fn undo_puts_back_what_was_first_recorded() {
    let mut m = SnapshotManager::new();
    m.begin_turn();
    m.record_file("a.rs", "/r", Some(b"one".to_vec()));
    m.record_file("a.rs", "/r", Some(b"two".to_vec()));
    m.record_file("b.rs", "/r", None);
    let mut files: HashMap<String, Vec<u8>> = HashMap::new();
    files.insert("/r/a.rs".to_string(), b"three".to_vec());
    files.insert("/r/b.rs".to_string(), b"new".to_vec());
    files.insert("/r/c.rs".to_string(), b"other".to_vec());
    for _ in 0..2 {
        for snap in m.undo_order() {
            match &snap.prior_content {
                Some(c) => {
                    files.insert(snap.path.clone(), c.clone());
                }
                None => {
                    files.remove(&snap.path);
                }
            }
        }
        assert_eq!(files.get("/r/a.rs").map(|v| v.as_slice()), Some(&b"one"[..]));
        assert!(!files.contains_key("/r/b.rs"));
        assert_eq!(files.get("/r/c.rs").map(|v| v.as_slice()), Some(&b"other"[..]));
    }
}
