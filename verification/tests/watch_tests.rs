use pageturtle::watch::{check_allowed_filetype, watch_decision, Broadcast, WatchAction, WatchEventKind};

#[test]
fn only_content_extensions_are_allowed() {
    assert!(check_allowed_filetype("md"));
    assert!(check_allowed_filetype("markdown"));
    assert!(!check_allowed_filetype("png"));
    assert!(!check_allowed_filetype("MD"));
    assert!(!check_allowed_filetype(""));
}

#[test]
fn non_content_changes_trigger_nothing() {
    assert_eq!(watch_decision(WatchEventKind::Modified, "site/logo.png"), WatchAction::Ignore);
    assert_eq!(watch_decision(WatchEventKind::Removed, "style.css"), WatchAction::Ignore);
    assert_eq!(watch_decision(WatchEventKind::Modified, "no_extension"), WatchAction::Ignore);
    assert_eq!(watch_decision(WatchEventKind::Modified, "posts/.md"), WatchAction::Ignore);
}

#[test]
fn content_modifications_trigger_one_rebuild() {
    assert_eq!(
        watch_decision(WatchEventKind::Modified, "posts/hello.md"),
        WatchAction::RebuildAndNotify
    );
    assert_eq!(
        watch_decision(WatchEventKind::Removed, "posts/old.markdown"),
        WatchAction::RebuildAndNotify
    );
}

#[test]
fn creations_are_ignored() {
    assert_eq!(watch_decision(WatchEventKind::Created, "posts/new.md"), WatchAction::Ignore);
    assert_eq!(watch_decision(WatchEventKind::Other, "posts/new.md"), WatchAction::Ignore);
}

#[test]
fn every_session_sees_every_signal() {
    let mut b = Broadcast::new();
    let s1 = b.add_session();
    let s2 = b.add_session();
    b.publish(&"posts/hello.md".to_string());
    let s3 = b.add_session();
    b.publish(&"posts/other.md".to_string());

    let q1 = b.drain_session(s1);
    let q2 = b.drain_session(s2);
    let q3 = b.drain_session(s3);
    assert_eq!(q1, vec!["posts/hello.md".to_string(), "posts/other.md".to_string()]);
    assert_eq!(q2, vec!["posts/hello.md".to_string(), "posts/other.md".to_string()]);
    assert_eq!(q3, vec!["posts/other.md".to_string()]);

    // Draining empties a queue without touching the others.
    b.publish(&"again.md".to_string());
    assert_eq!(b.drain_session(s1), vec!["again.md".to_string()]);
}
