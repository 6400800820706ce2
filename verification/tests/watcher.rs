use marv::channel::ContentChannel;
use marv::watcher::{republish, watch_directory, watch_file, ChangeKind, Notice, WatchAction};

#[test]
fn modification_reloads() {
    assert_eq!(watch_file(Notice::Event(ChangeKind::Modify)), WatchAction::Reload);
}

#[test]
fn other_events_are_passed_over() {
    for kind in [ChangeKind::Any, ChangeKind::Access, ChangeKind::Create, ChangeKind::Remove, ChangeKind::Other] {
        assert_eq!(watch_file(Notice::Event(kind)), WatchAction::Ignore);
    }
}

#[test]
fn errors_are_logged() {
    assert_eq!(watch_file(Notice::Failure), WatchAction::Warn);
}

#[test]
fn parent_directory_is_watched() {
    assert_eq!(watch_directory(Some("/home/user/notes")), "/home/user/notes");
    assert_eq!(watch_directory(Some("")), "");
    assert_eq!(watch_directory(None), ".");
}

#[test]
fn read_content_is_published() {
    let mut channel = ContentChannel::new("# A".to_string());
    assert!(republish(&mut channel, Some("# B".to_string())));
    assert_eq!(channel.current(), "# B");
}

#[test]
fn failed_read_is_skipped() {
    let mut channel = ContentChannel::new("# A".to_string());
    assert!(!republish(&mut channel, None));
    assert_eq!(channel.current(), "# A");
    assert!(republish(&mut channel, Some("# C".to_string())));
    assert_eq!(channel.current(), "# C");
}
