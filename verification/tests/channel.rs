use marv::channel::ContentChannel;

#[test]
fn current_is_what_was_published_last() {
    let mut channel = ContentChannel::new("# A".to_string());
    assert_eq!(channel.current(), "# A");
    channel.publish("# B".to_string());
    assert_eq!(channel.current(), "# B");
    channel.publish(String::new());
    assert_eq!(channel.current(), "");
}

#[test]
fn two_publishes_deliver_only_the_second() {
    let mut channel = ContentChannel::new("start".to_string());
    let mut subscriber = channel.subscribe();
    channel.publish("C1".to_string());
    channel.publish("C2".to_string());
    assert_eq!(channel.next_change(&mut subscriber), Some("C2".to_string()));
    assert_eq!(channel.next_change(&mut subscriber), None);
}

#[test]
fn new_subscriber_has_seen_the_present_content() {
    let channel = ContentChannel::new("# A".to_string());
    let mut subscriber = channel.subscribe();
    assert_eq!(channel.next_change(&mut subscriber), None);
}

#[test]
fn republishing_what_was_seen_delivers_nothing() {
    let mut channel = ContentChannel::new("# A".to_string());
    let mut subscriber = channel.subscribe();
    channel.publish("# B".to_string());
    channel.publish("# A".to_string());
    assert_eq!(channel.next_change(&mut subscriber), None);
    channel.publish("# A".to_string());
    assert_eq!(channel.next_change(&mut subscriber), None);
}

#[test]
fn every_subscriber_gets_the_change() {
    let mut channel = ContentChannel::new("old".to_string());
    let mut subscribers: Vec<_> = (0..50).map(|_| channel.subscribe()).collect();
    channel.publish("new".to_string());
    for subscriber in subscribers.iter_mut() {
        assert_eq!(channel.next_change(subscriber), Some("new".to_string()));
        assert_eq!(channel.next_change(subscriber), None);
    }
}

#[test]
fn subscribers_are_independent() {
    let mut channel = ContentChannel::new("one".to_string());
    let mut early = channel.subscribe();
    channel.publish("two".to_string());
    let mut late = channel.subscribe();
    channel.publish("three".to_string());
    assert_eq!(channel.next_change(&mut late), Some("three".to_string()));
    channel.publish("two".to_string());
    assert_eq!(channel.next_change(&mut early), Some("two".to_string()));
    assert_eq!(channel.next_change(&mut late), Some("two".to_string()));
}
