use comms::frames::{more_follows, topic_and_message, MultipartAssembly, ReceiveAction, ReceiveEvent};
use comms::monitor::{
    event_code, event_kind_to_monitor, monitor_event, proxy_monitor_event, MonitorEvent,
    PublisherCount, SocketEventKind,
};
use comms::subscriptions::{parse_control, ControlEffect, SubscriptionTable};

#[test]
fn reads_control_frames() {
    assert!(parse_control(&[]).is_none());
    let sub = parse_control(b"\x01news").unwrap();
    assert!(sub.subscribe);
    assert_eq!(sub.topic, "news");
    let unsub = parse_control(b"\x00news").unwrap();
    assert!(!unsub.subscribe);
    assert_eq!(unsub.topic, "news");
    let other = parse_control(b"\x02").unwrap();
    assert!(!other.subscribe);
    assert_eq!(other.topic, "");
    let invalid = parse_control(&[1, b'a', 0xFF]).unwrap();
    assert_eq!(invalid.topic, "a\u{FFFD}");
}

#[test]
fn counts_subscribers_per_topic() {
    let mut table = SubscriptionTable::new();
    let news = parse_control(b"\x01news").unwrap();
    let sport = parse_control(b"\x01sport").unwrap();
    let leave_news = parse_control(b"\x00news").unwrap();
    assert_eq!(table.apply(&news), ControlEffect::Subscribed { total: 1 });
    assert_eq!(table.apply(&news), ControlEffect::Subscribed { total: 2 });
    assert_eq!(table.apply(&sport), ControlEffect::Subscribed { total: 1 });
    assert_eq!(table.apply(&leave_news), ControlEffect::Unsubscribed { remaining: 1 });
    assert_eq!(table.count_of(&"news".to_string()), 1);
    assert_eq!(table.count_of(&"sport".to_string()), 1);
    assert_eq!(table.count_of(&"weather".to_string()), 0);
}

#[test]
fn subscribe_then_unsubscribe_restores_count() {
    let mut table = SubscriptionTable::new();
    let sub = parse_control(b"\x01t").unwrap();
    let unsub = parse_control(b"\x00t").unwrap();
    table.apply(&sub);
    let before = table.count_of(&"t".to_string());
    table.apply(&sub);
    table.apply(&unsub);
    assert_eq!(table.count_of(&"t".to_string()), before);
}

#[test]
fn unsubscribe_without_subscribers_records_topic_at_zero() {
    let mut table = SubscriptionTable::new();
    let unsub = parse_control(b"\x00ghost").unwrap();
    assert_eq!(table.apply(&unsub), ControlEffect::Unchanged);
    assert_eq!(table.count_of(&"ghost".to_string()), 0);
    assert_eq!(table.entries(), vec![("ghost".to_string(), 0)]);
    assert_eq!(table.apply(&unsub), ControlEffect::Unchanged);
    assert_eq!(table.entries().len(), 1);
}

#[test]
fn entries_list_each_topic_once() {
    let mut table = SubscriptionTable::new();
    table.apply(&parse_control(b"\x01b").unwrap());
    table.apply(&parse_control(b"\x01a").unwrap());
    table.apply(&parse_control(b"\x01b").unwrap());
    let mut entries = table.entries();
    entries.sort();
    assert_eq!(entries, vec![("a".to_string(), 1), ("b".to_string(), 2)]);
}

#[test]
fn event_codes_are_little_endian() {
    assert_eq!(event_code(&[0x20, 0x00]), 32);
    assert_eq!(event_code(&[0x00, 0x02, 9, 9, 9, 9]), 512);
    assert_eq!(event_code(&[0xFF, 0xFF]), 65535);
}

#[test]
fn classifies_monitor_events() {
    assert_eq!(monitor_event(&[32, 0]), MonitorEvent::Accepted);
    assert_eq!(monitor_event(&[0, 2]), MonitorEvent::Disconnected);
    assert_eq!(monitor_event(&[1, 0]), MonitorEvent::Other);
    assert_eq!(proxy_monitor_event(&[32, 0, 0, 0, 0, 0]), Some(MonitorEvent::Accepted));
    assert_eq!(proxy_monitor_event(&[32, 0, 0, 0, 0]), None);
    assert_eq!(proxy_monitor_event(&[]), None);
    assert_eq!(proxy_monitor_event(&[0, 2, 1, 2, 3, 4, 5]), Some(MonitorEvent::Disconnected));
}

#[test]
fn counts_publishers() {
    let mut count = PublisherCount::new();
    assert_eq!(count.on_event(MonitorEvent::Disconnected), Some(0));
    assert_eq!(count.on_event(MonitorEvent::Accepted), Some(1));
    assert_eq!(count.on_event(MonitorEvent::Accepted), Some(2));
    assert_eq!(count.on_event(MonitorEvent::Other), None);
    assert_eq!(count.on_event(MonitorEvent::Disconnected), Some(1));
    assert_eq!(count.get(), 1);
}

#[test]
fn accept_then_disconnect_restores_count() {
    let mut count = PublisherCount::new();
    count.on_event(MonitorEvent::Accepted);
    let before = count.get();
    count.on_event(MonitorEvent::Accepted);
    count.on_event(MonitorEvent::Disconnected);
    assert_eq!(count.get(), before);
}

#[test]
fn splits_two_part_messages() {
    let parts = vec![b"pub-id-1".to_vec(), b"hello".to_vec()];
    assert_eq!(
        topic_and_message(&parts),
        Some(("pub-id-1".to_string(), "hello".to_string()))
    );
    assert_eq!(topic_and_message(&vec![b"a".to_vec()]), None);
    assert_eq!(topic_and_message(&vec![b"a".to_vec(), b"b".to_vec(), b"c".to_vec()]), None);
    let binary = vec![b"t".to_vec(), vec![0xC3, 0x28]];
    assert_eq!(topic_and_message(&binary), Some(("t".to_string(), "\u{FFFD}(".to_string())));
}

#[test]
fn only_last_part_has_no_more_flag() {
    assert!(more_follows(0, 3));
    assert!(more_follows(1, 3));
    assert!(!more_follows(2, 3));
    assert!(!more_follows(0, 1));
}

#[test]
fn only_accept_and_disconnect_move_the_count() {
    assert_eq!(event_kind_to_monitor(SocketEventKind::Accepted), MonitorEvent::Accepted);
    assert_eq!(event_kind_to_monitor(SocketEventKind::Disconnected), MonitorEvent::Disconnected);
    assert_eq!(event_kind_to_monitor(SocketEventKind::Connected), MonitorEvent::Other);
    assert_eq!(event_kind_to_monitor(SocketEventKind::Closed), MonitorEvent::Other);
    assert_eq!(event_kind_to_monitor(SocketEventKind::All), MonitorEvent::Other);
}

#[test]
fn every_known_code_is_classified() {
    let codes: [u16; 16] =
        [1, 2, 4, 8, 16, 32, 64, 128, 256, 512, 1024, 2048, 4096, 8192, 16384, 65535];
    for code in codes.iter() {
        let expected = match *code {
            32 => MonitorEvent::Accepted,
            512 => MonitorEvent::Disconnected,
            _ => MonitorEvent::Other,
        };
        assert_eq!(monitor_event(&code.to_le_bytes()), expected);
    }
}

#[test]
fn assembles_multipart_messages() {
    let mut assembly = MultipartAssembly::new();
    assert_eq!(
        assembly.on_receive(ReceiveEvent::Part { part: b"topic".to_vec(), more: true }),
        ReceiveAction::ReceiveNext
    );
    assert_eq!(
        assembly.on_receive(ReceiveEvent::Part { part: b"body".to_vec(), more: false }),
        ReceiveAction::Forward
    );
    assert_eq!(assembly.into_parts(), vec![b"topic".to_vec(), b"body".to_vec()]);
}

#[test]
fn stops_assembling_when_nothing_waits_or_receive_fails() {
    let mut assembly: MultipartAssembly<Vec<u8>> = MultipartAssembly::new();
    assert_eq!(assembly.on_receive(ReceiveEvent::WouldBlock), ReceiveAction::Forward);
    assert_eq!(assembly.into_parts(), Vec::<Vec<u8>>::new());
    let mut assembly = MultipartAssembly::new();
    assembly.on_receive(ReceiveEvent::Part { part: 7u8, more: true });
    assert_eq!(assembly.on_receive(ReceiveEvent::Failed), ReceiveAction::ReportAndForward);
    assert_eq!(assembly.into_parts(), vec![7u8]);
}
