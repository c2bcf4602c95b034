use comms::text::{append_signed_decimal, parse_u32, publisher_topic, topic_greeting};

#[test]
fn parses_like_std() {
    let cases = [
        "0", "42", "007", "+7", "+", "", "-1", "-0", "4294967295", "4294967296", "99999999999",
        "12a", " 1", "1 ", "++1", "+-1", "٣",
    ];
    for case in cases.iter() {
        assert_eq!(parse_u32(case), case.parse::<u32>().ok(), "input {:?}", case);
    }
}

#[test]
fn parses_exact_values() {
    assert_eq!(parse_u32("42"), Some(42));
    assert_eq!(parse_u32("4294967295"), Some(u32::MAX));
    assert_eq!(parse_u32("4294967296"), None);
}

#[test]
fn writes_decimal_like_std() {
    let cases = [0, 7, 10, 1234, -1, -5, -10, i32::MAX, i32::MIN];
    for n in cases.iter() {
        let mut s = String::from("#");
        append_signed_decimal(&mut s, *n);
        assert_eq!(s, format!("#{}", n));
    }
}

#[test]
fn greeting_lines() {
    assert_eq!(topic_greeting("topic1", 0), "topic1 Hello from topic1 #0");
    assert_eq!(topic_greeting("topic2", 17), "topic2 Hello from topic2 #17");
    assert!(topic_greeting("topic1", 5).starts_with("topic1"));
}

#[test]
fn publisher_topics() {
    assert_eq!(publisher_topic("1"), "pub-id-1");
    assert_eq!(publisher_topic("0"), "pub-id-0");
    assert_eq!(publisher_topic(""), "pub-id-");
}
