use blog::views::{already_viewed, parse_viewed, record, serialize_viewed, view_decision, ViewDecision};

#[test]
fn cookie_lists_round_trip() {
    let ids = vec![1, 42, -7, i32::MAX, i32::MIN, 0];
    let text = serialize_viewed(&ids);
    assert_eq!(text, "1,42,-7,2147483647,-2147483648,0");
    assert_eq!(parse_viewed(&text), ids);
}

#[test]
fn empty_cookie_holds_nothing() {
    assert_eq!(parse_viewed(""), Vec::<i32>::new());
    assert_eq!(serialize_viewed(&vec![]), "");
    assert!(!already_viewed(&vec![], 5));
}

#[test]
fn malformed_entries_are_skipped() {
    assert_eq!(
        parse_viewed("a,5,,-3,2147483648,-2147483649,1-2,--4,7x,-,12"),
        vec![5, -3, 12]
    );
    assert_eq!(parse_viewed(",,"), Vec::<i32>::new());
}

#[test]
fn recorded_view_is_seen() {
    let ids = record(parse_viewed("3,4"), 5);
    assert_eq!(ids, vec![3, 4, 5]);
    assert!(already_viewed(&ids, 5));
    assert!(!already_viewed(&ids, 6));
    let again = parse_viewed(&serialize_viewed(&ids));
    assert!(already_viewed(&again, 5));
}

#[test]
fn second_view_is_not_counted() {
    let first = view_decision(None, 5);
    let cookie = match first {
        ViewDecision::Count { cookie } => cookie,
        ViewDecision::AlreadyCounted => panic!("first view must count"),
    };
    assert_eq!(cookie, "5");
    assert_eq!(view_decision(Some(&cookie), 5), ViewDecision::AlreadyCounted);
    assert_eq!(
        view_decision(Some(&cookie), 9),
        ViewDecision::Count { cookie: "5,9".to_string() }
    );
}
