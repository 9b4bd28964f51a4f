use inagent::decimal::{parse_u64, u64_to_dec};
use inagent::error::Error;
use inagent::msg::{
    encode_control, is_known_verb, parse_control, sock_is_writeable, ControlMsg, Msg, SocketKind,
};

#[test]
fn decimal_renders_exactly() {
    assert_eq!(u64_to_dec(0), "0");
    assert_eq!(u64_to_dec(7), "7");
    assert_eq!(u64_to_dec(10), "10");
    assert_eq!(u64_to_dec(90210), "90210");
    assert_eq!(u64_to_dec(u64::MAX), "18446744073709551615");
}

#[test]
fn decimal_parses_exactly() {
    assert_eq!(parse_u64("0"), Some(0));
    assert_eq!(parse_u64("00042"), Some(42));
    assert_eq!(parse_u64("18446744073709551615"), Some(u64::MAX));
    assert_eq!(parse_u64("18446744073709551616"), None);
    assert_eq!(parse_u64(""), None);
    assert_eq!(parse_u64("12a"), None);
    assert_eq!(parse_u64("-3"), None);
    assert_eq!(parse_u64("４２"), None);
}

#[test]
fn decimal_round_trips() {
    for n in [0u64, 1, 9, 10, 99, 1000, 123456789, u64::MAX] {
        assert_eq!(parse_u64(&u64_to_dec(n)), Some(n));
    }
}

#[test]
fn control_round_trips() {
    let messages = vec![
        ControlMsg::Queue { path: "/tmp/x".to_string(), index: 17 },
        ControlMsg::Ready,
        ControlMsg::Done { path: "/tmp/x".to_string() },
        ControlMsg::Fail { path: "/tmp/x".to_string(), reason: "IO error".to_string() },
    ];
    for m in messages {
        let frames = encode_control(&m);
        assert!(is_known_verb(&frames[0]));
        let back = parse_control(&frames).unwrap();
        let again = encode_control(&back);
        assert_eq!(frames, again);
    }
}

#[test]
fn control_arity_too_few() {
    let frames = vec!["QUEUE".to_string(), "/tmp/x".to_string()];
    assert_eq!(parse_control(&frames).unwrap_err(), Error::TooFewFrames);
    assert_eq!(parse_control(&Vec::new()).unwrap_err(), Error::TooFewFrames);
}

#[test]
fn control_arity_too_many() {
    let frames = vec!["READY".to_string(), "extra".to_string()];
    assert_eq!(parse_control(&frames).unwrap_err(), Error::TooManyFrames);
    let frames = vec![
        "DONE".to_string(),
        "/tmp/x".to_string(),
        "extra".to_string(),
    ];
    assert_eq!(parse_control(&frames).unwrap_err(), Error::TooManyFrames);
}

#[test]
fn control_rejects_bad_index() {
    let frames = vec![
        "QUEUE".to_string(),
        "/tmp/x".to_string(),
        "not-a-number".to_string(),
    ];
    assert_eq!(parse_control(&frames).unwrap_err(), Error::InvalidNumber);
}

#[test]
fn control_fields_decode() {
    let frames = vec!["QUEUE".to_string(), "/tmp/x".to_string(), "0007".to_string()];
    match parse_control(&frames).unwrap() {
        ControlMsg::Queue { path, index } => {
            assert_eq!(path, "/tmp/x");
            assert_eq!(index, 7);
        }
        other => panic!("wrong verb: {:?}", frames_of(other)),
    }
    let frames = vec!["ERR".to_string(), "/tmp/x".to_string(), "boom".to_string()];
    match parse_control(&frames).unwrap() {
        ControlMsg::Fail { path, reason } => {
            assert_eq!(path, "/tmp/x");
            assert_eq!(reason, "boom");
        }
        other => panic!("wrong verb: {:?}", frames_of(other)),
    }
}

fn frames_of(m: ControlMsg) -> Vec<String> {
    encode_control(&m)
}

#[test]
fn unknown_verbs_are_flagged() {
    assert!(!is_known_verb(&"FROB".to_string()));
    assert!(is_known_verb(&"QUEUE".to_string()));
    assert!(is_known_verb(&"READY".to_string()));
    assert!(is_known_verb(&"DONE".to_string()));
    assert!(is_known_verb(&"ERR".to_string()));
}

#[test]
fn expect_arity_distinguishes_bounds() {
    assert!(Msg::expect_arity(2, 2, Some(2)).is_ok());
    assert!(Msg::expect_arity(3, 2, None).is_ok());
    assert_eq!(Msg::expect_arity(1, 2, None).unwrap_err(), Error::TooFewFrames);
    assert_eq!(Msg::expect_arity(3, 0, Some(1)).unwrap_err(), Error::TooManyFrames);
    assert!(Msg::expect_arity(0, 0, None).is_ok());
}

#[test]
fn socket_writeability() {
    for kind in [
        SocketKind::Pair,
        SocketKind::Pub,
        SocketKind::Req,
        SocketKind::Rep,
        SocketKind::Dealer,
        SocketKind::Router,
        SocketKind::Push,
        SocketKind::Xsub,
    ] {
        assert!(sock_is_writeable(kind));
    }
    for kind in [SocketKind::Sub, SocketKind::Pull, SocketKind::Xpub] {
        assert!(!sock_is_writeable(kind));
    }
}
