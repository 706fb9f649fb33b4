use robstride::params::{
    full_observation_params, parse_hex_or_dec, parse_param_list, realtime_observation_params,
    ParamIdItem, ParamList, ParamListError,
};
use robstride::stream::{RobstrideParamStream, StreamMessage};

fn message() -> StreamMessage {
    StreamMessage { enabled: None, timeout_ms: None, interval_ms: None, params: None, profile: None }
}

fn text(s: &str) -> ParamIdItem {
    ParamIdItem::Text(s.to_string())
}

#[test]
fn robstride_param_stream_uses_realtime_profile_by_default() {
    let mut stream = RobstrideParamStream::default();
    stream
        .apply_message(
            &StreamMessage { enabled: Some(true), interval_ms: Some(1000), ..message() },
            20,
        )
        .expect("valid stream config");
    assert!(stream.enabled);
    assert_eq!(stream.tick_div, 50);
    assert_eq!(stream.params, realtime_observation_params());
}

#[test]
fn robstride_param_stream_accepts_custom_hex_params() {
    let mut stream = RobstrideParamStream::default();
    stream
        .apply_message(
            &StreamMessage {
                enabled: Some(true),
                params: Some(ParamList::Items(vec![
                    text("0x7019"),
                    text("0x701A"),
                    ParamIdItem::Number { unsigned: Some(12332) },
                    text("0x701A"),
                ])),
                ..message()
            },
            20,
        )
        .expect("valid stream config");
    assert_eq!(stream.params, vec![0x7019, 0x701A, 0x302C]);
}

#[test]
fn default_stream_settings() {
    let stream = RobstrideParamStream::default();
    assert!(!stream.enabled);
    assert_eq!(stream.tick_div, 50);
    assert_eq!(stream.tick_counter, 0);
    assert_eq!(stream.timeout_ms, 80);
    assert_eq!(stream.params, vec![0x7005, 0x7019, 0x701A, 0x701B, 0x701C, 0x3025, 0x302B, 0x302C]);
}

#[test]
fn timeout_and_interval_are_clamped() {
    let mut stream = RobstrideParamStream::default();
    stream.tick_counter = 7;
    stream
        .apply_message(&StreamMessage { timeout_ms: Some(5), interval_ms: Some(1), ..message() }, 20)
        .unwrap();
    assert_eq!(stream.timeout_ms, 20);
    assert_eq!(stream.tick_div, 1);
    assert_eq!(stream.tick_counter, 0);
    assert!(!stream.enabled);
    stream
        .apply_message(&StreamMessage { timeout_ms: Some(5000), interval_ms: Some(99_999), ..message() }, 20)
        .unwrap();
    assert_eq!(stream.timeout_ms, 1000);
    assert_eq!(stream.tick_div, 500);
}

#[test]
fn interval_rounds_up_to_whole_ticks() {
    let mut stream = RobstrideParamStream::default();
    stream.apply_message(&StreamMessage { interval_ms: Some(1001), ..message() }, 20).unwrap();
    assert_eq!(stream.tick_div, 51);
    stream.apply_message(&StreamMessage { interval_ms: Some(7), ..message() }, 0).unwrap();
    assert_eq!(stream.tick_div, 7);
}

#[test]
fn missing_interval_keeps_the_current_period() {
    let mut stream = RobstrideParamStream::default();
    stream.apply_message(&message(), 10).unwrap();
    assert_eq!(stream.tick_div, 50);
    assert_eq!(stream.timeout_ms, 80);
    stream.tick_div = u64::MAX;
    stream.apply_message(&message(), 10).unwrap();
    assert_eq!(stream.tick_div, 1000);
}

#[test]
fn full_profile_is_chosen_by_name() {
    for name in ["full", " ALL ", "Observed", "observation\n"] {
        let mut stream = RobstrideParamStream::default();
        stream
            .apply_message(&StreamMessage { profile: Some(name.to_string()), ..message() }, 20)
            .unwrap();
        assert_eq!(stream.params, full_observation_params());
        assert_eq!(stream.params.len(), 57);
    }
    let mut stream = RobstrideParamStream::default();
    stream
        .apply_message(&StreamMessage { profile: Some("fullest".to_string()), ..message() }, 20)
        .unwrap();
    assert_eq!(stream.params, realtime_observation_params());
}

#[test]
fn refused_params_keep_the_old_list_but_not_the_old_settings() {
    let mut stream = RobstrideParamStream::default();
    let before = stream.params.clone();
    let r = stream.apply_message(
        &StreamMessage {
            enabled: Some(true),
            timeout_ms: Some(300),
            params: Some(ParamList::Other),
            ..message()
        },
        20,
    );
    assert!(matches!(r, Err(ParamListError::NotListOrText)));
    assert_eq!(stream.params, before);
    assert!(stream.enabled);
    assert_eq!(stream.timeout_ms, 300);
}

#[test]
fn text_list_of_params_is_split_trimmed_and_deduplicated() {
    let ids = parse_param_list(&Some(ParamList::Text(" 0x7019, 0x701a,,12332 ,0X7019, ".to_string())))
        .unwrap()
        .unwrap();
    assert_eq!(ids, vec![0x7019, 0x701A, 0x302C]);
}

#[test]
fn param_list_refusals() {
    assert!(parse_param_list(&None).unwrap().is_none());
    assert!(matches!(
        parse_param_list(&Some(ParamList::Items(vec![]))),
        Err(ParamListError::Empty)
    ));
    assert!(matches!(
        parse_param_list(&Some(ParamList::Text(" , ,".to_string()))),
        Err(ParamListError::Empty)
    ));
    assert!(matches!(
        parse_param_list(&Some(ParamList::Items(vec![text("1"), ParamIdItem::Other]))),
        Err(ParamListError::InvalidId { index: 1 })
    ));
    assert!(matches!(
        parse_param_list(&Some(ParamList::Items(vec![ParamIdItem::Number { unsigned: None }]))),
        Err(ParamListError::InvalidId { index: 0 })
    ));
    match parse_param_list(&Some(ParamList::Items(vec![text("0x70zz"), ParamIdItem::Other]))) {
        Err(ParamListError::InvalidText { text }) => assert_eq!(text, "0x70zz"),
        other => panic!("unexpected {:?}", other),
    }
    match parse_param_list(&Some(ParamList::Text("1, 2 , bad ,3".to_string()))) {
        Err(ParamListError::InvalidText { text }) => assert_eq!(text, "bad"),
        other => panic!("unexpected {:?}", other),
    }
    assert!(matches!(parse_param_list(&Some(ParamList::Other)), Err(ParamListError::NotListOrText)));
}

#[test]
fn numbers_are_taken_modulo_two_to_the_sixteen() {
    let ids = parse_param_list(&Some(ParamList::Items(vec![
        ParamIdItem::Number { unsigned: Some(0x1_7019) },
        ParamIdItem::Number { unsigned: Some(0x7019) },
    ])))
    .unwrap()
    .unwrap();
    assert_eq!(ids, vec![0x7019]);
}

#[test]
fn hex_or_dec_parsing() {
    assert_eq!(parse_hex_or_dec("0x7019"), Some(0x7019));
    assert_eq!(parse_hex_or_dec("0X701a"), Some(0x701A));
    assert_eq!(parse_hex_or_dec("12332"), Some(12332));
    assert_eq!(parse_hex_or_dec("0"), Some(0));
    assert_eq!(parse_hex_or_dec("65535"), Some(65535));
    assert_eq!(parse_hex_or_dec("65536"), None);
    assert_eq!(parse_hex_or_dec("0xFFFF"), Some(0xFFFF));
    assert_eq!(parse_hex_or_dec("0x10000"), None);
    assert_eq!(parse_hex_or_dec("0x"), None);
    assert_eq!(parse_hex_or_dec(""), None);
    assert_eq!(parse_hex_or_dec("12a"), None);
    assert_eq!(parse_hex_or_dec(" 12"), None);
    assert_eq!(parse_hex_or_dec("-1"), None);
    assert_eq!(parse_hex_or_dec("00000000000000000000042"), Some(42));
}
