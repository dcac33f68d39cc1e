use tcast::dict::Dict;
use tcast::owned::{file_name, is_owned, marker, own_code, own_ids, without_own};
use tcast::protocol::StreamInfo;
use tcast::relay::codes::{make_code, make_id};
use tcast::text::{is_control, is_white, push_decimal, push_right_aligned, trim};

#[test]
fn escape_is_a_control_character() {
    assert!(is_control('\u{1b}'));
}

#[test]
fn predicates_agree_with_std() {
    for u in 0..0x3100u32 {
        if let Some(c) = char::from_u32(u) {
            assert_eq!(is_control(c), c.is_control(), "{u:x}");
            assert_eq!(is_white(c), c.is_whitespace(), "{u:x}");
        }
    }
}

#[test]
fn numbers_and_columns() {
    let mut s = String::new();
    push_decimal(&mut s, 0);
    push_decimal(&mut s, u64::MAX);
    assert_eq!(s, "018446744073709551615");
    let mut t = String::new();
    push_right_aligned(&mut t, "é1", 4);
    assert_eq!(t, "  é1");
    assert_eq!(trim(&[' ', 'a', ' ', 'b', '\n']), "a b");
}

#[test]
fn entries_are_replaced_and_removed() {
    let mut d: Dict<u64> = Dict::new();
    d.insert("a".to_string(), 1);
    d.insert("b".to_string(), 2);
    d.insert("a".to_string(), 3);
    assert_eq!(d.len(), 2);
    assert_eq!(d.get("a"), Some(&3));
    d.remove("a");
    d.remove("zzz");
    assert!(!d.contains("a") && d.contains("b"));
    assert_eq!(d.entry(0), (&"b".to_string(), &2));
}

#[test]
fn marker_names_are_plain() {
    assert_eq!(file_name("aB3_-x"), "aB3_-x");
    assert_eq!(file_name("../e vil/é"), "evil");
}

#[test]
fn markers_are_read() {
    assert_eq!(marker("id", " me-AB \n"), ("id".to_string(), "me-AB".to_string()));
    let m = vec![marker("id", "me-AB\n"), marker("x", "")];
    assert!(is_owned(&m, "id") && is_owned(&m, "me-AB"));
    assert!(!is_owned(&m, "ME-AB"));
    assert_eq!(own_ids(&m), vec!["id".to_string(), "x".to_string()]);
    assert_eq!(own_code(&m), Some("me-AB".to_string()));
    assert_eq!(own_code(&[]), None);
}

#[test]
fn own_streams_are_left_out() {
    let info = |id: &str| StreamInfo {
        stream_id: id.to_string(),
        name: String::new(),
        shell: String::new(),
        cols: 1,
        rows: 1,
        viewers: 0,
        started_unix: 0,
        public: true,
    };
    let list = vec![info("a"), info("b"), info("a"), info("c")];
    let left = without_own(&list, &vec!["a".to_string()]);
    let ids: Vec<&str> = left.iter().map(|s| s.stream_id.as_str()).collect();
    assert_eq!(ids, vec!["b", "c"]);
}

#[test]
fn drawn_ids_and_codes_survive_as_markers() {
    for _ in 0..20 {
        let id = make_id();
        let code = make_code("Ann");
        let m = marker(&file_name(&id), &code);
        assert_eq!(m, (id, code));
    }
}
