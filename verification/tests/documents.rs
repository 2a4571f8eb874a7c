use sglang_srt::debug_text::{show_list, show_option};
use sglang_srt::json::{Json, JsonNumber};
use sglang_srt::json_text::{display_json, indent_json, parse_json, render_json};
use sglang_srt::order::{order_of, NumberMap, TextMap, TextOrder};
use sglang_srt::ordered_map::{ExpertPlace, OrderedMap};
use sglang_srt::profile::{profile_bytes, profile_path, ProfileTimes};
use sglang_srt::text::{
    decimal_i64, decimal_u64, find_chars, chars_of, parse_i32, parse_unsigned, split_words,
    to_ascii_lowercase,
};
use sglang_srt::wire::{pack_list_of_buffers, pack_u64s, read_le, split_list};

#[test]
fn documents_are_parsed_and_rendered() {
    let json = parse_json(br#"{"b": [1, -2, 0.5, true, null], "a": "\u00e9", "b2": {}}"#).expect("document");
    let items = json.get("b").and_then(Json::as_array).expect("array");
    assert_eq!(items[0].as_u64(), Some(1));
    assert_eq!(items[1].as_i64(), Some(-2));
    assert_eq!(items[2].as_number(), Some(JsonNumber::Float(0.5f64.to_bits())));
    assert_eq!(items[3].as_bool(), Some(true));
    assert!(items[4].is_null());
    assert_eq!(json.get("a").and_then(Json::as_str), Some("\u{e9}"));
    let made = Json::object()
        .with("b", Json::natural(1))
        .with("a", Json::text("x\"y"));
    assert_eq!(render_json(&made).expect("text"), r#"{"a":"x\"y","b":1}"#);
    assert_eq!(display_json(&Json::array_of_one(Json::integer(-3))), "[-3]");
    assert_eq!(
        String::from_utf8(indent_json(&Json::object().with("k", Json::null())).expect("text")).expect("utf8"),
        "{\n  \"k\": null\n}"
    );
    assert!(parse_json(b"{").is_err());
}

#[test]
fn members_are_listed_in_the_order_of_their_keys() {
    let json = parse_json(br#"{"b": 1, "a": 2, "c": 3}"#).expect("document");
    let sorted = json.sorted_members().expect("object");
    assert_eq!(sorted.key_at(0), "a");
    assert_eq!(sorted.value_at(2).as_u64(), Some(3));
    assert!(Json::null().sorted_members().is_none());
}

#[test]
fn numerals_read_back() {
    for n in [0u64, 9, 10, u64::MAX] {
        assert_eq!(parse_unsigned(&decimal_u64(n), u64::MAX), Some(n));
    }
    assert_eq!(decimal_i64(i64::MIN), i64::MIN.to_string());
    assert_eq!(parse_i32("-2147483648"), Some(i32::MIN));
    assert_eq!(parse_i32("2147483648"), None);
    assert_eq!(parse_i32("+7"), Some(7));
    assert_eq!(parse_unsigned("12x", 100), None);
    assert_eq!(parse_unsigned("101", 100), None);
}

#[test]
fn texts_are_searched_and_split() {
    assert_eq!(find_chars(&chars_of("abcabc"), "ca"), Some(2));
    assert_eq!(find_chars(&chars_of("abc"), "x"), None);
    assert_eq!(split_words(&chars_of(" a  bc\n")), vec!["a".to_string(), "bc".to_string()]);
    assert_eq!(to_ascii_lowercase("ABc\u{c9}"), "abc\u{c9}");
}

#[test]
fn maps_keep_their_keys_in_order() {
    assert_eq!(order_of("a", "ab"), TextOrder::Before);
    assert_eq!(order_of("b", "ab"), TextOrder::After);
    let mut map: TextMap<u32> = TextMap::new();
    map.insert("b".to_string(), 1);
    map.insert("a".to_string(), 2);
    map.insert("b".to_string(), 3);
    assert_eq!(map.len(), 2);
    assert_eq!(map.key_at(0), "a");
    assert_eq!(map.get("b"), Some(&3));
    assert_eq!(map.take("a"), Some(2));
    assert!(!map.contains_key("a"));
    let mut numbers: NumberMap<&str> = NumberMap::new();
    numbers.insert(7, "x");
    assert_eq!(numbers.take(7), Some("x"));
    assert_eq!(numbers.get(7), None);
    let mut places: OrderedMap<ExpertPlace, u8> = OrderedMap::new();
    for (layer_id, expert_id) in [(1, 0), (0, 9), (0, 2)] {
        places.insert(ExpertPlace { layer_id, expert_id }, expert_id as u8);
    }
    assert_eq!(places.key_at(0).expert_id, 2);
    assert_eq!(places.key_at(2).layer_id, 1);
    assert_eq!(places.take(&ExpertPlace { layer_id: 0, expert_id: 9 }), Some(9));
    assert_eq!(places.len(), 2);
}

#[test]
fn packed_lists_read_back() {
    assert_eq!(pack_u64s(&vec![1, 256]), [1, 0, 0, 0, 0, 0, 0, 0, 0, 1, 0, 0, 0, 0, 0, 0]);
    assert_eq!(read_le(&[0x34, 0x12], 0, 2), 0x1234);
    let buffers = vec![vec![1, 2], vec![], vec![3]];
    assert_eq!(split_list(&pack_list_of_buffers(&buffers)).expect("list"), buffers);
    assert!(split_list(&[1]).is_err());
}

#[test]
fn texts_are_shown_with_escapes() {
    assert_eq!(show_option(&Some("a\"\n".to_string())), format!("{:?}", Some("a\"\n")));
    assert_eq!(show_option(&None), "None");
    assert_eq!(
        show_list(&vec!["x".to_string(), "\\".to_string()]),
        format!("{:?}", vec!["x", "\\"])
    );
    assert_eq!(show_list(&vec![]), "[]");
}

#[test]
fn profiles_are_written_with_their_times() {
    let times = ProfileTimes {
        started_unix_ms: 10,
        stopped_unix_ms: 25,
        duration_ms: 15,
    };
    assert_eq!(profile_path("/tmp/p", times), "/tmp/p/sglang-profile-10-25.json");
    let attributes = vec![("transport".to_string(), "http".to_string())];
    let bytes = profile_bytes("/tmp/p", times, &attributes).expect("bytes");
    let document = parse_json(&bytes).expect("document");
    let profile = document.get("profile").expect("profile");
    assert_eq!(profile.get("transport").and_then(Json::as_str), Some("http"));
    assert_eq!(profile.get("duration_ms").and_then(Json::as_u64), Some(15));
    let plain = parse_json(&profile_bytes("/tmp/p", times, &vec![]).expect("bytes")).expect("document");
    assert_eq!(
        plain.get("profile").and_then(|p| p.get("transport")).and_then(Json::as_str),
        Some("tonic-grpc")
    );
}

#[test]
fn the_last_of_repeated_members_is_rendered() {
    let member = |key: &str, value: &str| (key.to_string(), Json::Text(value.to_string()));
    let twice = Json::Object(vec![member("a", "x"), member("b", "y"), member("a", "z")]);
    assert_eq!(render_json(&twice).as_deref(), Ok(r#"{"a":"z","b":"y"}"#));
    assert_eq!(display_json(&twice), r#"{"a":"z","b":"y"}"#);
}
