use codex_mcp_spawner::codec::{parse_json, parse_json_bytes, to_json_pretty, to_json_text};
use codex_mcp_spawner::json::Json;
use codex_mcp_spawner::text::{
    blank, contains, join, lines, normalize_newlines, parse_count, pieces,
    prefix_within, strip_prefix, suffix_within, to_decimal, to_hex, to_lower,
    to_signed_decimal, trim, trim_end, trim_start, words,
};

fn all<'a>(items: impl Iterator<Item = &'a str>) -> Vec<String> {
    items.map(|s| s.to_string()).collect()
}

const SAMPLES: [&str; 14] = [
    "",
    " ",
    "a",
    "  a b  ",
    "a\nb",
    "a\r\nb\r\n",
    "\n\n",
    "a\n\nb\n\n",
    "a\r",
    "\u{3000}x\u{a0}\u{85}",
    "é\u{2003}ö\u{1680}z",
    "\r\r\n\n",
    "one\ttwo\u{b}three",
    "\u{200b}zero width is no space\u{feff}",
];

#[test]
fn text_agrees_with_std() {
    for s in SAMPLES {
        assert_eq!(trim(s), s.trim(), "{s:?}");
        assert_eq!(trim_start(s), s.trim_start(), "{s:?}");
        assert_eq!(trim_end(s), s.trim_end(), "{s:?}");
        assert_eq!(blank(s), s.trim().is_empty(), "{s:?}");
        assert_eq!(lines(s), all(s.lines()), "{s:?}");
        assert_eq!(words(s), all(s.split_whitespace()), "{s:?}");
        assert_eq!(pieces(s, "\n\n"), all(s.split("\n\n")), "{s:?}");
        assert_eq!(normalize_newlines(s), s.replace("\r\n", "\n"), "{s:?}");
        assert_eq!(to_lower(s), s.to_ascii_lowercase(), "{s:?}");
        for p in ["", "a", "\n", "\r\n", "b"] {
            assert_eq!(contains(s, p), s.contains(p), "{s:?} {p:?}");
            assert_eq!(strip_prefix(s, p), s.strip_prefix(p), "{s:?} {p:?}");
        }
    }
    for c in '\0'..='\u{ffff}' {
        let s = c.to_string();
        assert_eq!(blank(&s), c.is_whitespace(), "{c:?}");
    }
    assert_eq!(join(&all(["a", "b", "c"].into_iter()), ", "), "a, b, c");
    assert_eq!(join(&Vec::new(), ", "), "");
}

#[test]
fn numbers_agree_with_std() {
    for n in [0u64, 7, 10, 255, 4096, 1234567890, u64::MAX] {
        assert_eq!(to_decimal(n), n.to_string());
        assert_eq!(to_hex(n), format!("{n:x}"));
    }
    for i in [0i64, -1, 42, i64::MIN, i64::MAX] {
        assert_eq!(to_signed_decimal(i), i.to_string());
    }
    for s in [
        "", "0", "007", "+7", "-0", "+", "1 ", "18446744073709551615", "18446744073709551616",
        "99999999999999999999", "٣",
    ] {
        assert_eq!(parse_count(s), s.parse::<usize>().ok(), "{s:?}");
    }
}

#[test]
fn byte_limits() {
    assert_eq!(prefix_within("aéö", 4), "aé");
    assert_eq!(prefix_within("aéö", 5), "aéö");
    assert_eq!(prefix_within("𝄞x", 3), "");
    assert_eq!(suffix_within("aéö", 3), "ö");
    assert_eq!(suffix_within("aéö", 4), "éö");
}

#[test]
fn documents_are_read_and_written() {
    let text = r#"{"a":[1,-2,3.5,1e400000,null,true,"x\ny"],"b":{"c":{}},"big":18446744073709551615}"#;
    assert!(parse_json(text).is_err());
    let text = r#"{"a":[1,-2,3.5,null,true,"x\ny"],"b":{"c":{}},"big":18446744073709551615}"#;
    let json = parse_json(text).unwrap();
    assert_eq!(to_json_text(&json), text);
    assert_eq!(parse_json_bytes(text.as_bytes()).unwrap(), json);
    assert!(parse_json_bytes(b"\xff").is_none());
    let value: serde_json::Value = serde_json::from_str(text).unwrap();
    assert_eq!(to_json_text(&json), value.to_string());
    assert_eq!(
        to_json_pretty(&json).unwrap(),
        serde_json::to_string_pretty(&value).unwrap()
    );
    assert_eq!(
        parse_json("{broken").unwrap_err(),
        serde_json::from_str::<serde_json::Value>("{broken").unwrap_err().to_string()
    );
    // Keys have no order, and the last of two counts.
    let json = parse_json(r#"{"b":1,"a":2,"b":3}"#).unwrap();
    assert_eq!(to_json_text(&json), r#"{"a":2,"b":3}"#);
    assert_eq!(json.get("big"), None);
}

#[test]
fn documents_are_built() {
    let json = Json::object()
        .with("n", Json::integer(-3))
        .with("c", Json::count(3))
        .with_text("s", "x")
        .with_text("s", "y")
        .with("e", Json::no_items())
        .with("one", Json::single(Json::Bool(true)));
    assert_eq!(
        to_json_text(&json),
        r#"{"c":3,"e":[],"n":-3,"one":[true],"s":"y"}"#
    );
    assert_eq!(json.get("n").unwrap().as_u64(), None);
    assert_eq!(json.get("c").unwrap().as_u64(), Some(3));
    assert_eq!(Json::Null.with_text("k", "v"), Json::Null);
    assert_eq!(json.clone(), json);
}

#[test]
fn documents_read_back_to_their_depth() {
    for text in ["null", "[0,-1,9223372036854775807,18446744073709551615]", "{\"\":[{}],\"é\":\"\\u0001\\\\\"}"] {
        let json = parse_json(text).unwrap();
        assert_eq!(to_json_text(&json), text);
        assert_eq!(parse_json(&to_json_text(&json)).unwrap(), json);
    }
    let mut json = Json::Array(vec![]);
    for _ in 1..127 {
        json = Json::Array(vec![json]);
    }
    assert_eq!(parse_json(&to_json_text(&json)).unwrap(), json);
    let deeper = Json::Array(vec![json]);
    assert!(parse_json(&to_json_text(&deeper)).is_err());
}

#[test]
fn integers_and_fractions_stay_what_they_are() {
    for (text, whole) in [("5", Some(5)), ("-5", Some(-5)), ("5.0", None), ("-0", None), ("1e3", None)] {
        let json = parse_json(text).unwrap();
        assert_eq!(json.as_i64(), whole, "{text}");
        assert_eq!(parse_json(&to_json_text(&json)).unwrap(), json, "{text}");
        assert_eq!(json.clone(), json);
    }
    assert_eq!(to_json_text(&parse_json("[5,1.5]").unwrap()), "[5,1.5]");
}
