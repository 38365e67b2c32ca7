use rspack_cacheable::text::{str_equal, utf8_bytes};
use rspack_cacheable::{AsCustom, AsCustomConverter, AsString};
use rspack_cacheable::with::as_string::digit_runs_fit;
use std::path::PathBuf;

struct Millis(u64);

impl AsCustomConverter for Millis {
    type S = String;
    fn spec_to(&self) -> String {
        self.to()
    }
    fn spec_from(data: String) -> Self {
        <Millis as AsCustomConverter>::from(&data)
    }
    fn to(&self) -> String {
        self.0.to_string()
    }
    fn from(data: &String) -> Self {
        Millis(data.parse().unwrap())
    }
}

#[test]
fn as_custom_converts_both_ways() {
    let data = AsCustom::serialize_with(&Millis(1500));
    assert_eq!(data, "1500");
    let back: Millis = AsCustom::deserialize_with(&data);
    assert_eq!(back.0, 1500);
}

#[test]
fn as_string_path() {
    let path = PathBuf::from("/src/index.js");
    let text = AsString::serialize_with(&path);
    assert_eq!(text, "/src/index.js");
    let back: PathBuf = AsString::deserialize_with(&text);
    assert_eq!(back, path);
    assert_eq!(AsString::serialize_with(&back), "/src/index.js");
}

#[test]
fn as_string_json() {
    let value = json::parse(r#"{"a":[1,true,null]}"#).unwrap();
    let text = AsString::serialize_with(&value);
    assert_eq!(text, r#"{"a":[1,true,null]}"#);
    let back: json::JsonValue = AsString::deserialize_with(&text);
    assert_eq!(back, value);
}

#[test]
fn text_helpers() {
    assert!(str_equal("abc", "abc"));
    assert!(!str_equal("abc", "abd"));
    assert!(!str_equal("abc", "ab"));
    assert!(str_equal("", ""));
    assert_eq!(utf8_bytes("é"), vec![0xc3, 0xa9]);
}

#[test]
fn as_string_json_refusals() {
    let bad: Option<json::JsonValue> = AsString::try_deserialize_with("{not json");
    assert!(bad.is_none());
    let long = format!("0.{}", "0".repeat(32769));
    let refused: Option<json::JsonValue> = AsString::try_deserialize_with(&long);
    assert!(refused.is_none());
    let fits = format!("0.{}1", "0".repeat(100));
    let ok: Option<json::JsonValue> = AsString::try_deserialize_with(&fits);
    assert!(ok.is_some());
    let path: Option<PathBuf> = AsString::try_deserialize_with("/a/b");
    assert_eq!(path, Some(PathBuf::from("/a/b")));
}

#[test]
fn digit_run_limit() {
    assert!(digit_runs_fit(&format!("0.{}", "0".repeat(32768))));
    assert!(!digit_runs_fit(&format!("0.{}", "0".repeat(32769))));
    assert!(!digit_runs_fit(&format!("[1, 2.{}]", "5".repeat(40000))));
    assert!(digit_runs_fit(&"1".repeat(40000)));
    assert!(digit_runs_fit(&format!("1e{}", "1".repeat(40000))));
    assert!(digit_runs_fit(&format!("[\".{}\"]", "0".repeat(40000))));
    assert!(!digit_runs_fit(&format!("[\"\\\"\", 0.{}]", "0".repeat(40000))));
    assert!(digit_runs_fit(&format!("0.{}a{}", "1".repeat(32768), "2".repeat(32768))));
    assert!(digit_runs_fit(""));
}

#[test]
fn as_string_json_long_digits_outside_fractions() {
    let in_string = format!("[\".{}\"]", "0".repeat(40000));
    let value: Option<json::JsonValue> = AsString::try_deserialize_with(&in_string);
    assert_eq!(value.unwrap()[0].as_str().map(|s| s.len()), Some(40001));
    let integer = "1".repeat(30000);
    let value: Option<json::JsonValue> = AsString::try_deserialize_with(&integer);
    assert!(value.is_some());
    let exponent = format!("1e{}", "1".repeat(40000));
    let value: Option<json::JsonValue> = AsString::try_deserialize_with(&exponent);
    assert!(value.is_some());
    // Too long for the parser's exponent: refused by `json::parse` itself.
    assert!(digit_runs_fit(&"1".repeat(40000)));
    let value: Option<json::JsonValue> = AsString::try_deserialize_with(&"1".repeat(40000));
    assert!(value.is_none());
}
