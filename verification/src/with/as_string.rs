//! `AsString`: a field is archived as a string and rebuilt from it; paths and
//! JSON values are archived this way.

use vstd::prelude::*;

verus! {

/// A type that is archived as a string.
///
/// `spec_to_text` is the string a value is archived as, `spec_from_text` the
/// value a string is rebuilt as, and `spec_accepts` the strings that can be
/// rebuilt at all.
pub trait AsStringConverter: Sized {
    /// The string a value is archived as.
    spec fn spec_to_text(&self) -> Seq<char>;

    /// The value rebuilt from `text`, where `spec_accepts(text)`.
    spec fn spec_from_text(text: Seq<char>) -> Self;

    /// Whether `from_str` can rebuild a value from `text`.
    spec fn spec_accepts(text: Seq<char>) -> bool;

    /// The string the value is archived as.
    fn to_string(&self) -> (s: String)
        ensures
            s@ == self.spec_to_text(),
    ;

    /// Whether `from_str` can rebuild a value from `s`.
    fn accepts(s: &str) -> (ok: bool)
        ensures
            ok == Self::spec_accepts(s@),
    ;

    /// Rebuilds a value from a string it accepts.
    fn from_str(s: &str) -> (value: Self)
        requires
            Self::spec_accepts(s@),
        ensures
            value == Self::spec_from_text(s@),
    ;
}

/// Archives a field as the string its `AsStringConverter` gives.
pub struct AsString;

impl AsString {
    /// The string a field is archived as: what the field's `to_string` gives.
    pub fn serialize_with<T: AsStringConverter>(field: &T) -> (text: String)
        ensures
            text@ == field.spec_to_text(),
    {
        field.to_string()
    }

    /// The field rebuilt from the string it was archived as: what the type's
    /// `from_str` gives for it.
    pub fn deserialize_with<T: AsStringConverter>(field: &str) -> (value: T)
        requires
            T::spec_accepts(field@),
        ensures
            value == T::spec_from_text(field@),
    {
        T::from_str(field)
    }

    /// The field rebuilt from the string it was archived as, or `None` where
    /// the type does not accept the string.
    pub fn try_deserialize_with<T: AsStringConverter>(field: &str) -> (value: Option<T>)
        ensures
            value is Some <==> T::spec_accepts(field@),
            value matches Some(v) ==> v == T::spec_from_text(field@),
    {
        if T::accepts(field) {
            Some(T::from_str(field))
        } else {
            None
        }
    }
}

/// Whether a byte is an ASCII digit.
pub open spec fn is_ascii_digit(b: u8) -> bool {
    0x30 <= b <= 0x39
}

/// Where a scan of JSON text stands after its first `i` bytes: `0` outside
/// any string, `1` inside a string, `2` inside a string just after a
/// backslash.
pub open spec fn json_scan_state(bytes: Seq<u8>, i: int) -> u8
    decreases i,
{
    if i <= 0 {
        0
    } else {
        let c = bytes[i - 1];
        let s = json_scan_state(bytes, i - 1);
        if s == 0 {
            if c == 0x22 { 1 } else { 0 }
        } else if s == 1 {
            if c == 0x5c { 2 } else if c == 0x22 { 0 } else { 1 }
        } else {
            1
        }
    }
}

/// Whether the bytes from `i` on are more than 32768 ASCII digits that follow
/// a `.` standing outside any string: the fraction of a number, with too many
/// digits.
pub open spec fn long_fraction_at(bytes: Seq<u8>, i: int) -> bool {
    &&& 1 <= i
    &&& i + 32769 <= bytes.len()
    &&& bytes[i - 1] == 0x2e
    &&& json_scan_state(bytes, i - 1) == 0
    &&& forall|j: int| i <= j < i + 32769 ==> is_ascii_digit(#[trigger] bytes[j])
}

/// No number's fraction has more than 32768 digits: `json::parse` counts
/// those digits down in a 16-bit exponent and overflows it on a longer
/// fraction. Such digits inside a string are parsed as text, and are not
/// counted here.
pub open spec fn json_digit_runs_fit(bytes: Seq<u8>) -> bool {
    forall|i: int| !#[trigger] long_fraction_at(bytes, i)
}

/// Only a number's fraction is limited: a text with no `.` byte, or one
/// too short to hold a `.` and 32769 digits, always fits; a `.` outside any
/// string followed by 32769 digits never does.
pub proof fn lemma_digit_limit_only_in_fractions(bytes: Seq<u8>, i: int)
    ensures
        (forall|j: int| 0 <= j < bytes.len() ==> bytes[j] != 0x2e) ==> json_digit_runs_fit(bytes),
        bytes.len() < 32770 ==> json_digit_runs_fit(bytes),
        1 <= i && i + 32769 <= bytes.len() && bytes[i - 1] == 0x2e && json_scan_state(bytes, i - 1)
            == 0 && (forall|j: int| i <= j < i + 32769 ==> 0x30 <= #[trigger] bytes[j] <= 0x39)
            ==> !json_digit_runs_fit(bytes),
{
    if forall|j: int| 0 <= j < bytes.len() ==> bytes[j] != 0x2e {
        assert forall|k: int| !#[trigger] long_fraction_at(bytes, k) by {
            if long_fraction_at(bytes, k) {
                assert(bytes[k - 1] == 0x2e);
            }
        }
    }
    if 1 <= i && i + 32769 <= bytes.len() && bytes[i - 1] == 0x2e && json_scan_state(bytes, i - 1)
        == 0 && (forall|j: int| i <= j < i + 32769 ==> 0x30 <= #[trigger] bytes[j] <= 0x39) {
        assert(long_fraction_at(bytes, i));
    }
}

/// Whether every byte from `a` up to `b` is an ASCII digit.
pub open spec fn digits_between(bytes: Seq<u8>, a: int, b: int) -> bool {
    forall|j: int| a <= j < b ==> is_ascii_digit(#[trigger] bytes[j])
}

/// Decides `json_digit_runs_fit` on the UTF-8 bytes of `s`.
pub fn digit_runs_fit(s: &str) -> (ok: bool)
    ensures
        ok == json_digit_runs_fit(vstd::utf8::encode_utf8(s@)),
{
    let b = s.as_bytes();
    let n = b.len();
    let mut state: u8 = 0;
    let mut in_fraction = false;
    let mut run: usize = 0;
    let mut i: usize = 0;
    while i < n
        invariant
            b@ == vstd::utf8::encode_utf8(s@),
            n == b@.len(),
            0 <= run <= i <= n,
            run <= 32768,
            state == json_scan_state(b@, i as int),
            in_fraction ==> {
                &&& run + 1 <= i
                &&& b@[i - run - 1] == 0x2e
                &&& json_scan_state(b@, i - run - 1) == 0
                &&& digits_between(b@, i - run, i as int)
            },
            !in_fraction ==> forall|a: int|
                1 <= a <= i && b@[a - 1] == 0x2e && json_scan_state(b@, a - 1) == 0
                    ==> !#[trigger] digits_between(b@, a, i as int),
            forall|a: int| a + 32769 <= i ==> !#[trigger] long_fraction_at(b@, a),
        decreases n - i,
    {
        let c = b[i];
        let ghost old_i = i as int;
        let ghost old_run = run as int;
        let ghost was_fraction = in_fraction;
        let ghost old_state = state;
        let is_digit = c >= 0x30 && c <= 0x39;
        if state == 0 && c == 0x2e {
            in_fraction = true;
            run = 0;
        } else if in_fraction && is_digit {
            if run == 32768 {
                assert(long_fraction_at(b@, old_i - 32768)) by {
                    assert forall|j: int| old_i - 32768 <= j < old_i - 32768 + 32769 implies is_ascii_digit(
                        #[trigger] b@[j],
                    ) by {
                        if j < old_i {
                            assert(digits_between(b@, old_i - old_run, old_i));
                        }
                    }
                }
                return false;
            }
            run = run + 1;
        } else {
            in_fraction = false;
            run = 0;
        }
        state = if state == 0 {
            if c == 0x22 { 1 } else { 0 }
        } else if state == 1 {
            if c == 0x5c { 2 } else if c == 0x22 { 0 } else { 1 }
        } else {
            1
        };
        i = i + 1;
        proof {
            assert(state == json_scan_state(b@, i as int));
            if in_fraction {
                assert(digits_between(b@, i - run, i as int)) by {
                    if was_fraction && run > 0 {
                        assert(digits_between(b@, old_i - old_run, old_i));
                    }
                }
            } else {
                assert forall|a: int|
                    1 <= a <= i && b@[a - 1] == 0x2e && json_scan_state(b@, a - 1) == 0
                        implies !#[trigger] digits_between(b@, a, i as int) by {
                    if a <= old_i {
                        if !is_digit {
                            assert(!is_ascii_digit(b@[old_i]));
                        } else {
                            assert(!was_fraction);
                            assert(!digits_between(b@, a, old_i));
                        }
                    }
                }
            }
            assert forall|a: int| a + 32769 <= i implies !#[trigger] long_fraction_at(b@, a) by {
                if a + 32769 == i && long_fraction_at(b@, a) {
                    assert(a <= old_i);
                    if was_fraction {
                        let p = old_i - old_run;
                        if a < p {
                            assert(is_ascii_digit(b@[p - 1]));
                        } else if a > p {
                            assert(digits_between(b@, p, old_i));
                            assert(is_ascii_digit(b@[a - 1]));
                        }
                    } else {
                        assert(digits_between(b@, a, old_i));
                    }
                }
            }
        }
    }
    true
}

#[verifier::external_type_specification]
#[verifier::external_body]
pub struct ExPathBuf(std::path::PathBuf);

#[verifier::external_type_specification]
#[verifier::external_body]
pub struct ExJsonValue(json::JsonValue);

#[verifier::external_type_specification]
#[verifier::external_body]
pub struct ExJsonError(json::Error);

/// The text that `Path::to_string_lossy` gives for a path.
pub uninterp spec fn path_text(path: std::path::PathBuf) -> Seq<char>;

/// The path that `PathBuf::from` builds from a string.
pub uninterp spec fn path_from(text: Seq<char>) -> std::path::PathBuf;

/// The text that `json::stringify` writes for a value.
pub uninterp spec fn json_text(value: json::JsonValue) -> Seq<char>;

/// The value that `json::parse` reads from a text, or `None` where it
/// refuses the text.
pub uninterp spec fn json_parsed(text: Seq<char>) -> Option<json::JsonValue>;

/// Calls `Path::to_string_lossy` and takes the string out of the result.
///
/// Trusted: the string is the named text of the path, a function of the path
/// alone (bytes that are not Unicode become U+FFFD).
#[verifier::external_body]
fn path_to_string_lossy(path: &std::path::PathBuf) -> (s: String)
    ensures
        s@ == path_text(*path),
{
    path.to_string_lossy().into_owned()
}

/// Calls `PathBuf::from` on the string.
///
/// Trusted: the path is the named path of the string, and its lossy text is
/// the string itself, since a path built from a `str` is valid Unicode and
/// `PathBuf::from` keeps its characters as they are. Whether the path equals
/// one that the string was taken from is not stated: that holds only of paths
/// that are valid Unicode, which nothing here names.
#[verifier::external_body]
fn path_from_str(s: &str) -> (p: std::path::PathBuf)
    ensures
        p == path_from(s@),
        path_text(p) == s@,
{
    std::path::PathBuf::from(s)
}

/// Calls `json::stringify` on a copy of the value.
///
/// Trusted: the text is the named text of the value, a function of the value
/// alone. That the text parses back to the value is not stated: `json::parse`
/// refuses values nested deeper than 512 levels, and `json::stringify` writes
/// NaN and the infinities as `null`.
#[verifier::external_body]
fn json_stringify(value: &json::JsonValue) -> (s: String)
    ensures
        s@ == json_text(*value),
{
    json::stringify(value.clone())
}

/// Calls `json::parse` on the text.
///
/// Trusted: the result is the named reading of the text, a function of the
/// text alone. The parser panics (with overflow checks on) on a number whose
/// fraction has more than 32768 digits, so such numbers are left out.
#[verifier::external_body]
fn json_parse(text: &str) -> (value: Result<json::JsonValue, json::Error>)
    requires
        json_digit_runs_fit(vstd::utf8::encode_utf8(text@)),
    ensures
        value is Ok <==> json_parsed(text@) is Some,
        value matches Ok(v) ==> json_parsed(text@) == Some(v),
{
    json::parse(text)
}

/// Every string is accepted as a path, is rebuilt as the path that
/// `PathBuf::from` builds from it, and a path is archived as its lossy text.
pub proof fn lemma_path_converter(text: Seq<char>, path: std::path::PathBuf)
    ensures
        <std::path::PathBuf as AsStringConverter>::spec_accepts(text),
        <std::path::PathBuf as AsStringConverter>::spec_from_text(text) == path_from(text),
        path.spec_to_text() == path_text(path),
{
}

/// A JSON text is accepted exactly when `json::parse` reads it and no number
/// in it has a fraction of more than 32768 digits, and it is rebuilt as the
/// value `json::parse` reads; a value is archived as the text
/// `json::stringify` writes. So the text of a value is accepted whenever it
/// parses back within the digit limit.
pub proof fn lemma_json_converter(text: Seq<char>, value: json::JsonValue)
    ensures
        <json::JsonValue as AsStringConverter>::spec_accepts(text) <==> (json_digit_runs_fit(
            vstd::utf8::encode_utf8(text),
        ) && json_parsed(text) is Some),
        <json::JsonValue as AsStringConverter>::spec_accepts(text) ==> json_parsed(text) == Some(
            <json::JsonValue as AsStringConverter>::spec_from_text(text),
        ),
        value.spec_to_text() == json_text(value),
        json_digit_runs_fit(vstd::utf8::encode_utf8(json_text(value))) && json_parsed(
            json_text(value),
        ) is Some ==> <json::JsonValue as AsStringConverter>::spec_accepts(json_text(value)),
{
}

impl AsStringConverter for std::path::PathBuf {
    open spec fn spec_to_text(&self) -> Seq<char> {
        path_text(*self)
    }

    open spec fn spec_from_text(text: Seq<char>) -> Self {
        path_from(text)
    }

    open spec fn spec_accepts(text: Seq<char>) -> bool {
        true
    }

    fn to_string(&self) -> (s: String) {
        path_to_string_lossy(self)
    }

    fn accepts(s: &str) -> (ok: bool) {
        true
    }

    /// The path built from `s`, whose text is `s` again.
    fn from_str(s: &str) -> (value: Self)
        ensures
            path_text(value) == s@,
    {
        path_from_str(s)
    }
}

impl AsStringConverter for json::JsonValue {
    open spec fn spec_to_text(&self) -> Seq<char> {
        json_text(*self)
    }

    open spec fn spec_from_text(text: Seq<char>) -> Self {
        json_parsed(text).unwrap()
    }

    open spec fn spec_accepts(text: Seq<char>) -> bool {
        json_digit_runs_fit(vstd::utf8::encode_utf8(text)) && json_parsed(text) is Some
    }

    fn to_string(&self) -> (s: String) {
        json_stringify(self)
    }

    fn accepts(s: &str) -> (ok: bool) {
        if digit_runs_fit(s) {
            json_parse(s).is_ok()
        } else {
            false
        }
    }

    fn from_str(s: &str) -> (value: Self) {
        match json_parse(s) {
            Ok(v) => v,
            Err(_) => unreached(),
        }
    }
}

} // verus!
