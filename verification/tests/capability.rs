//! The rendering capability: each value type's exact textual form, the
//! raw bypass, and the attribute-pair special cases.

use avosetta::{Attr, Html, Raw, raw};

fn rendered<T: Html>(x: T) -> String {
    let mut s = String::new();
    x.write(&mut s);
    s
}

#[test]
fn unit_writes_nothing() {
    assert_eq!(rendered(()), "");
}

#[test]
fn bool_true_false() {
    assert_eq!(rendered(true), "true");
    assert_eq!(rendered(false), "false");
}

#[test]
fn char_escaped() {
    assert_eq!(rendered('&'), "&amp;");
    assert_eq!(rendered('<'), "&lt;");
    assert_eq!(rendered('>'), "&gt;");
    assert_eq!(rendered('\''), "&apos;");
    assert_eq!(rendered('"'), "&quot;");
    assert_eq!(rendered('x'), "x");
}

#[test]
fn str_escaped_once() {
    assert_eq!(rendered("a&b"), "a&amp;b");
    assert_eq!(rendered("<"), "&lt;");
    assert_eq!(rendered("plain text"), "plain text");
}

#[test]
fn raw_bypasses_escaping() {
    assert_eq!(rendered(raw("<b>&</b>")), "<b>&</b>");
    assert_eq!(rendered(Raw("<i>")), "<i>");
}

#[test]
fn option_renders_some_and_omits_none() {
    assert_eq!(rendered(Some("a&b")), "a&amp;b");
    assert_eq!(rendered(None::<&str>), "");
}

#[test]
fn unsigned_integers_decimal() {
    assert_eq!(rendered(0u64), "0");
    assert_eq!(rendered(5u64), "5");
    assert_eq!(rendered(1234567890u64), "1234567890");
    assert_eq!(rendered(u64::MAX), "18446744073709551615");
    assert_eq!(rendered(42u32), "42");
    assert_eq!(rendered(7usize), "7");
}

#[test]
fn small_integer_types_decimal() {
    assert_eq!(rendered(255u8), "255");
    assert_eq!(rendered(65535u16), "65535");
    assert_eq!(rendered(-128i8), "-128");
    assert_eq!(rendered(-32768i16), "-32768");
    assert_eq!(rendered(-9isize), "-9");
}

#[test]
fn attr_more_integer_values() {
    assert_eq!(rendered(Attr("w", 800u32)), "w=\"800\"");
    assert_eq!(rendered(Attr("h", 600usize)), "h=\"600\"");
    assert_eq!(rendered(Attr("z", -1i32)), "z=\"-1\"");
    assert_eq!(rendered(Attr("a", 5u8)), "a=\"5\"");
    assert_eq!(rendered(Attr("b", 300u16)), "b=\"300\"");
    assert_eq!(rendered(Attr("c", -2i8)), "c=\"-2\"");
    assert_eq!(rendered(Attr("d", -300i16)), "d=\"-300\"");
    assert_eq!(rendered(Attr("e", -9isize)), "e=\"-9\"");
    assert_eq!(rendered(Attr("f", u128::MAX)), "f=\"340282366920938463463374607431768211455\"");
    assert_eq!(rendered(Attr("g", -1i128)), "g=\"-1\"");
}

#[test]
fn signed_integers_decimal() {
    assert_eq!(rendered(-42i64), "-42");
    assert_eq!(rendered(0i64), "0");
    assert_eq!(rendered(i64::MIN), "-9223372036854775808");
    assert_eq!(rendered(i64::MAX), "9223372036854775807");
    assert_eq!(rendered(-1i32), "-1");
}

#[test]
fn widest_integer_types_decimal() {
    assert_eq!(rendered(u128::MAX), "340282366920938463463374607431768211455");
    assert_eq!(rendered(i128::MIN), "-170141183460469231731687303715884105728");
    assert_eq!(rendered(0u128), "0");
}

#[test]
fn attr_str_value_escaped() {
    assert_eq!(rendered(Attr("class", "a")), "class=\"a\"");
    assert_eq!(rendered(Attr("title", "a&b")), "title=\"a&amp;b\"");
}

#[test]
fn attr_raw_value_not_escaped() {
    assert_eq!(rendered(Attr("data", Raw("a&b"))), "data=\"a&b\"");
}

#[test]
fn attr_char_value() {
    assert_eq!(rendered(Attr("q", '"')), "q=\"&quot;\"");
}

#[test]
fn attr_integer_values() {
    assert_eq!(rendered(Attr("n", 7u64)), "n=\"7\"");
    assert_eq!(rendered(Attr("d", -3i64)), "d=\"-3\"");
}

#[test]
fn attr_bool_bare_or_omitted() {
    assert_eq!(rendered(Attr("checked", true)), "checked");
    assert_eq!(rendered(Attr("checked", false)), "");
}

#[test]
fn attr_option_matches_direct_value() {
    let direct = rendered(Attr("id", 5u64));
    let optional = rendered(Attr("id", Some(5u64)));
    assert_eq!(optional, direct);
    assert_eq!(rendered(Attr("id", None::<u64>)), "");
}

#[test]
fn attr_option_str_matches_direct_value() {
    assert_eq!(rendered(Attr("alt", Some("a<b"))), rendered(Attr("alt", "a<b")));
    assert_eq!(rendered(Attr("alt", None::<&str>)), "");
}

#[test]
fn double_write_appends() {
    let mut s = String::new();
    raw("<p>").write(&mut s);
    "x&y".write(&mut s);
    raw("</p>").write(&mut s);
    assert_eq!(s, "<p>x&amp;y</p>");
}
