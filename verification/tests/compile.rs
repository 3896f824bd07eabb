//! End-to-end compilation: source text through the tokenizer, parser and
//! generator, checked against the exact expected instruction sequences.

use avosetta::generate::{Op, Stream};
use avosetta::html;
use avosetta::{Html, raw};

fn flush(s: &str) -> Op {
    Op::Flush(s.to_string())
}

#[test]
fn static_template_single_flush() {
    let t = html(r#"div[class="a"]{ "Hi" }"#).unwrap();
    assert_eq!(t.program, vec![flush(r#"<div class="a">Hi</div>"#)]);
    let mut out = String::new();
    assert!(t.render_static(&mut out));
    assert_eq!(out, r#"<div class="a">Hi</div>"#);
}

#[test]
fn render_static_refuses_dynamic_program() {
    let t = html("div { @x }").unwrap();
    let mut out = String::new();
    assert!(!t.render_static(&mut out));
    assert_eq!(out, "");
}

#[test]
fn deep_static_template_single_flush() {
    let t = html(r#"div { span { "a" } "b" }"#).unwrap();
    assert_eq!(t.program, vec![flush("<div><span>a</span>b</div>")]);
    let mut out = String::new();
    assert!(t.render_static(&mut out));
    assert_eq!(out, "<div><span>a</span>b</div>");
}

#[test]
fn empty_template_empty_program() {
    let t = html("").unwrap();
    assert_eq!(t.program, Vec::<Op>::new());
}

#[test]
fn void_element_no_closing_tag() {
    let t = html(r#"meta[charset="UTF-8"];"#).unwrap();
    assert_eq!(t.program, vec![flush(r#"<meta charset="UTF-8">"#)]);
}

#[test]
fn dynamic_child_two_flushes_around_one_write() {
    let t = html("div { @x }").unwrap();
    assert_eq!(
        t.program,
        vec![flush("<div>"), Op::Write("x".to_string()), flush("</div>")],
    );
    // Render with the runtime value x = 5.
    let mut out = String::new();
    raw("<div>").write(&mut out);
    5u64.write(&mut out);
    raw("</div>").write(&mut out);
    assert_eq!(out, "<div>5</div>");
}

#[test]
fn if_else_program_and_both_renderings() {
    let t = html(r#"@if x > 8 { h1{"Hi"} } else { h2{"Lo"} }"#).unwrap();
    assert_eq!(
        t.program,
        vec![
            Op::IfHeader("x > 8".to_string()),
            Op::Block(vec![flush("<h1>Hi</h1>")]),
            Op::ElseHeader,
            Op::Block(vec![flush("<h2>Lo</h2>")]),
        ],
    );
    // Render by taking the branch the condition selects; the unchosen
    // branch contributes nothing.
    for (x, expected) in [(9, "<h1>Hi</h1>"), (3, "<h2>Lo</h2>")] {
        let chosen = if x > 8 { &t.program[1] } else { &t.program[3] };
        let mut out = String::new();
        match chosen {
            Op::Block(ops) => match &ops[0] {
                Op::Flush(text) => raw(text.as_str()).write(&mut out),
                _ => panic!("expected a flush"),
            },
            _ => panic!("expected a block"),
        }
        assert_eq!(out, expected);
    }
}

#[test]
fn else_if_chain_program() {
    let t = html(r#"@if a { "x" } else if b { "y" } else { "z" }"#).unwrap();
    assert_eq!(
        t.program,
        vec![
            Op::IfHeader("a".to_string()),
            Op::Block(vec![flush("x")]),
            Op::ElseIfHeader("b".to_string()),
            Op::Block(vec![flush("y")]),
            Op::ElseHeader,
            Op::Block(vec![flush("z")]),
        ],
    );
}

#[test]
fn empty_normal_body_no_child_instructions() {
    let t = html("div {}").unwrap();
    assert_eq!(t.program, vec![flush("<div></div>")]);
}

#[test]
fn boolean_attribute_false_omitted() {
    let t = html("input[checked=false];").unwrap();
    assert_eq!(t.program, vec![flush("<input>")]);
}

#[test]
fn boolean_attribute_true_and_bare_agree() {
    let t1 = html("input[checked=true];").unwrap();
    let t2 = html("input[checked];").unwrap();
    assert_eq!(t1.program, vec![flush("<input checked>")]);
    assert_eq!(t2.program, t1.program);
}

#[test]
fn dynamic_attribute_write_pair() {
    let t = html("div[id=x] {}").unwrap();
    assert_eq!(
        t.program,
        vec![
            flush("<div "),
            Op::WriteAttr("id".to_string(), "x".to_string()),
            flush("></div>"),
        ],
    );
}

#[test]
fn for_loop_program_and_empty_iterable() {
    let t = html("@for i in xs { span { @i } }").unwrap();
    assert_eq!(
        t.program,
        vec![
            Op::ForHeader("i".to_string(), "xs".to_string()),
            Op::Block(vec![flush("<span>"), Op::Write("i".to_string()), flush("</span>")]),
        ],
    );
    // Render by running the body once per element of the iterable.
    let render = |xs: &[u64]| {
        let mut out = String::new();
        for &i in xs {
            match &t.program[1] {
                Op::Block(ops) => {
                    for op in ops {
                        match op {
                            Op::Flush(text) => raw(text.as_str()).write(&mut out),
                            Op::Write(_) => i.write(&mut out),
                            _ => panic!("unexpected instruction"),
                        }
                    }
                },
                _ => panic!("expected a block"),
            }
        }
        out
    };
    assert_eq!(render(&[]), "");
    assert_eq!(render(&[1, 2]), "<span>1</span><span>2</span>");
}

#[test]
fn for_with_empty_body_compiles_to_empty_block() {
    let t = html("@for i in xs { }").unwrap();
    assert_eq!(
        t.program,
        vec![Op::ForHeader("i".to_string(), "xs".to_string()), Op::Block(vec![])],
    );
}

#[test]
fn match_arms_program() {
    let t = html(r#"@match x { 8 => { h1{"Hi"} } _ => "Lo" }"#).unwrap();
    assert_eq!(
        t.program,
        vec![
            Op::MatchHeader("x".to_string()),
            Op::Block(vec![
                Op::ArmHeader("8".to_string()),
                Op::Block(vec![Op::Block(vec![flush("<h1>Hi</h1>")])]),
                Op::ArmHeader("_".to_string()),
                Op::Block(vec![flush("Lo")]),
            ]),
        ],
    );
}

#[test]
fn bare_literal_interpolation_is_static() {
    let t = html(r#"div { @"Hi" }"#).unwrap();
    assert_eq!(t.program, vec![flush("<div>Hi</div>")]);
}

#[test]
fn bare_identifier_is_literal_text() {
    let t = html("hello").unwrap();
    assert_eq!(t.program, vec![flush("hello")]);
}

#[test]
fn literal_text_escaped_at_compile_time() {
    let t = html(r#""a&b""#).unwrap();
    assert_eq!(t.program, vec![flush("a&amp;b")]);
}

#[test]
fn escape_lt_scenario() {
    let mut s = Stream::new();
    s.push_escaped("<");
    assert_eq!(s.into_ops(), vec![flush("&lt;")]);
}

#[test]
fn escape_amp_scenario() {
    let mut s = Stream::new();
    s.push_escaped("a&b");
    assert_eq!(s.into_ops(), vec![flush("a&amp;b")]);
}

#[test]
fn escape_clean_text_unchanged() {
    let mut s = Stream::new();
    s.push_escaped("abc def 123!");
    assert_eq!(s.into_ops(), vec![flush("abc def 123!")]);
}

#[test]
fn escape_all_five_characters() {
    let mut s = Stream::new();
    s.push_escaped(r#"&<>'""#);
    assert_eq!(s.into_ops(), vec![flush("&amp;&lt;&gt;&apos;&quot;")]);
}

#[test]
fn extended_string_escapes() {
    let t = html(r#""a\'b\0c""#).unwrap();
    assert_eq!(t.program, vec![flush("a&apos;b\u{0}c")]);
}

#[test]
fn string_literal_element_names() {
    let t = html(r#""x-custom-element" {}"#).unwrap();
    assert_eq!(t.program, vec![flush("<x-custom-element></x-custom-element>")]);
}

#[test]
fn multiple_attributes_in_order() {
    let t = html(r#"meta[name="viewport", content="w"];"#).unwrap();
    assert_eq!(t.program, vec![flush(r#"<meta name="viewport" content="w">"#)]);
}

#[test]
fn duplicate_attributes_pass_through() {
    let t = html(r#"div[a="1", a="2"] {}"#).unwrap();
    assert_eq!(t.program, vec![flush(r#"<div a="1" a="2"></div>"#)]);
}

#[test]
fn attribute_value_escaped() {
    let t = html(r#"div[title="a&b"] {}"#).unwrap();
    assert_eq!(t.program, vec![flush(r#"<div title="a&amp;b"></div>"#)]);
}

#[test]
fn opaque_attribute_expression_kept_verbatim() {
    let t = html("input[value=4 + 3];").unwrap();
    assert_eq!(
        t.program,
        vec![
            flush("<input "),
            Op::WriteAttr("value".to_string(), "4 + 3".to_string()),
            flush(">"),
        ],
    );
}

#[test]
fn bare_expression_with_operators() {
    let t = html("div { @x + 2 }").unwrap();
    assert_eq!(
        t.program,
        vec![flush("<div>"), Op::Write("x + 2".to_string()), flush("</div>")],
    );
}

#[test]
fn doctype_idiom() {
    let t = html(r#""!DOCTYPE"[html];"#).unwrap();
    assert_eq!(t.program, vec![flush("<!DOCTYPE html>")]);
}

#[test]
fn nested_layout_merges_across_structure() {
    let t = html(
        r#"
        "!DOCTYPE"[html];
        html[lang="en"] {
            head { meta[charset="UTF-8"]; }
            body { main { @body } }
        }
        "#,
    )
    .unwrap();
    assert_eq!(
        t.program,
        vec![
            flush(
                "<!DOCTYPE html><html lang=\"en\"><head><meta charset=\"UTF-8\"></head><body><main>",
            ),
            Op::Write("body".to_string()),
            flush("</main></body></html>"),
        ],
    );
}

#[test]
fn consecutive_literals_merge() {
    let t = html(r#""a" "b" br; "c""#).unwrap();
    assert_eq!(t.program, vec![flush("ab<br>c")]);
}
