//! The recursive-descent parser: a token stream to the abstract syntax
//! tree of one template.
//!
//! The grammar's one real ambiguity is a leading name: it starts an element
//! exactly when the tokens after it (past an optional bracketed attribute
//! list) are a brace or a semicolon; otherwise the name itself is a
//! standalone literal-text node.  Host expressions are consumed as opaque
//! balanced token runs up to a terminator fixed by their context and
//! reassembled as text joined by single spaces.  The first grammar mismatch
//! aborts the whole parse with a [`SyntaxError`] carrying the token
//! position and what was acceptable there.
//!
//! The `spec_parse_*` functions are the grammar's definition over token
//! models; each executable `parse` returns exactly its spec's result, and
//! an error precisely when the spec has none.

use vstd::prelude::*;
use vstd::string::StringExecFns;
use vstd::string::StrSliceExecFns;

use crate::ast::{
    Attr, AttrM, AttrValue, AttrValueM, Attrs, AttrsM, Element, ElementM, Expr, ExprM, Group,
    GroupM, Interp, InterpArm, InterpArmExpr, InterpArmExprM, InterpArmGroup, InterpArmGroupM,
    InterpArmM, InterpElse, InterpElseIf, InterpElseIfM, InterpElseM, InterpFor, InterpForM,
    InterpIf, InterpIfM, InterpM, InterpMatch, InterpMatchM, InterpValue, InterpValueM, Name,
    NameM, Node, NodeM, Normal, NormalM, Void, VoidM, arm_expr_view, arm_group_view, arm_seq_view,
    arm_view, arms_wf, attr_seq_view, attr_view, attrs_view, else_if_seq_view, else_if_view,
    else_view, element_view, expr_view, for_view, group_view, if_view, interp_value_view,
    interp_view, match_view, name_view, node_seq_view, node_view, nodes_wf, normal_view,
    void_view,
};
use crate::escape::string_push;
use crate::lex::{SyntaxError, Tok, TokM, err_at, lemma_toks_view_index, lemma_toks_view_len,
    toks_view};

verus! {

/// Where an opaque host-expression run ends, at bracket depth zero.
#[derive(Clone, Copy)]
pub enum ExprStop {
    /// At a `{`: conditions, scrutinees and iterables, which the grammar
    /// follows with a braced body.
    Brace,
    /// At a `,` or `]`: attribute values.
    AttrVal,
    /// At a `=>`: match-arm patterns.
    Arrow,
    /// At the `in` keyword: for-loop binding patterns.
    In,
    /// At anything that starts a new node: bare interpolated expressions.
    Bare,
}

/// One token, together with what it views to in the token model.
fn tok_at<'a>(toks: &'a Vec<Tok>, i: usize) -> (t: &'a Tok)
    requires
        i < toks@.len(),
    ensures
        *t == toks@[i as int],
        t@ == toks_view(toks@)[i as int],
        toks_view(toks@).len() == toks@.len(),
{
    proof {
        lemma_toks_view_index(toks@, i as int);
    }
    &toks[i]
}

fn is_rbrace(t: &Tok) -> (r: bool)
    ensures
        r == (*t matches Tok::RBrace),
{
    match t {
        Tok::RBrace => true,
        _ => false,
    }
}

fn is_lbrace(t: &Tok) -> (r: bool)
    ensures
        r == (*t matches Tok::LBrace),
{
    match t {
        Tok::LBrace => true,
        _ => false,
    }
}

/// A token that begins or ends an expression atom: a name, a literal or a
/// closing delimiter.  Two of these in a row never belong to one
/// expression, which bounds a bare interpolation.
pub open spec fn is_atomish_spec(t: TokM) -> bool {
    match t {
        TokM::Ident(_) => true,
        TokM::LitStr(_) => true,
        TokM::LitInt(_) => true,
        TokM::True => true,
        TokM::False => true,
        TokM::RBrace => true,
        TokM::RBracket => true,
        TokM::RParen => true,
        _ => false,
    }
}

fn is_atomish(t: &Tok) -> (r: bool)
    ensures
        r == is_atomish_spec(t@),
{
    match t {
        Tok::Ident(_) => true,
        Tok::LitStr(_) => true,
        Tok::LitInt(_) => true,
        Tok::True => true,
        Tok::False => true,
        Tok::RBrace => true,
        Tok::RBracket => true,
        Tok::RParen => true,
        _ => false,
    }
}

/// A token that can start an expression atom or a keyword construct.
pub open spec fn starts_atom_spec(t: TokM) -> bool {
    match t {
        TokM::Ident(_) => true,
        TokM::LitStr(_) => true,
        TokM::LitInt(_) => true,
        TokM::True => true,
        TokM::False => true,
        TokM::KwIf => true,
        TokM::KwElse => true,
        TokM::KwMatch => true,
        TokM::KwFor => true,
        TokM::KwIn => true,
        _ => false,
    }
}

fn starts_atom(t: &Tok) -> (r: bool)
    ensures
        r == starts_atom_spec(t@),
{
    match t {
        Tok::Ident(_) => true,
        Tok::LitStr(_) => true,
        Tok::LitInt(_) => true,
        Tok::True => true,
        Tok::False => true,
        Tok::KwIf => true,
        Tok::KwElse => true,
        Tok::KwMatch => true,
        Tok::KwFor => true,
        Tok::KwIn => true,
        _ => false,
    }
}

pub open spec fn is_opener_spec(t: TokM) -> bool {
    (t matches TokM::LBrace) || (t matches TokM::LBracket) || (t matches TokM::LParen)
}

pub open spec fn is_closer_spec(t: TokM) -> bool {
    (t matches TokM::RBrace) || (t matches TokM::RBracket) || (t matches TokM::RParen)
}

/// The re-encoding of one string-literal character inside carried-along
/// source text.
pub open spec fn qe_char(c: char) -> Seq<char> {
    if c == '"' {
        seq!['\\', '"']
    } else if c == '\\' {
        seq!['\\', '\\']
    } else if c == '\n' {
        seq!['\\', 'n']
    } else if c == '\t' {
        seq!['\\', 't']
    } else if c == '\r' {
        seq!['\\', 'r']
    } else {
        seq![c]
    }
}

pub open spec fn quote_esc(s: Seq<char>) -> Seq<char>
    decreases s.len(),
{
    if s.len() == 0 {
        Seq::empty()
    } else {
        qe_char(s[0]) + quote_esc(s.drop_first())
    }
}

proof fn lemma_quote_push(s: Seq<char>, c: char)
    ensures
        quote_esc(s.push(c)) == quote_esc(s) + qe_char(c),
    decreases s.len(),
{
    if s.len() == 0 {
        assert(s.push(c).drop_first() =~= Seq::<char>::empty());
        assert(s =~= Seq::<char>::empty());
        assert(quote_esc(Seq::<char>::empty()) == Seq::<char>::empty());
        assert(quote_esc(s.push(c)) == qe_char(c) + quote_esc(s.push(c).drop_first()));
        assert(quote_esc(s.push(c)) =~= quote_esc(s) + qe_char(c));
    } else {
        assert(s.push(c).drop_first() =~= s.drop_first().push(c));
        lemma_quote_push(s.drop_first(), c);
        assert(quote_esc(s.push(c)) =~= quote_esc(s) + qe_char(c));
    }
}

/// One string literal, re-encoded as source text with its quotes and
/// escapes, for verbatim carriage inside an opaque expression.
#[verifier::loop_isolation(false)]
fn quote_str(s: &String) -> (r: String)
    ensures
        r@ == seq!['"'] + quote_esc(s@) + seq!['"'],
{
    let mut out = String::new();
    string_push(&mut out, '"');
    let n = s.as_str().unicode_len();
    let mut i: usize = 0;
    while i < n
        invariant
            n == s@.len(),
            i <= n,
            out@ == seq!['"'] + quote_esc(s@.take(i as int)),
        decreases n - i,
    {
        let c = s.as_str().get_char(i);
        proof {
            assert(s@.take(i as int).push(c) =~= s@.take(i + 1));
            lemma_quote_push(s@.take(i as int), c);
        }
        if c == '"' {
            out.append("\\\"");
            proof {
                reveal_strlit("\\\"");
                assert("\\\""@ =~= seq!['\\', '"']);
                assert(out@ =~= seq!['"'] + quote_esc(s@.take(i + 1)));
            }
        } else if c == '\\' {
            out.append("\\\\");
            proof {
                reveal_strlit("\\\\");
                assert("\\\\"@ =~= seq!['\\', '\\']);
                assert(out@ =~= seq!['"'] + quote_esc(s@.take(i + 1)));
            }
        } else if c == '\n' {
            out.append("\\n");
            proof {
                reveal_strlit("\\n");
                assert("\\n"@ =~= seq!['\\', 'n']);
                assert(out@ =~= seq!['"'] + quote_esc(s@.take(i + 1)));
            }
        } else if c == '\t' {
            out.append("\\t");
            proof {
                reveal_strlit("\\t");
                assert("\\t"@ =~= seq!['\\', 't']);
                assert(out@ =~= seq!['"'] + quote_esc(s@.take(i + 1)));
            }
        } else if c == '\r' {
            out.append("\\r");
            proof {
                reveal_strlit("\\r");
                assert("\\r"@ =~= seq!['\\', 'r']);
                assert(out@ =~= seq!['"'] + quote_esc(s@.take(i + 1)));
            }
        } else {
            string_push(&mut out, c);
            proof {
                assert(out@ =~= seq!['"'] + quote_esc(s@.take(i + 1)));
            }
        }
        i = i + 1;
    }
    proof {
        assert(s@.take(n as int) =~= s@);
    }
    string_push(&mut out, '"');
    proof {
        assert(out@ =~= seq!['"'] + quote_esc(s@) + seq!['"']);
    }
    out
}

/// One token back as source text.
pub open spec fn spec_tok_text(t: TokM) -> Seq<char> {
    match t {
        TokM::Ident(s) => s,
        TokM::LitStr(s) => seq!['"'] + quote_esc(s) + seq!['"'],
        TokM::LitInt(s) => s,
        TokM::KwIf => "if"@,
        TokM::KwElse => "else"@,
        TokM::KwMatch => "match"@,
        TokM::KwFor => "for"@,
        TokM::KwIn => "in"@,
        TokM::True => "true"@,
        TokM::False => "false"@,
        TokM::LBrace => "{"@,
        TokM::RBrace => "}"@,
        TokM::LBracket => "["@,
        TokM::RBracket => "]"@,
        TokM::LParen => "("@,
        TokM::RParen => ")"@,
        TokM::Semi => ";"@,
        TokM::Comma => ","@,
        TokM::Eq => "="@,
        TokM::At => "@"@,
        TokM::FatArrow => "=>"@,
        TokM::Punct(c) => seq![c],
    }
}

fn tok_text(t: &Tok) -> (r: String)
    ensures
        r@ == spec_tok_text(t@),
{
    match t {
        Tok::Ident(s) => s.clone(),
        Tok::LitStr(s) => quote_str(s),
        Tok::LitInt(s) => s.clone(),
        Tok::KwIf => String::from_str("if"),
        Tok::KwElse => String::from_str("else"),
        Tok::KwMatch => String::from_str("match"),
        Tok::KwFor => String::from_str("for"),
        Tok::KwIn => String::from_str("in"),
        Tok::True => String::from_str("true"),
        Tok::False => String::from_str("false"),
        Tok::LBrace => String::from_str("{"),
        Tok::RBrace => String::from_str("}"),
        Tok::LBracket => String::from_str("["),
        Tok::RBracket => String::from_str("]"),
        Tok::LParen => String::from_str("("),
        Tok::RParen => String::from_str(")"),
        Tok::Semi => String::from_str(";"),
        Tok::Comma => String::from_str(","),
        Tok::Eq => String::from_str("="),
        Tok::At => String::from_str("@"),
        Tok::FatArrow => String::from_str("=>"),
        Tok::Punct(c) => {
            let mut s = String::new();
            string_push(&mut s, *c);
            proof {
                assert(s@ =~= seq![*c]);
            }
            s
        },
    }
}

/// The terminator of one expression context, at bracket depth zero.
pub open spec fn spec_stop(stop: ExprStop, t: TokM, prev_atom: bool) -> bool {
    match stop {
        ExprStop::Brace => (t matches TokM::LBrace),
        ExprStop::AttrVal => (t matches TokM::Comma) || (t matches TokM::RBracket),
        ExprStop::Arrow => (t matches TokM::FatArrow),
        ExprStop::In => (t matches TokM::KwIn),
        ExprStop::Bare => (t matches TokM::At) || (t matches TokM::Semi) || (t matches TokM::Comma) || (
        prev_atom && starts_atom_spec(t)),
    }
}

/// An opaque host-expression run from `i`: the reassembled text and the
/// position of the terminator.  Tokens are consumed with balanced bracket
/// tracking; the run ends at the context's terminator or an unmatched
/// closing delimiter at depth zero, or at the end of the input.
pub open spec fn spec_expr_run(tm: Seq<TokM>, i: int, stop: ExprStop, depth: int, prev_atom: bool) -> (
    Seq<char>,
    int,
)
    decreases tm.len() - i,
{
    if !(0 <= i < tm.len()) {
        (Seq::empty(), i)
    } else {
        let t = tm[i];
        if depth == 0 && (spec_stop(stop, t, prev_atom) || is_closer_spec(t)) {
            (Seq::empty(), i)
        } else {
            let d2 = if is_opener_spec(t) {
                depth + 1
            } else if is_closer_spec(t) {
                depth - 1
            } else {
                depth
            };
            let r = spec_expr_run(tm, i + 1, stop, d2, is_atomish_spec(t));
            (
                spec_tok_text(t) + (if r.0.len() == 0 {
                    Seq::<char>::empty()
                } else {
                    seq![' '] + r.0
                }),
                r.1,
            )
        }
    }
}

/// A non-empty opaque run, or nothing when no token can be consumed.
pub open spec fn spec_run_r(tm: Seq<TokM>, i: int, stop: ExprStop) -> Option<(Seq<char>, int)> {
    let r = spec_expr_run(tm, i, stop, 0, false);
    if r.1 == i {
        None
    } else {
        Some(r)
    }
}

#[verifier::loop_isolation(false)]
fn expr_run(toks: &Vec<Tok>, j: usize, stop: ExprStop, depth: usize, prev_atom: bool) -> (r: (
    String,
    usize,
))
    requires
        j <= toks@.len(),
        depth <= j,
    ensures
        r.0@ == spec_expr_run(toks_view(toks@), j as int, stop, depth as int, prev_atom).0,
        r.1 as int == spec_expr_run(toks_view(toks@), j as int, stop, depth as int, prev_atom).1,
        j <= r.1 <= toks@.len(),
    decreases toks@.len() - j,
{
    proof {
        lemma_toks_view_len(toks@);
    }
    let n = toks.len();
    if j >= n {
        return (String::new(), j);
    }
    let t = tok_at(toks, j);
    let stop_here = if depth == 0 {
        match stop {
            ExprStop::Brace => is_lbrace(t),
            ExprStop::AttrVal => match t {
                Tok::Comma => true,
                Tok::RBracket => true,
                _ => false,
            },
            ExprStop::Arrow => match t {
                Tok::FatArrow => true,
                _ => false,
            },
            ExprStop::In => match t {
                Tok::KwIn => true,
                _ => false,
            },
            ExprStop::Bare => {
                let direct = match t {
                    Tok::At => true,
                    Tok::Semi => true,
                    Tok::Comma => true,
                    _ => false,
                };
                direct || (prev_atom && starts_atom(t))
            },
        }
    } else {
        false
    };
    let closer = match t {
        Tok::RBrace => true,
        Tok::RBracket => true,
        Tok::RParen => true,
        _ => false,
    };
    if stop_here || (depth == 0 && closer) {
        return (String::new(), j);
    }
    let opener = match t {
        Tok::LBrace => true,
        Tok::LBracket => true,
        Tok::LParen => true,
        _ => false,
    };
    let d2 = if opener {
        depth + 1
    } else if closer {
        depth - 1
    } else {
        depth
    };
    let pa = is_atomish(t);
    let mut text = tok_text(t);
    let (rest, end) = expr_run(toks, j + 1, stop, d2, pa);
    if rest.as_str().unicode_len() > 0 {
        text.append(" ");
        text.append(rest.as_str());
        proof {
            reveal_strlit(" ");
            assert(text@ =~= spec_tok_text(t@) + (seq![' '] + rest@));
        }
    } else {
        proof {
            assert(rest@ =~= Seq::<char>::empty());
            assert(text@ =~= spec_tok_text(t@) + Seq::<char>::empty());
        }
    }
    (text, end)
}

/// One opaque host-expression run, reassembled as text joined by single
/// spaces: exactly [`spec_run_r`]'s result, and an error — an empty run —
/// exactly when it has none.
fn parse_expr_run(toks: &Vec<Tok>, i: usize, stop: ExprStop) -> (r: Result<
    (String, usize),
    SyntaxError,
>)
    requires
        i <= toks@.len(),
    ensures
        (match r {
            Ok(t) => spec_run_r(toks_view(toks@), i as int, stop) == Some((t.0@, t.1 as int)) && i
                < t.1 <= toks@.len(),
            Err(_) => spec_run_r(toks_view(toks@), i as int, stop) is None,
        }),
{
    let (text, end) = expr_run(toks, i, stop, 0, false);
    if end == i {
        return Err(err_at(i, "an expression"));
    }
    Ok((text, end))
}

/// An opaque run classified as the compiler will treat it: a lone string
/// literal, a lone boolean literal, or verbatim text.
pub open spec fn spec_classify(tm: Seq<TokM>, i: int, j: int, text: Seq<char>) -> ExprM {
    if j == i + 1 && 0 <= i < tm.len() {
        match tm[i] {
            TokM::LitStr(s) => ExprM::Str(s),
            TokM::True => ExprM::Bool(true),
            TokM::False => ExprM::Bool(false),
            _ => ExprM::Verbatim(text),
        }
    } else {
        ExprM::Verbatim(text)
    }
}

pub open spec fn spec_parse_expr_value(tm: Seq<TokM>, i: int, stop: ExprStop) -> Option<
    (ExprM, int),
> {
    match spec_run_r(tm, i, stop) {
        Some(t) => Some((spec_classify(tm, i, t.1, t.0), t.1)),
        None => None,
    }
}

fn parse_expr_value(toks: &Vec<Tok>, i: usize, stop: ExprStop) -> (r: Result<
    (Expr, usize),
    SyntaxError,
>)
    requires
        i <= toks@.len(),
    ensures
        (match r {
            Ok(t) => spec_parse_expr_value(toks_view(toks@), i as int, stop) == Some(
                (expr_view(t.0), t.1 as int),
            ) && i < t.1 <= toks@.len(),
            Err(_) => spec_parse_expr_value(toks_view(toks@), i as int, stop) is None,
        }),
{
    let (text, j) = match parse_expr_run(toks, i, stop) {
        Ok(t) => t,
        Err(e) => {
            return Err(e);
        },
    };
    if j == i + 1 {
        match tok_at(toks, i) {
            Tok::LitStr(s) => {
                return Ok((Expr::Str(s.clone()), j));
            },
            Tok::True => {
                return Ok((Expr::Bool(true), j));
            },
            Tok::False => {
                return Ok((Expr::Bool(false), j));
            },
            _ => {},
        }
    }
    Ok((Expr::Verbatim(text), j))
}

/// The position after a balanced bracket group, scanning from inside it.
pub open spec fn spec_skip_brackets(tm: Seq<TokM>, j: int, depth: int) -> Option<int>
    decreases tm.len() - j,
{
    if depth == 0 {
        Some(j)
    } else if !(0 <= j < tm.len()) {
        None
    } else {
        match tm[j] {
            TokM::LBracket => spec_skip_brackets(tm, j + 1, depth + 1),
            TokM::RBracket => spec_skip_brackets(tm, j + 1, depth - 1),
            _ => spec_skip_brackets(tm, j + 1, depth),
        }
    }
}

fn skip_brackets(toks: &Vec<Tok>, j: usize, depth: usize) -> (r: Option<usize>)
    requires
        j <= toks@.len(),
        depth <= j,
    ensures
        (match r {
            Some(k) => spec_skip_brackets(toks_view(toks@), j as int, depth as int) == Some(
                k as int,
            ) && j <= k <= toks@.len(),
            None => spec_skip_brackets(toks_view(toks@), j as int, depth as int) is None,
        }),
    decreases toks@.len() - j,
{
    proof {
        lemma_toks_view_len(toks@);
    }
    if depth == 0 {
        return Some(j);
    }
    if j >= toks.len() {
        return None;
    }
    match tok_at(toks, j) {
        Tok::LBracket => skip_brackets(toks, j + 1, depth + 1),
        Tok::RBracket => skip_brackets(toks, j + 1, depth - 1),
        _ => skip_brackets(toks, j + 1, depth),
    }
}

/// The index of the token after the name at `i` and an optional bracketed
/// attribute list; nothing when the bracket group never closes.
pub open spec fn spec_after_name(tm: Seq<TokM>, i: int) -> Option<int> {
    if !(0 <= i < tm.len()) {
        None
    } else if i + 1 < tm.len() && (tm[i + 1] matches TokM::LBracket) {
        spec_skip_brackets(tm, i + 2, 1int)
    } else {
        Some(i + 1)
    }
}

fn after_name_and_attrs(toks: &Vec<Tok>, i: usize) -> (r: Option<usize>)
    requires
        i < toks@.len(),
    ensures
        (match r {
            Some(k) => spec_after_name(toks_view(toks@), i as int) == Some(k as int) && i < k
                <= toks@.len(),
            None => spec_after_name(toks_view(toks@), i as int) is None,
        }),
{
    proof {
        lemma_toks_view_len(toks@);
    }
    let n = toks.len();
    let bracketed = if i + 1 < n {
        match tok_at(toks, i + 1) {
            Tok::LBracket => true,
            _ => false,
        }
    } else {
        false
    };
    if bracketed {
        skip_brackets(toks, i + 2, 1)
    } else {
        Some(i + 1)
    }
}

/// Whether the name at `i` starts an element: the token after it (past an
/// optional attribute list) is `{` or `;`.  This is the grammar's
/// multi-token lookahead.
pub open spec fn spec_element_follows(tm: Seq<TokM>, i: int) -> bool {
    match spec_after_name(tm, i) {
        Some(k) => 0 <= k < tm.len() && (tm[k] matches TokM::LBrace || (tm[k] matches TokM::Semi)),
        None => false,
    }
}

fn element_follows(toks: &Vec<Tok>, i: usize) -> (r: bool)
    requires
        i < toks@.len(),
    ensures
        r == spec_element_follows(toks_view(toks@), i as int),
{
    proof {
        lemma_toks_view_len(toks@);
    }
    match after_name_and_attrs(toks, i) {
        Some(k) => {
            if k < toks.len() {
                match tok_at(toks, k) {
                    Tok::LBrace => true,
                    Tok::Semi => true,
                    _ => false,
                }
            } else {
                false
            }
        },
        None => false,
    }
}

/// Whether the element whose name is at `i` is void: the token after the
/// name and optional attribute list is `;`.
pub open spec fn spec_void_follows(tm: Seq<TokM>, i: int) -> bool {
    match spec_after_name(tm, i) {
        Some(k) => 0 <= k < tm.len() && (tm[k] matches TokM::Semi),
        None => false,
    }
}

fn void_follows(toks: &Vec<Tok>, i: usize) -> (r: bool)
    requires
        i < toks@.len(),
    ensures
        r == spec_void_follows(toks_view(toks@), i as int),
{
    proof {
        lemma_toks_view_len(toks@);
    }
    match after_name_and_attrs(toks, i) {
        Some(k) => {
            if k < toks.len() {
                match tok_at(toks, k) {
                    Tok::Semi => true,
                    _ => false,
                }
            } else {
                false
            }
        },
        None => false,
    }
}

/// `else` directly followed by `if`: one more link of the else-if chain.
pub open spec fn spec_is_else_if(tm: Seq<TokM>, j: int) -> bool {
    0 <= j && j + 1 < tm.len() && (tm[j] matches TokM::KwElse) && (tm[j + 1] matches TokM::KwIf)
}

fn is_else_if(toks: &Vec<Tok>, j: usize) -> (r: bool)
    requires
        j <= toks@.len(),
    ensures
        r == spec_is_else_if(toks_view(toks@), j as int),
        r ==> j + 1 < toks@.len(),
{
    proof {
        lemma_toks_view_len(toks@);
    }
    if j < toks.len() && j + 1 < toks.len() {
        let a = match tok_at(toks, j) {
            Tok::KwElse => true,
            _ => false,
        };
        let b = match tok_at(toks, j + 1) {
            Tok::KwIf => true,
            _ => false,
        };
        a && b
    } else {
        false
    }
}

/// The grammar, node by node, over the token model.  Each function gives
/// the parsed construct and the position after it, or nothing on the first
/// mismatch — parsing never recovers and never yields a partial result.
pub open spec fn spec_parse_group(tm: Seq<TokM>, i: int) -> Option<(GroupM, int)>
    decreases tm.len() - i, 10int,
{
    match spec_parse_nodes(tm, i) {
        Some(t) => Some((GroupM { nodes: t.0 }, t.1)),
        None => None,
    }
}

pub open spec fn spec_parse_nodes(tm: Seq<TokM>, i: int) -> Option<(Seq<NodeM>, int)>
    decreases tm.len() - i, 9int,
{
    if !(0 <= i <= tm.len()) {
        None
    } else if i == tm.len() || (tm[i] matches TokM::RBrace) {
        Some((Seq::empty(), i))
    } else {
        match spec_parse_node(tm, i) {
            Some(t) => if i < t.1 <= tm.len() {
                match spec_parse_nodes(tm, t.1) {
                    Some(rest) => Some((seq![t.0] + rest.0, rest.1)),
                    None => None,
                }
            } else {
                None
            },
            None => None,
        }
    }
}

pub open spec fn spec_parse_node(tm: Seq<TokM>, i: int) -> Option<(NodeM, int)>
    decreases tm.len() - i, 8int,
{
    if !(0 <= i < tm.len()) {
        None
    } else {
        match tm[i] {
            TokM::LitStr(s) => if spec_element_follows(tm, i) {
                match spec_parse_element(tm, i) {
                    Some(t) => Some((NodeM::Element(t.0), t.1)),
                    None => None,
                }
            } else {
                Some((NodeM::Literal(s), i + 1))
            },
            TokM::Ident(s) => if spec_element_follows(tm, i) {
                match spec_parse_element(tm, i) {
                    Some(t) => Some((NodeM::Element(t.0), t.1)),
                    None => None,
                }
            } else {
                Some((NodeM::Literal(s), i + 1))
            },
            TokM::At => match spec_parse_interp(tm, i) {
                Some(t) => Some((NodeM::Interp(t.0), t.1)),
                None => None,
            },
            _ => None,
        }
    }
}

pub open spec fn spec_parse_element(tm: Seq<TokM>, i: int) -> Option<(ElementM, int)>
    decreases tm.len() - i, 7int,
{
    if !(0 <= i < tm.len()) {
        None
    } else if spec_void_follows(tm, i) {
        match spec_parse_void(tm, i) {
            Some(t) => Some((ElementM::Void(t.0), t.1)),
            None => None,
        }
    } else {
        match spec_parse_normal(tm, i) {
            Some(t) => Some((ElementM::Normal(t.0), t.1)),
            None => None,
        }
    }
}

pub open spec fn spec_parse_name(tm: Seq<TokM>, i: int) -> Option<(NameM, int)> {
    if !(0 <= i < tm.len()) {
        None
    } else {
        match tm[i] {
            TokM::LitStr(s) => Some((NameM::Lit(s), i + 1)),
            TokM::Ident(s) => Some((NameM::Ident(s), i + 1)),
            _ => None,
        }
    }
}

pub open spec fn spec_parse_attrs(tm: Seq<TokM>, i: int) -> Option<(AttrsM, int)>
    decreases tm.len() - i, 6int,
{
    if 0 <= i < tm.len() && (tm[i] matches TokM::LBracket) {
        match spec_parse_attr_list(tm, i + 1) {
            Some(t) => Some((AttrsM { inner: t.0 }, t.1)),
            None => None,
        }
    } else {
        None
    }
}

pub open spec fn spec_parse_attr_list(tm: Seq<TokM>, j: int) -> Option<(Seq<AttrM>, int)>
    decreases tm.len() - j, 5int,
{
    if !(0 <= j < tm.len()) {
        None
    } else if (tm[j] matches TokM::RBracket) {
        Some((Seq::empty(), j + 1))
    } else {
        match spec_parse_attr(tm, j) {
            Some(t) => if j < t.1 <= tm.len() {
                if t.1 < tm.len() && (tm[t.1] matches TokM::Comma) {
                    match spec_parse_attr_list(tm, t.1 + 1) {
                        Some(rest) => Some((seq![t.0] + rest.0, rest.1)),
                        None => None,
                    }
                } else if t.1 < tm.len() && (tm[t.1] matches TokM::RBracket) {
                    Some((seq![t.0], t.1 + 1))
                } else {
                    None
                }
            } else {
                None
            },
            None => None,
        }
    }
}

pub open spec fn spec_parse_attr(tm: Seq<TokM>, i: int) -> Option<(AttrM, int)>
    decreases tm.len() - i, 4int,
{
    match spec_parse_name(tm, i) {
        Some(nt) => if nt.1 < tm.len() && (tm[nt.1] matches TokM::Eq) {
            match spec_parse_expr_value(tm, nt.1 + 1, ExprStop::AttrVal) {
                Some(et) => Some(
                    (AttrM { name: nt.0, value: Some(AttrValueM { expr: et.0 }) }, et.1),
                ),
                None => None,
            }
        } else {
            Some((AttrM { name: nt.0, value: None }, nt.1))
        },
        None => None,
    }
}

pub open spec fn spec_parse_braced(tm: Seq<TokM>, i: int) -> Option<(GroupM, int)>
    decreases tm.len() - i, 0int,
{
    if 0 <= i < tm.len() && (tm[i] matches TokM::LBrace) {
        match spec_parse_group(tm, i + 1) {
            Some(t) => if i < t.1 < tm.len() && (tm[t.1] matches TokM::RBrace) {
                Some((t.0, t.1 + 1))
            } else {
                None
            },
            None => None,
        }
    } else {
        None
    }
}

pub open spec fn spec_parse_normal(tm: Seq<TokM>, i: int) -> Option<(NormalM, int)>
    decreases tm.len() - i, 6int,
{
    match spec_parse_name(tm, i) {
        Some(nt) => {
            let at = if nt.1 < tm.len() && (tm[nt.1] matches TokM::LBracket) {
                match spec_parse_attrs(tm, nt.1) {
                    Some(t) => if nt.1 < t.1 <= tm.len() {
                        Some((Some(t.0), t.1))
                    } else {
                        None
                    },
                    None => None,
                }
            } else {
                Some((None, nt.1))
            };
            match at {
                Some(a) => match spec_parse_braced(tm, a.1) {
                    Some(gt) => Some(
                        (
                            NormalM {
                                name: nt.0,
                                attrs: a.0,
                                inner: if gt.0.nodes.len() == 0 {
                                    None
                                } else {
                                    Some(gt.0)
                                },
                            },
                            gt.1,
                        ),
                    ),
                    None => None,
                },
                None => None,
            }
        },
        None => None,
    }
}

pub open spec fn spec_parse_void(tm: Seq<TokM>, i: int) -> Option<(VoidM, int)>
    decreases tm.len() - i, 6int,
{
    match spec_parse_name(tm, i) {
        Some(nt) => {
            let at = if nt.1 < tm.len() && (tm[nt.1] matches TokM::LBracket) {
                match spec_parse_attrs(tm, nt.1) {
                    Some(t) => if nt.1 < t.1 <= tm.len() {
                        Some((Some(t.0), t.1))
                    } else {
                        None
                    },
                    None => None,
                }
            } else {
                Some((None, nt.1))
            };
            match at {
                Some(a) => if a.1 < tm.len() && (tm[a.1] matches TokM::Semi) {
                    Some((VoidM { name: nt.0, attrs: a.0 }, a.1 + 1))
                } else {
                    None
                },
                None => None,
            }
        },
        None => None,
    }
}

pub open spec fn spec_parse_interp(tm: Seq<TokM>, i: int) -> Option<(InterpM, int)>
    decreases tm.len() - i, 7int,
{
    if 0 <= i < tm.len() && (tm[i] matches TokM::At) {
        match spec_parse_interp_value(tm, i + 1) {
            Some(t) => Some((InterpM { value: t.0 }, t.1)),
            None => None,
        }
    } else {
        None
    }
}

pub open spec fn spec_parse_interp_value(tm: Seq<TokM>, i: int) -> Option<(InterpValueM, int)>
    decreases tm.len() - i, 9int,
{
    if !(0 <= i < tm.len()) {
        None
    } else {
        match tm[i] {
            TokM::KwIf => match spec_parse_if(tm, i) {
                Some(t) => Some((InterpValueM::If(t.0), t.1)),
                None => None,
            },
            TokM::KwMatch => match spec_parse_match(tm, i) {
                Some(t) => Some((InterpValueM::Match(t.0), t.1)),
                None => None,
            },
            TokM::KwFor => match spec_parse_for(tm, i) {
                Some(t) => Some((InterpValueM::For(t.0), t.1)),
                None => None,
            },
            _ => match spec_parse_expr_value(tm, i, ExprStop::Bare) {
                Some(t) => Some((InterpValueM::Expr(t.0), t.1)),
                None => None,
            },
        }
    }
}

pub open spec fn spec_parse_if(tm: Seq<TokM>, i: int) -> Option<(InterpIfM, int)>
    decreases tm.len() - i, 8int,
{
    if 0 <= i < tm.len() && (tm[i] matches TokM::KwIf) {
        match spec_run_r(tm, i + 1, ExprStop::Brace) {
            Some(ct) => if i < ct.1 <= tm.len() {
                match spec_parse_braced(tm, ct.1) {
                    Some(tt) => if i < tt.1 <= tm.len() {
                        match spec_parse_else_if_list(tm, tt.1) {
                            Some(et) => if i < et.1 <= tm.len() {
                                if et.1 < tm.len() && (tm[et.1] matches TokM::KwElse) {
                                    match spec_parse_else(tm, et.1) {
                                        Some(bt) => Some(
                                            (
                                                InterpIfM {
                                                    cond: ct.0,
                                                    then_branch: tt.0,
                                                    else_if: et.0,
                                                    else_branch: Some(bt.0),
                                                },
                                                bt.1,
                                            ),
                                        ),
                                        None => None,
                                    }
                                } else {
                                    Some(
                                        (
                                            InterpIfM {
                                                cond: ct.0,
                                                then_branch: tt.0,
                                                else_if: et.0,
                                                else_branch: None,
                                            },
                                            et.1,
                                        ),
                                    )
                                }
                            } else {
                                None
                            },
                            None => None,
                        }
                    } else {
                        None
                    },
                    None => None,
                }
            } else {
                None
            },
            None => None,
        }
    } else {
        None
    }
}

pub open spec fn spec_parse_else_if_list(tm: Seq<TokM>, j: int) -> Option<
    (Seq<InterpElseIfM>, int),
>
    decreases tm.len() - j, 9int,
{
    if spec_is_else_if(tm, j) {
        match spec_parse_else_if(tm, j) {
            Some(t) => if j < t.1 <= tm.len() {
                match spec_parse_else_if_list(tm, t.1) {
                    Some(rest) => Some((seq![t.0] + rest.0, rest.1)),
                    None => None,
                }
            } else {
                None
            },
            None => None,
        }
    } else {
        Some((Seq::empty(), j))
    }
}

pub open spec fn spec_parse_else_if(tm: Seq<TokM>, i: int) -> Option<(InterpElseIfM, int)>
    decreases tm.len() - i, 8int,
{
    if spec_is_else_if(tm, i) {
        match spec_run_r(tm, i + 2, ExprStop::Brace) {
            Some(ct) => if i < ct.1 <= tm.len() {
                match spec_parse_braced(tm, ct.1) {
                    Some(gt) => Some((InterpElseIfM { cond: ct.0, group: gt.0 }, gt.1)),
                    None => None,
                }
            } else {
                None
            },
            None => None,
        }
    } else {
        None
    }
}

pub open spec fn spec_parse_else(tm: Seq<TokM>, i: int) -> Option<(InterpElseM, int)>
    decreases tm.len() - i, 8int,
{
    if 0 <= i < tm.len() && (tm[i] matches TokM::KwElse) {
        match spec_parse_braced(tm, i + 1) {
            Some(gt) => Some((InterpElseM { group: gt.0 }, gt.1)),
            None => None,
        }
    } else {
        None
    }
}

pub open spec fn spec_parse_for(tm: Seq<TokM>, i: int) -> Option<(InterpForM, int)>
    decreases tm.len() - i, 8int,
{
    if 0 <= i < tm.len() && (tm[i] matches TokM::KwFor) {
        match spec_run_r(tm, i + 1, ExprStop::In) {
            Some(pt) => if i < pt.1 <= tm.len() && pt.1 < tm.len() && (tm[pt.1] matches TokM::KwIn) {
                match spec_run_r(tm, pt.1 + 1, ExprStop::Brace) {
                    Some(et) => if i < et.1 <= tm.len() {
                        match spec_parse_braced(tm, et.1) {
                            Some(gt) => Some(
                                (InterpForM { pat: pt.0, expr: et.0, body: gt.0 }, gt.1),
                            ),
                            None => None,
                        }
                    } else {
                        None
                    },
                    None => None,
                }
            } else {
                None
            },
            None => None,
        }
    } else {
        None
    }
}

pub open spec fn spec_parse_match(tm: Seq<TokM>, i: int) -> Option<(InterpMatchM, int)>
    decreases tm.len() - i, 8int,
{
    if 0 <= i < tm.len() && (tm[i] matches TokM::KwMatch) {
        match spec_run_r(tm, i + 1, ExprStop::Brace) {
            Some(et) => if i < et.1 < tm.len() && (tm[et.1] matches TokM::LBrace) {
                match spec_parse_arm_list(tm, et.1 + 1) {
                    Some(at) => Some((InterpMatchM { expr: et.0, arms: at.0 }, at.1)),
                    None => None,
                }
            } else {
                None
            },
            None => None,
        }
    } else {
        None
    }
}

pub open spec fn spec_parse_arm_list(tm: Seq<TokM>, j: int) -> Option<(Seq<InterpArmM>, int)>
    decreases tm.len() - j, 9int,
{
    if !(0 <= j < tm.len()) {
        None
    } else if (tm[j] matches TokM::RBrace) {
        Some((Seq::empty(), j + 1))
    } else {
        match spec_parse_arm(tm, j) {
            Some(t) => if j < t.1 <= tm.len() {
                match spec_parse_arm_list(tm, t.1) {
                    Some(rest) => Some((seq![t.0] + rest.0, rest.1)),
                    None => None,
                }
            } else {
                None
            },
            None => None,
        }
    }
}

pub open spec fn spec_parse_arm(tm: Seq<TokM>, i: int) -> Option<(InterpArmM, int)>
    decreases tm.len() - i, 8int,
{
    match spec_run_r(tm, i, ExprStop::Arrow) {
        Some(pt) => if i < pt.1 <= tm.len() && pt.1 < tm.len() && (tm[pt.1] matches TokM::FatArrow) {
            match spec_parse_arm_expr(tm, pt.1 + 1) {
                Some(et) => {
                    let end = if et.1 < tm.len() && (tm[et.1] matches TokM::Comma) {
                        et.1 + 1
                    } else {
                        et.1
                    };
                    Some((InterpArmM { pat: pt.0, expr: et.0 }, end))
                },
                None => None,
            }
        } else {
            None
        },
        None => None,
    }
}

pub open spec fn spec_parse_arm_expr(tm: Seq<TokM>, i: int) -> Option<(InterpArmExprM, int)>
    decreases tm.len() - i, 8int,
{
    if !(0 <= i < tm.len()) {
        None
    } else {
        match tm[i] {
            TokM::LBrace => match spec_parse_arm_group(tm, i) {
                Some(t) => Some((InterpArmExprM::Group(t.0), t.1)),
                None => None,
            },
            TokM::LitStr(s) => Some((InterpArmExprM::Literal(s), i + 1)),
            _ => None,
        }
    }
}

pub open spec fn spec_parse_arm_group(tm: Seq<TokM>, i: int) -> Option<(InterpArmGroupM, int)>
    decreases tm.len() - i, 7int,
{
    match spec_parse_braced(tm, i) {
        Some(t) => Some((InterpArmGroupM { group: t.0 }, t.1)),
        None => None,
    }
}

/// A brace-delimited group: `{`, its nodes, `}`.
fn parse_braced_group(toks: &Vec<Tok>, i: usize) -> (r: Result<(Group, usize), SyntaxError>)
    requires
        i <= toks@.len(),
    ensures
        (match r {
            Ok(t) => spec_parse_braced(toks_view(toks@), i as int) == Some(
                (group_view(t.0), t.1 as int),
            ) && i < t.1 <= toks@.len() && t.0.wf(),
            Err(_) => spec_parse_braced(toks_view(toks@), i as int) is None,
        }),
    decreases toks@.len() - i, 0int,
{
    proof {
        lemma_toks_view_len(toks@);
    }
    if i < toks.len() && is_lbrace(tok_at(toks, i)) {
        let (g, j) = match Group::parse(toks, i + 1) {
            Ok(t) => t,
            Err(e) => {
                return Err(e);
            },
        };
        if j < toks.len() && is_rbrace(tok_at(toks, j)) {
            Ok((g, j + 1))
        } else {
            Err(err_at(j, "a closing brace"))
        }
    } else {
        Err(err_at(i, "a brace-delimited body"))
    }
}

/// The nodes of a group, parsed until the end of the input or a closing
/// brace, which is left for the caller.
fn parse_nodes(toks: &Vec<Tok>, i: usize) -> (r: Result<(Vec<Node>, usize), SyntaxError>)
    requires
        i <= toks@.len(),
    ensures
        (match r {
            Ok(t) => spec_parse_nodes(toks_view(toks@), i as int) == Some(
                (node_seq_view(t.0@), t.1 as int),
            ) && i <= t.1 <= toks@.len() && nodes_wf(t.0@),
            Err(_) => spec_parse_nodes(toks_view(toks@), i as int) is None,
        }),
    decreases toks@.len() - i, 9int,
{
    proof {
        lemma_toks_view_len(toks@);
    }
    if i >= toks.len() || is_rbrace(tok_at(toks, i)) {
        let v: Vec<Node> = Vec::new();
        proof {
            assert(node_seq_view(v@) =~= Seq::<NodeM>::empty());
        }
        return Ok((v, i));
    }
    let (nd, j) = match Node::parse(toks, i) {
        Ok(t) => t,
        Err(e) => {
            return Err(e);
        },
    };
    let (mut rest, end) = match parse_nodes(toks, j) {
        Ok(t) => t,
        Err(e) => {
            return Err(e);
        },
    };
    let ghost rest0 = rest@;
    let ghost nv = node_view(nd);
    rest.insert(0, nd);
    proof {
        assert(rest@.drop_first() =~= rest0);
        assert(node_seq_view(rest@) =~= seq![nv] + node_seq_view(rest0));
    }
    Ok((rest, end))
}

impl Group {
    /// Parse nodes until the end of the input or a closing brace, which is
    /// left for the caller: exactly [`spec_parse_group`]'s result, or an
    /// error precisely when it has none.
    pub fn parse(toks: &Vec<Tok>, i: usize) -> (r: Result<(Group, usize), SyntaxError>)
        requires
            i <= toks@.len(),
        ensures
            (match r {
                Ok(t) => spec_parse_group(toks_view(toks@), i as int) == Some(
                    (group_view(t.0), t.1 as int),
                ) && i <= t.1 <= toks@.len() && t.0.wf(),
                Err(_) => spec_parse_group(toks_view(toks@), i as int) is None,
            }),
        decreases toks@.len() - i, 10int,
    {
        let (nodes, j) = match parse_nodes(toks, i) {
            Ok(t) => t,
            Err(e) => {
                return Err(e);
            },
        };
        Ok((Group { nodes }, j))
    }
}

impl Node {
    /// One node, decided by lookahead: an element when `{` or `;` follows
    /// the leading name past an optional attribute list, the name itself
    /// as one literal-text node otherwise, or an `@` interpolation —
    /// exactly [`spec_parse_node`]'s result, or an error precisely when it
    /// has none.
    pub fn parse(toks: &Vec<Tok>, i: usize) -> (r: Result<(Node, usize), SyntaxError>)
        requires
            i <= toks@.len(),
        ensures
            (match r {
                Ok(t) => spec_parse_node(toks_view(toks@), i as int) == Some(
                    (node_view(t.0), t.1 as int),
                ) && i < t.1 <= toks@.len() && t.0.wf(),
                Err(_) => spec_parse_node(toks_view(toks@), i as int) is None,
            }),
        decreases toks@.len() - i, 8int,
    {
        proof {
            lemma_toks_view_len(toks@);
        }
        if i >= toks.len() {
            return Err(err_at(i, "a string literal, an identifier, or `@`"));
        }
        match tok_at(toks, i) {
            Tok::LitStr(s) => {
                if element_follows(toks, i) {
                    match Element::parse(toks, i) {
                        Ok((e, j)) => Ok((Node::Element(e), j)),
                        Err(e) => Err(e),
                    }
                } else {
                    Ok((Node::Literal(s.clone()), i + 1))
                }
            },
            Tok::Ident(s) => {
                if element_follows(toks, i) {
                    match Element::parse(toks, i) {
                        Ok((e, j)) => Ok((Node::Element(e), j)),
                        Err(e) => Err(e),
                    }
                } else {
                    Ok((Node::Literal(s.clone()), i + 1))
                }
            },
            Tok::At => {
                match Interp::parse(toks, i) {
                    Ok((ip, j)) => Ok((Node::Interp(ip), j)),
                    Err(e) => Err(e),
                }
            },
            _ => Err(err_at(i, "a string literal, an identifier, or `@`")),
        }
    }
}

impl Element {
    /// An element, void exactly when a semicolon follows its head.
    pub fn parse(toks: &Vec<Tok>, i: usize) -> (r: Result<(Element, usize), SyntaxError>)
        requires
            i <= toks@.len(),
        ensures
            (match r {
                Ok(t) => spec_parse_element(toks_view(toks@), i as int) == Some(
                    (element_view(t.0), t.1 as int),
                ) && i < t.1 <= toks@.len() && t.0.wf(),
                Err(_) => spec_parse_element(toks_view(toks@), i as int) is None,
            }),
        decreases toks@.len() - i, 7int,
    {
        proof {
            lemma_toks_view_len(toks@);
        }
        if i >= toks.len() {
            return Err(err_at(i, "a tag name"));
        }
        if void_follows(toks, i) {
            match Void::parse(toks, i) {
                Ok((v, j)) => Ok((Element::Void(v), j)),
                Err(e) => Err(e),
            }
        } else {
            match Normal::parse(toks, i) {
                Ok((nm, j)) => Ok((Element::Normal(nm), j)),
                Err(e) => Err(e),
            }
        }
    }
}

impl Name {
    /// A string literal or a bare identifier: one token, kept verbatim.
    pub fn parse(toks: &Vec<Tok>, i: usize) -> (r: Result<(Name, usize), SyntaxError>)
        requires
            i <= toks@.len(),
        ensures
            (match r {
                Ok(t) => spec_parse_name(toks_view(toks@), i as int) == Some(
                    (name_view(t.0), t.1 as int),
                ) && t.1 == i + 1 && i < toks@.len(),
                Err(_) => spec_parse_name(toks_view(toks@), i as int) is None,
            }),
        decreases toks@.len() - i, 3int,
    {
        proof {
            lemma_toks_view_len(toks@);
        }
        if i >= toks.len() {
            return Err(err_at(i, "a string literal or an identifier"));
        }
        match tok_at(toks, i) {
            Tok::LitStr(s) => Ok((Name::Lit(s.clone()), i + 1)),
            Tok::Ident(s) => Ok((Name::Ident(s.clone()), i + 1)),
            _ => Err(err_at(i, "a string literal or an identifier")),
        }
    }
}

/// The optional bracketed attribute list after an element's name at `j`.
fn parse_opt_attrs(toks: &Vec<Tok>, j: usize) -> (r: Result<(Option<Attrs>, usize), SyntaxError>)
    requires
        j <= toks@.len(),
    ensures
        (match r {
            Ok(t) => ({
                let tm = toks_view(toks@);
                (if j < tm.len() && (tm[j as int] matches TokM::LBracket) {
                    match spec_parse_attrs(tm, j as int) {
                        Some(a) => if j < a.1 <= tm.len() {
                            Some((Some(a.0), a.1))
                        } else {
                            None
                        },
                        None => None,
                    }
                } else {
                    Some((None, j as int))
                }) == Some(
                    (
                        match t.0 {
                            Some(a) => Some(attrs_view(a)),
                            None => None,
                        },
                        t.1 as int,
                    ),
                ) && j <= t.1 <= toks@.len()
            }),
            Err(_) => ({
                let tm = toks_view(toks@);
                j < tm.len() && (tm[j as int] matches TokM::LBracket) && spec_parse_attrs(
                    tm,
                    j as int,
                ) is None
            }),
        }),
    decreases toks@.len() - j, 7int,
{
    proof {
        lemma_toks_view_len(toks@);
    }
    if j < toks.len() {
        let bracket = match tok_at(toks, j) {
            Tok::LBracket => true,
            _ => false,
        };
        if bracket {
            let (a, jj) = match Attrs::parse(toks, j) {
                Ok(t) => t,
                Err(e) => {
                    return Err(e);
                },
            };
            return Ok((Some(a), jj));
        }
    }
    Ok((None, j))
}

impl Normal {
    /// Name, optional attributes, then a braced body; an empty body is
    /// recorded as no body at all — exactly [`spec_parse_normal`]'s
    /// result, or an error precisely when it has none.
    pub fn parse(toks: &Vec<Tok>, i: usize) -> (r: Result<(Normal, usize), SyntaxError>)
        requires
            i <= toks@.len(),
        ensures
            (match r {
                Ok(t) => spec_parse_normal(toks_view(toks@), i as int) == Some(
                    (normal_view(t.0), t.1 as int),
                ) && i < t.1 <= toks@.len() && t.0.wf(),
                Err(_) => spec_parse_normal(toks_view(toks@), i as int) is None,
            }),
        decreases toks@.len() - i, 6int,
    {
        let (name, j) = match Name::parse(toks, i) {
            Ok(t) => t,
            Err(e) => {
                return Err(e);
            },
        };
        let (attrs, j2) = match parse_opt_attrs(toks, j) {
            Ok(t) => t,
            Err(e) => {
                return Err(e);
            },
        };
        let (group, j3) = match parse_braced_group(toks, j2) {
            Ok(t) => t,
            Err(e) => {
                return Err(e);
            },
        };
        let inner = if group.nodes.len() == 0 {
            None
        } else {
            Some(group)
        };
        Ok((Normal { name, attrs, inner }, j3))
    }
}

impl Void {
    /// Name, optional attributes, then the terminating semicolon — exactly
    /// [`spec_parse_void`]'s result, or an error precisely when it has
    /// none: a void head followed by anything but `;` is rejected, so no
    /// void element can ever carry a body.
    pub fn parse(toks: &Vec<Tok>, i: usize) -> (r: Result<(Void, usize), SyntaxError>)
        requires
            i <= toks@.len(),
        ensures
            (match r {
                Ok(t) => spec_parse_void(toks_view(toks@), i as int) == Some(
                    (void_view(t.0), t.1 as int),
                ) && i < t.1 <= toks@.len(),
                Err(_) => spec_parse_void(toks_view(toks@), i as int) is None,
            }),
        decreases toks@.len() - i, 6int,
    {
        proof {
            lemma_toks_view_len(toks@);
        }
        let (name, j) = match Name::parse(toks, i) {
            Ok(t) => t,
            Err(e) => {
                return Err(e);
            },
        };
        let (attrs, j2) = match parse_opt_attrs(toks, j) {
            Ok(t) => t,
            Err(e) => {
                return Err(e);
            },
        };
        if j2 < toks.len() {
            match tok_at(toks, j2) {
                Tok::Semi => Ok((Void { name, attrs }, j2 + 1)),
                _ => Err(err_at(j2, "a semicolon")),
            }
        } else {
            Err(err_at(j2, "a semicolon"))
        }
    }
}

/// The comma-separated attributes after the opening bracket, through the
/// closing bracket.
fn parse_attr_list(toks: &Vec<Tok>, j: usize) -> (r: Result<(Vec<Attr>, usize), SyntaxError>)
    requires
        j <= toks@.len(),
    ensures
        (match r {
            Ok(t) => spec_parse_attr_list(toks_view(toks@), j as int) == Some(
                (attr_seq_view(t.0@), t.1 as int),
            ) && j < t.1 <= toks@.len(),
            Err(_) => spec_parse_attr_list(toks_view(toks@), j as int) is None,
        }),
    decreases toks@.len() - j, 5int,
{
    proof {
        lemma_toks_view_len(toks@);
    }
    if j >= toks.len() {
        return Err(err_at(j, "an attribute or a closing bracket"));
    }
    let closed = match tok_at(toks, j) {
        Tok::RBracket => true,
        _ => false,
    };
    if closed {
        let v: Vec<Attr> = Vec::new();
        proof {
            assert(attr_seq_view(v@) =~= Seq::<AttrM>::empty());
        }
        return Ok((v, j + 1));
    }
    let (a, j2) = match Attr::parse(toks, j) {
        Ok(t) => t,
        Err(e) => {
            return Err(e);
        },
    };
    if j2 < toks.len() {
        let comma = match tok_at(toks, j2) {
            Tok::Comma => true,
            _ => false,
        };
        let bracket = match tok_at(toks, j2) {
            Tok::RBracket => true,
            _ => false,
        };
        if comma {
            let (mut rest, end) = match parse_attr_list(toks, j2 + 1) {
                Ok(t) => t,
                Err(e) => {
                    return Err(e);
                },
            };
            let ghost rest0 = rest@;
            let ghost av = attr_view(a);
            rest.insert(0, a);
            proof {
                assert(rest@.drop_first() =~= rest0);
                assert(attr_seq_view(rest@) =~= seq![av] + attr_seq_view(rest0));
            }
            return Ok((rest, end));
        }
        if bracket {
            let mut v: Vec<Attr> = Vec::new();
            let ghost av = attr_view(a);
            v.push(a);
            proof {
                assert(v@ =~= seq![a]);
                assert(v@.drop_first() =~= Seq::<Attr>::empty());
                assert(attr_seq_view(Seq::<Attr>::empty()) == Seq::<AttrM>::empty());
                assert(attr_seq_view(v@) =~= seq![av]);
            }
            return Ok((v, j2 + 1));
        }
        return Err(err_at(j2, "a comma or a closing bracket"));
    }
    Err(err_at(j2, "a comma or a closing bracket"))
}

impl Attrs {
    /// A bracketed, comma-separated attribute list; a trailing comma is
    /// allowed, and so is an empty list — exactly [`spec_parse_attrs`]'s
    /// result, or an error precisely when it has none.
    pub fn parse(toks: &Vec<Tok>, i: usize) -> (r: Result<(Attrs, usize), SyntaxError>)
        requires
            i <= toks@.len(),
        ensures
            (match r {
                Ok(t) => spec_parse_attrs(toks_view(toks@), i as int) == Some(
                    (attrs_view(t.0), t.1 as int),
                ) && i < t.1 <= toks@.len(),
                Err(_) => spec_parse_attrs(toks_view(toks@), i as int) is None,
            }),
        decreases toks@.len() - i, 6int,
    {
        proof {
            lemma_toks_view_len(toks@);
        }
        if !(i < toks.len() && (match tok_at(toks, i) {
            Tok::LBracket => true,
            _ => false,
        })) {
            return Err(err_at(i, "a bracketed attribute list"));
        }
        let (inner, j) = match parse_attr_list(toks, i + 1) {
            Ok(t) => t,
            Err(e) => {
                return Err(e);
            },
        };
        Ok((Attrs { inner }, j))
    }
}

impl Attr {
    /// A name, optionally `=` and a value expression: a value is present
    /// exactly when `=` follows the name.
    pub fn parse(toks: &Vec<Tok>, i: usize) -> (r: Result<(Attr, usize), SyntaxError>)
        requires
            i <= toks@.len(),
        ensures
            (match r {
                Ok(t) => spec_parse_attr(toks_view(toks@), i as int) == Some(
                    (attr_view(t.0), t.1 as int),
                ) && i < t.1 <= toks@.len(),
                Err(_) => spec_parse_attr(toks_view(toks@), i as int) is None,
            }),
        decreases toks@.len() - i, 4int,
    {
        proof {
            lemma_toks_view_len(toks@);
        }
        let (name, j) = match Name::parse(toks, i) {
            Ok(t) => t,
            Err(e) => {
                return Err(e);
            },
        };
        if j < toks.len() {
            let eq = match tok_at(toks, j) {
                Tok::Eq => true,
                _ => false,
            };
            if eq {
                let (e, j2) = match parse_expr_value(toks, j + 1, ExprStop::AttrVal) {
                    Ok(t) => t,
                    Err(e2) => {
                        return Err(e2);
                    },
                };
                return Ok((Attr { name, value: Some(AttrValue { expr: e }) }, j2));
            }
        }
        Ok((Attr { name, value: None }, j))
    }
}

impl Interp {
    /// `@`, then one of the four interpolation forms.
    pub fn parse(toks: &Vec<Tok>, i: usize) -> (r: Result<(Interp, usize), SyntaxError>)
        requires
            i <= toks@.len(),
        ensures
            (match r {
                Ok(t) => spec_parse_interp(toks_view(toks@), i as int) == Some(
                    (interp_view(t.0), t.1 as int),
                ) && i < t.1 <= toks@.len() && t.0.wf(),
                Err(_) => spec_parse_interp(toks_view(toks@), i as int) is None,
            }),
        decreases toks@.len() - i, 7int,
    {
        proof {
            lemma_toks_view_len(toks@);
        }
        if !(i < toks.len() && (match tok_at(toks, i) {
            Tok::At => true,
            _ => false,
        })) {
            return Err(err_at(i, "`@`"));
        }
        let (v, j) = match InterpValue::parse(toks, i + 1) {
            Ok(t) => t,
            Err(e) => {
                return Err(e);
            },
        };
        Ok((Interp { value: v }, j))
    }
}

impl InterpValue {
    /// Decided by the keyword after `@`: a conditional, a match, a loop,
    /// or a bare expression.
    pub fn parse(toks: &Vec<Tok>, i: usize) -> (r: Result<(InterpValue, usize), SyntaxError>)
        requires
            i <= toks@.len(),
        ensures
            (match r {
                Ok(t) => spec_parse_interp_value(toks_view(toks@), i as int) == Some(
                    (interp_value_view(t.0), t.1 as int),
                ) && i < t.1 <= toks@.len() && (Interp { value: t.0 }).wf(),
                Err(_) => spec_parse_interp_value(toks_view(toks@), i as int) is None,
            }),
        decreases toks@.len() - i, 9int,
    {
        proof {
            lemma_toks_view_len(toks@);
        }
        if i >= toks.len() {
            return Err(err_at(i, "an interpolated expression"));
        }
        match tok_at(toks, i) {
            Tok::KwIf => {
                match InterpIf::parse(toks, i) {
                    Ok((f, j)) => Ok((InterpValue::If(f), j)),
                    Err(e) => Err(e),
                }
            },
            Tok::KwMatch => {
                match InterpMatch::parse(toks, i) {
                    Ok((m, j)) => Ok((InterpValue::Match(m), j)),
                    Err(e) => Err(e),
                }
            },
            Tok::KwFor => {
                match InterpFor::parse(toks, i) {
                    Ok((f, j)) => Ok((InterpValue::For(f), j)),
                    Err(e) => Err(e),
                }
            },
            _ => {
                match parse_expr_value(toks, i, ExprStop::Bare) {
                    Ok((e, j)) => Ok((InterpValue::Expr(e), j)),
                    Err(e) => Err(e),
                }
            },
        }
    }
}

/// The consecutive `else if` links after an if's first branch, in source
/// order.
fn parse_else_if_list(toks: &Vec<Tok>, j: usize) -> (r: Result<
    (Vec<InterpElseIf>, usize),
    SyntaxError,
>)
    requires
        j <= toks@.len(),
    ensures
        (match r {
            Ok(t) => spec_parse_else_if_list(toks_view(toks@), j as int) == Some(
                (else_if_seq_view(t.0@), t.1 as int),
            ) && j <= t.1 <= toks@.len() && crate::ast::else_ifs_wf(t.0@),
            Err(_) => spec_parse_else_if_list(toks_view(toks@), j as int) is None,
        }),
    decreases toks@.len() - j, 9int,
{
    proof {
        lemma_toks_view_len(toks@);
    }
    if !is_else_if(toks, j) {
        let v: Vec<InterpElseIf> = Vec::new();
        proof {
            assert(else_if_seq_view(v@) =~= Seq::<InterpElseIfM>::empty());
        }
        return Ok((v, j));
    }
    let (ei, j2) = match InterpElseIf::parse(toks, j) {
        Ok(t) => t,
        Err(e) => {
            return Err(e);
        },
    };
    let (mut rest, end) = match parse_else_if_list(toks, j2) {
        Ok(t) => t,
        Err(e) => {
            return Err(e);
        },
    };
    let ghost rest0 = rest@;
    let ghost ev = else_if_view(ei);
    rest.insert(0, ei);
    proof {
        assert(rest@.drop_first() =~= rest0);
        assert(else_if_seq_view(rest@) =~= seq![ev] + else_if_seq_view(rest0));
    }
    Ok((rest, end))
}

impl InterpIf {
    /// `if` condition `{` group `}`, one else-if link per consecutive
    /// `else if` in source order, and an else branch exactly when a
    /// trailing `else` follows.
    pub fn parse(toks: &Vec<Tok>, i: usize) -> (r: Result<(InterpIf, usize), SyntaxError>)
        requires
            i <= toks@.len(),
        ensures
            (match r {
                Ok(t) => spec_parse_if(toks_view(toks@), i as int) == Some(
                    (if_view(t.0), t.1 as int),
                ) && i < t.1 <= toks@.len() && t.0.wf(),
                Err(_) => spec_parse_if(toks_view(toks@), i as int) is None,
            }),
        decreases toks@.len() - i, 8int,
    {
        proof {
            lemma_toks_view_len(toks@);
        }
        if !(i < toks.len() && (match tok_at(toks, i) {
            Tok::KwIf => true,
            _ => false,
        })) {
            return Err(err_at(i, "`if`"));
        }
        let (cond, j) = match parse_expr_run(toks, i + 1, ExprStop::Brace) {
            Ok(t) => t,
            Err(e) => {
                return Err(e);
            },
        };
        let (then_branch, j2) = match parse_braced_group(toks, j) {
            Ok(t) => t,
            Err(e) => {
                return Err(e);
            },
        };
        let (else_if, j3) = match parse_else_if_list(toks, j2) {
            Ok(t) => t,
            Err(e) => {
                return Err(e);
            },
        };
        let mut else_branch: Option<InterpElse> = None;
        let mut j4 = j3;
        if j3 < toks.len() {
            let has_else = match tok_at(toks, j3) {
                Tok::KwElse => true,
                _ => false,
            };
            if has_else {
                let (e, j5) = match InterpElse::parse(toks, j3) {
                    Ok(t) => t,
                    Err(e2) => {
                        return Err(e2);
                    },
                };
                else_branch = Some(e);
                j4 = j5;
            }
        }
        Ok((InterpIf { cond, then_branch, else_if, else_branch }, j4))
    }
}

impl InterpElseIf {
    /// `else if` condition `{` group `}`.
    pub fn parse(toks: &Vec<Tok>, i: usize) -> (r: Result<(InterpElseIf, usize), SyntaxError>)
        requires
            i <= toks@.len(),
        ensures
            (match r {
                Ok(t) => spec_parse_else_if(toks_view(toks@), i as int) == Some(
                    (else_if_view(t.0), t.1 as int),
                ) && i < t.1 <= toks@.len() && t.0.group.wf(),
                Err(_) => spec_parse_else_if(toks_view(toks@), i as int) is None,
            }),
        decreases toks@.len() - i, 8int,
    {
        let n = toks.len();
        if !is_else_if(toks, i) {
            return Err(err_at(i, "`else if`"));
        }
        proof {
            lemma_toks_view_len(toks@);
            assert(i + 2 <= n);
        }
        let (cond, j) = match parse_expr_run(toks, i + 2, ExprStop::Brace) {
            Ok(t) => t,
            Err(e) => {
                return Err(e);
            },
        };
        let (group, j2) = match parse_braced_group(toks, j) {
            Ok(t) => t,
            Err(e) => {
                return Err(e);
            },
        };
        Ok((InterpElseIf { cond, group }, j2))
    }
}

impl InterpElse {
    /// `else {` group `}`.
    pub fn parse(toks: &Vec<Tok>, i: usize) -> (r: Result<(InterpElse, usize), SyntaxError>)
        requires
            i <= toks@.len(),
        ensures
            (match r {
                Ok(t) => spec_parse_else(toks_view(toks@), i as int) == Some(
                    (else_view(t.0), t.1 as int),
                ) && i < t.1 <= toks@.len() && t.0.group.wf(),
                Err(_) => spec_parse_else(toks_view(toks@), i as int) is None,
            }),
        decreases toks@.len() - i, 8int,
    {
        proof {
            lemma_toks_view_len(toks@);
        }
        if !(i < toks.len() && (match tok_at(toks, i) {
            Tok::KwElse => true,
            _ => false,
        })) {
            return Err(err_at(i, "`else`"));
        }
        let (group, j) = match parse_braced_group(toks, i + 1) {
            Ok(t) => t,
            Err(e) => {
                return Err(e);
            },
        };
        Ok((InterpElse { group }, j))
    }
}

impl InterpFor {
    /// `for` pattern `in` iterable `{` group `}`.
    pub fn parse(toks: &Vec<Tok>, i: usize) -> (r: Result<(InterpFor, usize), SyntaxError>)
        requires
            i <= toks@.len(),
        ensures
            (match r {
                Ok(t) => spec_parse_for(toks_view(toks@), i as int) == Some(
                    (for_view(t.0), t.1 as int),
                ) && i < t.1 <= toks@.len() && t.0.wf(),
                Err(_) => spec_parse_for(toks_view(toks@), i as int) is None,
            }),
        decreases toks@.len() - i, 8int,
    {
        proof {
            lemma_toks_view_len(toks@);
        }
        if !(i < toks.len() && (match tok_at(toks, i) {
            Tok::KwFor => true,
            _ => false,
        })) {
            return Err(err_at(i, "`for`"));
        }
        let (pat, j) = match parse_expr_run(toks, i + 1, ExprStop::In) {
            Ok(t) => t,
            Err(e) => {
                return Err(e);
            },
        };
        if !(j < toks.len() && (match tok_at(toks, j) {
            Tok::KwIn => true,
            _ => false,
        })) {
            return Err(err_at(j, "`in`"));
        }
        let (expr, j2) = match parse_expr_run(toks, j + 1, ExprStop::Brace) {
            Ok(t) => t,
            Err(e) => {
                return Err(e);
            },
        };
        let (body, j3) = match parse_braced_group(toks, j2) {
            Ok(t) => t,
            Err(e) => {
                return Err(e);
            },
        };
        Ok((InterpFor { pat, expr, body }, j3))
    }
}

/// The match arms after the opening brace, through the closing brace.
fn parse_arm_list(toks: &Vec<Tok>, j: usize) -> (r: Result<(Vec<InterpArm>, usize), SyntaxError>)
    requires
        j <= toks@.len(),
    ensures
        (match r {
            Ok(t) => spec_parse_arm_list(toks_view(toks@), j as int) == Some(
                (arm_seq_view(t.0@), t.1 as int),
            ) && j < t.1 <= toks@.len() && arms_wf(t.0@),
            Err(_) => spec_parse_arm_list(toks_view(toks@), j as int) is None,
        }),
    decreases toks@.len() - j, 9int,
{
    proof {
        lemma_toks_view_len(toks@);
    }
    if j >= toks.len() {
        return Err(err_at(j, "a match arm or a closing brace"));
    }
    if is_rbrace(tok_at(toks, j)) {
        let v: Vec<InterpArm> = Vec::new();
        proof {
            assert(arm_seq_view(v@) =~= Seq::<InterpArmM>::empty());
        }
        return Ok((v, j + 1));
    }
    let (a, j2) = match InterpArm::parse(toks, j) {
        Ok(t) => t,
        Err(e) => {
            return Err(e);
        },
    };
    let (mut rest, end) = match parse_arm_list(toks, j2) {
        Ok(t) => t,
        Err(e) => {
            return Err(e);
        },
    };
    let ghost rest0 = rest@;
    let ghost av = arm_view(a);
    rest.insert(0, a);
    proof {
        assert(rest@.drop_first() =~= rest0);
        assert(arm_seq_view(rest@) =~= seq![av] + arm_seq_view(rest0));
    }
    Ok((rest, end))
}

impl InterpMatch {
    /// `match` scrutinee `{` arms `}`.
    pub fn parse(toks: &Vec<Tok>, i: usize) -> (r: Result<(InterpMatch, usize), SyntaxError>)
        requires
            i <= toks@.len(),
        ensures
            (match r {
                Ok(t) => spec_parse_match(toks_view(toks@), i as int) == Some(
                    (match_view(t.0), t.1 as int),
                ) && i < t.1 <= toks@.len() && t.0.wf(),
                Err(_) => spec_parse_match(toks_view(toks@), i as int) is None,
            }),
        decreases toks@.len() - i, 8int,
    {
        proof {
            lemma_toks_view_len(toks@);
        }
        if !(i < toks.len() && (match tok_at(toks, i) {
            Tok::KwMatch => true,
            _ => false,
        })) {
            return Err(err_at(i, "`match`"));
        }
        let (expr, j) = match parse_expr_run(toks, i + 1, ExprStop::Brace) {
            Ok(t) => t,
            Err(e) => {
                return Err(e);
            },
        };
        if !(j < toks.len() && is_lbrace(tok_at(toks, j))) {
            return Err(err_at(j, "a braced list of match arms"));
        }
        let (arms, j2) = match parse_arm_list(toks, j + 1) {
            Ok(t) => t,
            Err(e) => {
                return Err(e);
            },
        };
        Ok((InterpMatch { expr, arms }, j2))
    }
}

impl InterpArm {
    /// Pattern `=>` body, with an optional trailing comma.
    pub fn parse(toks: &Vec<Tok>, i: usize) -> (r: Result<(InterpArm, usize), SyntaxError>)
        requires
            i <= toks@.len(),
        ensures
            (match r {
                Ok(t) => spec_parse_arm(toks_view(toks@), i as int) == Some(
                    (arm_view(t.0), t.1 as int),
                ) && i < t.1 <= toks@.len() && t.0.wf(),
                Err(_) => spec_parse_arm(toks_view(toks@), i as int) is None,
            }),
        decreases toks@.len() - i, 8int,
    {
        proof {
            lemma_toks_view_len(toks@);
        }
        let (pat, j) = match parse_expr_run(toks, i, ExprStop::Arrow) {
            Ok(t) => t,
            Err(e) => {
                return Err(e);
            },
        };
        if !(j < toks.len() && (match tok_at(toks, j) {
            Tok::FatArrow => true,
            _ => false,
        })) {
            return Err(err_at(j, "`=>`"));
        }
        let (e, j2) = match InterpArmExpr::parse(toks, j + 1) {
            Ok(t) => t,
            Err(e2) => {
                return Err(e2);
            },
        };
        let mut j3 = j2;
        if j2 < toks.len() {
            let comma = match tok_at(toks, j2) {
                Tok::Comma => true,
                _ => false,
            };
            if comma {
                j3 = j2 + 1;
            }
        }
        Ok((InterpArm { pat, expr: e }, j3))
    }
}

impl InterpArmExpr {
    /// A braced group, or a bare string literal as shorthand: an arm body
    /// admits only these two forms, and anything else is an immediate
    /// error naming them.
    pub fn parse(toks: &Vec<Tok>, i: usize) -> (r: Result<(InterpArmExpr, usize), SyntaxError>)
        requires
            i <= toks@.len(),
        ensures
            (match r {
                Ok(t) => spec_parse_arm_expr(toks_view(toks@), i as int) == Some(
                    (arm_expr_view(t.0), t.1 as int),
                ) && i < t.1 <= toks@.len() && t.0.wf(),
                Err(_) => spec_parse_arm_expr(toks_view(toks@), i as int) is None,
            }),
            (i >= toks@.len() || (!(toks_view(toks@)[i as int] matches TokM::LBrace) && !(
            toks_view(toks@)[i as int] matches TokM::LitStr(_)))) ==> (r matches Err(e) && e.pos
                == i && e.expected@ == "a braced group or a string literal"@),
        decreases toks@.len() - i, 8int,
    {
        proof {
            lemma_toks_view_len(toks@);
        }
        if i >= toks.len() {
            return Err(err_at(i, "a braced group or a string literal"));
        }
        match tok_at(toks, i) {
            Tok::LBrace => {
                match InterpArmGroup::parse(toks, i) {
                    Ok((g, j)) => Ok((InterpArmExpr::Group(g), j)),
                    Err(e) => Err(e),
                }
            },
            Tok::LitStr(s) => Ok((InterpArmExpr::Literal(s.clone()), i + 1)),
            _ => Err(err_at(i, "a braced group or a string literal")),
        }
    }
}

impl InterpArmGroup {
    /// `{` group `}`.
    pub fn parse(toks: &Vec<Tok>, i: usize) -> (r: Result<(InterpArmGroup, usize), SyntaxError>)
        requires
            i <= toks@.len(),
        ensures
            (match r {
                Ok(t) => spec_parse_arm_group(toks_view(toks@), i as int) == Some(
                    (arm_group_view(t.0), t.1 as int),
                ) && i < t.1 <= toks@.len() && t.0.group.wf(),
                Err(_) => spec_parse_arm_group(toks_view(toks@), i as int) is None,
            }),
        decreases toks@.len() - i, 7int,
    {
        let (group, j) = match parse_braced_group(toks, i) {
            Ok(t) => t,
            Err(e) => {
                return Err(e);
            },
        };
        Ok((InterpArmGroup { group }, j))
    }
}

} // verus!
