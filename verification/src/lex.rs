//! The tokenizer: template source text to the token stream the parser
//! consumes.
//!
//! Identifiers, string literals, digit runs, keywords and punctuation
//! become one token each; the two-character `=>` is one token.  Whitespace
//! separates tokens and is otherwise dropped.  String literals accept the
//! escapes `\"`, `\\`, `\n`, `\t`, `\r`, `\0` and `\'`; the numbered forms
//! `\xNN` and `\u{…}` are deliberately not part of this grammar, so that a
//! literal's meaning is plain from its characters alone — any other
//! escape is a syntax error at its position.
//!
//! [`spec_lex`] is the tokenizer's definition; [`lex`] returns exactly its
//! result, token for token, and an error precisely when it has none.

use vstd::prelude::*;
use vstd::string::StringExecFns;
use vstd::string::StrSliceExecFns;

use crate::escape::string_push;

verus! {

/// One token of template source.
#[derive(Debug, PartialEq, Eq)]
pub enum Tok {
    Ident(String),
    LitStr(String),
    LitInt(String),
    KwIf,
    KwElse,
    KwMatch,
    KwFor,
    KwIn,
    True,
    False,
    LBrace,
    RBrace,
    LBracket,
    RBracket,
    LParen,
    RParen,
    Semi,
    Comma,
    Eq,
    At,
    FatArrow,
    Punct(char),
}

/// The mathematical form of one token, over sequences of characters.
#[verifier::ext_equal]
pub enum TokM {
    Ident(Seq<char>),
    LitStr(Seq<char>),
    LitInt(Seq<char>),
    KwIf,
    KwElse,
    KwMatch,
    KwFor,
    KwIn,
    True,
    False,
    LBrace,
    RBrace,
    LBracket,
    RBracket,
    LParen,
    RParen,
    Semi,
    Comma,
    Eq,
    At,
    FatArrow,
    Punct(char),
}

impl View for Tok {
    type V = TokM;

    open spec fn view(&self) -> TokM {
        match self {
            Tok::Ident(s) => TokM::Ident(s@),
            Tok::LitStr(s) => TokM::LitStr(s@),
            Tok::LitInt(s) => TokM::LitInt(s@),
            Tok::KwIf => TokM::KwIf,
            Tok::KwElse => TokM::KwElse,
            Tok::KwMatch => TokM::KwMatch,
            Tok::KwFor => TokM::KwFor,
            Tok::KwIn => TokM::KwIn,
            Tok::True => TokM::True,
            Tok::False => TokM::False,
            Tok::LBrace => TokM::LBrace,
            Tok::RBrace => TokM::RBrace,
            Tok::LBracket => TokM::LBracket,
            Tok::RBracket => TokM::RBracket,
            Tok::LParen => TokM::LParen,
            Tok::RParen => TokM::RParen,
            Tok::Semi => TokM::Semi,
            Tok::Comma => TokM::Comma,
            Tok::Eq => TokM::Eq,
            Tok::At => TokM::At,
            Tok::FatArrow => TokM::FatArrow,
            Tok::Punct(c) => TokM::Punct(*c),
        }
    }
}

/// The sequence of token models of a token sequence.
pub open spec fn toks_view(s: Seq<Tok>) -> Seq<TokM>
    decreases s,
{
    if s.len() == 0 {
        Seq::empty()
    } else {
        seq![s[0]@] + toks_view(s.drop_first())
    }
}

pub proof fn lemma_toks_view_len(s: Seq<Tok>)
    ensures
        toks_view(s).len() == s.len(),
    decreases s,
{
    if s.len() > 0 {
        lemma_toks_view_len(s.drop_first());
    }
}

pub proof fn lemma_toks_view_index(s: Seq<Tok>, i: int)
    requires
        0 <= i < s.len(),
    ensures
        toks_view(s).len() == s.len(),
        toks_view(s)[i] == s[i]@,
    decreases s,
{
    lemma_toks_view_len(s);
    if i > 0 {
        lemma_toks_view_index(s.drop_first(), i - 1);
    }
}

/// A grammar mismatch: the position of the unexpected input and a
/// description of what would have been acceptable there.  The tokenizer
/// reports character positions; the parser reports token positions.
#[derive(Debug)]
pub struct SyntaxError {
    pub pos: usize,
    pub expected: String,
}

/// Builds the error for one position, with the description of what was
/// acceptable there.
pub fn err_at(pos: usize, expected: &str) -> (r: SyntaxError)
    ensures
        r.pos == pos,
        r.expected@ == expected@,
{
    SyntaxError { pos, expected: String::from_str(expected) }
}

/// An ASCII letter or underscore: the start of an identifier.
pub open spec fn is_ident_start_spec(c: char) -> bool {
    (97 <= c as u32 <= 122) || (65 <= c as u32 <= 90) || c == '_'
}

fn is_ident_start(c: char) -> (r: bool)
    ensures
        r == is_ident_start_spec(c),
{
    let u = c as u32;
    (97 <= u && u <= 122) || (65 <= u && u <= 90) || c == '_'
}

/// A letter, digit or underscore: the continuation of an identifier.
pub open spec fn is_ident_continue_spec(c: char) -> bool {
    (97 <= c as u32 <= 122) || (65 <= c as u32 <= 90) || (48 <= c as u32 <= 57) || c == '_'
}

fn is_ident_continue(c: char) -> (r: bool)
    ensures
        r == is_ident_continue_spec(c),
{
    let u = c as u32;
    (97 <= u && u <= 122) || (65 <= u && u <= 90) || (48 <= u && u <= 57) || c == '_'
}

pub open spec fn is_digit_spec(c: char) -> bool {
    48 <= c as u32 <= 57
}

fn is_digit(c: char) -> (r: bool)
    ensures
        r == is_digit_spec(c),
{
    let u = c as u32;
    48 <= u && u <= 57
}

pub open spec fn is_space_spec(c: char) -> bool {
    c == ' ' || c == '\t' || c == '\n' || c == '\r'
}

fn is_space(c: char) -> (r: bool)
    ensures
        r == is_space_spec(c),
{
    c == ' ' || c == '\t' || c == '\n' || c == '\r'
}

/// True when the string holds exactly the other's characters.
fn text_eq(a: &String, b: &str) -> (r: bool)
    ensures
        r == (a@ == b@),
{
    let bs = String::from_str(b);
    *a == bs
}

/// The character a string escape stands for, or nothing for an escape the
/// grammar does not accept.
pub open spec fn escape_of(c: char) -> Option<char> {
    if c == '"' {
        Some('"')
    } else if c == '\\' {
        Some('\\')
    } else if c == 'n' {
        Some('\n')
    } else if c == 't' {
        Some('\t')
    } else if c == 'r' {
        Some('\r')
    } else if c == '0' {
        Some('\0')
    } else if c == '\'' {
        Some('\'')
    } else {
        None
    }
}

/// The contents of a string literal from just after its opening quote: the
/// decoded characters and the position after the closing quote, or nothing
/// when the literal never closes or holds an unknown escape.
pub open spec fn spec_scan_str(s: Seq<char>, i: int) -> Option<(Seq<char>, int)>
    decreases s.len() - i,
{
    if !(0 <= i < s.len()) {
        None
    } else if s[i] == '"' {
        Some((Seq::empty(), i + 1))
    } else if s[i] == '\\' {
        if i + 1 < s.len() {
            match escape_of(s[i + 1]) {
                Some(e) => match spec_scan_str(s, i + 2) {
                    Some(t) => Some((seq![e] + t.0, t.1)),
                    None => None,
                },
                None => None,
            }
        } else {
            None
        }
    } else {
        match spec_scan_str(s, i + 1) {
            Some(t) => Some((seq![s[i]] + t.0, t.1)),
            None => None,
        }
    }
}

/// The end of the identifier-continuation run starting at `i`.
pub open spec fn spec_ident_end(s: Seq<char>, i: int) -> int
    decreases s.len() - i,
{
    if 0 <= i < s.len() && is_ident_continue_spec(s[i]) {
        spec_ident_end(s, i + 1)
    } else {
        i
    }
}

/// The end of the digit run starting at `i`.
pub open spec fn spec_digit_end(s: Seq<char>, i: int) -> int
    decreases s.len() - i,
{
    if 0 <= i < s.len() && is_digit_spec(s[i]) {
        spec_digit_end(s, i + 1)
    } else {
        i
    }
}

/// An identifier's token: one of the five keywords, a boolean literal, or
/// a plain identifier.
pub open spec fn classify_word(t: Seq<char>) -> TokM {
    if t == "if"@ {
        TokM::KwIf
    } else if t == "else"@ {
        TokM::KwElse
    } else if t == "match"@ {
        TokM::KwMatch
    } else if t == "for"@ {
        TokM::KwFor
    } else if t == "in"@ {
        TokM::KwIn
    } else if t == "true"@ {
        TokM::True
    } else if t == "false"@ {
        TokM::False
    } else {
        TokM::Ident(t)
    }
}

/// A punctuation character's token.
pub open spec fn punct_tok(c: char) -> TokM {
    if c == '{' {
        TokM::LBrace
    } else if c == '}' {
        TokM::RBrace
    } else if c == '[' {
        TokM::LBracket
    } else if c == ']' {
        TokM::RBracket
    } else if c == '(' {
        TokM::LParen
    } else if c == ')' {
        TokM::RParen
    } else if c == ';' {
        TokM::Semi
    } else if c == ',' {
        TokM::Comma
    } else if c == '@' {
        TokM::At
    } else {
        TokM::Punct(c)
    }
}

pub open spec fn cons_tok(t: TokM, rest: Option<Seq<TokM>>) -> Option<Seq<TokM>> {
    match rest {
        Some(r) => Some(seq![t] + r),
        None => None,
    }
}

/// The tokens of the source text from position `i` on: the tokenizer's
/// definition.  `None` is the error case — an unterminated string literal
/// or an unknown escape.
pub open spec fn spec_lex_from(s: Seq<char>, i: int) -> Option<Seq<TokM>>
    decreases s.len() - i,
{
    if !(0 <= i < s.len()) {
        Some(Seq::empty())
    } else {
        let c = s[i];
        if is_space_spec(c) {
            spec_lex_from(s, i + 1)
        } else if c == '"' {
            match spec_scan_str(s, i + 1) {
                Some(t) => if i < t.1 <= s.len() {
                    cons_tok(TokM::LitStr(t.0), spec_lex_from(s, t.1))
                } else {
                    None
                },
                None => None,
            }
        } else if is_ident_start_spec(c) {
            let j = spec_ident_end(s, i + 1);
            if i < j <= s.len() {
                cons_tok(classify_word(seq![c] + s.subrange(i + 1, j)), spec_lex_from(s, j))
            } else {
                None
            }
        } else if is_digit_spec(c) {
            let j = spec_digit_end(s, i + 1);
            if i < j <= s.len() {
                cons_tok(TokM::LitInt(seq![c] + s.subrange(i + 1, j)), spec_lex_from(s, j))
            } else {
                None
            }
        } else if c == '=' {
            if i + 1 < s.len() && s[i + 1] == '>' {
                cons_tok(TokM::FatArrow, spec_lex_from(s, i + 2))
            } else {
                cons_tok(TokM::Eq, spec_lex_from(s, i + 1))
            }
        } else {
            cons_tok(punct_tok(c), spec_lex_from(s, i + 1))
        }
    }
}

/// The whole source text's tokens, or nothing on ill-formed input.
pub open spec fn spec_lex(s: Seq<char>) -> Option<Seq<TokM>> {
    spec_lex_from(s, 0)
}

/// The run ends of the scanning spec functions never move backwards and
/// never pass the end of the text.
proof fn lemma_ident_end_bounds(s: Seq<char>, i: int)
    requires
        0 <= i <= s.len(),
    ensures
        i <= spec_ident_end(s, i) <= s.len(),
    decreases s.len() - i,
{
    if i < s.len() && is_ident_continue_spec(s[i]) {
        lemma_ident_end_bounds(s, i + 1);
    }
}

proof fn lemma_digit_end_bounds(s: Seq<char>, i: int)
    requires
        0 <= i <= s.len(),
    ensures
        i <= spec_digit_end(s, i) <= s.len(),
    decreases s.len() - i,
{
    if i < s.len() && is_digit_spec(s[i]) {
        lemma_digit_end_bounds(s, i + 1);
    }
}

/// The decoded contents of one string literal, scanned from just after
/// its opening quote: exactly [`spec_scan_str`]'s result, or an error at
/// the offending position exactly when it has none.
#[verifier::loop_isolation(false)]
fn scan_str(src: &str, start: usize) -> (r: Result<(String, usize), SyntaxError>)
    requires
        start <= src@.len(),
    ensures
        (match r {
            Ok(t) => spec_scan_str(src@, start as int) == Some((t.0@, t.1 as int)) && start < t.1
                <= src@.len(),
            Err(e) => spec_scan_str(src@, start as int) is None && e.pos <= src@.len(),
        }),
    decreases src@.len() - start,
{
    let n = src.unicode_len();
    if start >= n {
        return Err(err_at(n, "a closing double quote"));
    }
    let ch = src.get_char(start);
    if ch == '"' {
        let t = String::new();
        return Ok((t, start + 1));
    }
    if ch == '\\' {
        if start + 1 < n {
            let e = src.get_char(start + 1);
            let dec: char;
            if e == '"' {
                dec = '"';
            } else if e == '\\' {
                dec = '\\';
            } else if e == 'n' {
                dec = '\n';
            } else if e == 't' {
                dec = '\t';
            } else if e == 'r' {
                dec = '\r';
            } else if e == '0' {
                dec = '\0';
            } else if e == '\'' {
                dec = '\'';
            } else {
                return Err(err_at(start + 1, "a string escape: quote, backslash, n, t, r, 0 or '"));
            }
            let (rest, end) = match scan_str(src, start + 2) {
                Ok(t) => t,
                Err(e2) => {
                    return Err(e2);
                },
            };
            let mut t = String::new();
            string_push(&mut t, dec);
            t.append(rest.as_str());
            proof {
                assert(t@ =~= seq![dec] + rest@);
            }
            return Ok((t, end));
        }
        return Err(err_at(n, "a string escape: quote, backslash, n, t, r, 0 or '"));
    }
    let (rest, end) = match scan_str(src, start + 1) {
        Ok(t) => t,
        Err(e2) => {
            return Err(e2);
        },
    };
    let mut t = String::new();
    string_push(&mut t, ch);
    t.append(rest.as_str());
    proof {
        assert(t@ =~= seq![ch] + rest@);
    }
    Ok((t, end))
}

/// The identifier-continuation run from `start`: its text and its end.
#[verifier::loop_isolation(false)]
fn scan_ident(src: &str, start: usize) -> (r: (String, usize))
    requires
        start <= src@.len(),
    ensures
        r.1 == spec_ident_end(src@, start as int),
        start <= r.1 <= src@.len(),
        r.0@ == src@.subrange(start as int, r.1 as int),
{
    let n = src.unicode_len();
    let mut i = start;
    let mut text = String::new();
    while i < n && is_ident_continue(src.get_char(i))
        invariant
            n == src@.len(),
            start <= i <= n,
            text@ == src@.subrange(start as int, i as int),
            spec_ident_end(src@, start as int) == spec_ident_end(src@, i as int),
        decreases n - i,
    {
        string_push(&mut text, src.get_char(i));
        proof {
            assert(src@.subrange(start as int, i as int).push(src@[i as int]) =~= src@.subrange(
                start as int,
                i + 1,
            ));
        }
        i = i + 1;
    }
    proof {
        assert(spec_ident_end(src@, i as int) == i as int);
    }
    (text, i)
}

/// The digit run from `start`: its text and its end.
#[verifier::loop_isolation(false)]
fn scan_digits(src: &str, start: usize) -> (r: (String, usize))
    requires
        start <= src@.len(),
    ensures
        r.1 == spec_digit_end(src@, start as int),
        start <= r.1 <= src@.len(),
        r.0@ == src@.subrange(start as int, r.1 as int),
{
    let n = src.unicode_len();
    let mut i = start;
    let mut text = String::new();
    while i < n && is_digit(src.get_char(i))
        invariant
            n == src@.len(),
            start <= i <= n,
            text@ == src@.subrange(start as int, i as int),
            spec_digit_end(src@, start as int) == spec_digit_end(src@, i as int),
        decreases n - i,
    {
        string_push(&mut text, src.get_char(i));
        proof {
            assert(src@.subrange(start as int, i as int).push(src@[i as int]) =~= src@.subrange(
                start as int,
                i + 1,
            ));
        }
        i = i + 1;
    }
    proof {
        assert(spec_digit_end(src@, i as int) == i as int);
    }
    (text, i)
}

/// The tokens from position `i` on: exactly [`spec_lex_from`]'s result,
/// or an error exactly when it has none.
fn lex_from(src: &str, i: usize) -> (r: Result<Vec<Tok>, SyntaxError>)
    requires
        i <= src@.len(),
    ensures
        (match r {
            Ok(t) => spec_lex_from(src@, i as int) == Some(toks_view(t@)),
            Err(e) => spec_lex_from(src@, i as int) is None && e.pos <= src@.len(),
        }),
    decreases src@.len() - i,
{
    let n = src.unicode_len();
    if i >= n {
        let r: Vec<Tok> = Vec::new();
        proof {
            assert(spec_lex_from(src@, i as int) == Some(toks_view(r@)));
        }
        return Ok(r);
    }
    let c = src.get_char(i);
    if is_space(c) {
        return lex_from(src, i + 1);
    }
    let tok: Tok;
    let next: usize;
    if c == '"' {
        let (text, end) = match scan_str(src, i + 1) {
            Ok(t) => t,
            Err(e) => {
                return Err(e);
            },
        };
        tok = Tok::LitStr(text);
        next = end;
    } else if is_ident_start(c) {
        let (rest, end) = scan_ident(src, i + 1);
        let mut text = String::new();
        string_push(&mut text, c);
        text.append(rest.as_str());
        proof {
            assert(text@ =~= seq![c] + src@.subrange(i + 1, end as int));
            lemma_ident_end_bounds(src@, i + 1);
        }
        if text_eq(&text, "if") {
            tok = Tok::KwIf;
        } else if text_eq(&text, "else") {
            tok = Tok::KwElse;
        } else if text_eq(&text, "match") {
            tok = Tok::KwMatch;
        } else if text_eq(&text, "for") {
            tok = Tok::KwFor;
        } else if text_eq(&text, "in") {
            tok = Tok::KwIn;
        } else if text_eq(&text, "true") {
            tok = Tok::True;
        } else if text_eq(&text, "false") {
            tok = Tok::False;
        } else {
            tok = Tok::Ident(text);
        }
        next = end;
    } else if is_digit(c) {
        let (rest, end) = scan_digits(src, i + 1);
        let mut text = String::new();
        string_push(&mut text, c);
        text.append(rest.as_str());
        proof {
            assert(text@ =~= seq![c] + src@.subrange(i + 1, end as int));
            lemma_digit_end_bounds(src@, i + 1);
        }
        tok = Tok::LitInt(text);
        next = end;
    } else if c == '=' {
        if i + 1 < n && src.get_char(i + 1) == '>' {
            tok = Tok::FatArrow;
            next = i + 2;
        } else {
            tok = Tok::Eq;
            next = i + 1;
        }
    } else {
        tok = if c == '{' {
            Tok::LBrace
        } else if c == '}' {
            Tok::RBrace
        } else if c == '[' {
            Tok::LBracket
        } else if c == ']' {
            Tok::RBracket
        } else if c == '(' {
            Tok::LParen
        } else if c == ')' {
            Tok::RParen
        } else if c == ';' {
            Tok::Semi
        } else if c == ',' {
            Tok::Comma
        } else if c == '@' {
            Tok::At
        } else {
            Tok::Punct(c)
        };
        next = i + 1;
    }
    let mut rest = match lex_from(src, next) {
        Ok(t) => t,
        Err(e) => {
            return Err(e);
        },
    };
    let ghost rest0 = rest@;
    rest.insert(0, tok);
    proof {
        assert(rest@ =~= seq![tok] + rest0);
        assert(rest@.drop_first() =~= rest0);
        assert(toks_view(rest@) =~= seq![tok@] + toks_view(rest0));
    }
    Ok(rest)
}

/// Tokenize one template's source text: exactly [`spec_lex`]'s tokens,
/// or an error — at the offending character position — precisely on the
/// input [`spec_lex`] refuses (an unterminated string literal, an unknown
/// escape).
pub fn lex(src: &str) -> (r: Result<Vec<Tok>, SyntaxError>)
    ensures
        (match r {
            Ok(t) => spec_lex(src@) == Some(toks_view(t@)),
            Err(e) => spec_lex(src@) is None && e.pos <= src@.len(),
        }),
{
    lex_from(src, 0)
}

} // verus!
