//! A compiler for a terse, HTML-oriented templating language.
//!
//! Template source text is parsed into an abstract syntax tree and compiled
//! into an ordered program of output instructions.  All statically known text
//! is escaped once, at compile time, and contiguous static content is merged
//! into a single flush instruction; dynamic values are written at render time
//! through the rendering capability in [`render`].

use vstd::prelude::*;

pub mod ast;
pub mod escape;
pub mod generate;
pub mod lex;
pub mod parse;
pub mod render;

pub use render::{Attr, Html, Raw, raw};

use ast::{Group, GroupM, group_view};
use generate::{
    Op, all_flushes, flush_text, lemma_all_flushes_index, lemma_ops_view_index,
    lemma_ops_view_len, op_view, ops_view, program_of,
};
use lex::{SyntaxError, err_at, lex, lemma_toks_view_len, spec_lex};
use parse::spec_parse_group;
use vstd::string::StringExecFns;

verus! {

/// One compiled template: its syntax tree and its output program.
#[derive(Debug)]
pub struct Template {
    pub ast: Group,
    pub program: Vec<Op>,
}

impl Template {
    /// Renders a fully static program: each flush instruction's text,
    /// appended verbatim and in order, byte for byte the concatenation of
    /// the instruction sequence.  A program with any dynamic instruction
    /// is refused and the buffer is left untouched; rendering it needs the
    /// host's runtime values.
    #[verifier::loop_isolation(false)]
    pub fn render_static(&self, out: &mut String) -> (r: bool)
        ensures
            r == all_flushes(ops_view(self.program@)),
            r ==> final(out)@ == old(out)@ + flush_text(ops_view(self.program@)),
            !r ==> final(out)@ == old(out)@,
    {
        let n = self.program.len();
        for i in 0..n
            invariant
                all_flushes(ops_view(self.program@.take(i as int))),
        {
            proof {
                lemma_take_push(self.program@, i as int);
            }
            match &self.program[i] {
                Op::Flush(_) => {
                    proof {
                        let v = ops_view(self.program@.take(i as int)).push(
                            op_view(self.program@[i as int]),
                        );
                        assert(v.drop_last() =~= ops_view(self.program@.take(i as int)));
                        assert(all_flushes(ops_view(self.program@.take(i + 1))));
                    }
                },
                _ => {
                    proof {
                        lemma_all_flushes_prefix(self.program@, i as int);
                    }
                    return false;
                },
            }
        }
        proof {
            assert(self.program@.take(n as int) =~= self.program@);
        }
        for i in 0..n
            invariant
                all_flushes(ops_view(self.program@)),
                out@ == old(out)@ + flush_text(ops_view(self.program@.take(i as int))),
        {
            proof {
                lemma_take_push(self.program@, i as int);
                lemma_ops_view_len(self.program@);
                lemma_ops_view_index(self.program@, i as int);
                lemma_all_flushes_index(ops_view(self.program@), i as int);
            }
            match &self.program[i] {
                Op::Flush(t) => {
                    out.append(t.as_str());
                    proof {
                        let v = ops_view(self.program@.take(i as int)).push(
                            op_view(self.program@[i as int]),
                        );
                        assert(v.drop_last() =~= ops_view(self.program@.take(i as int)));
                        assert(out@ =~= old(out)@ + flush_text(
                            ops_view(self.program@.take(i + 1)),
                        ));
                    }
                },
                _ => {
                    proof {
                        assert(false);
                    }
                },
            }
        }
        proof {
            assert(self.program@.take(n as int) =~= self.program@);
        }
        true
    }
}

/// The instruction view of one more program element: taking one further
/// instruction appends its model.
proof fn lemma_take_push(ops: Seq<Op>, i: int)
    requires
        0 <= i < ops.len(),
    ensures
        ops_view(ops.take(i + 1)) == ops_view(ops.take(i)).push(op_view(ops[i])),
{
    assert(ops.take(i + 1).drop_last() =~= ops.take(i));
    assert(ops.take(i + 1).last() == ops[i]);
}

/// A program with a non-flush instruction at any position is not all
/// flushes.
proof fn lemma_all_flushes_prefix(ops: Seq<Op>, i: int)
    requires
        0 <= i < ops.len(),
        !(ops[i] matches Op::Flush(_)),
    ensures
        !all_flushes(ops_view(ops)),
{
    lemma_ops_view_len(ops);
    lemma_ops_view_index(ops, i);
    if all_flushes(ops_view(ops)) {
        lemma_all_flushes_index(ops_view(ops), i);
    }
}

/// What one template's source text compiles to: its tokens by
/// [`spec_lex`], parsed as one whole group by [`spec_parse_group`] — and
/// nothing at all when tokenization fails, when parsing fails, or when
/// parsing stops short of the end of the input.
pub open spec fn spec_html(src: Seq<char>) -> Option<GroupM> {
    match spec_lex(src) {
        Some(tm) => match spec_parse_group(tm, 0) {
            Some(t) => if t.1 == tm.len() {
                Some(t.0)
            } else {
                None
            },
            None => None,
        },
        None => None,
    }
}

/// Compile one template: tokenize the source text, parse it, and generate
/// the output program.  The result is a function of the source text alone:
/// on success the syntax tree is exactly what [`spec_html`] gives for this
/// text and the program is that tree's [`program_of`]; the first grammar
/// mismatch aborts the whole compilation with a [`SyntaxError`], exactly
/// when [`spec_html`] gives nothing — never a partial or best-effort
/// program.
pub fn html(src: &str) -> (r: Result<Template, SyntaxError>)
    ensures
        (match r {
            Ok(t) => spec_html(src@) == Some(group_view(t.ast)) && t.ast.wf() && ops_view(
                t.program@,
            ) == program_of(t.ast),
            Err(_) => spec_html(src@) is None,
        }),
{
    let toks = match lex(src) {
        Ok(t) => t,
        Err(e) => {
            return Err(e);
        },
    };
    proof {
        lemma_toks_view_len(toks@);
    }
    let (ast, j) = match Group::parse(&toks, 0) {
        Ok(t) => t,
        Err(e) => {
            return Err(e);
        },
    };
    if j != toks.len() {
        return Err(err_at(j, "a string literal, an identifier, or `@`"));
    }
    let program = ast.to_program();
    Ok(Template { ast, program })
}

} // verus!
