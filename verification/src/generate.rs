//! The code generator and its output stream.
//!
//! A template compiles to an ordered program of output instructions.  The
//! generator keeps a growable buffer of pending literal text: all statically
//! known output (tag punctuation, literal names, literal attribute values,
//! literal text, already escaped) is appended there, and only when a dynamic
//! instruction must be emitted is the buffer flushed as one verbatim write.
//! A fully static template therefore compiles to a single flush.

use vstd::prelude::*;
use vstd::string::StringExecFns;
use vstd::string::StrSliceExecFns;

use crate::ast::{
    Attr, AttrValue, Attrs, Element, Expr, Group, Interp, InterpArm, InterpArmExpr, InterpArmGroup,
    InterpElse, InterpElseIf, InterpFor, InterpIf, InterpMatch, InterpValue, Name, Node, Normal,
    Void,
};
use crate::escape::{esc, string_push};

verus! {

/// One output instruction.
///
/// `Flush` writes its already escaped text verbatim.  `Write` and
/// `WriteAttr` write a dynamic value (an opaque host expression) at render
/// time, escaped by the rendering capability.  The header instructions
/// carry a control-flow header verbatim, and `Block` is a nested program
/// generated with its own locally optimal literal merging.
#[derive(Debug, PartialEq, Eq)]
pub enum Op {
    Flush(String),
    Write(String),
    WriteAttr(String, String),
    IfHeader(String),
    ElseIfHeader(String),
    ElseHeader,
    MatchHeader(String),
    ArmHeader(String),
    ForHeader(String, String),
    Block(Vec<Op>),
}

/// The mathematical form of one instruction, over sequences of characters.
#[verifier::ext_equal]
pub enum OpModel {
    Flush(Seq<char>),
    Write(Seq<char>),
    WriteAttr(Seq<char>, Seq<char>),
    IfHeader(Seq<char>),
    ElseIfHeader(Seq<char>),
    ElseHeader,
    MatchHeader(Seq<char>),
    ArmHeader(Seq<char>),
    ForHeader(Seq<char>, Seq<char>),
    Block(Seq<OpModel>),
}

pub open spec fn op_view(op: Op) -> OpModel
    decreases op, 0int,
{
    match op {
        Op::Flush(s) => OpModel::Flush(s@),
        Op::Write(s) => OpModel::Write(s@),
        Op::WriteAttr(n, v) => OpModel::WriteAttr(n@, v@),
        Op::IfHeader(c) => OpModel::IfHeader(c@),
        Op::ElseIfHeader(c) => OpModel::ElseIfHeader(c@),
        Op::ElseHeader => OpModel::ElseHeader,
        Op::MatchHeader(e) => OpModel::MatchHeader(e@),
        Op::ArmHeader(p) => OpModel::ArmHeader(p@),
        Op::ForHeader(p, e) => OpModel::ForHeader(p@, e@),
        Op::Block(v) => OpModel::Block(ops_view(v@)),
    }
}

pub open spec fn ops_view(s: Seq<Op>) -> Seq<OpModel>
    decreases s, 1int,
{
    if s.len() == 0 {
        Seq::empty()
    } else {
        ops_view(s.drop_last()).push(op_view(s.last()))
    }
}

pub proof fn lemma_ops_view_push(s: Seq<Op>, op: Op)
    ensures
        ops_view(s.push(op)) == ops_view(s).push(op_view(op)),
{
    assert(s.push(op).drop_last() =~= s);
    assert(s.push(op).last() == op);
}

pub proof fn lemma_ops_view_len(s: Seq<Op>)
    ensures
        ops_view(s).len() == s.len(),
    decreases s,
{
    if s.len() > 0 {
        lemma_ops_view_len(s.drop_last());
    }
}

pub proof fn lemma_ops_view_index(s: Seq<Op>, i: int)
    requires
        0 <= i < s.len(),
    ensures
        ops_view(s)[i] == op_view(s[i]),
    decreases s,
{
    lemma_ops_view_len(s.drop_last());
    if i < s.len() - 1 {
        lemma_ops_view_index(s.drop_last(), i);
    }
}

pub proof fn lemma_ops_view_empty()
    ensures
        ops_view(Seq::<Op>::empty()) == Seq::<OpModel>::empty(),
{
}

/// The state of one output stream: the pending literal buffer and the
/// instructions emitted so far.
#[verifier::ext_equal]
pub struct StModel {
    pub buf: Seq<char>,
    pub ops: Seq<OpModel>,
}

/// A fresh stream: nothing pending, nothing emitted.
pub open spec fn st_empty() -> StModel {
    StModel { buf: Seq::empty(), ops: Seq::empty() }
}

/// Static text is appended to the pending buffer; no instruction is emitted.
pub open spec fn st_text(st: StModel, t: Seq<char>) -> StModel {
    StModel { buf: st.buf + t, ops: st.ops }
}

/// The emitted instructions once the pending buffer is flushed: a non-empty
/// buffer becomes one verbatim flush instruction.
pub open spec fn st_finish(st: StModel) -> Seq<OpModel> {
    if st.buf.len() == 0 {
        st.ops
    } else {
        st.ops.push(OpModel::Flush(st.buf))
    }
}

/// A dynamic instruction: flush the pending buffer, then emit it.
pub open spec fn st_op(st: StModel, op: OpModel) -> StModel {
    StModel { buf: Seq::empty(), ops: st_finish(st).push(op) }
}

/// The plain text of a tag or attribute name.  Names are resolved at
/// generation time and written without escaping.
pub open spec fn name_text(n: Name) -> Seq<char> {
    match n {
        Name::Lit(s) => s@,
        Name::Ident(s) => s@,
    }
}

/// The verbatim text of a boolean literal.
pub open spec fn bool_text(b: bool) -> Seq<char> {
    if b {
        seq!['t', 'r', 'u', 'e']
    } else {
        seq!['f', 'a', 'l', 's', 'e']
    }
}

/// What generating a group does to a stream: each node in order.
pub open spec fn gen_group(g: Group, st: StModel) -> StModel
    decreases g,
{
    gen_nodes(g.nodes@, st)
}

pub open spec fn gen_nodes(ns: Seq<Node>, st: StModel) -> StModel
    decreases ns,
{
    if ns.len() == 0 {
        st
    } else {
        gen_node(ns.last(), gen_nodes(ns.drop_last(), st))
    }
}

pub open spec fn gen_node(n: Node, st: StModel) -> StModel
    decreases n,
{
    match n {
        Node::Element(e) => gen_element(e, st),
        Node::Interp(ip) => gen_interp(ip, st),
        Node::Literal(s) => st_text(st, esc(s@)),
    }
}

pub open spec fn gen_element(e: Element, st: StModel) -> StModel
    decreases e,
{
    match e {
        Element::Normal(n) => gen_normal(n, st),
        Element::Void(v) => gen_void(v, st),
    }
}

/// A normal element: `<`, name, attributes, `>`, the children, `</`, name,
/// `>`.  All literal parts are buffered; only the children may flush.
pub open spec fn gen_normal(n: Normal, st: StModel) -> StModel
    decreases n,
{
    let st1 = st_text(st, seq!['<']);
    let st2 = st_text(st1, name_text(n.name));
    let st3 = match n.attrs {
        Some(a) => gen_attrs(a, st2),
        None => st2,
    };
    let st4 = st_text(st3, seq!['>']);
    let st5 = match n.inner {
        Some(g) => gen_group(g, st4),
        None => st4,
    };
    let st6 = st_text(st5, seq!['<']);
    let st7 = st_text(st6, seq!['/']);
    let st8 = st_text(st7, name_text(n.name));
    st_text(st8, seq!['>'])
}

/// A void element: `<`, name, attributes, `>`; never a closing tag.
pub open spec fn gen_void(v: Void, st: StModel) -> StModel
    decreases v,
{
    let st1 = st_text(st, seq!['<']);
    let st2 = st_text(st1, name_text(v.name));
    let st3 = match v.attrs {
        Some(a) => gen_attrs(a, st2),
        None => st2,
    };
    st_text(st3, seq!['>'])
}

pub open spec fn gen_attrs(a: Attrs, st: StModel) -> StModel
    decreases a,
{
    gen_attr_seq(a.inner@, st)
}

pub open spec fn gen_attr_seq(s: Seq<Attr>, st: StModel) -> StModel
    decreases s,
{
    if s.len() == 0 {
        st
    } else {
        gen_attr(s.last(), gen_attr_seq(s.drop_last(), st))
    }
}

/// One attribute, by the kind of its value: a literal string is buffered as
/// ` name="escaped"`, the literal `true` and an absent value as the bare
/// ` name`, the literal `false` is omitted entirely, and any other
/// expression becomes a dynamic write-attribute instruction after a buffered
/// space.
pub open spec fn gen_attr(a: Attr, st: StModel) -> StModel
    decreases a,
{
    match a.value {
        Some(v) => match v.expr {
            Expr::Str(s) => {
                let st1 = st_text(st, seq![' ']);
                let st2 = st_text(st1, name_text(a.name));
                let st3 = st_text(st2, seq!['=']);
                let st4 = st_text(st3, seq!['"']);
                let st5 = st_text(st4, esc(s@));
                st_text(st5, seq!['"'])
            },
            Expr::Bool(b) => if b {
                st_text(st_text(st, seq![' ']), name_text(a.name))
            } else {
                st
            },
            Expr::Verbatim(e) => st_op(
                st_text(st, seq![' ']),
                OpModel::WriteAttr(name_text(a.name), e@),
            ),
        },
        None => st_text(st_text(st, seq![' ']), name_text(a.name)),
    }
}

pub open spec fn gen_interp(ip: Interp, st: StModel) -> StModel
    decreases ip,
{
    gen_interp_value(ip.value, st)
}

/// An interpolation: a bare literal string is escaped and buffered like
/// literal text; any other bare expression becomes one dynamic write; the
/// three control-flow forms recurse.
pub open spec fn gen_interp_value(v: InterpValue, st: StModel) -> StModel
    decreases v,
{
    match v {
        InterpValue::Match(m) => gen_match(m, st),
        InterpValue::If(f) => gen_if(f, st),
        InterpValue::Expr(e) => match e {
            Expr::Str(s) => st_text(st, esc(s@)),
            Expr::Bool(b) => st_op(st, OpModel::Write(bool_text(b))),
            Expr::Verbatim(t) => st_op(st, OpModel::Write(t@)),
        },
        InterpValue::For(f) => gen_for(f, st),
    }
}

/// A match: its header, then one block holding the arms, each arm a header
/// and a block of its own.
pub open spec fn gen_match(m: InterpMatch, st: StModel) -> StModel
    decreases m,
{
    let st1 = st_op(st, OpModel::MatchHeader(m.expr@));
    st_op(st1, OpModel::Block(st_finish(gen_arm_seq(m.arms@, st_empty()))))
}

pub open spec fn gen_arm_seq(s: Seq<InterpArm>, st: StModel) -> StModel
    decreases s,
{
    if s.len() == 0 {
        st
    } else {
        gen_arm(s.last(), gen_arm_seq(s.drop_last(), st))
    }
}

pub open spec fn gen_arm(a: InterpArm, st: StModel) -> StModel
    decreases a,
{
    let st1 = st_op(st, OpModel::ArmHeader(a.pat@));
    st_op(st1, OpModel::Block(st_finish(gen_arm_expr(a.expr, st_empty()))))
}

pub open spec fn gen_arm_expr(e: InterpArmExpr, st: StModel) -> StModel
    decreases e,
{
    match e {
        InterpArmExpr::Group(g) => st_op(
            st,
            OpModel::Block(st_finish(gen_group(g.group, st_empty()))),
        ),
        InterpArmExpr::Literal(s) => st_text(st, esc(s@)),
    }
}

/// Iteration: its header, then the body as one nested program.  The body is
/// generated unconditionally, whatever the iterable turns out to yield.
pub open spec fn gen_for(f: InterpFor, st: StModel) -> StModel
    decreases f,
{
    let st1 = st_op(st, OpModel::ForHeader(f.pat@, f.expr@));
    st_op(st1, OpModel::Block(st_finish(gen_group(f.body, st_empty()))))
}

/// A conditional: header and block for the first branch, then each else-if,
/// then the optional else branch.
pub open spec fn gen_if(f: InterpIf, st: StModel) -> StModel
    decreases f,
{
    let st1 = st_op(st, OpModel::IfHeader(f.cond@));
    let st2 = st_op(st1, OpModel::Block(st_finish(gen_group(f.then_branch, st_empty()))));
    let st3 = gen_else_if_seq(f.else_if@, st2);
    match f.else_branch {
        Some(e) => gen_else(e, st3),
        None => st3,
    }
}

pub open spec fn gen_else_if_seq(s: Seq<InterpElseIf>, st: StModel) -> StModel
    decreases s,
{
    if s.len() == 0 {
        st
    } else {
        gen_else_if(s.last(), gen_else_if_seq(s.drop_last(), st))
    }
}

pub open spec fn gen_else_if(e: InterpElseIf, st: StModel) -> StModel
    decreases e,
{
    let st1 = st_op(st, OpModel::ElseIfHeader(e.cond@));
    st_op(st1, OpModel::Block(st_finish(gen_group(e.group, st_empty()))))
}

pub open spec fn gen_else(e: InterpElse, st: StModel) -> StModel
    decreases e,
{
    let st1 = st_op(st, OpModel::ElseHeader);
    st_op(st1, OpModel::Block(st_finish(gen_group(e.group, st_empty()))))
}

/// The whole output program of one template: generate its group into a
/// fresh stream and flush what remains.
pub open spec fn program_of(g: Group) -> Seq<OpModel> {
    st_finish(gen_group(g, st_empty()))
}

/// The output stream under construction: the emitted instructions and the
/// pending literal buffer.
pub struct Stream {
    ops: Vec<Op>,
    buffer: String,
}

impl View for Stream {
    type V = StModel;

    closed spec fn view(&self) -> StModel {
        StModel { buf: self.buffer@, ops: ops_view(self.ops@) }
    }
}

impl Stream {
    pub fn new() -> (s: Stream)
        ensures
            s@ == st_empty(),
    {
        let s = Stream { ops: Vec::new(), buffer: String::new() };
        proof {
            lemma_ops_view_empty();
            assert(s@ =~= st_empty());
        }
        s
    }

    /// One statically known character, appended to the pending buffer.
    pub fn push_char(&mut self, ch: char)
        ensures
            final(self)@ == st_text(old(self)@, seq![ch]),
    {
        string_push(&mut self.buffer, ch);
        proof {
            assert(old(self)@.buf.push(ch) =~= old(self)@.buf + seq![ch]);
            assert(self@ =~= st_text(old(self)@, seq![ch]));
        }
    }

    /// Statically known, already escaped text, appended to the pending
    /// buffer verbatim.
    pub fn push_raw(&mut self, s: &str)
        ensures
            final(self)@ == st_text(old(self)@, s@),
    {
        self.buffer.append(s);
        proof {
            assert(self@ =~= st_text(old(self)@, s@));
        }
    }

    /// Statically known text, escaped once, eagerly, into the pending
    /// buffer: this is the compile-time half of the escaping policy.
    #[verifier::loop_isolation(false)]
    pub fn push_escaped(&mut self, s: &str)
        ensures
            final(self)@ == st_text(old(self)@, esc(s@)),
    {
        let n = s.unicode_len();
        for i in 0..n
            invariant
                n == s@.len(),
                self@.ops == old(self)@.ops,
                self@.buf == old(self)@.buf + esc(s@.take(i as int)),
        {
            let ch = s.get_char(i);
            proof {
                assert(s@.take(i as int).push(ch) =~= s@.take(i + 1));
                crate::escape::lemma_esc_push(s@.take(i as int), ch);
            }
            match ch {
                '&' => {
                    self.buffer.append("&amp;");
                    proof {
                        reveal_strlit("&amp;");
                        assert("&amp;"@ =~= seq!['&', 'a', 'm', 'p', ';']);
                        assert(self@.buf =~= old(self)@.buf + esc(s@.take(i + 1)));
                    }
                },
                '<' => {
                    self.buffer.append("&lt;");
                    proof {
                        reveal_strlit("&lt;");
                        assert("&lt;"@ =~= seq!['&', 'l', 't', ';']);
                        assert(self@.buf =~= old(self)@.buf + esc(s@.take(i + 1)));
                    }
                },
                '>' => {
                    self.buffer.append("&gt;");
                    proof {
                        reveal_strlit("&gt;");
                        assert("&gt;"@ =~= seq!['&', 'g', 't', ';']);
                        assert(self@.buf =~= old(self)@.buf + esc(s@.take(i + 1)));
                    }
                },
                '\'' => {
                    self.buffer.append("&apos;");
                    proof {
                        reveal_strlit("&apos;");
                        assert("&apos;"@ =~= seq!['&', 'a', 'p', 'o', 's', ';']);
                        assert(self@.buf =~= old(self)@.buf + esc(s@.take(i + 1)));
                    }
                },
                '"' => {
                    self.buffer.append("&quot;");
                    proof {
                        reveal_strlit("&quot;");
                        assert("&quot;"@ =~= seq!['&', 'q', 'u', 'o', 't', ';']);
                        assert(self@.buf =~= old(self)@.buf + esc(s@.take(i + 1)));
                    }
                },
                _ => {
                    string_push(&mut self.buffer, ch);
                    proof {
                        assert(self@.buf =~= old(self)@.buf + esc(s@.take(i + 1)));
                    }
                },
            }
        }
        proof {
            assert(s@.take(n as int) =~= s@);
            assert(self@ =~= st_text(old(self)@, esc(s@)));
        }
    }

    /// A dynamic instruction: the pending buffer, if non-empty, is emitted
    /// first as one verbatim flush, then the given instruction.
    pub fn push_tokens(&mut self, op: Op)
        ensures
            final(self)@ == st_op(old(self)@, op_view(op)),
    {
        if self.buffer.as_str().unicode_len() > 0 {
            let text = self.buffer.clone();
            self.buffer = String::new();
            self.ops.push(Op::Flush(text));
            proof {
                lemma_ops_view_push(old(self).ops@, Op::Flush(text));
            }
        }
        proof {
            assert(self@.ops == st_finish(old(self)@));
        }
        let ghost prev_ops = self.ops@;
        self.ops.push(op);
        proof {
            lemma_ops_view_push(prev_ops, op);
            assert(self@ =~= st_op(old(self)@, op_view(op)));
        }
    }

    /// A dynamic "write this value" instruction.
    pub fn push_write(&mut self, expr: String)
        ensures
            final(self)@ == st_op(old(self)@, OpModel::Write(expr@)),
    {
        self.push_tokens(Op::Write(expr));
    }

    /// A nested program, emitted as one block instruction.
    pub fn push_braced(&mut self, ops: Vec<Op>)
        ensures
            final(self)@ == st_op(old(self)@, OpModel::Block(ops_view(ops@))),
    {
        self.push_tokens(Op::Block(ops));
    }

    /// The finished program: any remaining pending text becomes one last
    /// flush instruction.
    pub fn into_ops(self) -> (r: Vec<Op>)
        ensures
            ops_view(r@) == st_finish(self@),
    {
        let Stream { mut ops, buffer } = self;
        if buffer.as_str().unicode_len() > 0 {
            proof {
                lemma_ops_view_push(ops@, Op::Flush(buffer));
            }
            ops.push(Op::Flush(buffer));
        }
        ops
    }
}

impl Group {
    /// Generate every node, in order, into the given stream.
    #[verifier::loop_isolation(false)]
    pub fn generate(&self, stream: &mut Stream)
        ensures
            final(stream)@ == gen_group(*self, old(stream)@),
        decreases *self,
    {
        let ghost st0 = stream@;
        let n = self.nodes.len();
        for i in 0..n
            invariant
                stream@ == gen_nodes(self.nodes@.take(i as int), st0),
        {
            self.nodes[i].generate(stream);
            proof {
                assert(self.nodes@.take(i + 1).drop_last() =~= self.nodes@.take(i as int));
                assert(self.nodes@.take(i + 1).last() == self.nodes@[i as int]);
            }
        }
        proof {
            assert(self.nodes@.take(n as int) =~= self.nodes@);
        }
    }

    /// The whole output program of this template: a fresh stream, the
    /// group, and one final flush of whatever text is still pending.
    pub fn to_program(&self) -> (r: Vec<Op>)
        ensures
            ops_view(r@) == program_of(*self),
    {
        let mut stream = Stream::new();
        self.generate(&mut stream);
        stream.into_ops()
    }
}

impl Node {
    pub fn generate(&self, stream: &mut Stream)
        ensures
            final(stream)@ == gen_node(*self, old(stream)@),
        decreases *self,
    {
        match self {
            Node::Element(e) => e.generate(stream),
            Node::Interp(ip) => ip.generate(stream),
            Node::Literal(s) => stream.push_escaped(s.as_str()),
        }
    }
}

impl Element {
    pub fn generate(&self, stream: &mut Stream)
        ensures
            final(stream)@ == gen_element(*self, old(stream)@),
        decreases *self,
    {
        match self {
            Element::Normal(n) => n.generate(stream),
            Element::Void(v) => v.generate(stream),
        }
    }
}

impl Name {
    /// The name as plain text, exactly as it will be written.
    pub fn text_string(&self) -> (r: String)
        ensures
            r@ == name_text(*self),
    {
        match self {
            Name::Lit(s) => s.clone(),
            Name::Ident(s) => s.clone(),
        }
    }

    pub fn generate(&self, stream: &mut Stream)
        ensures
            final(stream)@ == st_text(old(stream)@, name_text(*self)),
        decreases *self,
    {
        match self {
            Name::Lit(s) => stream.push_raw(s.as_str()),
            Name::Ident(s) => stream.push_raw(s.as_str()),
        }
    }
}

impl Normal {
    pub fn generate(&self, stream: &mut Stream)
        ensures
            final(stream)@ == gen_normal(*self, old(stream)@),
        decreases *self,
    {
        stream.push_char('<');
        self.name.generate(stream);
        match &self.attrs {
            Some(a) => a.generate(stream),
            None => {},
        }
        stream.push_char('>');
        match &self.inner {
            Some(g) => g.generate(stream),
            None => {},
        }
        stream.push_char('<');
        stream.push_char('/');
        self.name.generate(stream);
        stream.push_char('>');
    }
}

impl Void {
    pub fn generate(&self, stream: &mut Stream)
        ensures
            final(stream)@ == gen_void(*self, old(stream)@),
        decreases *self,
    {
        stream.push_char('<');
        self.name.generate(stream);
        match &self.attrs {
            Some(a) => a.generate(stream),
            None => {},
        }
        stream.push_char('>');
    }
}

impl Attrs {
    #[verifier::loop_isolation(false)]
    pub fn generate(&self, stream: &mut Stream)
        ensures
            final(stream)@ == gen_attrs(*self, old(stream)@),
        decreases *self,
    {
        let ghost st0 = stream@;
        let n = self.inner.len();
        for i in 0..n
            invariant
                stream@ == gen_attr_seq(self.inner@.take(i as int), st0),
        {
            self.inner[i].generate(stream);
            proof {
                assert(self.inner@.take(i + 1).drop_last() =~= self.inner@.take(i as int));
                assert(self.inner@.take(i + 1).last() == self.inner@[i as int]);
            }
        }
        proof {
            assert(self.inner@.take(n as int) =~= self.inner@);
        }
    }
}

impl Attr {
    pub fn generate(&self, stream: &mut Stream)
        ensures
            final(stream)@ == gen_attr(*self, old(stream)@),
        decreases *self,
    {
        match &self.value {
            Some(v) => match &v.expr {
                Expr::Str(s) => {
                    stream.push_char(' ');
                    self.name.generate(stream);
                    stream.push_char('=');
                    stream.push_char('"');
                    stream.push_escaped(s.as_str());
                    stream.push_char('"');
                },
                Expr::Bool(b) => {
                    if *b {
                        stream.push_char(' ');
                        self.name.generate(stream);
                    }
                },
                Expr::Verbatim(e) => {
                    let name = self.name.text_string();
                    stream.push_char(' ');
                    stream.push_tokens(Op::WriteAttr(name, e.clone()));
                },
            },
            None => {
                stream.push_char(' ');
                self.name.generate(stream);
            },
        }
    }
}

impl Interp {
    pub fn generate(&self, stream: &mut Stream)
        ensures
            final(stream)@ == gen_interp(*self, old(stream)@),
        decreases *self,
    {
        self.value.generate(stream);
    }
}

impl InterpValue {
    pub fn generate(&self, stream: &mut Stream)
        ensures
            final(stream)@ == gen_interp_value(*self, old(stream)@),
        decreases *self,
    {
        match self {
            InterpValue::Match(m) => m.generate(stream),
            InterpValue::If(f) => f.generate(stream),
            InterpValue::Expr(e) => match e {
                Expr::Str(s) => stream.push_escaped(s.as_str()),
                Expr::Bool(b) => {
                    let t: String;
                    if *b {
                        t = String::from_str("true");
                        proof {
                            reveal_strlit("true");
                            assert(t@ =~= bool_text(true));
                        }
                    } else {
                        t = String::from_str("false");
                        proof {
                            reveal_strlit("false");
                            assert(t@ =~= bool_text(false));
                        }
                    }
                    stream.push_write(t);
                },
                Expr::Verbatim(x) => stream.push_write(x.clone()),
            },
            InterpValue::For(f) => f.generate(stream),
        }
    }
}

impl InterpMatch {
    #[verifier::loop_isolation(false)]
    pub fn generate(&self, stream: &mut Stream)
        ensures
            final(stream)@ == gen_match(*self, old(stream)@),
        decreases *self,
    {
        stream.push_tokens(Op::MatchHeader(self.expr.clone()));
        let mut nested = Stream::new();
        let n = self.arms.len();
        for i in 0..n
            invariant
                nested@ == gen_arm_seq(self.arms@.take(i as int), st_empty()),
        {
            self.arms[i].generate(&mut nested);
            proof {
                assert(self.arms@.take(i + 1).drop_last() =~= self.arms@.take(i as int));
                assert(self.arms@.take(i + 1).last() == self.arms@[i as int]);
            }
        }
        proof {
            assert(self.arms@.take(n as int) =~= self.arms@);
        }
        stream.push_braced(nested.into_ops());
    }
}

impl InterpArm {
    pub fn generate(&self, stream: &mut Stream)
        ensures
            final(stream)@ == gen_arm(*self, old(stream)@),
        decreases *self,
    {
        stream.push_tokens(Op::ArmHeader(self.pat.clone()));
        let mut nested = Stream::new();
        self.expr.generate(&mut nested);
        stream.push_braced(nested.into_ops());
    }
}

impl InterpArmExpr {
    pub fn generate(&self, stream: &mut Stream)
        ensures
            final(stream)@ == gen_arm_expr(*self, old(stream)@),
        decreases *self,
    {
        match self {
            InterpArmExpr::Group(g) => g.generate(stream),
            InterpArmExpr::Literal(s) => stream.push_escaped(s.as_str()),
        }
    }
}

impl InterpArmGroup {
    pub fn generate(&self, stream: &mut Stream)
        ensures
            final(stream)@ == st_op(
                old(stream)@,
                OpModel::Block(st_finish(gen_group(self.group, st_empty()))),
            ),
        decreases *self,
    {
        let mut nested = Stream::new();
        self.group.generate(&mut nested);
        stream.push_braced(nested.into_ops());
    }
}

impl InterpFor {
    pub fn generate(&self, stream: &mut Stream)
        ensures
            final(stream)@ == gen_for(*self, old(stream)@),
        decreases *self,
    {
        stream.push_tokens(Op::ForHeader(self.pat.clone(), self.expr.clone()));
        let mut nested = Stream::new();
        self.body.generate(&mut nested);
        stream.push_braced(nested.into_ops());
    }
}

impl InterpIf {
    #[verifier::loop_isolation(false)]
    pub fn generate(&self, stream: &mut Stream)
        ensures
            final(stream)@ == gen_if(*self, old(stream)@),
        decreases *self,
    {
        stream.push_tokens(Op::IfHeader(self.cond.clone()));
        let mut nested = Stream::new();
        self.then_branch.generate(&mut nested);
        stream.push_braced(nested.into_ops());
        let ghost st2 = stream@;
        let n = self.else_if.len();
        for i in 0..n
            invariant
                stream@ == gen_else_if_seq(self.else_if@.take(i as int), st2),
        {
            self.else_if[i].generate(stream);
            proof {
                assert(self.else_if@.take(i + 1).drop_last() =~= self.else_if@.take(i as int));
                assert(self.else_if@.take(i + 1).last() == self.else_if@[i as int]);
            }
        }
        proof {
            assert(self.else_if@.take(n as int) =~= self.else_if@);
        }
        match &self.else_branch {
            Some(e) => e.generate(stream),
            None => {},
        }
    }
}

impl InterpElseIf {
    pub fn generate(&self, stream: &mut Stream)
        ensures
            final(stream)@ == gen_else_if(*self, old(stream)@),
        decreases *self,
    {
        stream.push_tokens(Op::ElseIfHeader(self.cond.clone()));
        let mut nested = Stream::new();
        self.group.generate(&mut nested);
        stream.push_braced(nested.into_ops());
    }
}

impl InterpElse {
    pub fn generate(&self, stream: &mut Stream)
        ensures
            final(stream)@ == gen_else(*self, old(stream)@),
        decreases *self,
    {
        stream.push_tokens(Op::ElseHeader);
        let mut nested = Stream::new();
        self.group.generate(&mut nested);
        stream.push_braced(nested.into_ops());
    }
}

/// A group whose whole output is known at generation time: literal text,
/// elements with static attributes, and bare literal-string interpolations.
pub open spec fn static_group(g: Group) -> bool
    decreases g, 1int,
{
    static_nodes(g.nodes@)
}

pub open spec fn static_nodes(ns: Seq<Node>) -> bool
    decreases ns, 0int,
{
    ns.len() == 0 || (static_nodes(ns.drop_last()) && static_node(ns.last()))
}

pub open spec fn static_node(n: Node) -> bool
    decreases n, 0int,
{
    match n {
        Node::Element(e) => static_element(e),
        Node::Interp(ip) => ip.value matches InterpValue::Expr(Expr::Str(_)),
        Node::Literal(_) => true,
    }
}

pub open spec fn static_element(e: Element) -> bool
    decreases e,
{
    match e {
        Element::Normal(n) => (match n.attrs {
            Some(a) => static_attrs(a),
            None => true,
        }) && (match n.inner {
            Some(g) => static_group(g),
            None => true,
        }),
        Element::Void(v) => match v.attrs {
            Some(a) => static_attrs(a),
            None => true,
        },
    }
}

pub open spec fn static_attrs(a: Attrs) -> bool
    decreases a, 1int,
{
    static_attr_seq_ok(a.inner@)
}

pub open spec fn static_attr_seq_ok(s: Seq<Attr>) -> bool
    decreases s, 0int,
{
    s.len() == 0 || (static_attr_seq_ok(s.drop_last()) && static_attr(s.last()))
}

/// Every attribute value but an opaque host expression is static.
pub open spec fn static_attr(a: Attr) -> bool {
    match a.value {
        Some(v) => !(v.expr matches Expr::Verbatim(_)),
        None => true,
    }
}

/// The one piece of text that a static group renders to.
pub open spec fn stext_group(g: Group) -> Seq<char>
    decreases g, 1int,
{
    stext_nodes(g.nodes@)
}

pub open spec fn stext_nodes(ns: Seq<Node>) -> Seq<char>
    decreases ns, 0int,
{
    if ns.len() == 0 {
        Seq::empty()
    } else {
        stext_nodes(ns.drop_last()) + stext_node(ns.last())
    }
}

pub open spec fn stext_node(n: Node) -> Seq<char>
    decreases n,
{
    match n {
        Node::Element(e) => stext_element(e),
        Node::Interp(ip) => match ip.value {
            InterpValue::Expr(Expr::Str(s)) => esc(s@),
            _ => Seq::empty(),
        },
        Node::Literal(s) => esc(s@),
    }
}

pub open spec fn stext_element(e: Element) -> Seq<char>
    decreases e,
{
    match e {
        Element::Normal(n) => seq!['<'] + name_text(n.name) + (match n.attrs {
            Some(a) => stext_attrs(a),
            None => Seq::empty(),
        }) + seq!['>'] + (match n.inner {
            Some(g) => stext_group(g),
            None => Seq::empty(),
        }) + seq!['<', '/'] + name_text(n.name) + seq!['>'],
        Element::Void(v) => seq!['<'] + name_text(v.name) + (match v.attrs {
            Some(a) => stext_attrs(a),
            None => Seq::empty(),
        }) + seq!['>'],
    }
}

pub open spec fn stext_attrs(a: Attrs) -> Seq<char>
    decreases a, 1int,
{
    stext_attr_seq(a.inner@)
}

pub open spec fn stext_attr_seq(s: Seq<Attr>) -> Seq<char>
    decreases s, 0int,
{
    if s.len() == 0 {
        Seq::empty()
    } else {
        stext_attr_seq(s.drop_last()) + stext_attr(s.last())
    }
}

pub open spec fn stext_attr(a: Attr) -> Seq<char> {
    match a.value {
        Some(v) => match v.expr {
            Expr::Str(s) => seq![' '] + name_text(a.name) + seq!['=', '"'] + esc(s@) + seq!['"'],
            Expr::Bool(b) => if b {
                seq![' '] + name_text(a.name)
            } else {
                Seq::empty()
            },
            Expr::Verbatim(_) => Seq::empty(),
        },
        None => seq![' '] + name_text(a.name),
    }
}

/// Generating static content only appends text to the pending buffer: no
/// instruction is emitted, whatever the structural depth.
pub proof fn lemma_static_group(g: Group, st: StModel)
    requires
        static_group(g),
    ensures
        gen_group(g, st) == st_text(st, stext_group(g)),
    decreases g, 1int,
{
    lemma_static_nodes(g.nodes@, st);
}

pub proof fn lemma_static_nodes(ns: Seq<Node>, st: StModel)
    requires
        static_nodes(ns),
    ensures
        gen_nodes(ns, st) == st_text(st, stext_nodes(ns)),
    decreases ns, 0int,
{
    if ns.len() == 0 {
        assert(st_text(st, Seq::empty()) =~= st);
    } else {
        lemma_static_nodes(ns.drop_last(), st);
        lemma_static_node(ns.last(), st_text(st, stext_nodes(ns.drop_last())));
        assert(st_text(st_text(st, stext_nodes(ns.drop_last())), stext_node(ns.last())) =~= st_text(
            st,
            stext_nodes(ns),
        ));
    }
}

pub proof fn lemma_static_node(n: Node, st: StModel)
    requires
        static_node(n),
    ensures
        gen_node(n, st) == st_text(st, stext_node(n)),
    decreases n,
{
    match n {
        Node::Element(e) => lemma_static_element(e, st),
        Node::Interp(_) => {},
        Node::Literal(_) => {},
    }
}

pub proof fn lemma_static_element(e: Element, st: StModel)
    requires
        static_element(e),
    ensures
        gen_element(e, st) == st_text(st, stext_element(e)),
    decreases e,
{
    match e {
        Element::Normal(n) => {
            let st1 = st_text(st, seq!['<']);
            let st2 = st_text(st1, name_text(n.name));
            match n.attrs {
                Some(a) => lemma_static_attrs(a, st2),
                None => {},
            }
            let st3 = match n.attrs {
                Some(a) => st_text(st2, stext_attrs(a)),
                None => st2,
            };
            let st4 = st_text(st3, seq!['>']);
            match n.inner {
                Some(g) => lemma_static_group(g, st4),
                None => {},
            }
            assert(gen_element(e, st) =~= st_text(st, stext_element(e)));
        },
        Element::Void(v) => {
            let st1 = st_text(st, seq!['<']);
            let st2 = st_text(st1, name_text(v.name));
            match v.attrs {
                Some(a) => lemma_static_attrs(a, st2),
                None => {},
            }
            assert(gen_element(e, st) =~= st_text(st, stext_element(e)));
        },
    }
}

pub proof fn lemma_static_attrs(a: Attrs, st: StModel)
    requires
        static_attrs(a),
    ensures
        gen_attrs(a, st) == st_text(st, stext_attrs(a)),
    decreases a, 1int,
{
    lemma_static_attr_seq(a.inner@, st);
}

pub proof fn lemma_static_attr_seq(s: Seq<Attr>, st: StModel)
    requires
        static_attr_seq_ok(s),
    ensures
        gen_attr_seq(s, st) == st_text(st, stext_attr_seq(s)),
    decreases s, 0int,
{
    if s.len() == 0 {
        assert(st_text(st, Seq::empty()) =~= st);
    } else {
        lemma_static_attr_seq(s.drop_last(), st);
        lemma_static_attr(s.last(), st_text(st, stext_attr_seq(s.drop_last())));
        assert(st_text(st_text(st, stext_attr_seq(s.drop_last())), stext_attr(s.last())) =~= st_text(
            st,
            stext_attr_seq(s),
        ));
    }
}

pub proof fn lemma_static_attr(a: Attr, st: StModel)
    requires
        static_attr(a),
    ensures
        gen_attr(a, st) == st_text(st, stext_attr(a)),
{
    assert(gen_attr(a, st) =~= st_text(st, stext_attr(a)));
}

/// A template with only static content compiles to exactly one flush of its
/// whole escaped text and no dynamic instruction at all; an altogether empty
/// one compiles to the empty program.
pub proof fn lemma_static_single_flush(g: Group)
    requires
        static_group(g),
    ensures
        program_of(g) == if stext_group(g).len() == 0 {
            Seq::<OpModel>::empty()
        } else {
            seq![OpModel::Flush(stext_group(g))]
        },
{
    lemma_static_group(g, st_empty());
    assert(Seq::empty() + stext_group(g) =~= stext_group(g));
    if stext_group(g).len() != 0 {
        assert(Seq::<OpModel>::empty().push(OpModel::Flush(stext_group(g))) =~= seq![
            OpModel::Flush(stext_group(g)),
        ]);
    }
}

/// A normal element with an empty body compiles to its opening and closing
/// tags alone: no child instruction is generated.
pub proof fn lemma_normal_empty_body(nm: Name, st: StModel)
    ensures
        gen_normal((Normal { name: nm, attrs: None, inner: None }), st) == st_text(
            st,
            seq!['<'] + name_text(nm) + seq!['>', '<', '/'] + name_text(nm) + seq!['>'],
        ),
{
    assert(gen_normal((Normal { name: nm, attrs: None, inner: None }), st) =~= st_text(
        st,
        seq!['<'] + name_text(nm) + seq!['>', '<', '/'] + name_text(nm) + seq!['>'],
    ));
}

/// The boolean attribute shorthand: a literal `true` value and an absent
/// value generate the same bare ` name`, and a literal `false` value
/// generates nothing at all.
pub proof fn lemma_boolean_attr(nm: Name, st: StModel)
    ensures
        gen_attr((Attr { name: nm, value: Some(AttrValue { expr: Expr::Bool(true) }) }), st)
            == gen_attr((Attr { name: nm, value: None }), st),
        gen_attr((Attr { name: nm, value: Some(AttrValue { expr: Expr::Bool(false) }) }), st) == st,
        gen_attr((Attr { name: nm, value: None }), st) == st_text(st, seq![' '] + name_text(nm)),
{
    assert(gen_attr((Attr { name: nm, value: None }), st) =~= st_text(
        st,
        seq![' '] + name_text(nm),
    ));
}

/// A program made of flush instructions alone: nothing in it waits for a
/// runtime value.
pub open spec fn all_flushes(ops: Seq<OpModel>) -> bool
    decreases ops,
{
    ops.len() == 0 || (all_flushes(ops.drop_last()) && ops.last() matches OpModel::Flush(_))
}

/// The text such a program writes: its flushes, concatenated in order.
pub open spec fn flush_text(ops: Seq<OpModel>) -> Seq<char>
    decreases ops,
{
    if ops.len() == 0 {
        Seq::empty()
    } else {
        flush_text(ops.drop_last()) + (match ops.last() {
            OpModel::Flush(t) => t,
            _ => Seq::empty(),
        })
    }
}

pub proof fn lemma_all_flushes_index(ops: Seq<OpModel>, i: int)
    requires
        all_flushes(ops),
        0 <= i < ops.len(),
    ensures
        ops[i] matches OpModel::Flush(_),
    decreases ops,
{
    if i < ops.len() - 1 {
        lemma_all_flushes_index(ops.drop_last(), i);
    }
}

/// A for interpolation always compiles to its header and one nested block
/// holding the whole program of its body: generation is total, whatever the
/// iterable will yield at render time.
pub proof fn lemma_for_shape(f: InterpFor, st: StModel)
    ensures
        gen_for(f, st) == st_op(
            st_op(st, OpModel::ForHeader(f.pat@, f.expr@)),
            OpModel::Block(program_of(f.body)),
        ),
{
}

} // verus!
