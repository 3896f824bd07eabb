//! The abstract syntax tree of one template.
//!
//! Every node is built once by the parser, consumed once by the code
//! generator, and owns its children outright: the tree has no sharing and no
//! cycles.  Host-language expressions (attribute values, conditions,
//! patterns, iterables, interpolated expressions) are opaque verbatim
//! payloads carried as plain text.

use vstd::prelude::*;

verus! {

/// An ordered sequence of template content.  May be empty.
#[derive(Debug)]
pub struct Group {
    pub nodes: Vec<Node>,
}

/// One unit of template content.
#[derive(Debug)]
pub enum Node {
    Element(Element),
    Interp(Interp),
    Literal(String),
}

/// An HTML tag: with a body slot, or self-closing.
#[derive(Debug)]
pub enum Element {
    Normal(Normal),
    Void(Void),
}

/// A tag with an optional body.  A present body is a non-empty group.
#[derive(Debug)]
pub struct Normal {
    pub name: Name,
    pub attrs: Option<Attrs>,
    pub inner: Option<Group>,
}

/// A self-closing tag.  It has no body slot at all.
#[derive(Debug)]
pub struct Void {
    pub name: Name,
    pub attrs: Option<Attrs>,
}

/// A tag or attribute identifier: a string literal or a bare identifier.
#[derive(Debug)]
pub enum Name {
    Lit(String),
    Ident(String),
}

/// An ordered attribute list.  Duplicate names pass through unchanged.
#[derive(Debug)]
pub struct Attrs {
    pub inner: Vec<Attr>,
}

/// One attribute.  An absent value is the boolean-true shorthand.
#[derive(Debug)]
pub struct Attr {
    pub name: Name,
    pub value: Option<AttrValue>,
}

/// An attribute value.
#[derive(Debug)]
pub struct AttrValue {
    pub expr: Expr,
}

/// A host expression, as far as this compiler looks into it: a lone string
/// literal and a lone boolean literal are recognised so that they can be
/// resolved at compile time; anything else is verbatim opaque text.
#[derive(Debug)]
pub enum Expr {
    Str(String),
    Bool(bool),
    Verbatim(String),
}

/// A dynamic interpolation.
#[derive(Debug)]
pub struct Interp {
    pub value: InterpValue,
}

/// The four interpolation forms.
#[derive(Debug)]
pub enum InterpValue {
    Match(InterpMatch),
    If(InterpIf),
    Expr(Expr),
    For(InterpFor),
}

/// Iteration: a binding pattern, an iterable expression, and a body.
#[derive(Debug)]
pub struct InterpFor {
    pub pat: String,
    pub expr: String,
    pub body: Group,
}

/// Pattern dispatch: a scrutinee expression and an ordered list of arms.
#[derive(Debug)]
pub struct InterpMatch {
    pub expr: String,
    pub arms: Vec<InterpArm>,
}

/// One match arm: a host pattern and its body.
#[derive(Debug)]
pub struct InterpArm {
    pub pat: String,
    pub expr: InterpArmExpr,
}

/// An arm body: a braced group, or a bare string literal as shorthand.
#[derive(Debug)]
pub enum InterpArmExpr {
    Group(InterpArmGroup),
    Literal(String),
}

/// A braced arm body.
#[derive(Debug)]
pub struct InterpArmGroup {
    pub group: Group,
}

/// Conditional content: a condition and its branch, the ordered else-if
/// chain, and an optional final else branch.
#[derive(Debug)]
pub struct InterpIf {
    pub cond: String,
    pub then_branch: Group,
    pub else_if: Vec<InterpElseIf>,
    pub else_branch: Option<InterpElse>,
}

/// One else-if link: a condition and its branch.
#[derive(Debug)]
pub struct InterpElseIf {
    pub cond: String,
    pub group: Group,
}

/// The final else branch.
#[derive(Debug)]
pub struct InterpElse {
    pub group: Group,
}

impl Group {
    /// Structural well-formedness: every node is well formed.
    pub open spec fn wf(self) -> bool
        decreases self,
    {
        nodes_wf(self.nodes@)
    }
}

pub open spec fn nodes_wf(ns: Seq<Node>) -> bool
    decreases ns,
{
    ns.len() == 0 || (ns[0].wf() && nodes_wf(ns.drop_first()))
}

impl Node {
    pub open spec fn wf(self) -> bool
        decreases self,
    {
        match self {
            Node::Element(e) => e.wf(),
            Node::Interp(i) => i.wf(),
            Node::Literal(_) => true,
        }
    }
}

impl Element {
    pub open spec fn wf(self) -> bool
        decreases self,
    {
        match self {
            Element::Normal(n) => n.wf(),
            Element::Void(_) => true,
        }
    }
}

impl Normal {
    /// A present body is a non-empty, well-formed group.
    pub open spec fn wf(self) -> bool
        decreases self,
    {
        match self.inner {
            Some(g) => g.nodes@.len() > 0 && g.wf(),
            None => true,
        }
    }
}

impl Interp {
    pub open spec fn wf(self) -> bool
        decreases self,
    {
        match self.value {
            InterpValue::Match(m) => m.wf(),
            InterpValue::If(f) => f.wf(),
            InterpValue::Expr(_) => true,
            InterpValue::For(f) => f.wf(),
        }
    }
}

impl InterpMatch {
    pub open spec fn wf(self) -> bool
        decreases self,
    {
        arms_wf(self.arms@)
    }
}

pub open spec fn arms_wf(s: Seq<InterpArm>) -> bool
    decreases s,
{
    s.len() == 0 || (s[0].wf() && arms_wf(s.drop_first()))
}

impl InterpArm {
    pub open spec fn wf(self) -> bool
        decreases self,
    {
        self.expr.wf()
    }
}

impl InterpArmExpr {
    pub open spec fn wf(self) -> bool
        decreases self,
    {
        match self {
            InterpArmExpr::Group(g) => g.group.wf(),
            InterpArmExpr::Literal(_) => true,
        }
    }
}

impl InterpFor {
    pub open spec fn wf(self) -> bool
        decreases self,
    {
        self.body.wf()
    }
}

impl InterpIf {
    pub open spec fn wf(self) -> bool
        decreases self,
    {
        self.then_branch.wf() && else_ifs_wf(self.else_if@) && (match self.else_branch {
            Some(e) => e.group.wf(),
            None => true,
        })
    }
}

pub open spec fn else_ifs_wf(s: Seq<InterpElseIf>) -> bool
    decreases s,
{
    s.len() == 0 || (s[0].group.wf() && else_ifs_wf(s.drop_first()))
}


/// The mathematical form of each tree type, over sequences of characters:
/// what the parser's specification produces and what a parsed tree views
/// to.
#[verifier::ext_equal]
pub enum NameM {
    Lit(Seq<char>),
    Ident(Seq<char>),
}

#[verifier::ext_equal]
pub enum ExprM {
    Str(Seq<char>),
    Bool(bool),
    Verbatim(Seq<char>),
}

#[verifier::ext_equal]
pub struct AttrValueM {
    pub expr: ExprM,
}

#[verifier::ext_equal]
pub struct AttrM {
    pub name: NameM,
    pub value: Option<AttrValueM>,
}

#[verifier::ext_equal]
pub struct AttrsM {
    pub inner: Seq<AttrM>,
}

#[verifier::ext_equal]
pub struct GroupM {
    pub nodes: Seq<NodeM>,
}

#[verifier::ext_equal]
pub enum NodeM {
    Element(ElementM),
    Interp(InterpM),
    Literal(Seq<char>),
}

#[verifier::ext_equal]
pub enum ElementM {
    Normal(NormalM),
    Void(VoidM),
}

#[verifier::ext_equal]
pub struct NormalM {
    pub name: NameM,
    pub attrs: Option<AttrsM>,
    pub inner: Option<GroupM>,
}

#[verifier::ext_equal]
pub struct VoidM {
    pub name: NameM,
    pub attrs: Option<AttrsM>,
}

#[verifier::ext_equal]
pub struct InterpM {
    pub value: InterpValueM,
}

#[verifier::ext_equal]
pub enum InterpValueM {
    Match(InterpMatchM),
    If(InterpIfM),
    Expr(ExprM),
    For(InterpForM),
}

#[verifier::ext_equal]
pub struct InterpForM {
    pub pat: Seq<char>,
    pub expr: Seq<char>,
    pub body: GroupM,
}

#[verifier::ext_equal]
pub struct InterpMatchM {
    pub expr: Seq<char>,
    pub arms: Seq<InterpArmM>,
}

#[verifier::ext_equal]
pub struct InterpArmM {
    pub pat: Seq<char>,
    pub expr: InterpArmExprM,
}

#[verifier::ext_equal]
pub enum InterpArmExprM {
    Group(InterpArmGroupM),
    Literal(Seq<char>),
}

#[verifier::ext_equal]
pub struct InterpArmGroupM {
    pub group: GroupM,
}

#[verifier::ext_equal]
pub struct InterpIfM {
    pub cond: Seq<char>,
    pub then_branch: GroupM,
    pub else_if: Seq<InterpElseIfM>,
    pub else_branch: Option<InterpElseM>,
}

#[verifier::ext_equal]
pub struct InterpElseIfM {
    pub cond: Seq<char>,
    pub group: GroupM,
}

#[verifier::ext_equal]
pub struct InterpElseM {
    pub group: GroupM,
}

pub open spec fn name_view(n: Name) -> NameM {
    match n {
        Name::Lit(s) => NameM::Lit(s@),
        Name::Ident(s) => NameM::Ident(s@),
    }
}

pub open spec fn expr_view(e: Expr) -> ExprM {
    match e {
        Expr::Str(s) => ExprM::Str(s@),
        Expr::Bool(b) => ExprM::Bool(b),
        Expr::Verbatim(s) => ExprM::Verbatim(s@),
    }
}

pub open spec fn attr_view(a: Attr) -> AttrM {
    AttrM {
        name: name_view(a.name),
        value: match a.value {
            Some(v) => Some(AttrValueM { expr: expr_view(v.expr) }),
            None => None,
        },
    }
}

pub open spec fn attr_seq_view(s: Seq<Attr>) -> Seq<AttrM>
    decreases s,
{
    if s.len() == 0 {
        Seq::empty()
    } else {
        seq![attr_view(s[0])] + attr_seq_view(s.drop_first())
    }
}

pub open spec fn attrs_view(a: Attrs) -> AttrsM {
    AttrsM { inner: attr_seq_view(a.inner@) }
}

pub open spec fn group_view(g: Group) -> GroupM
    decreases g, 1int,
{
    GroupM { nodes: node_seq_view(g.nodes@) }
}

pub open spec fn node_seq_view(ns: Seq<Node>) -> Seq<NodeM>
    decreases ns, 0int,
{
    if ns.len() == 0 {
        Seq::empty()
    } else {
        seq![node_view(ns[0])] + node_seq_view(ns.drop_first())
    }
}

pub open spec fn node_view(n: Node) -> NodeM
    decreases n,
{
    match n {
        Node::Element(e) => NodeM::Element(element_view(e)),
        Node::Interp(ip) => NodeM::Interp(interp_view(ip)),
        Node::Literal(s) => NodeM::Literal(s@),
    }
}

pub open spec fn element_view(e: Element) -> ElementM
    decreases e,
{
    match e {
        Element::Normal(n) => ElementM::Normal(normal_view(n)),
        Element::Void(v) => ElementM::Void(void_view(v)),
    }
}

pub open spec fn normal_view(n: Normal) -> NormalM
    decreases n,
{
    NormalM {
        name: name_view(n.name),
        attrs: match n.attrs {
            Some(a) => Some(attrs_view(a)),
            None => None,
        },
        inner: match n.inner {
            Some(g) => Some(group_view(g)),
            None => None,
        },
    }
}

pub open spec fn void_view(v: Void) -> VoidM {
    VoidM {
        name: name_view(v.name),
        attrs: match v.attrs {
            Some(a) => Some(attrs_view(a)),
            None => None,
        },
    }
}

pub open spec fn interp_view(ip: Interp) -> InterpM
    decreases ip,
{
    InterpM { value: interp_value_view(ip.value) }
}

pub open spec fn interp_value_view(v: InterpValue) -> InterpValueM
    decreases v,
{
    match v {
        InterpValue::Match(m) => InterpValueM::Match(match_view(m)),
        InterpValue::If(f) => InterpValueM::If(if_view(f)),
        InterpValue::Expr(e) => InterpValueM::Expr(expr_view(e)),
        InterpValue::For(f) => InterpValueM::For(for_view(f)),
    }
}

pub open spec fn match_view(m: InterpMatch) -> InterpMatchM
    decreases m,
{
    InterpMatchM { expr: m.expr@, arms: arm_seq_view(m.arms@) }
}

pub open spec fn for_view(f: InterpFor) -> InterpForM
    decreases f,
{
    InterpForM { pat: f.pat@, expr: f.expr@, body: group_view(f.body) }
}

pub open spec fn arm_seq_view(s: Seq<InterpArm>) -> Seq<InterpArmM>
    decreases s, 1int,
{
    if s.len() == 0 {
        Seq::empty()
    } else {
        seq![arm_view(s[0])] + arm_seq_view(s.drop_first())
    }
}

pub open spec fn arm_view(a: InterpArm) -> InterpArmM
    decreases a, 0int,
{
    InterpArmM { pat: a.pat@, expr: arm_expr_view(a.expr) }
}

pub open spec fn arm_expr_view(e: InterpArmExpr) -> InterpArmExprM
    decreases e,
{
    match e {
        InterpArmExpr::Group(g) => InterpArmExprM::Group(arm_group_view(g)),
        InterpArmExpr::Literal(s) => InterpArmExprM::Literal(s@),
    }
}

pub open spec fn arm_group_view(g: InterpArmGroup) -> InterpArmGroupM
    decreases g,
{
    InterpArmGroupM { group: group_view(g.group) }
}

pub open spec fn if_view(f: InterpIf) -> InterpIfM
    decreases f, 1int,
{
    InterpIfM {
        cond: f.cond@,
        then_branch: group_view(f.then_branch),
        else_if: else_if_seq_view(f.else_if@),
        else_branch: match f.else_branch {
            Some(e) => Some(else_view(e)),
            None => None,
        },
    }
}

pub open spec fn else_if_seq_view(s: Seq<InterpElseIf>) -> Seq<InterpElseIfM>
    decreases s, 0int,
{
    if s.len() == 0 {
        Seq::empty()
    } else {
        seq![else_if_view(s[0])] + else_if_seq_view(s.drop_first())
    }
}

pub open spec fn else_if_view(e: InterpElseIf) -> InterpElseIfM
    decreases e,
{
    InterpElseIfM { cond: e.cond@, group: group_view(e.group) }
}

pub open spec fn else_view(e: InterpElse) -> InterpElseM
    decreases e,
{
    InterpElseM { group: group_view(e.group) }
}

} // verus!
