//! The grammar of the Hielements language as spec functions over tokens.
//!
//! Each function says what the tokens spell from a position: the value,
//! as plain values with the spans the parser gives it, and the position
//! after it; none where the tokens spell no such thing there. The parser
//! is proved to return exactly these values, and to fail exactly where
//! they are none.

use vstd::prelude::*;
use crate::ast::{
    CheckDeclaration, ComponentRequirement, ComponentSpec, ConnectionCheckDeclaration, ConnectionCheckParameter,
    ConnectionPattern, Element, Expression, Identifier, ImportPath, ImportStatement, LanguageDeclaration, Program,
    RefDeclaration, RequirementAction, ScopeDeclaration, Template, TemplateBinding, UsesDeclaration,
    spec_expression_span,
};
use crate::lexer::{all_digits, Token, TokenKind};
use crate::parser::{block_end, identifier_like, join_lines, literal_body, number_text, unescape};
use crate::span::{spec_merge, Span};
use crate::text::{spec_trim_start_char, trimmed};

verus! {

/// An expression as plain values: what the tokens spell, with the spans
/// that the parser gives it.
pub enum ExprView {
    Identifier(Seq<char>, Span),
    /// The object, the member's name, the member's span, and the span.
    Member(Box<ExprView>, Seq<char>, Span, Span),
    Call(Box<ExprView>, Seq<ExprView>, Span),
    Str(Seq<char>, Span),
    /// A number by its text.
    Number(Seq<char>, Span),
    Boolean(bool, Span),
    List(Seq<ExprView>, Span),
}

/// The span of the expression that `v` describes.
pub open spec fn view_span(v: ExprView) -> Span {
    match v {
        ExprView::Identifier(_, s) => s,
        ExprView::Member(_, _, _, s) => s,
        ExprView::Call(_, _, s) => s,
        ExprView::Str(_, s) => s,
        ExprView::Number(_, s) => s,
        ExprView::Boolean(_, s) => s,
        ExprView::List(_, s) => s,
    }
}

/// Whether `e` is the expression that `v` describes.
pub open spec fn views_as(e: Expression, v: ExprView) -> bool
    decreases e,
{
    match e {
        Expression::Identifier(id) => v == ExprView::Identifier(id.name@, id.span),
        Expression::MemberAccess { object, member, span } => v matches ExprView::Member(o, m, ms, s)
            && views_as(*object, *o) && m == member.name@ && ms == member.span && s == span,
        Expression::FunctionCall { function, arguments, span } => v matches ExprView::Call(f, args, s)
            && views_as(*function, *f) && args.len() == arguments@.len()
            && (forall|i: int| 0 <= i < args.len() ==> views_as(#[trigger] arguments@[i], args[i])) && s == span,
        Expression::String(sl) => v == ExprView::Str(sl.value@, sl.span),
        Expression::Number(n) => v matches ExprView::Number(t, s) && number_text(n) == t && all_digits(n.whole@)
            && n.whole@.len() > 0 && all_digits(n.fraction@) && s == n.span,
        Expression::Boolean(b) => v == ExprView::Boolean(b.value, b.span),
        Expression::List { elements, span } => v matches ExprView::List(items, s) && items.len() == elements@.len()
            && (forall|i: int| 0 <= i < items.len() ==> views_as(#[trigger] elements@[i], items[i])) && s == span,
    }
}

pub proof fn lemma_view_span(e: Expression, v: ExprView)
    requires
        views_as(e, v),
    ensures
        spec_expression_span(e) == view_span(v),
{
}

/// The expression that the tokens `t` spell from position `p`, with the
/// position after it: a primary followed by member accesses `.name` and
/// calls `(args)`; none where they spell no expression there.
pub open spec fn expr_at(t: Seq<Token>, p: int) -> Option<(ExprView, int)>
    decreases t.len() - p, 3nat,
{
    if 0 <= p < t.len() {
        match primary_at(t, p) {
            Some((e, q)) => if p < q <= t.len() { postfix_from(t, q, e) } else { None },
            None => None,
        }
    } else {
        None
    }
}

/// The primary expression that the tokens spell at `p`: an identifier, a
/// string, a number, `true`, `false`, or a list.
pub open spec fn primary_at(t: Seq<Token>, p: int) -> Option<(ExprView, int)>
    decreases t.len() - p, 2nat,
{
    if 0 <= p < t.len() {
        let k = t[p].kind;
        if k == TokenKind::Identifier {
            Some((ExprView::Identifier(t[p].text@, t[p].span), p + 1))
        } else if k == TokenKind::StringSingle || k == TokenKind::StringDouble {
            Some((ExprView::Str(unescape(literal_body(t[p].text@)), t[p].span), p + 1))
        } else if k == TokenKind::Number {
            Some((ExprView::Number(t[p].text@, t[p].span), p + 1))
        } else if k == TokenKind::True {
            Some((ExprView::Boolean(true, t[p].span), p + 1))
        } else if k == TokenKind::False {
            Some((ExprView::Boolean(false, t[p].span), p + 1))
        } else if k == TokenKind::LBracket {
            list_at(t, p)
        } else {
            None
        }
    } else {
        None
    }
}

/// The list that the tokens spell at `p`, where `[` stands: items separated
/// by commas, a trailing comma allowed, then `]`.
pub open spec fn list_at(t: Seq<Token>, p: int) -> Option<(ExprView, int)>
    decreases t.len() - p, 1nat,
{
    if 0 <= p && p + 1 < t.len() {
        if t[p + 1].kind == TokenKind::RBracket {
            Some((ExprView::List(Seq::empty(), spec_merge(t[p].span, t[p + 1].span)), p + 2))
        } else {
            match expr_at(t, p + 1) {
                Some((a, q)) => if p + 1 < q <= t.len() { list_more(t, q, seq![a], t[p].span) } else { None },
                None => None,
            }
        }
    } else {
        None
    }
}

/// The rest of a list from `q`, after the items `acc`, whose `[` has span
/// `start`.
pub open spec fn list_more(t: Seq<Token>, q: int, acc: Seq<ExprView>, start: Span) -> Option<(ExprView, int)>
    decreases t.len() - q, 0nat,
{
    if 0 <= q < t.len() {
        if t[q].kind == TokenKind::Comma {
            if q + 1 < t.len() && t[q + 1].kind == TokenKind::RBracket {
                Some((ExprView::List(acc, spec_merge(start, t[q + 1].span)), q + 2))
            } else {
                match expr_at(t, q + 1) {
                    Some((a, r)) => if q + 1 < r <= t.len() { list_more(t, r, acc.push(a), start) } else { None },
                    None => None,
                }
            }
        } else if t[q].kind == TokenKind::RBracket {
            Some((ExprView::List(acc, spec_merge(start, t[q].span)), q + 1))
        } else {
            None
        }
    } else {
        None
    }
}

/// The member accesses and calls that follow the expression `e`, from `q`.
pub open spec fn postfix_from(t: Seq<Token>, q: int, e: ExprView) -> Option<(ExprView, int)>
    decreases t.len() - q, 4nat,
{
    if 0 <= q < t.len() {
        if t[q].kind == TokenKind::Dot {
            if q + 1 < t.len() && identifier_like(t[q + 1].kind) {
                postfix_from(t, q + 2, ExprView::Member(Box::new(e), t[q + 1].text@, t[q + 1].span,
                    spec_merge(view_span(e), t[q + 1].span)))
            } else {
                None
            }
        } else if t[q].kind == TokenKind::LParen {
            if q + 1 < t.len() && t[q + 1].kind == TokenKind::RParen {
                postfix_from(t, q + 2, ExprView::Call(Box::new(e), Seq::empty(), spec_merge(view_span(e), t[q + 1].span)))
            } else {
                match args_at(t, q + 1) {
                    Some((args, r)) => if q + 1 < r < t.len() && t[r].kind == TokenKind::RParen {
                        postfix_from(t, r + 1, ExprView::Call(Box::new(e), args, spec_merge(view_span(e), t[r].span)))
                    } else {
                        None
                    },
                    None => None,
                }
            }
        } else {
            Some((e, q))
        }
    } else {
        None
    }
}

/// The arguments of a call from `p`: expressions separated by commas.
pub open spec fn args_at(t: Seq<Token>, p: int) -> Option<(Seq<ExprView>, int)>
    decreases t.len() - p, 4nat,
{
    match expr_at(t, p) {
        Some((a, q)) => if p < q <= t.len() { args_more(t, q, seq![a]) } else { None },
        None => None,
    }
}

/// The rest of the arguments from `q`, after the arguments `acc`.
pub open spec fn args_more(t: Seq<Token>, q: int, acc: Seq<ExprView>) -> Option<(Seq<ExprView>, int)>
    decreases t.len() - q, 4nat,
{
    if 0 <= q < t.len() && t[q].kind == TokenKind::Comma {
        match expr_at(t, q + 1) {
            Some((a, r)) => if q + 1 < r <= t.len() { args_more(t, r, acc.push(a)) } else { None },
            None => None,
        }
    } else {
        Some((acc, q))
    }
}


/// An identifier as plain values: its name and its span.
pub type IdentView = (Seq<char>, Span);

/// A scope declaration as plain values.
pub struct ScopeView {
    pub name: IdentView,
    pub language: Option<IdentView>,
    pub binds: Option<Seq<IdentView>>,
    pub expression: Option<ExprView>,
    pub span: Span,
}

/// A ref declaration as plain values; `ty` is its type annotation.
pub struct RefView {
    pub name: IdentView,
    pub ty: IdentView,
    pub binds: Option<Seq<IdentView>>,
    pub expression: Option<ExprView>,
    pub span: Span,
}

/// A uses declaration as plain values.
pub struct UsesView {
    pub source: IdentView,
    pub target: Seq<IdentView>,
    pub span: Span,
}

/// A check declaration as plain values.
pub struct CheckView {
    pub expression: ExprView,
    pub span: Span,
}

/// A template binding as plain values.
pub struct BindingView {
    pub path: Seq<IdentView>,
    pub expression: ExprView,
    pub span: Span,
}

/// What the block of an element holds, each kind in the order written.
pub struct BodyView {
    pub scopes: Seq<ScopeView>,
    pub refs: Seq<RefView>,
    pub uses: Seq<UsesView>,
    pub checks: Seq<CheckView>,
    pub bindings: Seq<BindingView>,
    pub children: Seq<ElementView>,
}

/// An element declaration as plain values; `implements` holds each
/// template's name with the span of the implementation.
pub struct ElementView {
    pub doc: Option<Seq<char>>,
    pub name: IdentView,
    pub implements: Seq<(IdentView, Span)>,
    pub body: BodyView,
    pub span: Span,
}

/// A block that holds nothing yet.
pub open spec fn empty_body() -> BodyView {
    BodyView {
        scopes: Seq::empty(),
        refs: Seq::empty(),
        uses: Seq::empty(),
        checks: Seq::empty(),
        bindings: Seq::empty(),
        children: Seq::empty(),
    }
}

/// Whether `id` is the identifier that `v` describes.
pub open spec fn ident_views(id: Identifier, v: IdentView) -> bool {
    id.name@ == v.0 && id.span == v.1
}

/// Whether the identifiers `p` are those that `v` describes.
pub open spec fn path_views(p: Seq<Identifier>, v: Seq<IdentView>) -> bool {
    p.len() == v.len() && forall|i: int| 0 <= i < v.len() ==> ident_views(#[trigger] p[i], v[i])
}

pub open spec fn opt_ident_views(o: Option<Identifier>, v: Option<IdentView>) -> bool {
    match o {
        Some(id) => v matches Some(w) && ident_views(id, w),
        None => v is None,
    }
}

pub open spec fn opt_path_views(o: Option<Vec<Identifier>>, v: Option<Seq<IdentView>>) -> bool {
    match o {
        Some(p) => v matches Some(w) && path_views(p@, w),
        None => v is None,
    }
}

pub open spec fn opt_expr_views(o: Option<Expression>, v: Option<ExprView>) -> bool {
    match o {
        Some(e) => v matches Some(w) && views_as(e, w),
        None => v is None,
    }
}

pub open spec fn scope_views(sc: ScopeDeclaration, v: ScopeView) -> bool {
    &&& ident_views(sc.name, v.name)
    &&& opt_ident_views(sc.language, v.language)
    &&& opt_path_views(sc.binds, v.binds)
    &&& opt_expr_views(sc.expression, v.expression)
    &&& sc.span == v.span
}

pub open spec fn ref_views(rd: RefDeclaration, v: RefView) -> bool {
    &&& ident_views(rd.name, v.name)
    &&& ident_views(rd.type_annotation.type_ident, v.ty)
    &&& rd.type_annotation.span == v.ty.1
    &&& opt_path_views(rd.binds, v.binds)
    &&& opt_expr_views(rd.expression, v.expression)
    &&& rd.span == v.span
}

pub open spec fn uses_views(u: UsesDeclaration, v: UsesView) -> bool {
    ident_views(u.source, v.source) && path_views(u.target@, v.target) && u.span == v.span
}

pub open spec fn check_views(c: CheckDeclaration, v: CheckView) -> bool {
    views_as(c.expression, v.expression) && c.span == v.span
}

pub open spec fn binding_views(b: TemplateBinding, v: BindingView) -> bool {
    path_views(b.path@, v.path) && views_as(b.expression, v.expression) && b.span == v.span
}

pub open spec fn doc_views(d: Option<String>, v: Option<Seq<char>>) -> bool {
    v == doc_view(d)
}

/// A documentation comment as plain values.
pub open spec fn doc_view(d: Option<String>) -> Option<Seq<char>> {
    match d {
        Some(s) => Some(s@),
        None => None,
    }
}

/// Whether `e` is the element that `v` describes.
pub open spec fn element_views(e: Element, v: ElementView) -> bool
    decreases e,
{
    &&& doc_views(e.doc_comment, v.doc)
    &&& ident_views(e.name, v.name)
    &&& e.implements@.len() == v.implements.len()
    &&& (forall|i: int| 0 <= i < v.implements.len() ==> ident_views(#[trigger] e.implements@[i].template_name, v.implements[i].0)
        && e.implements@[i].span == v.implements[i].1)
    &&& e.scopes@.len() == v.body.scopes.len()
    &&& (forall|i: int| 0 <= i < v.body.scopes.len() ==> scope_views(#[trigger] e.scopes@[i], v.body.scopes[i]))
    &&& e.refs@.len() == v.body.refs.len()
    &&& (forall|i: int| 0 <= i < v.body.refs.len() ==> ref_views(#[trigger] e.refs@[i], v.body.refs[i]))
    &&& e.uses@.len() == v.body.uses.len()
    &&& (forall|i: int| 0 <= i < v.body.uses.len() ==> uses_views(#[trigger] e.uses@[i], v.body.uses[i]))
    &&& e.checks@.len() == v.body.checks.len()
    &&& (forall|i: int| 0 <= i < v.body.checks.len() ==> check_views(#[trigger] e.checks@[i], v.body.checks[i]))
    &&& e.template_bindings@.len() == v.body.bindings.len()
    &&& (forall|i: int| 0 <= i < v.body.bindings.len() ==> binding_views(#[trigger] e.template_bindings@[i], v.body.bindings[i]))
    &&& e.component_requirements@.len() == 0
    &&& e.children@.len() == v.body.children.len()
    &&& (forall|i: int| 0 <= i < v.body.children.len() ==> element_views(#[trigger] e.children@[i], v.body.children[i]))
    &&& e.span == v.span
}

/// An element is described by a view whose parts each describe its parts.
pub proof fn lemma_element_views_parts(e: Element, v: ElementView)
    requires
        doc_views(e.doc_comment, v.doc),
        ident_views(e.name, v.name),
        e.implements@.len() == v.implements.len(),
        forall|i: int| 0 <= i < v.implements.len() ==> ident_views(#[trigger] e.implements@[i].template_name, v.implements[i].0)
            && e.implements@[i].span == v.implements[i].1,
        items_view(e.scopes@, e.refs@, e.uses@, e.checks@, e.template_bindings@, v.body),
        children_view(e.children@, v.body.children),
        e.component_requirements@.len() == 0,
        e.span == v.span,
    ensures
        element_views(e, v),
{
}

/// The span of the token before `q`, or of the token at `q` at the start.
pub open spec fn prev_span(t: Seq<Token>, q: int) -> Span {
    if q > 0 {
        t[q - 1].span
    } else {
        t[q].span
    }
}

/// The position after the newlines from `q`.
pub open spec fn skip_nl(t: Seq<Token>, q: int) -> int
    decreases t.len() - q,
{
    if 0 <= q < t.len() && t[q].kind == TokenKind::Newline {
        skip_nl(t, q + 1)
    } else {
        q
    }
}

/// The position after the newlines, indents and dedents from `q`.
pub open spec fn skip_nl_indent(t: Seq<Token>, q: int) -> int
    decreases t.len() - q,
{
    if 0 <= q < t.len() && (t[q].kind == TokenKind::Newline || t[q].kind == TokenKind::Indent
        || t[q].kind == TokenKind::Dedent) {
        skip_nl_indent(t, q + 1)
    } else {
        q
    }
}

pub proof fn lemma_skip_nl(t: Seq<Token>, q: int)
    requires
        0 <= q <= t.len(),
    ensures
        q <= skip_nl(t, q) <= t.len(),
    decreases t.len() - q,
{
    if q < t.len() && t[q].kind == TokenKind::Newline {
        lemma_skip_nl(t, q + 1);
    }
}

pub proof fn lemma_skip_nl_indent(t: Seq<Token>, q: int)
    requires
        0 <= q <= t.len(),
    ensures
        q <= skip_nl_indent(t, q) <= t.len(),
    decreases t.len() - q,
{
    if q < t.len() && (t[q].kind == TokenKind::Newline || t[q].kind == TokenKind::Indent
        || t[q].kind == TokenKind::Dedent) {
        lemma_skip_nl_indent(t, q + 1);
    }
}

/// The layout between the items of a block: newlines, and in brace blocks
/// indents and dedents too.
pub open spec fn skip_layout(t: Seq<Token>, q: int, braces: bool) -> int {
    if braces {
        skip_nl_indent(t, q)
    } else {
        skip_nl(t, q)
    }
}

/// The identifier (or keyword used as one) at `p`.
pub open spec fn ident_at(t: Seq<Token>, p: int) -> Option<(IdentView, int)> {
    if 0 <= p < t.len() && identifier_like(t[p].kind) {
        Some(((t[p].text@, t[p].span), p + 1))
    } else {
        None
    }
}

/// Identifiers joined by dots from `p`.
pub open spec fn path_at(t: Seq<Token>, p: int) -> Option<(Seq<IdentView>, int)> {
    match ident_at(t, p) {
        Some((id, q)) => path_more(t, q, seq![id]),
        None => None,
    }
}

/// The rest of a dotted path from `q`, after the identifiers `acc`.
pub open spec fn path_more(t: Seq<Token>, q: int, acc: Seq<IdentView>) -> Option<(Seq<IdentView>, int)>
    decreases t.len() - q,
{
    if 0 <= q < t.len() && t[q].kind == TokenKind::Dot {
        match ident_at(t, q + 1) {
            Some((id, r)) => path_more(t, r, acc.push(id)),
            None => None,
        }
    } else {
        Some((acc, q))
    }
}

/// The end of a line at `q`: a newline, consumed, or the end of input or a
/// dedent, left in place.
pub open spec fn newline_end(t: Seq<Token>, q: int) -> Option<int> {
    if 0 <= q < t.len() {
        if t[q].kind == TokenKind::Newline {
            Some(q + 1)
        } else if t[q].kind == TokenKind::Eof || t[q].kind == TokenKind::Dedent {
            Some(q)
        } else {
            None
        }
    } else {
        None
    }
}

/// The language of a scope at `q`: `<lang>`, `: lang`, or none.
pub open spec fn language_part(t: Seq<Token>, q: int) -> Option<(Option<IdentView>, int)> {
    if 0 <= q < t.len() && t[q].kind == TokenKind::LAngle {
        match ident_at(t, q + 1) {
            Some((id, r)) => if 0 <= r < t.len() && t[r].kind == TokenKind::RAngle {
                Some((Some(id), r + 1))
            } else {
                None
            },
            None => None,
        }
    } else if 0 <= q < t.len() && t[q].kind == TokenKind::Colon {
        match ident_at(t, q + 1) {
            Some((id, r)) => Some((Some(id), r)),
            None => None,
        }
    } else {
        Some((None, q))
    }
}

/// A `binds path` clause at `q`, or none.
pub open spec fn binds_part(t: Seq<Token>, q: int) -> Option<(Option<Seq<IdentView>>, int)> {
    if 0 <= q < t.len() && t[q].kind == TokenKind::Binds {
        match path_at(t, q + 1) {
            Some((path, r)) => Some((Some(path), r)),
            None => None,
        }
    } else {
        Some((None, q))
    }
}

/// A `= expression` clause at `q`, or none.
pub open spec fn value_part(t: Seq<Token>, q: int) -> Option<(Option<ExprView>, int)> {
    if 0 <= q < t.len() && t[q].kind == TokenKind::Equals {
        match expr_at(t, q + 1) {
            Some((e, r)) => Some((Some(e), r)),
            None => None,
        }
    } else {
        Some((None, q))
    }
}

/// A scope declaration at `p`: `scope name [<lang> | : lang] [binds path] [= expression]`
/// and the end of the line.
#[verifier::opaque]
pub open spec fn scope_at(t: Seq<Token>, p: int) -> Option<(ScopeView, int)> {
    if 0 <= p < t.len() && t[p].kind == TokenKind::Scope {
        match ident_at(t, p + 1) {
            Some((name, q1)) => match language_part(t, q1) {
                Some((language, q2)) => match binds_part(t, q2) {
                    Some((binds, q3)) => match value_part(t, q3) {
                        Some((expression, q4)) => match newline_end(t, q4) {
                            Some(q5) => Some((ScopeView { name, language, binds, expression,
                                span: spec_merge(t[p].span, prev_span(t, q5)) }, q5)),
                            None => None,
                        },
                        None => None,
                    },
                    None => None,
                },
                None => None,
            },
            None => None,
        }
    } else {
        None
    }
}

/// A ref declaration at `p`: `ref name: Type [binds path] [= expression]`
/// (`connection_point` in place of `ref`) and the end of the line.
#[verifier::opaque]
pub open spec fn ref_at(t: Seq<Token>, p: int) -> Option<(RefView, int)> {
    if 0 <= p < t.len() && (t[p].kind == TokenKind::Ref || t[p].kind == TokenKind::ConnectionPoint) {
        match ident_at(t, p + 1) {
            Some((name, q1)) => if 0 <= q1 < t.len() && t[q1].kind == TokenKind::Colon {
                match ident_at(t, q1 + 1) {
                    Some((ty, q2)) => match binds_part(t, q2) {
                        Some((binds, q3)) => match value_part(t, q3) {
                            Some((expression, q4)) => match newline_end(t, q4) {
                                Some(q5) => Some((RefView { name, ty, binds, expression,
                                    span: spec_merge(t[p].span, prev_span(t, q5)) }, q5)),
                                None => None,
                            },
                            None => None,
                        },
                        None => None,
                    },
                    None => None,
                }
            } else {
                None
            },
            None => None,
        }
    } else {
        None
    }
}

/// A uses declaration at `p`: `source uses target.path` and the end of the line.
#[verifier::opaque]
pub open spec fn uses_at(t: Seq<Token>, p: int) -> Option<(UsesView, int)> {
    if 0 <= p && p + 1 < t.len() && t[p].kind == TokenKind::Identifier && t[p + 1].kind == TokenKind::Uses {
        match path_at(t, p + 2) {
            Some((target, q)) => match newline_end(t, q) {
                Some(r) => Some((UsesView { source: (t[p].text@, t[p].span), target,
                    span: spec_merge(t[p].span, prev_span(t, r)) }, r)),
                None => None,
            },
            None => None,
        }
    } else {
        None
    }
}

/// A check declaration at `p`: `check expression` and the end of the line.
#[verifier::opaque]
pub open spec fn check_at(t: Seq<Token>, p: int) -> Option<(CheckView, int)> {
    if 0 <= p < t.len() && t[p].kind == TokenKind::Check {
        match expr_at(t, p + 1) {
            Some((e, q)) => match newline_end(t, q) {
                Some(r) => Some((CheckView { expression: e, span: spec_merge(t[p].span, prev_span(t, r)) }, r)),
                None => None,
            },
            None => None,
        }
    } else {
        None
    }
}

/// A template binding at `p`: a dotted path of two or more identifiers,
/// `=`, an expression and the end of the line.
#[verifier::opaque]
pub open spec fn binding_at(t: Seq<Token>, p: int) -> Option<(BindingView, int)> {
    match path_at(t, p) {
        Some((path, q)) => if path.len() >= 2 && 0 <= q < t.len() && t[q].kind == TokenKind::Equals {
            match expr_at(t, q + 1) {
                Some((e, r)) => match newline_end(t, r) {
                    Some(s) => Some((BindingView { path, expression: e, span: spec_merge(t[p].span, prev_span(t, s)) }, s)),
                    None => None,
                },
                None => None,
            }
        } else {
            None
        },
        None => None,
    }
}

/// The lines of the documentation comments from `q`, after the lines
/// `acc`: each without its leading `#` characters and the white space
/// around it, newlines after each skipped; with the position after them.
pub open spec fn doc_lines(t: Seq<Token>, q: int, acc: Seq<Seq<char>>) -> (Seq<Seq<char>>, int)
    decreases t.len() - q,
{
    if 0 <= q < t.len() && t[q].kind == TokenKind::DocComment {
        proof {
            lemma_skip_nl(t, q + 1);
        }
        doc_lines(t, skip_nl(t, q + 1), acc.push(trimmed(spec_trim_start_char(t[q].text@, '#'))))
    } else {
        (acc, q)
    }
}

/// The documentation comment at `q`, its lines joined with line breaks;
/// none where no documentation comment stands there.
pub open spec fn doc_at(t: Seq<Token>, q: int) -> (Option<Seq<char>>, int) {
    let (lines, r) = doc_lines(t, q, Seq::empty());
    (if lines.len() == 0 { None } else { Some(join_lines(lines)) }, r)
}

pub proof fn lemma_doc_lines(t: Seq<Token>, q: int, acc: Seq<Seq<char>>)
    requires
        0 <= q <= t.len(),
    ensures
        q <= doc_lines(t, q, acc).1 <= t.len(),
    decreases t.len() - q,
{
    if 0 <= q < t.len() && t[q].kind == TokenKind::DocComment {
        lemma_skip_nl(t, q + 1);
        lemma_doc_lines(t, skip_nl(t, q + 1), acc.push(trimmed(spec_trim_start_char(t[q].text@, '#'))));
    }
}

/// The templates an element implements, from `q`: identifiers separated by
/// commas, after the implementations `acc`.
pub open spec fn impl_list(t: Seq<Token>, q: int, acc: Seq<(IdentView, Span)>) -> Option<(Seq<(IdentView, Span)>, int)>
    decreases t.len() - q,
{
    match ident_at(t, q) {
        Some((id, r)) => {
            let item = (id, spec_merge(t[q].span, t[q].span));
            if 0 <= r < t.len() && t[r].kind == TokenKind::Comma {
                impl_list(t, r + 1, acc.push(item))
            } else {
                Some((acc.push(item), r))
            }
        },
        None => None,
    }
}

/// An `implements a, b` clause at `q`, or none.
pub open spec fn implements_part(t: Seq<Token>, q: int) -> Option<(Seq<(IdentView, Span)>, int)> {
    if 0 <= q < t.len() && t[q].kind == TokenKind::Implements {
        impl_list(t, q + 1, Seq::empty())
    } else {
        Some((Seq::empty(), q))
    }
}

/// The opening of a block at `q`: `{` and the layout after it (a brace
/// block), or `:`, newlines and an indent.
pub open spec fn open_block_at(t: Seq<Token>, q: int) -> Option<(bool, int)> {
    if 0 <= q < t.len() && t[q].kind == TokenKind::LBrace {
        Some((true, skip_nl_indent(t, q + 1)))
    } else if 0 <= q < t.len() && t[q].kind == TokenKind::Colon {
        let s = skip_nl(t, q + 1);
        if 0 <= s < t.len() && t[s].kind == TokenKind::Indent {
            Some((false, s + 1))
        } else {
            None
        }
    } else {
        None
    }
}

pub open spec fn with_scope(b: BodyView, x: ScopeView) -> BodyView {
    BodyView { scopes: b.scopes.push(x), ..b }
}

pub open spec fn with_ref(b: BodyView, x: RefView) -> BodyView {
    BodyView { refs: b.refs.push(x), ..b }
}

pub open spec fn with_uses(b: BodyView, x: UsesView) -> BodyView {
    BodyView { uses: b.uses.push(x), ..b }
}

pub open spec fn with_check(b: BodyView, x: CheckView) -> BodyView {
    BodyView { checks: b.checks.push(x), ..b }
}

pub open spec fn with_binding(b: BodyView, x: BindingView) -> BodyView {
    BodyView { bindings: b.bindings.push(x), ..b }
}

pub open spec fn with_child(b: BodyView, x: ElementView) -> BodyView {
    BodyView { children: b.children.push(x), ..b }
}

/// A scope or ref of the block without an expression.
pub open spec fn has_unbounded(b: BodyView) -> bool {
    (exists|i: int| 0 <= i < b.scopes.len() && (#[trigger] b.scopes[i]).expression is None)
        || (exists|i: int| 0 <= i < b.refs.len() && (#[trigger] b.refs[i]).expression is None)
}

/// An element declaration at `p`, with the documentation comment `doc`
/// that stood before it: `element name [implements a, b]`, a block of
/// scopes, refs, uses, checks, template bindings and child elements, and
/// the end of the block. Outside templates (`in_template` false) every
/// scope and ref must have an expression.
pub open spec fn element_at(t: Seq<Token>, p: int, doc: Option<Seq<char>>, in_template: bool) -> Option<(ElementView, int)>
    decreases t.len() - p, 0nat,
{
    if 0 <= p < t.len() && t[p].kind == TokenKind::Element {
        match ident_at(t, p + 1) {
            Some((name, q1)) => match implements_part(t, q1) {
                Some((implements, q2)) => match open_block_at(t, q2) {
                    Some((braces, q3)) => if p < q3 <= t.len() {
                        match block_items(t, q3, braces, in_template, empty_body()) {
                            Some((body, q4)) => if p < q4 < t.len() {
                                let q5 = if t[q4].kind == block_end(braces) { q4 + 1 } else { q4 };
                                if !in_template && has_unbounded(body) {
                                    None
                                } else {
                                    Some((ElementView { doc, name, implements, body,
                                        span: spec_merge(t[p].span, prev_span(t, q5)) }, q5))
                                }
                            } else {
                                None
                            },
                            None => None,
                        }
                    } else {
                        None
                    },
                    None => None,
                },
                None => None,
            },
            None => None,
        }
    } else {
        None
    }
}

/// The items of a block from `q`, after the items `acc`, up to the end of
/// the block (`}` or a dedent, left in place) or of the input.
pub open spec fn block_items(t: Seq<Token>, q: int, braces: bool, in_template: bool, acc: BodyView) -> Option<(BodyView, int)>
    decreases t.len() - q, 1nat,
{
    if 0 <= q <= t.len() {
        let s = skip_layout(t, q, braces);
        proof {
            lemma_skip_nl(t, q);
            lemma_skip_nl_indent(t, q);
        }
        if 0 <= s < t.len() {
            if t[s].kind == block_end(braces) || t[s].kind == TokenKind::Eof {
                Some((acc, s))
            } else {
                let (doc, d) = doc_at(t, s);
                proof {
                    lemma_doc_lines(t, s, Seq::empty());
                }
                if 0 <= d < t.len() {
                    let k = t[d].kind;
                    if k == TokenKind::Scope {
                        match scope_at(t, d) {
                            Some((x, r)) => if q < r <= t.len() { block_items(t, r, braces, in_template, with_scope(acc, x)) } else { None },
                            None => None,
                        }
                    } else if k == TokenKind::Ref || k == TokenKind::ConnectionPoint {
                        match ref_at(t, d) {
                            Some((x, r)) => if q < r <= t.len() { block_items(t, r, braces, in_template, with_ref(acc, x)) } else { None },
                            None => None,
                        }
                    } else if k == TokenKind::Check {
                        match check_at(t, d) {
                            Some((x, r)) => if q < r <= t.len() { block_items(t, r, braces, in_template, with_check(acc, x)) } else { None },
                            None => None,
                        }
                    } else if k == TokenKind::Element {
                        match element_at(t, d, doc, in_template) {
                            Some((x, r)) => if q < r <= t.len() { block_items(t, r, braces, in_template, with_child(acc, x)) } else { None },
                            None => None,
                        }
                    } else if k == TokenKind::Identifier && d + 1 < t.len() && t[d + 1].kind == TokenKind::Uses {
                        match uses_at(t, d) {
                            Some((x, r)) => if q < r <= t.len() { block_items(t, r, braces, in_template, with_uses(acc, x)) } else { None },
                            None => None,
                        }
                    } else if k == TokenKind::Identifier && d + 1 < t.len() && t[d + 1].kind == TokenKind::Dot {
                        match binding_at(t, d) {
                            Some((x, r)) => if q < r <= t.len() { block_items(t, r, braces, in_template, with_binding(acc, x)) } else { None },
                            None => None,
                        }
                    } else if k == block_end(braces) || k == TokenKind::Eof {
                        Some((acc, d))
                    } else {
                        None
                    }
                } else {
                    None
                }
            }
        } else {
            None
        }
    } else {
        None
    }
}

/// Whether the declarations of a block are those that `b` describes, all
/// but the child elements.
pub open spec fn items_view(
    scopes: Seq<ScopeDeclaration>,
    refs: Seq<RefDeclaration>,
    uses: Seq<UsesDeclaration>,
    checks: Seq<CheckDeclaration>,
    bindings: Seq<TemplateBinding>,
    b: BodyView,
) -> bool {
    &&& scopes.len() == b.scopes.len()
    &&& (forall|i: int| 0 <= i < b.scopes.len() ==> scope_views(#[trigger] scopes[i], b.scopes[i]))
    &&& refs.len() == b.refs.len()
    &&& (forall|i: int| 0 <= i < b.refs.len() ==> ref_views(#[trigger] refs[i], b.refs[i]))
    &&& uses.len() == b.uses.len()
    &&& (forall|i: int| 0 <= i < b.uses.len() ==> uses_views(#[trigger] uses[i], b.uses[i]))
    &&& checks.len() == b.checks.len()
    &&& (forall|i: int| 0 <= i < b.checks.len() ==> check_views(#[trigger] checks[i], b.checks[i]))
    &&& bindings.len() == b.bindings.len()
    &&& (forall|i: int| 0 <= i < b.bindings.len() ==> binding_views(#[trigger] bindings[i], b.bindings[i]))
}

/// Whether the elements `es` are those that `v` describes.
pub open spec fn children_view(es: Seq<Element>, v: Seq<ElementView>) -> bool {
    es.len() == v.len() && forall|i: int| 0 <= i < v.len() ==> element_views(#[trigger] es[i], v[i])
}

/// A connection pattern as plain values.
pub struct PatternView {
    pub path: Seq<IdentView>,
    pub wildcard: bool,
    pub span: Span,
}

/// What a component requirement is about, as plain values.
pub enum ComponentView {
    Scope(ScopeView),
    Check(CheckView),
    /// The name, the type, the template it implements, and its body.
    Element(IdentView, Option<IdentView>, Option<IdentView>, Option<ElementView>),
    Connection(PatternView),
    /// The name, the type, and the expression.
    Ref(IdentView, IdentView, Option<ExprView>),
    Language(IdentView),
}

/// A component requirement as plain values.
pub struct RequirementView {
    pub action: RequirementAction,
    pub descendant: bool,
    pub component: ComponentView,
    pub span: Span,
}

/// What the block of a template holds, each kind in the order written.
pub struct TemplateBodyView {
    pub scopes: Seq<ScopeView>,
    pub refs: Seq<RefView>,
    pub checks: Seq<CheckView>,
    pub requirements: Seq<RequirementView>,
    pub elements: Seq<ElementView>,
}

/// A template declaration as plain values.
pub struct TemplateView {
    pub doc: Option<Seq<char>>,
    pub name: IdentView,
    pub body: TemplateBodyView,
    pub span: Span,
}

pub open spec fn pattern_views(p: ConnectionPattern, v: PatternView) -> bool {
    path_views(p.path@, v.path) && p.wildcard == v.wildcard && p.span == v.span
}

pub open spec fn component_views(c: ComponentSpec, v: ComponentView) -> bool {
    match c {
        ComponentSpec::Scope(sc) => v matches ComponentView::Scope(w) && scope_views(sc, w),
        ComponentSpec::Check(ch) => v matches ComponentView::Check(w) && check_views(ch, w),
        ComponentSpec::Element { name, type_annotation, implements, body } => v matches ComponentView::Element(
            n,
            ty,
            im,
            b,
        ) && ident_views(name, n) && match type_annotation {
            Some(ta) => ty matches Some(w) && ident_views(ta.type_ident, w) && ta.span == w.1,
            None => ty is None,
        } && opt_ident_views(implements, im) && match body {
            Some(e) => b matches Some(w) && element_views(*e, w),
            None => b is None,
        },
        ComponentSpec::Connection(p) => v matches ComponentView::Connection(w) && pattern_views(p, w),
        ComponentSpec::Ref { name, type_annotation, expression } => v matches ComponentView::Ref(n, ty, e)
            && ident_views(name, n) && ident_views(type_annotation.type_ident, ty) && type_annotation.span == ty.1
            && opt_expr_views(expression, e),
        ComponentSpec::Language(l) => v matches ComponentView::Language(w) && ident_views(l, w),
    }
}

pub open spec fn requirement_views(r: ComponentRequirement, v: RequirementView) -> bool {
    r.action == v.action && r.is_descendant == v.descendant && component_views(r.component, v.component)
        && r.span == v.span
}

/// Whether `tm` is the template that `v` describes.
pub open spec fn template_views(tm: Template, v: TemplateView) -> bool {
    &&& doc_views(tm.doc_comment, v.doc)
    &&& ident_views(tm.name, v.name)
    &&& tm.scopes@.len() == v.body.scopes.len()
    &&& (forall|i: int| 0 <= i < v.body.scopes.len() ==> scope_views(#[trigger] tm.scopes@[i], v.body.scopes[i]))
    &&& tm.refs@.len() == v.body.refs.len()
    &&& (forall|i: int| 0 <= i < v.body.refs.len() ==> ref_views(#[trigger] tm.refs@[i], v.body.refs[i]))
    &&& tm.checks@.len() == v.body.checks.len()
    &&& (forall|i: int| 0 <= i < v.body.checks.len() ==> check_views(#[trigger] tm.checks@[i], v.body.checks[i]))
    &&& tm.component_requirements@.len() == v.body.requirements.len()
    &&& (forall|i: int| 0 <= i < v.body.requirements.len() ==> requirement_views(
        #[trigger] tm.component_requirements@[i],
        v.body.requirements[i],
    ))
    &&& children_view(tm.elements@, v.body.elements)
    &&& tm.span == v.span
}

/// The rest of a connection pattern from `q`, after the identifiers `acc`:
/// `.name` steps, and `.*` for a wildcard; a dot followed by anything else
/// ends the pattern after the dot.
pub open spec fn pattern_more(t: Seq<Token>, q: int, acc: Seq<IdentView>) -> (Seq<IdentView>, bool, int)
    decreases t.len() - q,
{
    if 0 <= q && q + 1 < t.len() && t[q].kind == TokenKind::Dot {
        if t[q + 1].kind == TokenKind::Star {
            (acc, true, q + 2)
        } else if t[q + 1].kind == TokenKind::Identifier {
            pattern_more(t, q + 2, acc.push((t[q + 1].text@, t[q + 1].span)))
        } else {
            (acc, false, q + 1)
        }
    } else {
        (acc, false, q)
    }
}

/// A connection pattern at `p`, such as `api.public` or `database.*`.
#[verifier::opaque]
pub open spec fn pattern_at(t: Seq<Token>, p: int) -> Option<(PatternView, int)> {
    match ident_at(t, p) {
        Some((id, q)) => {
            let (path, wildcard, r) = pattern_more(t, q, seq![id]);
            Some((PatternView { path, wildcard, span: spec_merge(t[p].span, prev_span(t, r)) }, r))
        },
        None => None,
    }
}

/// The type of an element component at `q`, after its name: `: Type`
/// where an implements clause, a newline or a colon follows; none
/// otherwise, the colon then left in place.
pub open spec fn component_type_part(t: Seq<Token>, q: int) -> (Option<IdentView>, int) {
    if 0 <= q && q + 2 < t.len() && t[q].kind == TokenKind::Colon && t[q + 1].kind == TokenKind::Identifier
        && (t[q + 2].kind == TokenKind::Implements || t[q + 2].kind == TokenKind::Newline
        || t[q + 2].kind == TokenKind::Colon) {
        (Some((t[q + 1].text@, t[q + 1].span)), q + 2)
    } else {
        (None, q)
    }
}

/// The items of an element component's body from `q`, after the items
/// `acc`: scopes, refs, checks and child elements, up to a dedent, the end
/// of input, or anything else (left in place).
pub open spec fn component_items(t: Seq<Token>, q: int, acc: BodyView) -> Option<(BodyView, int)>
    decreases t.len() - q,
{
    if 0 <= q <= t.len() {
        let s = skip_nl(t, q);
        proof {
            lemma_skip_nl(t, q);
        }
        if 0 <= s < t.len() {
            if t[s].kind == TokenKind::Dedent || t[s].kind == TokenKind::Eof {
                Some((acc, s))
            } else {
                let (doc, d) = doc_at(t, s);
                proof {
                    lemma_doc_lines(t, s, Seq::empty());
                }
                if 0 <= d < t.len() {
                    let k = t[d].kind;
                    if k == TokenKind::Scope {
                        match scope_at(t, d) {
                            Some((x, r)) => if q < r <= t.len() { component_items(t, r, with_scope(acc, x)) } else { None },
                            None => None,
                        }
                    } else if k == TokenKind::Ref || k == TokenKind::ConnectionPoint {
                        match ref_at(t, d) {
                            Some((x, r)) => if q < r <= t.len() { component_items(t, r, with_ref(acc, x)) } else { None },
                            None => None,
                        }
                    } else if k == TokenKind::Check {
                        match check_at(t, d) {
                            Some((x, r)) => if q < r <= t.len() { component_items(t, r, with_check(acc, x)) } else { None },
                            None => None,
                        }
                    } else if k == TokenKind::Element {
                        match element_at(t, d, doc, false) {
                            Some((x, r)) => if q < r <= t.len() { component_items(t, r, with_child(acc, x)) } else { None },
                            None => None,
                        }
                    } else if k == TokenKind::Requires || k == TokenKind::Allows || k == TokenKind::Forbids {
                        None
                    } else {
                        Some((acc, d))
                    }
                } else {
                    None
                }
            }
        } else {
            None
        }
    } else {
        None
    }
}

/// An element component at `p`: `element name [: Type] [implements t]`,
/// then `:` and an indented body, or the end of the line.
#[verifier::opaque]
pub open spec fn element_component_at(t: Seq<Token>, p: int) -> Option<(ComponentView, int)> {
    if 0 <= p < t.len() && t[p].kind == TokenKind::Element {
        match ident_at(t, p + 1) {
            Some((name, q1)) => {
                let (ty, q2) = component_type_part(t, q1);
                let im: Option<(Option<IdentView>, int)> = if 0 <= q2 < t.len() && t[q2].kind == TokenKind::Implements {
                    match ident_at(t, q2 + 1) {
                        Some((id, r)) => Some((Some(id), r)),
                        None => None,
                    }
                } else {
                    Some((None, q2))
                };
                match im {
                    Some((implements, q3)) => if 0 <= q3 < t.len() && t[q3].kind == TokenKind::Colon {
                        let s = skip_nl(t, q3 + 1);
                        if 0 <= s < t.len() && t[s].kind == TokenKind::Indent {
                            match component_items(t, s + 1, empty_body()) {
                                Some((body, e)) => if 0 <= e < t.len() {
                                    let e2 = if t[e].kind == TokenKind::Dedent { e + 1 } else { e };
                                    let imps: Seq<(IdentView, Span)> = match implements {
                                        Some(id) => seq![(id, id.1)],
                                        None => Seq::empty(),
                                    };
                                    Some((ComponentView::Element(name, ty, implements, Some(ElementView {
                                        doc: None,
                                        name,
                                        implements: imps,
                                        body,
                                        span: spec_merge(name.1, prev_span(t, e2)),
                                    })), e2))
                                } else {
                                    None
                                },
                                None => None,
                            }
                        } else {
                            Some((ComponentView::Element(name, ty, implements, None), s))
                        }
                    } else {
                        match newline_end(t, q3) {
                            Some(r) => Some((ComponentView::Element(name, ty, implements, None), r)),
                            None => None,
                        }
                    },
                    None => None,
                }
            },
            None => None,
        }
    } else {
        None
    }
}

/// A ref component at `p`: `ref name: Type [= expression]` (`connection_point`
/// in place of `ref`) and the end of the line.
#[verifier::opaque]
pub open spec fn ref_component_at(t: Seq<Token>, p: int) -> Option<(ComponentView, int)> {
    if 0 <= p < t.len() {
        match ident_at(t, p + 1) {
            Some((name, q1)) => if 0 <= q1 < t.len() && t[q1].kind == TokenKind::Colon {
                match ident_at(t, q1 + 1) {
                    Some((ty, q2)) => match value_part(t, q2) {
                        Some((expression, q3)) => match newline_end(t, q3) {
                            Some(q4) => Some((ComponentView::Ref(name, ty, expression), q4)),
                            None => None,
                        },
                        None => None,
                    },
                    None => None,
                }
            } else {
                None
            },
            None => None,
        }
    } else {
        None
    }
}

/// What a requirement is about, at `q`.
#[verifier::opaque]
pub open spec fn component_at(t: Seq<Token>, q: int) -> Option<(ComponentView, int)> {
    if 0 <= q < t.len() {
        let k = t[q].kind;
        if k == TokenKind::Scope {
            match scope_at(t, q) {
                Some((x, r)) => Some((ComponentView::Scope(x), r)),
                None => None,
            }
        } else if k == TokenKind::Check {
            match check_at(t, q) {
                Some((x, r)) => Some((ComponentView::Check(x), r)),
                None => None,
            }
        } else if k == TokenKind::Element {
            element_component_at(t, q)
        } else if k == TokenKind::Connection {
            let c = if q + 1 < t.len() && t[q + 1].kind == TokenKind::To { q + 2 } else { q + 1 };
            match pattern_at(t, c) {
                Some((x, r)) => match newline_end(t, r) {
                    Some(e) => Some((ComponentView::Connection(x), e)),
                    None => None,
                },
                None => None,
            }
        } else if k == TokenKind::Ref || k == TokenKind::ConnectionPoint {
            ref_component_at(t, q)
        } else if k == TokenKind::Implements {
            match ident_at(t, q + 1) {
                Some((id, r)) => match newline_end(t, r) {
                    Some(e) => Some((ComponentView::Element(("_anonymous"@, id.1), None, Some(id), None), e)),
                    None => None,
                },
                None => None,
            }
        } else if k == TokenKind::Language {
            match ident_at(t, q + 1) {
                Some((id, r)) => match newline_end(t, r) {
                    Some(e) => Some((ComponentView::Language(id), e)),
                    None => None,
                },
                None => None,
            }
        } else {
            None
        }
    } else {
        None
    }
}

/// A component requirement at `p`, whose keyword gives `action`:
/// `(requires | allows | forbids) [descendant]` and what it is about.
#[verifier::opaque]
pub open spec fn requirement_at(t: Seq<Token>, p: int, action: RequirementAction) -> Option<(RequirementView, int)> {
    if 0 <= p && p + 1 < t.len() {
        let descendant = t[p + 1].kind == TokenKind::Descendant;
        let q = if descendant { p + 2 } else { p + 1 };
        match component_at(t, q) {
            Some((component, r)) => Some((RequirementView { action, descendant, component,
                span: spec_merge(t[p].span, prev_span(t, r)) }, r)),
            None => None,
        }
    } else {
        None
    }
}

pub open spec fn template_body_empty() -> TemplateBodyView {
    TemplateBodyView {
        scopes: Seq::empty(),
        refs: Seq::empty(),
        checks: Seq::empty(),
        requirements: Seq::empty(),
        elements: Seq::empty(),
    }
}

/// The items of a template's block from `q`, after the items `acc`, up to
/// the end of the block (left in place) or of the input.
pub open spec fn template_items(t: Seq<Token>, q: int, braces: bool, acc: TemplateBodyView) -> Option<(TemplateBodyView, int)>
    decreases t.len() - q,
{
    if 0 <= q <= t.len() {
        let s = skip_layout(t, q, braces);
        proof {
            lemma_skip_nl(t, q);
            lemma_skip_nl_indent(t, q);
        }
        if 0 <= s < t.len() {
            if t[s].kind == block_end(braces) || t[s].kind == TokenKind::Eof {
                Some((acc, s))
            } else {
                let (doc, d) = doc_at(t, s);
                proof {
                    lemma_doc_lines(t, s, Seq::empty());
                }
                if 0 <= d < t.len() {
                    let k = t[d].kind;
                    if k == TokenKind::Scope {
                        match scope_at(t, d) {
                            Some((x, r)) => if q < r <= t.len() {
                                template_items(t, r, braces, TemplateBodyView { scopes: acc.scopes.push(x), ..acc })
                            } else {
                                None
                            },
                            None => None,
                        }
                    } else if k == TokenKind::Ref || k == TokenKind::ConnectionPoint {
                        match ref_at(t, d) {
                            Some((x, r)) => if q < r <= t.len() {
                                template_items(t, r, braces, TemplateBodyView { refs: acc.refs.push(x), ..acc })
                            } else {
                                None
                            },
                            None => None,
                        }
                    } else if k == TokenKind::Check {
                        match check_at(t, d) {
                            Some((x, r)) => if q < r <= t.len() {
                                template_items(t, r, braces, TemplateBodyView { checks: acc.checks.push(x), ..acc })
                            } else {
                                None
                            },
                            None => None,
                        }
                    } else if k == TokenKind::Element {
                        match element_at(t, d, doc, true) {
                            Some((x, r)) => if q < r <= t.len() {
                                template_items(t, r, braces, TemplateBodyView { elements: acc.elements.push(x), ..acc })
                            } else {
                                None
                            },
                            None => None,
                        }
                    } else if k == TokenKind::Requires || k == TokenKind::Allows || k == TokenKind::Forbids {
                        let action = if k == TokenKind::Requires {
                            RequirementAction::Requires
                        } else if k == TokenKind::Allows {
                            RequirementAction::Allows
                        } else {
                            RequirementAction::Forbids
                        };
                        match requirement_at(t, d, action) {
                            Some((x, r)) => if q < r <= t.len() {
                                template_items(t, r, braces, TemplateBodyView { requirements: acc.requirements.push(x), ..acc })
                            } else {
                                None
                            },
                            None => None,
                        }
                    } else if k == block_end(braces) || k == TokenKind::Eof {
                        Some((acc, d))
                    } else {
                        None
                    }
                } else {
                    None
                }
            }
        } else {
            None
        }
    } else {
        None
    }
}

/// A template declaration at `p`, with the documentation comment `doc`
/// that stood before it: `template name`, a block of scopes, refs, checks,
/// elements and requirements, and the end of the block.
#[verifier::opaque]
pub open spec fn template_at(t: Seq<Token>, p: int, doc: Option<Seq<char>>) -> Option<(TemplateView, int)> {
    if 0 <= p < t.len() && t[p].kind == TokenKind::Template {
        match ident_at(t, p + 1) {
            Some((name, q1)) => match open_block_at(t, q1) {
                Some((braces, q2)) => match template_items(t, q2, braces, template_body_empty()) {
                    Some((body, q3)) => if 0 <= q3 < t.len() {
                        let q4 = if t[q3].kind == block_end(braces) { q3 + 1 } else { q3 };
                        Some((TemplateView { doc, name, body, span: spec_merge(t[p].span, prev_span(t, q4)) }, q4))
                    } else {
                        None
                    },
                    None => None,
                },
                None => None,
            },
            None => None,
        }
    } else {
        None
    }
}

/// A parameter of a connection check as plain values.
pub struct ParamView {
    pub name: IdentView,
    pub span: Span,
}

/// A connection check as plain values.
pub struct ConnectionCheckView {
    pub name: IdentView,
    pub params: Seq<ParamView>,
    pub body: ExprView,
    pub span: Span,
}

/// A language declaration as plain values.
pub struct LanguageView {
    pub name: IdentView,
    pub checks: Seq<ConnectionCheckView>,
    pub span: Span,
}

/// The path of an import as plain values.
pub enum ImportPathView {
    Ident(Seq<IdentView>),
    /// The string's value and span.
    Str(Seq<char>, Span),
}

/// An import statement as plain values.
pub struct ImportView {
    pub path: ImportPathView,
    pub alias: Option<IdentView>,
    pub selective: Seq<IdentView>,
    pub span: Span,
}

/// The declarations after the imports, each kind in the order written.
pub struct DeclsView {
    pub languages: Seq<LanguageView>,
    pub templates: Seq<TemplateView>,
    pub elements: Seq<ElementView>,
}

/// A program as plain values.
pub struct ProgramView {
    pub imports: Seq<ImportView>,
    pub languages: Seq<LanguageView>,
    pub templates: Seq<TemplateView>,
    pub elements: Seq<ElementView>,
    pub span: Span,
}

pub open spec fn param_views(x: ConnectionCheckParameter, v: ParamView) -> bool {
    ident_views(x.name, v.name) && x.span == v.span
}

pub open spec fn connection_check_views(c: ConnectionCheckDeclaration, v: ConnectionCheckView) -> bool {
    &&& ident_views(c.name, v.name)
    &&& c.parameters@.len() == v.params.len()
    &&& (forall|i: int| 0 <= i < v.params.len() ==> param_views(#[trigger] c.parameters@[i], v.params[i]))
    &&& views_as(c.body, v.body)
    &&& c.span == v.span
}

pub open spec fn language_views(l: LanguageDeclaration, v: LanguageView) -> bool {
    &&& ident_views(l.name, v.name)
    &&& l.connection_checks@.len() == v.checks.len()
    &&& (forall|i: int| 0 <= i < v.checks.len() ==> connection_check_views(#[trigger] l.connection_checks@[i], v.checks[i]))
    &&& l.span == v.span
}

pub open spec fn import_views(i: ImportStatement, v: ImportView) -> bool {
    &&& match i.path {
        ImportPath::Identifier(parts) => v.path matches ImportPathView::Ident(w) && path_views(parts@, w),
        ImportPath::String(sl) => v.path == ImportPathView::Str(sl.value@, sl.span),
    }
    &&& opt_ident_views(i.alias, v.alias)
    &&& path_views(i.selective@, v.selective)
    &&& i.span == v.span
}

/// Whether `p` is the program that `v` describes.
pub open spec fn program_views(p: Program, v: ProgramView) -> bool {
    &&& p.imports@.len() == v.imports.len()
    &&& (forall|i: int| 0 <= i < v.imports.len() ==> import_views(#[trigger] p.imports@[i], v.imports[i]))
    &&& p.languages@.len() == v.languages.len()
    &&& (forall|i: int| 0 <= i < v.languages.len() ==> language_views(#[trigger] p.languages@[i], v.languages[i]))
    &&& p.templates@.len() == v.templates.len()
    &&& (forall|i: int| 0 <= i < v.templates.len() ==> template_views(#[trigger] p.templates@[i], v.templates[i]))
    &&& children_view(p.elements@, v.elements)
    &&& p.span == v.span
}

/// A connection check parameter at `p`: `name: scope[]`.
#[verifier::opaque]
pub open spec fn param_at(t: Seq<Token>, p: int) -> Option<(ParamView, int)> {
    match ident_at(t, p) {
        Some((name, q)) => if 0 <= q && q + 3 < t.len() && t[q].kind == TokenKind::Colon && t[q + 1].kind
            == TokenKind::Scope && t[q + 2].kind == TokenKind::LBracket && t[q + 3].kind == TokenKind::RBracket {
            Some((ParamView { name, span: spec_merge(t[p].span, t[q + 3].span) }, q + 4))
        } else {
            None
        },
        None => None,
    }
}

/// The rest of the parameters from `q`, after the parameters `acc`; a
/// trailing comma is allowed.
pub open spec fn params_more(t: Seq<Token>, q: int, acc: Seq<ParamView>) -> Option<(Seq<ParamView>, int)>
    decreases t.len() - q,
{
    if 0 <= q && q + 1 < t.len() && t[q].kind == TokenKind::Comma {
        if t[q + 1].kind == TokenKind::RParen {
            Some((acc, q + 1))
        } else {
            match param_at(t, q + 1) {
                Some((x, r)) => if q < r <= t.len() { params_more(t, r, acc.push(x)) } else { None },
                None => None,
            }
        }
    } else {
        Some((acc, q))
    }
}

/// A connection check at `p`: `connection_check name(params):`, an
/// indented expression on its own line, and the end of the block.
#[verifier::opaque]
pub open spec fn connection_check_at(t: Seq<Token>, p: int) -> Option<(ConnectionCheckView, int)> {
    if 0 <= p < t.len() && t[p].kind == TokenKind::ConnectionCheck {
        match ident_at(t, p + 1) {
            Some((name, q1)) => if 0 <= q1 && q1 + 1 < t.len() && t[q1].kind == TokenKind::LParen {
                let ps: Option<(Seq<ParamView>, int)> = if t[q1 + 1].kind == TokenKind::RParen {
                    Some((Seq::empty(), q1 + 1))
                } else {
                    match param_at(t, q1 + 1) {
                        Some((x, r)) => params_more(t, r, seq![x]),
                        None => None,
                    }
                };
                match ps {
                    Some((params, e)) => if 0 <= e && e + 1 < t.len() && t[e].kind == TokenKind::RParen
                        && t[e + 1].kind == TokenKind::Colon {
                        let s = skip_nl(t, e + 2);
                        if 0 <= s < t.len() && t[s].kind == TokenKind::Indent {
                            match expr_at(t, skip_nl(t, s + 1)) {
                                Some((body, b)) => match newline_end(t, b) {
                                    Some(n) => {
                                        let s3 = skip_nl(t, n);
                                        let s4 = if 0 <= s3 < t.len() && t[s3].kind == TokenKind::Dedent { s3 + 1 } else { s3 };
                                        Some((ConnectionCheckView { name, params, body,
                                            span: spec_merge(t[p].span, prev_span(t, s4)) }, s4))
                                    },
                                    None => None,
                                },
                                None => None,
                            }
                        } else {
                            None
                        }
                    } else {
                        None
                    },
                    None => None,
                }
            } else {
                None
            },
            None => None,
        }
    } else {
        None
    }
}

/// The connection checks of a language's block from `q`, after the checks
/// `acc`, up to a dedent or the end of input (left in place).
pub open spec fn language_items(t: Seq<Token>, q: int, acc: Seq<ConnectionCheckView>) -> Option<(Seq<ConnectionCheckView>, int)>
    decreases t.len() - q,
{
    if 0 <= q <= t.len() {
        let s = skip_nl(t, q);
        let d = doc_at(t, s).1;
        proof {
            lemma_skip_nl(t, q);
            lemma_doc_lines(t, s, Seq::empty());
        }
        if 0 <= d < t.len() {
            if t[d].kind == TokenKind::Dedent || t[d].kind == TokenKind::Eof {
                Some((acc, d))
            } else if t[d].kind == TokenKind::ConnectionCheck {
                match connection_check_at(t, d) {
                    Some((x, r)) => if q < r <= t.len() { language_items(t, r, acc.push(x)) } else { None },
                    None => None,
                }
            } else {
                None
            }
        } else {
            None
        }
    } else {
        None
    }
}

/// A language declaration at `p`: `language name` and the end of the line,
/// or `language name:` and an indented block of connection checks.
#[verifier::opaque]
pub open spec fn language_at(t: Seq<Token>, p: int) -> Option<(LanguageView, int)> {
    if 0 <= p < t.len() && t[p].kind == TokenKind::Language {
        match ident_at(t, p + 1) {
            Some((name, q1)) => if 0 <= q1 < t.len() && t[q1].kind == TokenKind::Colon {
                let s = skip_nl(t, q1 + 1);
                if 0 <= s < t.len() && t[s].kind == TokenKind::Indent {
                    match language_items(t, s + 1, Seq::empty()) {
                        Some((checks, e)) => if 0 <= e < t.len() {
                            let e2 = if t[e].kind == TokenKind::Dedent { e + 1 } else { e };
                            Some((LanguageView { name, checks, span: spec_merge(t[p].span, prev_span(t, e2)) }, e2))
                        } else {
                            None
                        },
                        None => None,
                    }
                } else {
                    None
                }
            } else {
                match newline_end(t, q1) {
                    Some(n) => Some((LanguageView { name, checks: Seq::empty(), span: spec_merge(t[p].span, prev_span(t, n)) }, n)),
                    None => None,
                }
            },
            None => None,
        }
    } else {
        None
    }
}

/// The path of an import at `p`: a string, or identifiers joined by dots.
pub open spec fn import_path_at(t: Seq<Token>, p: int) -> Option<(ImportPathView, int)> {
    if 0 <= p < t.len() && (t[p].kind == TokenKind::StringSingle || t[p].kind == TokenKind::StringDouble) {
        Some((ImportPathView::Str(unescape(literal_body(t[p].text@)), t[p].span), p + 1))
    } else {
        match path_at(t, p) {
            Some((path, q)) => Some((ImportPathView::Ident(path), q)),
            None => None,
        }
    }
}

/// The rest of a list of names from `q`, after the names `acc`: `, name` steps.
pub open spec fn names_more(t: Seq<Token>, q: int, acc: Seq<IdentView>) -> Option<(Seq<IdentView>, int)>
    decreases t.len() - q,
{
    if 0 <= q < t.len() && t[q].kind == TokenKind::Comma {
        match ident_at(t, q + 1) {
            Some((id, r)) => names_more(t, r, acc.push(id)),
            None => None,
        }
    } else {
        Some((acc, q))
    }
}

/// An import statement at `p`: `from path import a, b` or
/// `import path [as alias]`, and the end of the line.
#[verifier::opaque]
pub open spec fn import_at(t: Seq<Token>, p: int) -> Option<(ImportView, int)> {
    if 0 <= p < t.len() && t[p].kind == TokenKind::From {
        match import_path_at(t, p + 1) {
            Some((path, q)) => if 0 <= q < t.len() && t[q].kind == TokenKind::Import {
                match ident_at(t, q + 1) {
                    Some((first, r)) => match names_more(t, r, seq![first]) {
                        Some((selective, e)) => match newline_end(t, e) {
                            Some(n) => Some((ImportView { path, alias: None, selective,
                                span: spec_merge(t[p].span, prev_span(t, n)) }, n)),
                            None => None,
                        },
                        None => None,
                    },
                    None => None,
                }
            } else {
                None
            },
            None => None,
        }
    } else if 0 <= p < t.len() && t[p].kind == TokenKind::Import {
        match import_path_at(t, p + 1) {
            Some((path, q)) => {
                let al: Option<(Option<IdentView>, int)> = if 0 <= q < t.len() && t[q].kind == TokenKind::As {
                    match ident_at(t, q + 1) {
                        Some((id, r)) => Some((Some(id), r)),
                        None => None,
                    }
                } else {
                    Some((None, q))
                };
                match al {
                    Some((alias, e)) => match newline_end(t, e) {
                        Some(n) => Some((ImportView { path, alias, selective: Seq::empty(),
                            span: spec_merge(t[p].span, prev_span(t, n)) }, n)),
                        None => None,
                    },
                    None => None,
                }
            },
            None => None,
        }
    } else {
        None
    }
}

/// The position after the newlines and documentation comments from `q`.
pub open spec fn skip_nl_doc(t: Seq<Token>, q: int) -> int
    decreases t.len() - q,
{
    if 0 <= q < t.len() && (t[q].kind == TokenKind::Newline || t[q].kind == TokenKind::DocComment) {
        skip_nl_doc(t, q + 1)
    } else {
        q
    }
}

pub proof fn lemma_skip_nl_doc(t: Seq<Token>, q: int)
    requires
        0 <= q <= t.len(),
    ensures
        q <= skip_nl_doc(t, q) <= t.len(),
    decreases t.len() - q,
{
    if q < t.len() && (t[q].kind == TokenKind::Newline || t[q].kind == TokenKind::DocComment) {
        lemma_skip_nl_doc(t, q + 1);
    }
}

/// The imports from `q`, after the imports `acc`, each followed by the
/// newlines and documentation comments after it.
pub open spec fn imports_from(t: Seq<Token>, q: int, acc: Seq<ImportView>) -> Option<(Seq<ImportView>, int)>
    decreases t.len() - q,
{
    if 0 <= q < t.len() && (t[q].kind == TokenKind::Import || t[q].kind == TokenKind::From) {
        match import_at(t, q) {
            Some((x, r)) => if q < r <= t.len() {
                proof {
                    lemma_skip_nl_doc(t, r);
                }
                imports_from(t, skip_nl_doc(t, r), acc.push(x))
            } else {
                None
            },
            None => None,
        }
    } else {
        Some((acc, q))
    }
}

pub open spec fn no_decls() -> DeclsView {
    DeclsView { languages: Seq::empty(), templates: Seq::empty(), elements: Seq::empty() }
}

/// The templates, elements and languages from `q`, after the declarations
/// `acc`, up to the end of input; none where anything else stands, or a
/// declaration does not parse.
pub open spec fn decls_from(t: Seq<Token>, q: int, acc: DeclsView) -> Option<(DeclsView, int)>
    decreases t.len() - q,
{
    if 0 <= q < t.len() {
        if t[q].kind == TokenKind::Eof {
            Some((acc, q))
        } else {
            let s = skip_nl(t, q);
            proof {
                lemma_skip_nl(t, q);
            }
            if 0 <= s < t.len() {
                if t[s].kind == TokenKind::Eof {
                    Some((acc, s))
                } else {
                    let (doc, d) = doc_at(t, s);
                    proof {
                        lemma_doc_lines(t, s, Seq::empty());
                    }
                    if 0 <= d < t.len() {
                        let k = t[d].kind;
                        if k == TokenKind::Template {
                            match template_at(t, d, doc) {
                                Some((x, r)) => if q < r <= t.len() {
                                    decls_from(t, r, DeclsView { templates: acc.templates.push(x), ..acc })
                                } else {
                                    None
                                },
                                None => None,
                            }
                        } else if k == TokenKind::Element {
                            match element_at(t, d, doc, false) {
                                Some((x, r)) => if q < r <= t.len() {
                                    decls_from(t, r, DeclsView { elements: acc.elements.push(x), ..acc })
                                } else {
                                    None
                                },
                                None => None,
                            }
                        } else if k == TokenKind::Language {
                            match language_at(t, d) {
                                Some((x, r)) => if q < r <= t.len() {
                                    decls_from(t, r, DeclsView { languages: acc.languages.push(x), ..acc })
                                } else {
                                    None
                                },
                                None => None,
                            }
                        } else if k == TokenKind::Eof {
                            Some((acc, d))
                        } else {
                            None
                        }
                    } else {
                        None
                    }
                }
            } else {
                None
            }
        }
    } else {
        None
    }
}

/// The program that the tokens spell from `p`: the imports first, then
/// templates, elements and languages, each with the documentation comment
/// before it; none where any of it does not parse.
#[verifier::opaque]
pub open spec fn program_at(t: Seq<Token>, p: int) -> Option<ProgramView> {
    if 0 <= p < t.len() {
        match imports_from(t, skip_nl_doc(t, p), Seq::empty()) {
            Some((imports, q)) => match decls_from(t, q, no_decls()) {
                Some((dv, f)) => Some(ProgramView {
                    imports,
                    languages: dv.languages,
                    templates: dv.templates,
                    elements: dv.elements,
                    span: spec_merge(t[p].span, prev_span(t, f)),
                }),
                None => None,
            },
            None => None,
        }
    } else {
        None
    }
}

/// Whether the imports `is` are those that `v` describes.
pub open spec fn imports_view(is: Seq<ImportStatement>, v: Seq<ImportView>) -> bool {
    is.len() == v.len() && forall|i: int| 0 <= i < v.len() ==> import_views(#[trigger] is[i], v[i])
}

/// Whether the declarations are those that `v` describes.
pub open spec fn decls_view(
    languages: Seq<LanguageDeclaration>,
    templates: Seq<Template>,
    elements: Seq<Element>,
    v: DeclsView,
) -> bool {
    &&& languages.len() == v.languages.len()
    &&& (forall|i: int| 0 <= i < v.languages.len() ==> language_views(#[trigger] languages[i], v.languages[i]))
    &&& templates.len() == v.templates.len()
    &&& (forall|i: int| 0 <= i < v.templates.len() ==> template_views(#[trigger] templates[i], v.templates[i]))
    &&& children_view(elements, v.elements)
}

/// Where the declarations after the imports do not parse, neither does the program.
pub proof fn lemma_program_fails(t: Seq<Token>, p: int, imports: Seq<ImportView>, q: int)
    requires
        0 <= p < t.len(),
        imports_from(t, skip_nl_doc(t, p), Seq::empty()) == Some((imports, q)),
        decls_from(t, q, no_decls()) is None,
    ensures
        program_at(t, p) is None,
{
    reveal(program_at);
}

/// Where the imports and the declarations after them parse, the program is
/// made of them.
pub proof fn lemma_program_parses(t: Seq<Token>, p: int, imports: Seq<ImportView>, q: int, dv: DeclsView, f: int)
    requires
        0 <= p < t.len(),
        imports_from(t, skip_nl_doc(t, p), Seq::empty()) == Some((imports, q)),
        decls_from(t, q, no_decls()) == Some((dv, f)),
    ensures
        program_at(t, p) == Some(ProgramView {
            imports,
            languages: dv.languages,
            templates: dv.templates,
            elements: dv.elements,
            span: spec_merge(t[p].span, prev_span(t, f)),
        }),
{
    reveal(program_at);
}

/// `e` is exactly the element that the tokens spell at `p`, after the
/// documentation comment `doc`, outside templates.
pub open spec fn element_parsed_at(t: Seq<Token>, p: int, doc: Option<Seq<char>>, e: Element) -> bool {
    element_at(t, p, doc, false) matches Some((v, _q)) && element_views(e, v)
}

/// `tm` is exactly the template that the tokens spell at `p`, after the
/// documentation comment `doc`.
pub open spec fn template_parsed_at(t: Seq<Token>, p: int, doc: Option<Seq<char>>, tm: Template) -> bool {
    template_at(t, p, doc) matches Some((v, _q)) && template_views(tm, v)
}

/// `l` is exactly the language declaration that the tokens spell at `p`.
pub open spec fn language_parsed_at(t: Seq<Token>, p: int, l: LanguageDeclaration) -> bool {
    language_at(t, p) matches Some((v, _q)) && language_views(l, v)
}

/// `i` is exactly the import that the tokens spell at `p`.
pub open spec fn import_parsed_at(t: Seq<Token>, p: int, i: ImportStatement) -> bool {
    import_at(t, p) matches Some((v, _q)) && import_views(i, v)
}

/// Every declaration of `p` is exactly what the tokens `t` spell at the
/// position given for it (and after the documentation comment given for
/// templates and elements).
pub open spec fn declarations_at(
    t: Seq<Token>,
    p: Program,
    ipos: Seq<int>,
    lpos: Seq<int>,
    tpos: Seq<(int, Option<Seq<char>>)>,
    epos: Seq<(int, Option<Seq<char>>)>,
) -> bool {
    &&& ipos.len() == p.imports@.len()
    &&& forall|i: int| 0 <= i < ipos.len() ==> import_parsed_at(t, #[trigger] ipos[i], p.imports@[i])
    &&& lpos.len() == p.languages@.len()
    &&& forall|i: int| 0 <= i < lpos.len() ==> language_parsed_at(t, #[trigger] lpos[i], p.languages@[i])
    &&& tpos.len() == p.templates@.len()
    &&& forall|i: int| 0 <= i < tpos.len() ==> template_parsed_at(t, (#[trigger] tpos[i]).0, tpos[i].1, p.templates@[i])
    &&& epos.len() == p.elements@.len()
    &&& forall|i: int| 0 <= i < epos.len() ==> element_parsed_at(t, (#[trigger] epos[i]).0, epos[i].1, p.elements@[i])
}

/// Every declaration of `p` is exactly what the tokens `t` spell at some
/// position.
pub open spec fn declarations_from_tokens(t: Seq<Token>, p: Program) -> bool {
    exists|ipos: Seq<int>, lpos: Seq<int>, tpos: Seq<(int, Option<Seq<char>>)>, epos: Seq<(int, Option<Seq<char>>)>|
        #[trigger] declarations_at(t, p, ipos, lpos, tpos, epos)
}

/// The head of an element at `p`: `element name [implements ..]` and the
/// opening of its block; whether the block has braces, and where its items
/// start.
pub open spec fn element_head_at(t: Seq<Token>, p: int) -> Option<(bool, int)> {
    if 0 <= p < t.len() && t[p].kind == TokenKind::Element {
        match ident_at(t, p + 1) {
            Some((_name, q1)) => match implements_part(t, q1) {
                Some((_im, q2)) => match open_block_at(t, q2) {
                    Some((braces, q3)) => if p < q3 <= t.len() { Some((braces, q3)) } else { None },
                    None => None,
                },
                None => None,
            },
            None => None,
        }
    } else {
        None
    }
}

/// A `requires`, `allows` or `forbids` keyword: constraints that only
/// templates may hold.
pub open spec fn template_only(k: TokenKind) -> bool {
    k == TokenKind::Requires || k == TokenKind::Allows || k == TokenKind::Forbids
}

/// Where the items of an element's block from `q` stop parsing: the
/// position of the first item that does not parse; none where they all do,
/// up to the end of the block.
pub open spec fn block_stop(t: Seq<Token>, q: int, braces: bool, in_template: bool) -> Option<int>
    decreases t.len() - q,
{
    if 0 <= q <= t.len() {
        let s = skip_layout(t, q, braces);
        proof {
            lemma_skip_nl(t, q);
            lemma_skip_nl_indent(t, q);
        }
        if 0 <= s < t.len() {
            if t[s].kind == block_end(braces) || t[s].kind == TokenKind::Eof {
                None
            } else {
                let (doc, d) = doc_at(t, s);
                proof {
                    lemma_doc_lines(t, s, Seq::empty());
                }
                if 0 <= d < t.len() {
                    let k = t[d].kind;
                    let next: Option<int> = if k == TokenKind::Scope {
                        match scope_at(t, d) { Some((_x, r)) => Some(r), None => None }
                    } else if k == TokenKind::Ref || k == TokenKind::ConnectionPoint {
                        match ref_at(t, d) { Some((_x, r)) => Some(r), None => None }
                    } else if k == TokenKind::Check {
                        match check_at(t, d) { Some((_x, r)) => Some(r), None => None }
                    } else if k == TokenKind::Element {
                        match element_at(t, d, doc, in_template) { Some((_x, r)) => Some(r), None => None }
                    } else if k == TokenKind::Identifier && d + 1 < t.len() && t[d + 1].kind == TokenKind::Uses {
                        match uses_at(t, d) { Some((_x, r)) => Some(r), None => None }
                    } else if k == TokenKind::Identifier && d + 1 < t.len() && t[d + 1].kind == TokenKind::Dot {
                        match binding_at(t, d) { Some((_x, r)) => Some(r), None => None }
                    } else {
                        None
                    };
                    if k == block_end(braces) || k == TokenKind::Eof {
                        None
                    } else {
                        match next {
                            Some(r) => if q < r <= t.len() { block_stop(t, r, braces, in_template) } else { Some(d) },
                            None => Some(d),
                        }
                    }
                } else {
                    Some(d)
                }
            }
        } else {
            Some(s)
        }
    } else {
        Some(q)
    }
}

/// The code of the error for an element at `p` outside templates whose
/// items parse but leave a scope (E014) or, all scopes bound, a ref
/// (E015) without an expression; none otherwise.
pub open spec fn unbounded_code(t: Seq<Token>, p: int, in_template: bool) -> Option<Seq<char>> {
    if in_template {
        None
    } else {
        match element_head_at(t, p) {
            Some((braces, q3)) => match block_items(t, q3, braces, false, empty_body()) {
                Some((body, q4)) => if q4 < t.len() {
                    if exists|i: int| 0 <= i < body.scopes.len() && (#[trigger] body.scopes[i]).expression is None {
                        Some("E014"@)
                    } else if exists|i: int| 0 <= i < body.refs.len() && (#[trigger] body.refs[i]).expression is None {
                        Some("E015"@)
                    } else {
                        None
                    }
                } else {
                    None
                },
                None => None,
            },
            None => None,
        }
    }
}

/// Whether the items of the element at `p` stop parsing at a `requires`,
/// `allows` or `forbids`.
pub open spec fn stops_at_template_only(t: Seq<Token>, p: int, in_template: bool) -> bool {
    element_head_at(t, p) matches Some((braces, q3)) && block_stop(t, q3, braces, in_template) matches Some(d)
        && 0 <= d < t.len() && template_only(t[d].kind)
}

/// The message for `requires`, `allows` or `forbids` (written `w`) in an
/// element.
pub open spec fn template_only_message(w: Seq<char>) -> Seq<char> {
    "'"@ + w
        + "' is only allowed in templates, not in regular elements. Define a template with this constraint and have the element implement it."@
}

/// The message for a scope named `name` without an expression in an element.
pub open spec fn unbounded_scope_message(name: Seq<char>) -> Seq<char> {
    "Unbounded scope '"@ + name + "' is only allowed in templates, not in regular elements. Provide an expression: `scope "@
        + name + " = <expression>`"@
}

/// The message for a ref named `name` of type `ty` without an expression in
/// an element.
pub open spec fn unbounded_ref_message(name: Seq<char>, ty: Seq<char>) -> Seq<char> {
    "Unbounded ref '"@ + name + "' is only allowed in templates, not in regular elements. Provide an expression: `ref "@
        + name + ": "@ + ty + " = <expression>`"@
}

/// Whether `m` is the message of the error that the element at `p` is
/// refused with where it stops at a `requires`, `allows` or `forbids`
/// (`template_only_message` of that keyword) or leaves a scope or, all
/// scopes bound, a ref without an expression (`unbounded_scope_message` or
/// `unbounded_ref_message` of one such); true of any `m` otherwise.
pub open spec fn element_error_message(t: Seq<Token>, p: int, in_template: bool, m: Seq<char>) -> bool {
    if stops_at_template_only(t, p, in_template) {
        match element_head_at(t, p) {
            Some((braces, q3)) => match block_stop(t, q3, braces, in_template) {
                Some(d) => m == template_only_message(t[d].text@),
                None => false,
            },
            None => false,
        }
    } else {
        match element_head_at(t, p) {
            Some((braces, q3)) => match block_items(t, q3, braces, false, empty_body()) {
                Some((body, _q4)) => match unbounded_code(t, p, in_template) {
                    Some(c) => if c == "E014"@ {
                        exists|i: int| 0 <= i < body.scopes.len() && (#[trigger] body.scopes[i]).expression is None
                            && m == unbounded_scope_message(body.scopes[i].name.0)
                    } else {
                        exists|i: int| 0 <= i < body.refs.len() && (#[trigger] body.refs[i]).expression is None
                            && m == unbounded_ref_message(body.refs[i].name.0, body.refs[i].ty.0)
                    },
                    None => true,
                },
                None => true,
            },
            None => true,
        }
    }
}

/// Whether `m` may be the message of the first error of the program at
/// `p`: where its imports parse and its first declaration is an element,
/// `element_error_message` of that element; true of any `m` otherwise.
pub open spec fn first_element_message(t: Seq<Token>, p: int, m: Seq<char>) -> bool {
    if 0 <= p < t.len() {
        match imports_from(t, skip_nl_doc(t, p), Seq::empty()) {
            Some((_is, q)) => {
                let s = skip_nl(t, q);
                if 0 <= s < t.len() && t[s].kind != TokenKind::Eof {
                    let d = doc_at(t, s).1;
                    if 0 <= d < t.len() && t[d].kind == TokenKind::Element {
                        element_error_message(t, d, false, m)
                    } else {
                        true
                    }
                } else {
                    true
                }
            },
            None => true,
        }
    } else {
        true
    }
}

/// The code of the first error of the program at `p` where its imports
/// parse and its first declaration is an element that stops at a
/// `requires`, `allows` or `forbids` (E012) or leaves a scope (E014) or a
/// ref (E015) without an expression; none otherwise.
pub open spec fn first_element_error(t: Seq<Token>, p: int) -> Option<Seq<char>> {
    if 0 <= p < t.len() {
        match imports_from(t, skip_nl_doc(t, p), Seq::empty()) {
            Some((_is, q)) => {
                let s = skip_nl(t, q);
                if 0 <= s < t.len() && t[s].kind != TokenKind::Eof {
                    let d = doc_at(t, s).1;
                    if 0 <= d < t.len() && t[d].kind == TokenKind::Element {
                        if stops_at_template_only(t, d, false) {
                            Some("E012"@)
                        } else {
                            unbounded_code(t, d, false)
                        }
                    } else {
                        None
                    }
                } else {
                    None
                }
            },
            None => None,
        }
    } else {
        None
    }
}

} // verus!
