//! Abstract Syntax Tree for Hielements.

use vstd::prelude::*;
use crate::span::Span;

verus! {

/// A complete Hielements program.
#[derive(Debug)]
pub struct Program {
    /// Import statements
    pub imports: Vec<ImportStatement>,
    /// Language declarations
    pub languages: Vec<LanguageDeclaration>,
    /// Template (pattern) declarations
    pub templates: Vec<Template>,
    /// Top-level element declarations
    pub elements: Vec<Element>,
    /// Source span
    pub span: Span,
}

/// An import statement.
#[derive(Debug, Clone)]
pub struct ImportStatement {
    /// Import path (library name or file path)
    pub path: ImportPath,
    /// Optional alias
    pub alias: Option<Identifier>,
    /// Selective imports (for `from X import Y, Z`)
    pub selective: Vec<Identifier>,
    /// Source span
    pub span: Span,
}

/// Import path variants.
#[derive(Debug, Clone)]
pub enum ImportPath {
    /// Simple identifier path: `import python`
    Identifier(Vec<Identifier>),
    /// String path: `import './module.hie'`
    String(StringLiteral),
}

/// A language declaration: `language python` or a body of connection checks.
#[derive(Debug)]
pub struct LanguageDeclaration {
    pub name: Identifier,
    pub connection_checks: Vec<ConnectionCheckDeclaration>,
    pub span: Span,
}

/// A connection check of a language: `connection_check name(a: scope[], ...):` and a body.
#[derive(Debug)]
pub struct ConnectionCheckDeclaration {
    pub name: Identifier,
    pub parameters: Vec<ConnectionCheckParameter>,
    pub body: Expression,
    pub span: Span,
}

/// A parameter of a connection check: `name: scope[]`.
#[derive(Debug, Clone)]
pub struct ConnectionCheckParameter {
    pub name: Identifier,
    pub span: Span,
}

/// A template (pattern) declaration.
#[derive(Debug)]
pub struct Template {
    /// Documentation comment
    pub doc_comment: Option<String>,
    /// Template name
    pub name: Identifier,
    /// Scope declarations
    pub scopes: Vec<ScopeDeclaration>,
    /// Ref (connection point) declarations
    pub refs: Vec<RefDeclaration>,
    /// Check declarations
    pub checks: Vec<CheckDeclaration>,
    /// requires / allows / forbids constraints
    pub component_requirements: Vec<ComponentRequirement>,
    /// Nested elements
    pub elements: Vec<Element>,
    /// Source span
    pub span: Span,
}

/// Template implementation specification.
#[derive(Debug, Clone)]
pub struct TemplateImplementation {
    /// Template name being implemented
    pub template_name: Identifier,
    /// Source span
    pub span: Span,
}

/// Template binding (e.g., `template.element.scope = expression`).
#[derive(Debug)]
pub struct TemplateBinding {
    /// Path to the template property
    pub path: Vec<Identifier>,
    /// Expression value to bind
    pub expression: Expression,
    /// Source span
    pub span: Span,
}

/// An element declaration.
#[derive(Debug)]
pub struct Element {
    /// Documentation comment
    pub doc_comment: Option<String>,
    /// Element name
    pub name: Identifier,
    /// Templates this element implements
    pub implements: Vec<TemplateImplementation>,
    /// Scope declarations
    pub scopes: Vec<ScopeDeclaration>,
    /// Ref (connection point) declarations
    pub refs: Vec<RefDeclaration>,
    /// Uses declarations
    pub uses: Vec<UsesDeclaration>,
    /// Check declarations
    pub checks: Vec<CheckDeclaration>,
    /// Template bindings (when implementing templates)
    pub template_bindings: Vec<TemplateBinding>,
    /// Always empty: requires/allows/forbids belong to templates
    pub component_requirements: Vec<ComponentRequirement>,
    /// Nested elements
    pub children: Vec<Element>,
    /// Source span
    pub span: Span,
}

/// A scope declaration: `scope name[<lang>] [binds path] [= expression]`.
#[derive(Debug)]
pub struct ScopeDeclaration {
    /// Scope name
    pub name: Identifier,
    /// Optional language annotation
    pub language: Option<Identifier>,
    /// Optional bound template path
    pub binds: Option<Vec<Identifier>>,
    /// Scope expression (selector); absent for unbounded scopes in templates
    pub expression: Option<Expression>,
    /// Source span
    pub span: Span,
}

/// A ref declaration: `ref name: Type [binds path] [= expression]`.
#[derive(Debug)]
pub struct RefDeclaration {
    pub name: Identifier,
    pub type_annotation: TypeAnnotation,
    pub binds: Option<Vec<Identifier>>,
    pub expression: Option<Expression>,
    pub span: Span,
}

/// A uses declaration: `source uses target.path`.
#[derive(Debug, Clone)]
pub struct UsesDeclaration {
    pub source: Identifier,
    pub target: Vec<Identifier>,
    pub span: Span,
}

/// A type annotation for refs.
#[derive(Debug, Clone)]
pub struct TypeAnnotation {
    /// Type identifier (e.g., "string", "integer", "TokenStream")
    pub type_ident: Identifier,
    /// Source span
    pub span: Span,
}

/// A check declaration.
#[derive(Debug)]
pub struct CheckDeclaration {
    /// Check expression (must be a function call)
    pub expression: Expression,
    /// Source span
    pub span: Span,
}

/// An expression.
#[derive(Debug)]
pub enum Expression {
    /// Identifier reference
    Identifier(Identifier),
    /// Member access: `a.b`
    MemberAccess { object: Box<Expression>, member: Identifier, span: Span },
    /// Function call: `f(a, b)`
    FunctionCall { function: Box<Expression>, arguments: Vec<Expression>, span: Span },
    /// String literal
    String(StringLiteral),
    /// Number literal
    Number(NumberLiteral),
    /// Boolean literal
    Boolean(BooleanLiteral),
    /// List literal
    List { elements: Vec<Expression>, span: Span },
}

/// The span of an expression.
pub open spec fn spec_expression_span(e: Expression) -> Span {
    match e {
        Expression::Identifier(id) => id.span,
        Expression::MemberAccess { span, .. } => span,
        Expression::FunctionCall { span, .. } => span,
        Expression::String(s) => s.span,
        Expression::Number(n) => n.span,
        Expression::Boolean(b) => b.span,
        Expression::List { span, .. } => span,
    }
}

impl Expression {
    pub fn span(&self) -> (s: Span)
        ensures
            s == spec_expression_span(*self),
    {
        match self {
            Expression::Identifier(id) => id.span,
            Expression::MemberAccess { span, .. } => *span,
            Expression::FunctionCall { span, .. } => *span,
            Expression::String(s) => s.span,
            Expression::Number(n) => n.span,
            Expression::Boolean(b) => b.span,
            Expression::List { span, .. } => *span,
        }
    }
}

/// An identifier.
#[derive(Debug)]
pub struct Identifier {
    pub name: String,
    pub span: Span,
}

impl Clone for Identifier {
    fn clone(&self) -> (r: Self)
        ensures
            r == *self,
    {
        Identifier { name: self.name.clone(), span: self.span }
    }
}

impl Identifier {
    pub fn new(name: &str, span: Span) -> (i: Self)
        ensures
            i.name@ == name@,
            i.span == span,
    {
        Identifier { name: String::from_str(name), span }
    }
}

/// A string literal (its value, after escapes are resolved).
#[derive(Debug, Clone)]
pub struct StringLiteral {
    pub value: String,
    pub span: Span,
}

impl StringLiteral {
    pub fn new(value: &str, span: Span) -> (s: Self)
        ensures
            s.value@ == value@,
            s.span == span,
    {
        StringLiteral { value: String::from_str(value), span }
    }
}

/// A number literal: its digits before and after the decimal point
/// (the fraction is empty when the literal has no point).
#[derive(Debug, Clone)]
pub struct NumberLiteral {
    pub whole: String,
    pub fraction: String,
    pub span: Span,
}

/// A boolean literal.
#[derive(Debug, Clone)]
pub struct BooleanLiteral {
    pub value: bool,
    pub span: Span,
}

impl BooleanLiteral {
    pub fn new(value: bool, span: Span) -> (b: Self)
        ensures
            b.value == value,
            b.span == span,
    {
        BooleanLiteral { value, span }
    }
}

/// The action of a component requirement.
#[derive(Debug, Clone, Copy, PartialEq, Eq, Structural)]
pub enum RequirementAction {
    Requires,
    Allows,
    Forbids,
}

/// What a component requirement is about.
#[derive(Debug)]
pub enum ComponentSpec {
    /// A scope declaration
    Scope(ScopeDeclaration),
    /// A check declaration
    Check(CheckDeclaration),
    /// An element, possibly typed, implementing a template, or with a body
    Element {
        name: Identifier,
        type_annotation: Option<TypeAnnotation>,
        implements: Option<Identifier>,
        body: Option<Box<Element>>,
    },
    /// A connection to targets matching a pattern
    Connection(ConnectionPattern),
    /// A ref with its type and optional expression
    Ref { name: Identifier, type_annotation: TypeAnnotation, expression: Option<Expression> },
    /// A language
    Language(Identifier),
}

/// `(requires | allows | forbids) [descendant] <component>` inside a template.
#[derive(Debug)]
pub struct ComponentRequirement {
    pub action: RequirementAction,
    pub is_descendant: bool,
    pub component: ComponentSpec,
    pub span: Span,
}

/// A connection boundary constraint that applies to an element and all descendants.
#[derive(Debug, Clone)]
pub struct ConnectionBoundary {
    /// Whether this allows or forbids the connection
    pub kind: ConnectionBoundaryKind,
    /// Target pattern (e.g., "api_gateway.*", "database.connection")
    pub target_pattern: ConnectionPattern,
    /// Source span
    pub span: Span,
}

/// Types of connection boundaries for architectural dependencies.
#[derive(Debug, Clone, Copy, PartialEq, Eq, Structural)]
pub enum ConnectionBoundaryKind {
    Allows,
    Forbids,
    Requires,
}

/// A connection pattern for matching connection targets.
#[derive(Debug, Clone)]
pub struct ConnectionPattern {
    /// Path components (e.g., ["api_gateway", "public_api"])
    pub path: Vec<Identifier>,
    /// Whether this is a wildcard match (ends with .*)
    pub wildcard: bool,
    /// Source span
    pub span: Span,
}

/// Every scope and every ref of `e` and of its descendants has an
/// expression: nothing in it is left unbounded.
pub open spec fn element_bounded(e: Element) -> bool
    decreases e,
{
    &&& forall|i: int| 0 <= i < e.scopes@.len() ==> (#[trigger] e.scopes@[i]).expression is Some
    &&& forall|i: int| 0 <= i < e.refs@.len() ==> (#[trigger] e.refs@[i]).expression is Some
    &&& forall|i: int| 0 <= i < e.children@.len() ==> element_bounded(#[trigger] e.children@[i])
}

/// Neither `e` nor any of its descendants carries a requires/allows/forbids
/// constraint: those belong to templates.
pub open spec fn element_unconstrained(e: Element) -> bool
    decreases e,
{
    &&& e.component_requirements@.len() == 0
    &&& forall|i: int| 0 <= i < e.children@.len() ==> element_unconstrained(#[trigger] e.children@[i])
}

} // verus!
