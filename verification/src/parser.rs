//! Parser for the Hielements language.
//!
//! A recursive-descent parser over the tokens of the lexer. Elements and
//! templates use either an indented block (`element name:`) or braces
//! (`element name { ... }`).

use vstd::prelude::*;
use vstd::string::*;
use crate::ast::{
    CheckDeclaration, ComponentRequirement, ComponentSpec, ConnectionCheckDeclaration, ConnectionCheckParameter,
    ConnectionPattern, Element, Expression, Identifier, ImportPath, ImportStatement, LanguageDeclaration, NumberLiteral,
    Program, RefDeclaration, RequirementAction, ScopeDeclaration, StringLiteral, Template, TemplateBinding,
    TemplateImplementation, TypeAnnotation, UsesDeclaration, BooleanLiteral, element_bounded, element_unconstrained,
};
use crate::diagnostics::{Diagnostic, DiagnosticSeverity, Diagnostics};
use crate::lexer::{
    all_digits, is_digit, lexed, number_shape, texts_in_order, token_ok, token_views, tokens_ok, Lexer, Token, TokenKind,
};
use crate::span::{spec_merge, Span};
use crate::grammar::{
    args_at, args_more, binding_at, block_stop, element_error_message, first_element_message, template_only_message, unbounded_scope_message, unbounded_ref_message, element_head_at, first_element_error, stops_at_template_only, template_only, unbounded_code, declarations_at, declarations_from_tokens, element_parsed_at, import_parsed_at,
    language_parsed_at, template_parsed_at, binding_views, block_items, check_at, check_views, children_view,
    component_at, component_items, component_type_part, component_views, connection_check_at,
    connection_check_views, decls_from, decls_view, doc_at, doc_lines, doc_view, doc_views, element_at,
    element_component_at, element_views, empty_body, expr_at, has_unbounded, ident_at, ident_views, impl_list,
    implements_part, import_at, import_path_at, import_views, imports_from, imports_view, items_view,
    language_at, language_items, language_views, lemma_element_views_parts, lemma_program_fails, lemma_program_parses, lemma_view_span,
    list_at, list_more, names_more, no_decls, open_block_at, param_at, param_views, params_more, path_at,
    path_more, path_views, pattern_at, pattern_more, pattern_views, postfix_from, primary_at, program_at,
    program_views, ref_at, ref_component_at, ref_views, requirement_at, requirement_views, scope_at,
    scope_views, skip_layout, skip_nl, skip_nl_doc, skip_nl_indent, template_at, template_body_empty,
    template_items, template_views, uses_at, uses_views, views_as, with_binding, with_check, with_child,
    with_ref, with_scope, with_uses, BodyView, ConnectionCheckView, DeclsView, ExprView, IdentView,
    ElementView, ImportPathView, ImportView, ParamView, TemplateBodyView,
};
use crate::text::{chars_of, string_from_chars, trim, trim_start_char};

verus! {

/// The Debug name of a token kind, as error messages print it.
pub open spec fn kind_name(k: TokenKind) -> Seq<char> {
    match k {
        TokenKind::Element => "Element"@,
        TokenKind::Template => "Template"@,
        TokenKind::Implements => "Implements"@,
        TokenKind::Scope => "Scope"@,
        TokenKind::ConnectionPoint => "ConnectionPoint"@,
        TokenKind::Ref => "Ref"@,
        TokenKind::Uses => "Uses"@,
        TokenKind::Binds => "Binds"@,
        TokenKind::Check => "Check"@,
        TokenKind::Import => "Import"@,
        TokenKind::From => "From"@,
        TokenKind::As => "As"@,
        TokenKind::True => "True"@,
        TokenKind::False => "False"@,
        TokenKind::Language => "Language"@,
        TokenKind::ConnectionCheck => "ConnectionCheck"@,
        TokenKind::Requires => "Requires"@,
        TokenKind::Allows => "Allows"@,
        TokenKind::Forbids => "Forbids"@,
        TokenKind::Descendant => "Descendant"@,
        TokenKind::Connection => "Connection"@,
        TokenKind::RequiresDescendant => "RequiresDescendant"@,
        TokenKind::AllowsConnection => "AllowsConnection"@,
        TokenKind::ForbidsConnection => "ForbidsConnection"@,
        TokenKind::RequiresConnection => "RequiresConnection"@,
        TokenKind::To => "To"@,
        TokenKind::Colon => "Colon"@,
        TokenKind::Equals => "Equals"@,
        TokenKind::Dot => "Dot"@,
        TokenKind::Comma => "Comma"@,
        TokenKind::LParen => "LParen"@,
        TokenKind::RParen => "RParen"@,
        TokenKind::LBracket => "LBracket"@,
        TokenKind::RBracket => "RBracket"@,
        TokenKind::LBrace => "LBrace"@,
        TokenKind::RBrace => "RBrace"@,
        TokenKind::LAngle => "LAngle"@,
        TokenKind::RAngle => "RAngle"@,
        TokenKind::Star => "Star"@,
        TokenKind::Newline => "Newline"@,
        TokenKind::Identifier => "Identifier"@,
        TokenKind::StringDouble => "StringDouble"@,
        TokenKind::StringSingle => "StringSingle"@,
        TokenKind::Number => "Number"@,
        TokenKind::MultiLineComment => "MultiLineComment"@,
        TokenKind::DocComment => "DocComment"@,
        TokenKind::Comment => "Comment"@,
        TokenKind::Indent => "Indent"@,
        TokenKind::Dedent => "Dedent"@,
        TokenKind::Eof => "Eof"@,
    }
}

/// The Debug name of a token kind.
pub fn kind_str(k: TokenKind) -> (s: &'static str)
    ensures
        s@ == kind_name(k),
{
    match k {
        TokenKind::Element => "Element",
        TokenKind::Template => "Template",
        TokenKind::Implements => "Implements",
        TokenKind::Scope => "Scope",
        TokenKind::ConnectionPoint => "ConnectionPoint",
        TokenKind::Ref => "Ref",
        TokenKind::Uses => "Uses",
        TokenKind::Binds => "Binds",
        TokenKind::Check => "Check",
        TokenKind::Import => "Import",
        TokenKind::From => "From",
        TokenKind::As => "As",
        TokenKind::True => "True",
        TokenKind::False => "False",
        TokenKind::Language => "Language",
        TokenKind::ConnectionCheck => "ConnectionCheck",
        TokenKind::Requires => "Requires",
        TokenKind::Allows => "Allows",
        TokenKind::Forbids => "Forbids",
        TokenKind::Descendant => "Descendant",
        TokenKind::Connection => "Connection",
        TokenKind::RequiresDescendant => "RequiresDescendant",
        TokenKind::AllowsConnection => "AllowsConnection",
        TokenKind::ForbidsConnection => "ForbidsConnection",
        TokenKind::RequiresConnection => "RequiresConnection",
        TokenKind::To => "To",
        TokenKind::Colon => "Colon",
        TokenKind::Equals => "Equals",
        TokenKind::Dot => "Dot",
        TokenKind::Comma => "Comma",
        TokenKind::LParen => "LParen",
        TokenKind::RParen => "RParen",
        TokenKind::LBracket => "LBracket",
        TokenKind::RBracket => "RBracket",
        TokenKind::LBrace => "LBrace",
        TokenKind::RBrace => "RBrace",
        TokenKind::LAngle => "LAngle",
        TokenKind::RAngle => "RAngle",
        TokenKind::Star => "Star",
        TokenKind::Newline => "Newline",
        TokenKind::Identifier => "Identifier",
        TokenKind::StringDouble => "StringDouble",
        TokenKind::StringSingle => "StringSingle",
        TokenKind::Number => "Number",
        TokenKind::MultiLineComment => "MultiLineComment",
        TokenKind::DocComment => "DocComment",
        TokenKind::Comment => "Comment",
        TokenKind::Indent => "Indent",
        TokenKind::Dedent => "Dedent",
        TokenKind::Eof => "Eof",
    }
}

/// Keywords that may also stand where an identifier is expected (such as
/// in template binding paths).
pub open spec fn identifier_like(k: TokenKind) -> bool {
    k == TokenKind::Identifier || k == TokenKind::Scope || k == TokenKind::Element || k == TokenKind::Check
        || k == TokenKind::ConnectionPoint || k == TokenKind::Ref || k == TokenKind::Uses
        || k == TokenKind::Template || k == TokenKind::Implements || k == TokenKind::Binds
        || k == TokenKind::To || k == TokenKind::Requires || k == TokenKind::Allows
        || k == TokenKind::Forbids || k == TokenKind::Descendant || k == TokenKind::Connection
        || k == TokenKind::Language || k == TokenKind::ConnectionCheck
}

/// The characters that escape sequence `\c` stands for: `\n`, `\t`, `\r`,
/// `\\`, `\'` and `\"` are resolved, any other pair is kept as written.
pub open spec fn escape_of(c: char) -> Seq<char> {
    if c == 'n' {
        seq!['\n']
    } else if c == 't' {
        seq!['\t']
    } else if c == 'r' {
        seq!['\r']
    } else if c == '\\' {
        seq!['\\']
    } else if c == '\'' {
        seq!['\'']
    } else if c == '"' {
        seq!['"']
    } else {
        seq!['\\', c]
    }
}

/// The value of the body `s` of a string literal, escape sequences resolved;
/// a trailing lone backslash stays.
pub open spec fn unescape(s: Seq<char>) -> Seq<char>
    decreases s.len(),
{
    if s.len() == 0 {
        Seq::empty()
    } else if s[0] == '\\' {
        if s.len() >= 2 {
            escape_of(s[1]) + unescape(s.skip(2))
        } else {
            seq!['\\']
        }
    } else {
        seq![s[0]] + unescape(s.drop_first())
    }
}

/// The body of a quoted literal `w`: without its first and last character.
pub open spec fn literal_body(w: Seq<char>) -> Seq<char> {
    w.subrange(1, w.len() - 1)
}

/// The digits of a number literal joined back with its point, as written.
pub open spec fn number_text(n: NumberLiteral) -> Seq<char> {
    digits_with_point(n.whole@, n.fraction@)
}

/// Whole digits, then a point and the fraction digits if there are any.
pub open spec fn digits_with_point(whole: Seq<char>, fraction: Seq<char>) -> Seq<char> {
    if fraction.len() == 0 {
        whole
    } else {
        whole + seq!['.'] + fraction
    }
}

/// The lines of `lines` joined with line breaks.
pub open spec fn join_lines(lines: Seq<Seq<char>>) -> Seq<char>
    decreases lines.len(),
{
    if lines.len() == 0 {
        Seq::empty()
    } else if lines.len() == 1 {
        lines[0]
    } else {
        join_lines(lines.drop_last()) + seq!['\n'] + lines.last()
    }
}

/// Parser for the Hielements language.
pub struct Parser {
    tokens: Vec<Token>,
    pos: usize,
    diagnostics: Diagnostics,
    file_path: String,
}

/// Whether the message `m` reads "Expected ...", as every error of the
/// token, identifier, literal and expression parsers does.
pub open spec fn reads_expected(m: Seq<char>) -> bool {
    m.len() >= 9 && m.take(9) == "Expected "@
}

/// Whether a requirement may name a component of kind `k`.
pub open spec fn component_keyword(k: TokenKind) -> bool {
    k == TokenKind::Scope || k == TokenKind::Check || k == TokenKind::Element || k == TokenKind::Connection
        || k == TokenKind::Ref || k == TokenKind::ConnectionPoint || k == TokenKind::Implements
        || k == TokenKind::Language
}

/// Where the component of a requirement whose keyword is at `p` starts:
/// after the keyword and an optional `descendant`.
pub open spec fn requirement_component_pos(t: Seq<Token>, p: int) -> int {
    if t[p + 1].kind == TokenKind::Descendant {
        p + 2
    } else {
        p + 1
    }
}

impl Parser {
    /// The parser holds a well-formed token stream and stands on one of its tokens.
    pub closed spec fn wf(&self) -> bool {
        &&& tokens_ok(self.tokens@)
        &&& self.pos < self.tokens@.len()
    }

    /// The tokens the parser reads.
    pub closed spec fn spec_tokens(&self) -> Seq<Token> {
        self.tokens@
    }

    /// The index of the token that the parser stands on.
    pub closed spec fn spec_pos(&self) -> int {
        self.pos as int
    }

    /// The diagnostics reported so far.
    pub closed spec fn spec_diagnostics(&self) -> Seq<Diagnostic> {
        self.diagnostics@
    }

    /// The file named in diagnostics.
    pub closed spec fn spec_file_path(&self) -> Seq<char> {
        self.file_path@
    }

    spec fn cur(&self) -> Token {
        self.tokens@[self.pos as int]
    }

    spec fn at_end(&self) -> bool {
        self.pos == self.tokens@.len() - 1
    }

    /// `new` reads the same tokens and file as `old`, has reported the same
    /// diagnostics, and stands no earlier.
    spec fn moved_on(old: &Parser, new: &Parser) -> bool {
        &&& new.wf()
        &&& new.tokens@ == old.tokens@
        &&& new.file_path == old.file_path
        &&& new.diagnostics == old.diagnostics
        &&& old.pos <= new.pos
    }

    pub fn new(source: &str, file_path: &str) -> (p: Self)
        requires
            source@.len() <= usize::MAX / 8,
        ensures
            p.wf(),
            p.spec_pos() == 0,
            p.spec_diagnostics().len() == 0,
            p.spec_file_path() == file_path@,
            tokens_ok(p.spec_tokens()),
            texts_in_order(p.spec_tokens(), source@),
            token_views(p.spec_tokens()) == lexed(source@),
    {
        let mut lexer = Lexer::new(source);
        let tokens = lexer.tokenize();
        Parser { tokens, pos: 0, diagnostics: Diagnostics::new(), file_path: String::from_str(file_path) }
    }

    // Helper methods

    fn current(&self) -> (t: &Token)
        requires
            self.wf(),
        ensures
            *t == self.cur(),
    {
        &self.tokens[self.pos]
    }

    fn current_span(&self) -> (s: Span)
        requires
            self.wf(),
        ensures
            s == self.cur().span,
    {
        self.tokens[self.pos].span
    }

    fn previous_span(&self) -> (s: Span)
        requires
            self.wf(),
        ensures
            s == (if self.pos > 0 { self.tokens@[self.pos - 1].span } else { self.cur().span }),
    {
        if self.pos > 0 {
            self.tokens[self.pos - 1].span
        } else {
            self.current_span()
        }
    }

    fn check(&self, kind: TokenKind) -> (b: bool)
        requires
            self.wf(),
        ensures
            b == (self.cur().kind == kind),
    {
        self.tokens[self.pos].kind == kind
    }

    fn is_at_end(&self) -> (b: bool)
        requires
            self.wf(),
        ensures
            b == (self.cur().kind == TokenKind::Eof),
            b == self.at_end(),
    {
        self.tokens[self.pos].kind == TokenKind::Eof
    }

    /// Consume the current token and return it.
    fn advance(&mut self) -> (t: Token)
        requires
            old(self).wf(),
            !old(self).at_end(),
        ensures
            Self::moved_on(old(self), final(self)),
            final(self).pos == old(self).pos + 1,
            t == old(self).cur(),
    {
        let t = self.tokens[self.pos].clone();
        let n = self.tokens.len();
        assert(self.pos + 1 < n);
        self.pos = self.pos + 1;
        t
    }

    /// An error diagnostic of this file.
    fn error_at(&self, code: &str, message: &str, span: Span) -> (d: Diagnostic)
        ensures
            d.severity == DiagnosticSeverity::Error,
            d.code@ == code@,
            d.message@ == message@,
            d.file@ == self.file_path@,
            d.span == span,
    {
        Diagnostic::error(code, message).with_file(self.file_path.as_str()).with_span(span).build()
    }

    /// Consume a token of kind `kind`, or report E007.
    fn expect(&mut self, kind: TokenKind) -> (r: Result<Token, Diagnostic>)
        requires
            old(self).wf(),
            kind != TokenKind::Eof,
        ensures
            Self::moved_on(old(self), final(self)),
            (old(self).cur().kind == kind) == (r is Ok),
            r matches Ok(t) ==> t == old(self).cur() && final(self).pos == old(self).pos + 1,
            r matches Err(d) ==> d.code@ == "E007"@ && d.severity == DiagnosticSeverity::Error && d.file@ == old(self).file_path@
                && final(self).pos == old(self).pos,
            r matches Err(d) ==> reads_expected(d.message@),
    {
        if self.check(kind) {
            Ok(self.advance())
        } else {
            let mut msg = String::from_str("Expected ");
            msg.append(kind_str(kind));
            msg.append(", found ");
            msg.append(kind_str(self.current().kind));
            proof {
                reveal_strlit("Expected ");
                assert(msg@.take(9) =~= "Expected "@);
            }
            Err(self.error_at("E007", msg.as_str(), self.current_span()))
        }
    }

    /// The end of a line: a newline (consumed), the end of input or a dedent
    /// (left in place); anything else is E008.
    fn expect_newline(&mut self) -> (r: Result<(), Diagnostic>)
        requires
            old(self).wf(),
        ensures
            Self::moved_on(old(self), final(self)),
            (r is Ok) == (old(self).cur().kind == TokenKind::Newline || old(self).cur().kind == TokenKind::Eof
                || old(self).cur().kind == TokenKind::Dedent),
            final(self).pos == old(self).pos + (if old(self).cur().kind == TokenKind::Newline { 1int } else { 0int }),
            r matches Err(d) ==> d.code@ == "E008"@ && d.severity == DiagnosticSeverity::Error && d.file@ == old(self).file_path@,
            r matches Err(d) ==> reads_expected(d.message@),
    {
        if self.check(TokenKind::Newline) || self.check(TokenKind::Eof) || self.check(TokenKind::Dedent) {
            if self.check(TokenKind::Newline) {
                self.advance();
            }
            Ok(())
        } else {
            let mut msg = String::from_str("Expected newline, found ");
            msg.append(kind_str(self.current().kind));
            proof {
                reveal_strlit("Expected ");
                reveal_strlit("Expected newline, found ");
                assert(msg@.take(9) =~= "Expected "@);
            }
            Err(self.error_at("E008", msg.as_str(), self.current_span()))
        }
    }

    fn skip_newlines(&mut self)
        requires
            old(self).wf(),
        ensures
            Self::moved_on(old(self), final(self)),
            final(self).cur().kind != TokenKind::Newline,
            forall|k: int| old(self).pos <= k < final(self).pos ==> #[trigger] old(self).tokens@[k].kind == TokenKind::Newline,
            final(self).pos == skip_nl(old(self).tokens@, old(self).pos as int),
    {
        while self.check(TokenKind::Newline)
            invariant
                Self::moved_on(old(self), self),
                forall|k: int| old(self).pos <= k < self.pos ==> #[trigger] self.tokens@[k].kind == TokenKind::Newline,
                skip_nl(self.tokens@, self.pos as int) == skip_nl(old(self).tokens@, old(self).pos as int),
            decreases self.tokens@.len() - self.pos,
        {
            self.advance();
        }
    }

    /// Skip newlines, indents, and dedents - used when parsing inside curly brackets.
    fn skip_newlines_and_indents(&mut self)
        requires
            old(self).wf(),
        ensures
            Self::moved_on(old(self), final(self)),
            final(self).cur().kind != TokenKind::Newline,
            final(self).cur().kind != TokenKind::Indent,
            final(self).cur().kind != TokenKind::Dedent,
            final(self).pos == skip_nl_indent(old(self).tokens@, old(self).pos as int),
    {
        while self.check(TokenKind::Newline) || self.check(TokenKind::Indent) || self.check(TokenKind::Dedent)
            invariant
                Self::moved_on(old(self), self),
                skip_nl_indent(self.tokens@, self.pos as int) == skip_nl_indent(old(self).tokens@, old(self).pos as int),
            decreases self.tokens@.len() - self.pos,
        {
            self.advance();
        }
    }

    fn skip_newlines_and_comments(&mut self)
        requires
            old(self).wf(),
        ensures
            Self::moved_on(old(self), final(self)),
            final(self).cur().kind != TokenKind::Newline,
            final(self).cur().kind != TokenKind::DocComment,
            final(self).pos == skip_nl_doc(old(self).tokens@, old(self).pos as int),
    {
        while self.check(TokenKind::Newline) || self.check(TokenKind::DocComment)
            invariant
                Self::moved_on(old(self), self),
                skip_nl_doc(self.tokens@, self.pos as int) == skip_nl_doc(old(self).tokens@, old(self).pos as int),
            decreases self.tokens@.len() - self.pos,
        {
            self.advance();
        }
    }

    /// Skip to just past the next newline (or to the end of input).
    fn recover_to_newline(&mut self)
        requires
            old(self).wf(),
        ensures
            Self::moved_on(old(self), final(self)),
            final(self).at_end() || final(self).pos > old(self).pos,
    {
        while !self.is_at_end() && !self.check(TokenKind::Newline)
            invariant
                Self::moved_on(old(self), self),
            decreases self.tokens@.len() - self.pos,
        {
            self.advance();
        }
        if self.check(TokenKind::Newline) {
            self.advance();
        }
    }

    /// Skip to the next `element` keyword (or to the end of input).
    fn recover_to_element(&mut self)
        requires
            old(self).wf(),
        ensures
            Self::moved_on(old(self), final(self)),
            final(self).at_end() || final(self).cur().kind == TokenKind::Element,
    {
        while !self.is_at_end()
            invariant
                Self::moved_on(old(self), self),
            decreases self.tokens@.len() - self.pos,
        {
            if self.check(TokenKind::Element) {
                return;
            }
            self.advance();
        }
    }

    /// Parse an identifier (or a keyword used as identifier).
    fn parse_identifier(&mut self) -> (r: Result<Identifier, Diagnostic>)
        requires
            old(self).wf(),
        ensures
            Self::moved_on(old(self), final(self)),
            (r is Ok) == identifier_like(old(self).cur().kind),
            r matches Ok(id) ==> id.name == old(self).cur().text && id.span == old(self).cur().span
                && final(self).pos == old(self).pos + 1,
            r matches Err(d) ==> d.code@ == "E004"@ && d.severity == DiagnosticSeverity::Error && d.file@ == old(self).file_path@
                && final(self).pos == old(self).pos,
            r matches Err(d) ==> reads_expected(d.message@),
    {
        let k = self.current().kind;
        if k == TokenKind::Identifier || k == TokenKind::Scope || k == TokenKind::Element || k == TokenKind::Check
            || k == TokenKind::ConnectionPoint || k == TokenKind::Ref || k == TokenKind::Uses
            || k == TokenKind::Template || k == TokenKind::Implements || k == TokenKind::Binds
            || k == TokenKind::To || k == TokenKind::Requires || k == TokenKind::Allows
            || k == TokenKind::Forbids || k == TokenKind::Descendant || k == TokenKind::Connection
            || k == TokenKind::Language || k == TokenKind::ConnectionCheck {
            let token = self.advance();
            Ok(Identifier { name: token.text, span: token.span })
        } else {
            let mut msg = String::from_str("Expected identifier, found ");
            msg.append(kind_str(k));
            proof {
                reveal_strlit("Expected ");
                reveal_strlit("Expected identifier, found ");
                assert(msg@.take(9) =~= "Expected "@);
            }
            Err(self.error_at("E004", msg.as_str(), self.current_span()))
        }
    }

    /// Parse a string literal.
    fn parse_string_literal(&mut self) -> (r: Result<StringLiteral, Diagnostic>)
        requires
            old(self).wf(),
        ensures
            Self::moved_on(old(self), final(self)),
            (r is Ok) == (old(self).cur().kind == TokenKind::StringSingle
                || old(self).cur().kind == TokenKind::StringDouble),
            r matches Ok(s) ==> s.value@ == unescape(literal_body(old(self).cur().text@))
                && s.span == old(self).cur().span && final(self).pos == old(self).pos + 1,
            r matches Err(d) ==> d.code@ == "E005"@ && d.severity == DiagnosticSeverity::Error && d.file@ == old(self).file_path@
                && final(self).pos == old(self).pos,
            r matches Err(d) ==> reads_expected(d.message@),
    {
        if self.check(TokenKind::StringSingle) || self.check(TokenKind::StringDouble) {
            proof {
                assert(token_ok(self.tokens@[self.pos as int]));
            }
            let token = self.advance();
            let value = unescape_string(token.text.as_str());
            Ok(StringLiteral { value, span: token.span })
        } else {
            let mut msg = String::from_str("Expected string, found ");
            msg.append(kind_str(self.current().kind));
            proof {
                reveal_strlit("Expected ");
                reveal_strlit("Expected string, found ");
                assert(msg@.take(9) =~= "Expected "@);
            }
            Err(self.error_at("E005", msg.as_str(), self.current_span()))
        }
    }

    /// Parse a number literal.
    fn parse_number_literal(&mut self) -> (r: Result<NumberLiteral, Diagnostic>)
        requires
            old(self).wf(),
        ensures
            Self::moved_on(old(self), final(self)),
            (r is Ok) == (old(self).cur().kind == TokenKind::Number),
            r matches Ok(n) ==> number_text(n) == old(self).cur().text@ && all_digits(n.whole@)
                && n.whole@.len() > 0 && all_digits(n.fraction@) && n.span == old(self).cur().span
                && final(self).pos == old(self).pos + 1,
            r matches Err(d) ==> d.code@ == "E006"@ && d.severity == DiagnosticSeverity::Error && d.file@ == old(self).file_path@
                && final(self).pos == old(self).pos,
            r matches Err(d) ==> reads_expected(d.message@),
    {
        if self.check(TokenKind::Number) {
            proof {
                assert(token_ok(self.tokens@[self.pos as int]));
            }
            let token = self.advance();
            let (whole, fraction) = split_number(token.text.as_str());
            Ok(NumberLiteral { whole, fraction, span: token.span })
        } else {
            let mut msg = String::from_str("Expected number, found ");
            msg.append(kind_str(self.current().kind));
            proof {
                reveal_strlit("Expected ");
                reveal_strlit("Expected number, found ");
                assert(msg@.take(9) =~= "Expected "@);
            }
            Err(self.error_at("E006", msg.as_str(), self.current_span()))
        }
    }

    /// Parse a type annotation.
    fn parse_type_annotation(&mut self) -> (r: Result<TypeAnnotation, Diagnostic>)
        requires
            old(self).wf(),
        ensures
            Self::moved_on(old(self), final(self)),
            (r is Ok) == identifier_like(old(self).cur().kind),
            r matches Ok(t) ==> t.type_ident.name == old(self).cur().text && t.span == old(self).cur().span
                && t.type_ident.span == old(self).cur().span && final(self).pos == old(self).pos + 1,
            r matches Err(d) ==> d.severity == DiagnosticSeverity::Error && d.file@ == old(self).file_path@,
    {
        let type_ident = self.parse_identifier()?;
        let span = type_ident.span;
        Ok(TypeAnnotation { type_ident, span })
    }

    /// Parse a qualified path for binds clauses: `template.element.scope`.
    fn parse_qualified_path(&mut self) -> (r: Result<Vec<Identifier>, Diagnostic>)
        requires
            old(self).wf(),
        ensures
            Self::moved_on(old(self), final(self)),
            (r is Ok) ==> identifier_like(old(self).cur().kind),
            !identifier_like(old(self).cur().kind) ==> r is Err,
            r matches Ok(path) ==> path@.len() >= 1 && path@[0].name == old(self).cur().text
                && final(self).pos >= old(self).pos + 2 * path@.len() - 1,
            r matches Err(d) ==> d.severity == DiagnosticSeverity::Error && d.file@ == old(self).file_path@,
            r matches Ok(path) ==> (path_at(old(self).tokens@, old(self).pos as int) matches Some((v, q))
                && path_views(path@, v) && q == final(self).pos),
            r is Err ==> path_at(old(self).tokens@, old(self).pos as int) is None,
    {
        let ghost t = self.tokens@;
        let mut path: Vec<Identifier> = Vec::new();
        let first = self.parse_identifier()?;
        path.push(first);
        let ghost mut pv: Seq<IdentView> = seq![(first.name@, first.span)];
        while self.check(TokenKind::Dot)
            invariant
                Self::moved_on(old(self), self),
                t == old(self).tokens@,
                path@.len() >= 1,
                path@[0].name == old(self).cur().text,
                self.pos >= old(self).pos + 2 * path@.len() - 1,
                path_views(path@, pv),
                path_at(t, old(self).pos as int) == path_more(t, self.pos as int, pv),
            decreases self.tokens@.len() - self.pos,
        {
            self.advance();
            let next = self.parse_identifier()?;
            proof {
                pv = pv.push((next.name@, next.span));
            }
            path.push(next);
        }
        Ok(path)
    }

    /// Parse a connection pattern (e.g., `api_gateway.public_api` or `database.*`).
    fn parse_connection_pattern(&mut self) -> (r: Result<ConnectionPattern, Diagnostic>)
        requires
            old(self).wf(),
        ensures
            Self::moved_on(old(self), final(self)),
            (r is Ok) == identifier_like(old(self).cur().kind),
            r matches Ok(p) ==> p.path@.len() >= 1 && p.path@[0].name == old(self).cur().text
                && final(self).pos > old(self).pos,
            r matches Err(d) ==> d.severity == DiagnosticSeverity::Error && d.file@ == old(self).file_path@,
            r matches Ok(p) ==> (pattern_at(old(self).tokens@, old(self).pos as int) matches Some((v, q))
                && pattern_views(p, v) && q == final(self).pos),
            r is Err ==> pattern_at(old(self).tokens@, old(self).pos as int) is None,
    {
        proof {
            reveal(pattern_at);
        }
        let ghost t = self.tokens@;
        let start_span = self.current_span();
        let mut path: Vec<Identifier> = Vec::new();
        let first = self.parse_identifier()?;
        path.push(first);
        let ghost mut pv: Seq<IdentView> = seq![(first.name@, first.span)];
        let ghost q0 = self.pos as int;
        let mut wildcard = false;
        while self.check(TokenKind::Dot)
            invariant_except_break
                pattern_more(t, q0, seq![(first.name@, first.span)]) == pattern_more(t, self.pos as int, pv),
                !wildcard,
            invariant
                Self::moved_on(old(self), self),
                t == old(self).tokens@,
                path@.len() >= 1,
                path@[0].name == old(self).cur().text,
                self.pos > old(self).pos,
                path_views(path@, pv),
            ensures
                pattern_more(t, q0, seq![(first.name@, first.span)]) == (pv, wildcard, self.pos as int),
            decreases self.tokens@.len() - self.pos,
        {
            self.advance();
            if self.check(TokenKind::Star) {
                self.advance();
                wildcard = true;
                break;
            } else if self.check(TokenKind::Identifier) {
                let next = self.parse_identifier()?;
                proof {
                    pv = pv.push((next.name@, next.span));
                }
                path.push(next);
            } else {
                break;
            }
        }
        let end_span = self.previous_span();
        Ok(ConnectionPattern { path, wildcard, span: start_span.merge(&end_span) })
    }

    /// Parse the documentation comments that stand here, if any, joined by
    /// line breaks; each line loses its leading `#` characters and the
    /// white space around it.
    fn parse_doc_comment(&mut self) -> (r: Option<String>)
        requires
            old(self).wf(),
        ensures
            Self::moved_on(old(self), final(self)),
            final(self).cur().kind != TokenKind::DocComment,
            (r is Some) == (old(self).cur().kind == TokenKind::DocComment),
            doc_views(r, doc_at(old(self).tokens@, old(self).pos as int).0),
            final(self).pos == doc_at(old(self).tokens@, old(self).pos as int).1,
    {
        let mut lines: Vec<String> = Vec::new();
        assert(lines@.map_values(|s: String| s@) =~= Seq::<Seq<char>>::empty());
        while self.check(TokenKind::DocComment)
            invariant
                Self::moved_on(old(self), self),
                (lines@.len() > 0) == (self.pos > old(self).pos),
                lines@.len() == 0 ==> self.pos == old(self).pos,
                self.pos > old(self).pos ==> old(self).cur().kind == TokenKind::DocComment,
                doc_lines(old(self).tokens@, old(self).pos as int, Seq::empty())
                    == doc_lines(self.tokens@, self.pos as int, lines@.map_values(|s: String| s@)),
            decreases self.tokens@.len() - self.pos,
        {
            let ghost before = lines@;
            let token = self.advance();
            let stripped = trim_start_char(token.text.as_str(), '#');
            let text = trim(stripped.as_str());
            lines.push(text);
            self.skip_newlines();
            assert(lines@.map_values(|s: String| s@) =~= before.map_values(|s: String| s@).push(text@));
        }
        if lines.len() == 0 {
            None
        } else {
            Some(join_with_newlines(&lines))
        }
    }
}

/// A token of this kind can start an expression.
pub open spec fn starts_expression(k: TokenKind) -> bool {
    k == TokenKind::Identifier || k == TokenKind::StringSingle || k == TokenKind::StringDouble
        || k == TokenKind::Number || k == TokenKind::True || k == TokenKind::False || k == TokenKind::LBracket
}

impl Parser {
    /// The expression that the tokens spell where the parser stands.
    spec fn spec_expr_here(&self) -> Option<(ExprView, int)> {
        expr_at(self.tokens@, self.pos as int)
    }

    /// `r` is the expression that `found` describes and the parser stands
    /// after it, or `r` failed where `found` is none.
    spec fn parsed_as(found: Option<(ExprView, int)>, new: &Parser, r: Result<Expression, Diagnostic>) -> bool {
        match r {
            Ok(e) => found matches Some((v, q)) && views_as(e, v) && q == new.pos,
            Err(_) => found is None,
        }
    }

    /// Parse an expression: a primary followed by member accesses and calls.
    fn parse_expression(&mut self) -> (r: Result<Expression, Diagnostic>)
        requires
            old(self).wf(),
        ensures
            Self::moved_on(old(self), final(self)),
            r is Ok ==> final(self).pos > old(self).pos && starts_expression(old(self).cur().kind),
            !starts_expression(old(self).cur().kind) ==> (r matches Err(d) && d.code@ == "E003"@),
            r matches Err(d) ==> d.severity == DiagnosticSeverity::Error && d.file@ == old(self).file_path@,
            Self::parsed_as(old(self).spec_expr_here(), final(self), r),
            r matches Err(d) ==> reads_expected(d.message@),
        decreases old(self).tokens@.len() - old(self).pos, 3nat,
    {
        self.parse_postfix()
    }

    /// Parse postfix expressions (member access and function calls).
    fn parse_postfix(&mut self) -> (r: Result<Expression, Diagnostic>)
        requires
            old(self).wf(),
        ensures
            Self::moved_on(old(self), final(self)),
            r is Ok ==> final(self).pos > old(self).pos && starts_expression(old(self).cur().kind),
            !starts_expression(old(self).cur().kind) ==> (r matches Err(d) && d.code@ == "E003"@),
            r matches Err(d) ==> d.severity == DiagnosticSeverity::Error && d.file@ == old(self).file_path@,
            Self::parsed_as(old(self).spec_expr_here(), final(self), r),
            r matches Err(d) ==> reads_expected(d.message@),
        decreases old(self).tokens@.len() - old(self).pos, 2nat,
    {
        let ghost t = self.tokens@;
        let ghost p0 = self.pos as int;
        let mut expr = self.parse_primary()?;
        let ghost mut v: ExprView = primary_at(t, p0).unwrap().0;
        loop
            invariant
                Self::moved_on(old(self), self),
                t == old(self).tokens@,
                p0 == old(self).pos,
                self.pos > old(self).pos,
                starts_expression(old(self).cur().kind),
                views_as(expr, v),
                expr_at(t, p0) == postfix_from(t, self.pos as int, v),
            ensures
                expr_at(t, p0) == Some((v, self.pos as int)),
            decreases self.tokens@.len() - self.pos,
        {
            let ghost q = self.pos as int;
            proof {
                lemma_view_span(expr, v);
            }
            if self.check(TokenKind::Dot) {
                self.advance();
                let member = self.parse_identifier()?;
                let span = expr.span().merge(&member.span);
                proof {
                    v = ExprView::Member(Box::new(v), member.name@, member.span, span);
                }
                expr = Expression::MemberAccess { object: Box::new(expr), member, span };
            } else if self.check(TokenKind::LParen) {
                self.advance();
                let mut arguments: Vec<Expression> = Vec::new();
                let ghost mut argsv: Seq<ExprView> = Seq::empty();
                if !self.check(TokenKind::RParen) {
                    let first = self.parse_expression()?;
                    arguments.push(first);
                    proof {
                        argsv = seq![expr_at(t, q + 1).unwrap().0];
                    }
                    while self.check(TokenKind::Comma)
                        invariant
                            Self::moved_on(old(self), self),
                            t == old(self).tokens@,
                            self.pos > q + 1,
                            starts_expression(old(self).cur().kind),
                            p0 == old(self).pos,
                            0 <= q && q + 1 < t.len(),
                            t[q].kind == TokenKind::LParen,
                            t[q + 1].kind != TokenKind::RParen,
                            views_as(expr, v),
                            expr_at(t, p0) == postfix_from(t, q, v),
                            arguments@.len() == argsv.len(),
                            forall|i: int| 0 <= i < argsv.len() ==> views_as(#[trigger] arguments@[i], argsv[i]),
                            args_at(t, q + 1) == args_more(t, self.pos as int, argsv),
                        decreases self.tokens@.len() - self.pos,
                    {
                        self.advance();
                        let ghost r0 = self.pos as int;
                        let next = match self.parse_expression() {
                            Ok(e) => e,
                            Err(d) => {
                                proof {
                                    assert(args_more(t, r0 - 1, argsv) is None);
                                    assert(postfix_from(t, q, v) is None);
                                }
                                return Err(d);
                            },
                        };
                        arguments.push(next);
                        proof {
                            argsv = argsv.push(expr_at(t, r0).unwrap().0);
                        }
                    }
                }
                let end_span = self.current_span();
                self.expect(TokenKind::RParen)?;
                let span = expr.span().merge(&end_span);
                proof {
                    v = ExprView::Call(Box::new(v), argsv, span);
                }
                expr = Expression::FunctionCall { function: Box::new(expr), arguments, span };
            } else {
                break;
            }
        }
        Ok(expr)
    }

    /// Parse a primary expression.
    fn parse_primary(&mut self) -> (r: Result<Expression, Diagnostic>)
        requires
            old(self).wf(),
        ensures
            Self::moved_on(old(self), final(self)),
            r is Ok ==> final(self).pos > old(self).pos && starts_expression(old(self).cur().kind),
            !starts_expression(old(self).cur().kind) ==> (r matches Err(d) && d.code@ == "E003"@),
            r matches Err(d) ==> d.severity == DiagnosticSeverity::Error && d.file@ == old(self).file_path@,
            old(self).cur().kind == TokenKind::Identifier ==> (r matches Ok(Expression::Identifier(id))
                && id.name == old(self).cur().text),
            old(self).cur().kind == TokenKind::True ==> (r matches Ok(Expression::Boolean(b)) && b.value),
            old(self).cur().kind == TokenKind::False ==> (r matches Ok(Expression::Boolean(b)) && !b.value),
            Self::parsed_as(primary_at(old(self).tokens@, old(self).pos as int), final(self), r),
            r matches Err(d) ==> reads_expected(d.message@),
        decreases old(self).tokens@.len() - old(self).pos, 1nat,
    {
        if self.check(TokenKind::Identifier) {
            let id = self.parse_identifier()?;
            Ok(Expression::Identifier(id))
        } else if self.check(TokenKind::StringSingle) || self.check(TokenKind::StringDouble) {
            let string = self.parse_string_literal()?;
            Ok(Expression::String(string))
        } else if self.check(TokenKind::Number) {
            let number = self.parse_number_literal()?;
            Ok(Expression::Number(number))
        } else if self.check(TokenKind::True) {
            let span = self.current_span();
            self.advance();
            Ok(Expression::Boolean(BooleanLiteral::new(true, span)))
        } else if self.check(TokenKind::False) {
            let span = self.current_span();
            self.advance();
            Ok(Expression::Boolean(BooleanLiteral::new(false, span)))
        } else if self.check(TokenKind::LBracket) {
            self.parse_list()
        } else {
            let mut msg = String::from_str("Expected expression, found ");
            msg.append(kind_str(self.current().kind));
            proof {
                reveal_strlit("Expected ");
                reveal_strlit("Expected expression, found ");
                assert(msg@.take(9) =~= "Expected "@);
            }
            Err(self.error_at("E003", msg.as_str(), self.current_span()))
        }
    }

    /// Parse a list literal; a trailing comma is allowed.
    fn parse_list(&mut self) -> (r: Result<Expression, Diagnostic>)
        requires
            old(self).wf(),
            old(self).cur().kind == TokenKind::LBracket,
        ensures
            Self::moved_on(old(self), final(self)),
            r is Ok ==> final(self).pos > old(self).pos,
            r matches Ok(e) ==> e is List,
            r matches Err(d) ==> d.severity == DiagnosticSeverity::Error && d.file@ == old(self).file_path@,
            Self::parsed_as(list_at(old(self).tokens@, old(self).pos as int), final(self), r),
            r matches Err(d) ==> reads_expected(d.message@),
        decreases old(self).tokens@.len() - old(self).pos, 0nat,
    {
        let ghost t = self.tokens@;
        let ghost p0 = self.pos as int;
        let start_span = self.current_span();
        self.expect(TokenKind::LBracket)?;
        let mut elements: Vec<Expression> = Vec::new();
        let ghost mut items: Seq<ExprView> = Seq::empty();
        if !self.check(TokenKind::RBracket) {
            let first = self.parse_expression()?;
            elements.push(first);
            proof {
                items = seq![expr_at(t, p0 + 1).unwrap().0];
            }
            while self.check(TokenKind::Comma)
                invariant_except_break
                    list_at(t, p0) == list_more(t, self.pos as int, items, start_span),
                invariant
                    Self::moved_on(old(self), self),
                    t == old(self).tokens@,
                    p0 == old(self).pos,
                    self.pos > old(self).pos + 1,
                    t[p0].kind == TokenKind::LBracket,
                    start_span == t[p0].span,
                    elements@.len() == items.len(),
                    forall|i: int| 0 <= i < items.len() ==> views_as(#[trigger] elements@[i], items[i]),
                ensures
                    list_at(t, p0) == (if self.cur().kind == TokenKind::RBracket {
                        Some((ExprView::List(items, spec_merge(start_span, self.cur().span)), self.pos + 1))
                    } else {
                        None
                    }),
                decreases self.tokens@.len() - self.pos,
            {
                self.advance();
                if self.check(TokenKind::RBracket) {
                    break;
                }
                let ghost r0 = self.pos as int;
                let next = self.parse_expression()?;
                elements.push(next);
                proof {
                    items = items.push(expr_at(t, r0).unwrap().0);
                }
            }
        }
        let end_span = self.current_span();
        self.expect(TokenKind::RBracket)?;
        Ok(Expression::List { elements, span: start_span.merge(&end_span) })
    }
}

impl Parser {
    /// A parsing step: the parser moved on, it consumed a token if it
    /// succeeded, and a failure is an error diagnostic.
    spec fn step_ok<T>(old: &Parser, new: &Parser, r: Result<T, Diagnostic>) -> bool {
        &&& Self::moved_on(old, new)
        &&& r is Ok ==> new.pos > old.pos
        &&& r matches Err(d) ==> d.severity == DiagnosticSeverity::Error && d.file@ == old.file_path@
    }

    /// The text of the token right after the current one.
    spec fn next_text(&self) -> String {
        self.tokens@[self.pos + 1].text
    }

    /// Parse a scope declaration: `scope <name> [<lang> | : lang] [binds path] [= expression]`.
    fn parse_scope(&mut self) -> (r: Result<ScopeDeclaration, Diagnostic>)
        requires
            old(self).wf(),
            old(self).cur().kind == TokenKind::Scope,
        ensures
            Self::step_ok(old(self), final(self), r),
            r matches Ok(sc) ==> sc.name.name == old(self).next_text(),
            r matches Ok(sc) ==> (scope_at(old(self).tokens@, old(self).pos as int) matches Some((v, q))
                && scope_views(sc, v) && q == final(self).pos),
            r is Err ==> scope_at(old(self).tokens@, old(self).pos as int) is None,
    {
        proof {
            reveal(scope_at);
        }
        let start_span = self.current_span();
        self.expect(TokenKind::Scope)?;
        let name = self.parse_identifier()?;
        let language = if self.check(TokenKind::LAngle) {
            self.advance();
            let lang = self.parse_identifier()?;
            self.expect(TokenKind::RAngle)?;
            Some(lang)
        } else if self.check(TokenKind::Colon) {
            self.advance();
            Some(self.parse_identifier()?)
        } else {
            None
        };
        let binds = if self.check(TokenKind::Binds) {
            self.advance();
            Some(self.parse_qualified_path()?)
        } else {
            None
        };
        let expression = if self.check(TokenKind::Equals) {
            self.expect(TokenKind::Equals)?;
            Some(self.parse_expression()?)
        } else {
            None
        };
        self.expect_newline()?;
        let end_span = self.previous_span();
        Ok(ScopeDeclaration { name, language, binds, expression, span: start_span.merge(&end_span) })
    }

    /// Parse a ref declaration: `ref <name> : <type> [binds path] [= expression]`
    /// (`connection_point` is accepted for `ref`).
    fn parse_ref(&mut self) -> (r: Result<RefDeclaration, Diagnostic>)
        requires
            old(self).wf(),
            old(self).cur().kind == TokenKind::Ref || old(self).cur().kind == TokenKind::ConnectionPoint,
        ensures
            Self::step_ok(old(self), final(self), r),
            r matches Ok(rd) ==> rd.name.name == old(self).next_text(),
            r matches Ok(rd) ==> (ref_at(old(self).tokens@, old(self).pos as int) matches Some((v, q))
                && ref_views(rd, v) && q == final(self).pos),
            r is Err ==> ref_at(old(self).tokens@, old(self).pos as int) is None,
    {
        proof {
            reveal(ref_at);
        }
        let start_span = self.current_span();
        if self.check(TokenKind::Ref) {
            self.advance();
        } else {
            self.expect(TokenKind::ConnectionPoint)?;
        }
        let name = self.parse_identifier()?;
        self.expect(TokenKind::Colon)?;
        let type_annotation = self.parse_type_annotation()?;
        let binds = if self.check(TokenKind::Binds) {
            self.advance();
            Some(self.parse_qualified_path()?)
        } else {
            None
        };
        let expression = if self.check(TokenKind::Equals) {
            self.expect(TokenKind::Equals)?;
            Some(self.parse_expression()?)
        } else {
            None
        };
        self.expect_newline()?;
        let end_span = self.previous_span();
        Ok(RefDeclaration { name, type_annotation, binds, expression, span: start_span.merge(&end_span) })
    }

    /// Parse a uses declaration: `<source> uses <target.path>`.
    fn parse_uses(&mut self) -> (r: Result<UsesDeclaration, Diagnostic>)
        requires
            old(self).wf(),
        ensures
            Self::step_ok(old(self), final(self), r),
            r matches Ok(u) ==> u.source.name == old(self).cur().text && u.target@.len() >= 1,
            old(self).cur().kind != TokenKind::Identifier ==> (r matches Err(d) && d.code@ == "E016"@),
            r matches Ok(u) ==> (uses_at(old(self).tokens@, old(self).pos as int) matches Some((v, q))
                && uses_views(u, v) && q == final(self).pos),
            r is Err ==> uses_at(old(self).tokens@, old(self).pos as int) is None,
    {
        proof {
            reveal(uses_at);
        }
        let start_span = self.current_span();
        let source = if self.check(TokenKind::Identifier) {
            self.parse_identifier()?
        } else {
            let mut msg = String::from_str("Expected identifier for uses source, found ");
            msg.append(kind_str(self.current().kind));
            return Err(self.error_at("E016", msg.as_str(), self.current_span()));
        };
        self.expect(TokenKind::Uses)?;
        let target = self.parse_qualified_path()?;
        self.expect_newline()?;
        let end_span = self.previous_span();
        Ok(UsesDeclaration { source, target, span: start_span.merge(&end_span) })
    }

    /// Parse a check declaration.
    fn parse_check(&mut self) -> (r: Result<CheckDeclaration, Diagnostic>)
        requires
            old(self).wf(),
            old(self).cur().kind == TokenKind::Check,
        ensures
            Self::step_ok(old(self), final(self), r),
            r matches Ok(c) ==> (check_at(old(self).tokens@, old(self).pos as int) matches Some((v, q))
                && check_views(c, v) && q == final(self).pos),
            r is Err ==> check_at(old(self).tokens@, old(self).pos as int) is None,
    {
        proof {
            reveal(check_at);
        }
        let start_span = self.current_span();
        self.expect(TokenKind::Check)?;
        let expression = self.parse_expression()?;
        self.expect_newline()?;
        let end_span = self.previous_span();
        Ok(CheckDeclaration { expression, span: start_span.merge(&end_span) })
    }

    /// Try to parse a template binding (e.g., `template.element.scope = expression`);
    /// when the tokens are no binding, report E003 and stay in place.
    fn try_parse_template_binding(&mut self) -> (r: Result<TemplateBinding, Diagnostic>)
        requires
            old(self).wf(),
        ensures
            Self::step_ok(old(self), final(self), r),
            r matches Ok(b) ==> b.path@.len() >= 2 && b.path@[0].name == old(self).cur().text,
            r matches Ok(b) ==> (binding_at(old(self).tokens@, old(self).pos as int) matches Some((v, q))
                && binding_views(b, v) && q == final(self).pos),
            r is Err ==> binding_at(old(self).tokens@, old(self).pos as int) is None,
            path_at(old(self).tokens@, old(self).pos as int) matches Some((pv, q))
                && !(pv.len() >= 2 && old(self).tokens@[q].kind == TokenKind::Equals)
                ==> (final(self).pos == old(self).pos && (r matches Err(d) && d.code@ == "E003"@
                    && d.message@ == "Not a template binding"@)),
            r matches Err(d) && d.message@ == "Not a template binding"@ ==> final(self).pos == old(self).pos,
    {
        proof {
            reveal(binding_at);
            reveal_strlit("Not a template binding");
            reveal_strlit("Expected ");
            assert(!reads_expected("Not a template binding"@)) by {
                assert("Not a template binding"@.take(9)[0] != "Expected "@[0]);
            }
        }
        let ghost t = self.tokens@;
        let start_span = self.current_span();
        let start_pos = self.pos;
        let mut path: Vec<Identifier> = Vec::new();
        let first = self.parse_identifier()?;
        path.push(first);
        let ghost mut pv: Seq<IdentView> = seq![(first.name@, first.span)];
        if !self.check(TokenKind::Dot) {
            self.pos = start_pos;
            return Err(self.error_at("E003", "Not a template binding", start_span));
        }
        while self.check(TokenKind::Dot)
            invariant
                Self::moved_on(old(self), self),
                t == old(self).tokens@,
                start_pos == old(self).pos,
                start_span == t[start_pos as int].span,
                !reads_expected("Not a template binding"@),
                path@.len() >= 1,
                path@[0].name == old(self).cur().text,
                self.pos > old(self).pos,
                path_views(path@, pv),
                path_at(t, old(self).pos as int) == path_more(t, self.pos as int, pv),
                path_at(t, old(self).pos as int) is None ==> binding_at(t, old(self).pos as int) is None,
            decreases self.tokens@.len() - self.pos,
        {
            self.advance();
            let next = self.parse_identifier()?;
            proof {
                pv = pv.push((next.name@, next.span));
            }
            path.push(next);
        }
        if path.len() < 2 || !self.check(TokenKind::Equals) {
            self.pos = start_pos;
            return Err(self.error_at("E003", "Not a template binding", start_span));
        }
        self.expect(TokenKind::Equals)?;
        let expression = self.parse_expression()?;
        self.expect_newline()?;
        let end_span = self.previous_span();
        Ok(TemplateBinding { path, expression, span: start_span.merge(&end_span) })
    }

    /// Parse an import path: a string, or identifiers joined by dots.
    fn parse_import_path(&mut self) -> (r: Result<ImportPath, Diagnostic>)
        requires
            old(self).wf(),
        ensures
            Self::step_ok(old(self), final(self), r),
            r matches Ok(ImportPath::Identifier(parts)) ==> parts@.len() >= 1
                && parts@[0].name == old(self).cur().text,
            (old(self).cur().kind == TokenKind::StringSingle || old(self).cur().kind == TokenKind::StringDouble)
                ==> (r matches Ok(ImportPath::String(_))),
            r matches Ok(ip) ==> (import_path_at(old(self).tokens@, old(self).pos as int) matches Some((v, q))
                && q == final(self).pos && match ip {
                    ImportPath::Identifier(parts) => v matches ImportPathView::Ident(w) && path_views(parts@, w),
                    ImportPath::String(sl) => v == ImportPathView::Str(sl.value@, sl.span),
                }),
            r is Err ==> import_path_at(old(self).tokens@, old(self).pos as int) is None,
    {
        if self.check(TokenKind::StringSingle) || self.check(TokenKind::StringDouble) {
            let string = self.parse_string_literal()?;
            Ok(ImportPath::String(string))
        } else {
            let parts = self.parse_qualified_path()?;
            Ok(ImportPath::Identifier(parts))
        }
    }

    /// Parse an import statement: `import X [as Y]` or `from X import Y, Z`.
    fn parse_import(&mut self) -> (r: Result<ImportStatement, Diagnostic>)
        requires
            old(self).wf(),
            old(self).cur().kind == TokenKind::Import || old(self).cur().kind == TokenKind::From,
        ensures
            Self::step_ok(old(self), final(self), r),
            r matches Ok(i) ==> (old(self).cur().kind == TokenKind::From) == (i.selective@.len() > 0),
            r matches Ok(i) ==> (old(self).cur().kind == TokenKind::From ==> i.alias is None),
            r matches Ok(i) ==> (import_at(old(self).tokens@, old(self).pos as int) matches Some((v, q))
                && import_views(i, v) && q == final(self).pos),
            r is Err ==> import_at(old(self).tokens@, old(self).pos as int) is None,
    {
        proof {
            reveal(import_at);
        }
        let ghost t = self.tokens@;
        let start_span = self.current_span();
        if self.check(TokenKind::From) {
            self.advance();
            let path = self.parse_import_path()?;
            self.expect(TokenKind::Import)?;
            let mut selective: Vec<Identifier> = Vec::new();
            let first = self.parse_identifier()?;
            selective.push(first);
            let ghost r0 = self.pos as int;
            let ghost mut sv: Seq<IdentView> = seq![(first.name@, first.span)];
            assert(names_more(t, r0, sv) is None ==> import_at(t, old(self).pos as int) is None);
            while self.check(TokenKind::Comma)
                invariant
                    Self::moved_on(old(self), self),
                    t == old(self).tokens@,
                    self.pos > old(self).pos,
                    selective@.len() >= 1,
                    path_views(selective@, sv),
                    names_more(t, r0, seq![(first.name@, first.span)]) == names_more(t, self.pos as int, sv),
                    names_more(t, r0, seq![(first.name@, first.span)]) is None ==> import_at(t, old(self).pos as int) is None,
                decreases self.tokens@.len() - self.pos,
            {
                self.advance();
                let next = self.parse_identifier()?;
                proof {
                    sv = sv.push((next.name@, next.span));
                }
                selective.push(next);
            }
            self.expect_newline()?;
            let end_span = self.previous_span();
            Ok(ImportStatement { path, alias: None, selective, span: start_span.merge(&end_span) })
        } else {
            self.expect(TokenKind::Import)?;
            let path = self.parse_import_path()?;
            let alias = if self.check(TokenKind::As) {
                self.advance();
                Some(self.parse_identifier()?)
            } else {
                None
            };
            self.expect_newline()?;
            let end_span = self.previous_span();
            Ok(ImportStatement { path, alias, selective: Vec::new(), span: start_span.merge(&end_span) })
        }
    }

    /// Parse a connection check parameter: `<name>: scope[]`.
    fn parse_connection_check_parameter(&mut self) -> (r: Result<ConnectionCheckParameter, Diagnostic>)
        requires
            old(self).wf(),
        ensures
            Self::step_ok(old(self), final(self), r),
            r matches Ok(p) ==> p.name.name == old(self).cur().text,
            r matches Ok(x) ==> (param_at(old(self).tokens@, old(self).pos as int) matches Some((v, q))
                && param_views(x, v) && q == final(self).pos),
            r is Err ==> param_at(old(self).tokens@, old(self).pos as int) is None,
    {
        proof {
            reveal(param_at);
        }
        let start_span = self.current_span();
        let name = self.parse_identifier()?;
        self.expect(TokenKind::Colon)?;
        self.expect(TokenKind::Scope)?;
        self.expect(TokenKind::LBracket)?;
        self.expect(TokenKind::RBracket)?;
        let end_span = self.previous_span();
        Ok(ConnectionCheckParameter { name, span: start_span.merge(&end_span) })
    }

    /// Parse a connection check: `connection_check <name>(<params>):` and an
    /// indented body holding one expression.
    fn parse_connection_check(&mut self) -> (r: Result<ConnectionCheckDeclaration, Diagnostic>)
        requires
            old(self).wf(),
            old(self).cur().kind == TokenKind::ConnectionCheck,
        ensures
            Self::step_ok(old(self), final(self), r),
            r matches Ok(c) ==> c.name.name == old(self).next_text(),
            r matches Ok(c) ==> (connection_check_at(old(self).tokens@, old(self).pos as int) matches Some((v, q))
                && connection_check_views(c, v) && q == final(self).pos),
            r is Err ==> connection_check_at(old(self).tokens@, old(self).pos as int) is None,
    {
        proof {
            reveal(connection_check_at);
        }
        let ghost t = self.tokens@;
        let start_span = self.current_span();
        self.expect(TokenKind::ConnectionCheck)?;
        let name = self.parse_identifier()?;
        let ghost q1 = self.pos as int;
        self.expect(TokenKind::LParen)?;
        let mut parameters: Vec<ConnectionCheckParameter> = Vec::new();
        let ghost mut pv: Seq<ParamView> = Seq::empty();
        if !self.check(TokenKind::RParen) {
            let first = self.parse_connection_check_parameter()?;
            parameters.push(first);
            let ghost r0 = self.pos as int;
            proof {
                pv = seq![param_at(t, q1 + 1).unwrap().0];
            }
            assert(params_more(t, r0, pv) is None ==> connection_check_at(t, old(self).pos as int) is None);
            while self.check(TokenKind::Comma)
                invariant_except_break
                    params_more(t, r0, seq![param_at(t, q1 + 1).unwrap().0]) == params_more(t, self.pos as int, pv),
                invariant
                    Self::moved_on(old(self), self),
                    t == old(self).tokens@,
                    self.pos > old(self).pos,
                    parameters@.len() == pv.len(),
                    forall|i: int| 0 <= i < pv.len() ==> param_views(#[trigger] parameters@[i], pv[i]),
                    params_more(t, r0, seq![param_at(t, q1 + 1).unwrap().0]) is None
                        ==> connection_check_at(t, old(self).pos as int) is None,
                ensures
                    params_more(t, r0, seq![param_at(t, q1 + 1).unwrap().0]) == Some((pv, self.pos as int)),
                decreases self.tokens@.len() - self.pos,
            {
                self.advance();
                if self.check(TokenKind::RParen) {
                    break;
                }
                let ghost r1 = self.pos as int;
                let next = self.parse_connection_check_parameter()?;
                proof {
                    pv = pv.push(param_at(t, r1).unwrap().0);
                }
                parameters.push(next);
            }
        }
        self.expect(TokenKind::RParen)?;
        self.expect(TokenKind::Colon)?;
        self.skip_newlines();
        self.expect(TokenKind::Indent)?;
        self.skip_newlines();
        let body = self.parse_expression()?;
        self.expect_newline()?;
        self.skip_newlines();
        if self.check(TokenKind::Dedent) {
            self.advance();
        }
        let end_span = self.previous_span();
        Ok(ConnectionCheckDeclaration { name, parameters, body, span: start_span.merge(&end_span) })
    }

    /// Parse a language declaration: `language <name>`, or `language <name>:`
    /// followed by an indented block of connection checks.
    fn parse_language_declaration(&mut self) -> (r: Result<LanguageDeclaration, Diagnostic>)
        requires
            old(self).wf(),
            old(self).cur().kind == TokenKind::Language,
        ensures
            Self::step_ok(old(self), final(self), r),
            r matches Ok(l) ==> l.name.name == old(self).next_text(),
            r matches Ok(l) ==> (language_at(old(self).tokens@, old(self).pos as int) matches Some((v, q))
                && language_views(l, v) && q == final(self).pos),
            r is Err ==> language_at(old(self).tokens@, old(self).pos as int) is None,
    {
        proof {
            reveal(language_at);
        }
        let ghost t = self.tokens@;
        let start_span = self.current_span();
        self.expect(TokenKind::Language)?;
        let name = self.parse_identifier()?;
        if self.check(TokenKind::Colon) {
            self.advance();
            self.skip_newlines();
            self.expect(TokenKind::Indent)?;
            let ghost b0 = self.pos as int;
            assert(language_items(t, b0, Seq::empty()) is None ==> language_at(t, old(self).pos as int) is None);
            let mut connection_checks: Vec<ConnectionCheckDeclaration> = Vec::new();
            let ghost mut cv: Seq<ConnectionCheckView> = Seq::empty();
            loop
                invariant_except_break
                    language_items(t, b0, Seq::empty()) == language_items(t, self.pos as int, cv),
                invariant
                    Self::moved_on(old(self), self),
                    t == old(self).tokens@,
                    self.pos > old(self).pos,
                    name.name == old(self).next_text(),
                    connection_checks@.len() == cv.len(),
                    forall|i: int| 0 <= i < cv.len() ==> connection_check_views(#[trigger] connection_checks@[i], cv[i]),
                    language_items(t, b0, Seq::empty()) is None ==> language_at(t, old(self).pos as int) is None,
                ensures
                    language_items(t, b0, Seq::empty()) == Some((cv, self.pos as int)),
                decreases self.tokens@.len() - self.pos,
            {
                self.skip_newlines();
                let _ = self.parse_doc_comment();
                if self.check(TokenKind::Dedent) || self.is_at_end() {
                    break;
                }
                if self.check(TokenKind::ConnectionCheck) {
                    let ghost d = self.pos as int;
                    let c = self.parse_connection_check()?;
                    proof {
                        cv = cv.push(connection_check_at(t, d).unwrap().0);
                    }
                    connection_checks.push(c);
                } else {
                    let mut msg = String::from_str("Expected 'connection_check' in language body, found ");
                    msg.append(kind_str(self.current().kind));
                    return Err(self.error_at("E013", msg.as_str(), self.current_span()));
                }
            }
            if self.check(TokenKind::Dedent) {
                self.advance();
            }
            let end_span = self.previous_span();
            Ok(LanguageDeclaration { name, connection_checks, span: start_span.merge(&end_span) })
        } else {
            self.expect_newline()?;
            let end_span = self.previous_span();
            Ok(LanguageDeclaration { name, connection_checks: Vec::new(), span: start_span.merge(&end_span) })
        }
    }

    /// Parse a ref component specification: `ref name: Type [= expression]`
    /// (`connection_point` is accepted for `ref`).
    fn parse_ref_component_spec(&mut self) -> (r: Result<ComponentSpec, Diagnostic>)
        requires
            old(self).wf(),
            old(self).cur().kind == TokenKind::Ref || old(self).cur().kind == TokenKind::ConnectionPoint,
        ensures
            Self::step_ok(old(self), final(self), r),
            r matches Ok(c) ==> (c matches ComponentSpec::Ref { name, .. } && name.name == old(self).next_text()),
            r matches Ok(c) ==> (ref_component_at(old(self).tokens@, old(self).pos as int) matches Some((v, q))
                && component_views(c, v) && q == final(self).pos),
            r is Err ==> ref_component_at(old(self).tokens@, old(self).pos as int) is None,
    {
        proof {
            reveal(ref_component_at);
        }
        self.advance();
        let name = self.parse_identifier()?;
        self.expect(TokenKind::Colon)?;
        let type_annotation = self.parse_type_annotation()?;
        let expression = if self.check(TokenKind::Equals) {
            self.advance();
            Some(self.parse_expression()?)
        } else {
            None
        };
        self.expect_newline()?;
        Ok(ComponentSpec::Ref { name, type_annotation, expression })
    }
}

/// The kind of a token that ends a block: `}` for brace blocks, a dedent for
/// indented ones.
pub open spec fn block_end(use_braces: bool) -> TokenKind {
    if use_braces { TokenKind::RBrace } else { TokenKind::Dedent }
}

/// What the elements of a block satisfy: no requires/allows/forbids anywhere,
/// and, outside templates, every scope and ref bound.
pub open spec fn elements_ok(es: Seq<Element>, in_template: bool) -> bool {
    forall|i: int| 0 <= i < es.len() ==> element_unconstrained(#[trigger] es[i]) && (!in_template ==> element_bounded(es[i]))
}

impl Parser {
    /// Open a block: `{` (then skip layout tokens) or `:` newline indent.
    fn open_block(&mut self) -> (r: Result<bool, Diagnostic>)
        requires
            old(self).wf(),
        ensures
            Self::step_ok(old(self), final(self), r),
            r matches Ok(b) ==> b == (old(self).cur().kind == TokenKind::LBrace),
            r matches Ok(b) ==> open_block_at(old(self).tokens@, old(self).pos as int) == Some((b, final(self).pos as int)),
            r is Err ==> open_block_at(old(self).tokens@, old(self).pos as int) is None,
    {
        let use_braces = self.check(TokenKind::LBrace);
        if use_braces {
            self.advance();
            self.skip_newlines_and_indents();
        } else {
            self.expect(TokenKind::Colon)?;
            self.skip_newlines();
            self.expect(TokenKind::Indent)?;
        }
        Ok(use_braces)
    }

    /// Skip the layout tokens between the items of a block.
    fn skip_block_layout(&mut self, use_braces: bool)
        requires
            old(self).wf(),
        ensures
            Self::moved_on(old(self), final(self)),
            final(self).pos == skip_layout(old(self).tokens@, old(self).pos as int, use_braces),
    {
        if use_braces {
            self.skip_newlines_and_indents();
        } else {
            self.skip_newlines();
        }
    }

    /// Consume the end of a block if it stands here.
    fn close_block(&mut self, use_braces: bool)
        requires
            old(self).wf(),
        ensures
            Self::moved_on(old(self), final(self)),
            final(self).pos == old(self).pos + (if old(self).cur().kind == block_end(use_braces) { 1int } else { 0int }),
    {
        if use_braces {
            if self.check(TokenKind::RBrace) {
                self.advance();
            }
        } else {
            if self.check(TokenKind::Dedent) {
                self.advance();
            }
        }
    }

    /// An error that points at the current token.
    fn error_here(&self, code: &str, message: &str) -> (d: Diagnostic)
        requires
            self.wf(),
        ensures
            d.severity == DiagnosticSeverity::Error,
            d.code@ == code@,
            d.message@ == message@,
            d.span == self.cur().span,
            d.file@ == self.file_path@,
    {
        self.error_at(code, message, self.current_span())
    }

    /// Parse an element declaration. Inside templates (`in_template`)
    /// scopes and refs may be unbounded; elsewhere such a scope is E014 and
    /// such a ref E015. `requires`, `allows` and `forbids` are E012 in any
    /// element.
    #[verifier::rlimit(80)]
    fn parse_element_with_context(&mut self, doc_comment: Option<String>, in_template: bool) -> (r: Result<Element, Diagnostic>)
        requires
            old(self).wf(),
            old(self).cur().kind == TokenKind::Element,
        ensures
            Self::step_ok(old(self), final(self), r),
            final(self).pos > old(self).pos,
            r matches Ok(e) ==> e.name.name == old(self).next_text() && e.doc_comment == doc_comment
                && element_unconstrained(e) && (!in_template ==> element_bounded(e)),
            r matches Ok(e) ==> (element_at(old(self).tokens@, old(self).pos as int, doc_view(doc_comment), in_template)
                matches Some((v, q)) && element_views(e, v) && q == final(self).pos),
            r is Err ==> element_at(old(self).tokens@, old(self).pos as int, doc_view(doc_comment), in_template) is None,
            stops_at_template_only(old(self).tokens@, old(self).pos as int, in_template)
                ==> (r matches Err(e) && e.code@ == "E012"@),
            unbounded_code(old(self).tokens@, old(self).pos as int, in_template) matches Some(c)
                ==> (r matches Err(e) && e.code@ == c),
            r matches Err(e) ==> element_error_message(old(self).tokens@, old(self).pos as int, in_template, e.message@),
        decreases old(self).tokens@.len() - old(self).pos,
    {
        let ghost t = self.tokens@;
        let ghost p0 = self.pos as int;
        let start_span = self.current_span();
        self.expect(TokenKind::Element)?;
        let name = self.parse_identifier()?;
        let ghost q1 = self.pos as int;
        let mut implements: Vec<TemplateImplementation> = Vec::new();
        let ghost mut iv: Seq<(IdentView, Span)> = Seq::empty();
        if self.check(TokenKind::Implements) {
            self.advance();
            loop
                invariant_except_break
                    impl_list(t, q1 + 1, Seq::empty()) == impl_list(t, self.pos as int, iv),
                invariant
                    Self::moved_on(old(self), self),
                    t == old(self).tokens@,
                    p0 == old(self).pos,
                    q1 == p0 + 2,
                    t[p0].kind == TokenKind::Element,
                    ident_at(t, p0 + 1) == Some(((name.name@, name.span), q1)),
                    t[q1].kind == TokenKind::Implements,
                    self.pos > q1,
                    implements@.len() == iv.len(),
                    forall|i: int| 0 <= i < iv.len() ==> ident_views(#[trigger] implements@[i].template_name, iv[i].0)
                        && implements@[i].span == iv[i].1,
                ensures
                    impl_list(t, q1 + 1, Seq::empty()) == Some((iv, self.pos as int)),
                decreases self.tokens@.len() - self.pos,
            {
                let template_start = self.current_span();
                let template_name = self.parse_identifier()?;
                let span = template_start.merge(&self.previous_span());
                proof {
                    iv = iv.push(((template_name.name@, template_name.span), span));
                }
                let ghost before = implements@;
                implements.push(TemplateImplementation { template_name, span });
                assert(implements@.drop_last() == before);
                if !self.check(TokenKind::Comma) {
                    break;
                }
                self.advance();
            }
        }
        let ghost q2 = self.pos as int;
        assert(implements_part(t, q1) == Some((iv, q2)));
        let use_braces = self.open_block()?;
        let ghost q3 = self.pos as int;
        let mut scopes: Vec<ScopeDeclaration> = Vec::new();
        let mut refs: Vec<RefDeclaration> = Vec::new();
        let mut uses: Vec<UsesDeclaration> = Vec::new();
        let mut checks: Vec<CheckDeclaration> = Vec::new();
        let mut template_bindings: Vec<TemplateBinding> = Vec::new();
        let mut children: Vec<Element> = Vec::new();
        let ghost mut bv: BodyView = empty_body();
        loop
            invariant_except_break
                block_items(t, q3, use_braces, in_template, empty_body())
                    == block_items(t, self.pos as int, use_braces, in_template, bv),
                block_stop(t, q3, use_braces, in_template) == block_stop(t, self.pos as int, use_braces, in_template),
            invariant
                element_head_at(t, p0) == Some((use_braces, q3)),
                Self::moved_on(old(self), self),
                t == old(self).tokens@,
                p0 == old(self).pos,
                t[p0].kind == TokenKind::Element,
                ident_at(t, p0 + 1) == Some(((name.name@, name.span), q1)),
                implements_part(t, q1) == Some((iv, q2)),
                open_block_at(t, q2) == Some((use_braces, q3)),
                p0 < q3 <= self.pos,
                self.pos > old(self).pos,
                name.name == old(self).next_text(),
                elements_ok(children@, in_template),
                items_view(scopes@, refs@, uses@, checks@, template_bindings@, bv),
                children_view(children@, bv.children),
            ensures
                block_items(t, q3, use_braces, in_template, empty_body()) == Some((bv, self.pos as int)),
                block_stop(t, q3, use_braces, in_template) is None,
            decreases self.tokens@.len() - self.pos,
        {
            let ghost q = self.pos as int;
            self.skip_block_layout(use_braces);
            if self.check(block_end_kind(use_braces)) || self.is_at_end() {
                break;
            }
            let child_doc = self.parse_doc_comment();
            if self.check(TokenKind::Scope) {
                let sc = self.parse_scope()?;
                proof {
                    bv = with_scope(bv, scope_at(t, doc_at(t, skip_layout(t, q, use_braces)).1).unwrap().0);
                }
                scopes.push(sc);
            } else if self.check(TokenKind::Ref) || self.check(TokenKind::ConnectionPoint) {
                let rd = self.parse_ref()?;
                proof {
                    bv = with_ref(bv, ref_at(t, doc_at(t, skip_layout(t, q, use_braces)).1).unwrap().0);
                }
                refs.push(rd);
            } else if self.check(TokenKind::Uses) {
                let u = self.parse_uses()?;
                uses.push(u);
            } else if self.check(TokenKind::Check) {
                let c = self.parse_check()?;
                proof {
                    bv = with_check(bv, check_at(t, doc_at(t, skip_layout(t, q, use_braces)).1).unwrap().0);
                }
                checks.push(c);
            } else if self.check(TokenKind::Element) {
                let child = self.parse_element_with_context(child_doc, in_template)?;
                proof {
                    let d = doc_at(t, skip_layout(t, q, use_braces));
                    bv = with_child(bv, element_at(t, d.1, d.0, in_template).unwrap().0);
                }
                children.push(child);
                proof {
                    let cs = children@;
                    assert forall|i: int| 0 <= i < cs.len() implies element_unconstrained(#[trigger] cs[i]) && (!in_template ==> element_bounded(cs[i])) by {
                        if i < cs.len() - 1 {
                            assert(cs[i] == cs.drop_last()[i]);
                        }
                    }
                }
            } else if self.check(TokenKind::Requires) || self.check(TokenKind::Allows) || self.check(TokenKind::Forbids) {
                let mut msg = String::from_str("'");
                msg.append(self.current().text.as_str());
                msg.append("' is only allowed in templates, not in regular elements. Define a template with this constraint and have the element implement it.");
                proof {
                    assert(msg@ == template_only_message(t[self.pos as int].text@));
                    assert(block_stop(t, q3, use_braces, in_template) == Some(self.pos as int));
                    assert(stops_at_template_only(t, p0, in_template));
                }
                return Err(self.error_here("E012", msg.as_str()));
            } else if self.check(TokenKind::Identifier) {
                let pos = self.pos;
                self.advance();
                if self.check(TokenKind::Uses) {
                    self.pos = pos;
                    let u = self.parse_uses()?;
                    proof {
                        bv = with_uses(bv, uses_at(t, pos as int).unwrap().0);
                    }
                    uses.push(u);
                } else if self.check(TokenKind::Dot) {
                    self.pos = pos;
                    let binding = self.try_parse_template_binding()?;
                    proof {
                        bv = with_binding(bv, binding_at(t, pos as int).unwrap().0);
                    }
                    template_bindings.push(binding);
                } else {
                    self.pos = pos;
                    let mut msg = String::from_str("Expected 'scope', 'ref', 'uses', 'check', or 'element', found ");
                    msg.append(kind_str(self.current().kind));
                    return Err(self.error_here("E002", msg.as_str()));
                }
            } else if self.check(block_end_kind(use_braces)) || self.is_at_end() {
                break;
            } else {
                let mut msg = String::from_str("Expected 'scope', 'ref', 'uses', 'check', or 'element', found ");
                msg.append(kind_str(self.current().kind));
                return Err(self.error_here("E002", msg.as_str()));
            }
        }
        let ghost q4 = self.pos as int;
        self.close_block(use_braces);
        let end_span = self.previous_span();
        if !in_template {
            let mut i: usize = 0;
            while i < scopes.len()
                invariant
                    Self::moved_on(old(self), self),
                    self.pos > old(self).pos,
                    i <= scopes@.len(),
                    forall|k: int| 0 <= k < i ==> (#[trigger] scopes@[k]).expression is Some,
                    t == old(self).tokens@,
                    p0 == old(self).pos,
                    t[p0].kind == TokenKind::Element,
                    ident_at(t, p0 + 1) == Some(((name.name@, name.span), q1)),
                    implements_part(t, q1) == Some((iv, q2)),
                    open_block_at(t, q2) == Some((use_braces, q3)),
                    p0 < q3 <= q4 < t.len(),
                    block_items(t, q3, use_braces, in_template, empty_body()) == Some((bv, q4)),
                    items_view(scopes@, refs@, uses@, checks@, template_bindings@, bv),
                    !in_template,
                    element_head_at(t, p0) == Some((use_braces, q3)),
                    block_stop(t, q3, use_braces, in_template) is None,
                decreases scopes@.len() - i,
            {
                if scopes[i].expression.is_none() {
                    assert(bv.scopes[i as int].expression is None);
                    assert(has_unbounded(bv));
                    let n = scopes[i].name.name.as_str();
                    let mut msg = String::from_str("Unbounded scope '");
                    msg.append(n);
                    msg.append("' is only allowed in templates, not in regular elements. Provide an expression: `scope ");
                    msg.append(n);
                    msg.append(" = <expression>`");
                    return Err(self.error_at("E014", msg.as_str(), scopes[i].span));
                }
                i = i + 1;
            }
            let mut j: usize = 0;
            while j < refs.len()
                invariant
                    Self::moved_on(old(self), self),
                    self.pos > old(self).pos,
                    j <= refs@.len(),
                    forall|k: int| 0 <= k < j ==> (#[trigger] refs@[k]).expression is Some,
                    forall|k: int| 0 <= k < scopes@.len() ==> (#[trigger] scopes@[k]).expression is Some,
                    t == old(self).tokens@,
                    p0 == old(self).pos,
                    t[p0].kind == TokenKind::Element,
                    ident_at(t, p0 + 1) == Some(((name.name@, name.span), q1)),
                    implements_part(t, q1) == Some((iv, q2)),
                    open_block_at(t, q2) == Some((use_braces, q3)),
                    p0 < q3 <= q4 < t.len(),
                    block_items(t, q3, use_braces, in_template, empty_body()) == Some((bv, q4)),
                    items_view(scopes@, refs@, uses@, checks@, template_bindings@, bv),
                    !in_template,
                    element_head_at(t, p0) == Some((use_braces, q3)),
                    block_stop(t, q3, use_braces, in_template) is None,
                decreases refs@.len() - j,
            {
                if refs[j].expression.is_none() {
                    assert(bv.refs[j as int].expression is None);
                    assert(has_unbounded(bv));
                    assert(!exists|i: int| 0 <= i < bv.scopes.len() && (#[trigger] bv.scopes[i]).expression is None) by {
                        assert forall|i: int| 0 <= i < bv.scopes.len() implies (#[trigger] bv.scopes[i]).expression is Some by {
                            assert(scopes@[i].expression is Some);
                        }
                    }
                    let n = refs[j].name.name.as_str();
                    let mut msg = String::from_str("Unbounded ref '");
                    msg.append(n);
                    msg.append("' is only allowed in templates, not in regular elements. Provide an expression: `ref ");
                    msg.append(n);
                    msg.append(": ");
                    msg.append(refs[j].type_annotation.type_ident.name.as_str());
                    msg.append(" = <expression>`");
                    proof {
                        assert(msg@ == unbounded_ref_message(bv.refs[j as int].name.0, bv.refs[j as int].ty.0));
                        assert(unbounded_code(t, p0, in_template) == Some("E015"@));
                        reveal_strlit("E014");
                        reveal_strlit("E015");
                        assert("E015"@[3] != "E014"@[3]);
                        assert("E015"@ != "E014"@);
                        assert(!stops_at_template_only(t, p0, in_template));
                        assert(bv.refs[j as int].expression is None);
                        assert(element_error_message(t, p0, in_template, msg@));
                    }
                    return Err(self.error_at("E015", msg.as_str(), refs[j].span));
                }
                j = j + 1;
            }
            assert(!has_unbounded(bv)) by {
                assert forall|k: int| 0 <= k < bv.scopes.len() implies (#[trigger] bv.scopes[k]).expression is Some by {
                    assert(scopes@[k].expression is Some);
                }
                assert forall|k: int| 0 <= k < bv.refs.len() implies (#[trigger] bv.refs[k]).expression is Some by {
                    assert(refs@[k].expression is Some);
                }
            }
        }
        let e = Element {
            doc_comment,
            name,
            implements,
            scopes,
            refs,
            uses,
            checks,
            template_bindings,
            component_requirements: Vec::new(),
            children,
            span: start_span.merge(&end_span),
        };
        proof {
            let v = ElementView {
                doc: doc_view(doc_comment),
                name: (e.name.name@, e.name.span),
                implements: iv,
                body: bv,
                span: e.span,
            };
            assert(doc_views(e.doc_comment, v.doc));
            assert(ident_views(e.name, v.name));
            assert(e.implements@.len() == v.implements.len());
            assert(items_view(e.scopes@, e.refs@, e.uses@, e.checks@, e.template_bindings@, v.body));
            assert(children_view(e.children@, v.body.children));
            assert(e.component_requirements@.len() == 0);
            lemma_element_views_parts(e, v);
            assert(element_at(t, p0, doc_view(doc_comment), in_template) == Some((v, self.pos as int)));
        }
        Ok(e)
    }

    /// Parse an element at top level (not in a template).
    fn parse_element(&mut self, doc_comment: Option<String>) -> (r: Result<Element, Diagnostic>)
        requires
            old(self).wf(),
            old(self).cur().kind == TokenKind::Element,
        ensures
            Self::step_ok(old(self), final(self), r),
            final(self).pos > old(self).pos,
            r matches Ok(e) ==> e.name.name == old(self).next_text() && element_unconstrained(e)
                && element_bounded(e),
            r matches Ok(e) ==> (element_at(old(self).tokens@, old(self).pos as int, doc_view(doc_comment), false)
                matches Some((v, q)) && element_views(e, v) && q == final(self).pos),
            r is Err ==> element_at(old(self).tokens@, old(self).pos as int, doc_view(doc_comment), false) is None,
            stops_at_template_only(old(self).tokens@, old(self).pos as int, false)
                ==> (r matches Err(e) && e.code@ == "E012"@),
            unbounded_code(old(self).tokens@, old(self).pos as int, false) matches Some(c)
                ==> (r matches Err(e) && e.code@ == c),
            r matches Err(e) ==> element_error_message(old(self).tokens@, old(self).pos as int, false, e.message@),
    {
        self.parse_element_with_context(doc_comment, false)
    }

    /// Parse a template declaration (with braces or an indented block).
    fn parse_template(&mut self, doc_comment: Option<String>) -> (r: Result<Template, Diagnostic>)
        requires
            old(self).wf(),
            old(self).cur().kind == TokenKind::Template,
        ensures
            Self::step_ok(old(self), final(self), r),
            final(self).pos > old(self).pos,
            r matches Ok(t) ==> t.name.name == old(self).next_text() && t.doc_comment == doc_comment
                && elements_ok(t.elements@, true),
            r matches Ok(tm) ==> (template_at(old(self).tokens@, old(self).pos as int, doc_view(doc_comment))
                matches Some((v, q)) && template_views(tm, v) && q == final(self).pos),
            r is Err ==> template_at(old(self).tokens@, old(self).pos as int, doc_view(doc_comment)) is None,
    {
        proof {
            reveal(template_at);
        }
        let ghost t = self.tokens@;
        let ghost p0 = self.pos as int;
        let start_span = self.current_span();
        self.expect(TokenKind::Template)?;
        let name = self.parse_identifier()?;
        let ghost q1 = self.pos as int;
        let use_braces = self.open_block()?;
        let ghost q2 = self.pos as int;
        assert(template_items(t, q2, use_braces, template_body_empty()) is None
            ==> template_at(t, p0, doc_view(doc_comment)) is None);
        let mut scopes: Vec<ScopeDeclaration> = Vec::new();
        let mut refs: Vec<RefDeclaration> = Vec::new();
        let mut checks: Vec<CheckDeclaration> = Vec::new();
        let mut component_requirements: Vec<ComponentRequirement> = Vec::new();
        let mut elements: Vec<Element> = Vec::new();
        let ghost mut tb: TemplateBodyView = template_body_empty();
        loop
            invariant_except_break
                template_items(t, q2, use_braces, template_body_empty())
                    == template_items(t, self.pos as int, use_braces, tb),
            invariant
                Self::moved_on(old(self), self),
                t == old(self).tokens@,
                p0 == old(self).pos,
                t[p0].kind == TokenKind::Template,
                ident_at(t, p0 + 1) == Some(((name.name@, name.span), q1)),
                open_block_at(t, q1) == Some((use_braces, q2)),
                template_items(t, q2, use_braces, template_body_empty()) is None
                    ==> template_at(t, p0, doc_view(doc_comment)) is None,
                self.pos >= q2,
                self.pos > old(self).pos,
                name.name == old(self).next_text(),
                elements_ok(elements@, true),
                items_view(scopes@, refs@, Seq::empty(), checks@, Seq::empty(), BodyView {
                    scopes: tb.scopes,
                    refs: tb.refs,
                    uses: Seq::empty(),
                    checks: tb.checks,
                    bindings: Seq::empty(),
                    children: tb.elements,
                }),
                children_view(elements@, tb.elements),
                component_requirements@.len() == tb.requirements.len(),
                forall|i: int| 0 <= i < tb.requirements.len() ==> requirement_views(
                    #[trigger] component_requirements@[i],
                    tb.requirements[i],
                ),
            ensures
                template_items(t, q2, use_braces, template_body_empty()) == Some((tb, self.pos as int)),
            decreases self.tokens@.len() - self.pos,
        {
            let ghost q = self.pos as int;
            self.skip_block_layout(use_braces);
            if self.check(block_end_kind(use_braces)) || self.is_at_end() {
                break;
            }
            let child_doc = self.parse_doc_comment();
            let ghost d = doc_at(t, skip_layout(t, q, use_braces));
            if self.check(TokenKind::Scope) {
                let sc = self.parse_scope()?;
                proof {
                    tb = TemplateBodyView { scopes: tb.scopes.push(scope_at(t, d.1).unwrap().0), ..tb };
                }
                scopes.push(sc);
            } else if self.check(TokenKind::Ref) || self.check(TokenKind::ConnectionPoint) {
                let rd = self.parse_ref()?;
                proof {
                    tb = TemplateBodyView { refs: tb.refs.push(ref_at(t, d.1).unwrap().0), ..tb };
                }
                refs.push(rd);
            } else if self.check(TokenKind::Check) {
                let c = self.parse_check()?;
                proof {
                    tb = TemplateBodyView { checks: tb.checks.push(check_at(t, d.1).unwrap().0), ..tb };
                }
                checks.push(c);
            } else if self.check(TokenKind::Element) {
                let child = self.parse_element_with_context(child_doc, true)?;
                proof {
                    tb = TemplateBodyView { elements: tb.elements.push(element_at(t, d.1, d.0, true).unwrap().0), ..tb };
                }
                elements.push(child);
                proof {
                    let cs = elements@;
                    assert forall|i: int| 0 <= i < cs.len() implies element_unconstrained(#[trigger] cs[i]) && (!true ==> element_bounded(cs[i])) by {
                        if i < cs.len() - 1 {
                            assert(cs[i] == cs.drop_last()[i]);
                        }
                    }
                }
            } else if self.check(TokenKind::Requires) {
                let req = self.parse_component_requirement(RequirementAction::Requires)?;
                proof {
                    tb = TemplateBodyView {
                        requirements: tb.requirements.push(requirement_at(t, d.1, RequirementAction::Requires).unwrap().0),
                        ..tb
                    };
                }
                component_requirements.push(req);
            } else if self.check(TokenKind::Allows) {
                let req = self.parse_component_requirement(RequirementAction::Allows)?;
                proof {
                    tb = TemplateBodyView {
                        requirements: tb.requirements.push(requirement_at(t, d.1, RequirementAction::Allows).unwrap().0),
                        ..tb
                    };
                }
                component_requirements.push(req);
            } else if self.check(TokenKind::Forbids) {
                let req = self.parse_component_requirement(RequirementAction::Forbids)?;
                proof {
                    tb = TemplateBodyView {
                        requirements: tb.requirements.push(requirement_at(t, d.1, RequirementAction::Forbids).unwrap().0),
                        ..tb
                    };
                }
                component_requirements.push(req);
            } else if self.check(block_end_kind(use_braces)) || self.is_at_end() {
                break;
            } else {
                let mut msg = String::from_str("Expected 'scope', 'ref', 'check', 'element', 'requires', 'allows', or 'forbids' in template, found ");
                msg.append(kind_str(self.current().kind));
                return Err(self.error_here("E002", msg.as_str()));
            }
        }
        self.close_block(use_braces);
        let end_span = self.previous_span();
        Ok(Template {
            doc_comment,
            name,
            scopes,
            refs,
            checks,
            component_requirements,
            elements,
            span: start_span.merge(&end_span),
        })
    }

    /// Parse a component requirement:
    /// `(requires | allows | forbids) [descendant] (scope | check | element | connection | ref | implements | language)`.
    fn parse_component_requirement(&mut self, action: RequirementAction) -> (r: Result<ComponentRequirement, Diagnostic>)
        requires
            old(self).wf(),
            old(self).cur().kind == TokenKind::Requires || old(self).cur().kind == TokenKind::Allows
                || old(self).cur().kind == TokenKind::Forbids,
        ensures
            Self::step_ok(old(self), final(self), r),
            r matches Ok(req) ==> req.action == action
                && req.is_descendant == (old(self).tokens@[old(self).pos + 1].kind == TokenKind::Descendant),
            r matches Ok(req) ==> (requirement_at(old(self).tokens@, old(self).pos as int, action) matches Some((v, q))
                && requirement_views(req, v) && q == final(self).pos),
            r is Err ==> requirement_at(old(self).tokens@, old(self).pos as int, action) is None,
            !component_keyword(old(self).tokens@[requirement_component_pos(old(self).tokens@, old(self).pos as int)].kind)
                ==> (r matches Err(d) && d.code@ == "E011"@),
    {
        proof {
            reveal(requirement_at);
            reveal(component_at);
        }
        let start_span = self.current_span();
        self.advance();
        let is_descendant = if self.check(TokenKind::Descendant) {
            self.advance();
            true
        } else {
            false
        };
        let component = if self.check(TokenKind::Scope) {
            ComponentSpec::Scope(self.parse_scope()?)
        } else if self.check(TokenKind::Check) {
            ComponentSpec::Check(self.parse_check()?)
        } else if self.check(TokenKind::Element) {
            self.parse_element_component_spec()?
        } else if self.check(TokenKind::Connection) {
            self.advance();
            if self.check(TokenKind::To) {
                self.advance();
            }
            let pattern = self.parse_connection_pattern()?;
            self.expect_newline()?;
            ComponentSpec::Connection(pattern)
        } else if self.check(TokenKind::Ref) || self.check(TokenKind::ConnectionPoint) {
            self.parse_ref_component_spec()?
        } else if self.check(TokenKind::Implements) {
            self.advance();
            let template_name = self.parse_identifier()?;
            self.expect_newline()?;
            let anonymous = Identifier::new("_anonymous", template_name.span);
            ComponentSpec::Element { name: anonymous, type_annotation: None, implements: Some(template_name), body: None }
        } else if self.check(TokenKind::Language) {
            self.advance();
            let lang_name = self.parse_identifier()?;
            self.expect_newline()?;
            ComponentSpec::Language(lang_name)
        } else {
            let mut msg = String::from_str("Expected 'scope', 'check', 'element', 'connection', 'ref', 'implements', or 'language' after '");
            msg.append(match action {
                RequirementAction::Requires => "requires",
                RequirementAction::Allows => "allows",
                RequirementAction::Forbids => "forbids",
            });
            msg.append(" ");
            msg.append(if is_descendant { "descendant" } else { "" });
            msg.append("', found ");
            msg.append(kind_str(self.current().kind));
            return Err(self.error_here("E011", msg.as_str()));
        };
        let end_span = self.previous_span();
        Ok(ComponentRequirement { action, is_descendant, component, span: start_span.merge(&end_span) })
    }

    /// Parse an element component specification:
    /// `element name [: Type] [implements template] [: body]`.
    #[verifier::rlimit(40)]
    fn parse_element_component_spec(&mut self) -> (r: Result<ComponentSpec, Diagnostic>)
        requires
            old(self).wf(),
            old(self).cur().kind == TokenKind::Element,
        ensures
            Self::step_ok(old(self), final(self), r),
            r matches Ok(c) ==> (c matches ComponentSpec::Element { name, .. } && name.name == old(self).next_text()),
            r matches Ok(c) ==> (element_component_at(old(self).tokens@, old(self).pos as int) matches Some((v, q))
                && component_views(c, v) && q == final(self).pos),
            r is Err ==> element_component_at(old(self).tokens@, old(self).pos as int) is None,
    {
        proof {
            reveal(element_component_at);
        }
        let ghost t = self.tokens@;
        let ghost p0 = self.pos as int;
        self.advance();
        let name = self.parse_identifier()?;
        let ghost q1 = self.pos as int;
        let type_annotation = if self.check(TokenKind::Colon) {
            let pos = self.pos;
            self.advance();
            if self.check(TokenKind::Identifier) {
                let id = self.parse_identifier()?;
                if self.check(TokenKind::Implements) || self.check(TokenKind::Newline) || self.check(TokenKind::Colon) {
                    let span = id.span;
                    Some(TypeAnnotation { type_ident: id, span })
                } else {
                    self.pos = pos;
                    None
                }
            } else {
                self.pos = pos;
                None
            }
        } else {
            None
        };
        let ghost q2 = self.pos as int;
        assert(component_type_part(t, q1).1 == q2);
        let implements = if self.check(TokenKind::Implements) {
            self.advance();
            Some(self.parse_identifier()?)
        } else {
            None
        };
        let ghost q3 = self.pos as int;
        let body = if self.check(TokenKind::Colon) {
            self.expect(TokenKind::Colon)?;
            self.skip_newlines();
            if self.check(TokenKind::Indent) {
                self.expect(TokenKind::Indent)?;
                let ghost b0 = self.pos as int;
                assert(component_items(t, b0, empty_body()) is None ==> element_component_at(t, p0) is None);
                let mut scopes: Vec<ScopeDeclaration> = Vec::new();
                let mut refs: Vec<RefDeclaration> = Vec::new();
                let mut checks: Vec<CheckDeclaration> = Vec::new();
                let mut children: Vec<Element> = Vec::new();
                let ghost mut bv: BodyView = empty_body();
                loop
                    invariant_except_break
                        component_items(t, b0, empty_body()) == component_items(t, self.pos as int, bv),
                    invariant
                        Self::moved_on(old(self), self),
                        t == old(self).tokens@,
                        self.pos > old(self).pos,
                        self.pos >= b0,
                        p0 == old(self).pos,
                        component_items(t, b0, empty_body()) is None ==> element_component_at(t, p0) is None,
                        name.name == old(self).next_text(),
                        items_view(scopes@, refs@, Seq::empty(), checks@, Seq::empty(), bv),
                        children_view(children@, bv.children),
                    ensures
                        component_items(t, b0, empty_body()) == Some((bv, self.pos as int)),
                    decreases self.tokens@.len() - self.pos,
                {
                    let ghost q = self.pos as int;
                    self.skip_newlines();
                    if self.check(TokenKind::Dedent) || self.is_at_end() {
                        break;
                    }
                    let child_doc = self.parse_doc_comment();
                    if self.check(TokenKind::Scope) {
                        let sc = self.parse_scope()?;
                        proof {
                            bv = with_scope(bv, scope_at(t, doc_at(t, skip_nl(t, q)).1).unwrap().0);
                        }
                        scopes.push(sc);
                    } else if self.check(TokenKind::Ref) || self.check(TokenKind::ConnectionPoint) {
                        let rd = self.parse_ref()?;
                        proof {
                            bv = with_ref(bv, ref_at(t, doc_at(t, skip_nl(t, q)).1).unwrap().0);
                        }
                        refs.push(rd);
                    } else if self.check(TokenKind::Check) {
                        let c = self.parse_check()?;
                        proof {
                            bv = with_check(bv, check_at(t, doc_at(t, skip_nl(t, q)).1).unwrap().0);
                        }
                        checks.push(c);
                    } else if self.check(TokenKind::Element) {
                        let child = self.parse_element_with_context(child_doc, false)?;
                        proof {
                            let d = doc_at(t, skip_nl(t, q));
                            bv = with_child(bv, element_at(t, d.1, d.0, false).unwrap().0);
                        }
                        children.push(child);
                    } else if self.check(TokenKind::Requires) || self.check(TokenKind::Allows) || self.check(TokenKind::Forbids) {
                        let mut msg = String::from_str("'");
                        msg.append(self.current().text.as_str());
                        msg.append("' is only allowed in templates, not in regular elements.");
                        return Err(self.error_here("E012", msg.as_str()));
                    } else {
                        break;
                    }
                }
                let ghost e0 = self.pos as int;
                if self.check(TokenKind::Dedent) {
                    self.advance();
                }
                let span = name.span.merge(&self.previous_span());
                let body_implements: Vec<TemplateImplementation> = match &implements {
                    Some(impl_name) => {
                        let mut v = Vec::new();
                        v.push(TemplateImplementation { template_name: impl_name.clone(), span: impl_name.span });
                        v
                    },
                    None => Vec::new(),
                };
                Some(Box::new(Element {
                    doc_comment: None,
                    name: name.clone(),
                    implements: body_implements,
                    scopes,
                    refs,
                    uses: Vec::new(),
                    checks,
                    template_bindings: Vec::new(),
                    component_requirements: Vec::new(),
                    children,
                    span,
                }))
            } else {
                None
            }
        } else {
            self.expect_newline()?;
            None
        };
        Ok(ComponentSpec::Element { name, type_annotation, implements, body })
    }

    /// Parse the entire program. A declaration that fails to parse is
    /// reported and skipped: after a failed template or element the parser
    /// resumes at the next `element`, after a failed import or language
    /// declaration at the next line. The program is always returned.
    #[verifier::rlimit(60)]
    pub fn parse(self) -> (r: (Option<Program>, Diagnostics))
        requires
            self.wf(),
        ensures
            r.0 is Some,
            forall|i: int| 0 <= i < r.0.unwrap().elements@.len() ==> element_bounded(#[trigger] r.0.unwrap().elements@[i])
                && element_unconstrained(r.0.unwrap().elements@[i]),
            forall|i: int| 0 <= i < r.0.unwrap().templates@.len() ==> elements_ok(#[trigger] r.0.unwrap().templates@[i].elements@, true),
            r.1@.len() >= self.spec_diagnostics().len(),
            r.1@.take(self.spec_diagnostics().len() as int) == self.spec_diagnostics(),
            forall|i: int| self.spec_diagnostics().len() <= i < r.1@.len() ==> (#[trigger] r.1@[i]).severity == DiagnosticSeverity::Error
                && r.1@[i].file@ == self.spec_file_path(),
            program_at(self.spec_tokens(), self.spec_pos()) matches Some(pv) ==> r.1@.len()
                == self.spec_diagnostics().len() && program_views(r.0.unwrap(), pv),
            program_at(self.spec_tokens(), self.spec_pos()) is None ==> r.1@.len() > self.spec_diagnostics().len(),
            declarations_from_tokens(self.spec_tokens(), r.0.unwrap()),
            first_element_error(self.spec_tokens(), self.spec_pos()) matches Some(c)
                ==> r.1@.len() > self.spec_diagnostics().len() && r.1@[self.spec_diagnostics().len() as int].code@ == c
                && first_element_message(self.spec_tokens(), self.spec_pos(), r.1@[self.spec_diagnostics().len() as int].message@),
    {
        let mut p = self;
        let ghost d0 = p.diagnostics@;
        let ghost t = p.tokens@;
        let ghost p0 = p.pos as int;
        let ghost fp = p.file_path@;
        let start_span = p.current_span();
        let mut imports: Vec<ImportStatement> = Vec::new();
        let mut languages: Vec<LanguageDeclaration> = Vec::new();
        let mut templates: Vec<Template> = Vec::new();
        let mut elements: Vec<Element> = Vec::new();
        p.skip_newlines_and_comments();
        let ghost s0 = p.pos as int;
        let ghost mut iv: Seq<ImportView> = Seq::empty();
        let ghost mut ipos: Seq<int> = Seq::empty();
        while p.check(TokenKind::Import) || p.check(TokenKind::From)
            invariant
                p.wf(),
                p.tokens@ == t,
                0 <= p0 < t.len(),
                s0 == skip_nl_doc(t, p0),
                p.diagnostics@.len() >= d0.len(),
                p.diagnostics@.take(d0.len() as int) == d0,
                forall|i: int| d0.len() <= i < p.diagnostics@.len() ==> (#[trigger] p.diagnostics@[i]).severity == DiagnosticSeverity::Error
                    && p.diagnostics@[i].file@ == fp,
                p.file_path@ == fp,
                p.diagnostics@.len() == d0.len() ==> imports_from(t, s0, Seq::empty()) == imports_from(t, p.pos as int, iv)
                    && imports_view(imports@, iv),
                p.diagnostics@.len() > d0.len() ==> program_at(t, p0) is None,
                p.diagnostics@.len() > d0.len() ==> imports_from(t, s0, Seq::empty()) is None,
                ipos.len() == imports@.len(),
                forall|i: int| 0 <= i < imports@.len() ==> import_parsed_at(t, #[trigger] ipos[i], imports@[i]),
            decreases p.tokens@.len() - p.pos,
        {
            let ghost before = p.diagnostics@;
            let ghost q = p.pos as int;
            match p.parse_import() {
                Ok(import) => {
                    proof {
                        if p.diagnostics@.len() == d0.len() {
                            iv = iv.push(import_at(t, q).unwrap().0);
                        }
                    }
                    let ghost before_imports = imports@;
                    imports.push(import);
                    assert(imports@.drop_last() == before_imports);
                    proof {
                        ipos = ipos.push(q);
                        assert forall|i: int| 0 <= i < imports@.len() implies import_parsed_at(t, #[trigger] ipos[i], imports@[i]) by {
                            if i < imports@.len() - 1 {
                                assert(imports@[i] == before_imports[i]);
                            }
                        }
                    }
                },
                Err(diag) => {
                    proof {
                        if before.len() == d0.len() {
                            assert(imports_from(t, q, iv) is None);
                            reveal(program_at);
                        }
                    }
                    p.diagnostics.push(diag);
                    p.recover_to_newline();
                    assert(p.diagnostics@.take(d0.len() as int) =~= before.take(d0.len() as int));
                },
            }
            p.skip_newlines_and_comments();
        }
        let ghost qi = p.pos as int;
        let ghost mut dv: DeclsView = no_decls();
        let ghost mut lpos: Seq<int> = Seq::empty();
        let ghost mut tpos: Seq<(int, Option<Seq<char>>)> = Seq::empty();
        let ghost mut epos: Seq<(int, Option<Seq<char>>)> = Seq::empty();
        while !p.is_at_end()
            invariant
                first_element_error(t, p0) matches Some(c) ==> ((p.diagnostics@.len() == d0.len() && p.pos == qi && t[qi].kind != TokenKind::Eof)
                    || (p.diagnostics@.len() > d0.len() && p.diagnostics@[d0.len() as int].code@ == c
                        && first_element_message(t, p0, p.diagnostics@[d0.len() as int].message@))),
                p.diagnostics@.len() == d0.len() ==> imports_from(t, s0, Seq::empty()) is Some,
                p.wf(),
                p.tokens@ == t,
                0 <= p0 < t.len(),
                s0 == skip_nl_doc(t, p0),
                p.diagnostics@.len() >= d0.len(),
                p.diagnostics@.take(d0.len() as int) == d0,
                forall|i: int| d0.len() <= i < p.diagnostics@.len() ==> (#[trigger] p.diagnostics@[i]).severity == DiagnosticSeverity::Error
                    && p.diagnostics@[i].file@ == fp,
                p.file_path@ == fp,
                forall|i: int| 0 <= i < elements@.len() ==> element_bounded(#[trigger] elements@[i]) && element_unconstrained(elements@[i]),
                forall|i: int| 0 <= i < templates@.len() ==> elements_ok(#[trigger] templates@[i].elements@, true),
                p.diagnostics@.len() == d0.len() ==> imports_from(t, s0, Seq::empty()) == Some((iv, qi))
                    && imports_view(imports@, iv) && decls_from(t, qi, no_decls()) == decls_from(t, p.pos as int, dv)
                    && decls_view(languages@, templates@, elements@, dv),
                p.diagnostics@.len() > d0.len() ==> program_at(t, p0) is None,
                ipos.len() == imports@.len(),
                forall|i: int| 0 <= i < imports@.len() ==> import_parsed_at(t, #[trigger] ipos[i], imports@[i]),
                lpos.len() == languages@.len(),
                forall|i: int| 0 <= i < languages@.len() ==> language_parsed_at(t, #[trigger] lpos[i], languages@[i]),
                tpos.len() == templates@.len(),
                forall|i: int| 0 <= i < templates@.len() ==> template_parsed_at(t, (#[trigger] tpos[i]).0, tpos[i].1, templates@[i]),
                epos.len() == elements@.len(),
                forall|i: int| 0 <= i < elements@.len() ==> element_parsed_at(t, (#[trigger] epos[i]).0, epos[i].1, elements@[i]),
            ensures
                p.diagnostics@.len() == d0.len() ==> decls_from(t, qi, no_decls()) == Some((dv, p.pos as int)),
                first_element_error(t, p0) matches Some(c) ==> p.diagnostics@.len() > d0.len()
                    && p.diagnostics@[d0.len() as int].code@ == c
                    && first_element_message(t, p0, p.diagnostics@[d0.len() as int].message@),
            decreases p.tokens@.len() - p.pos,
        {
            let ghost q = p.pos as int;
            p.skip_newlines();
            if p.is_at_end() {
                break;
            }
            let ghost before = p.diagnostics@;
            let ghost dv0 = dv;
            let doc_comment = p.parse_doc_comment();
            let ghost d = doc_at(t, skip_nl(t, q));
            if p.check(TokenKind::Template) {
                match p.parse_template(doc_comment) {
                    Ok(template) => {
                        proof {
                            if p.diagnostics@.len() == d0.len() {
                                dv = DeclsView { templates: dv.templates.push(template_at(t, d.1, d.0).unwrap().0), ..dv };
                            }
                        }
                        let ghost before_templates = templates@;
                        templates.push(template);
                        assert(templates@.drop_last() == before_templates);
                        proof {
                            tpos = tpos.push((d.1, d.0));
                            assert forall|i: int| 0 <= i < templates@.len() implies template_parsed_at(t, (#[trigger] tpos[i]).0, tpos[i].1, templates@[i]) by {
                                if i < templates@.len() - 1 {
                                    assert(templates@[i] == before_templates[i]);
                                }
                            }
                        }
                        proof {
                            let ts = templates@;
                            assert forall|i: int| 0 <= i < ts.len() implies elements_ok(#[trigger] ts[i].elements@, true) by {
                                if i < ts.len() - 1 {
                                    assert(ts[i] == ts.drop_last()[i]);
                                }
                            }
                        }
                    },
                    Err(diag) => {
                        proof {
                            if before.len() == d0.len() {
                                assert(template_at(t, d.1, d.0) is None);
                                assert(decls_from(t, q, dv0) is None);
                            }
                        }
                        p.diagnostics.push(diag);
                        p.recover_to_element();
                    },
                }
            } else if p.check(TokenKind::Element) {
                match p.parse_element(doc_comment) {
                    Ok(element) => {
                        proof {
                            if p.diagnostics@.len() == d0.len() {
                                dv = DeclsView { elements: dv.elements.push(element_at(t, d.1, d.0, false).unwrap().0), ..dv };
                            }
                        }
                        let ghost before_elements = elements@;
                        elements.push(element);
                        assert(elements@.drop_last() == before_elements);
                        proof {
                            epos = epos.push((d.1, d.0));
                            assert forall|i: int| 0 <= i < elements@.len() implies element_parsed_at(t, (#[trigger] epos[i]).0, epos[i].1, elements@[i]) by {
                                if i < elements@.len() - 1 {
                                    assert(elements@[i] == before_elements[i]);
                                }
                            }
                        }
                        proof {
                            let es = elements@;
                            assert forall|i: int| 0 <= i < es.len() implies element_bounded(#[trigger] es[i]) && element_unconstrained(es[i]) by {
                                if i < es.len() - 1 {
                                    assert(es[i] == es.drop_last()[i]);
                                }
                            }
                        }
                    },
                    Err(diag) => {
                        proof {
                            if before.len() == d0.len() {
                                assert(element_at(t, d.1, d.0, false) is None);
                                assert(decls_from(t, q, dv0) is None);
                            }
                        }
                        p.diagnostics.push(diag);
                        p.recover_to_element();
                    },
                }
            } else if p.check(TokenKind::Language) {
                match p.parse_language_declaration() {
                    Ok(lang) => {
                        proof {
                            if p.diagnostics@.len() == d0.len() {
                                dv = DeclsView { languages: dv.languages.push(language_at(t, d.1).unwrap().0), ..dv };
                            }
                        }
                        let ghost before_languages = languages@;
                        languages.push(lang);
                        assert(languages@.drop_last() == before_languages);
                        proof {
                            lpos = lpos.push(d.1);
                            assert forall|i: int| 0 <= i < languages@.len() implies language_parsed_at(t, #[trigger] lpos[i], languages@[i]) by {
                                if i < languages@.len() - 1 {
                                    assert(languages@[i] == before_languages[i]);
                                }
                            }
                        }
                    },
                    Err(diag) => {
                        proof {
                            if before.len() == d0.len() {
                                assert(language_at(t, d.1) is None);
                                assert(decls_from(t, q, dv0) is None);
                            }
                        }
                        p.diagnostics.push(diag);
                        p.recover_to_newline();
                    },
                }
            } else if !p.is_at_end() {
                proof {
                    if before.len() == d0.len() {
                        assert(decls_from(t, q, dv0) is None);
                    }
                }
                let mut msg = String::from_str("Expected 'template', 'element', or 'language', found ");
                msg.append(kind_str(p.current().kind));
                let d = p.error_here("E001", msg.as_str());
                p.diagnostics.push(d);
                p.advance();
            }
            proof {
                assert(p.diagnostics@.take(d0.len() as int) =~= d0) by {
                    assert(before.take(d0.len() as int) == d0);
                    if p.diagnostics@.len() > before.len() {
                        assert(p.diagnostics@.drop_last() == before);
                    }
                }
                if before.len() == d0.len() && p.diagnostics@.len() > d0.len() {
                    lemma_program_fails(t, p0, iv, qi);
                }
            }
        }
        proof {
            if p.diagnostics@.len() == d0.len() {
                lemma_program_parses(t, p0, iv, qi, dv, p.pos as int);
            }
        }
        let end_span = p.previous_span();
        let program = Program { imports, languages, templates, elements, span: start_span.merge(&end_span) };
        assert(declarations_at(t, program, ipos, lpos, tpos, epos));
        assert(declarations_from_tokens(t, program));
        (Some(program), p.diagnostics)
    }
}

/// The kind of the token that ends a block.
fn block_end_kind(use_braces: bool) -> (k: TokenKind)
    ensures
        k == block_end(use_braces),
{
    if use_braces { TokenKind::RBrace } else { TokenKind::Dedent }
}

/// The lines `lines` joined with line breaks.
fn join_with_newlines(lines: &Vec<String>) -> (r: String)
    requires
        lines@.len() > 0,
    ensures
        r@ == join_lines(lines@.map_values(|s: String| s@)),
{
    let ghost views = lines@.map_values(|s: String| s@);
    let mut out = String::new();
    out.append(lines[0].as_str());
    let mut i: usize = 1;
    proof {
        assert(views.take(1) =~= seq![views[0]]);
        assert(views[0] == lines@[0]@);
    }
    while i < lines.len()
        invariant
            1 <= i <= lines@.len(),
            views == lines@.map_values(|s: String| s@),
            out@ == join_lines(views.take(i as int)),
        decreases lines@.len() - i,
    {
        assert(views.take(i + 1).drop_last() =~= views.take(i as int));
        assert(views.take(i + 1).last() == lines@[i as int]@);
        proof {
            reveal_strlit("\n");
            assert("\n"@ =~= seq!['\n']);
        }
        out.append("\n");
        out.append(lines[i].as_str());
        i = i + 1;
    }
    assert(views.take(i as int) =~= views);
    out
}

/// Resolve the escape sequences of a quoted literal `text`, without its quotes.
fn unescape_string(text: &str) -> (r: String)
    requires
        text@.len() >= 2,
    ensures
        r@ == unescape(literal_body(text@)),
{
    let chars = chars_of(text);
    let end = chars.len() - 1;
    let ghost body = literal_body(text@);
    let mut out: Vec<char> = Vec::new();
    let mut k: usize = 1;
    proof {
        assert(chars@.subrange(1, end as int) =~= body);
    }
    while k < end
        invariant
            1 <= k <= end + 1,
            end == chars@.len() - 1,
            chars@ == text@,
            body == literal_body(text@),
            k <= end ==> out@ + unescape(chars@.subrange(k as int, end as int)) == unescape(body),
            k > end ==> out@ == unescape(body),
        decreases end + 1 - k,
    {
        let ghost rest = chars@.subrange(k as int, end as int);
        let ch = chars[k];
        if ch == '\\' {
            if k + 1 < end {
                let next = chars[k + 1];
                let esc: Vec<char> = if next == 'n' {
                    vec!['\n']
                } else if next == 't' {
                    vec!['\t']
                } else if next == 'r' {
                    vec!['\r']
                } else if next == '\\' {
                    vec!['\\']
                } else if next == '\'' {
                    vec!['\'']
                } else if next == '"' {
                    vec!['"']
                } else {
                    vec!['\\', next]
                };
                proof {
                    assert(esc@ =~= escape_of(next));
                    assert(rest.skip(2) =~= chars@.subrange(k + 2, end as int));
                }
                let ghost before = out@;
                let mut e = esc;
                out.append(&mut e);
                assert(out@ =~= before + escape_of(next));
                k = k + 2;
            } else {
                out.push('\\');
                proof {
                    assert(rest =~= seq!['\\']);
                }
                k = k + 1;
            }
        } else {
            out.push(ch);
            proof {
                assert(rest.drop_first() =~= chars@.subrange(k + 1, end as int));
            }
            k = k + 1;
        }
        proof {
            if k == end {
                assert(chars@.subrange(k as int, end as int).len() == 0);
            }
        }
    }
    proof {
        if k == end {
            assert(chars@.subrange(k as int, end as int) =~= Seq::<char>::empty());
            assert(out@ + Seq::<char>::empty() =~= out@);
        }
    }
    string_from_chars(out.as_slice(), 0, out.len())
}

/// Split the text of a number token at its point.
fn split_number(text: &str) -> (r: (String, String))
    requires
        number_shape(text@),
    ensures
        digits_with_point(r.0@, r.1@) == text@,
        all_digits(r.0@),
        r.0@.len() > 0,
        all_digits(r.1@),
{
    let chars = chars_of(text);
    let mut d: usize = 0;
    while d < chars.len() && chars[d] != '.'
        invariant
            d <= chars@.len(),
            forall|k: int| 0 <= k < d ==> #[trigger] chars@[k] != '.',
        decreases chars@.len() - d,
    {
        d = d + 1;
    }
    if d < chars.len() {
        let whole = string_from_chars(chars.as_slice(), 0, d);
        let fraction = string_from_chars(chars.as_slice(), d + 1, chars.len());
        proof {
            let w = text@;
            if w.len() > 0 && all_digits(w) {
                assert(is_digit(w[d as int]));
            }
            let e = choose|e: int| 0 < e < w.len() - 1 && #[trigger] w[e] == '.' && all_digits(w.take(e)) && all_digits(w.skip(e + 1));
            if e < d {
                assert(chars@[e] != '.');
            } else if e > d {
                assert(w.take(e)[d as int] == '.');
                assert(is_digit(w.take(e)[d as int]));
            }
            assert(whole@ =~= w.take(e));
            assert(fraction@ =~= w.skip(e + 1));
            assert(whole@ + seq!['.'] + fraction@ =~= w);
        }
        (whole, fraction)
    } else {
        let whole = string_from_chars(chars.as_slice(), 0, chars.len());
        let fraction = String::new();
        proof {
            let w = text@;
            if !(w.len() > 0 && all_digits(w)) {
                let e = choose|e: int| 0 < e < w.len() - 1 && #[trigger] w[e] == '.' && all_digits(w.take(e)) && all_digits(w.skip(e + 1));
                assert(chars@[e] != '.');
            }
            assert(whole@ =~= w);
        }
        (whole, fraction)
    }
}

} // verus!
