//! The errors that parsing a declaration or generating code can end in.
use crate::stream_builder::{lemma_extended_trans, StreamBuilder};
use crate::token::{group_shape, ident_shape, punct_shape, shape, shaped, shapes_upto, span_of, quotes, Delim, Literal, TokenShape, TokenTree};
use proc_macro2::{LexError, Span};
use vstd::prelude::*;

verus! {

/// Text handed to [`StreamBuilder::push_parsed`] that did not tokenize.
#[derive(Debug)]
pub struct PushParseError {
    /// What the lexer reported
    pub error: LexError,
    /// The text that was being tokenized
    pub code: String,
}

/// Errors that can occur while parsing a declaration or generating code.
#[derive(Debug)]
pub enum Error {
    /// The declaration at the span is neither a `struct` nor an `enum`.
    UnknownDataType(Span),
    /// The tokens do not have the structure that was expected at the span.
    InvalidRustSyntax {
        span: Span,
        expected: String,
    },
    /// An identifier was expected at the span.
    ExpectedIdent(Span),
    /// Text handed to [`StreamBuilder::push_parsed`] did not tokenize.
    PushParse(PushParseError),
    /// An error raised by the caller, optionally at a location.
    Custom {
        error: String,
        span: Option<Span>,
    },
}

/// The message that a diagnostic for `e` shows.
pub open spec fn message_of(e: Error) -> Seq<char> {
    match e {
        Error::UnknownDataType(_) => "Unknown data type, only enum and struct are supported"@,
        Error::InvalidRustSyntax { expected, .. } => "Invalid rust syntax, expected "@ + expected@,
        Error::ExpectedIdent(_) => "Expected ident"@,
        Error::PushParse(p) => "Invalid code passed to `StreamBuilder::push_parsed`: "@ + p.code@,
        Error::Custom { error, .. } => error@,
    }
}

/// The location a diagnostic for `e` points at, if it has one.
pub open spec fn error_span(e: Error) -> Option<Span> {
    match e {
        Error::UnknownDataType(s) => Some(s),
        Error::ExpectedIdent(s) => Some(s),
        Error::InvalidRustSyntax { span, .. } => Some(span),
        Error::Custom { span, .. } => span,
        Error::PushParse(_) => None,
    }
}

/// The tokens of a diagnostic whose string literal reads `lit`: `compile_error! { lit }`.
pub open spec fn diagnostic_shapes(lit: Seq<char>) -> Seq<TokenShape> {
    seq![
        ident_shape("compile_error"@),
        punct_shape('!'),
        group_shape(Delim::Brace, seq![TokenShape::Literal(lit)]),
    ]
}

/// `r` is a diagnostic showing `message`: `compile_error! { "message" }`, the
/// message written as a string literal.
pub open spec fn is_diagnostic(r: Seq<TokenTree>, message: Seq<char>) -> bool {
    &&& r.len() == 3
    &&& r[2] is Group
    &&& r[2]->Group_0.stream@.len() == 1
    &&& r[2]->Group_0.stream@[0] is Literal
    &&& quotes(message, r[2]->Group_0.stream@[0]->Literal_0.text@)
    &&& shaped(r, diagnostic_shapes(r[2]->Group_0.stream@[0]->Literal_0.text@))
}

impl Error {
    /// An error raised by the caller, with no location.
    pub fn custom(s: &str) -> (r: Error)
        ensures
            r == (Error::Custom { error: r->error, span: None }),
            r->error@ == s@,
    {
        Error::Custom { error: s.to_string(), span: None }
    }

    /// An error raised by the caller at `span`.
    pub fn custom_at(s: &str, span: Span) -> (r: Error)
        ensures
            r == (Error::Custom { error: r->error, span: Some(span) }),
            r->error@ == s@,
    {
        Error::Custom { error: s.to_string(), span: Some(span) }
    }

    /// An error raised by the caller at the location of `token`.
    pub fn custom_at_token(s: &str, token: TokenTree) -> (r: Error)
        ensures
            r == (Error::Custom { error: r->error, span: Some(span_of(token)) }),
            r->error@ == s@,
    {
        Error::Custom { error: s.to_string(), span: Some(token.span()) }
    }

    /// An error raised by the caller at the location of `token`, if there is one.
    pub fn custom_at_opt_token(s: &str, token: Option<TokenTree>) -> (r: Error)
        ensures
            r is Custom,
            r->error@ == s@,
            r->Custom_span == match token {
                Some(t) => Some(span_of(t)),
                None => None::<Span>,
            },
    {
        let span = match token {
            Some(t) => Some(t.span()),
            None => None,
        };
        Error::Custom { error: s.to_string(), span }
    }

    /// The structure found at `token` (or at the end of the input) is not what was expected.
    pub fn wrong_token(token: Option<&TokenTree>, expected: &str) -> (r: Error)
        ensures
            r is InvalidRustSyntax,
            r->InvalidRustSyntax_expected@ == expected@,
            token is Some ==> r->InvalidRustSyntax_span == span_of(*token->0),
    {
        let span = match token {
            Some(t) => t.span(),
            None => Span::call_site(),
        };
        Error::InvalidRustSyntax { span, expected: expected.to_string() }
    }

    /// Whether this is an [`Error::UnknownDataType`].
    pub fn is_unknown_data_type(&self) -> (r: bool)
        ensures
            r == (*self is UnknownDataType),
    {
        match self {
            Error::UnknownDataType(_) => true,
            _ => false,
        }
    }

    /// Whether this is an [`Error::InvalidRustSyntax`].
    pub fn is_invalid_rust_syntax(&self) -> (r: bool)
        ensures
            r == (*self is InvalidRustSyntax),
    {
        match self {
            Error::InvalidRustSyntax { .. } => true,
            _ => false,
        }
    }

    /// The message that a diagnostic for this error shows.
    pub fn message(&self) -> (r: String)
        ensures
            r@ == message_of(*self),
    {
        match self {
            Error::UnknownDataType(_) => "Unknown data type, only enum and struct are supported".to_string(),
            Error::InvalidRustSyntax { expected, .. } => {
                "Invalid rust syntax, expected ".to_string().concat(expected.as_str())
            },
            Error::ExpectedIdent(_) => "Expected ident".to_string(),
            Error::PushParse(p) => {
                "Invalid code passed to `StreamBuilder::push_parsed`: ".to_string().concat(p.code.as_str())
            },
            Error::Custom { error, .. } => error.clone(),
        }
    }

    /// The location this error points at, if it has one. Text that failed to tokenize
    /// has none: its location would be in the caller's own code.
    pub fn span(&self) -> (r: Option<Span>)
        ensures
            r == error_span(*self),
    {
        match self {
            Error::UnknownDataType(s) => Some(*s),
            Error::ExpectedIdent(s) => Some(*s),
            Error::InvalidRustSyntax { span, .. } => Some(*span),
            Error::Custom { span, .. } => *span,
            Error::PushParse(_) => None,
        }
    }

    /// The tokens of a diagnostic for this error, at its own location or, lacking
    /// one, at the invocation's.
    pub fn into_token_stream(self) -> (r: Vec<TokenTree>)
        ensures
            is_diagnostic(r@, message_of(self)),
            error_span(self) is Some ==> forall|i: int| 0 <= i < r@.len() ==> #[trigger] span_of(r@[i]) == error_span(self)->0,
    {
        let span = match self.span() {
            Some(s) => s,
            None => Span::call_site(),
        };
        self.throw_with_span(span)
    }

    /// The tokens of a diagnostic for this error, every one of them at `span`.
    pub fn throw_with_span(self, span: Span) -> (r: Vec<TokenTree>)
        ensures
            is_diagnostic(r@, message_of(self)),
            forall|i: int| 0 <= i < r@.len() ==> #[trigger] span_of(r@[i]) == span,
    {
        let message = self.message();
        let mut builder = StreamBuilder::new();
        let ghost s0 = builder.stream@;
        builder.ident_str("compile_error");
        let ghost s1 = builder.stream@;
        builder.punct('!');
        let ghost s2 = builder.stream@;
        let mut inner = StreamBuilder::new();
        inner.lit_str(message.as_str());
        let ghost inner_tokens = inner.stream@;
        builder.group_of(Delim::Brace, inner);
        let ghost text = inner_tokens[0]->Literal_0.text@;
        proof {
            let lit = seq![TokenShape::Literal(text)];
            assert(inner_tokens.subrange(0, 1) == inner_tokens);
            assert(shape(inner_tokens[0]) == lit[0]);
            assert(shapes_upto(inner_tokens, 0) == Seq::<TokenShape>::empty());
            assert(shapes_upto(inner_tokens, 1) == lit);
            let s3 = builder.stream@;
            lemma_extended_trans(s0, s1, s2, seq![ident_shape("compile_error"@)], seq![punct_shape('!')]);
            lemma_extended_trans(s0, s2, s3, seq![ident_shape("compile_error"@)] + seq![punct_shape('!')],
                seq![group_shape(Delim::Brace, lit)]);
            assert(seq![ident_shape("compile_error"@)] + seq![punct_shape('!')] + seq![group_shape(Delim::Brace, lit)]
                == diagnostic_shapes(text));
            assert(s3.subrange(0, s3.len() as int) == s3);
        }
        let ghost s3 = builder.stream@;
        assert(quotes(message_of(self), text));
        builder.set_span_on_all_tokens(span);
        proof {
            let g = builder.stream@[2];
            assert(shape(g) == group_shape(Delim::Brace, seq![TokenShape::Literal(text)]));
            assert(g is Group);
            assert(shape(builder.stream@[2]) == shape(s3[2]));
            assert(s3[2]->Group_0.stream@ == inner_tokens);
            assert(shapes_upto(builder.stream@[2]->Group_0.stream@, builder.stream@[2]->Group_0.stream@.len() as nat)
                == seq![TokenShape::Literal(text)]);
            crate::token::lemma_shapes_upto(builder.stream@[2]->Group_0.stream@, builder.stream@[2]->Group_0.stream@.len() as nat);
            assert(builder.stream@[2]->Group_0.stream@.subrange(0, 1) =~= builder.stream@[2]->Group_0.stream@);
            assert(shape(g->Group_0.stream@[0]) == TokenShape::Literal(text));
            assert(g->Group_0.stream@[0] is Literal);
            assert(shaped(builder.stream@, diagnostic_shapes(text)));
        }
        builder.stream
    }
}

} // verus!
