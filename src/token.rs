//! Tokens as plain values: identifiers, punctuation, literals and delimited
//! groups, each carrying the source location handle it was read from.
use proc_macro2::{LexError, Span};
use std::str::FromStr;
use vstd::prelude::*;

verus! {

/// A source location handle. Opaque: it is carried through, never inspected.
#[verifier::external_type_specification]
#[verifier::external_body]
pub struct ExSpan(proc_macro2::Span);

/// The error that the lexer reports for text that is not a token sequence.
#[verifier::external_type_specification]
#[verifier::external_body]
pub struct ExLexError(proc_macro2::LexError);

/// The lexer's token sequence, handed straight to the conversion below.
#[verifier::external_type_specification]
#[verifier::external_body]
pub struct ExTokenStream(proc_macro2::TokenStream);

/// The lexer's bracket kind, converted at once into [`Delim`].
#[verifier::external_type_specification]
#[verifier::external_body]
pub struct ExLexDelimiter(proc_macro2::Delimiter);

/// The lexer's spacing, converted at once into [`PunctSpacing`].
#[verifier::external_type_specification]
#[verifier::external_body]
pub struct ExLexSpacing(proc_macro2::Spacing);

/// Relies on `Span` being `Copy`: its clone is the same handle.
pub assume_specification[ <proc_macro2::Span as Clone>::clone ](s: &proc_macro2::Span) -> (r: proc_macro2::Span)
    ensures
        r == *s,
;

/// Relies on `proc_macro2::Span::call_site`: the location of the macro invocation.
pub assume_specification[ proc_macro2::Span::call_site ]() -> proc_macro2::Span;

/// The bracket kind of a group.
#[derive(Clone, Copy, Debug, PartialEq, Eq, Structural)]
pub enum Delim {
    Parenthesis,
    Brace,
    Bracket,
    Invisible,
}

/// Whether a punctuation character is glued to the punctuation that follows it.
#[derive(Clone, Copy, Debug, PartialEq, Eq, Structural)]
pub enum PunctSpacing {
    Alone,
    Joint,
}

#[derive(Clone, Debug)]
pub struct Ident {
    pub text: String,
    pub span: Span,
}

#[derive(Clone, Debug)]
pub struct Punct {
    pub ch: char,
    pub spacing: PunctSpacing,
    pub span: Span,
}

#[derive(Clone, Debug)]
pub struct Literal {
    pub text: String,
    pub span: Span,
}

#[derive(Debug)]
pub struct Group {
    pub delimiter: Delim,
    pub stream: Vec<TokenTree>,
    pub span: Span,
}

#[derive(Debug)]
pub enum TokenTree {
    Group(Group),
    Ident(Ident),
    Punct(Punct),
    Literal(Literal),
}

/// A token with its location handles left out: what the token says.
pub enum TokenShape {
    Group(Delim, Seq<TokenShape>),
    Ident(Seq<char>),
    Punct(char, PunctSpacing),
    Literal(Seq<char>),
}

pub open spec fn shape(t: TokenTree) -> TokenShape
    decreases t,
{
    match t {
        TokenTree::Group(g) => TokenShape::Group(
            g.delimiter,
            shapes_upto(g.stream@, g.stream@.len() as nat),
        ),
        TokenTree::Ident(i) => TokenShape::Ident(i.text@),
        TokenTree::Punct(p) => TokenShape::Punct(p.ch, p.spacing),
        TokenTree::Literal(l) => TokenShape::Literal(l.text@),
    }
}

/// The shapes of the first `n` tokens of `ts`.
pub open spec fn shapes_upto(ts: Seq<TokenTree>, n: nat) -> Seq<TokenShape>
    decreases ts, n,
{
    if n == 0 || n > ts.len() {
        Seq::empty()
    } else {
        shapes_upto(ts, (n - 1) as nat).push(shape(ts[n - 1]))
    }
}

/// What the tokens of `ts` say, in order.
pub open spec fn shapes_of(ts: Seq<TokenTree>) -> Seq<TokenShape> {
    shapes_upto(ts, ts.len())
}

pub proof fn lemma_shapes_prefix(ts: Seq<TokenTree>, us: Seq<TokenTree>, n: nat)
    requires
        n <= ts.len(),
        ts.subrange(0, n as int) == us.subrange(0, n as int),
        n <= us.len(),
    ensures
        shapes_upto(ts, n) == shapes_upto(us, n),
    decreases n,
{
    if n > 0 {
        assert(ts.subrange(0, n - 1) =~= ts.subrange(0, n as int).subrange(0, n - 1));
        assert(us.subrange(0, n - 1) =~= us.subrange(0, n as int).subrange(0, n - 1));
        lemma_shapes_prefix(ts, us, (n - 1) as nat);
        assert(ts[n - 1] == ts.subrange(0, n as int)[n - 1]);
        assert(us[n - 1] == us.subrange(0, n as int)[n - 1]);
    }
}

pub proof fn lemma_shapes_concat(a: Seq<TokenTree>, b: Seq<TokenTree>)
    ensures
        shapes_of(a + b) == shapes_of(a) + shapes_of(b),
    decreases b.len(),
{
    if b.len() == 0 {
        assert(a + b =~= a);
        assert(shapes_of(a) + shapes_of(b) =~= shapes_of(a));
    } else {
        let b0 = b.drop_last();
        lemma_shapes_concat(a, b0);
        assert((a + b).drop_last() =~= a + b0);
        assert(b0.subrange(0, b0.len() as int) =~= b.subrange(0, b0.len() as int));
        assert((a + b0).subrange(0, (a + b0).len() as int) =~= (a + b).subrange(0, (a + b0).len() as int));
        lemma_shapes_prefix(a + b, a + b0, (a + b0).len());
        lemma_shapes_prefix(b, b0, b0.len());
        assert((a + b)[(a + b).len() - 1] == b[b.len() - 1]);
        assert(shapes_of(a) + shapes_of(b) =~= shapes_of(a) + shapes_of(b0) + seq![shape(b.last())]);
    }
}

pub proof fn lemma_shapes_one(t: TokenTree)
    ensures
        shapes_of(seq![t]) == seq![shape(t)],
{
    assert(shapes_upto(seq![t], 0) == Seq::<TokenShape>::empty());
}

/// `ts` says, token by token, what `shp` says.
pub open spec fn shaped(ts: Seq<TokenTree>, shp: Seq<TokenShape>) -> bool {
    &&& ts.len() == shp.len()
    &&& forall|i: int| 0 <= i < ts.len() ==> #[trigger] shape(ts[i]) == shp[i]
}

pub proof fn lemma_shapes_upto(ts: Seq<TokenTree>, n: nat)
    requires
        n <= ts.len(),
    ensures
        shaped(ts.subrange(0, n as int), shapes_upto(ts, n)),
    decreases n,
{
    if n > 0 {
        lemma_shapes_upto(ts, (n - 1) as nat);
        assert(ts.subrange(0, n as int).subrange(0, n - 1) == ts.subrange(0, n - 1));
    }
}

/// `a` copies `b` token by token: same shapes, same top-level spans.
pub open spec fn copies(a: Seq<TokenTree>, b: Seq<TokenTree>) -> bool {
    &&& a.len() == b.len()
    &&& forall|i: int| 0 <= i < a.len() ==> #[trigger] shape(a[i]) == shape(b[i]) && span_of(a[i]) == span_of(b[i])
}

pub proof fn lemma_shapes_upto_same(a: Seq<TokenTree>, b: Seq<TokenTree>, n: nat)
    requires
        a.len() == b.len(),
        n <= a.len(),
        forall|i: int| 0 <= i < a.len() ==> #[trigger] shape(a[i]) == shape(b[i]),
    ensures
        shapes_upto(a, n) == shapes_upto(b, n),
    decreases n,
{
    if n > 0 {
        lemma_shapes_upto_same(a, b, (n - 1) as nat);
        assert(shape(a[n - 1]) == shape(b[n - 1]));
    }
}

pub open spec fn group_shape(d: Delim, inner: Seq<TokenShape>) -> TokenShape {
    TokenShape::Group(d, inner)
}

pub open spec fn ident_shape(s: Seq<char>) -> TokenShape {
    TokenShape::Ident(s)
}

pub open spec fn punct_shape(c: char) -> TokenShape {
    TokenShape::Punct(c, PunctSpacing::Alone)
}

/// The opening and closing characters of a delimiter; none for an invisible group.
pub open spec fn delim_chars(d: Delim) -> (Seq<char>, Seq<char>) {
    match d {
        Delim::Parenthesis => (seq!['('], seq![')']),
        Delim::Brace => (seq!['{'], seq!['}']),
        Delim::Bracket => (seq!['['], seq![']']),
        Delim::Invisible => (Seq::empty(), Seq::empty()),
    }
}

/// A token as text: an identifier or literal as written, a punctuation as its
/// character, a group as its delimiters around the texts of its tokens.
pub open spec fn token_text_spec(t: TokenTree) -> Seq<char>
    decreases t,
{
    match t {
        TokenTree::Group(g) => delim_chars(g.delimiter).0 + texts_upto(g.stream@, g.stream@.len() as nat)
            + delim_chars(g.delimiter).1,
        TokenTree::Ident(i) => i.text@,
        TokenTree::Punct(p) => seq![p.ch],
        TokenTree::Literal(l) => l.text@,
    }
}

/// The texts of the first `n` tokens of `ts`, one after another.
pub open spec fn texts_upto(ts: Seq<TokenTree>, n: nat) -> Seq<char>
    decreases ts, n,
{
    if n == 0 || n > ts.len() {
        Seq::empty()
    } else {
        texts_upto(ts, (n - 1) as nat) + token_text_spec(ts[n - 1])
    }
}

fn delim_text(d: Delim) -> (r: (String, String))
    ensures
        r.0@ == delim_chars(d).0,
        r.1@ == delim_chars(d).1,
{
    proof {
        reveal_strlit("(");
        reveal_strlit(")");
        reveal_strlit("{");
        reveal_strlit("}");
        reveal_strlit("[");
        reveal_strlit("]");
    }
    match d {
        Delim::Parenthesis => ("(".to_string(), ")".to_string()),
        Delim::Brace => ("{".to_string(), "}".to_string()),
        Delim::Bracket => ("[".to_string(), "]".to_string()),
        Delim::Invisible => (String::new(), String::new()),
    }
}

/// The span carried by a token.
pub open spec fn span_of(t: TokenTree) -> Span {
    match t {
        TokenTree::Group(g) => g.span,
        TokenTree::Ident(i) => i.span,
        TokenTree::Punct(p) => p.span,
        TokenTree::Literal(l) => l.span,
    }
}

/// `shp` is what one of the lexers that proc-macro2 may use makes of `code`: the
/// compiler's inside a procedural macro, its own elsewhere. Which one is used is
/// process state that can change between two calls, so the same text may give
/// different tokens at different times; nothing here says they agree.
pub uninterp spec fn lexes(code: Seq<char>, shp: Seq<TokenShape>) -> bool;

/// `text` is how one of the implementations that proc-macro2 may use writes `s`
/// as a string literal, quotes and escapes included.
pub uninterp spec fn quotes(s: Seq<char>, text: Seq<char>) -> bool;

pub open spec fn digit_char(d: nat) -> char {
    if d == 0 { '0' } else if d == 1 { '1' } else if d == 2 { '2' } else if d == 3 { '3' }
    else if d == 4 { '4' } else if d == 5 { '5' } else if d == 6 { '6' } else if d == 7 { '7' }
    else if d == 8 { '8' } else { '9' }
}

/// The decimal digits of `n`, most significant first.
pub open spec fn decimal(n: nat) -> Seq<char>
    decreases n,
{
    if n < 10 {
        seq![digit_char(n)]
    } else {
        decimal(n / 10).push(digit_char(n % 10))
    }
}

/// The decimal text of a signed value.
pub open spec fn signed_decimal(n: int) -> Seq<char> {
    if n < 0 {
        seq!['-'] + decimal((-n) as nat)
    } else {
        decimal(n as nat)
    }
}

/// Whether every character of `s` is an ASCII digit.
pub open spec fn all_digits(s: Seq<char>) -> bool {
    forall|i: int| 0 <= i < s.len() ==> '0' <= #[trigger] s[i] <= '9'
}

/// The value of a string of decimal digits.
pub open spec fn digits_value(s: Seq<char>) -> int
    decreases s.len(),
{
    if s.len() == 0 {
        0
    } else {
        digits_value(s.drop_last()) * 10 + (s.last() as int - '0' as int)
    }
}

/// What `str::parse::<i64>` makes of `s`: an optional sign, then one or more ASCII
/// digits, whose value fits in an `i64`.
pub open spec fn parsed_i64(s: Seq<char>) -> Option<int> {
    let (neg, digits) = if s.len() > 0 && (s[0] == '-' || s[0] == '+') {
        (s[0] == '-', s.subrange(1, s.len() as int))
    } else {
        (false, s)
    };
    let v = if neg { -digits_value(digits) } else { digits_value(digits) };
    if digits.len() > 0 && all_digits(digits) && i64::MIN <= v <= i64::MAX {
        Some(v)
    } else {
        None
    }
}

proof fn lemma_digits_value_grows(t: Seq<char>, j: int)
    requires
        0 <= j <= t.len(),
        all_digits(t),
    ensures
        digits_value(t) >= digits_value(t.subrange(0, j)),
        digits_value(t.subrange(0, j)) >= 0,
    decreases t.len(),
{
    if t.len() > 0 {
        let front = t.drop_last();
        assert forall|i: int| 0 <= i < front.len() implies '0' <= #[trigger] front[i] <= '9' by {
            assert(front[i] == t[i]);
        }
        if j == t.len() {
            assert(t.subrange(0, j) =~= t);
            lemma_digits_value_grows(front, front.len() as int);
            assert(front.subrange(0, front.len() as int) =~= front);
        } else {
            lemma_digits_value_grows(front, j);
            assert(front.subrange(0, j) =~= t.subrange(0, j));
        }
        assert('0' <= t.last() <= '9');
    } else {
        assert(t.subrange(0, j) =~= t);
    }
}

/// What `str::parse::<i64>` makes of `s`, computed digit by digit.
pub(crate) fn parse_i64(s: &str) -> (r: Option<i64>)
    ensures
        match parsed_i64(s@) {
            Some(v) => r == Some(v as i64),
            None => r is None,
        },
{
    let n = s.unicode_len();
    if n == 0 {
        return None;
    }
    let c0 = s.get_char(0);
    let signed = c0 == '-' || c0 == '+';
    let neg = c0 == '-';
    let start: usize = if signed { 1 } else { 0 };
    let ghost digits = if signed { s@.subrange(1, s@.len() as int) } else { s@ };
    assert(digits =~= s@.subrange(start as int, n as int));
    if start == n {
        return None;
    }
    let bound: u128 = 9223372036854775808;
    let mut acc: u128 = 0;
    let mut i: usize = start;
    assert(s@.subrange(start as int, start as int) =~= Seq::<char>::empty());
    while i < n
        invariant
            n == s@.len(),
            start <= i <= n,
            digits == s@.subrange(start as int, n as int),
            acc as int == digits_value(s@.subrange(start as int, i as int)),
            all_digits(s@.subrange(start as int, i as int)),
            acc <= bound,
            bound == 9223372036854775808,
            c0 == s@[0],
            signed == (c0 == '-' || c0 == '+'),
            neg == (c0 == '-'),
            start == (if signed { 1usize } else { 0usize }),
            digits == (if signed { s@.subrange(1, s@.len() as int) } else { s@ }),
        decreases n - i,
    {
        let c = s.get_char(i);
        let prefix = Ghost(s@.subrange(start as int, i as int + 1));
        assert(prefix@.drop_last() =~= s@.subrange(start as int, i as int));
        assert(prefix@.last() == c);
        if !('0' <= c && c <= '9') {
            assert(digits[i - start] == c);
            assert(!all_digits(digits));
            return None;
        }
        let d = (c as u32 - '0' as u32) as u128;
        assert(all_digits(prefix@)) by {
            assert forall|j: int| 0 <= j < prefix@.len() implies '0' <= #[trigger] prefix@[j] <= '9' by {
                if j < prefix@.len() - 1 {
                    assert(prefix@[j] == s@.subrange(start as int, i as int)[j]);
                }
            }
        }
        acc = acc * 10 + d;
        assert(acc as int == digits_value(prefix@));
        if acc > bound {
            proof {
                if all_digits(digits) {
                    lemma_digits_value_grows(digits, i - start + 1);
                    assert(digits.subrange(0, i - start + 1) =~= prefix@);
                }
            }
            return None;
        }
        i += 1;
    }
    assert(s@.subrange(start as int, n as int) == digits);
    if neg {
        if acc == bound {
            Some(i64::MIN)
        } else {
            Some(-(acc as i64))
        }
    } else if acc > 9223372036854775807 {
        None
    } else {
        Some(acc as i64)
    }
}

/// Relies on `proc_macro2::TokenStream::from_str`: where it accepts the text, the
/// tokens are what the lexer in use made of it. Whether it accepts is not stated:
/// that too depends on the lexer in use.
#[verifier::external_body]
pub(crate) fn lex(code: &str) -> (r: Result<Vec<TokenTree>, LexError>)
    ensures
        r is Ok ==> lexes(code@, shapes_upto(r->Ok_0@, r->Ok_0@.len() as nat)),
{
    match proc_macro2::TokenStream::from_str(code) {
        Ok(stream) => Ok(import_stream(stream)),
        Err(e) => Err(e),
    }
}

/// Converts the lexer's token trees one for one into this crate's tokens.
#[verifier::external_body]
fn import_stream(stream: proc_macro2::TokenStream) -> Vec<TokenTree> {
    let mut out = Vec::new();
    for tree in stream {
        out.push(match tree {
            proc_macro2::TokenTree::Group(g) => TokenTree::Group(Group { delimiter: import_delimiter(g.delimiter()), stream: import_stream(g.stream()), span: g.span() }),
            proc_macro2::TokenTree::Ident(i) => TokenTree::Ident(Ident { text: i.to_string(), span: i.span() }),
            proc_macro2::TokenTree::Punct(p) => TokenTree::Punct(Punct { ch: p.as_char(), spacing: import_spacing(p.spacing()), span: p.span() }),
            proc_macro2::TokenTree::Literal(l) => TokenTree::Literal(Literal { text: l.to_string(), span: l.span() }),
        });
    }
    out
}

/// Converts the lexer's delimiter kind into this crate's, variant for variant.
#[verifier::external_body]
fn import_delimiter(d: proc_macro2::Delimiter) -> Delim {
    match d {
        proc_macro2::Delimiter::Parenthesis => Delim::Parenthesis,
        proc_macro2::Delimiter::Brace => Delim::Brace,
        proc_macro2::Delimiter::Bracket => Delim::Bracket,
        proc_macro2::Delimiter::None => Delim::Invisible,
    }
}

/// Converts the lexer's spacing into this crate's, variant for variant.
#[verifier::external_body]
fn import_spacing(s: proc_macro2::Spacing) -> PunctSpacing {
    match s {
        proc_macro2::Spacing::Alone => PunctSpacing::Alone,
        proc_macro2::Spacing::Joint => PunctSpacing::Joint,
    }
}

/// Relies on `proc_macro2::Literal::string` and its `Display`: the text of a string
/// literal of `s` as the implementation in use writes it.
#[verifier::external_body]
pub(crate) fn string_literal(s: &str) -> (r: String)
    ensures
        quotes(s@, r@),
{
    proc_macro2::Literal::string(s).to_string()
}

/// Relies on `proc_macro2::Literal::usize_unsuffixed` and its `Display`: the decimal digits.
#[verifier::external_body]
pub(crate) fn usize_literal(n: usize) -> (r: String)
    ensures
        r@ == decimal(n as nat),
{
    proc_macro2::Literal::usize_unsuffixed(n).to_string()
}

/// Relies on `proc_macro2::Literal::i64_unsuffixed` and its `Display`: the signed decimal digits.
#[verifier::external_body]
pub(crate) fn i64_literal(n: i64) -> (r: String)
    ensures
        r@ == signed_decimal(n as int),
{
    proc_macro2::Literal::i64_unsuffixed(n).to_string()
}

/// Relies on `String::push`: the string holds just `c`.
#[verifier::external_body]
fn char_text(c: char) -> (r: String)
    ensures
        r@ == seq![c],
{
    let mut s = String::new();
    s.push(c);
    s
}

impl Ident {
    /// An identifier with the given text at the given location.
    pub fn new(text: &str, span: Span) -> (r: Ident)
        ensures
            r.text@ == text@,
            r.span == span,
    {
        Ident { text: text.to_string(), span }
    }

    /// A copy of this identifier.
    pub fn duplicate(&self) -> (r: Ident)
        ensures
            r == *self,
    {
        Ident { text: self.text.clone(), span: self.span }
    }

    /// Whether the text of this identifier is `s`.
    pub fn is(&self, s: &str) -> (r: bool)
        ensures
            r == (self.text@ == s@),
    {
        let t = s.to_string();
        self.text == t
    }
}

impl Literal {
    /// A copy of this literal.
    pub fn duplicate(&self) -> (r: Literal)
        ensures
            r == *self,
    {
        Literal { text: self.text.clone(), span: self.span }
    }
}

impl TokenTree {
    /// The location of this token.
    pub fn span(&self) -> (r: Span)
        ensures
            r == span_of(*self),
    {
        match self {
            TokenTree::Group(g) => g.span,
            TokenTree::Ident(i) => i.span,
            TokenTree::Punct(p) => p.span,
            TokenTree::Literal(l) => l.span,
        }
    }

    /// Move this token to `span`. For a group only the group itself moves.
    pub fn set_span(&mut self, span: Span)
        ensures
            span_of(*final(self)) == span,
            shape(*final(self)) == shape(*old(self)),
    {
        match self {
            TokenTree::Group(g) => g.span = span,
            TokenTree::Ident(i) => i.span = span,
            TokenTree::Punct(p) => p.span = span,
            TokenTree::Literal(l) => l.span = span,
        }
    }

    /// A deep copy of this token.
    pub fn duplicate(&self) -> (r: TokenTree)
        ensures
            shape(r) == shape(*self),
            span_of(r) == span_of(*self),
        decreases self,
    {
        match self {
            TokenTree::Group(g) => {
                let stream = duplicate_tokens(&g.stream);
                proof {
                    lemma_shapes_upto_same(stream@, g.stream@, stream@.len() as nat);
                }
                TokenTree::Group(Group { delimiter: g.delimiter, stream, span: g.span })
            },
            TokenTree::Ident(i) => TokenTree::Ident(i.duplicate()),
            TokenTree::Punct(p) => TokenTree::Punct(Punct { ch: p.ch, spacing: p.spacing, span: p.span }),
            TokenTree::Literal(l) => TokenTree::Literal(Literal { text: l.text.clone(), span: l.span }),
        }
    }

    /// This token as text; see [`token_text_spec`].
    pub fn text(&self) -> (r: String)
        ensures
            r@ == token_text_spec(*self),
        decreases self,
    {
        match self {
            TokenTree::Group(g) => {
                let (open, close) = delim_text(g.delimiter);
                let inner = tokens_text(&g.stream);
                open.concat(inner.as_str()).concat(close.as_str())
            },
            TokenTree::Ident(i) => i.text.clone(),
            TokenTree::Punct(p) => char_text(p.ch),
            TokenTree::Literal(l) => l.text.clone(),
        }
    }

    /// Whether this token is the punctuation `c`.
    pub fn is_punct(&self, c: char) -> (r: bool)
        ensures
            r == (*self is Punct && self->Punct_0.ch == c),
    {
        match self {
            TokenTree::Punct(p) => p.ch == c,
            _ => false,
        }
    }
}

/// The texts of a token sequence, one after another; see [`token_text_spec`].
pub fn tokens_text(v: &Vec<TokenTree>) -> (r: String)
    ensures
        r@ == texts_upto(v@, v@.len() as nat),
    decreases v,
{
    let mut out = String::new();
    let mut i: usize = 0;
    while i < v.len()
        invariant
            i <= v@.len(),
            out@ == texts_upto(v@, i as nat),
        decreases v@.len() - i,
    {
        assert(decreases_to!(v => v@[i as int]));
        let piece = v[i].text();
        out = out.concat(piece.as_str());
        i += 1;
    }
    out
}

/// A deep copy of a token sequence.
pub fn duplicate_tokens(v: &Vec<TokenTree>) -> (r: Vec<TokenTree>)
    ensures
        copies(r@, v@),
    decreases v,
{
    let mut out: Vec<TokenTree> = Vec::new();
    let mut i: usize = 0;
    while i < v.len()
        invariant
            i <= v@.len(),
            copies(out@, v@.subrange(0, i as int)),
        decreases v@.len() - i,
    {
        assert(decreases_to!(v => v@[i as int]));
        let t = v[i].duplicate();
        out.push(t);
        i += 1;
    }
    assert(v@.subrange(0, v@.len() as int) == v@);
    out
}

} // verus!
