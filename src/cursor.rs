//! A single-pass cursor over a token sequence, and the bracket-aware scan that
//! copies tokens up to a terminator at bracket depth zero.
use crate::error::Error;
use crate::token::{span_of, Delim, Ident, Punct, TokenTree};
use vstd::prelude::*;

verus! {

/// Where a parse step gave up: the index, in the sequence the step read, of the
/// token it could not accept. An index equal to the sequence's length means the
/// input ended too early.
pub enum Fault {
    /// The structure is not what the grammar allows.
    Syntax(int),
    /// An identifier was required.
    Ident(int),
    /// The declaration keyword is neither `struct` nor `enum`.
    Unknown(int),
    /// A check raised as a custom error failed at the token.
    Custom(int),
}

impl Fault {
    /// The same fault, for a sequence that has `n` more tokens in front.
    pub open spec fn shift(self, n: int) -> Fault {
        match self {
            Fault::Syntax(i) => Fault::Syntax(i + n),
            Fault::Ident(i) => Fault::Ident(i + n),
            Fault::Unknown(i) => Fault::Unknown(i + n),
            Fault::Custom(i) => Fault::Custom(i + n),
        }
    }
}

/// `e` is the error that reports fault `f` of a step that read `ts`.
pub open spec fn reports(e: Error, ts: Seq<TokenTree>, f: Fault) -> bool {
    match f {
        Fault::Syntax(i) => e is InvalidRustSyntax
            && (0 <= i < ts.len() ==> e->InvalidRustSyntax_span == span_of(ts[i])),
        Fault::Ident(i) => e is ExpectedIdent
            && (0 <= i < ts.len() ==> e->ExpectedIdent_0 == span_of(ts[i])),
        Fault::Unknown(i) => e is UnknownDataType
            && (0 <= i < ts.len() && ident_in(ts[i]) is Some ==> e->UnknownDataType_0 == ident_in(ts[i])->0.span),
        Fault::Custom(i) => e is Custom
            && (0 <= i < ts.len() ==> e->Custom_span == Some(span_of(ts[i]))),
    }
}

pub proof fn lemma_reports_shift(e: Error, ts: Seq<TokenTree>, n: int, f: Fault)
    requires
        0 <= n <= ts.len(),
        reports(e, ts.subrange(n, ts.len() as int), f),
        match f {
            Fault::Syntax(i) => i >= 0,
            Fault::Ident(i) => i >= 0,
            Fault::Unknown(i) => i >= 0,
            Fault::Custom(i) => i >= 0,
        },
    ensures
        reports(e, ts, f.shift(n)),
{
    let sub = ts.subrange(n, ts.len() as int);
    match f {
        Fault::Syntax(i) => if 0 <= i + n < ts.len() && 0 <= i { assert(sub[i] == ts[i + n]); },
        Fault::Ident(i) => if 0 <= i + n < ts.len() && 0 <= i { assert(sub[i] == ts[i + n]); },
        Fault::Unknown(i) => if 0 <= i + n < ts.len() && 0 <= i { assert(sub[i] == ts[i + n]); },
        Fault::Custom(i) => if 0 <= i + n < ts.len() && 0 <= i { assert(sub[i] == ts[i + n]); },
    }
}

pub open spec fn is_punct(t: TokenTree, c: char) -> bool {
    t is Punct && t->Punct_0.ch == c
}

pub open spec fn is_ident(t: TokenTree, s: Seq<char>) -> bool {
    t is Ident && t->Ident_0.text@ == s
}

/// The identifier `t` stands for: itself, or the only token of an invisible
/// or other group that holds just one identifier.
pub open spec fn ident_in(t: TokenTree) -> Option<Ident> {
    match t {
        TokenTree::Ident(i) => Some(i),
        TokenTree::Group(g) => if g.stream@.len() == 1 && g.stream@[0] is Ident {
            Some(g.stream@[0]->Ident_0)
        } else {
            None
        },
        _ => None,
    }
}

pub open spec fn is_open(c: char) -> bool {
    c == '<' || c == '(' || c == '[' || c == '{'
}

pub open spec fn is_close(c: char) -> bool {
    c == '>' || c == ')' || c == ']' || c == '}'
}

/// The opening bracket that the closing bracket `c` pairs with.
pub open spec fn opener_of(c: char) -> char {
    if c == '>' { '<' } else if c == ')' { '(' } else if c == ']' { '[' } else { '{' }
}

/// The group delimiter that the opening bracket `c` stands for, if any (`<` has none).
pub open spec fn delim_of(c: char) -> Option<Delim> {
    if c == '(' {
        Some(Delim::Parenthesis)
    } else if c == '[' {
        Some(Delim::Bracket)
    } else if c == '{' {
        Some(Delim::Brace)
    } else {
        None
    }
}

/// A scan for `terms` ends before a group delimited by `d` at depth zero.
pub open spec fn stops_at_group(terms: Seq<char>, d: Delim) -> bool {
    exists|i: int| 0 <= i < terms.len() && delim_of(terms[i]) == Some(d)
}

/// How a bracket-aware scan ends.
pub enum ScanEnd {
    /// It stops before the token at this index, which it does not take.
    Stop(int),
    /// The bracket at this index does not fit.
    Fail(int),
}

/// The bracket-aware scan for `terms`, at index `k` of `ts` with the opening
/// brackets `stack` still unmatched. A `>` right after a copied `-` is an arrow,
/// not a bracket.
pub open spec fn scan_from(ts: Seq<TokenTree>, terms: Seq<char>, k: int, stack: Seq<char>) -> ScanEnd
    decreases ts.len() - k,
{
    if k < 0 || k >= ts.len() {
        ScanEnd::Stop(k)
    } else {
        match ts[k] {
            TokenTree::Punct(p) => {
                if p.ch == '>' && k > 0 && is_punct(ts[k - 1], '-') {
                    scan_from(ts, terms, k + 1, stack)
                } else if is_open(p.ch) {
                    scan_from(ts, terms, k + 1, stack.push(p.ch))
                } else if is_close(p.ch) {
                    if stack.len() == 0 {
                        if terms.contains(p.ch) { ScanEnd::Stop(k) } else { ScanEnd::Fail(k) }
                    } else if stack.last() == opener_of(p.ch) {
                        scan_from(ts, terms, k + 1, stack.drop_last())
                    } else {
                        ScanEnd::Fail(k)
                    }
                } else if terms.contains(p.ch) && stack.len() == 0 {
                    ScanEnd::Stop(k)
                } else {
                    scan_from(ts, terms, k + 1, stack)
                }
            },
            TokenTree::Group(g) => {
                if stack.len() == 0 && stops_at_group(terms, g.delimiter) {
                    ScanEnd::Stop(k)
                } else {
                    scan_from(ts, terms, k + 1, stack)
                }
            },
            _ => scan_from(ts, terms, k + 1, stack),
        }
    }
}

/// The scan for `terms` from the start of `ts`.
pub open spec fn scan(ts: Seq<TokenTree>, terms: Seq<char>) -> ScanEnd {
    scan_from(ts, terms, 0, Seq::empty())
}

pub proof fn lemma_scan_from_bounds(ts: Seq<TokenTree>, terms: Seq<char>, k: int, stack: Seq<char>)
    requires
        0 <= k <= ts.len(),
    ensures
        match scan_from(ts, terms, k, stack) {
            ScanEnd::Stop(n) => k <= n <= ts.len(),
            ScanEnd::Fail(n) => k <= n < ts.len(),
        },
    decreases ts.len() - k,
{
    if k < ts.len() {
        match ts[k] {
            TokenTree::Punct(p) => {
                if p.ch == '>' && k > 0 && is_punct(ts[k - 1], '-') {
                    lemma_scan_from_bounds(ts, terms, k + 1, stack);
                } else if is_open(p.ch) {
                    lemma_scan_from_bounds(ts, terms, k + 1, stack.push(p.ch));
                } else if is_close(p.ch) {
                    if stack.len() != 0 && stack.last() == opener_of(p.ch) {
                        lemma_scan_from_bounds(ts, terms, k + 1, stack.drop_last());
                    }
                } else if !(terms.contains(p.ch) && stack.len() == 0) {
                    lemma_scan_from_bounds(ts, terms, k + 1, stack);
                }
            },
            TokenTree::Group(g) => {
                if !(stack.len() == 0 && stops_at_group(terms, g.delimiter)) {
                    lemma_scan_from_bounds(ts, terms, k + 1, stack);
                }
            },
            _ => lemma_scan_from_bounds(ts, terms, k + 1, stack),
        }
    }
}

/// A peekable, single-pass view over a token sequence.
pub struct TokenCursor {
    /// The tokens not yet taken, last one first.
    rev: Vec<TokenTree>,
}

impl TokenCursor {
    /// The tokens not yet taken, in order.
    pub closed spec fn rest(&self) -> Seq<TokenTree> {
        Seq::new(self.rev@.len(), |i: int| self.rev@[self.rev@.len() - 1 - i])
    }

    /// A cursor at the start of `tokens`.
    pub fn new(tokens: Vec<TokenTree>) -> (r: TokenCursor)
        ensures
            r.rest() == tokens@,
    {
        let mut tokens = tokens;
        let ghost orig = tokens@;
        let mut rev: Vec<TokenTree> = Vec::new();
        while tokens.len() > 0
            invariant
                tokens@ == orig.subrange(0, tokens@.len() as int),
                rev@.len() + tokens@.len() == orig.len(),
                forall|j: int| 0 <= j < rev@.len() ==> #[trigger] rev@[j] == orig[orig.len() - 1 - j],
            decreases tokens@.len(),
        {
            let t = tokens.pop().unwrap();
            rev.push(t);
        }
        let r = TokenCursor { rev };
        assert(r.rest() =~= orig);
        r
    }

    /// Whether every token has been taken.
    pub fn is_empty(&self) -> (r: bool)
        ensures
            r == (self.rest().len() == 0),
    {
        self.rev.len() == 0
    }

    /// The next token, without taking it.
    pub fn peek(&self) -> (r: Option<&TokenTree>)
        ensures
            self.rest().len() == 0 ==> r is None,
            self.rest().len() > 0 ==> r == Some(&self.rest()[0]),
    {
        if self.rev.len() == 0 {
            None
        } else {
            Some(&self.rev[self.rev.len() - 1])
        }
    }

    /// Take the next token.
    pub fn next(&mut self) -> (r: Option<TokenTree>)
        ensures
            old(self).rest().len() == 0 ==> r is None && final(self).rest() == old(self).rest(),
            old(self).rest().len() > 0 ==> r == Some(old(self).rest()[0])
                && final(self).rest() == old(self).rest().subrange(1, old(self).rest().len() as int),
    {
        let r = self.rev.pop();
        proof {
            if old(self).rest().len() > 0 {
                assert(self.rest() =~= old(self).rest().subrange(1, old(self).rest().len() as int));
            }
        }
        r
    }

    /// Take the next token if it is the punctuation `c`.
    pub fn consume_punct_if(&mut self, c: char) -> (r: Option<Punct>)
        ensures
            old(self).rest().len() > 0 && is_punct(old(self).rest()[0], c) ==> r == Some(old(self).rest()[0]->Punct_0)
                && final(self).rest() == old(self).rest().subrange(1, old(self).rest().len() as int),
            !(old(self).rest().len() > 0 && is_punct(old(self).rest()[0], c)) ==> r is None
                && final(self).rest() == old(self).rest(),
    {
        let hit = match self.peek() {
            Some(TokenTree::Punct(p)) => p.ch == c,
            _ => false,
        };
        if hit {
            match self.next() {
                Some(TokenTree::Punct(p)) => Some(p),
                _ => None,
            }
        } else {
            None
        }
    }

    /// Take the next token if it stands for an identifier: an identifier, or a
    /// group that holds just one identifier.
    pub fn consume_ident(&mut self) -> (r: Option<Ident>)
        ensures
            old(self).rest().len() > 0 && ident_in(old(self).rest()[0]) is Some ==>
                r == ident_in(old(self).rest()[0])
                && final(self).rest() == old(self).rest().subrange(1, old(self).rest().len() as int),
            !(old(self).rest().len() > 0 && ident_in(old(self).rest()[0]) is Some) ==> r is None
                && final(self).rest() == old(self).rest(),
    {
        let hit = match self.peek() {
            Some(TokenTree::Ident(_)) => true,
            Some(TokenTree::Group(g)) => g.stream.len() == 1 && match &g.stream[0] {
                TokenTree::Ident(_) => true,
                _ => false,
            },
            _ => false,
        };
        if !hit {
            return None;
        }
        match self.next() {
            Some(TokenTree::Ident(i)) => Some(i),
            Some(TokenTree::Group(g)) => {
                let mut inner = g.stream;
                match inner.pop() {
                    Some(TokenTree::Ident(i)) => Some(i),
                    _ => None,
                }
            },
            _ => None,
        }
    }

    /// Whether the next token is the identifier `s`.
    pub fn peek_is_ident(&self, s: &str) -> (r: bool)
        ensures
            r == (self.rest().len() > 0 && is_ident(self.rest()[0], s@)),
    {
        match self.peek() {
            Some(TokenTree::Ident(i)) => i.is(s),
            _ => false,
        }
    }

    /// Whether the next token is the punctuation `c`.
    pub fn peek_is_punct(&self, c: char) -> (r: bool)
        ensures
            r == (self.rest().len() > 0 && is_punct(self.rest()[0], c)),
    {
        match self.peek() {
            Some(t) => t.is_punct(c),
            None => false,
        }
    }

    /// Take every remaining token.
    pub fn take_rest(self) -> (r: Vec<TokenTree>)
        ensures
            r@ == self.rest(),
    {
        let mut c = self;
        let mut out: Vec<TokenTree> = Vec::new();
        let ghost orig = c.rest();
        while !c.is_empty()
            invariant
                orig == out@ + c.rest(),
            decreases c.rest().len(),
        {
            let ghost before = c.rest();
            let t = c.next().unwrap();
            proof {
                assert(before == seq![t] + c.rest());
            }
            out.push(t);
            assert(orig =~= out@ + c.rest());
        }
        assert(out@ =~= orig);
        out
    }
}

/// The group that `t` is known to hold.
pub fn assume_group(t: Option<TokenTree>) -> (r: crate::token::Group)
    requires
        t is Some && t->0 is Group,
    ensures
        TokenTree::Group(r) == t->0,
{
    match t {
        Some(TokenTree::Group(g)) => g,
        _ => vstd::pervasive::unreached(),
    }
}

/// The identifier that `t` is known to hold.
pub fn assume_ident(t: Option<TokenTree>) -> (r: Ident)
    requires
        t is Some && t->0 is Ident,
    ensures
        TokenTree::Ident(r) == t->0,
{
    match t {
        Some(TokenTree::Ident(i)) => i,
        _ => vstd::pervasive::unreached(),
    }
}

/// The punctuation `punct` that `t` is known to hold.
pub fn assume_punct(t: Option<TokenTree>, punct: char) -> (r: Punct)
    requires
        t is Some && is_punct(t->0, punct),
    ensures
        TokenTree::Punct(r) == t->0,
        r.ch == punct,
{
    match t {
        Some(TokenTree::Punct(p)) => p,
        _ => vstd::pervasive::unreached(),
    }
}

/// Whether the text of `ident` is `text`.
pub fn ident_eq(ident: &Ident, text: &str) -> (r: bool)
    ensures
        r == (ident.text@ == text@),
{
    ident.is(text)
}

/// Whether `c` is one of `cs`.
pub fn contains_char(cs: &[char], c: char) -> (r: bool)
    ensures
        r == cs@.contains(c),
{
    let mut i: usize = 0;
    while i < cs.len()
        invariant
            i <= cs@.len(),
            forall|j: int| 0 <= j < i ==> cs@[j] != c,
        decreases cs@.len() - i,
    {
        if cs[i] == c {
            return true;
        }
        i += 1;
    }
    false
}

fn open_index(c: char) -> (r: Option<Delim>)
    ensures
        r == delim_of(c),
{
    if c == '(' {
        Some(Delim::Parenthesis)
    } else if c == '[' {
        Some(Delim::Bracket)
    } else if c == '{' {
        Some(Delim::Brace)
    } else {
        None
    }
}

/// Whether a scan for `terms` ends before a group delimited by `d`.
fn group_stops(terms: &[char], d: Delim) -> (r: bool)
    ensures
        r == stops_at_group(terms@, d),
{
    let mut i: usize = 0;
    while i < terms.len()
        invariant
            i <= terms@.len(),
            forall|j: int| 0 <= j < i ==> delim_of(terms@[j]) != Some(d),
        decreases terms@.len() - i,
    {
        if open_index(terms[i]) == Some(d) {
            return true;
        }
        i += 1;
    }
    false
}

fn opener(c: char) -> (r: char)
    ensures
        r == opener_of(c),
{
    if c == '>' { '<' } else if c == ')' { '(' } else if c == ']' { '[' } else { '{' }
}

/// Copy tokens up to, not including, the first of `terms` that stands at bracket
/// depth zero, or up to a group at depth zero whose delimiter one of `terms` opens,
/// or to the end. A closing bracket that pairs with nothing, or with the wrong
/// opening bracket, is an error at that bracket.
pub fn read_tokens_until_punct(input: &mut TokenCursor, terms: &[char]) -> (r: Result<Vec<TokenTree>, Error>)
    ensures
        match scan(old(input).rest(), terms@) {
            ScanEnd::Stop(n) => r is Ok && 0 <= n <= old(input).rest().len()
                && r->Ok_0@ == old(input).rest().subrange(0, n)
                && final(input).rest() == old(input).rest().subrange(n, old(input).rest().len() as int),
            ScanEnd::Fail(n) => r is Err && reports(r->Err_0, old(input).rest(), Fault::Syntax(n)),
        },
{
    let ghost ts = input.rest();
    let mut result: Vec<TokenTree> = Vec::new();
    let mut stack: Vec<char> = Vec::new();
    proof { lemma_scan_from_bounds(ts, terms@, 0, Seq::empty()); }
    loop
        invariant
            ts == old(input).rest(),
            ts == result@ + input.rest(),
            scan(ts, terms@) == scan_from(ts, terms@, result@.len() as int, stack@),
        decreases input.rest().len(),
    {
        let k = result.len();
        let ghost st = stack@;
        proof {
            lemma_scan_from_bounds(ts, terms@, k as int, stack@);
            if input.rest().len() > 0 {
                assert(ts[k as int] == input.rest()[0]);
            }
            if k > 0 {
                assert(ts[k - 1] == result@[k - 1]);
            }
        }
        // 0: copy the token, 1: stop before it, 2: the bracket does not fit
        let action: u8 = match input.peek() {
            Some(TokenTree::Punct(p)) => {
                let c = p.ch;
                let arrow = c == '>' && k > 0 && result[k - 1].is_punct('-');
                if arrow {
                    0
                } else if c == '<' || c == '(' || c == '[' || c == '{' {
                    stack.push(c);
                    0
                } else if c == '>' || c == ')' || c == ']' || c == '}' {
                    if stack.len() == 0 {
                        if contains_char(terms, c) { 1 } else { 2 }
                    } else if stack[stack.len() - 1] == opener(c) {
                        stack.pop();
                        0
                    } else {
                        2
                    }
                } else if contains_char(terms, c) && stack.len() == 0 {
                    1
                } else {
                    0
                }
            },
            Some(TokenTree::Group(g)) => {
                if stack.len() == 0 && group_stops(terms, g.delimiter) { 1 } else { 0 }
            },
            Some(_) => 0,
            None => 1,
        };
        if action == 1 {
            assert(scan_from(ts, terms@, k as int, st) == ScanEnd::Stop(k as int));
            assert(input.rest() =~= ts.subrange(k as int, ts.len() as int));
            assert(result@ =~= ts.subrange(0, k as int));
            return Ok(result);
        } else if action == 2 {
            assert(scan_from(ts, terms@, k as int, st) == ScanEnd::Fail(k as int));
            let e = Error::wrong_token(input.peek(), "a matching bracket or a terminator");
            return Err(e);
        }
        assert(scan_from(ts, terms@, k as int, st) == scan_from(ts, terms@, k + 1, stack@));
        let t = input.next().unwrap();
        result.push(t);
        assert(ts =~= result@ + input.rest());
    }
}

} // verus!
