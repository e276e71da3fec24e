//! Generic parameter lists (`<'a, T: Bound, const N: usize>`) and where-clauses:
//! their model, how they are read, and how they are written back.
use crate::attributes::{fault_at_or_after_start, lemma_fault_shift_reports, lemma_took_trans, took};
use crate::cursor::{is_ident, is_punct, lemma_scan_from_bounds, read_tokens_until_punct, reports, scan, Fault, ScanEnd, TokenCursor};
use crate::error::Error;
use crate::stream_builder::{extended, lemma_extended_trans, StreamBuilder};
use crate::token::{copies, duplicate_tokens, ident_shape, lemma_shapes_concat, lexes, punct_shape, shape, shapes_of, Ident, TokenShape, TokenTree};
use vstd::prelude::*;

verus! {

/// A lifetime parameter, e.g. `'a: 'b`.
#[derive(Debug)]
pub struct Lifetime {
    /// The name, without its apostrophe
    pub ident: Ident,
    /// The bounds after the `:`, if any
    pub constraint: Vec<TokenTree>,
}

/// A type parameter, e.g. `T: Display`.
#[derive(Debug)]
pub struct SimpleGeneric {
    /// The name
    pub ident: Ident,
    /// The bounds after the `:`, if any
    pub constraints: Vec<TokenTree>,
}

/// A const parameter, e.g. `const N: usize`.
#[derive(Debug)]
pub struct ConstGeneric {
    /// The `const` keyword
    pub const_token: Ident,
    /// The name
    pub ident: Ident,
    /// The type after the `:`
    pub constraints: Vec<TokenTree>,
}

/// One generic parameter.
#[derive(Debug)]
pub enum Generic {
    Lifetime(Lifetime),
    Generic(SimpleGeneric),
    Const(ConstGeneric),
}

/// A generic parameter as a value: its kind, name and bound tokens.
pub enum GenericView {
    Lifetime(Ident, Seq<TokenTree>),
    Simple(Ident, Seq<TokenTree>),
    Const(Ident, Ident, Seq<TokenTree>),
}

impl View for Generic {
    type V = GenericView;

    open spec fn view(&self) -> GenericView {
        match self {
            Generic::Lifetime(l) => GenericView::Lifetime(l.ident, l.constraint@),
            Generic::Generic(s) => GenericView::Simple(s.ident, s.constraints@),
            Generic::Const(c) => GenericView::Const(c.const_token, c.ident, c.constraints@),
        }
    }
}

impl Generic {
    /// The name of this parameter; for a lifetime, without its apostrophe.
    pub fn ident(&self) -> (r: &Ident)
        ensures
            *r == match *self {
                Generic::Lifetime(l) => l.ident,
                Generic::Generic(s) => s.ident,
                Generic::Const(c) => c.ident,
            },
    {
        match self {
            Generic::Lifetime(l) => &l.ident,
            Generic::Generic(s) => &s.ident,
            Generic::Const(c) => &c.ident,
        }
    }

    /// Whether this is a lifetime parameter.
    pub fn is_lifetime(&self) -> (r: bool)
        ensures
            r == (*self is Lifetime),
    {
        match self {
            Generic::Lifetime(_) => true,
            _ => false,
        }
    }
}

/// The generic parameters of a declaration, in the order written.
#[derive(Debug)]
pub struct Generics(pub Vec<Generic>);

/// The views of a list of generic parameters.
pub open spec fn generic_views(gs: Seq<Generic>) -> Seq<GenericView> {
    Seq::new(gs.len(), |i: int| gs[i]@)
}

/// The bounds after a parameter's name: `: ...` up to a `,` or `>` at depth zero.
pub open spec fn bounds_scan(ts: Seq<TokenTree>) -> Result<(Seq<TokenTree>, int), Fault> {
    if ts.len() > 0 && is_punct(ts[0], ':') {
        let tail = ts.subrange(1, ts.len() as int);
        match scan(tail, seq![',', '>']) {
            ScanEnd::Stop(n) => Ok((tail.subrange(0, n), n + 1)),
            ScanEnd::Fail(i) => Err(Fault::Syntax(i + 1)),
        }
    } else {
        Ok((Seq::empty(), 0))
    }
}

/// One parameter at the front of `ts`, which starts with `'`, `const` or a name.
pub open spec fn generic_item(ts: Seq<TokenTree>) -> Result<(GenericView, int), Fault> {
    if ts.len() > 0 && is_punct(ts[0], '\'') {
        if ts.len() > 1 && ts[1] is Ident {
            match bounds_scan(ts.subrange(2, ts.len() as int)) {
                Ok((b, m)) => Ok((GenericView::Lifetime(ts[1]->Ident_0, b), m + 2)),
                Err(f) => Err(f.shift(2)),
            }
        } else if ts.len() > 1 {
            Err(Fault::Ident(1))
        } else {
            Err(Fault::Ident(0))
        }
    } else if ts.len() > 0 && is_ident(ts[0], "const"@) {
        if ts.len() > 1 && ts[1] is Ident {
            match bounds_scan(ts.subrange(2, ts.len() as int)) {
                Ok((b, m)) => Ok((GenericView::Const(ts[0]->Ident_0, ts[1]->Ident_0, b), m + 2)),
                Err(f) => Err(f.shift(2)),
            }
        } else {
            Err(Fault::Ident(1))
        }
    } else if ts.len() > 0 && ts[0] is Ident {
        match bounds_scan(ts.subrange(1, ts.len() as int)) {
            Ok((b, m)) => Ok((GenericView::Simple(ts[0]->Ident_0, b), m + 1)),
            Err(f) => Err(f.shift(1)),
        }
    } else {
        Err(Fault::Syntax(0))
    }
}

/// The number of tokens a parameter took, with the `,` after it if there is one.
pub open spec fn with_comma(ts: Seq<TokenTree>, m: int) -> int {
    if 0 <= m < ts.len() && is_punct(ts[m], ',') { m + 1 } else { m }
}

/// The parameters after a `<`, up to and including the closing `>`.
#[verifier::opaque]
pub open spec fn generics_list(ts: Seq<TokenTree>) -> Result<(Seq<GenericView>, int), Fault>
    decreases ts.len(),
{
    if ts.len() == 0 {
        Err(Fault::Syntax(0))
    } else if is_punct(ts[0], '>') {
        Ok((Seq::empty(), 1))
    } else if is_punct(ts[0], '\'') || ts[0] is Ident {
        match generic_item(ts) {
            Ok((g, m)) => {
                let m2 = with_comma(ts, m);
                if 1 <= m2 <= ts.len() {
                    match generics_list(ts.subrange(m2, ts.len() as int)) {
                        Ok((l, n)) => Ok((seq![g] + l, m2 + n)),
                        Err(f) => Err(f.shift(m2)),
                    }
                } else {
                    Err(Fault::Syntax(0))
                }
            },
            Err(f) => Err(f),
        }
    } else {
        Err(Fault::Syntax(0))
    }
}

/// The generic parameter list at the front of `ts`, if it starts with `<`.
pub open spec fn generics_scan(ts: Seq<TokenTree>) -> Result<(Option<Seq<GenericView>>, int), Fault> {
    if ts.len() > 0 && is_punct(ts[0], '<') {
        match generics_list(ts.subrange(1, ts.len() as int)) {
            Ok((l, n)) => Ok((Some(l), n + 1)),
            Err(f) => Err(f.shift(1)),
        }
    } else {
        Ok((None, 0))
    }
}

pub proof fn lemma_bounds_scan(ts: Seq<TokenTree>)
    ensures
        match bounds_scan(ts) {
            Ok((b, m)) => 0 <= m <= ts.len() && (m > 0 ==> b == ts.subrange(1, m)) && (m == 0 ==> b.len() == 0),
            Err(f) => fault_at_or_after_start(f),
        },
{
    if ts.len() > 0 && is_punct(ts[0], ':') {
        let tail = ts.subrange(1, ts.len() as int);
        lemma_scan_from_bounds(tail, seq![',', '>'], 0, Seq::empty());
        match scan(tail, seq![',', '>']) {
            ScanEnd::Stop(n) => { assert(tail.subrange(0, n) =~= ts.subrange(1, n + 1)); },
            ScanEnd::Fail(i) => {},
        }
    }
}

pub proof fn lemma_generic_item(ts: Seq<TokenTree>)
    ensures
        match generic_item(ts) {
            Ok((_, m)) => 1 <= m <= ts.len(),
            Err(f) => fault_at_or_after_start(f),
        },
{
    if ts.len() > 1 {
        lemma_bounds_scan(ts.subrange(2, ts.len() as int));
    }
    if ts.len() > 0 {
        lemma_bounds_scan(ts.subrange(1, ts.len() as int));
    }
}

/// One step of [`generics_list`].
pub proof fn lemma_generics_list_unfold(ts: Seq<TokenTree>)
    ensures
        ts.len() == 0 ==> generics_list(ts) == Err::<(Seq<GenericView>, int), Fault>(Fault::Syntax(0)),
        ts.len() > 0 && is_punct(ts[0], '>') ==> generics_list(ts) == Ok::<(Seq<GenericView>, int), Fault>((Seq::empty(), 1)),
        ts.len() > 0 && !is_punct(ts[0], '>') && !(is_punct(ts[0], '\'') || ts[0] is Ident)
            ==> generics_list(ts) == Err::<(Seq<GenericView>, int), Fault>(Fault::Syntax(0)),
        ts.len() > 0 && !is_punct(ts[0], '>') && (is_punct(ts[0], '\'') || ts[0] is Ident) ==> match generic_item(ts) {
            Err(f) => generics_list(ts) == Err::<(Seq<GenericView>, int), Fault>(f),
            Ok((g, m)) => {
                let m2 = with_comma(ts, m);
                match generics_list(ts.subrange(m2, ts.len() as int)) {
                    Ok((l, n)) => generics_list(ts) == Ok::<(Seq<GenericView>, int), Fault>((seq![g] + l, m2 + n)),
                    Err(f) => generics_list(ts) == Err::<(Seq<GenericView>, int), Fault>(f.shift(m2)),
                }
            },
        },
{
    reveal(generics_list);
    lemma_generic_item(ts);
}

pub proof fn lemma_generics_list(ts: Seq<TokenTree>)
    ensures
        match generics_list(ts) {
            Ok((_, n)) => 1 <= n <= ts.len(),
            Err(f) => fault_at_or_after_start(f),
        },
    decreases ts.len(),
{
    reveal(generics_list);
    if ts.len() > 0 && !is_punct(ts[0], '>') && (is_punct(ts[0], '\'') || ts[0] is Ident) {
        lemma_generic_item(ts);
        match generic_item(ts) {
            Ok((g, m)) => {
                let m2 = with_comma(ts, m);
                lemma_generics_list(ts.subrange(m2, ts.len() as int));
            },
            Err(f) => {},
        }
    }
}

/// Read the bounds after a parameter's name, if there is a `:`.
fn take_bounds(input: &mut TokenCursor) -> (r: Result<Vec<TokenTree>, Error>)
    ensures
        match bounds_scan(old(input).rest()) {
            Ok((b, m)) => r is Ok && r->Ok_0@ == b && took(old(input).rest(), final(input).rest(), m),
            Err(f) => r is Err && reports(r->Err_0, old(input).rest(), f),
        },
{
    let ghost ts = input.rest();
    if input.consume_punct_if(':').is_some() {
        let ghost tail = input.rest();
        let r = read_tokens_until_punct(input, &[',', '>']);
        proof {
            lemma_scan_from_bounds(tail, seq![',', '>'], 0, Seq::empty());
            match scan(tail, seq![',', '>']) {
                ScanEnd::Stop(n) => { lemma_took_trans(ts, tail, input.rest(), 1, n); },
                ScanEnd::Fail(i) => { lemma_fault_shift_reports(r->Err_0, ts, tail, 1, Fault::Syntax(i)); },
            }
        }
        r
    } else {
        assert(ts.subrange(0, ts.len() as int) == ts);
        Ok(Vec::new())
    }
}

impl Lifetime {
    /// Read a lifetime parameter; the next token is its `'`.
    pub fn take(input: &mut TokenCursor) -> (r: Result<Lifetime, Error>)
        requires
            old(input).rest().len() > 0 && is_punct(old(input).rest()[0], '\''),
        ensures
            match generic_item(old(input).rest()) {
                Ok((g, m)) => r is Ok && g == GenericView::Lifetime(r->Ok_0.ident, r->Ok_0.constraint@)
                    && took(old(input).rest(), final(input).rest(), m),
                Err(f) => r is Err && reports(r->Err_0, old(input).rest(), f),
            },
    {
        let ghost ts = input.rest();
        let start = input.next().unwrap();
        let ident = match input.peek() {
            Some(TokenTree::Ident(_)) => match input.next() {
                Some(TokenTree::Ident(i)) => i,
                _ => { return Err(Error::ExpectedIdent(start.span())); },
            },
            Some(t) => {
                assert(input.rest()[0] == ts[1]);
                return Err(Error::ExpectedIdent(t.span()));
            },
            None => { return Err(Error::ExpectedIdent(start.span())); },
        };
        let ghost tail = input.rest();
        assert(tail =~= ts.subrange(2, ts.len() as int));
        let constraint = match take_bounds(input) {
            Ok(c) => c,
            Err(e) => {
                proof {
                    lemma_bounds_scan(tail);
                    lemma_fault_shift_reports(e, ts, tail, 2, bounds_scan(tail)->Err_0);
                }
                return Err(e);
            },
        };
        proof { lemma_took_trans(ts, tail, input.rest(), 2, bounds_scan(tail)->Ok_0.1); }
        Ok(Lifetime { ident, constraint })
    }
}

impl SimpleGeneric {
    /// Read a type parameter; the next token is its name.
    pub fn take(input: &mut TokenCursor) -> (r: Result<SimpleGeneric, Error>)
        requires
            old(input).rest().len() > 0 && old(input).rest()[0] is Ident
                && !is_ident(old(input).rest()[0], "const"@),
        ensures
            match generic_item(old(input).rest()) {
                Ok((g, m)) => r is Ok && g == GenericView::Simple(r->Ok_0.ident, r->Ok_0.constraints@)
                    && took(old(input).rest(), final(input).rest(), m),
                Err(f) => r is Err && reports(r->Err_0, old(input).rest(), f),
            },
    {
        let ghost ts = input.rest();
        let ident = match input.next() {
            Some(TokenTree::Ident(i)) => i,
            _ => { return Err(Error::wrong_token(None, "ident")); },
        };
        let ghost tail = input.rest();
        let constraints = match take_bounds(input) {
            Ok(c) => c,
            Err(e) => {
                proof {
                    lemma_bounds_scan(tail);
                    lemma_fault_shift_reports(e, ts, tail, 1, bounds_scan(tail)->Err_0);
                }
                return Err(e);
            },
        };
        proof { lemma_took_trans(ts, tail, input.rest(), 1, bounds_scan(tail)->Ok_0.1); }
        Ok(SimpleGeneric { ident, constraints })
    }

    /// The name of this parameter.
    pub fn name(&self) -> (r: Ident)
        ensures
            r == self.ident,
    {
        self.ident.duplicate()
    }
}

impl ConstGeneric {
    /// Read a const parameter; the next token is `const`. A name that is not an
    /// identifier is an error.
    pub fn take(input: &mut TokenCursor) -> (r: Result<ConstGeneric, Error>)
        requires
            old(input).rest().len() > 0 && is_ident(old(input).rest()[0], "const"@),
        ensures
            match generic_item(old(input).rest()) {
                Ok((g, m)) => r is Ok
                    && g == GenericView::Const(r->Ok_0.const_token, r->Ok_0.ident, r->Ok_0.constraints@)
                    && took(old(input).rest(), final(input).rest(), m),
                Err(f) => r is Err && reports(r->Err_0, old(input).rest(), f),
            },
    {
        let ghost ts = input.rest();
        let const_token = match input.next() {
            Some(TokenTree::Ident(i)) => i,
            _ => { return Err(Error::wrong_token(None, "const")); },
        };
        let ident = match input.peek() {
            Some(TokenTree::Ident(_)) => match input.next() {
                Some(TokenTree::Ident(i)) => i,
                _ => { return Err(Error::ExpectedIdent(const_token.span)); },
            },
            Some(t) => {
                assert(input.rest()[0] == ts[1]);
                return Err(Error::ExpectedIdent(t.span()));
            },
            None => { return Err(Error::ExpectedIdent(const_token.span)); },
        };
        let ghost tail = input.rest();
        assert(tail =~= ts.subrange(2, ts.len() as int));
        let constraints = match take_bounds(input) {
            Ok(c) => c,
            Err(e) => {
                proof {
                    lemma_bounds_scan(tail);
                    lemma_fault_shift_reports(e, ts, tail, 2, bounds_scan(tail)->Err_0);
                }
                return Err(e);
            },
        };
        proof { lemma_took_trans(ts, tail, input.rest(), 2, bounds_scan(tail)->Ok_0.1); }
        Ok(ConstGeneric { const_token, ident, constraints })
    }
}

/// Read one parameter; the next token is `'` or an identifier.
fn take_item(input: &mut TokenCursor) -> (r: Result<Generic, Error>)
    requires
        old(input).rest().len() > 0,
        is_punct(old(input).rest()[0], '\'') || old(input).rest()[0] is Ident,
    ensures
        match generic_item(old(input).rest()) {
            Ok((g, m)) => r is Ok && r->Ok_0@ == g && took(old(input).rest(), final(input).rest(), m),
            Err(f) => r is Err && reports(r->Err_0, old(input).rest(), f),
        },
{
    if input.peek_is_punct('\'') {
        match Lifetime::take(input) {
            Ok(l) => Ok(Generic::Lifetime(l)),
            Err(e) => Err(e),
        }
    } else if input.peek_is_ident("const") {
        match ConstGeneric::take(input) {
            Ok(c) => Ok(Generic::Const(c)),
            Err(e) => Err(e),
        }
    } else {
        match SimpleGeneric::take(input) {
            Ok(s) => Ok(Generic::Generic(s)),
            Err(e) => Err(e),
        }
    }
}

impl Generics {
    /// Read a generic parameter list if the next token is `<`.
    pub fn try_take(input: &mut TokenCursor) -> (r: Result<Option<Generics>, Error>)
        ensures
            match generics_scan(old(input).rest()) {
                Ok((None, m)) => r is Ok && r->Ok_0 is None && took(old(input).rest(), final(input).rest(), m),
                Ok((Some(l), m)) => r is Ok && r->Ok_0 is Some && generic_views((r->Ok_0->0).0@) == l
                    && took(old(input).rest(), final(input).rest(), m),
                Err(f) => r is Err && reports(r->Err_0, old(input).rest(), f),
            },
    {
        let ghost orig = input.rest();
        if input.consume_punct_if('<').is_none() {
            assert(orig.subrange(0, orig.len() as int) == orig);
            return Ok(None);
        }
        let ghost list = input.rest();
        let ghost mut acc: Seq<GenericView> = Seq::empty();
        let ghost mut used: int = 1;
        let mut result: Vec<Generic> = Vec::new();
        proof {
            lemma_generics_list(list);
            assert(list == orig.subrange(1, orig.len() as int));
            match generics_list(list) {
                Ok((l, n)) => { assert(Seq::<GenericView>::empty() + l =~= l); },
                Err(f) => {},
            }
        }
        loop
            invariant
                orig == old(input).rest(),
                took(orig, input.rest(), used),
                used >= 1,
                generic_views(result@) == acc,
                match generics_list(input.rest()) {
                    Ok((l, n)) => generics_scan(orig) == Ok::<(Option<Seq<GenericView>>, int), Fault>((Some(acc + l), used + n)),
                    Err(f) => generics_scan(orig) == Err::<(Option<Seq<GenericView>>, int), Fault>(f.shift(used)),
                },
            decreases input.rest().len(),
        {
            let ghost ts = input.rest();
            proof { lemma_generics_list(ts); lemma_generic_item(ts); lemma_generics_list_unfold(ts); }
            let kind: u8 = match input.peek() {
                Some(TokenTree::Punct(p)) => if p.ch == '\'' { 1 } else if p.ch == '>' { 0 } else { 4 },
                Some(TokenTree::Ident(i)) => if i.is("const") { 2 } else { 3 },
                _ => 4,
            };
            if kind == 0 {
                let _ = input.next();
                proof {
                    lemma_took_trans(orig, ts, input.rest(), used, 1);
                    assert(acc + Seq::<GenericView>::empty() =~= acc);
                }
                return Ok(Some(Generics(result)));
            } else if kind == 4 {
                let e = Error::wrong_token(input.peek(), "', > or an ident");
                proof { lemma_fault_shift_reports(e, orig, ts, used, Fault::Syntax(0)); }
                return Err(e);
            }
            let item = take_item(input);
            let g = match item {
                Ok(g) => g,
                Err(e) => {
                    proof { lemma_fault_shift_reports(e, orig, ts, used, generic_item(ts)->Err_0); }
                    return Err(e);
                },
            };
            let ghost mid = input.rest();
            let ghost m = generic_item(ts)->Ok_0.1;
            let _ = input.consume_punct_if(',');
            proof {
                let m2 = with_comma(ts, m);
                if mid.len() > 0 {
                    assert(mid[0] == ts[m]);
                }
                assert(mid.subrange(0, mid.len() as int) == mid);
                assert(took(mid, input.rest(), m2 - m));
                lemma_took_trans(ts, mid, input.rest(), m, m2 - m);
                lemma_took_trans(orig, ts, input.rest(), used, m2);
                lemma_generics_list(input.rest());
                match generics_list(input.rest()) {
                    Ok((l, n)) => {
                        assert(acc.push(g@) + l =~= acc + (seq![g@] + l));
                    },
                    Err(f) => {
                        assert(f.shift(m2).shift(used) == f.shift(used + m2));
                    },
                }
                acc = acc.push(g@);
                used = used + m2;
            }
            result.push(g);
            assert(generic_views(result@) =~= acc);
        }
    }

    /// Whether any parameter is a lifetime.
    pub fn has_lifetime(&self) -> (r: bool)
        ensures
            r == exists|i: int| 0 <= i < self.0@.len() && #[trigger] self.0@[i] is Lifetime,
    {
        let mut i: usize = 0;
        while i < self.0.len()
            invariant
                i <= self.0@.len(),
                forall|j: int| 0 <= j < i ==> !(#[trigger] self.0@[j] is Lifetime),
            decreases self.0@.len() - i,
        {
            match &self.0[i] {
                Generic::Lifetime(_) => { return true; },
                _ => {},
            }
            i += 1;
        }
        false
    }

    /// The type parameters, in order.
    pub fn iter_generics(&self) -> (r: Vec<&SimpleGeneric>)
        ensures
            r@.len() == simple_generics(self.0@).len(),
            forall|j: int| 0 <= j < r@.len() ==> *r@[j] == #[trigger] simple_generics(self.0@)[j],
    {
        let mut out: Vec<&SimpleGeneric> = Vec::new();
        let mut i: usize = 0;
        while i < self.0.len()
            invariant
                i <= self.0@.len(),
                out@.len() == simple_generics(self.0@.subrange(0, i as int)).len(),
                forall|j: int| 0 <= j < out@.len() ==>
                    *out@[j] == #[trigger] simple_generics(self.0@.subrange(0, i as int))[j],
            decreases self.0@.len() - i,
        {
            assert(self.0@.subrange(0, i + 1).drop_last() =~= self.0@.subrange(0, i as int));
            match &self.0[i] {
                Generic::Generic(s) => {
                    out.push(s);
                },
                _ => {},
            }
            i += 1;
        }
        assert(self.0@.subrange(0, i as int) =~= self.0@);
        out
    }

    /// The lifetime parameters, in order.
    pub fn iter_lifetimes(&self) -> (r: Vec<&Lifetime>)
        ensures
            r@.len() == lifetime_generics(self.0@).len(),
            forall|j: int| 0 <= j < r@.len() ==> *r@[j] == #[trigger] lifetime_generics(self.0@)[j],
    {
        let mut out: Vec<&Lifetime> = Vec::new();
        let mut i: usize = 0;
        while i < self.0.len()
            invariant
                i <= self.0@.len(),
                out@.len() == lifetime_generics(self.0@.subrange(0, i as int)).len(),
                forall|j: int| 0 <= j < out@.len() ==>
                    *out@[j] == #[trigger] lifetime_generics(self.0@.subrange(0, i as int))[j],
            decreases self.0@.len() - i,
        {
            assert(self.0@.subrange(0, i + 1).drop_last() =~= self.0@.subrange(0, i as int));
            match &self.0[i] {
                Generic::Lifetime(l) => {
                    out.push(l);
                },
                _ => {},
            }
            i += 1;
        }
        assert(self.0@.subrange(0, i as int) =~= self.0@);
        out
    }

    /// The const parameters, in order.
    pub fn iter_consts(&self) -> (r: Vec<&ConstGeneric>)
        ensures
            r@.len() == const_generics(self.0@).len(),
            forall|j: int| 0 <= j < r@.len() ==> *r@[j] == #[trigger] const_generics(self.0@)[j],
    {
        let mut out: Vec<&ConstGeneric> = Vec::new();
        let mut i: usize = 0;
        while i < self.0.len()
            invariant
                i <= self.0@.len(),
                out@.len() == const_generics(self.0@.subrange(0, i as int)).len(),
                forall|j: int| 0 <= j < out@.len() ==>
                    *out@[j] == #[trigger] const_generics(self.0@.subrange(0, i as int))[j],
            decreases self.0@.len() - i,
        {
            assert(self.0@.subrange(0, i + 1).drop_last() =~= self.0@.subrange(0, i as int));
            match &self.0[i] {
                Generic::Const(c) => {
                    out.push(c);
                },
                _ => {},
            }
            i += 1;
        }
        assert(self.0@.subrange(0, i as int) =~= self.0@);
        out
    }
}

/// The lifetime parameters among `gs`, in order.
pub open spec fn lifetime_generics(gs: Seq<Generic>) -> Seq<Lifetime>
    decreases gs.len(),
{
    if gs.len() == 0 {
        Seq::empty()
    } else {
        let before = lifetime_generics(gs.drop_last());
        match gs.last() {
            Generic::Lifetime(l) => before.push(l),
            _ => before,
        }
    }
}

/// The const parameters among `gs`, in order.
pub open spec fn const_generics(gs: Seq<Generic>) -> Seq<ConstGeneric>
    decreases gs.len(),
{
    if gs.len() == 0 {
        Seq::empty()
    } else {
        let before = const_generics(gs.drop_last());
        match gs.last() {
            Generic::Const(c) => before.push(c),
            _ => before,
        }
    }
}

/// The type parameters among `gs`, in order.
pub open spec fn simple_generics(gs: Seq<Generic>) -> Seq<SimpleGeneric>
    decreases gs.len(),
{
    if gs.len() == 0 {
        Seq::empty()
    } else {
        let before = simple_generics(gs.drop_last());
        match gs.last() {
            Generic::Generic(s) => before.push(s),
            _ => before,
        }
    }
}

/// A `,` where `cond` holds, nothing otherwise.
pub open spec fn separator_if(cond: bool) -> Seq<TokenShape> {
    if cond { seq![punct_shape(',')] } else { Seq::empty() }
}

/// `after` is `before` followed by tokens that say `head`, then by tokens the
/// lexer in use made of `code`.
pub open spec fn pushed(before: Seq<TokenTree>, after: Seq<TokenTree>, head: Seq<TokenShape>, code: Seq<char>) -> bool {
    &&& after.len() >= before.len() + head.len()
    &&& after.subrange(0, before.len() as int) == before
    &&& lexes(code, shapes_of(after.subrange((before.len() + head.len()) as int, after.len() as int)))
    &&& shapes_of(after) == shapes_of(before) + head
        + shapes_of(after.subrange((before.len() + head.len()) as int, after.len() as int))
}

proof fn lemma_pushed_after(before: Seq<TokenTree>, head: Seq<TokenTree>, built: Seq<TokenTree>, hs: Seq<TokenShape>, code: Seq<char>)
    requires
        built.len() >= head.len(),
        built.subrange(0, head.len() as int) == head,
        shapes_of(head) == hs,
        lexes(code, shapes_of(crate::stream_builder::added(head, built))),
        shapes_of(built) == shapes_of(head) + shapes_of(crate::stream_builder::added(head, built)),
    ensures
        pushed(before, before + built, hs, code),
{
    crate::token::lemma_shapes_upto(head, head.len());
    assert(head.subrange(0, head.len() as int) =~= head);
    let after = before + built;
    assert(after.subrange((before.len() + hs.len()) as int, after.len() as int) =~= crate::stream_builder::added(head, built));
    assert(after.subrange(0, before.len() as int) =~= before);
    lemma_shapes_concat(before, built);
    assert(shapes_of(before) + shapes_of(built) =~= shapes_of(before) + hs
        + shapes_of(crate::stream_builder::added(head, built)));
}

/// A where-clause: the tokens after `where`, up to the body.
#[derive(Debug)]
pub struct GenericConstraints {
    pub constraints: Vec<TokenTree>,
}

/// The where-clause at the front of `ts`: if it starts with `where`, the tokens up
/// to a `{` or `(` group at depth zero.
pub open spec fn constraints_scan(ts: Seq<TokenTree>) -> Result<(Option<Seq<TokenTree>>, int), Fault> {
    if ts.len() > 0 && is_ident(ts[0], "where"@) {
        let tail = ts.subrange(1, ts.len() as int);
        match scan(tail, seq!['{', '(']) {
            ScanEnd::Stop(n) => Ok((Some(tail.subrange(0, n)), n + 1)),
            ScanEnd::Fail(i) => Err(Fault::Syntax(i + 1)),
        }
    } else {
        Ok((None, 0))
    }
}

impl GenericConstraints {
    /// An empty where-clause.
    pub fn new() -> (r: GenericConstraints)
        ensures
            r.constraints@.len() == 0,
    {
        GenericConstraints { constraints: Vec::new() }
    }

    /// Read a where-clause if the next token is `where`.
    pub fn try_take(input: &mut TokenCursor) -> (r: Result<Option<GenericConstraints>, Error>)
        ensures
            match constraints_scan(old(input).rest()) {
                Ok((c, m)) => r is Ok && (r->Ok_0 is Some <==> c is Some)
                    && (c is Some ==> r->Ok_0->0.constraints@ == c->0)
                    && took(old(input).rest(), final(input).rest(), m),
                Err(f) => r is Err && reports(r->Err_0, old(input).rest(), f),
            },
    {
        let ghost ts = input.rest();
        if !input.peek_is_ident("where") {
            assert(ts.subrange(0, ts.len() as int) == ts);
            return Ok(None);
        }
        let _ = input.next();
        let ghost tail = input.rest();
        let r = read_tokens_until_punct(input, &['{', '(']);
        proof {
            lemma_scan_from_bounds(tail, seq!['{', '('], 0, Seq::empty());
            match scan(tail, seq!['{', '(']) {
                ScanEnd::Stop(n) => { lemma_took_trans(ts, tail, input.rest(), 1, n); },
                ScanEnd::Fail(i) => { lemma_fault_shift_reports(r->Err_0, ts, tail, 1, Fault::Syntax(i)); },
            }
        }
        match r {
            Ok(constraints) => Ok(Some(GenericConstraints { constraints })),
            Err(e) => Err(e),
        }
    }

    /// Add `name: constraint` for the type parameter `generic`, after a `,` when
    /// there are constraints already. Where `constraint` does not tokenize, nothing
    /// changes and the error carries the text.
    pub fn push_constraint(&mut self, generic: &SimpleGeneric, constraint: &str) -> (r: Result<(), Error>)
        ensures
            r is Err ==> final(self).constraints@ == old(self).constraints@ && r->Err_0 is PushParse
                && r->Err_0->PushParse_0.code@ == constraint@,
            r is Ok ==> pushed(
                old(self).constraints@,
                final(self).constraints@,
                separator_if(old(self).constraints@.len() > 0) + seq![ident_shape(generic.ident.text@), punct_shape(':')],
                constraint@,
            ),
    {
        let mut builder = StreamBuilder::new();
        if self.constraints.len() > 0 {
            builder.punct(',');
        }
        builder.ident(generic.ident.duplicate());
        builder.punct(':');
        let ghost head = builder.stream@;
        proof {
            assert(shapes_of(head) =~= separator_if(self.constraints@.len() > 0)
                + seq![ident_shape(generic.ident.text@), punct_shape(':')]);
        }
        builder.push_parsed(constraint)?;
        proof { lemma_pushed_after(self.constraints@, head, builder.stream@, shapes_of(head), constraint@); }
        self.constraints.append(&mut builder.stream);
        Ok(())
    }

    /// Add the constraint `constraint`, after a `,` when there are constraints
    /// already. Where it does not tokenize, nothing changes and the error carries
    /// the text.
    pub fn push_parsed_constraint(&mut self, constraint: &str) -> (r: Result<(), Error>)
        ensures
            r is Err ==> final(self).constraints@ == old(self).constraints@ && r->Err_0 is PushParse
                && r->Err_0->PushParse_0.code@ == constraint@,
            r is Ok ==> pushed(
                old(self).constraints@,
                final(self).constraints@,
                separator_if(old(self).constraints@.len() > 0),
                constraint@,
            ),
    {
        let mut builder = StreamBuilder::new();
        if self.constraints.len() > 0 {
            builder.punct(',');
        }
        let ghost head = builder.stream@;
        proof {
            assert(shapes_of(head) =~= separator_if(self.constraints@.len() > 0));
        }
        builder.push_parsed(constraint)?;
        proof { lemma_pushed_after(self.constraints@, head, builder.stream@, shapes_of(head), constraint@); }
        self.constraints.append(&mut builder.stream);
        Ok(())
    }

    /// Remove every constraint.
    pub fn clear(&mut self)
        ensures
            final(self).constraints@.len() == 0,
    {
        self.constraints.clear();
    }

    /// A copy of this where-clause.
    pub fn duplicate(&self) -> (r: GenericConstraints)
        ensures
            copies(r.constraints@, self.constraints@),
    {
        GenericConstraints { constraints: duplicate_tokens(&self.constraints) }
    }
}

} // verus!
