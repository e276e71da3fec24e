//! The body of a declaration: the fields of a struct, the variants of an enum,
//! and how they are read from a token sequence.
use crate::attributes::{attrs_are, attrs_scan, lemma_attrs_scan_bounds, lemma_took_trans, took, vis_scan, AttrScan, Attribute, AttributeLocation, Visibility};
use crate::cursor::{ident_in, is_punct, lemma_scan_from_bounds, read_tokens_until_punct, reports, scan, Fault, ScanEnd, TokenCursor};
use crate::error::Error;
use crate::generics::with_comma;
use crate::token::{i64_literal, parse_i64, parsed_i64, signed_decimal, Delim, Group, Ident, Literal, Punct, TokenTree};
use proc_macro2::Span;
use vstd::prelude::*;

verus! {

/// A parse failure together with the token sequence its index points into.
pub type Located = (Fault, Seq<TokenTree>);

/// `e` reports the located fault `l`.
pub open spec fn reports_at(e: Error, l: Located) -> bool {
    reports(e, l.1, l.0)
}

/// A field as a value: visibility, type tokens and attributes.
pub struct FieldView {
    pub vis: Visibility,
    pub ty: Seq<TokenTree>,
    pub attrs: Seq<(Punct, Group)>,
}

/// A field without a name, or the part of a named field after its name.
#[derive(Debug)]
pub struct UnnamedField {
    /// The visibility of the field
    pub vis: Visibility,
    /// The type of the field
    pub ty: Vec<TokenTree>,
    /// The attributes of the field
    pub attributes: Vec<Attribute>,
}

/// `f` is the field that `v` describes.
pub open spec fn field_is(f: UnnamedField, v: FieldView) -> bool {
    &&& f.vis == v.vis
    &&& f.ty@ == v.ty
    &&& attrs_are(f.attributes@, AttributeLocation::Field, v.attrs)
}

/// The fields of a struct or of an enum variant.
#[derive(Debug)]
pub enum Fields {
    /// `(u32, String)`
    Tuple(Vec<UnnamedField>),
    /// `{ a: u32, b: String }`
    Struct(Vec<(Ident, UnnamedField)>),
}

/// Fields as values.
pub enum FieldsView {
    Tuple(Seq<FieldView>),
    Struct(Seq<(Ident, FieldView)>),
}

/// `f` holds the fields that `v` describes, in order.
pub open spec fn fields_are(f: Fields, v: FieldsView) -> bool {
    match (f, v) {
        (Fields::Tuple(a), FieldsView::Tuple(b)) => a@.len() == b.len()
            && forall|i: int| 0 <= i < b.len() ==> #[trigger] field_is(a@[i], b[i]),
        (Fields::Struct(a), FieldsView::Struct(b)) => a@.len() == b.len()
            && forall|i: int| 0 <= i < b.len() ==> #[trigger] field_is(a@[i].1, b[i].1) && a@[i].0 == b[i].0,
        _ => false,
    }
}

/// Attributes and visibility at the front of `ts`: what they are, and how many tokens they take.
pub open spec fn prefix_scan(ts: Seq<TokenTree>) -> Result<(Seq<(Punct, Group)>, Visibility, int), Located> {
    match attrs_scan(ts) {
        AttrScan::Failed(f) => Err((f, ts)),
        AttrScan::Done(al, a) => {
            let t1 = ts.subrange(a, ts.len() as int);
            let (vis, v) = vis_scan(t1);
            Ok((al, vis, a + v))
        },
    }
}

/// One named field at the front of `ts`: `None` where only attributes and a
/// visibility (or nothing) are left.
pub open spec fn named_item(ts: Seq<TokenTree>) -> Result<Option<((Ident, FieldView), int)>, Located> {
    match prefix_scan(ts) {
        Err(l) => Err(l),
        Ok((al, vis, p)) => {
            let t2 = ts.subrange(p, ts.len() as int);
            if t2.len() == 0 {
                Ok(None)
            } else if !(t2[0] is Ident) {
                Err((Fault::Syntax(0), t2))
            } else if !(t2.len() > 1 && is_punct(t2[1], ':')) {
                Err((Fault::Syntax(1), t2))
            } else {
                let t3 = t2.subrange(2, t2.len() as int);
                match scan(t3, seq![',']) {
                    ScanEnd::Fail(i) => Err((Fault::Syntax(i), t3)),
                    ScanEnd::Stop(n) => Ok(Some((
                        (t2[0]->Ident_0, FieldView { vis, ty: t3.subrange(0, n), attrs: al }),
                        p + 2 + with_comma(t3, n),
                    ))),
                }
            }
        },
    }
}

/// The named fields that make up all of `ts`, the inside of a `{...}` group.
#[verifier::opaque]
pub open spec fn named_list(ts: Seq<TokenTree>) -> Result<Seq<(Ident, FieldView)>, Located>
    decreases ts.len(),
{
    match named_item(ts) {
        Err(l) => Err(l),
        Ok(None) => Ok(Seq::empty()),
        Ok(Some((it, m))) => if 1 <= m <= ts.len() {
            match named_list(ts.subrange(m, ts.len() as int)) {
                Ok(l) => Ok(seq![it] + l),
                Err(l) => Err(l),
            }
        } else {
            Err((Fault::Syntax(0), ts))
        },
    }
}

/// One unnamed field at the front of `ts`, which is not empty.
pub open spec fn tuple_item(ts: Seq<TokenTree>) -> Result<(FieldView, int), Located> {
    match prefix_scan(ts) {
        Err(l) => Err(l),
        Ok((al, vis, p)) => {
            let t2 = ts.subrange(p, ts.len() as int);
            match scan(t2, seq![',']) {
                ScanEnd::Fail(i) => Err((Fault::Syntax(i), t2)),
                ScanEnd::Stop(n) => Ok((FieldView { vis, ty: t2.subrange(0, n), attrs: al }, p + with_comma(t2, n))),
            }
        },
    }
}

/// The unnamed fields that make up all of `ts`, the inside of a `(...)` group.
#[verifier::opaque]
pub open spec fn tuple_list(ts: Seq<TokenTree>) -> Result<Seq<FieldView>, Located>
    decreases ts.len(),
{
    if ts.len() == 0 {
        Ok(Seq::empty())
    } else {
        match tuple_item(ts) {
            Err(l) => Err(l),
            Ok((it, m)) => if 1 <= m <= ts.len() {
                match tuple_list(ts.subrange(m, ts.len() as int)) {
                    Ok(l) => Ok(seq![it] + l),
                    Err(l) => Err(l),
                }
            } else {
                Err((Fault::Syntax(0), ts))
            },
        }
    }
}

pub proof fn lemma_prefix_scan(ts: Seq<TokenTree>)
    ensures
        prefix_scan(ts) is Ok ==> 0 <= prefix_scan(ts)->Ok_0.2 <= ts.len(),
{
    lemma_attrs_scan_bounds(ts);
}

pub proof fn lemma_scan_comma_start(t: Seq<TokenTree>)
    requires
        t.len() > 0,
    ensures
        scan(t, seq![',']) is Stop ==> {
            let n = scan(t, seq![','])->Stop_0;
            n <= t.len() && (n == 0 ==> is_punct(t[0], ','))
        },
        scan(t, seq![',']) is Stop ==> 0 <= scan(t, seq![','])->Stop_0,
{
    lemma_scan_from_bounds(t, seq![','], 0, Seq::empty());
    lemma_scan_from_bounds(t, seq![','], 1, Seq::empty());
    if t[0] is Punct {
        lemma_scan_from_bounds(t, seq![','], 1, seq![t[0]->Punct_0.ch]);
        assert(seq![','].contains(t[0]->Punct_0.ch) ==> t[0]->Punct_0.ch == ',') by {
            if seq![','].contains(t[0]->Punct_0.ch) {
                let j = choose|j: int| 0 <= j < 1 && seq![','][j] == t[0]->Punct_0.ch;
            }
        }
    }
}

pub proof fn lemma_tuple_item(ts: Seq<TokenTree>)
    requires
        ts.len() > 0,
    ensures
        tuple_item(ts) is Ok ==> 1 <= tuple_item(ts)->Ok_0.1 <= ts.len(),
{
    lemma_prefix_scan(ts);
    if prefix_scan(ts) is Ok {
        let p = prefix_scan(ts)->Ok_0.2;
        let t2 = ts.subrange(p, ts.len() as int);
        if t2.len() > 0 {
            lemma_scan_comma_start(t2);
        } else {
            lemma_scan_from_bounds(t2, seq![','], 0, Seq::empty());
        }
        if p == 0 {
            assert(t2 == ts);
        }
    }
}

pub proof fn lemma_named_item(ts: Seq<TokenTree>)
    ensures
        named_item(ts) matches Ok(Some((_, m))) ==> 1 <= m <= ts.len(),
{
    lemma_prefix_scan(ts);
    if prefix_scan(ts) is Ok {
        let p = prefix_scan(ts)->Ok_0.2;
        let t2 = ts.subrange(p, ts.len() as int);
        if t2.len() > 1 {
            lemma_scan_from_bounds(t2.subrange(2, t2.len() as int), seq![','], 0, Seq::empty());
        }
    }
}

/// One step of [`named_list`].
pub proof fn lemma_named_list_unfold(ts: Seq<TokenTree>)
    ensures
        match named_item(ts) {
            Err(l) => named_list(ts) == Err::<Seq<(Ident, FieldView)>, Located>(l),
            Ok(None) => named_list(ts) == Ok::<Seq<(Ident, FieldView)>, Located>(Seq::empty()),
            Ok(Some((it, m))) => match named_list(ts.subrange(m, ts.len() as int)) {
                Ok(l) => named_list(ts) == Ok::<Seq<(Ident, FieldView)>, Located>(seq![it] + l),
                Err(l) => named_list(ts) == Err::<Seq<(Ident, FieldView)>, Located>(l),
            },
        },
{
    reveal(named_list);
    lemma_named_item(ts);
}

/// One step of [`tuple_list`].
pub proof fn lemma_tuple_list_unfold(ts: Seq<TokenTree>)
    ensures
        ts.len() == 0 ==> tuple_list(ts) == Ok::<Seq<FieldView>, Located>(Seq::empty()),
        ts.len() > 0 ==> match tuple_item(ts) {
            Err(l) => tuple_list(ts) == Err::<Seq<FieldView>, Located>(l),
            Ok((it, m)) => match tuple_list(ts.subrange(m, ts.len() as int)) {
                Ok(l) => tuple_list(ts) == Ok::<Seq<FieldView>, Located>(seq![it] + l),
                Err(l) => tuple_list(ts) == Err::<Seq<FieldView>, Located>(l),
            },
        },
{
    reveal(tuple_list);
    if ts.len() > 0 {
        lemma_tuple_item(ts);
    }
}

/// Read attributes and visibility.
fn take_prefix(input: &mut TokenCursor) -> (r: Result<(Vec<Attribute>, Visibility), Error>)
    ensures
        match prefix_scan(old(input).rest()) {
            Err(l) => r is Err && reports_at(r->Err_0, l),
            Ok((al, vis, p)) => r is Ok && attrs_are(r->Ok_0.0@, AttributeLocation::Field, al)
                && r->Ok_0.1 == vis && took(old(input).rest(), final(input).rest(), p),
        },
{
    let ghost ts = input.rest();
    let attributes = Attribute::try_take(AttributeLocation::Field, input)?;
    let ghost t1 = input.rest();
    let vis = Visibility::try_take(input);
    proof {
        lemma_attrs_scan_bounds(ts);
        lemma_took_trans(ts, t1, input.rest(), attrs_scan(ts)->Done_1, vis_scan(t1).1);
    }
    Ok((attributes, vis))
}

/// Read the type of a field: tokens up to a `,` at depth zero, and the `,`.
fn take_type(input: &mut TokenCursor) -> (r: Result<Vec<TokenTree>, Error>)
    ensures
        match scan(old(input).rest(), seq![',']) {
            ScanEnd::Fail(i) => r is Err && reports(r->Err_0, old(input).rest(), Fault::Syntax(i)),
            ScanEnd::Stop(n) => r is Ok && r->Ok_0@ == old(input).rest().subrange(0, n)
                && took(old(input).rest(), final(input).rest(), with_comma(old(input).rest(), n)),
        },
{
    let ghost ts = input.rest();
    proof { lemma_scan_from_bounds(ts, seq![','], 0, Seq::empty()); }
    let terms: [char; 1] = [','];
    assert(terms@ =~= seq![',']);
    let ty = match read_tokens_until_punct(input, &terms) {
        Ok(ty) => ty,
        Err(e) => { return Err(e); },
    };
    let ghost mid = input.rest();
    let _ = input.consume_punct_if(',');
    proof {
        let n = ty@.len() as int;
        if mid.len() > 0 {
            assert(mid[0] == ts[n]);
        }
        assert(mid.subrange(0, mid.len() as int) == mid);
        lemma_took_trans(ts, mid, input.rest(), n, with_comma(ts, n) - n);
    }
    Ok(ty)
}

impl UnnamedField {
    /// Read one named field; `None` where the input holds no more fields.
    fn take_named(input: &mut TokenCursor) -> (r: Result<Option<(Ident, UnnamedField)>, Error>)
        ensures
            match named_item(old(input).rest()) {
                Err(l) => r is Err && reports_at(r->Err_0, l),
                Ok(None) => r is Ok && r->Ok_0 is None,
                Ok(Some((it, m))) => r is Ok && r->Ok_0 is Some && (r->Ok_0->0).0 == it.0
                    && field_is((r->Ok_0->0).1, it.1) && took(old(input).rest(), final(input).rest(), m),
            },
    {
        let ghost ts = input.rest();
        let (attributes, vis) = take_prefix(input)?;
        let ghost t2 = input.rest();
        proof { lemma_prefix_scan(ts); }
        let ident = match input.peek() {
            Some(TokenTree::Ident(_)) => match input.next() {
                Some(TokenTree::Ident(i)) => i,
                _ => { return Err(Error::wrong_token(None, "ident")); },
            },
            Some(x) => { return Err(Error::wrong_token(Some(x), "ident or end of group")); },
            None => { return Ok(None); },
        };
        if !input.peek_is_punct(':') {
            let e = Error::wrong_token(input.peek(), ":");
            proof {
                if input.rest().len() > 0 {
                    assert(input.rest()[0] == t2[1]);
                }
            }
            return Err(e);
        }
        let _ = input.next();
        let ghost t3 = input.rest();
        assert(t3 =~= t2.subrange(2, t2.len() as int));
        let ty = take_type(input)?;
        proof {
            lemma_scan_from_bounds(t3, seq![','], 0, Seq::empty());
            let n = scan(t3, seq![','])->Stop_0;
            lemma_took_trans(ts, t2, t3, prefix_scan(ts)->Ok_0.2, 2);
            lemma_took_trans(ts, t3, input.rest(), prefix_scan(ts)->Ok_0.2 + 2, with_comma(t3, n));
        }
        Ok(Some((ident, UnnamedField { vis, ty: ty, attributes })))
    }

    /// Read one unnamed field; the input is not empty.
    fn take_unnamed(input: &mut TokenCursor) -> (r: Result<UnnamedField, Error>)
        requires
            old(input).rest().len() > 0,
        ensures
            match tuple_item(old(input).rest()) {
                Err(l) => r is Err && reports_at(r->Err_0, l),
                Ok((it, m)) => r is Ok && field_is(r->Ok_0, it) && took(old(input).rest(), final(input).rest(), m),
            },
    {
        let ghost ts = input.rest();
        let (attributes, vis) = take_prefix(input)?;
        let ghost t2 = input.rest();
        proof { lemma_prefix_scan(ts); }
        let ty = take_type(input)?;
        proof {
            lemma_scan_from_bounds(t2, seq![','], 0, Seq::empty());
            let n = scan(t2, seq![','])->Stop_0;
            lemma_took_trans(ts, t2, input.rest(), prefix_scan(ts)->Ok_0.2, with_comma(t2, n));
        }
        Ok(UnnamedField { vis, ty: ty, attributes })
    }

    /// Read the named fields that make up all of `input`.
    pub fn parse_with_name(input: &mut TokenCursor) -> (r: Result<Vec<(Ident, UnnamedField)>, Error>)
        ensures
            match named_list(old(input).rest()) {
                Err(l) => r is Err && reports_at(r->Err_0, l),
                Ok(l) => r is Ok && fields_are(Fields::Struct(r->Ok_0), FieldsView::Struct(l)),
            },
    {
        let ghost orig = input.rest();
        let ghost mut acc: Seq<(Ident, FieldView)> = Seq::empty();
        let mut result: Vec<(Ident, UnnamedField)> = Vec::new();
        proof {
            match named_list(orig) {
                Ok(l) => { assert(acc + l =~= l); },
                Err(l) => {},
            }
        }
        loop
            invariant
                fields_are(Fields::Struct(result), FieldsView::Struct(acc)),
                match named_list(input.rest()) {
                    Ok(l) => named_list(orig) == Ok::<Seq<(Ident, FieldView)>, Located>(acc + l),
                    Err(l) => named_list(orig) == Err::<Seq<(Ident, FieldView)>, Located>(l),
                },
                orig == old(input).rest(),
            decreases input.rest().len(),
        {
            let ghost ts = input.rest();
            proof { lemma_named_list_unfold(ts); lemma_named_item(ts); }
            match UnnamedField::take_named(input)? {
                None => {
                    assert(acc + Seq::<(Ident, FieldView)>::empty() =~= acc);
                    return Ok(result);
                },
                Some(item) => {
                    proof {
                        let it = (named_item(ts)->Ok_0->0).0;
                        match named_list(input.rest()) {
                            Ok(l) => { assert(acc.push(it) + l =~= acc + (seq![it] + l)); },
                            Err(l) => {},
                        }
                        acc = acc.push(it);
                    }
                    result.push(item);
                },
            }
        }
    }

    /// Read the unnamed fields that make up all of `input`.
    pub fn parse(input: &mut TokenCursor) -> (r: Result<Vec<UnnamedField>, Error>)
        ensures
            match tuple_list(old(input).rest()) {
                Err(l) => r is Err && reports_at(r->Err_0, l),
                Ok(l) => r is Ok && fields_are(Fields::Tuple(r->Ok_0), FieldsView::Tuple(l)),
            },
    {
        let ghost orig = input.rest();
        let ghost mut acc: Seq<FieldView> = Seq::empty();
        let mut result: Vec<UnnamedField> = Vec::new();
        proof {
            match tuple_list(orig) {
                Ok(l) => { assert(acc + l =~= l); },
                Err(l) => {},
            }
        }
        while !input.is_empty()
            invariant
                fields_are(Fields::Tuple(result), FieldsView::Tuple(acc)),
                match tuple_list(input.rest()) {
                    Ok(l) => tuple_list(orig) == Ok::<Seq<FieldView>, Located>(acc + l),
                    Err(l) => tuple_list(orig) == Err::<Seq<FieldView>, Located>(l),
                },
                orig == old(input).rest(),
            decreases input.rest().len(),
        {
            let ghost ts = input.rest();
            proof { lemma_tuple_list_unfold(ts); lemma_tuple_item(ts); }
            let field = UnnamedField::take_unnamed(input)?;
            proof {
                let it = tuple_item(ts)->Ok_0.0;
                match tuple_list(input.rest()) {
                    Ok(l) => { assert(acc.push(it) + l =~= acc + (seq![it] + l)); },
                    Err(l) => {},
                }
                acc = acc.push(it);
            }
            result.push(field);
        }
        proof {
            lemma_tuple_list_unfold(input.rest());
            assert(acc + Seq::<FieldView>::empty() =~= acc);
        }
        Ok(result)
    }

    /// The type tokens written out one after another, with nothing between them.
    pub fn type_string(&self) -> (r: String)
        ensures
            r@ == token_texts(self.ty@),
    {
        let mut out = String::new();
        let mut i: usize = 0;
        while i < self.ty.len()
            invariant
                i <= self.ty@.len(),
                out@ == token_texts(self.ty@.subrange(0, i as int)),
            decreases self.ty@.len() - i,
        {
            let piece = self.ty[i].text();
            assert(self.ty@.subrange(0, i + 1).drop_last() =~= self.ty@.subrange(0, i as int));
            out = out.concat(piece.as_str());
            i += 1;
        }
        assert(self.ty@.subrange(0, i as int) =~= self.ty@);
        out
    }

    /// The location of the first type token, or of the invocation for an empty type.
    pub fn span(&self) -> (r: Span)
        ensures
            self.ty@.len() > 0 ==> r == crate::token::span_of(self.ty@[0]),
    {
        if self.ty.len() > 0 {
            self.ty[0].span()
        } else {
            Span::call_site()
        }
    }
}

/// The texts of `ts`, one after another, with nothing between them.
pub open spec fn token_texts(ts: Seq<TokenTree>) -> Seq<char>
    decreases ts.len(),
{
    if ts.len() == 0 {
        Seq::empty()
    } else {
        token_texts(ts.drop_last()) + crate::token::token_text_spec(ts.last())
    }
}

/// The number of fields.
pub open spec fn fields_len(f: Fields) -> nat {
    match f {
        Fields::Tuple(f) => f@.len(),
        Fields::Struct(f) => f@.len(),
    }
}

impl Fields {
    /// The delimiter of the group these fields stand in.
    pub fn delimiter(&self) -> (r: Delim)
        ensures
            r == match *self {
                Fields::Tuple(_) => Delim::Parenthesis,
                Fields::Struct(_) => Delim::Brace,
            },
    {
        match self {
            Fields::Tuple(_) => Delim::Parenthesis,
            Fields::Struct(_) => Delim::Brace,
        }
    }

    /// The number of fields.
    pub fn len(&self) -> (r: usize)
        ensures
            r == fields_len(*self),
    {
        match self {
            Fields::Tuple(f) => f.len(),
            Fields::Struct(f) => f.len(),
        }
    }

    /// How each field is referred to: by its name, or by its position.
    pub fn names(&self) -> (r: Vec<IdentOrIndex<'_>>)
        ensures
            r@.len() == fields_len(*self),
            forall|i: int| 0 <= i < r@.len() ==> match *self {
                Fields::Tuple(f) => #[trigger] r@[i] == (IdentOrIndex::Index {
                    index: i as usize,
                    span: r@[i]->Index_span,
                    attributes: &f@[i].attributes,
                }) && (f@[i].ty@.len() > 0 ==> r@[i]->Index_span == crate::token::span_of(f@[i].ty@[0])),
                Fields::Struct(f) => r@[i] == (IdentOrIndex::Ident {
                    ident: &f@[i].0,
                    attributes: &f@[i].1.attributes,
                }),
            },
    {
        let mut out: Vec<IdentOrIndex<'_>> = Vec::new();
        match self {
            Fields::Tuple(fields) => {
                let mut i: usize = 0;
                while i < fields.len()
                    invariant
                        i <= fields@.len(),
                        out@.len() == i,
                        forall|j: int| 0 <= j < i ==> #[trigger] out@[j] == (IdentOrIndex::Index {
                            index: j as usize,
                            span: out@[j]->Index_span,
                            attributes: &fields@[j].attributes,
                        }) && (fields@[j].ty@.len() > 0 ==> out@[j]->Index_span == crate::token::span_of(fields@[j].ty@[0])),
                    decreases fields@.len() - i,
                {
                    let field = &fields[i];
                    out.push(IdentOrIndex::Index { index: i, span: field.span(), attributes: &field.attributes });
                    i += 1;
                }
            },
            Fields::Struct(fields) => {
                let mut i: usize = 0;
                while i < fields.len()
                    invariant
                        i <= fields@.len(),
                        out@.len() == i,
                        forall|j: int| 0 <= j < i ==> #[trigger] out@[j] == (IdentOrIndex::Ident {
                            ident: &fields@[j].0,
                            attributes: &fields@[j].1.attributes,
                        }),
                    decreases fields@.len() - i,
                {
                    let field = &fields[i];
                    out.push(IdentOrIndex::Ident { ident: &field.0, attributes: &field.1.attributes });
                    i += 1;
                }
            },
        }
        out
    }
}

/// A reference to a field: by name, or by position.
#[derive(Debug)]
pub enum IdentOrIndex<'a> {
    /// A named field
    Ident {
        /// The name of the field
        ident: &'a Ident,
        /// The attributes of the field
        attributes: &'a Vec<Attribute>,
    },
    /// An unnamed field
    Index {
        /// The position of the field
        index: usize,
        /// The location of the field's type
        span: Span,
        /// The attributes of the field
        attributes: &'a Vec<Attribute>,
    },
}

impl<'a> IdentOrIndex<'a> {
    /// The name of a named field.
    pub fn unwrap_ident(&self) -> (r: &'a Ident)
        requires
            *self is Ident,
        ensures
            r == self->Ident_ident,
    {
        match self {
            IdentOrIndex::Ident { ident, .. } => ident,
            IdentOrIndex::Index { .. } => vstd::pervasive::unreached(),
        }
    }

    /// The name of the field, or `prefix` followed by its position, as an identifier.
    pub fn to_token_tree_with_prefix(&self, prefix: &str) -> (r: TokenTree)
        ensures
            r is Ident,
            r->Ident_0.text@ == index_name(*self, prefix@),
            *self is Ident ==> r == TokenTree::Ident(*self->Ident_ident),
            *self is Index ==> r->Ident_0.span == self->Index_span,
    {
        match self {
            IdentOrIndex::Ident { ident, .. } => TokenTree::Ident(ident.duplicate()),
            IdentOrIndex::Index { index, span, .. } => {
                let name = prefix.to_string().concat(usize_text(*index).as_str());
                TokenTree::Ident(Ident { text: name, span: *span })
            },
        }
    }

    /// The name of the field, or `prefix` followed by its position.
    pub fn to_string_with_prefix(&self, prefix: &str) -> (r: String)
        ensures
            r@ == index_name(*self, prefix@),
    {
        match self {
            IdentOrIndex::Ident { ident, .. } => ident.text.clone(),
            IdentOrIndex::Index { index, .. } => prefix.to_string().concat(usize_text(*index).as_str()),
        }
    }

    /// The attributes of the field.
    pub fn attributes(&self) -> (r: &'a Vec<Attribute>)
        ensures
            r == match *self {
                IdentOrIndex::Ident { attributes, .. } => attributes,
                IdentOrIndex::Index { attributes, .. } => attributes,
            },
    {
        match self {
            IdentOrIndex::Ident { attributes, .. } => attributes,
            IdentOrIndex::Index { attributes, .. } => attributes,
        }
    }
}

/// The name a field is referred to by, with `prefix` in front of a position.
pub open spec fn index_name(f: IdentOrIndex, prefix: Seq<char>) -> Seq<char> {
    match f {
        IdentOrIndex::Ident { ident, .. } => ident.text@,
        IdentOrIndex::Index { index, .. } => prefix + crate::token::decimal(index as nat),
    }
}

/// The decimal digits of `n`.
fn usize_text(n: usize) -> (r: String)
    ensures
        r@ == crate::token::decimal(n as nat),
{
    crate::token::usize_literal(n)
}

/// The body of a struct.
#[derive(Debug)]
pub struct StructBody {
    /// The fields; `None` for `struct Foo;`
    pub fields: Option<Fields>,
}

/// The body of a struct at the front of `ts`: `;`, or a `{...}` or `(...)` group.
pub open spec fn struct_body_scan(ts: Seq<TokenTree>) -> Result<Option<FieldsView>, Located> {
    if ts.len() > 0 && is_punct(ts[0], ';') {
        Ok(None)
    } else if ts.len() > 0 && ts[0] is Group {
        let g = ts[0]->Group_0;
        if g.delimiter == Delim::Brace {
            match named_list(g.stream@) {
                Ok(l) => Ok(Some(FieldsView::Struct(l))),
                Err(l) => Err(l),
            }
        } else if g.delimiter == Delim::Parenthesis {
            match tuple_list(g.stream@) {
                Ok(l) => Ok(Some(FieldsView::Tuple(l))),
                Err(l) => Err(l),
            }
        } else {
            Err((Fault::Syntax(0), ts))
        }
    } else {
        Err((Fault::Syntax(0), ts))
    }
}

/// Read the fields of a group delimited by braces or parentheses.
fn take_fields(g: Group) -> (r: Result<Fields, Error>)
    requires
        g.delimiter == Delim::Brace || g.delimiter == Delim::Parenthesis,
    ensures
        g.delimiter == Delim::Brace ==> match named_list(g.stream@) {
            Ok(l) => r is Ok && fields_are(r->Ok_0, FieldsView::Struct(l)),
            Err(l) => r is Err && reports_at(r->Err_0, l),
        },
        g.delimiter == Delim::Parenthesis ==> match tuple_list(g.stream@) {
            Ok(l) => r is Ok && fields_are(r->Ok_0, FieldsView::Tuple(l)),
            Err(l) => r is Err && reports_at(r->Err_0, l),
        },
{
    let is_brace = g.delimiter == Delim::Brace;
    let mut inner = TokenCursor::new(g.stream);
    if is_brace {
        let fields = UnnamedField::parse_with_name(&mut inner)?;
        Ok(Fields::Struct(fields))
    } else {
        let fields = UnnamedField::parse(&mut inner)?;
        Ok(Fields::Tuple(fields))
    }
}

impl StructBody {
    /// Read the body of a struct.
    pub fn take(input: &mut TokenCursor) -> (r: Result<StructBody, Error>)
        ensures
            match struct_body_scan(old(input).rest()) {
                Ok(None) => r is Ok && r->Ok_0.fields is None && final(input).rest() == old(input).rest(),
                Ok(Some(v)) => r is Ok && r->Ok_0.fields is Some && fields_are(r->Ok_0.fields->0, v)
                    && took(old(input).rest(), final(input).rest(), 1),
                Err(l) => r is Err && reports_at(r->Err_0, l),
            },
    {
        let ghost ts = input.rest();
        let kind: u8 = match input.peek() {
            Some(TokenTree::Group(g)) => match g.delimiter {
                Delim::Brace => 1,
                Delim::Parenthesis => 1,
                _ => 3,
            },
            Some(TokenTree::Punct(p)) => if p.ch == ';' { 0 } else { 2 },
            _ => 2,
        };
        if kind == 0 {
            return Ok(StructBody { fields: None });
        } else if kind == 2 || kind == 3 {
            return Err(Error::wrong_token(input.peek(), "group or punct"));
        }
        let group = match input.next() {
            Some(TokenTree::Group(g)) => g,
            _ => { return Err(Error::wrong_token(None, "group")); },
        };
        let fields = take_fields(group)?;
        Ok(StructBody { fields: Some(fields) })
    }
}

/// A variant of an enum.
#[derive(Debug)]
pub struct EnumVariant {
    /// The name of the variant
    pub name: Ident,
    /// The fields of the variant; `None` for a variant without a group
    pub fields: Option<Fields>,
    /// The discriminant after `=`, if any
    pub value: Option<Literal>,
    /// The attributes of the variant
    pub attributes: Vec<Attribute>,
}

/// A discriminant as read: a literal taken as it is, or the value of a literal
/// after a `-`, negated.
pub enum ValueView {
    Exact(Literal),
    Negated(int),
}

/// A variant as a value.
pub struct VariantView {
    pub name: Ident,
    pub fields: Option<FieldsView>,
    pub value: Option<ValueView>,
    pub attrs: Seq<(Punct, Group)>,
}

/// `v` is the variant that `w` describes.
pub open spec fn variant_is(v: EnumVariant, w: VariantView) -> bool {
    &&& v.name == w.name
    &&& attrs_are(v.attributes@, AttributeLocation::Variant, w.attrs)
    &&& (v.fields is Some <==> w.fields is Some)
    &&& (v.fields is Some ==> fields_are(v.fields->0, w.fields->0))
    &&& match w.value {
        None => v.value is None,
        Some(ValueView::Exact(l)) => v.value == Some(l),
        Some(ValueView::Negated(x)) => v.value is Some && v.value->0.text@ == signed_decimal(-x),
    }
}

/// The fields group of a variant at the front of `ts`, if there is a group: what
/// it holds and how many tokens it takes.
pub open spec fn variant_fields_scan(ts: Seq<TokenTree>) -> Result<(Option<FieldsView>, int), Located> {
    if ts.len() > 0 && ts[0] is Group {
        let g = ts[0]->Group_0;
        if g.delimiter == Delim::Brace {
            match named_list(g.stream@) {
                Ok(l) => Ok((Some(FieldsView::Struct(l)), 1)),
                Err(l) => Err(l),
            }
        } else if g.delimiter == Delim::Parenthesis {
            match tuple_list(g.stream@) {
                Ok(l) => Ok((Some(FieldsView::Tuple(l)), 1)),
                Err(l) => Err(l),
            }
        } else {
            Err((Fault::Syntax(0), ts))
        }
    } else {
        Ok((None, 0))
    }
}

/// The discriminant of a variant at the front of `ts`, if it starts with `=`; a
/// variant must then be followed by `,` or by nothing.
pub open spec fn value_scan(ts: Seq<TokenTree>) -> Result<(Option<ValueView>, int), Located> {
    if ts.len() > 0 && is_punct(ts[0], '=') {
        if ts.len() > 1 && ts[1] is Literal {
            Ok((Some(ValueView::Exact(ts[1]->Literal_0)), 2))
        } else if ts.len() > 1 && is_punct(ts[1], '-') {
            if ts.len() > 2 && ts[2] is Literal {
                match parsed_i64(ts[2]->Literal_0.text@) {
                    Some(x) => if x != i64::MIN {
                        Ok((Some(ValueView::Negated(x)), 3))
                    } else {
                        Err((Fault::Custom(2), ts))
                    },
                    None => Err((Fault::Custom(2), ts)),
                }
            } else {
                Err((Fault::Syntax(2), ts))
            }
        } else {
            Err((Fault::Syntax(1), ts))
        }
    } else if ts.len() == 0 || is_punct(ts[0], ',') {
        Ok((None, 0))
    } else {
        Err((Fault::Syntax(0), ts))
    }
}

/// One variant at the front of `ts`, which is not empty, with the `,` after it.
pub open spec fn variant_item(ts: Seq<TokenTree>) -> Result<(VariantView, int), Located> {
    match attrs_scan(ts) {
        AttrScan::Failed(f) => Err((f, ts)),
        AttrScan::Done(al, a) => {
            let t1 = ts.subrange(a, ts.len() as int);
            if !(t1.len() > 0 && ident_in(t1[0]) is Some) {
                Err((Fault::Syntax(0), t1))
            } else {
                let t2 = t1.subrange(1, t1.len() as int);
                match variant_fields_scan(t2) {
                    Err(l) => Err(l),
                    Ok((fields, fu)) => {
                        let t3 = t2.subrange(fu, t2.len() as int);
                        match value_scan(t3) {
                            Err(l) => Err(l),
                            Ok((value, vu)) => {
                                let t4 = t3.subrange(vu, t3.len() as int);
                                Ok((
                                    VariantView { name: ident_in(t1[0])->0, fields, value, attrs: al },
                                    a + 1 + fu + vu + with_comma(t4, 0),
                                ))
                            },
                        }
                    },
                }
            }
        },
    }
}

/// The variants that make up all of `ts`, the inside of an enum's `{...}` group.
#[verifier::opaque]
pub open spec fn variant_list(ts: Seq<TokenTree>) -> Result<Seq<VariantView>, Located>
    decreases ts.len(),
{
    if ts.len() == 0 {
        Ok(Seq::empty())
    } else {
        match variant_item(ts) {
            Err(l) => Err(l),
            Ok((it, m)) => if 1 <= m <= ts.len() {
                match variant_list(ts.subrange(m, ts.len() as int)) {
                    Ok(l) => Ok(seq![it] + l),
                    Err(l) => Err(l),
                }
            } else {
                Err((Fault::Syntax(0), ts))
            },
        }
    }
}

pub proof fn lemma_variant_item(ts: Seq<TokenTree>)
    ensures
        variant_item(ts) is Ok ==> 1 <= variant_item(ts)->Ok_0.1 <= ts.len(),
{
    lemma_attrs_scan_bounds(ts);
}

/// One step of [`variant_list`].
pub proof fn lemma_variant_list_unfold(ts: Seq<TokenTree>)
    ensures
        ts.len() == 0 ==> variant_list(ts) == Ok::<Seq<VariantView>, Located>(Seq::empty()),
        ts.len() > 0 ==> match variant_item(ts) {
            Err(l) => variant_list(ts) == Err::<Seq<VariantView>, Located>(l),
            Ok((it, m)) => match variant_list(ts.subrange(m, ts.len() as int)) {
                Ok(l) => variant_list(ts) == Ok::<Seq<VariantView>, Located>(seq![it] + l),
                Err(l) => variant_list(ts) == Err::<Seq<VariantView>, Located>(l),
            },
        },
{
    reveal(variant_list);
    lemma_variant_item(ts);
}

/// Read a variant's fields group, if the next token is a group.
fn take_variant_fields(input: &mut TokenCursor) -> (r: Result<Option<Fields>, Error>)
    ensures
        match variant_fields_scan(old(input).rest()) {
            Err(l) => r is Err && reports_at(r->Err_0, l),
            Ok((None, u)) => r is Ok && r->Ok_0 is None && took(old(input).rest(), final(input).rest(), u),
            Ok((Some(v), u)) => r is Ok && r->Ok_0 is Some && fields_are(r->Ok_0->0, v)
                && took(old(input).rest(), final(input).rest(), u),
        },
{
    let ghost ts = input.rest();
    let kind: u8 = match input.peek() {
        Some(TokenTree::Group(g)) => match g.delimiter {
            Delim::Brace => 1,
            Delim::Parenthesis => 1,
            _ => 2,
        },
        _ => 0,
    };
    if kind == 0 {
        assert(ts.subrange(0, ts.len() as int) == ts);
        return Ok(None);
    } else if kind == 2 {
        return Err(Error::wrong_token(input.peek(), "brace or parenthesis"));
    }
    let group = match input.next() {
        Some(TokenTree::Group(g)) => g,
        _ => { return Err(Error::wrong_token(None, "group")); },
    };
    let fields = take_fields(group)?;
    Ok(Some(fields))
}

/// Read a variant's discriminant, if the next token is `=`.
fn take_value(input: &mut TokenCursor) -> (r: Result<Option<Literal>, Error>)
    ensures
        match value_scan(old(input).rest()) {
            Err(l) => r is Err && reports_at(r->Err_0, l),
            Ok((None, u)) => r is Ok && r->Ok_0 is None && took(old(input).rest(), final(input).rest(), u),
            Ok((Some(ValueView::Exact(l)), u)) => r == Ok::<Option<Literal>, Error>(Some(l))
                && took(old(input).rest(), final(input).rest(), u),
            Ok((Some(ValueView::Negated(x)), u)) => r is Ok && r->Ok_0 is Some
                && r->Ok_0->0.text@ == signed_decimal(-x) && took(old(input).rest(), final(input).rest(), u),
        },
{
    let ghost ts = input.rest();
    if input.peek_is_punct('=') {
        let _ = input.next();
        let t = input.next();
        match t {
            Some(TokenTree::Literal(lit)) => {
                assert(input.rest() =~= ts.subrange(2, ts.len() as int));
                Ok(Some(lit))
            },
            Some(TokenTree::Punct(p)) => {
                if p.ch != '-' {
                    return Err(Error::wrong_token(Some(&TokenTree::Punct(p)), "literal"));
                }
                let t2 = input.next();
                match t2 {
                    Some(TokenTree::Literal(lit)) => {
                        assert(input.rest() =~= ts.subrange(3, ts.len() as int));
                        match parse_i64(lit.text.as_str()) {
                            Some(val) => {
                                if val == i64::MIN {
                                    return Err(Error::custom_at("parse::<i64> failed", lit.span));
                                }
                                let text = i64_literal(-val);
                                Ok(Some(Literal { text, span: Span::call_site() }))
                            },
                            None => Err(Error::custom_at("parse::<i64> failed", lit.span)),
                        }
                    },
                    other => {
                        let e = Error::wrong_token(other.as_ref(), "literal");
                        Err(e)
                    },
                }
            },
            other => Err(Error::wrong_token(other.as_ref(), "literal")),
        }
    } else if input.is_empty() || input.peek_is_punct(',') {
        assert(ts.subrange(0, ts.len() as int) == ts);
        Ok(None)
    } else {
        Err(Error::wrong_token(input.peek(), "group, comma or ="))
    }
}

impl EnumVariant {
    /// Read one variant, with the `,` after it; the input is not empty.
    fn take(input: &mut TokenCursor) -> (r: Result<EnumVariant, Error>)
        requires
            old(input).rest().len() > 0,
        ensures
            match variant_item(old(input).rest()) {
                Err(l) => r is Err && reports_at(r->Err_0, l),
                Ok((w, m)) => r is Ok && variant_is(r->Ok_0, w) && took(old(input).rest(), final(input).rest(), m),
            },
    {
        let ghost ts = input.rest();
        proof { lemma_attrs_scan_bounds(ts); }
        let attributes = Attribute::try_take(AttributeLocation::Variant, input)?;
        let ghost t1 = input.rest();
        let name = match input.consume_ident() {
            Some(i) => i,
            None => { return Err(Error::wrong_token(input.peek(), "ident")); },
        };
        let ghost t2 = input.rest();
        let fields = take_variant_fields(input)?;
        let ghost t3 = input.rest();
        let value = take_value(input)?;
        let ghost t4 = input.rest();
        let _ = input.consume_punct_if(',');
        proof {
            let a = attrs_scan(ts)->Done_1;
            let fu = variant_fields_scan(t2)->Ok_0.1;
            let vu = value_scan(t3)->Ok_0.1;
            assert(t4.subrange(0, t4.len() as int) == t4);
            lemma_took_trans(ts, t1, t2, a, 1);
            lemma_took_trans(ts, t2, t3, a + 1, fu);
            lemma_took_trans(ts, t3, t4, a + 1 + fu, vu);
            lemma_took_trans(ts, t4, input.rest(), a + 1 + fu + vu, with_comma(t4, 0));
        }
        Ok(EnumVariant { name, fields, value, attributes })
    }
}

/// The body of an enum.
#[derive(Debug)]
pub struct EnumBody {
    /// The variants, in order
    pub variants: Vec<EnumVariant>,
}

/// The body of an enum at the front of `ts`: `;`, or a `{...}` group of variants.
pub open spec fn enum_body_scan(ts: Seq<TokenTree>) -> Result<Seq<VariantView>, Located> {
    if ts.len() > 0 && is_punct(ts[0], ';') {
        Ok(Seq::empty())
    } else if ts.len() > 0 && ts[0] is Group {
        variant_list(ts[0]->Group_0.stream@)
    } else {
        Err((Fault::Syntax(0), ts))
    }
}

/// `vs` holds the variants that `ws` describes, in order.
pub open spec fn variants_are(vs: Seq<EnumVariant>, ws: Seq<VariantView>) -> bool {
    &&& vs.len() == ws.len()
    &&& forall|i: int| 0 <= i < vs.len() ==> #[trigger] variant_is(vs[i], ws[i])
}

impl EnumBody {
    /// Read the body of an enum.
    pub fn take(input: &mut TokenCursor) -> (r: Result<EnumBody, Error>)
        ensures
            match enum_body_scan(old(input).rest()) {
                Ok(ws) => r is Ok && variants_are(r->Ok_0.variants@, ws),
                Err(l) => r is Err && reports_at(r->Err_0, l),
            },
    {
        let kind: u8 = match input.peek() {
            Some(TokenTree::Group(_)) => 1,
            Some(TokenTree::Punct(p)) => if p.ch == ';' { 0 } else { 2 },
            _ => 2,
        };
        if kind == 0 {
            return Ok(EnumBody { variants: Vec::new() });
        } else if kind == 2 {
            return Err(Error::wrong_token(input.peek(), "group or ;"));
        }
        let ghost first = input.rest()[0];
        let group = match input.next() {
            Some(TokenTree::Group(g)) => g,
            _ => { return Err(Error::wrong_token(None, "group")); },
        };
        let ghost inner = group.stream@;
        assert(inner == old(input).rest()[0]->Group_0.stream@);
        let mut stream = TokenCursor::new(group.stream);
        let ghost orig = stream.rest();
        let ghost mut acc: Seq<VariantView> = Seq::empty();
        let mut variants: Vec<EnumVariant> = Vec::new();
        proof {
            match variant_list(orig) {
                Ok(l) => { assert(acc + l =~= l); },
                Err(l) => {},
            }
        }
        while !stream.is_empty()
            invariant
                variants_are(variants@, acc),
                match variant_list(stream.rest()) {
                    Ok(l) => variant_list(orig) == Ok::<Seq<VariantView>, Located>(acc + l),
                    Err(l) => variant_list(orig) == Err::<Seq<VariantView>, Located>(l),
                },
                orig == inner,
                inner == old(input).rest()[0]->Group_0.stream@,
                old(input).rest().len() > 0 && old(input).rest()[0] is Group,
            decreases stream.rest().len(),
        {
            let ghost ts = stream.rest();
            proof { lemma_variant_list_unfold(ts); lemma_variant_item(ts); }
            let variant = EnumVariant::take(&mut stream)?;
            proof {
                let it = variant_item(ts)->Ok_0.0;
                match variant_list(stream.rest()) {
                    Ok(l) => { assert(acc.push(it) + l =~= acc + (seq![it] + l)); },
                    Err(l) => {},
                }
                acc = acc.push(it);
            }
            variants.push(variant);
        }
        proof {
            lemma_variant_list_unfold(stream.rest());
            assert(acc + Seq::<VariantView>::empty() =~= acc);
        }
        Ok(EnumBody { variants })
    }
}

} // verus!
