//! The declaration parser: attributes, visibility, keyword and name, generics,
//! where-clause and body, read strictly in that order.
use crate::attributes::{
    attrs_are, attrs_scan, lemma_attrs_scan_bounds, lemma_took_trans, took, vis_scan, AttrScan, Attribute,
    AttributeLocation, Visibility,
};
use crate::body::{
    enum_body_scan, fields_are, reports_at, struct_body_scan, variants_are, EnumBody, FieldsView, Located,
    StructBody, VariantView,
};
use crate::cursor::{ident_in, is_ident, reports, Fault, TokenCursor};
use crate::error::Error;
use crate::generator::Generator;
use crate::generics::{
    constraints_scan, generic_views, generics_scan, GenericConstraints, GenericView, Generics,
};
use crate::token::{Group, Ident, Punct, TokenTree};
use vstd::prelude::*;

verus! {

/// The two kinds of declaration this parser reads.
#[derive(Clone, Copy, Debug, PartialEq, Eq, Structural)]
pub enum DataType {
    Enum,
    Struct,
}

/// The keyword and name at the front of `ts`, and whether the keyword is known.
pub open spec fn data_type_scan(ts: Seq<TokenTree>) -> Result<(DataType, Ident), Located> {
    if !(ts.len() > 0 && ident_in(ts[0]) is Some) {
        Err((Fault::Syntax(0), ts))
    } else {
        let kw = ident_in(ts[0])->0;
        if kw.text@ != "struct"@ && kw.text@ != "enum"@ {
            Err((Fault::Unknown(0), ts))
        } else if !(ts.len() > 1 && ident_in(ts[1]) is Some) {
            Err((Fault::Syntax(1), ts))
        } else {
            Ok((if kw.text@ == "struct"@ { DataType::Struct } else { DataType::Enum }, ident_in(ts[1])->0))
        }
    }
}

impl DataType {
    /// Read the declaration keyword and the name after it.
    pub fn take(input: &mut TokenCursor) -> (r: Result<(DataType, Ident), Error>)
        ensures
            match data_type_scan(old(input).rest()) {
                Ok(v) => r == Ok::<(DataType, Ident), Error>(v) && took(old(input).rest(), final(input).rest(), 2),
                Err(l) => r is Err && reports_at(r->Err_0, l),
            },
    {
        let ghost ts = input.rest();
        if let Some(ident) = input.consume_ident() {
            let kind = if ident.is("struct") {
                DataType::Struct
            } else if ident.is("enum") {
                DataType::Enum
            } else {
                return Err(Error::UnknownDataType(ident.span));
            };
            let ghost t1 = input.rest();
            if let Some(name) = input.consume_ident() {
                proof {
                    lemma_took_trans(ts, t1, input.rest(), 1, 1);
                }
                return Ok((kind, name));
            }
            proof {
                if t1.len() > 0 {
                    assert(t1[0] == ts[1]);
                }
            }
        }
        Err(Error::wrong_token(input.peek(), "ident"))
    }
}

/// The body of a declaration as a value.
pub enum BodyView {
    Struct(Option<FieldsView>),
    Enum(Seq<VariantView>),
}

/// A declaration as a value.
pub struct DeclView {
    pub attrs: Seq<(Punct, Group)>,
    pub vis: Visibility,
    pub name: Ident,
    pub generics: Option<Seq<GenericView>>,
    pub constraints: Option<Seq<TokenTree>>,
    pub body: BodyView,
}

/// What the declaration parser makes of `ts`.
pub open spec fn decl_scan(ts: Seq<TokenTree>) -> Result<DeclView, Located> {
    match attrs_scan(ts) {
        AttrScan::Failed(f) => Err((f, ts)),
        AttrScan::Done(al, a) => {
            let t1 = ts.subrange(a, ts.len() as int);
            let (vis, v) = vis_scan(t1);
            let t2 = t1.subrange(v, t1.len() as int);
            match data_type_scan(t2) {
                Err(l) => Err(l),
                Ok((kind, name)) => {
                    let t3 = t2.subrange(2, t2.len() as int);
                    match generics_scan(t3) {
                        Err(f) => Err((f, t3)),
                        Ok((generics, gn)) => {
                            let t4 = t3.subrange(gn, t3.len() as int);
                            match constraints_scan(t4) {
                                Err(f) => Err((f, t4)),
                                Ok((constraints, cn)) => {
                                    let t5 = t4.subrange(cn, t4.len() as int);
                                    let body = match kind {
                                        DataType::Struct => match struct_body_scan(t5) {
                                            Ok(f) => Ok(BodyView::Struct(f)),
                                            Err(l) => Err(l),
                                        },
                                        DataType::Enum => match enum_body_scan(t5) {
                                            Ok(vs) => Ok(BodyView::Enum(vs)),
                                            Err(l) => Err(l),
                                        },
                                    };
                                    match body {
                                        Err(l) => Err(l),
                                        Ok(body) => Ok(DeclView { attrs: al, vis, name, generics, constraints, body }),
                                    }
                                },
                            }
                        },
                    }
                },
            }
        },
    }
}

/// A declaration that starts with any other keyword is no struct or enum: the
/// parser reports it as of an unknown kind, at that keyword.
pub proof fn lemma_other_keyword_is_unknown(ts: Seq<TokenTree>)
    requires
        ts.len() > 0,
        ts[0] is Ident,
        ts[0]->Ident_0.text@ != "struct"@,
        ts[0]->Ident_0.text@ != "enum"@,
        ts[0]->Ident_0.text@ != "pub"@,
    ensures
        decl_scan(ts) == Err::<DeclView, Located>((Fault::Unknown(0), ts)),
{
    assert(!crate::cursor::is_punct(ts[0], '#'));
    assert(attrs_scan(ts) == AttrScan::Done(Seq::<(Punct, Group)>::empty(), 0));
    assert(ts.subrange(0, ts.len() as int) =~= ts);
    assert(vis_scan(ts) == (Visibility::Default, 0int));
}

/// A parsed `struct` or `enum` declaration.
#[derive(Debug)]
pub enum Parse {
    /// The declaration is a struct
    Struct {
        attributes: Vec<Attribute>,
        visibility: Visibility,
        name: Ident,
        generics: Option<Generics>,
        generic_constraints: Option<GenericConstraints>,
        body: StructBody,
    },
    /// The declaration is an enum
    Enum {
        attributes: Vec<Attribute>,
        visibility: Visibility,
        name: Ident,
        generics: Option<Generics>,
        generic_constraints: Option<GenericConstraints>,
        body: EnumBody,
    },
}

/// The shared parts of a parsed declaration agree with `d`.
pub open spec fn header_is(
    attributes: Seq<Attribute>,
    visibility: Visibility,
    name: Ident,
    generics: Option<Generics>,
    generic_constraints: Option<GenericConstraints>,
    d: DeclView,
) -> bool {
    &&& attrs_are(attributes, AttributeLocation::Container, d.attrs)
    &&& visibility == d.vis
    &&& name == d.name
    &&& (generics is Some <==> d.generics is Some)
    &&& (generics is Some ==> generic_views((generics->0).0@) == d.generics->0)
    &&& (generic_constraints is Some <==> d.constraints is Some)
    &&& (generic_constraints is Some ==> generic_constraints->0.constraints@ == d.constraints->0)
}

/// `p` is the declaration that `d` describes.
pub open spec fn parse_is(p: Parse, d: DeclView) -> bool {
    match p {
        Parse::Struct { attributes, visibility, name, generics, generic_constraints, body } => {
            &&& header_is(attributes@, visibility, name, generics, generic_constraints, d)
            &&& d.body is Struct
            &&& (body.fields is Some <==> d.body->Struct_0 is Some)
            &&& (body.fields is Some ==> fields_are(body.fields->0, d.body->Struct_0->0))
        },
        Parse::Enum { attributes, visibility, name, generics, generic_constraints, body } => {
            &&& header_is(attributes@, visibility, name, generics, generic_constraints, d)
            &&& d.body is Enum
            &&& variants_are(body.variants@, d.body->Enum_0)
        },
    }
}

/// The body of a struct or an enum.
#[derive(Debug)]
pub enum Body {
    Struct(StructBody),
    Enum(EnumBody),
}

impl Parse {
    /// Parse the tokens of one `struct` or `enum` declaration. Anything after its
    /// body is left unread.
    pub fn new(input: Vec<TokenTree>) -> (r: Result<Parse, Error>)
        ensures
            match decl_scan(input@) {
                Ok(d) => r is Ok && parse_is(r->Ok_0, d),
                Err(l) => r is Err && reports_at(r->Err_0, l),
            },
    {
        let ghost ts = input@;
        let mut source = TokenCursor::new(input);
        let attributes = Attribute::try_take(AttributeLocation::Container, &mut source)?;
        let ghost t1 = source.rest();
        let visibility = Visibility::try_take(&mut source);
        let ghost t2 = source.rest();
        let (datatype, name) = DataType::take(&mut source)?;
        let ghost t3 = source.rest();
        let generics = Generics::try_take(&mut source)?;
        let ghost t4 = source.rest();
        let generic_constraints = GenericConstraints::try_take(&mut source)?;
        let ghost t5 = source.rest();
        proof {
            lemma_attrs_scan_bounds(ts);
        }
        match datatype {
            DataType::Struct => {
                let body = StructBody::take(&mut source)?;
                Ok(Parse::Struct { attributes, visibility, name, generics, generic_constraints, body })
            },
            DataType::Enum => {
                let body = EnumBody::take(&mut source)?;
                Ok(Parse::Enum { attributes, visibility, name, generics, generic_constraints, body })
            },
        }
    }

    /// Split this declaration into a generator for code about it, its attributes and its body.
    pub fn into_generator(self) -> (r: (Generator, Vec<Attribute>, Body))
        ensures
            match self {
                Parse::Struct { attributes, name, generics, generic_constraints, body, .. } => {
                    &&& r.0.name == name
                    &&& r.0.generics == generics
                    &&& r.0.generic_constraints == generic_constraints
                    &&& r.0.stream.stream@.len() == 0
                    &&& r.1 == attributes
                    &&& r.2 == Body::Struct(body)
                },
                Parse::Enum { attributes, name, generics, generic_constraints, body, .. } => {
                    &&& r.0.name == name
                    &&& r.0.generics == generics
                    &&& r.0.generic_constraints == generic_constraints
                    &&& r.0.stream.stream@.len() == 0
                    &&& r.1 == attributes
                    &&& r.2 == Body::Enum(body)
                },
            },
    {
        match self {
            Parse::Struct { name, generics, generic_constraints, body, attributes, .. } => {
                (Generator::new(name, generics, generic_constraints), attributes, Body::Struct(body))
            },
            Parse::Enum { name, generics, generic_constraints, body, attributes, .. } => {
                (Generator::new(name, generics, generic_constraints), attributes, Body::Enum(body))
            },
        }
    }
}

/// The index of the first `fn` in `ts`, or its length where there is none.
pub open spec fn first_fn(ts: Seq<TokenTree>) -> int
    decreases ts.len(),
{
    if ts.len() == 0 {
        0
    } else if is_ident(ts[0], "fn"@) {
        0
    } else {
        1 + first_fn(ts.subrange(1, ts.len() as int))
    }
}

/// The head of a function as a value.
pub struct FunctionView {
    pub vis: Visibility,
    pub is_async: bool,
    pub is_unsafe: bool,
    pub name: Ident,
    pub generics: Option<Seq<GenericView>>,
    pub rest: Seq<TokenTree>,
}

/// The tokens after the `fn` keyword that `ts` holds, if any.
pub open spec fn after_fn(ts: Seq<TokenTree>) -> Seq<TokenTree> {
    let k = first_fn(ts);
    if k < ts.len() { ts.subrange(k + 1, ts.len() as int) } else { Seq::empty() }
}

/// What the function head parser makes of `ts`: visibility, `async`, `unsafe`,
/// then everything is skipped up to `fn`, then the name and the generics.
pub open spec fn function_scan(ts: Seq<TokenTree>) -> Result<FunctionView, Located> {
    let (vis, v) = vis_scan(ts);
    let t1 = ts.subrange(v, ts.len() as int);
    let is_async = t1.len() > 0 && is_ident(t1[0], "async"@);
    let t2 = if is_async { t1.subrange(1, t1.len() as int) } else { t1 };
    let is_unsafe = t2.len() > 0 && is_ident(t2[0], "unsafe"@);
    let t3 = if is_unsafe { t2.subrange(1, t2.len() as int) } else { t2 };
    let t4 = after_fn(t3);
    if !(t4.len() > 0 && ident_in(t4[0]) is Some) {
        Err((Fault::Ident(t4.len() as int), t4))
    } else {
        let t5 = t4.subrange(1, t4.len() as int);
        match generics_scan(t5) {
            Err(f) => Err((f, t5)),
            Ok((generics, n)) => Ok(FunctionView {
                vis,
                is_async,
                is_unsafe,
                name: ident_in(t4[0])->0,
                generics,
                rest: t5.subrange(n, t5.len() as int),
            }),
        }
    }
}

/// The head of a function: its qualifiers, name and generics, and the tokens after them.
#[derive(Debug)]
pub struct Function {
    pub visibility: Visibility,
    pub is_async: bool,
    pub is_unsafe: bool,
    pub name: String,
    pub generics: Option<Generics>,
    pub rest: Vec<TokenTree>,
}

impl Function {
    /// Read a function head.
    pub fn try_take(input: &mut TokenCursor) -> (r: Result<Function, Error>)
        ensures
            match function_scan(old(input).rest()) {
                Ok(f) => r is Ok && r->Ok_0.visibility == f.vis && r->Ok_0.is_async == f.is_async
                    && r->Ok_0.is_unsafe == f.is_unsafe && r->Ok_0.name@ == f.name.text@
                    && (r->Ok_0.generics is Some <==> f.generics is Some)
                    && (f.generics is Some ==> generic_views((r->Ok_0.generics->0).0@) == f.generics->0)
                    && r->Ok_0.rest@ == f.rest,
                Err(l) => r is Err && reports_at(r->Err_0, l),
            },
    {
        let ghost ts = input.rest();
        let visibility = Visibility::try_take(input);
        let is_async = input.peek_is_ident("async");
        if is_async {
            let _ = input.next();
        }
        let is_unsafe = input.peek_is_ident("unsafe");
        if is_unsafe {
            let _ = input.next();
        }
        let ghost t3 = input.rest();
        let mut found = false;
        while !found && !input.is_empty()
            invariant
                t3.len() >= input.rest().len(),
                input.rest() == t3.subrange(t3.len() - input.rest().len(), t3.len() as int),
                !found ==> forall|j: int| 0 <= j < t3.len() - input.rest().len() ==> !is_ident(#[trigger] t3[j], "fn"@),
                found ==> t3.len() - input.rest().len() >= 1
                    && is_ident(t3[t3.len() - input.rest().len() - 1], "fn"@)
                    && forall|j: int| 0 <= j < t3.len() - input.rest().len() - 1 ==> !is_ident(#[trigger] t3[j], "fn"@),
            decreases input.rest().len(),
        {
            let ghost consumed = t3.len() - input.rest().len();
            assert(t3[consumed] == input.rest()[0]);
            let t = input.next().unwrap();
            found = match t {
                TokenTree::Ident(i) => i.is("fn"),
                _ => false,
            };
            assert(input.rest() =~= t3.subrange(t3.len() - input.rest().len(), t3.len() as int));
        }
        proof {
            let c = t3.len() - input.rest().len();
            if found {
                lemma_first_fn_exact(t3, c - 1);
                assert(input.rest() =~= after_fn(t3));
            } else {
                lemma_first_fn_exact(t3, t3.len() as int);
                assert(input.rest().len() == 0);
                assert(input.rest() =~= after_fn(t3));
            }
        }
        let name = match input.consume_ident() {
            Some(i) => i,
            None => { return Err(Error::ExpectedIdent(proc_macro2::Span::call_site())); },
        };
        let generics = Generics::try_take(input)?;
        let rest = take_remaining(input);
        Ok(Function { visibility, is_async, is_unsafe, name: name.text, generics, rest })
    }
}

pub proof fn lemma_first_fn_exact(ts: Seq<TokenTree>, c: int)
    requires
        0 <= c <= ts.len(),
        forall|j: int| 0 <= j < c ==> !is_ident(#[trigger] ts[j], "fn"@),
        c < ts.len() ==> is_ident(ts[c], "fn"@),
    ensures
        first_fn(ts) == c,
    decreases c,
{
    if c > 0 {
        let tail = ts.subrange(1, ts.len() as int);
        assert(!is_ident(ts[0], "fn"@));
        assert forall|j: int| 0 <= j < c - 1 implies !is_ident(#[trigger] tail[j], "fn"@) by {
            assert(tail[j] == ts[j + 1]);
        }
        if c < ts.len() {
            assert(tail[c - 1] == ts[c]);
        }
        lemma_first_fn_exact(tail, c - 1);
    }
}

/// Take every token left in `input`.
fn take_remaining(input: &mut TokenCursor) -> (r: Vec<TokenTree>)
    ensures
        r@ == old(input).rest(),
{
    let mut c = TokenCursor::new(Vec::new());
    std::mem::swap(&mut c, input);
    c.take_rest()
}

} // verus!
