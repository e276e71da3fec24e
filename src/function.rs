//! The function scope: a signature built from its parts and a body built by a
//! callback, flushed together into an implementation block. The texts of the
//! signature are tokenized when they are given.
use crate::attributes::Visibility;
use crate::error::Error;
use crate::generator::{self_arg_shapes, FnParent, FnSelfArg};
use crate::render::{angled, joined, lemma_joined_concat, lemma_joined_push, separator};
use crate::scopes::{all_lex, append_attrs, attrs_shapes, keyword_if};
use crate::stream_builder::{joint_shapes, lex_text, lexing_of, lifetime_shapes, piece, Lexed, StreamBuilder};
use crate::token::{group_shape, ident_shape, punct_shape, shapes_of, Delim, TokenShape};
use vstd::prelude::*;

verus! {

/// The bounds of a lifetime parameter: `: 'a + 'b + ...`.
pub open spec fn lifetime_deps_shapes(deps: Seq<String>) -> Seq<TokenShape>
    decreases deps.len(),
{
    if deps.len() == 0 {
        Seq::empty()
    } else {
        lifetime_deps_shapes(deps.drop_last()) + seq![punct_shape(if deps.len() == 1 { ':' } else { '+' })]
            + lifetime_shapes(deps.last()@)
    }
}

/// The bounds of a type parameter: `: A + B + ...`, each as it was tokenized.
pub open spec fn type_deps_shapes(deps: Seq<Lexed>) -> Seq<TokenShape>
    decreases deps.len(),
{
    if deps.len() == 0 {
        Seq::empty()
    } else {
        type_deps_shapes(deps.drop_last()) + seq![punct_shape(if deps.len() == 1 { ':' } else { '+' })]
            + piece(deps.last())
    }
}

/// Lifetime parameters with their bounds.
pub open spec fn lifetime_params(ls: Seq<(String, Vec<String>)>) -> Seq<Seq<TokenShape>>
    decreases ls.len(),
{
    if ls.len() == 0 {
        Seq::empty()
    } else {
        lifetime_params(ls.drop_last()).push(lifetime_shapes(ls.last().0@) + lifetime_deps_shapes(ls.last().1@))
    }
}

/// Type parameters with their bounds.
pub open spec fn type_params(gs: Seq<(String, Vec<Lexed>)>) -> Seq<Seq<TokenShape>>
    decreases gs.len(),
{
    if gs.len() == 0 {
        Seq::empty()
    } else {
        type_params(gs.drop_last()).push(seq![ident_shape(gs.last().0@)] + type_deps_shapes(gs.last().1@))
    }
}

/// Arguments: `name: type`.
pub open spec fn arg_items(args: Seq<(Lexed, Lexed)>) -> Seq<Seq<TokenShape>>
    decreases args.len(),
{
    if args.len() == 0 {
        Seq::empty()
    } else {
        arg_items(args.drop_last()).push(piece(args.last().0) + seq![punct_shape(':')] + piece(args.last().1))
    }
}

/// Whether every bound of every type parameter tokenized.
pub open spec fn type_params_lex(gs: Seq<(String, Vec<Lexed>)>) -> bool {
    forall|i: int| 0 <= i < gs.len() ==> #[trigger] all_lex(gs[i].1@)
}

/// Whether every argument name and type tokenized.
pub open spec fn args_lex(args: Seq<(Lexed, Lexed)>) -> bool {
    forall|i: int| 0 <= i < args.len() ==> (#[trigger] args[i]).0 is Ok && args[i].1 is Ok
}

/// The `self` parameter and the comma after it, or nothing.
pub open spec fn self_part(a: FnSelfArg) -> Seq<TokenShape> {
    self_arg_shapes(a) + (if a == FnSelfArg::NoSelf { Seq::empty() } else { seq![punct_shape(',')] })
}

pub proof fn lemma_lifetime_params_len(ls: Seq<(String, Vec<String>)>)
    ensures
        lifetime_params(ls).len() == ls.len(),
    decreases ls.len(),
{
    if ls.len() > 0 {
        lemma_lifetime_params_len(ls.drop_last());
    }
}

pub proof fn lemma_type_params_len(gs: Seq<(String, Vec<Lexed>)>)
    ensures
        type_params(gs).len() == gs.len(),
    decreases gs.len(),
{
    if gs.len() > 0 {
        lemma_type_params_len(gs.drop_last());
    }
}

pub proof fn lemma_arg_items_len(args: Seq<(Lexed, Lexed)>)
    ensures
        arg_items(args).len() == args.len(),
    decreases args.len(),
{
    if args.len() > 0 {
        lemma_arg_items_len(args.drop_last());
    }
}

/// The signature of a function written with these parts.
pub open spec fn signature_shapes(
    attrs: Seq<Lexed>,
    vis: Visibility,
    is_async: bool,
    name: Seq<char>,
    lifetimes: Seq<(String, Vec<String>)>,
    generics: Seq<(String, Vec<Lexed>)>,
    self_arg: FnSelfArg,
    args: Seq<(Lexed, Lexed)>,
    return_type: Option<Lexed>,
) -> Seq<TokenShape> {
    attrs_shapes(attrs, false) + keyword_if(vis == Visibility::Pub, "pub"@) + keyword_if(is_async, "async"@)
        + seq![ident_shape("fn"@), ident_shape(name)]
        + (if lifetimes.len() > 0 || generics.len() > 0 {
            angled(lifetime_params(lifetimes) + type_params(generics))
        } else {
            Seq::empty()
        })
        + seq![group_shape(Delim::Parenthesis, self_part(self_arg) + joined(arg_items(args)))]
        + match return_type {
            Some(t) => joint_shapes("->"@) + piece(t),
            None => Seq::empty(),
        }
}

/// Whether the texts of a function written with these parts tokenized.
pub open spec fn signature_lexes(
    attrs: Seq<Lexed>,
    generics: Seq<(String, Vec<Lexed>)>,
    args: Seq<(Lexed, Lexed)>,
    return_type: Option<Lexed>,
) -> bool {
    &&& all_lex(attrs)
    &&& type_params_lex(generics)
    &&& args_lex(args)
    &&& (return_type matches Some(t) ==> t is Ok)
}

/// Tokenize each of `texts`.
fn lex_all(texts: Vec<String>) -> (r: Vec<Lexed>)
    ensures
        r@.len() == texts@.len(),
        forall|i: int| 0 <= i < texts@.len() ==> #[trigger] lexing_of(texts@[i]@, r@[i]),
{
    let mut out: Vec<Lexed> = Vec::new();
    let mut i: usize = 0;
    while i < texts.len()
        invariant
            i <= texts@.len(),
            out@.len() == i,
            forall|j: int| 0 <= j < i ==> #[trigger] lexing_of(texts@[j]@, out@[j]),
        decreases texts@.len() - i,
    {
        out.push(lex_text(texts[i].as_str()));
        i += 1;
    }
    out
}

/// Append the bounds of a lifetime parameter.
fn append_lifetime_deps(builder: &mut StreamBuilder, deps: &Vec<String>)
    ensures
        shapes_of(final(builder).stream@) == shapes_of(old(builder).stream@) + lifetime_deps_shapes(deps@),
{
    let ghost s0 = shapes_of(builder.stream@);
    let mut i: usize = 0;
    assert(deps@.subrange(0, 0) =~= Seq::<String>::empty());
    assert(s0 + lifetime_deps_shapes(Seq::<String>::empty()) =~= s0);
    while i < deps.len()
        invariant
            i <= deps@.len(),
            shapes_of(builder.stream@) == s0 + lifetime_deps_shapes(deps@.subrange(0, i as int)),
        decreases deps@.len() - i,
    {
        builder.punct(if i == 0 { ':' } else { '+' });
        builder.lifetime_str(deps[i].as_str());
        assert(deps@.subrange(0, i + 1).drop_last() =~= deps@.subrange(0, i as int));
        i += 1;
        assert(shapes_of(builder.stream@) =~= s0 + lifetime_deps_shapes(deps@.subrange(0, i as int)));
    }
    assert(deps@.subrange(0, i as int) =~= deps@);
}

/// Append the bounds of a type parameter. Where one did not tokenize, its error
/// is returned.
fn append_type_deps(builder: &mut StreamBuilder, deps: Vec<Lexed>) -> (r: Result<(), Error>)
    ensures
        r is Ok <==> all_lex(deps@),
        r is Ok ==> shapes_of(final(builder).stream@) == shapes_of(old(builder).stream@) + type_deps_shapes(deps@),
        r is Err ==> r->Err_0 is PushParse,
{
    let ghost s0 = shapes_of(builder.stream@);
    let ghost orig = deps@;
    let ghost mut k: int = 0;
    let mut pending = deps;
    let mut first = true;
    assert(orig.subrange(0, 0) =~= Seq::<Lexed>::empty());
    assert(orig.subrange(0, orig.len() as int) =~= orig);
    assert(s0 + type_deps_shapes(Seq::<Lexed>::empty()) =~= s0);
    while pending.len() > 0
        invariant
            orig == deps@,
            0 <= k <= orig.len(),
            first == (k == 0),
            pending@ == orig.subrange(k, orig.len() as int),
            all_lex(orig.subrange(0, k)),
            shapes_of(builder.stream@) == s0 + type_deps_shapes(orig.subrange(0, k)),
        decreases pending@.len(),
    {
        let d = pending.remove(0);
        assert(d == orig[k]);
        builder.punct(if first { ':' } else { '+' });
        first = false;
        match builder.append_lexed(d) {
            Ok(()) => {},
            Err(e) => {
                assert(!all_lex(orig));
                return Err(e);
            },
        }
        proof {
            assert(orig.subrange(0, k + 1).drop_last() =~= orig.subrange(0, k));
            k = k + 1;
            assert(all_lex(orig.subrange(0, k))) by {
                assert forall|j: int| 0 <= j < k implies #[trigger] orig.subrange(0, k)[j] is Ok by {
                    if j < k - 1 {
                        assert(orig.subrange(0, k)[j] == orig.subrange(0, k - 1)[j]);
                    }
                }
            }
        }
        assert(pending@ =~= orig.subrange(k, orig.len() as int));
        assert(shapes_of(builder.stream@) =~= s0 + type_deps_shapes(orig.subrange(0, k)));
    }
    assert(orig.subrange(0, k) =~= orig);
    Ok(())
}

/// Append lifetime parameters, comma separated.
fn append_lifetime_params(builder: &mut StreamBuilder, params: &Vec<(String, Vec<String>)>)
    ensures
        shapes_of(final(builder).stream@) == shapes_of(old(builder).stream@) + joined(lifetime_params(params@)),
{
    let ghost s0 = shapes_of(builder.stream@);
    let mut i: usize = 0;
    assert(params@.subrange(0, 0) =~= Seq::<(String, Vec<String>)>::empty());
    assert(s0 + joined(Seq::<Seq<TokenShape>>::empty()) =~= s0);
    while i < params.len()
        invariant
            i <= params@.len(),
            shapes_of(builder.stream@) == s0 + joined(lifetime_params(params@.subrange(0, i as int))),
        decreases params@.len() - i,
    {
        separator(builder, i == 0);
        let (pname, deps) = &params[i];
        builder.lifetime_str(pname.as_str());
        append_lifetime_deps(builder, deps);
        proof {
            let sub = params@.subrange(0, i as int);
            assert(params@.subrange(0, i + 1).drop_last() =~= sub);
            lemma_lifetime_params_len(sub);
            lemma_joined_push(lifetime_params(sub), lifetime_shapes(params@[i as int].0@) + lifetime_deps_shapes(params@[i as int].1@));
        }
        i += 1;
        assert(shapes_of(builder.stream@) =~= s0 + joined(lifetime_params(params@.subrange(0, i as int))));
    }
    assert(params@.subrange(0, i as int) =~= params@);
}

/// Append type parameters, comma separated; `first` says whether nothing comes
/// before them. Where a bound did not tokenize, its error is returned.
fn append_type_params(builder: &mut StreamBuilder, params: Vec<(String, Vec<Lexed>)>, first: bool) -> (r: Result<(), Error>)
    ensures
        r is Ok <==> type_params_lex(params@),
        r is Ok ==> shapes_of(final(builder).stream@) == shapes_of(old(builder).stream@)
            + (if !first && params@.len() > 0 { seq![punct_shape(',')] } else { Seq::<TokenShape>::empty() })
            + joined(type_params(params@)),
        r is Err ==> r->Err_0 is PushParse,
{
    let ghost s0 = shapes_of(builder.stream@);
    let ghost orig = params@;
    let ghost mut k: int = 0;
    let mut pending = params;
    let mut at_start = true;
    assert(orig.subrange(0, 0) =~= Seq::<(String, Vec<Lexed>)>::empty());
    assert(orig.subrange(0, orig.len() as int) =~= orig);
    assert(s0 + Seq::<TokenShape>::empty() + joined(Seq::<Seq<TokenShape>>::empty()) =~= s0);
    while pending.len() > 0
        invariant
            orig == params@,
            0 <= k <= orig.len(),
            at_start == (k == 0),
            pending@ == orig.subrange(k, orig.len() as int),
            type_params_lex(orig.subrange(0, k)),
            shapes_of(builder.stream@) == s0
                + (if !first && k > 0 { seq![punct_shape(',')] } else { Seq::<TokenShape>::empty() })
                + joined(type_params(orig.subrange(0, k))),
        decreases pending@.len(),
    {
        let (pname, deps) = pending.remove(0);
        assert((pname, deps) == orig[k]);
        separator(builder, first && at_start);
        at_start = false;
        builder.ident_str(pname.as_str());
        match append_type_deps(builder, deps) {
            Ok(()) => {},
            Err(e) => {
                assert(!all_lex(orig[k].1@));
                assert(!type_params_lex(orig));
                return Err(e);
            },
        }
        proof {
            let sub = orig.subrange(0, k);
            assert(orig.subrange(0, k + 1).drop_last() =~= sub);
            lemma_type_params_len(sub);
            lemma_joined_push(type_params(sub), seq![ident_shape(orig[k].0@)] + type_deps_shapes(orig[k].1@));
            k = k + 1;
            assert(type_params_lex(orig.subrange(0, k))) by {
                assert forall|j: int| 0 <= j < k implies #[trigger] all_lex(orig.subrange(0, k)[j].1@) by {
                    if j < k - 1 {
                        assert(orig.subrange(0, k)[j] == orig.subrange(0, k - 1)[j]);
                    }
                }
            }
        }
        assert(pending@ =~= orig.subrange(k, orig.len() as int));
        assert(shapes_of(builder.stream@) =~= s0
            + (if !first && k > 0 { seq![punct_shape(',')] } else { Seq::<TokenShape>::empty() })
            + joined(type_params(orig.subrange(0, k))));
    }
    assert(orig.subrange(0, k) =~= orig);
    Ok(())
}

/// Append the arguments, comma separated. Where a text did not tokenize, its
/// error is returned.
fn append_args(builder: &mut StreamBuilder, args: Vec<(Lexed, Lexed)>) -> (r: Result<(), Error>)
    ensures
        r is Ok <==> args_lex(args@),
        r is Ok ==> shapes_of(final(builder).stream@) == shapes_of(old(builder).stream@) + joined(arg_items(args@)),
        r is Err ==> r->Err_0 is PushParse,
{
    let ghost s0 = shapes_of(builder.stream@);
    let ghost orig = args@;
    let ghost mut k: int = 0;
    let mut pending = args;
    let mut at_start = true;
    assert(orig.subrange(0, 0) =~= Seq::<(Lexed, Lexed)>::empty());
    assert(orig.subrange(0, orig.len() as int) =~= orig);
    assert(s0 + joined(Seq::<Seq<TokenShape>>::empty()) =~= s0);
    while pending.len() > 0
        invariant
            orig == args@,
            0 <= k <= orig.len(),
            at_start == (k == 0),
            pending@ == orig.subrange(k, orig.len() as int),
            args_lex(orig.subrange(0, k)),
            shapes_of(builder.stream@) == s0 + joined(arg_items(orig.subrange(0, k))),
        decreases pending@.len(),
    {
        let (aname, aty) = pending.remove(0);
        assert((aname, aty) == orig[k]);
        separator(builder, at_start);
        at_start = false;
        match builder.append_lexed(aname) {
            Ok(()) => {},
            Err(e) => {
                assert(!args_lex(orig));
                return Err(e);
            },
        }
        builder.punct(':');
        match builder.append_lexed(aty) {
            Ok(()) => {},
            Err(e) => {
                assert(!args_lex(orig));
                return Err(e);
            },
        }
        proof {
            let sub = orig.subrange(0, k);
            assert(orig.subrange(0, k + 1).drop_last() =~= sub);
            lemma_arg_items_len(sub);
            lemma_joined_push(arg_items(sub), piece(orig[k].0) + seq![punct_shape(':')] + piece(orig[k].1));
            k = k + 1;
            assert(args_lex(orig.subrange(0, k))) by {
                assert forall|j: int| 0 <= j < k implies (#[trigger] orig.subrange(0, k)[j]).0 is Ok
                    && orig.subrange(0, k)[j].1 is Ok by {
                    if j < k - 1 {
                        assert(orig.subrange(0, k)[j] == orig.subrange(0, k - 1)[j]);
                    }
                }
            }
        }
        assert(pending@ =~= orig.subrange(k, orig.len() as int));
        assert(shapes_of(builder.stream@) =~= s0 + joined(arg_items(orig.subrange(0, k))));
    }
    assert(orig.subrange(0, k) =~= orig);
    Ok(())
}

/// Append `<lifetimes, generics>` where there are any.
fn append_param_list(builder: &mut StreamBuilder, lifetimes: &Vec<(String, Vec<String>)>, generics: Vec<(String, Vec<Lexed>)>) -> (r: Result<(), Error>)
    ensures
        r is Ok <==> type_params_lex(generics@),
        r is Ok ==> shapes_of(final(builder).stream@) == shapes_of(old(builder).stream@)
            + (if lifetimes@.len() > 0 || generics@.len() > 0 {
                angled(lifetime_params(lifetimes@) + type_params(generics@))
            } else {
                Seq::empty()
            }),
        r is Err ==> r->Err_0 is PushParse,
{
    let ghost s1 = shapes_of(builder.stream@);
    let ghost gs = generics@;
    if lifetimes.len() > 0 || generics.len() > 0 {
        builder.punct('<');
        append_lifetime_params(builder, lifetimes);
        append_type_params(builder, generics, lifetimes.len() == 0)?;
        builder.punct('>');
        proof {
            lemma_lifetime_params_len(lifetimes@);
            lemma_type_params_len(gs);
            lemma_joined_concat(lifetime_params(lifetimes@), type_params(gs));
        }
        assert(shapes_of(builder.stream@) =~= s1 + angled(lifetime_params(lifetimes@) + type_params(gs)));
    } else {
        assert(shapes_of(builder.stream@) =~= s1 + Seq::<TokenShape>::empty());
        assert(type_params_lex(gs));
    }
    Ok(())
}

/// The argument group's contents: `self, a: A, ...`.
fn arg_group(self_arg: FnSelfArg, args: Vec<(Lexed, Lexed)>) -> (r: Result<StreamBuilder, Error>)
    ensures
        r is Ok <==> args_lex(args@),
        r is Ok ==> shapes_of(r->Ok_0.stream@) == self_part(self_arg) + joined(arg_items(args@)),
        r is Err ==> r->Err_0 is PushParse,
{
    let mut arg_stream = StreamBuilder::new();
    match self_arg.into_token_tree() {
        Some(s) => {
            arg_stream.append(s);
            arg_stream.punct(',');
        },
        None => {},
    }
    assert(shapes_of(arg_stream.stream@) =~= self_part(self_arg));
    append_args(&mut arg_stream, args)?;
    Ok(arg_stream)
}

/// Build the signature of a function from its parts.
#[verifier::rlimit(60)]
fn build_signature(
    attrs: Vec<Lexed>,
    vis: Visibility,
    is_async: bool,
    name: &String,
    lifetimes: &Vec<(String, Vec<String>)>,
    generics: Vec<(String, Vec<Lexed>)>,
    self_arg: FnSelfArg,
    args: Vec<(Lexed, Lexed)>,
    return_type: Option<Lexed>,
) -> (r: Result<StreamBuilder, Error>)
    ensures
        r is Ok <==> signature_lexes(attrs@, generics@, args@, return_type),
        r is Ok ==> shapes_of(r->Ok_0.stream@) == signature_shapes(
            attrs@, vis, is_async, name@, lifetimes@, generics@, self_arg, args@, return_type),
        r is Err ==> r->Err_0 is PushParse,
{
    let ghost sig = signature_shapes(attrs@, vis, is_async, name@, lifetimes@, generics@, self_arg, args@, return_type);
    let ghost ok = signature_lexes(attrs@, generics@, args@, return_type);
    let mut builder = StreamBuilder::new();
    append_attrs(&mut builder, attrs, false)?;
    if vis == Visibility::Pub {
        builder.ident_str("pub");
    }
    if is_async {
        builder.ident_str("async");
    }
    builder.ident_str("fn");
    builder.ident_str(name.as_str());
    append_param_list(&mut builder, lifetimes, generics)?;
    let arg_stream = arg_group(self_arg, args)?;
    builder.group_of(Delim::Parenthesis, arg_stream);
    match return_type {
        Some(t) => {
            builder.puncts("->");
            builder.append_lexed(t)?;
        },
        None => {},
    }
    assert(shapes_of(builder.stream@) =~= sig);
    Ok(builder)
}

/// A function: `#[attrs] pub? async? fn <name><params>(<self>, <args>) -> <ret> { <body> }`.
pub struct FnBuilder<'a, P: FnParent> {
    pub parent: &'a mut P,
    pub name: String,
    pub attrs: Vec<Lexed>,
    pub is_async: bool,
    pub lifetimes: Vec<(String, Vec<String>)>,
    pub generics: Vec<(String, Vec<Lexed>)>,
    pub self_arg: FnSelfArg,
    pub args: Vec<(Lexed, Lexed)>,
    pub return_type: Option<Lexed>,
    pub vis: Visibility,
}

impl<'a, P: FnParent> FnBuilder<'a, P> {
    /// Nothing has been set on this function yet.
    pub open spec fn is_fresh(&self) -> bool {
        &&& self.attrs@.len() == 0
        &&& !self.is_async
        &&& self.lifetimes@.len() == 0
        &&& self.generics@.len() == 0
        &&& self.self_arg == FnSelfArg::NoSelf
        &&& self.args@.len() == 0
        &&& self.return_type is None
        &&& self.vis == Visibility::Default
    }

    /// Whether the texts this function is written with tokenized.
    pub open spec fn texts_lex(&self) -> bool {
        signature_lexes(self.attrs@, self.generics@, self.args@, self.return_type)
    }

    /// The signature this function is written with.
    pub open spec fn signature(&self) -> Seq<TokenShape> {
        signature_shapes(
            self.attrs@, self.vis, self.is_async, self.name@, self.lifetimes@, self.generics@,
            self.self_arg, self.args@, self.return_type,
        )
    }

    /// A function named `name` to be added to `parent`.
    pub fn new(parent: &'a mut P, name: &str) -> (r: FnBuilder<'a, P>)
        ensures
            *r.parent == *old(parent),
            *final(parent) == *final(r.parent),
            r.is_fresh(),
            r.name@ == name@,
    {
        FnBuilder {
            parent,
            name: name.to_string(),
            attrs: Vec::new(),
            is_async: false,
            lifetimes: Vec::new(),
            generics: Vec::new(),
            self_arg: FnSelfArg::NoSelf,
            args: Vec::new(),
            return_type: None,
            vis: Visibility::Default,
        }
    }

    /// Add an attribute `#[attr]`.
    pub fn with_attr(self, attr: &str) -> (r: FnBuilder<'a, P>)
        ensures
            r.attrs@.len() == self.attrs@.len() + 1,
            r.attrs@.drop_last() == self.attrs@,
            lexing_of(attr@, r.attrs@.last()),
            r.name == self.name,
            r.is_async == self.is_async,
            r.lifetimes == self.lifetimes,
            r.generics == self.generics,
            r.self_arg == self.self_arg,
            r.args == self.args,
            r.return_type == self.return_type,
            r.vis == self.vis,
            *r.parent == *old(self.parent),
            *final(r.parent) == *final(self.parent),
    {
        let mut this = self;
        this.attrs.push(lex_text(attr));
        this
    }

    /// Add a lifetime parameter named `name` (without apostrophe).
    pub fn with_lifetime(self, name: &str) -> (r: FnBuilder<'a, P>)
        ensures
            r.lifetimes@.len() == self.lifetimes@.len() + 1,
            r.lifetimes@.drop_last() == self.lifetimes@,
            r.lifetimes@.last().0@ == name@,
            r.lifetimes@.last().1@.len() == 0,
            r.name == self.name,
            r.attrs == self.attrs,
            r.is_async == self.is_async,
            r.generics == self.generics,
            r.self_arg == self.self_arg,
            r.args == self.args,
            r.return_type == self.return_type,
            r.vis == self.vis,
            *r.parent == *old(self.parent),
            *final(r.parent) == *final(self.parent),
    {
        let mut this = self;
        this.lifetimes.push((name.to_string(), Vec::new()));
        this
    }

    /// Make the function `async`.
    pub fn as_async(self) -> (r: FnBuilder<'a, P>)
        ensures
            r.is_async,
            r.name == self.name,
            r.attrs == self.attrs,
            r.lifetimes == self.lifetimes,
            r.generics == self.generics,
            r.self_arg == self.self_arg,
            r.args == self.args,
            r.return_type == self.return_type,
            r.vis == self.vis,
            *r.parent == *old(self.parent),
            *final(r.parent) == *final(self.parent),
    {
        let mut this = self;
        this.is_async = true;
        this
    }

    /// Add a lifetime parameter named `name` that outlives `dependencies`.
    pub fn with_lifetime_deps(self, name: &str, dependencies: Vec<String>) -> (r: FnBuilder<'a, P>)
        ensures
            r.lifetimes@.len() == self.lifetimes@.len() + 1,
            r.lifetimes@.drop_last() == self.lifetimes@,
            r.lifetimes@.last().0@ == name@,
            r.lifetimes@.last().1 == dependencies,
            r.name == self.name,
            r.attrs == self.attrs,
            r.is_async == self.is_async,
            r.generics == self.generics,
            r.self_arg == self.self_arg,
            r.args == self.args,
            r.return_type == self.return_type,
            r.vis == self.vis,
            *r.parent == *old(self.parent),
            *final(r.parent) == *final(self.parent),
    {
        let mut this = self;
        this.lifetimes.push((name.to_string(), dependencies));
        this
    }

    /// Add a type parameter named `name`.
    pub fn with_generic(self, name: &str) -> (r: FnBuilder<'a, P>)
        ensures
            r.generics@.len() == self.generics@.len() + 1,
            r.generics@.drop_last() == self.generics@,
            r.generics@.last().0@ == name@,
            r.generics@.last().1@.len() == 0,
            r.name == self.name,
            r.attrs == self.attrs,
            r.is_async == self.is_async,
            r.lifetimes == self.lifetimes,
            r.self_arg == self.self_arg,
            r.args == self.args,
            r.return_type == self.return_type,
            r.vis == self.vis,
            *r.parent == *old(self.parent),
            *final(r.parent) == *final(self.parent),
    {
        let mut this = self;
        this.generics.push((name.to_string(), Vec::new()));
        this
    }

    /// Add a type parameter named `name` bounded by `dependencies`, each tokenized.
    pub fn with_generic_deps(self, name: &str, dependencies: Vec<String>) -> (r: FnBuilder<'a, P>)
        ensures
            r.generics@.len() == self.generics@.len() + 1,
            r.generics@.drop_last() == self.generics@,
            r.generics@.last().0@ == name@,
            r.generics@.last().1@.len() == dependencies@.len(),
            forall|i: int| 0 <= i < dependencies@.len() ==> #[trigger] lexing_of(dependencies@[i]@, r.generics@.last().1@[i]),
            r.name == self.name,
            r.attrs == self.attrs,
            r.is_async == self.is_async,
            r.lifetimes == self.lifetimes,
            r.self_arg == self.self_arg,
            r.args == self.args,
            r.return_type == self.return_type,
            r.vis == self.vis,
            *r.parent == *old(self.parent),
            *final(r.parent) == *final(self.parent),
    {
        let mut this = self;
        let deps = lex_all(dependencies);
        this.generics.push((name.to_string(), deps));
        this
    }

    /// Set the `self` parameter.
    pub fn with_self_arg(self, self_arg: FnSelfArg) -> (r: FnBuilder<'a, P>)
        ensures
            r.self_arg == self_arg,
            r.name == self.name,
            r.attrs == self.attrs,
            r.is_async == self.is_async,
            r.lifetimes == self.lifetimes,
            r.generics == self.generics,
            r.args == self.args,
            r.return_type == self.return_type,
            r.vis == self.vis,
            *r.parent == *old(self.parent),
            *final(r.parent) == *final(self.parent),
    {
        let mut this = self;
        this.self_arg = self_arg;
        this
    }

    /// Add an argument `name: ty`.
    pub fn with_arg(self, name: &str, ty: &str) -> (r: FnBuilder<'a, P>)
        ensures
            r.args@.len() == self.args@.len() + 1,
            r.args@.drop_last() == self.args@,
            lexing_of(name@, r.args@.last().0),
            lexing_of(ty@, r.args@.last().1),
            r.name == self.name,
            r.attrs == self.attrs,
            r.is_async == self.is_async,
            r.lifetimes == self.lifetimes,
            r.generics == self.generics,
            r.self_arg == self.self_arg,
            r.return_type == self.return_type,
            r.vis == self.vis,
            *r.parent == *old(self.parent),
            *final(r.parent) == *final(self.parent),
    {
        let mut this = self;
        this.args.push((lex_text(name), lex_text(ty)));
        this
    }

    /// Set the return type.
    pub fn with_return_type(self, ret_type: &str) -> (r: FnBuilder<'a, P>)
        ensures
            r.return_type is Some,
            lexing_of(ret_type@, r.return_type->0),
            r.name == self.name,
            r.attrs == self.attrs,
            r.is_async == self.is_async,
            r.lifetimes == self.lifetimes,
            r.generics == self.generics,
            r.self_arg == self.self_arg,
            r.args == self.args,
            r.vis == self.vis,
            *r.parent == *old(self.parent),
            *final(r.parent) == *final(self.parent),
    {
        let mut this = self;
        this.return_type = Some(lex_text(ret_type));
        this
    }

    /// Make the function `pub`.
    pub fn make_pub(self) -> (r: FnBuilder<'a, P>)
        ensures
            r.vis == Visibility::Pub,
            r.name == self.name,
            r.attrs == self.attrs,
            r.is_async == self.is_async,
            r.lifetimes == self.lifetimes,
            r.generics == self.generics,
            r.self_arg == self.self_arg,
            r.args == self.args,
            r.return_type == self.return_type,
            *r.parent == *old(self.parent),
            *final(r.parent) == *final(self.parent),
    {
        let mut this = self;
        this.vis = Visibility::Pub;
        this
    }

    /// Complete the function with the body that `body_builder` builds from a
    /// fresh builder, and add both to the parent. Where a text did not tokenize
    /// or the callback fails, the parent is left as it was; a failure of the
    /// callback is returned as it is.
    pub fn body<F: FnOnce(StreamBuilder) -> Result<StreamBuilder, Error>>(self, body_builder: F) -> (r: Result<(), Error>)
        requires
            forall|b: StreamBuilder| body_builder.requires((b,)),
        ensures
            !self.texts_lex() ==> r is Err && r->Err_0 is PushParse,
            r is Err ==> *final(self.parent) == *old(self.parent),
            self.texts_lex() && r is Err ==> exists|b: StreamBuilder| b.stream@.len() == 0
                && #[trigger] body_builder.ensures((b,), Err::<StreamBuilder, Error>(r->Err_0)),
            r is Ok ==> self.texts_lex() && exists|b: StreamBuilder, v: StreamBuilder|
                #![trigger body_builder.ensures((b,), Ok::<StreamBuilder, Error>(v))]
                b.stream@.len() == 0 && body_builder.ensures((b,), Ok::<StreamBuilder, Error>(v))
                && (*final(self.parent)).fn_shapes() == (*old(self.parent)).fn_shapes() + self.signature()
                    + seq![group_shape(Delim::Brace, shapes_of(v.stream@))],
    {
        let ghost signature = self.signature();
        let FnBuilder { parent, name, attrs, is_async, lifetimes, generics, self_arg, args, return_type, vis } = self;
        let builder = build_signature(attrs, vis, is_async, &name, &lifetimes, generics, self_arg, args, return_type)?;
        let fresh = StreamBuilder::new();
        let ghost b0 = fresh;
        let body_stream = match body_builder(fresh) {
            Ok(v) => v,
            Err(e) => {
                return Err(e);
            },
        };
        let ghost v = body_stream;
        let _ = parent.append_fn(builder, body_stream);
        Ok(())
    }
}

} // verus!
