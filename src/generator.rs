//! The root scope of generated code, and what every scope offers to the scopes
//! opened inside it.
use crate::error::Error;
use crate::generics::{generic_views, Generic, GenericConstraints, GenericView, Generics, Lifetime};
use crate::render::flat;
use crate::scopes::{GenEnum, GenStruct, GenerateMod, Impl, ImplFor};
use crate::stream_builder::{lex_text, lexing_of, Lexed, StreamBuilder};
use crate::token::{shapes_of, Ident, TokenShape, TokenTree};
use proc_macro2::Span;
use vstd::prelude::*;

verus! {

/// A scope that child scopes flush into. A child holds the only mutable
/// reference to its parent while it is open, so children flush in the order
/// they are closed and never two at once.
pub trait Parent {
    /// What the children of this scope have flushed into it so far.
    spec fn emitted(&self) -> Seq<TokenShape>;

    /// The name of the type that code in this scope is about.
    spec fn target(&self) -> Ident;

    /// The generic parameters of that type, if it has a list.
    spec fn target_generics(&self) -> Option<Seq<GenericView>>;

    /// The where-clause of that type, if it has one.
    spec fn target_constraints(&self) -> Option<Seq<TokenTree>>;

    /// Take what a child scope composed.
    fn append(&mut self, builder: StreamBuilder)
        ensures
            final(self).emitted() == old(self).emitted() + shapes_of(builder.stream@),
            final(self).target() == old(self).target(),
            final(self).target_generics() == old(self).target_generics(),
            final(self).target_constraints() == old(self).target_constraints(),
    ;

    /// The name of the type.
    fn name(&self) -> (r: &Ident)
        ensures
            *r == self.target(),
    ;

    /// The generic parameters of the type.
    fn generics(&self) -> (r: Option<&Generics>)
        ensures
            match r {
                Some(g) => self.target_generics() == Some(generic_views(g.0@)),
                None => self.target_generics() is None,
            },
    ;

    /// The where-clause of the type.
    fn generic_constraints(&self) -> (r: Option<&GenericConstraints>)
        ensures
            match r {
                Some(c) => self.target_constraints() == Some(c.constraints@),
                None => self.target_constraints() is None,
            },
    ;
}

/// A scope that functions are generated into.
pub trait FnParent {
    /// What the functions generated into this scope so far say.
    spec fn fn_shapes(&self) -> Seq<TokenShape>;

    /// Take a function: its signature and its body. The body goes into braces.
    fn append_fn(&mut self, fn_definition: StreamBuilder, fn_body: StreamBuilder) -> (r: Result<(), Error>)
        ensures
            r is Ok,
            final(self).fn_shapes() == old(self).fn_shapes() + shapes_of(fn_definition.stream@)
                + seq![crate::token::group_shape(crate::token::Delim::Brace, shapes_of(fn_body.stream@))],
    ;
}

/// Scopes flush in the order they are closed: after a first child scope added
/// `a` to its parent and a second one, opened after the first was closed, added
/// `b`, the parent holds what it had, then `a`, then `b`.
pub proof fn lemma_siblings_flush_in_order<P: Parent>(
    before: P,
    between: P,
    after: P,
    a: Seq<TokenShape>,
    b: Seq<TokenShape>,
)
    requires
        between.emitted() == before.emitted() + a,
        after.emitted() == between.emitted() + b,
    ensures
        after.emitted() == before.emitted() + a + b,
        after.emitted().subrange(before.emitted().len() as int, (before.emitted().len() + a.len()) as int) == a,
        after.emitted().subrange((before.emitted().len() + a.len()) as int, after.emitted().len() as int) == b,
{
    assert(after.emitted() =~= before.emitted() + a + b);
    assert(after.emitted().subrange(before.emitted().len() as int, (before.emitted().len() + a.len()) as int) =~= a);
    assert(after.emitted().subrange((before.emitted().len() + a.len()) as int, after.emitted().len() as int) =~= b);
}

/// A type name given either as text, which is tokenized when the scope that uses it is opened, or as an identifier.
pub enum StringOrIdent {
    String(String),
    Ident(Ident),
}

impl StringOrIdent {
    /// This name as tokens: an identifier as it is, text as the lexer in use
    /// tokenizes it.
    pub fn lex(&self) -> (r: Lexed)
        ensures
            name_lexing(*self, r),
    {
        match self {
            StringOrIdent::String(s) => lex_text(s.as_str()),
            StringOrIdent::Ident(i) => {
                let t = TokenTree::Ident(i.duplicate());
                let mut v: Vec<TokenTree> = Vec::new();
                v.push(t);
                assert(v@ =~= seq![t]);
                Ok(v)
            },
        }
    }
}

/// `l` is what the name `n` gave: an identifier as it is, or the outcome of
/// tokenizing the text.
pub open spec fn name_lexing(n: StringOrIdent, l: Lexed) -> bool {
    match n {
        StringOrIdent::String(s) => lexing_of(s@, l),
        StringOrIdent::Ident(i) => l is Ok && l->Ok_0@ == seq![TokenTree::Ident(i)],
    }
}

/// The `self` parameter of a generated function.
#[derive(Clone, Copy, Debug, PartialEq, Eq, Structural)]
pub enum FnSelfArg {
    /// No `self`: an associated function
    NoSelf,
    /// `self`
    TakeSelf,
    /// `mut self`
    MutTakeSelf,
    /// `&self`
    RefSelf,
    /// `&mut self`
    MutSelf,
}

/// The tokens of a `self` parameter.
pub open spec fn self_arg_shapes(a: FnSelfArg) -> Seq<TokenShape> {
    match a {
        FnSelfArg::NoSelf => Seq::empty(),
        FnSelfArg::TakeSelf => seq![crate::token::ident_shape("self"@)],
        FnSelfArg::MutTakeSelf => seq![crate::token::ident_shape("mut"@), crate::token::ident_shape("self"@)],
        FnSelfArg::RefSelf => seq![crate::token::punct_shape('&'), crate::token::ident_shape("self"@)],
        FnSelfArg::MutSelf => seq![
            crate::token::punct_shape('&'),
            crate::token::ident_shape("mut"@),
            crate::token::ident_shape("self"@),
        ],
    }
}

impl FnSelfArg {
    /// The tokens of this `self` parameter; `None` for a function without one.
    pub fn into_token_tree(self) -> (r: Option<StreamBuilder>)
        ensures
            self == FnSelfArg::NoSelf ==> r is None,
            self != FnSelfArg::NoSelf ==> r is Some && shapes_of(r->0.stream@) == self_arg_shapes(self),
    {
        let mut builder = StreamBuilder::new();
        match self {
            FnSelfArg::NoSelf => { return None; },
            FnSelfArg::TakeSelf => {
                builder.ident_str("self");
            },
            FnSelfArg::MutTakeSelf => {
                builder.ident_str("mut");
                builder.ident_str("self");
            },
            FnSelfArg::RefSelf => {
                builder.punct('&');
                builder.ident_str("self");
            },
            FnSelfArg::MutSelf => {
                builder.punct('&');
                builder.ident_str("mut");
                builder.ident_str("self");
            },
        }
        assert(shapes_of(builder.stream@) =~= self_arg_shapes(self));
        Some(builder)
    }
}

/// The root scope: generates code about one declaration and, once finished,
/// hands out all of it.
///
/// A generator must end in [`Generator::finish`]: dropping one that holds code
/// throws that code away. No check is made on drop, because a check would have
/// to write to standard error or abort, which this library does not do; callers
/// that want one can test `stream` before letting a generator go.
pub struct Generator {
    /// The name of the declaration
    pub name: Ident,
    /// Its generic parameters
    pub generics: Option<Generics>,
    /// Its where-clause
    pub generic_constraints: Option<GenericConstraints>,
    /// What has been generated so far
    pub stream: StreamBuilder,
}

impl Parent for Generator {
    open spec fn emitted(&self) -> Seq<TokenShape> {
        shapes_of(self.stream.stream@)
    }

    open spec fn target(&self) -> Ident {
        self.name
    }

    open spec fn target_generics(&self) -> Option<Seq<GenericView>> {
        match self.generics {
            Some(g) => Some(generic_views(g.0@)),
            None => None,
        }
    }

    open spec fn target_constraints(&self) -> Option<Seq<TokenTree>> {
        match self.generic_constraints {
            Some(c) => Some(c.constraints@),
            None => None,
        }
    }

    fn append(&mut self, builder: StreamBuilder) {
        self.stream.append(builder);
    }

    fn name(&self) -> (r: &Ident) {
        &self.name
    }

    fn generics(&self) -> (r: Option<&Generics>) {
        match &self.generics {
            Some(g) => Some(g),
            None => None,
        }
    }

    fn generic_constraints(&self) -> (r: Option<&GenericConstraints>) {
        match &self.generic_constraints {
            Some(c) => Some(c),
            None => None,
        }
    }
}

impl Generator {
    /// A generator for the declaration named `name`, with nothing generated yet.
    pub fn new(name: Ident, generics: Option<Generics>, generic_constraints: Option<GenericConstraints>) -> (r: Generator)
        ensures
            r.name == name,
            r.generics == generics,
            r.generic_constraints == generic_constraints,
            r.stream.stream@.len() == 0,
    {
        Generator { name, generics, generic_constraints, stream: StreamBuilder::new() }
    }

    /// A generator for a declaration named `name` without generics, as tests use it.
    pub fn with_name(name: &str) -> (r: Generator)
        ensures
            r.name.text@ == name@,
            r.generics is None,
            r.generic_constraints is None,
            r.stream.stream@.len() == 0,
    {
        Generator::new(Ident::new(name, Span::call_site()), None, None)
    }

    /// Add a lifetime parameter named `lt` (without apostrophe) to the declaration.
    pub fn with_lifetime(self, lt: &str) -> (r: Generator)
        ensures
            r.name == self.name,
            r.generic_constraints == self.generic_constraints,
            r.stream == self.stream,
            r.generics is Some,
            generic_views((r.generics->0).0@) == match self.generics {
                Some(g) => generic_views(g.0@),
                None => Seq::empty(),
            }.push(GenericView::Lifetime((r.generics->0).0@.last()->Lifetime_0.ident, Seq::empty())),
            (r.generics->0).0@.last()->Lifetime_0.ident.text@ == lt@,
    {
        let mut this = self;
        let lifetime = Generic::Lifetime(Lifetime { ident: Ident::new(lt, Span::call_site()), constraint: Vec::new() });
        let mut list = match this.generics {
            Some(g) => g.0,
            None => Vec::new(),
        };
        let ghost before = list@;
        list.push(lifetime);
        assert(generic_views(list@) =~= generic_views(before).push(lifetime@));
        this.generics = Some(Generics(list));
        this
    }

    /// The name of the declaration.
    pub fn target_name(&self) -> (r: Ident)
        ensures
            r == self.name,
    {
        self.name.duplicate()
    }

    /// Open an `impl <name>` scope.
    pub fn generate_impl(&mut self) -> (r: Impl<'_, Generator>)
        ensures
            *r.parent == *old(self),
            *final(self) == *final(r.parent),
            r.is_fresh(),
            lexing_of(old(self).name.text@, r.name),
    {
        Impl::with_parent_name(self)
    }

    /// Open an `impl <trait_name> for <name>` scope.
    pub fn impl_for(&mut self, trait_name: &str) -> (r: ImplFor<'_, Generator>)
        ensures
            *r.parent == *old(self),
            *final(self) == *final(r.parent),
            r.is_fresh(),
            name_lexing(StringOrIdent::Ident(old(self).name), r.for_type),
            r.trait_name is Some && lexing_of(trait_name@, r.trait_name->0),
            r.lifetimes is None,
    {
        let for_type = StringOrIdent::Ident(self.name.duplicate());
        ImplFor::new(self, for_type, Some(StringOrIdent::String(trait_name.to_string())))
    }

    /// Open an `impl <for_type>` scope for another type.
    pub fn impl_for_other_type(&mut self, for_type: StringOrIdent) -> (r: ImplFor<'_, Generator>)
        ensures
            *r.parent == *old(self),
            *final(self) == *final(r.parent),
            r.is_fresh(),
            name_lexing(for_type, r.for_type),
            r.trait_name is None,
            r.lifetimes is None,
    {
        ImplFor::new(self, for_type, None)
    }

    /// Open an `impl <trait_name> for <for_type>` scope for another type.
    pub fn impl_trait_for_other_type(&mut self, trait_name: StringOrIdent, for_type: StringOrIdent) -> (r: ImplFor<'_, Generator>)
        ensures
            *r.parent == *old(self),
            *final(self) == *final(r.parent),
            r.is_fresh(),
            name_lexing(for_type, r.for_type),
            r.trait_name is Some && name_lexing(trait_name, r.trait_name->0),
            r.lifetimes is None,
    {
        ImplFor::new(self, for_type, Some(trait_name))
    }

    /// Open an `impl<'x, ...> <trait_name><'x, ...> for <name>` scope with new
    /// lifetimes, named without apostrophe.
    pub fn impl_for_with_lifetimes(&mut self, trait_name: &str, lifetimes: Vec<String>) -> (r: ImplFor<'_, Generator>)
        ensures
            *r.parent == *old(self),
            *final(self) == *final(r.parent),
            r.is_fresh(),
            name_lexing(StringOrIdent::Ident(old(self).name), r.for_type),
            r.trait_name is Some && lexing_of(trait_name@, r.trait_name->0),
            r.lifetimes == Some(lifetimes),
    {
        let for_type = StringOrIdent::Ident(self.name.duplicate());
        let mut imp = ImplFor::new(self, for_type, Some(StringOrIdent::String(trait_name.to_string())));
        imp.lifetimes = Some(lifetimes);
        imp
    }

    /// Open a `struct <name>` scope.
    pub fn generate_struct(&mut self, name: &str) -> (r: GenStruct<'_, Generator>)
        ensures
            *r.parent == *old(self),
            *final(self) == *final(r.parent),
            r.is_fresh(),
            r.name.text@ == name@,
    {
        GenStruct::new(self, name)
    }

    /// Open an `enum <name>` scope.
    pub fn generate_enum(&mut self, name: &str) -> (r: GenEnum<'_, Generator>)
        ensures
            *r.parent == *old(self),
            *final(self) == *final(r.parent),
            r.is_fresh(),
            r.name.text@ == name@,
    {
        GenEnum::new(self, name)
    }

    /// Open a `mod <name>` scope.
    pub fn generate_mod(&mut self, mod_name: &str) -> (r: GenerateMod<'_, Generator>)
        ensures
            *r.parent == *old(self),
            *final(self) == *final(r.parent),
            r.is_fresh(),
            r.name.text@ == mod_name@,
    {
        GenerateMod::new(self, mod_name)
    }

    /// Hand out everything generated. This is the one way to take the code out.
    pub fn finish(self) -> (r: Result<Vec<TokenTree>, Error>)
        ensures
            r is Ok,
            r->Ok_0@ == self.stream.stream@,
    {
        Ok(self.stream.stream)
    }
}

} // verus!
