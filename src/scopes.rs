//! The scopes that generated code is composed in: implementations, trait
//! implementations, functions, constants, structs, enums and modules. Each one
//! holds its parent exclusively while open and flushes into it once, on `close`
//! (or `body`, `with_value`); a scope that fails adds nothing to its parent. Text
//! given to a scope is tokenized when it is given, and a refusal is reported
//! when the scope flushes.
use crate::attributes::Visibility;
use crate::error::Error;
use crate::function::FnBuilder;
use crate::generator::{name_lexing, FnParent, Parent, StringOrIdent};
use crate::generics::{GenericConstraints, GenericView, Generics};
use crate::render::{angled, append_all, append_lifetimes, decl_items, flat, impl_generics_shapes, lifetime_items, type_generics_shapes, where_shapes};
use crate::stream_builder::{added, lex_text, lexing_of, piece, Lexed, StreamBuilder};
use crate::token::{group_shape, ident_shape, lexes, punct_shape, shapes_of, Delim, Ident, TokenShape, TokenTree};
use proc_macro2::Span;
use vstd::prelude::*;

verus! {

/// `ident` where `cond` holds, nothing otherwise.
pub open spec fn keyword_if(cond: bool, word: Seq<char>) -> Seq<TokenShape> {
    if cond { seq![ident_shape(word)] } else { Seq::empty() }
}

pub open spec fn opt_impl_generics(g: Option<Seq<GenericView>>) -> Seq<TokenShape> {
    match g {
        Some(gs) => impl_generics_shapes(gs),
        None => Seq::empty(),
    }
}

pub open spec fn opt_type_generics(g: Option<Seq<GenericView>>) -> Seq<TokenShape> {
    match g {
        Some(gs) => type_generics_shapes(gs),
        None => Seq::empty(),
    }
}

/// The where-clause of an implementation: its own constraints where it has
/// them, else those of the type.
pub open spec fn where_part(custom: Option<GenericConstraints>, of_type: Option<Seq<TokenTree>>) -> Seq<TokenShape> {
    match custom {
        Some(c) => where_shapes(c.constraints@),
        None => match of_type {
            Some(c) => where_shapes(c),
            None => Seq::empty(),
        },
    }
}

pub proof fn lemma_flat_push(bs: Seq<StreamBuilder>, b: StreamBuilder)
    ensures
        flat(bs.push(b)) == flat(bs) + shapes_of(b.stream@),
    decreases bs.len(),
{
    if bs.len() == 0 {
        assert(bs.push(b).subrange(1, 1) =~= Seq::<StreamBuilder>::empty());
        assert(bs.push(b)[0] == b);
        assert(flat(Seq::<StreamBuilder>::empty()) == Seq::<TokenShape>::empty());
        assert(flat(bs.push(b)) == shapes_of(b.stream@) + flat(Seq::<StreamBuilder>::empty()));
        assert(flat(bs.push(b)) =~= shapes_of(b.stream@));
        assert(flat(bs) + shapes_of(b.stream@) =~= shapes_of(b.stream@));
    } else {
        let tail = bs.subrange(1, bs.len() as int);
        assert(bs.push(b).subrange(1, bs.len() as int + 1) =~= tail.push(b));
        lemma_flat_push(tail, b);
        assert(flat(bs.push(b)) =~= flat(bs) + shapes_of(b.stream@));
    }
}

/// An attribute holding `code`: `#`, a `!` where `bang`, then `code` in a group.
fn attr_builder(code: &str, bang: bool, delim: Delim) -> (r: Result<StreamBuilder, Error>)
    ensures
        r is Err ==> r->Err_0 is PushParse && r->Err_0->PushParse_0.code@ == code@,
        r is Ok ==> exists|x: Seq<TokenShape>| #[trigger] lexes(code@, x)
            && shapes_of(r->Ok_0.stream@) == attr_shapes(x, bang, delim),
{
    let mut builder = StreamBuilder::new();
    builder.punct('#');
    if bang {
        builder.punct('!');
    }
    let mut inner = StreamBuilder::new();
    inner.push_parsed(code)?;
    let ghost x = shapes_of(inner.stream@);
    assert(added(Seq::<TokenTree>::empty(), inner.stream@) =~= inner.stream@);
    builder.group_of(delim, inner);
    assert(shapes_of(builder.stream@) =~= attr_shapes(x, bang, delim));
    Ok(builder)
}

/// An attribute: `#`, a `!` for an inner one, and the tokens `x` in a group.
pub open spec fn attr_shapes(x: Seq<TokenShape>, bang: bool, delim: Delim) -> Seq<TokenShape> {
    seq![punct_shape('#')] + (if bang { seq![punct_shape('!')] } else { Seq::empty() })
        + seq![group_shape(delim, x)]
}

/// `after` is `before` with one more builder that holds the attribute `code`
/// as the lexer in use tokenized it.
pub open spec fn attr_pushed(before: Seq<StreamBuilder>, after: Seq<StreamBuilder>, code: Seq<char>, bang: bool, delim: Delim) -> bool {
    exists|x: Seq<TokenShape>| #[trigger] lexes(code, x) && flat(after) == flat(before) + attr_shapes(x, bang, delim)
}

/// An implementation block: `impl <generics> <name> <generics> <where> { ... }`.
pub struct Impl<'a, P: Parent> {
    pub parent: &'a mut P,
    pub outer_attr: Vec<StreamBuilder>,
    pub inner_attr: Vec<StreamBuilder>,
    pub name: Lexed,
    pub consts: Vec<StreamBuilder>,
    pub custom_generic_constraints: Option<GenericConstraints>,
    pub fns: Vec<StreamBuilder>,
}

impl<'a, P: Parent> Impl<'a, P> {
    /// Nothing has been added to this scope yet.
    pub open spec fn is_fresh(&self) -> bool {
        &&& self.outer_attr@.len() == 0
        &&& self.inner_attr@.len() == 0
        &&& self.consts@.len() == 0
        &&& self.custom_generic_constraints is None
        &&& self.fns@.len() == 0
    }

    /// What this block flushes into its parent.
    pub open spec fn composed(&self) -> Seq<TokenShape> {
        flat(self.outer_attr@) + seq![ident_shape("impl"@)] + opt_impl_generics(self.parent.target_generics())
            + piece(self.name) + opt_type_generics(self.parent.target_generics())
            + where_part(self.custom_generic_constraints, self.parent.target_constraints())
            + seq![group_shape(Delim::Brace, flat(self.inner_attr@) + flat(self.consts@) + flat(self.fns@))]
    }

    /// An `impl` block for the type of `parent`.
    pub fn with_parent_name(parent: &'a mut P) -> (r: Impl<'a, P>)
        ensures
            *r.parent == *old(parent),
            *final(parent) == *final(r.parent),
            r.is_fresh(),
            lexing_of(old(parent).target().text@, r.name),
    {
        let name = parent.name().text.clone();
        Impl::new(parent, name.as_str())
    }

    /// An `impl` block for the type named `name`.
    pub fn new(parent: &'a mut P, name: &str) -> (r: Impl<'a, P>)
        ensures
            *r.parent == *old(parent),
            *final(parent) == *final(r.parent),
            r.is_fresh(),
            lexing_of(name@, r.name),
    {
        Impl {
            parent,
            outer_attr: Vec::new(),
            inner_attr: Vec::new(),
            name: lex_text(name),
            consts: Vec::new(),
            custom_generic_constraints: None,
            fns: Vec::new(),
        }
    }

    /// Add `#[attr]` in front of the block.
    pub fn impl_outer_attr(&mut self, attr: &str) -> (r: Result<(), Error>)
        ensures
            r is Err ==> final(self).outer_attr@ == old(self).outer_attr@ && r->Err_0 is PushParse
                && r->Err_0->PushParse_0.code@ == attr@,
            r is Ok ==> attr_pushed(old(self).outer_attr@, final(self).outer_attr@, attr@, false, Delim::Bracket),
    {
        let b = attr_builder(attr, false, Delim::Bracket)?;
        proof { lemma_flat_push(self.outer_attr@, b); }
        self.outer_attr.push(b);
        Ok(())
    }

    /// Add `#![attr]` at the start of the block.
    pub fn impl_inner_attr(&mut self, attr: &str) -> (r: Result<(), Error>)
        ensures
            r is Err ==> final(self).inner_attr@ == old(self).inner_attr@ && r->Err_0 is PushParse
                && r->Err_0->PushParse_0.code@ == attr@,
            r is Ok ==> attr_pushed(old(self).inner_attr@, final(self).inner_attr@, attr@, true, Delim::Bracket),
    {
        let b = attr_builder(attr, true, Delim::Bracket)?;
        proof { lemma_flat_push(self.inner_attr@, b); }
        self.inner_attr.push(b);
        Ok(())
    }

    /// Open a function scope inside the block.
    pub fn generate_fn(&mut self, name: &str) -> (r: FnBuilder<'_, Impl<'a, P>>)
        ensures
            *r.parent == *old(self),
            *final(self) == *final(r.parent),
            r.is_fresh(),
            r.name@ == name@,
    {
        FnBuilder::new(self, name)
    }

    /// Open a constant scope inside the block.
    pub fn generate_const(&mut self, name: &str, ty: &str) -> (r: GenConst<'_>)
        ensures
            *r.consts == old(self).consts,
            final(self).consts == *final(r.consts),
            r.is_fresh(),
            lexing_of(name@, r.name),
            lexing_of(ty@, r.ty),
    {
        GenConst::new(&mut self.consts, name, ty)
    }

    /// Let `cb` change the where-clause of this block, starting from the type's
    /// own. Where the type has no generic parameters, `cb` is not called.
    pub fn modify_generic_constraints<CB: FnOnce(&Generics, &mut GenericConstraints) -> Result<(), Error>>(
        &mut self,
        cb: CB,
    ) -> (r: Result<(), Error>)
        requires
            forall|g: &Generics, c: &mut GenericConstraints| cb.requires((g, c)),
        ensures
            old(self).parent.target_generics() is None ==> r is Ok
                && final(self).custom_generic_constraints == old(self).custom_generic_constraints,
            old(self).parent.target_generics() is Some ==> final(self).custom_generic_constraints is Some,
            final(self).fns == old(self).fns,
            final(self).consts == old(self).consts,
            final(self).outer_attr == old(self).outer_attr,
            final(self).inner_attr == old(self).inner_attr,
    {
        match self.parent.generics() {
            Some(generics) => {
                let mut constraints = match self.custom_generic_constraints.take() {
                    Some(c) => c,
                    None => match self.parent.generic_constraints() {
                        Some(c) => c.duplicate(),
                        None => GenericConstraints::new(),
                    },
                };
                let res = cb(generics, &mut constraints);
                self.custom_generic_constraints = Some(constraints);
                res
            },
            None => Ok(()),
        }
    }

    /// Compose the block and flush it into the parent. Where the name did not
    /// tokenize, the parent is left as it was and the error carries the name.
    pub fn close(self) -> (r: Result<(), Error>)
        ensures
            r is Ok <==> self.name is Ok,
            r is Err ==> r == Err::<(), Error>(Error::PushParse(self.name->Err_0)),
            r is Ok ==> (*final(self.parent)).emitted() == (*old(self.parent)).emitted() + self.composed(),
            r is Err ==> *final(self.parent) == *old(self.parent),
    {
        let ghost composed = self.composed();
        let Impl { parent, outer_attr, inner_attr, name, consts, custom_generic_constraints, fns } = self;
        let mut builder = StreamBuilder::new();
        append_all(&mut builder, outer_attr);
        builder.ident_str("impl");
        match parent.generics() {
            Some(g) => builder.append(g.impl_generics()),
            None => {},
        }
        builder.append_lexed(name)?;
        match parent.generics() {
            Some(g) => builder.append(g.type_generics()),
            None => {},
        }
        match custom_generic_constraints {
            Some(c) => builder.append(c.where_clause()),
            None => match parent.generic_constraints() {
                Some(c) => builder.append(c.where_clause()),
                None => {},
            },
        }
        let mut inner = StreamBuilder::new();
        append_all(&mut inner, inner_attr);
        append_all(&mut inner, consts);
        append_all(&mut inner, fns);
        builder.group_of(Delim::Brace, inner);
        assert(shapes_of(builder.stream@) =~= composed);
        parent.append(builder);
        Ok(())
    }
}

impl<'a, P: Parent> FnParent for Impl<'a, P> {
    open spec fn fn_shapes(&self) -> Seq<TokenShape> {
        flat(self.fns@)
    }

    fn append_fn(&mut self, fn_definition: StreamBuilder, fn_body: StreamBuilder) -> (r: Result<(), Error>) {
        let mut b = fn_definition;
        b.group_of(Delim::Brace, fn_body);
        proof { lemma_flat_push(self.fns@, b); }
        self.fns.push(b);
        Ok(())
    }
}

/// A trait implementation, or an implementation for another type:
/// `impl <generics> <trait> for <type> <generics> <where> { ... }`.
pub struct ImplFor<'a, P: Parent> {
    pub parent: &'a mut P,
    pub outer_attr: Vec<StreamBuilder>,
    pub inner_attr: Vec<StreamBuilder>,
    pub for_type: Lexed,
    pub trait_name: Option<Lexed>,
    pub lifetimes: Option<Vec<String>>,
    pub consts: Vec<StreamBuilder>,
    pub custom_generic_constraints: Option<GenericConstraints>,
    pub impl_types: Vec<StreamBuilder>,
    pub fns: Vec<StreamBuilder>,
}

impl<'a, P: Parent> ImplFor<'a, P> {
    /// Nothing has been added to this scope yet.
    pub open spec fn is_fresh(&self) -> bool {
        &&& self.outer_attr@.len() == 0
        &&& self.inner_attr@.len() == 0
        &&& self.consts@.len() == 0
        &&& self.custom_generic_constraints is None
        &&& self.impl_types@.len() == 0
        &&& self.fns@.len() == 0
    }

    /// The parameters after `impl`: the new lifetimes first, then the type's own.
    pub open spec fn impl_params(&self) -> Seq<TokenShape> {
        match self.lifetimes {
            Some(l) => match self.parent.target_generics() {
                Some(gs) => angled(lifetime_items(l@) + decl_items(gs)),
                None => angled(lifetime_items(l@)),
            },
            None => opt_impl_generics(self.parent.target_generics()),
        }
    }

    /// The trait part: `<trait><lifetimes> for`, or nothing.
    pub open spec fn trait_part(&self) -> Seq<TokenShape> {
        match self.trait_name {
            Some(t) => piece(t) + match self.lifetimes {
                Some(l) => angled(lifetime_items(l@)),
                None => Seq::empty(),
            } + seq![ident_shape("for"@)],
            None => Seq::empty(),
        }
    }

    /// Whether the names this block is written with tokenized.
    pub open spec fn names_lex(&self) -> bool {
        &&& self.for_type is Ok
        &&& (self.trait_name matches Some(t) ==> t is Ok)
    }

    /// What this block flushes into its parent.
    pub open spec fn composed(&self) -> Seq<TokenShape> {
        flat(self.outer_attr@) + seq![ident_shape("impl"@)] + self.impl_params() + self.trait_part()
            + piece(self.for_type) + opt_type_generics(self.parent.target_generics())
            + where_part(self.custom_generic_constraints, self.parent.target_constraints())
            + seq![group_shape(
                Delim::Brace,
                flat(self.inner_attr@) + flat(self.impl_types@) + flat(self.consts@) + flat(self.fns@),
            )]
    }

    /// A block implementing `trait_name` (or nothing) for `for_type`.
    pub fn new(parent: &'a mut P, for_type: StringOrIdent, trait_name: Option<StringOrIdent>) -> (r: ImplFor<'a, P>)
        ensures
            *r.parent == *old(parent),
            *final(parent) == *final(r.parent),
            r.is_fresh(),
            name_lexing(for_type, r.for_type),
            r.trait_name is Some <==> trait_name is Some,
            trait_name is Some ==> name_lexing(trait_name->0, r.trait_name->0),
            r.lifetimes is None,
    {
        let for_type = for_type.lex();
        let trait_name = match trait_name {
            Some(t) => Some(t.lex()),
            None => None,
        };
        ImplFor {
            parent,
            outer_attr: Vec::new(),
            inner_attr: Vec::new(),
            for_type,
            trait_name,
            lifetimes: None,
            consts: Vec::new(),
            custom_generic_constraints: None,
            impl_types: Vec::new(),
            fns: Vec::new(),
        }
    }

    /// Add `#[attr]` in front of the block.
    pub fn impl_outer_attr(&mut self, attr: &str) -> (r: Result<(), Error>)
        ensures
            r is Err ==> final(self).outer_attr@ == old(self).outer_attr@ && r->Err_0 is PushParse
                && r->Err_0->PushParse_0.code@ == attr@,
            r is Ok ==> attr_pushed(old(self).outer_attr@, final(self).outer_attr@, attr@, false, Delim::Bracket),
    {
        let b = attr_builder(attr, false, Delim::Bracket)?;
        proof { lemma_flat_push(self.outer_attr@, b); }
        self.outer_attr.push(b);
        Ok(())
    }

    /// Add `#![attr]` at the start of the block.
    pub fn impl_inner_attr(&mut self, attr: &str) -> (r: Result<(), Error>)
        ensures
            r is Err ==> final(self).inner_attr@ == old(self).inner_attr@ && r->Err_0 is PushParse
                && r->Err_0->PushParse_0.code@ == attr@,
            r is Ok ==> attr_pushed(old(self).inner_attr@, final(self).inner_attr@, attr@, true, Delim::Bracket),
    {
        let b = attr_builder(attr, true, Delim::Bracket)?;
        proof { lemma_flat_push(self.inner_attr@, b); }
        self.inner_attr.push(b);
        Ok(())
    }

    /// Open a constant scope inside the block.
    pub fn generate_const(&mut self, name: &str, ty: &str) -> (r: GenConst<'_>)
        ensures
            *r.consts == old(self).consts,
            final(self).consts == *final(r.consts),
            r.is_fresh(),
            lexing_of(name@, r.name),
            lexing_of(ty@, r.ty),
    {
        GenConst::new(&mut self.consts, name, ty)
    }

    /// Open a function scope inside the block.
    pub fn generate_fn(&mut self, name: &str) -> (r: FnBuilder<'_, ImplFor<'a, P>>)
        ensures
            *r.parent == *old(self),
            *final(self) == *final(r.parent),
            r.is_fresh(),
            r.name@ == name@,
    {
        FnBuilder::new(self, name)
    }

    /// Add `type <name> = <value>;` to the block. Where either does not
    /// tokenize, nothing is added and the error carries that text.
    pub fn impl_type(&mut self, name: &str, value: &str) -> (r: Result<(), Error>)
        ensures
            r is Err ==> final(self).impl_types@ == old(self).impl_types@ && r->Err_0 is PushParse
                && (r->Err_0->PushParse_0.code@ == name@ || r->Err_0->PushParse_0.code@ == value@),
            r is Ok ==> exists|x: Seq<TokenShape>, y: Seq<TokenShape>|
                #![trigger lexes(name@, x), lexes(value@, y)]
                lexes(name@, x) && lexes(value@, y) && flat(final(self).impl_types@) == flat(old(self).impl_types@)
                + (seq![ident_shape("type"@)] + x + seq![punct_shape('=')] + y + seq![punct_shape(';')]),
    {
        let mut builder = StreamBuilder::new();
        builder.ident_str("type");
        let ghost b1 = builder.stream@;
        builder.push_parsed(name)?;
        let ghost x = shapes_of(added(b1, builder.stream@));
        builder.punct('=');
        let ghost b2 = builder.stream@;
        builder.push_parsed(value)?;
        let ghost y = shapes_of(added(b2, builder.stream@));
        builder.punct(';');
        assert(shapes_of(builder.stream@) =~= seq![ident_shape("type"@)] + x + seq![punct_shape('=')]
            + y + seq![punct_shape(';')]);
        proof { lemma_flat_push(self.impl_types@, builder); }
        self.impl_types.push(builder);
        Ok(())
    }

    /// Let `cb` change the where-clause of this block, starting from the type's
    /// own. Where the type has no generic parameters, `cb` is not called.
    pub fn modify_generic_constraints<CB: FnOnce(&Generics, &mut GenericConstraints) -> Result<(), Error>>(
        &mut self,
        cb: CB,
    ) -> (r: Result<(), Error>)
        requires
            forall|g: &Generics, c: &mut GenericConstraints| cb.requires((g, c)),
        ensures
            old(self).parent.target_generics() is None ==> r is Ok
                && final(self).custom_generic_constraints == old(self).custom_generic_constraints,
            old(self).parent.target_generics() is Some ==> final(self).custom_generic_constraints is Some,
            final(self).fns == old(self).fns,
            final(self).consts == old(self).consts,
            final(self).outer_attr == old(self).outer_attr,
            final(self).inner_attr == old(self).inner_attr,
    {
        match self.parent.generics() {
            Some(generics) => {
                let mut constraints = match self.custom_generic_constraints.take() {
                    Some(c) => c,
                    None => match self.parent.generic_constraints() {
                        Some(c) => c.duplicate(),
                        None => GenericConstraints::new(),
                    },
                };
                let res = cb(generics, &mut constraints);
                self.custom_generic_constraints = Some(constraints);
                res
            },
            None => Ok(()),
        }
    }

    /// Compose the block and flush it into the parent. Where a name does not
    /// tokenize, the parent is left as it was.
    pub fn close(self) -> (r: Result<(), Error>)
        ensures
            r is Ok <==> self.names_lex(),
            r is Ok ==> (*final(self.parent)).emitted() == (*old(self.parent)).emitted() + self.composed(),
            r is Err ==> *final(self.parent) == *old(self.parent),
    {
        let ghost composed = self.composed();
        let ghost params = self.impl_params();
        let ghost trait_part = self.trait_part();
        let ImplFor {
            parent,
            outer_attr,
            inner_attr,
            for_type,
            trait_name,
            lifetimes,
            consts,
            custom_generic_constraints,
            impl_types,
            fns,
        } = self;
        let mut builder = StreamBuilder::new();
        append_all(&mut builder, outer_attr);
        builder.ident_str("impl");
        let ghost s1 = shapes_of(builder.stream@);
        match &lifetimes {
            Some(l) => match parent.generics() {
                Some(g) => builder.append(g.impl_generics_with_additional_lifetimes(l)),
                None => append_lifetimes(&mut builder, l),
            },
            None => match parent.generics() {
                Some(g) => builder.append(g.impl_generics()),
                None => {},
            },
        }
        assert(shapes_of(builder.stream@) =~= s1 + params);
        let ghost s2 = shapes_of(builder.stream@);
        match trait_name {
            Some(t) => {
                builder.append_lexed(t)?;
                match &lifetimes {
                    Some(l) => append_lifetimes(&mut builder, l),
                    None => {},
                }
                builder.ident_str("for");
            },
            None => {},
        }
        assert(shapes_of(builder.stream@) =~= s2 + trait_part);
        builder.append_lexed(for_type)?;
        match parent.generics() {
            Some(g) => builder.append(g.type_generics()),
            None => {},
        }
        match custom_generic_constraints {
            Some(c) => builder.append(c.where_clause()),
            None => match parent.generic_constraints() {
                Some(c) => builder.append(c.where_clause()),
                None => {},
            },
        }
        let mut inner = StreamBuilder::new();
        append_all(&mut inner, inner_attr);
        append_all(&mut inner, impl_types);
        append_all(&mut inner, consts);
        append_all(&mut inner, fns);
        builder.group_of(Delim::Brace, inner);
        assert(shapes_of(builder.stream@) =~= composed);
        parent.append(builder);
        Ok(())
    }
}

impl<'a, P: Parent> FnParent for ImplFor<'a, P> {
    open spec fn fn_shapes(&self) -> Seq<TokenShape> {
        flat(self.fns@)
    }

    fn append_fn(&mut self, fn_definition: StreamBuilder, fn_body: StreamBuilder) -> (r: Result<(), Error>) {
        let mut b = fn_definition;
        b.group_of(Delim::Brace, fn_body);
        proof { lemma_flat_push(self.fns@, b); }
        self.fns.push(b);
        Ok(())
    }
}

/// A constant: `const <name>: <ty> = <value>;`. Its texts are tokenized when
/// they are given.
pub struct GenConst<'a> {
    pub consts: &'a mut Vec<StreamBuilder>,
    pub attrs: Vec<Lexed>,
    pub name: Lexed,
    pub ty: Lexed,
    pub vis: Visibility,
}

/// Whether every one of `items` tokenized.
pub open spec fn all_lex(items: Seq<Lexed>) -> bool {
    forall|i: int| 0 <= i < items.len() ==> #[trigger] items[i] is Ok
}

/// The attributes holding the tokens of `attrs`.
pub open spec fn attrs_shapes(attrs: Seq<Lexed>, bang: bool) -> Seq<TokenShape>
    decreases attrs.len(),
{
    if attrs.len() == 0 {
        Seq::empty()
    } else {
        attrs_shapes(attrs.drop_last(), bang) + attr_shapes(piece(attrs.last()), bang, Delim::Bracket)
    }
}

/// Append one attribute per tokenized text of `attrs`. Where one did not
/// tokenize, its error is returned.
pub(crate) fn append_attrs(builder: &mut StreamBuilder, attrs: Vec<Lexed>, bang: bool) -> (r: Result<(), Error>)
    ensures
        r is Ok <==> all_lex(attrs@),
        r is Ok ==> shapes_of(final(builder).stream@) == shapes_of(old(builder).stream@) + attrs_shapes(attrs@, bang),
        r is Err ==> r->Err_0 is PushParse,
{
    let ghost s0 = shapes_of(builder.stream@);
    let ghost orig = attrs@;
    let ghost mut k: int = 0;
    let mut pending = attrs;
    assert(orig.subrange(0, 0) =~= Seq::<Lexed>::empty());
    assert(orig.subrange(0, orig.len() as int) =~= orig);
    assert(s0 + attrs_shapes(Seq::<Lexed>::empty(), bang) =~= s0);
    while pending.len() > 0
        invariant
            orig == attrs@,
            0 <= k <= orig.len(),
            pending@ == orig.subrange(k, orig.len() as int),
            all_lex(orig.subrange(0, k)),
            shapes_of(builder.stream@) == s0 + attrs_shapes(orig.subrange(0, k), bang),
        decreases pending@.len(),
    {
        let a = pending.remove(0);
        assert(a == orig[k]);
        builder.punct('#');
        if bang {
            builder.punct('!');
        }
        let mut inner = StreamBuilder::new();
        match inner.append_lexed(a) {
            Ok(()) => {},
            Err(e) => {
                assert(!all_lex(orig));
                return Err(e);
            },
        }
        builder.group_of(Delim::Bracket, inner);
        proof {
            assert(orig.subrange(0, k + 1).drop_last() =~= orig.subrange(0, k));
            assert(shapes_of(Seq::<TokenTree>::empty()) =~= Seq::<TokenShape>::empty());
            k = k + 1;
            assert(all_lex(orig.subrange(0, k))) by {
                assert forall|j: int| 0 <= j < k implies #[trigger] orig.subrange(0, k)[j] is Ok by {
                    if j < k - 1 {
                        assert(orig.subrange(0, k)[j] == orig.subrange(0, k - 1)[j]);
                    }
                }
            }
        }
        assert(pending@ =~= orig.subrange(k, orig.len() as int));
        assert(shapes_of(builder.stream@) =~= s0 + attrs_shapes(orig.subrange(0, k), bang));
    }
    assert(orig.subrange(0, k) =~= orig);
    Ok(())
}

impl<'a> GenConst<'a> {
    /// Nothing has been set on this constant yet.
    pub open spec fn is_fresh(&self) -> bool {
        self.attrs@.len() == 0 && self.vis == Visibility::Default
    }

    /// What comes before the value: attributes, visibility, `const <name>: <ty> =`.
    pub open spec fn head(&self) -> Seq<TokenShape> {
        attrs_shapes(self.attrs@, false) + keyword_if(self.vis == Visibility::Pub, "pub"@)
            + seq![ident_shape("const"@)] + piece(self.name) + seq![punct_shape(':')] + piece(self.ty)
            + seq![punct_shape('=')]
    }

    /// Whether the texts this constant is written with tokenized.
    pub open spec fn texts_lex(&self) -> bool {
        all_lex(self.attrs@) && self.name is Ok && self.ty is Ok
    }

    /// A constant to be added to `consts`.
    pub fn new(consts: &'a mut Vec<StreamBuilder>, name: &str, ty: &str) -> (r: GenConst<'a>)
        ensures
            *r.consts == *old(consts),
            *final(consts) == *final(r.consts),
            r.is_fresh(),
            lexing_of(name@, r.name),
            lexing_of(ty@, r.ty),
    {
        GenConst { consts, attrs: Vec::new(), name: lex_text(name), ty: lex_text(ty), vis: Visibility::Default }
    }

    /// Make the constant `pub`.
    pub fn make_pub(self) -> (r: GenConst<'a>)
        ensures
            r.vis == Visibility::Pub,
            r.attrs == self.attrs,
            r.name == self.name,
            r.ty == self.ty,
            *r.consts == *old(self.consts),
            *final(r.consts) == *final(self.consts),
    {
        let mut this = self;
        this.vis = Visibility::Pub;
        this
    }

    /// Add an attribute.
    pub fn with_attr(self, attr: &str) -> (r: GenConst<'a>)
        ensures
            r.attrs@.len() == self.attrs@.len() + 1,
            r.attrs@.drop_last() == self.attrs@,
            lexing_of(attr@, r.attrs@.last()),
            r.vis == self.vis,
            r.name == self.name,
            r.ty == self.ty,
            *r.consts == *old(self.consts),
            *final(r.consts) == *final(self.consts),
    {
        let mut this = self;
        this.attrs.push(lex_text(attr));
        this
    }

    /// Complete the constant with the value that `f` builds from a fresh builder,
    /// and add it. Where a text did not tokenize or `f` fails, nothing is added;
    /// a failure of `f` is returned as it is.
    pub fn with_value<F: FnOnce(StreamBuilder) -> Result<StreamBuilder, Error>>(self, f: F) -> (r: Result<(), Error>)
        requires
            forall|b: StreamBuilder| f.requires((b,)),
        ensures
            !self.texts_lex() ==> r is Err && r->Err_0 is PushParse,
            r is Err ==> *final(self.consts) == *old(self.consts),
            self.texts_lex() && r is Err ==> exists|b: StreamBuilder| b.stream@.len() == 0
                && #[trigger] f.ensures((b,), Err::<StreamBuilder, Error>(r->Err_0)),
            r is Ok ==> self.texts_lex() && exists|b: StreamBuilder, v: StreamBuilder|
                #![trigger f.ensures((b,), Ok::<StreamBuilder, Error>(v))]
                b.stream@.len() == 0 && f.ensures((b,), Ok::<StreamBuilder, Error>(v))
                && final(self.consts)@ == old(self.consts)@.push(final(self.consts)@.last())
                && shapes_of(final(self.consts)@.last().stream@) == self.head() + shapes_of(v.stream@)
                    + seq![punct_shape(';')],
    {
        let ghost head = self.head();
        let ghost lex_ok = self.texts_lex();
        let GenConst { consts, attrs, name, ty, vis } = self;
        let mut builder = StreamBuilder::new();
        append_attrs(&mut builder, attrs, false)?;
        if vis == Visibility::Pub {
            builder.ident_str("pub");
        }
        builder.ident_str("const");
        builder.append_lexed(name)?;
        builder.punct(':');
        builder.append_lexed(ty)?;
        builder.punct('=');
        assert(shapes_of(builder.stream@) =~= head);
        let fresh = StreamBuilder::new();
        let ghost b0 = fresh;
        let value = match f(fresh) {
            Ok(v) => v,
            Err(e) => {
                return Err(e);
            },
        };
        let ghost v = value;
        builder.append(value);
        builder.punct(';');
        assert(shapes_of(builder.stream@) == head + shapes_of(v.stream@) + seq![punct_shape(';')]);
        consts.push(builder);
        Ok(())
    }
}

/// A field of a generated struct or enum variant. Its type is tokenized when
/// the field is added.
pub struct StructField {
    pub name: String,
    pub vis: Visibility,
    pub ty: Lexed,
}

/// How the fields of a generated struct or variant are written.
#[derive(Clone, Copy, Debug, PartialEq, Eq, Structural)]
pub enum StructType {
    /// `{ name: ty, ... }`
    Named,
    /// `(ty, ...)`
    Unnamed,
    /// No fields at all
    Zst,
}

/// Whether the types of `fields` tokenized.
pub open spec fn types_lex(fields: Seq<StructField>) -> bool {
    forall|i: int| 0 <= i < fields.len() ==> #[trigger] fields[i].ty is Ok
}

/// Named fields: `pub? name: ty,` each.
pub open spec fn named_fields_shapes(fields: Seq<StructField>) -> Seq<TokenShape>
    decreases fields.len(),
{
    if fields.len() == 0 {
        Seq::empty()
    } else {
        let f = fields.last();
        named_fields_shapes(fields.drop_last()) + keyword_if(f.vis == Visibility::Pub, "pub"@)
            + seq![ident_shape(f.name@), punct_shape(':')] + piece(f.ty) + seq![punct_shape(',')]
    }
}

/// Unnamed fields: `pub? ty,` each.
pub open spec fn tuple_fields_shapes(fields: Seq<StructField>) -> Seq<TokenShape>
    decreases fields.len(),
{
    if fields.len() == 0 {
        Seq::empty()
    } else {
        let f = fields.last();
        tuple_fields_shapes(fields.drop_last()) + keyword_if(f.vis == Visibility::Pub, "pub"@) + piece(f.ty)
            + seq![punct_shape(',')]
    }
}

/// The fields group (and `;`) that follows a struct's or variant's name.
pub open spec fn fields_part(fields: Seq<StructField>, st: StructType, is_struct: bool) -> Seq<TokenShape> {
    match st {
        StructType::Named => seq![group_shape(Delim::Brace, named_fields_shapes(fields))],
        StructType::Unnamed => seq![group_shape(Delim::Parenthesis, tuple_fields_shapes(fields))]
            + (if is_struct { seq![punct_shape(';')] } else { Seq::empty() }),
        StructType::Zst => if is_struct { seq![punct_shape(';')] } else { Seq::empty() },
    }
}

/// Append the fields, named or not. Where a type did not tokenize, its error is returned.
fn append_fields(builder: &mut StreamBuilder, fields: Vec<StructField>, named: bool) -> (r: Result<(), Error>)
    ensures
        r is Ok <==> types_lex(fields@),
        r is Ok ==> shapes_of(final(builder).stream@) == shapes_of(old(builder).stream@)
            + (if named { named_fields_shapes(fields@) } else { tuple_fields_shapes(fields@) }),
{
    let ghost s0 = shapes_of(builder.stream@);
    let ghost orig = fields@;
    let ghost mut k: int = 0;
    let mut pending = fields;
    assert(orig.subrange(0, 0) =~= Seq::<StructField>::empty());
    assert(orig.subrange(0, orig.len() as int) =~= orig);
    assert(s0 + named_fields_shapes(Seq::<StructField>::empty()) =~= s0);
    assert(s0 + tuple_fields_shapes(Seq::<StructField>::empty()) =~= s0);
    while pending.len() > 0
        invariant
            orig == fields@,
            0 <= k <= orig.len(),
            pending@ == orig.subrange(k, orig.len() as int),
            types_lex(orig.subrange(0, k)),
            shapes_of(builder.stream@) == s0 + (if named {
                named_fields_shapes(orig.subrange(0, k))
            } else {
                tuple_fields_shapes(orig.subrange(0, k))
            }),
        decreases pending@.len(),
    {
        let f = pending.remove(0);
        assert(f == orig[k]);
        let ghost before = shapes_of(builder.stream@);
        if f.vis == Visibility::Pub {
            builder.ident_str("pub");
        } else {
            assert(before + keyword_if(false, "pub"@) =~= before);
        }
        if named {
            builder.ident_str(f.name.as_str());
            builder.punct(':');
        }
        match builder.append_lexed(f.ty) {
            Ok(()) => {},
            Err(e) => {
                assert(!types_lex(orig));
                return Err(e);
            },
        }
        builder.punct(',');
        proof {
            assert(orig.subrange(0, k + 1).drop_last() =~= orig.subrange(0, k));
            k = k + 1;
            assert(types_lex(orig.subrange(0, k))) by {
                assert forall|j: int| 0 <= j < k implies #[trigger] orig.subrange(0, k)[j].ty is Ok by {
                    if j < k - 1 {
                        assert(orig.subrange(0, k)[j] == orig.subrange(0, k - 1)[j]);
                    }
                }
            }
        }
        assert(pending@ =~= orig.subrange(k, orig.len() as int));
        assert(shapes_of(builder.stream@) =~= s0 + (if named {
            named_fields_shapes(orig.subrange(0, k))
        } else {
            tuple_fields_shapes(orig.subrange(0, k))
        }));
    }
    assert(orig.subrange(0, k) =~= orig);
    Ok(())
}

/// Append a fields group (and `;` for a struct) as `st` asks.
fn append_fields_part(builder: &mut StreamBuilder, fields: Vec<StructField>, st: StructType, is_struct: bool) -> (r: Result<(), Error>)
    ensures
        r is Ok <==> (st == StructType::Zst || types_lex(fields@)),
        r is Ok ==> shapes_of(final(builder).stream@) == shapes_of(old(builder).stream@) + fields_part(fields@, st, is_struct),
{
    let ghost fs = fields@;
    match st {
        StructType::Named => {
            let mut inner = StreamBuilder::new();
            append_fields(&mut inner, fields, true)?;
            builder.group_of(Delim::Brace, inner);
        },
        StructType::Unnamed => {
            let mut inner = StreamBuilder::new();
            append_fields(&mut inner, fields, false)?;
            builder.group_of(Delim::Parenthesis, inner);
            if is_struct {
                builder.punct(';');
            }
        },
        StructType::Zst => {
            if is_struct {
                builder.punct(';');
            }
        },
    }
    assert(shapes_of(builder.stream@) =~= shapes_of(old(builder).stream@) + fields_part(fs, st, is_struct));
    Ok(())
}

/// A struct definition. Implementations opened on it follow the definition.
pub struct GenStruct<'a, P: Parent> {
    pub parent: &'a mut P,
    pub name: Ident,
    pub visibility: Visibility,
    pub fields: Vec<StructField>,
    pub additional: StreamBuilder,
    pub struct_type: StructType,
}

impl<'a, P: Parent> GenStruct<'a, P> {
    /// Nothing has been set on this struct yet.
    pub open spec fn is_fresh(&self) -> bool {
        &&& self.visibility == Visibility::Default
        &&& self.fields@.len() == 0
        &&& self.additional.stream@.len() == 0
        &&& self.struct_type == StructType::Named
    }

    /// What this struct flushes into its parent.
    pub open spec fn composed(&self) -> Seq<TokenShape> {
        keyword_if(self.visibility == Visibility::Pub, "pub"@) + seq![ident_shape("struct"@), ident_shape(self.name.text@)]
            + fields_part(self.fields@, self.struct_type, true) + shapes_of(self.additional.stream@)
    }

    /// A struct named `name`, with named fields, to be flushed into `parent`.
    pub fn new(parent: &'a mut P, name: &str) -> (r: GenStruct<'a, P>)
        ensures
            *r.parent == *old(parent),
            *final(parent) == *final(r.parent),
            r.is_fresh(),
            r.name.text@ == name@,
    {
        GenStruct {
            parent,
            name: Ident::new(name, Span::call_site()),
            visibility: Visibility::Default,
            fields: Vec::new(),
            additional: StreamBuilder::new(),
            struct_type: StructType::Named,
        }
    }

    /// Make the struct fieldless: `struct Foo;`. Fields added are left out.
    pub fn make_zst(&mut self)
        ensures
            final(self).struct_type == StructType::Zst,
            final(self).fields == old(self).fields,
            final(self).visibility == old(self).visibility,
    {
        self.struct_type = StructType::Zst;
    }

    /// Make the fields unnamed: `struct Foo(u16, String);`. Field names are left out.
    pub fn make_tuple(&mut self)
        ensures
            final(self).struct_type == StructType::Unnamed,
            final(self).fields == old(self).fields,
            final(self).visibility == old(self).visibility,
    {
        self.struct_type = StructType::Unnamed;
    }

    /// Make the struct `pub`.
    pub fn make_pub(&mut self)
        ensures
            final(self).visibility == Visibility::Pub,
            final(self).fields == old(self).fields,
            final(self).struct_type == old(self).struct_type,
    {
        self.visibility = Visibility::Pub;
    }

    /// Add a private field.
    pub fn add_field(&mut self, name: &str, ty: &str)
        ensures
            final(self).fields@.len() == old(self).fields@.len() + 1,
            final(self).fields@.drop_last() == old(self).fields@,
            final(self).fields@.last().name@ == name@,
            lexing_of(ty@, final(self).fields@.last().ty),
            final(self).fields@.last().vis == Visibility::Default,
            final(self).visibility == old(self).visibility,
            final(self).struct_type == old(self).struct_type,
    {
        self.fields.push(StructField { name: name.to_string(), vis: Visibility::Default, ty: lex_text(ty) });
    }

    /// Add a public field.
    pub fn add_pub_field(&mut self, name: &str, ty: &str)
        ensures
            final(self).fields@.len() == old(self).fields@.len() + 1,
            final(self).fields@.drop_last() == old(self).fields@,
            final(self).fields@.last().name@ == name@,
            lexing_of(ty@, final(self).fields@.last().ty),
            final(self).fields@.last().vis == Visibility::Pub,
            final(self).visibility == old(self).visibility,
            final(self).struct_type == old(self).struct_type,
    {
        self.fields.push(StructField { name: name.to_string(), vis: Visibility::Pub, ty: lex_text(ty) });
    }

    /// Open `impl <trait_name> for <this struct>`.
    pub fn impl_for(&mut self, trait_name: StringOrIdent) -> (r: ImplFor<'_, GenStruct<'a, P>>)
        ensures
            *r.parent == *old(self),
            *final(self) == *final(r.parent),
            r.is_fresh(),
            r.trait_name is Some && name_lexing(trait_name, r.trait_name->0),
            name_lexing(StringOrIdent::Ident(old(self).name), r.for_type),
    {
        let for_type = StringOrIdent::Ident(self.name.duplicate());
        ImplFor::new(self, for_type, Some(trait_name))
    }

    /// Open `impl <this struct>`.
    pub fn generate_impl(&mut self) -> (r: Impl<'_, GenStruct<'a, P>>)
        ensures
            *r.parent == *old(self),
            *final(self) == *final(r.parent),
            r.is_fresh(),
            lexing_of(old(self).name.text@, r.name),
    {
        Impl::with_parent_name(self)
    }

    /// Compose the struct, followed by what was opened on it, and flush it into
    /// the parent. Where a field type did not tokenize, the parent is left as it was.
    pub fn close(self) -> (r: Result<(), Error>)
        ensures
            r is Ok <==> (self.struct_type == StructType::Zst || types_lex(self.fields@)),
            r is Ok ==> (*final(self.parent)).emitted() == (*old(self.parent)).emitted() + self.composed(),
            r is Err ==> *final(self.parent) == *old(self.parent),
    {
        let ghost composed = self.composed();
        let GenStruct { parent, name, visibility, fields, additional, struct_type } = self;
        let mut builder = StreamBuilder::new();
        if visibility == Visibility::Pub {
            builder.ident_str("pub");
        }
        builder.ident_str("struct");
        builder.ident(name);
        append_fields_part(&mut builder, fields, struct_type, true)?;
        builder.append(additional);
        assert(shapes_of(builder.stream@) =~= composed);
        parent.append(builder);
        Ok(())
    }
}

impl<'a, P: Parent> Parent for GenStruct<'a, P> {
    open spec fn emitted(&self) -> Seq<TokenShape> {
        shapes_of(self.additional.stream@)
    }

    open spec fn target(&self) -> Ident {
        self.name
    }

    open spec fn target_generics(&self) -> Option<Seq<GenericView>> {
        None
    }

    open spec fn target_constraints(&self) -> Option<Seq<TokenTree>> {
        None
    }

    fn append(&mut self, builder: StreamBuilder) {
        self.additional.append(builder);
    }

    fn name(&self) -> (r: &Ident) {
        &self.name
    }

    fn generics(&self) -> (r: Option<&Generics>) {
        None
    }

    fn generic_constraints(&self) -> (r: Option<&GenericConstraints>) {
        None
    }
}

/// A variant of a generated enum.
pub struct EnumValue {
    pub name: Ident,
    pub fields: Vec<StructField>,
    pub value_type: StructType,
}

/// A variant: its name, its fields group, and `,`.
pub open spec fn value_shapes(v: EnumValue) -> Seq<TokenShape> {
    seq![ident_shape(v.name.text@)] + fields_part(v.fields@, v.value_type, false) + seq![punct_shape(',')]
}

/// Whether a variant can be written: fieldless, or with types that tokenized.
pub open spec fn value_lexes(v: EnumValue) -> bool {
    v.value_type == StructType::Zst || types_lex(v.fields@)
}

/// The variants, one after another.
pub open spec fn values_shapes(vs: Seq<EnumValue>) -> Seq<TokenShape>
    decreases vs.len(),
{
    if vs.len() == 0 {
        Seq::empty()
    } else {
        values_shapes(vs.drop_last()) + value_shapes(vs.last())
    }
}

/// Append the variants, each with its fields and a `,`. Where a field type
/// did not tokenize, its error is returned.
fn append_values(inner: &mut StreamBuilder, values: Vec<EnumValue>) -> (r: Result<(), Error>)
    ensures
        r is Ok <==> forall|i: int| 0 <= i < values@.len() ==> #[trigger] value_lexes(values@[i]),
        r is Ok ==> shapes_of(final(inner).stream@) == shapes_of(old(inner).stream@) + values_shapes(values@),
{
    let ghost s0 = shapes_of(inner.stream@);
    let ghost orig = values@;
    let ghost mut k: int = 0;
    let mut pending = values;
    assert(orig.subrange(0, 0) =~= Seq::<EnumValue>::empty());
    assert(orig.subrange(0, orig.len() as int) =~= orig);
    assert(s0 + values_shapes(Seq::<EnumValue>::empty()) =~= s0);
    while pending.len() > 0
        invariant
            orig == values@,
            0 <= k <= orig.len(),
            pending@ == orig.subrange(k, orig.len() as int),
            forall|j: int| 0 <= j < k ==> #[trigger] value_lexes(orig[j]),
            shapes_of(inner.stream@) == s0 + values_shapes(orig.subrange(0, k)),
        decreases pending@.len(),
    {
        let v = pending.remove(0);
        assert(v == orig[k]);
        inner.ident(v.name);
        match append_fields_part(inner, v.fields, v.value_type, false) {
            Ok(()) => {},
            Err(e) => {
                assert(!value_lexes(orig[k]));
                return Err(e);
            },
        }
        inner.punct(',');
        proof {
            assert(orig.subrange(0, k + 1).drop_last() =~= orig.subrange(0, k));
            k = k + 1;
        }
        assert(pending@ =~= orig.subrange(k, orig.len() as int));
        assert(shapes_of(inner.stream@) =~= s0 + values_shapes(orig.subrange(0, k)));
    }
    assert(orig.subrange(0, k) =~= orig);
    Ok(())
}

impl EnumValue {
    /// A variant named `name`, with named fields.
    pub fn new(name: &str) -> (r: EnumValue)
        ensures
            r.name.text@ == name@,
            r.fields@.len() == 0,
            r.value_type == StructType::Named,
    {
        EnumValue { name: Ident::new(name, Span::call_site()), fields: Vec::new(), value_type: StructType::Named }
    }

    /// Make the variant fieldless. Fields added are left out.
    pub fn make_zst(&mut self)
        ensures
            final(self).value_type == StructType::Zst,
            final(self).fields == old(self).fields,
            final(self).name == old(self).name,
    {
        self.value_type = StructType::Zst;
    }

    /// Make the fields unnamed. Field names are left out.
    pub fn make_fields_unnamed(&mut self)
        ensures
            final(self).value_type == StructType::Unnamed,
            final(self).fields == old(self).fields,
            final(self).name == old(self).name,
    {
        self.value_type = StructType::Unnamed;
    }

    /// Add a private field.
    pub fn add_field(&mut self, name: &str, ty: &str)
        ensures
            final(self).fields@.len() == old(self).fields@.len() + 1,
            final(self).fields@.drop_last() == old(self).fields@,
            final(self).fields@.last().name@ == name@,
            lexing_of(ty@, final(self).fields@.last().ty),
            final(self).fields@.last().vis == Visibility::Default,
            final(self).name == old(self).name,
            final(self).value_type == old(self).value_type,
    {
        self.fields.push(StructField { name: name.to_string(), vis: Visibility::Default, ty: lex_text(ty) });
    }

    /// Add a public field.
    pub fn add_pub_field(&mut self, name: &str, ty: &str)
        ensures
            final(self).fields@.len() == old(self).fields@.len() + 1,
            final(self).fields@.drop_last() == old(self).fields@,
            final(self).fields@.last().name@ == name@,
            lexing_of(ty@, final(self).fields@.last().ty),
            final(self).fields@.last().vis == Visibility::Pub,
            final(self).name == old(self).name,
            final(self).value_type == old(self).value_type,
    {
        self.fields.push(StructField { name: name.to_string(), vis: Visibility::Pub, ty: lex_text(ty) });
    }
}

/// An enum definition. Implementations opened on it follow the definition.
pub struct GenEnum<'a, P: Parent> {
    pub parent: &'a mut P,
    pub name: Ident,
    pub visibility: Visibility,
    pub values: Vec<EnumValue>,
    pub additional: StreamBuilder,
}

impl<'a, P: Parent> GenEnum<'a, P> {
    /// Nothing has been set on this enum yet.
    pub open spec fn is_fresh(&self) -> bool {
        &&& self.visibility == Visibility::Default
        &&& self.values@.len() == 0
        &&& self.additional.stream@.len() == 0
    }

    /// What this enum flushes into its parent.
    pub open spec fn composed(&self) -> Seq<TokenShape> {
        keyword_if(self.visibility == Visibility::Pub, "pub"@) + seq![ident_shape("enum"@), ident_shape(self.name.text@)]
            + seq![group_shape(Delim::Brace, values_shapes(self.values@))] + shapes_of(self.additional.stream@)
    }

    /// An enum named `name` to be flushed into `parent`.
    pub fn new(parent: &'a mut P, name: &str) -> (r: GenEnum<'a, P>)
        ensures
            *r.parent == *old(parent),
            *final(parent) == *final(r.parent),
            r.is_fresh(),
            r.name.text@ == name@,
    {
        GenEnum {
            parent,
            name: Ident::new(name, Span::call_site()),
            visibility: Visibility::Default,
            values: Vec::new(),
            additional: StreamBuilder::new(),
        }
    }

    /// Make the enum `pub`.
    pub fn make_pub(&mut self)
        ensures
            final(self).visibility == Visibility::Pub,
            final(self).values == old(self).values,
    {
        self.visibility = Visibility::Pub;
    }

    /// Add a variant named `name`, and return it to be filled in.
    pub fn add_value(&mut self, name: &str) -> (r: &mut EnumValue)
        ensures
            r.name.text@ == name@,
            r.fields@.len() == 0,
            r.value_type == StructType::Named,
            final(self).values@ == old(self).values@.push(*final(r)),
            final(self).visibility == old(self).visibility,
            final(self).name == old(self).name,
    {
        let n = self.values.len();
        self.values.push(EnumValue::new(name));
        &mut self.values[n]
    }

    /// Open `impl <trait_name> for <this enum>`.
    pub fn impl_for(&mut self, trait_name: StringOrIdent) -> (r: ImplFor<'_, GenEnum<'a, P>>)
        ensures
            *r.parent == *old(self),
            *final(self) == *final(r.parent),
            r.is_fresh(),
            r.trait_name is Some && name_lexing(trait_name, r.trait_name->0),
            name_lexing(StringOrIdent::Ident(old(self).name), r.for_type),
    {
        let for_type = StringOrIdent::Ident(self.name.duplicate());
        ImplFor::new(self, for_type, Some(trait_name))
    }

    /// Open `impl <this enum>`.
    pub fn generate_impl(&mut self) -> (r: Impl<'_, GenEnum<'a, P>>)
        ensures
            *r.parent == *old(self),
            *final(self) == *final(r.parent),
            r.is_fresh(),
            lexing_of(old(self).name.text@, r.name),
    {
        Impl::with_parent_name(self)
    }

    /// Compose the enum, followed by what was opened on it, and flush it into the
    /// parent. Where a field type did not tokenize, the parent is left as it was.
    pub fn close(self) -> (r: Result<(), Error>)
        ensures
            r is Ok <==> forall|i: int| 0 <= i < self.values@.len() ==> #[trigger] value_lexes(self.values@[i]),
            r is Ok ==> (*final(self.parent)).emitted() == (*old(self.parent)).emitted() + self.composed(),
            r is Err ==> *final(self.parent) == *old(self.parent),
    {
        let ghost composed = self.composed();
        let GenEnum { parent, name, visibility, values, additional } = self;
        let mut builder = StreamBuilder::new();
        if visibility == Visibility::Pub {
            builder.ident_str("pub");
        }
        builder.ident_str("enum");
        builder.ident(name);
        let mut inner = StreamBuilder::new();
        append_values(&mut inner, values)?;
        builder.group_of(Delim::Brace, inner);
        builder.append(additional);
        assert(shapes_of(builder.stream@) =~= composed);
        parent.append(builder);
        Ok(())
    }
}

impl<'a, P: Parent> Parent for GenEnum<'a, P> {
    open spec fn emitted(&self) -> Seq<TokenShape> {
        shapes_of(self.additional.stream@)
    }

    open spec fn target(&self) -> Ident {
        self.name
    }

    open spec fn target_generics(&self) -> Option<Seq<GenericView>> {
        None
    }

    open spec fn target_constraints(&self) -> Option<Seq<TokenTree>> {
        None
    }

    fn append(&mut self, builder: StreamBuilder) {
        self.additional.append(builder);
    }

    fn name(&self) -> (r: &Ident) {
        &self.name
    }

    fn generics(&self) -> (r: Option<&Generics>) {
        None
    }

    fn generic_constraints(&self) -> (r: Option<&GenericConstraints>) {
        None
    }
}

/// A module: `mod <name> { <uses> <contents> }`.
pub struct GenerateMod<'a, P: Parent> {
    pub parent: &'a mut P,
    pub name: Ident,
    pub uses: Vec<StreamBuilder>,
    pub content: StreamBuilder,
}

impl<'a, P: Parent> GenerateMod<'a, P> {
    /// Nothing has been added to this module yet.
    pub open spec fn is_fresh(&self) -> bool {
        self.uses@.len() == 0 && self.content.stream@.len() == 0
    }

    /// What this module flushes into its parent.
    pub open spec fn composed(&self) -> Seq<TokenShape> {
        seq![ident_shape("mod"@), ident_shape(self.name.text@)]
            + seq![group_shape(Delim::Brace, flat(self.uses@) + shapes_of(self.content.stream@))]
    }

    /// A module named `name` to be flushed into `parent`.
    pub fn new(parent: &'a mut P, name: &str) -> (r: GenerateMod<'a, P>)
        ensures
            *r.parent == *old(parent),
            *final(parent) == *final(r.parent),
            r.is_fresh(),
            r.name.text@ == name@,
    {
        GenerateMod { parent, name: Ident::new(name, Span::call_site()), uses: Vec::new(), content: StreamBuilder::new() }
    }

    /// Add `use <path>;` to the module. Where the path does not tokenize, nothing
    /// is added and the error carries the path.
    pub fn add_use(&mut self, path: &str) -> (r: Result<(), Error>)
        ensures
            r is Err ==> final(self).uses@ == old(self).uses@ && r->Err_0 is PushParse
                && r->Err_0->PushParse_0.code@ == path@,
            r is Ok ==> exists|x: Seq<TokenShape>| #[trigger] lexes(path@, x) && flat(final(self).uses@)
                == flat(old(self).uses@) + (seq![ident_shape("use"@)] + x + seq![punct_shape(';')]),
    {
        let mut builder = StreamBuilder::new();
        builder.ident_str("use");
        let ghost b1 = builder.stream@;
        builder.push_parsed(path)?;
        let ghost x = shapes_of(added(b1, builder.stream@));
        builder.punct(';');
        assert(shapes_of(builder.stream@) =~= seq![ident_shape("use"@)] + x + seq![punct_shape(';')]);
        proof { lemma_flat_push(self.uses@, builder); }
        self.uses.push(builder);
        Ok(())
    }

    /// Open a struct inside the module.
    pub fn generate_struct(&mut self, name: &str) -> (r: GenStruct<'_, GenerateMod<'a, P>>)
        ensures
            *r.parent == *old(self),
            *final(self) == *final(r.parent),
            r.is_fresh(),
            r.name.text@ == name@,
    {
        GenStruct::new(self, name)
    }

    /// Open an enum inside the module.
    pub fn generate_enum(&mut self, name: &str) -> (r: GenEnum<'_, GenerateMod<'a, P>>)
        ensures
            *r.parent == *old(self),
            *final(self) == *final(r.parent),
            r.is_fresh(),
            r.name.text@ == name@,
    {
        GenEnum::new(self, name)
    }

    /// Open `impl <name>` inside the module.
    pub fn generate_impl(&mut self, name: &str) -> (r: Impl<'_, GenerateMod<'a, P>>)
        ensures
            *r.parent == *old(self),
            *final(self) == *final(r.parent),
            r.is_fresh(),
            lexing_of(name@, r.name),
    {
        Impl::new(self, name)
    }

    /// Compose the module and flush it into the parent.
    pub fn close(self) -> (r: Result<(), Error>)
        ensures
            r is Ok,
            (*final(self.parent)).emitted() == (*old(self.parent)).emitted() + self.composed(),
    {
        let ghost composed = self.composed();
        let GenerateMod { parent, name, uses, content } = self;
        let mut builder = StreamBuilder::new();
        builder.ident_str("mod");
        builder.ident(name);
        let mut inner = StreamBuilder::new();
        append_all(&mut inner, uses);
        inner.append(content);
        builder.group_of(Delim::Brace, inner);
        assert(shapes_of(builder.stream@) =~= composed);
        parent.append(builder);
        Ok(())
    }
}

impl<'a, P: Parent> Parent for GenerateMod<'a, P> {
    open spec fn emitted(&self) -> Seq<TokenShape> {
        shapes_of(self.content.stream@)
    }

    open spec fn target(&self) -> Ident {
        self.name
    }

    open spec fn target_generics(&self) -> Option<Seq<GenericView>> {
        None
    }

    open spec fn target_constraints(&self) -> Option<Seq<TokenTree>> {
        None
    }

    fn append(&mut self, builder: StreamBuilder) {
        self.content.append(builder);
    }

    fn name(&self) -> (r: &Ident) {
        &self.name
    }

    fn generics(&self) -> (r: Option<&Generics>) {
        None
    }

    fn generic_constraints(&self) -> (r: Option<&GenericConstraints>) {
        None
    }
}

} // verus!
