//! Writing generic parameter lists and where-clauses back out as tokens, and
//! joining the pieces that scopes collect.
use crate::generics::{generic_views, Generic, GenericConstraints, GenericView, Generics};
use crate::stream_builder::{lifetime_shapes, StreamBuilder};
use crate::token::{duplicate_tokens, ident_shape, lemma_shapes_upto_same, punct_shape, shapes_of, TokenShape, TokenTree};
use vstd::prelude::*;

verus! {

/// A parameter as written where it is declared, bounds included. A const
/// parameter always has its type.
pub open spec fn decl_shapes(g: GenericView) -> Seq<TokenShape> {
    match g {
        GenericView::Lifetime(i, b) => lifetime_shapes(i.text@)
            + (if b.len() > 0 { seq![punct_shape(':')] + shapes_of(b) } else { Seq::empty() }),
        GenericView::Simple(i, b) => seq![ident_shape(i.text@)]
            + (if b.len() > 0 { seq![punct_shape(':')] + shapes_of(b) } else { Seq::empty() }),
        GenericView::Const(k, i, b) => seq![ident_shape(k.text@), ident_shape(i.text@), punct_shape(':')]
            + shapes_of(b),
    }
}

/// A parameter as written where it is used: its name alone.
pub open spec fn use_shapes(g: GenericView) -> Seq<TokenShape> {
    match g {
        GenericView::Lifetime(i, _) => lifetime_shapes(i.text@),
        GenericView::Simple(i, _) => seq![ident_shape(i.text@)],
        GenericView::Const(_, i, _) => seq![ident_shape(i.text@)],
    }
}

/// The items separated by commas.
pub open spec fn joined(items: Seq<Seq<TokenShape>>) -> Seq<TokenShape>
    decreases items.len(),
{
    if items.len() == 0 {
        Seq::empty()
    } else if items.len() == 1 {
        items[0]
    } else {
        joined(items.drop_last()) + seq![punct_shape(',')] + items.last()
    }
}

/// The items separated by commas, between `<` and `>`.
pub open spec fn angled(items: Seq<Seq<TokenShape>>) -> Seq<TokenShape> {
    seq![punct_shape('<')] + joined(items) + seq![punct_shape('>')]
}

pub open spec fn decl_items(gs: Seq<GenericView>) -> Seq<Seq<TokenShape>>
    decreases gs.len(),
{
    if gs.len() == 0 {
        Seq::empty()
    } else {
        decl_items(gs.drop_last()).push(decl_shapes(gs.last()))
    }
}

pub open spec fn use_items(gs: Seq<GenericView>) -> Seq<Seq<TokenShape>>
    decreases gs.len(),
{
    if gs.len() == 0 {
        Seq::empty()
    } else {
        use_items(gs.drop_last()).push(use_shapes(gs.last()))
    }
}

/// Lifetimes named by `names`, without bounds.
pub open spec fn lifetime_items(names: Seq<String>) -> Seq<Seq<TokenShape>>
    decreases names.len(),
{
    if names.len() == 0 {
        Seq::empty()
    } else {
        lifetime_items(names.drop_last()).push(lifetime_shapes(names.last()@))
    }
}

/// The parameter list in declaring position: `<'a: 'b, T: Bound, const N: usize>`.
pub open spec fn impl_generics_shapes(gs: Seq<GenericView>) -> Seq<TokenShape> {
    angled(decl_items(gs))
}

/// The parameter list in using position: `<'a, T, N>`.
pub open spec fn type_generics_shapes(gs: Seq<GenericView>) -> Seq<TokenShape> {
    angled(use_items(gs))
}

/// `where` followed by the constraints.
pub open spec fn where_shapes(c: Seq<TokenTree>) -> Seq<TokenShape> {
    seq![ident_shape("where"@)] + shapes_of(c)
}

pub proof fn lemma_joined_push(items: Seq<Seq<TokenShape>>, x: Seq<TokenShape>)
    ensures
        joined(items.push(x)) == joined(items) + (if items.len() > 0 { seq![punct_shape(',')] } else { Seq::empty() }) + x,
{
    assert(items.push(x).drop_last() =~= items);
    if items.len() == 0 {
        assert(Seq::<TokenShape>::empty() + Seq::<TokenShape>::empty() + x =~= x);
    }
}

/// Add `, ` before an item that is not the first.
pub(crate) fn separator(result: &mut StreamBuilder, first: bool)
    ensures
        shapes_of(final(result).stream@) == shapes_of(old(result).stream@)
            + (if first { Seq::<TokenShape>::empty() } else { seq![punct_shape(',')] }),
{
    if !first {
        result.punct(',');
    } else {
        assert(shapes_of(result.stream@) + Seq::<TokenShape>::empty() =~= shapes_of(result.stream@));
    }
}

/// Append a copy of `ts`.
pub fn append_copy(result: &mut StreamBuilder, ts: &Vec<TokenTree>)
    ensures
        shapes_of(final(result).stream@) == shapes_of(old(result).stream@) + shapes_of(ts@),
{
    let copy = duplicate_tokens(ts);
    proof { lemma_shapes_upto_same(copy@, ts@, copy@.len() as nat); }
    result.extend(copy);
}

impl Generic {
    /// Append this parameter as written where it is declared.
    fn append_decl(&self, result: &mut StreamBuilder)
        ensures
            shapes_of(final(result).stream@) == shapes_of(old(result).stream@) + decl_shapes(self@),
    {
        let ghost s0 = shapes_of(result.stream@);
        let bounds = match self {
            Generic::Lifetime(lt) => {
                result.lifetime(lt.ident.duplicate());
                &lt.constraint
            },
            Generic::Generic(g) => {
                result.ident(g.ident.duplicate());
                &g.constraints
            },
            Generic::Const(c) => {
                result.ident(c.const_token.duplicate());
                result.ident(c.ident.duplicate());
                &c.constraints
            },
        };
        let always = match self {
            Generic::Const(_) => true,
            _ => false,
        };
        let ghost s1 = shapes_of(result.stream@);
        if always || bounds.len() > 0 {
            result.punct(':');
            append_copy(result, bounds);
            assert(shapes_of(result.stream@) =~= s1 + (seq![punct_shape(':')] + shapes_of(bounds@)));
        } else {
            assert(s1 + Seq::<TokenShape>::empty() =~= s1);
        }
        proof {
            match self@ {
                GenericView::Const(k, i, b) => {
                    assert(seq![ident_shape(k.text@)] + seq![ident_shape(i.text@)] + seq![punct_shape(':')] + shapes_of(b)
                        =~= seq![ident_shape(k.text@), ident_shape(i.text@), punct_shape(':')] + shapes_of(b));
                },
                _ => {},
            }
        }
        assert(shapes_of(result.stream@) =~= s0 + decl_shapes(self@));
    }

    /// Append this parameter as written where it is used.
    fn append_use(&self, result: &mut StreamBuilder)
        ensures
            shapes_of(final(result).stream@) == shapes_of(old(result).stream@) + use_shapes(self@),
    {
        match self {
            Generic::Lifetime(lt) => result.lifetime(lt.ident.duplicate()),
            Generic::Generic(g) => result.ident(g.ident.duplicate()),
            Generic::Const(c) => result.ident(c.ident.duplicate()),
        }
    }
}

impl Generics {
    /// The parameters in declaring position, bounds included: `<'a: 'b, T: Bound>`.
    pub fn impl_generics(&self) -> (r: StreamBuilder)
        ensures
            shapes_of(r.stream@) == impl_generics_shapes(generic_views(self.0@)),
    {
        let mut result = StreamBuilder::new();
        result.punct('<');
        self.append_decls(&mut result, true);
        result.punct('>');
        result
    }

    /// Append the parameters in declaring position, comma separated; `first`
    /// says whether nothing precedes them in the list.
    fn append_decls(&self, result: &mut StreamBuilder, first: bool)
        ensures
            shapes_of(final(result).stream@) == shapes_of(old(result).stream@)
                + (if !first && self.0@.len() > 0 { seq![punct_shape(',')] } else { Seq::<TokenShape>::empty() })
                + joined(decl_items(generic_views(self.0@))),
    {
        let ghost s0 = shapes_of(result.stream@);
        let ghost gv = generic_views(self.0@);
        let mut i: usize = 0;
        proof {
            assert(gv.subrange(0, 0) =~= Seq::<GenericView>::empty());
            assert(s0 + Seq::<TokenShape>::empty() + joined(decl_items(Seq::<GenericView>::empty())) =~= s0);
        }
        while i < self.0.len()
            invariant
                i <= self.0@.len(),
                gv == generic_views(self.0@),
                gv.len() == self.0@.len(),
                shapes_of(result.stream@) == s0
                    + (if !first && i > 0 { seq![punct_shape(',')] } else { Seq::<TokenShape>::empty() })
                    + joined(decl_items(gv.subrange(0, i as int))),
            decreases self.0@.len() - i,
        {
            separator(result, first && i == 0);
            self.0[i].append_decl(result);
            proof {
                let items = decl_items(gv.subrange(0, i as int));
                assert(gv.subrange(0, i + 1).drop_last() =~= gv.subrange(0, i as int));
                assert(gv[i as int] == self.0@[i as int]@);
                assert(decl_items(gv.subrange(0, i + 1)) == items.push(decl_shapes(gv[i as int])));
                lemma_joined_push(items, decl_shapes(gv[i as int]));
                lemma_decl_items_len(gv.subrange(0, i as int));
            }
            i += 1;
            assert(shapes_of(result.stream@) =~= s0
                + (if !first && i > 0 { seq![punct_shape(',')] } else { Seq::<TokenShape>::empty() })
                + joined(decl_items(gv.subrange(0, i as int))));
        }
        assert(gv.subrange(0, i as int) =~= gv);
    }

    /// The parameters in using position, names only: `<'a, T>`.
    pub fn type_generics(&self) -> (r: StreamBuilder)
        ensures
            shapes_of(r.stream@) == type_generics_shapes(generic_views(self.0@)),
    {
        let mut result = StreamBuilder::new();
        result.punct('<');
        let ghost s0 = shapes_of(result.stream@);
        let ghost gv = generic_views(self.0@);
        let mut i: usize = 0;
        proof {
            assert(gv.subrange(0, 0) =~= Seq::<GenericView>::empty());
            assert(s0 + joined(use_items(Seq::<GenericView>::empty())) =~= s0);
        }
        while i < self.0.len()
            invariant
                i <= self.0@.len(),
                gv == generic_views(self.0@),
                gv.len() == self.0@.len(),
                shapes_of(result.stream@) == s0 + joined(use_items(gv.subrange(0, i as int))),
            decreases self.0@.len() - i,
        {
            separator(&mut result, i == 0);
            self.0[i].append_use(&mut result);
            proof {
                let items = use_items(gv.subrange(0, i as int));
                assert(gv.subrange(0, i + 1).drop_last() =~= gv.subrange(0, i as int));
                assert(gv[i as int] == self.0@[i as int]@);
                lemma_joined_push(items, use_shapes(gv[i as int]));
                lemma_use_items_len(gv.subrange(0, i as int));
            }
            i += 1;
            assert(shapes_of(result.stream@) =~= s0 + joined(use_items(gv.subrange(0, i as int))));
        }
        assert(gv.subrange(0, i as int) =~= gv);
        result.punct('>');
        result
    }

    /// The given lifetimes, then the parameters in declaring position:
    /// `<'x, 'y, 'a: 'b, T: Bound>`. The lifetimes are named without apostrophe.
    pub fn impl_generics_with_additional_lifetimes(&self, lifetimes: &Vec<String>) -> (r: StreamBuilder)
        ensures
            shapes_of(r.stream@) == angled(lifetime_items(lifetimes@) + decl_items(generic_views(self.0@))),
    {
        let mut result = StreamBuilder::new();
        result.punct('<');
        append_lifetime_list(&mut result, lifetimes);
        self.append_decls(&mut result, lifetimes.len() == 0);
        result.punct('>');
        proof {
            lemma_joined_concat(lifetime_items(lifetimes@), decl_items(generic_views(self.0@)));
            lemma_lifetime_items_len(lifetimes@);
            lemma_decl_items_len(generic_views(self.0@));
        }
        result
    }
}

/// The same parameters with their bounds left out.
pub open spec fn without_bounds(gs: Seq<GenericView>) -> Seq<GenericView>
    decreases gs.len(),
{
    if gs.len() == 0 {
        Seq::empty()
    } else {
        let g = gs.last();
        without_bounds(gs.drop_last()).push(match g {
            GenericView::Lifetime(i, _) => GenericView::Lifetime(i, Seq::empty()),
            GenericView::Simple(i, _) => GenericView::Simple(i, Seq::empty()),
            GenericView::Const(k, i, b) => GenericView::Const(k, i, b),
        })
    }
}

/// Using position writes what declaring position writes with every bound left
/// out, for lifetime and type parameters: `<'a: 'b, T: Bound>` is used as `<'a, T>`.
pub proof fn lemma_use_position_drops_bounds(gs: Seq<GenericView>)
    requires
        forall|i: int| 0 <= i < gs.len() ==> !(#[trigger] gs[i] is Const),
    ensures
        type_generics_shapes(gs) == impl_generics_shapes(without_bounds(gs)),
    decreases gs.len(),
{
    lemma_use_items_drop_bounds(gs);
}

proof fn lemma_use_items_drop_bounds(gs: Seq<GenericView>)
    requires
        forall|i: int| 0 <= i < gs.len() ==> !(#[trigger] gs[i] is Const),
    ensures
        use_items(gs) == decl_items(without_bounds(gs)),
    decreases gs.len(),
{
    if gs.len() > 0 {
        let rest = gs.drop_last();
        assert forall|i: int| 0 <= i < rest.len() implies !(#[trigger] rest[i] is Const) by {
            assert(rest[i] == gs[i]);
        }
        lemma_use_items_drop_bounds(rest);
        assert(!(gs[gs.len() - 1] is Const));
        let g = gs.last();
        let stripped = match g {
            GenericView::Lifetime(i, _) => GenericView::Lifetime(i, Seq::empty()),
            GenericView::Simple(i, _) => GenericView::Simple(i, Seq::empty()),
            GenericView::Const(k, i, b) => GenericView::Const(k, i, b),
        };
        assert(without_bounds(gs).drop_last() =~= without_bounds(rest));
        assert(use_shapes(g) =~= decl_shapes(stripped));
    }
}

pub proof fn lemma_decl_items_len(gs: Seq<GenericView>)
    ensures
        decl_items(gs).len() == gs.len(),
    decreases gs.len(),
{
    if gs.len() > 0 {
        lemma_decl_items_len(gs.drop_last());
    }
}

pub proof fn lemma_use_items_len(gs: Seq<GenericView>)
    ensures
        use_items(gs).len() == gs.len(),
    decreases gs.len(),
{
    if gs.len() > 0 {
        lemma_use_items_len(gs.drop_last());
    }
}

pub proof fn lemma_lifetime_items_len(names: Seq<String>)
    ensures
        lifetime_items(names).len() == names.len(),
    decreases names.len(),
{
    if names.len() > 0 {
        lemma_lifetime_items_len(names.drop_last());
    }
}

pub proof fn lemma_joined_concat(a: Seq<Seq<TokenShape>>, b: Seq<Seq<TokenShape>>)
    ensures
        joined(a + b) == joined(a) + (if a.len() > 0 && b.len() > 0 { seq![punct_shape(',')] } else { Seq::empty() })
            + joined(b),
    decreases b.len(),
{
    if b.len() == 0 {
        assert(a + b =~= a);
        assert(joined(a) + Seq::<TokenShape>::empty() + joined(b) =~= joined(a));
    } else {
        let b0 = b.drop_last();
        lemma_joined_concat(a, b0);
        assert((a + b) =~= (a + b0).push(b.last()));
        lemma_joined_push(a + b0, b.last());
        lemma_joined_push(b0, b.last());
        assert(b == b0.push(b.last()));
        if b0.len() == 0 {
            assert(joined(b0) == Seq::<TokenShape>::empty());
        }
        assert(joined(a + b) =~= joined(a) + (if a.len() > 0 && b.len() > 0 { seq![punct_shape(',')] } else { Seq::empty() })
            + joined(b));
    }
}

/// Append lifetimes named by `lifetimes`, comma separated.
fn append_lifetime_list(result: &mut StreamBuilder, lifetimes: &Vec<String>)
    ensures
        shapes_of(final(result).stream@) == shapes_of(old(result).stream@) + joined(lifetime_items(lifetimes@)),
{
    let ghost s0 = shapes_of(result.stream@);
    let mut i: usize = 0;
    proof {
        assert(lifetimes@.subrange(0, 0) =~= Seq::<String>::empty());
        assert(s0 + joined(lifetime_items(Seq::<String>::empty())) =~= s0);
    }
    while i < lifetimes.len()
        invariant
            i <= lifetimes@.len(),
            shapes_of(result.stream@) == s0 + joined(lifetime_items(lifetimes@.subrange(0, i as int))),
        decreases lifetimes@.len() - i,
    {
        separator(result, i == 0);
        result.lifetime_str(lifetimes[i].as_str());
        proof {
            let items = lifetime_items(lifetimes@.subrange(0, i as int));
            assert(lifetimes@.subrange(0, i + 1).drop_last() =~= lifetimes@.subrange(0, i as int));
            lemma_joined_push(items, lifetime_shapes(lifetimes@[i as int]@));
            lemma_lifetime_items_len(lifetimes@.subrange(0, i as int));
        }
        i += 1;
        assert(shapes_of(result.stream@) =~= s0 + joined(lifetime_items(lifetimes@.subrange(0, i as int))));
    }
    assert(lifetimes@.subrange(0, i as int) =~= lifetimes@);
}

/// Append `<'x, 'y>` for the lifetimes named by `lifetimes`.
pub fn append_lifetimes(result: &mut StreamBuilder, lifetimes: &Vec<String>)
    ensures
        shapes_of(final(result).stream@) == shapes_of(old(result).stream@) + angled(lifetime_items(lifetimes@)),
{
    result.punct('<');
    append_lifetime_list(result, lifetimes);
    result.punct('>');
}

impl GenericConstraints {
    /// `where` followed by a copy of the constraints.
    pub fn where_clause(&self) -> (r: StreamBuilder)
        ensures
            shapes_of(r.stream@) == where_shapes(self.constraints@),
    {
        let mut result = StreamBuilder::new();
        result.ident_str("where");
        append_copy(&mut result, &self.constraints);
        result
    }
}

/// What the builders in `bs` hold, one after another.
pub open spec fn flat(bs: Seq<StreamBuilder>) -> Seq<TokenShape>
    decreases bs.len(),
{
    if bs.len() == 0 {
        Seq::empty()
    } else {
        shapes_of(bs[0].stream@) + flat(bs.subrange(1, bs.len() as int))
    }
}

/// Append everything the builders in `bs` hold, in order.
pub fn append_all(result: &mut StreamBuilder, bs: Vec<StreamBuilder>)
    ensures
        shapes_of(final(result).stream@) == shapes_of(old(result).stream@) + flat(bs@),
{
    let mut bs = bs;
    let ghost s0 = shapes_of(result.stream@);
    let ghost orig = bs@;
    while bs.len() > 0
        invariant
            shapes_of(result.stream@) + flat(bs@) == s0 + flat(orig),
        decreases bs@.len(),
    {
        let ghost before = bs@;
        let ghost r0 = shapes_of(result.stream@);
        let b = bs.remove(0);
        assert(bs@ =~= before.subrange(1, before.len() as int));
        result.append(b);
        assert(r0 + flat(before) =~= r0 + shapes_of(b.stream@) + flat(bs@));
    }
    assert(shapes_of(result.stream@) + flat(bs@) =~= shapes_of(result.stream@));
}

} // verus!
