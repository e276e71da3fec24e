//! Attributes (`#[...]`) and visibility markers in front of a declaration, a
//! variant or a field.
use crate::cursor::{is_ident, is_punct, reports, Fault, TokenCursor};
use crate::error::Error;
use crate::token::{Delim, Group, Punct, TokenTree};
use vstd::prelude::*;

verus! {

/// Where an attribute stands.
#[derive(Clone, Copy, Debug, PartialEq, Eq, Structural)]
pub enum AttributeLocation {
    /// On the `struct` or `enum` itself
    Container,
    /// On an enum variant
    Variant,
    /// On a field of a struct or of a variant
    Field,
}

/// An attribute: the `#` and the bracketed group after it.
#[derive(Debug)]
pub struct Attribute {
    /// Where this attribute was found
    pub location: AttributeLocation,
    /// The `#` token
    pub punct: Punct,
    /// The `[...]` group
    pub tokens: Group,
}

/// How reading attributes from the front of a token sequence ends.
pub enum AttrScan {
    /// The attributes read, as (`#`, group) pairs, and the number of tokens they took.
    Done(Seq<(Punct, Group)>, int),
    Failed(Fault),
}

/// The attributes at the front of `ts`. A `#` directly followed by another `#`
/// (as a run of empty doc comments gives) is skipped.
pub open spec fn attrs_scan(ts: Seq<TokenTree>) -> AttrScan
    decreases ts.len(),
{
    if ts.len() > 0 && is_punct(ts[0], '#') {
        if ts.len() > 1 && ts[1] is Group && ts[1]->Group_0.delimiter == Delim::Bracket {
            match attrs_scan(ts.subrange(2, ts.len() as int)) {
                AttrScan::Done(l, n) => AttrScan::Done(
                    seq![(ts[0]->Punct_0, ts[1]->Group_0)] + l,
                    n + 2,
                ),
                AttrScan::Failed(f) => AttrScan::Failed(f.shift(2)),
            }
        } else if ts.len() > 1 && is_punct(ts[1], '#') {
            match attrs_scan(ts.subrange(1, ts.len() as int)) {
                AttrScan::Done(l, n) => AttrScan::Done(l, n + 1),
                AttrScan::Failed(f) => AttrScan::Failed(f.shift(1)),
            }
        } else {
            AttrScan::Failed(Fault::Syntax(1))
        }
    } else {
        AttrScan::Done(Seq::empty(), 0)
    }
}

/// `attrs` holds, at `location`, the attributes that `l` lists.
pub open spec fn attrs_are(attrs: Seq<Attribute>, location: AttributeLocation, l: Seq<(Punct, Group)>) -> bool {
    &&& attrs.len() == l.len()
    &&& forall|j: int| 0 <= j < attrs.len() ==> #[trigger] attrs[j].punct == l[j].0
        && attrs[j].tokens == l[j].1 && attrs[j].location == location
}

/// `after` is what is left of `before` once a step has taken `n` tokens.
pub open spec fn took(before: Seq<TokenTree>, after: Seq<TokenTree>, n: int) -> bool {
    0 <= n <= before.len() && after == before.subrange(n, before.len() as int)
}

pub proof fn lemma_took_trans(a: Seq<TokenTree>, b: Seq<TokenTree>, c: Seq<TokenTree>, n: int, m: int)
    requires
        took(a, b, n),
        took(b, c, m),
    ensures
        took(a, c, n + m),
{
    assert(c =~= a.subrange(n + m, a.len() as int));
}

pub proof fn lemma_fault_shift_reports(e: Error, a: Seq<TokenTree>, b: Seq<TokenTree>, n: int, f: Fault)
    requires
        took(a, b, n),
        reports(e, b, f),
        match f {
            Fault::Syntax(i) => i >= 0,
            Fault::Ident(i) => i >= 0,
            Fault::Unknown(i) => i >= 0,
            Fault::Custom(i) => i >= 0,
        },
    ensures
        reports(e, a, f.shift(n)),
{
    crate::cursor::lemma_reports_shift(e, a, n, f);
}

/// Every fault index that a scan reports is at least zero.
pub open spec fn fault_at_or_after_start(f: Fault) -> bool {
    match f {
        Fault::Syntax(i) => i >= 0,
        Fault::Ident(i) => i >= 0,
        Fault::Unknown(i) => i >= 0,
        Fault::Custom(i) => i >= 0,
    }
}

pub proof fn lemma_attrs_scan_bounds(ts: Seq<TokenTree>)
    ensures
        match attrs_scan(ts) {
            AttrScan::Done(_, n) => 0 <= n <= ts.len(),
            AttrScan::Failed(f) => fault_at_or_after_start(f),
        },
    decreases ts.len(),
{
    if ts.len() > 0 && is_punct(ts[0], '#') {
        if ts.len() > 1 && ts[1] is Group && ts[1]->Group_0.delimiter == Delim::Bracket {
            lemma_attrs_scan_bounds(ts.subrange(2, ts.len() as int));
        } else if ts.len() > 1 && is_punct(ts[1], '#') {
            lemma_attrs_scan_bounds(ts.subrange(1, ts.len() as int));
        }
    }
}

impl Attribute {
    /// Read the attributes at the front of `input`.
    pub fn try_take(location: AttributeLocation, input: &mut TokenCursor) -> (r: Result<Vec<Attribute>, Error>)
        ensures
            match attrs_scan(old(input).rest()) {
                AttrScan::Done(l, n) => r is Ok && attrs_are(r->Ok_0@, location, l)
                    && took(old(input).rest(), final(input).rest(), n),
                AttrScan::Failed(f) => r is Err && reports(r->Err_0, old(input).rest(), f),
            },
    {
        let ghost orig = input.rest();
        let ghost mut acc: Seq<(Punct, Group)> = Seq::empty();
        let ghost mut used: int = 0;
        let mut result: Vec<Attribute> = Vec::new();
        proof {
            lemma_attrs_scan_bounds(orig);
            assert(orig =~= orig.subrange(0, orig.len() as int));
            assert(Seq::<(Punct, Group)>::empty() + Seq::<(Punct, Group)>::empty() =~= Seq::<(Punct, Group)>::empty());
            match attrs_scan(orig) {
                AttrScan::Done(l, n) => { assert(Seq::<(Punct, Group)>::empty() + l =~= l); },
                AttrScan::Failed(f) => { assert(f.shift(0) == f); },
            }
        }
        loop
            invariant
                orig == old(input).rest(),
                took(orig, input.rest(), used),
                attrs_are(result@, location, acc),
                match attrs_scan(input.rest()) {
                    AttrScan::Done(l, n) => attrs_scan(orig) == AttrScan::Done(acc + l, used + n),
                    AttrScan::Failed(f) => attrs_scan(orig) == AttrScan::Failed(f.shift(used)),
                },
            decreases input.rest().len(),
        {
            let ghost ts = input.rest();
            proof { lemma_attrs_scan_bounds(ts); }
            let punct = match input.consume_punct_if('#') {
                Some(p) => p,
                None => {
                    assert(attrs_scan(ts) == AttrScan::Done(Seq::<(Punct, Group)>::empty(), 0));
                    assert(acc + Seq::<(Punct, Group)>::empty() == acc);
                    return Ok(result);
                },
            };
            let ghost ts1 = input.rest();
            let kind: u8 = match input.peek() {
                Some(TokenTree::Group(g)) => if g.delimiter == Delim::Bracket { 0 } else { 1 },
                Some(TokenTree::Punct(p)) => if p.ch == '#' { 2 } else { 1 },
                _ => 1,
            };
            proof {
                if ts1.len() > 0 {
                    assert(ts1[0] == ts[1]);
                }
            }
            if kind == 0 {
                let group = match input.next() {
                    Some(TokenTree::Group(g)) => g,
                    _ => { return Err(Error::wrong_token(None, "[] group")); },
                };
                proof {
                    let rest2 = input.rest();
                    assert(rest2 =~= ts.subrange(2, ts.len() as int));
                    lemma_took_trans(orig, ts, rest2, used, 2);
                    match attrs_scan(rest2) {
                        AttrScan::Done(l, n) => {
                            assert(acc.push((punct, group)) + l =~= acc + (seq![(punct, group)] + l));
                        },
                        AttrScan::Failed(f) => {
                            lemma_attrs_scan_bounds(rest2);
                            assert(f.shift(2).shift(used) == f.shift(used + 2));
                        },
                    }
                    acc = acc.push((punct, group));
                    used = used + 2;
                }
                result.push(Attribute { location, punct, tokens: group });
            } else if kind == 2 {
                proof {
                    let rest1 = input.rest();
                    assert(rest1 =~= ts.subrange(1, ts.len() as int));
                    lemma_took_trans(orig, ts, rest1, used, 1);
                    match attrs_scan(rest1) {
                        AttrScan::Done(l, n) => {},
                        AttrScan::Failed(f) => {
                            assert(f.shift(1).shift(used) == f.shift(used + 1));
                        },
                    }
                    used = used + 1;
                }
            } else {
                let e = Error::wrong_token(input.peek(), "[] group or next # attribute");
                proof {
                    assert(attrs_scan(ts) == AttrScan::Failed(Fault::Syntax(1)));
                    lemma_fault_shift_reports(e, orig, ts, used, Fault::Syntax(1));
                }
                return Err(e);
            }
        }
    }
}

/// Implemented by a caller's own attribute type, to read itself from the group
/// of an attribute: `Ok(None)` where the attribute is not of this type.
pub trait FromAttribute: Sized {
    fn parse(group: &Group) -> Result<Option<Self>, Error>;
}

/// Looking up attributes of a caller's own type among parsed attributes.
pub trait AttributeAccess {
    /// Whether an attribute equal to `attrib` is present. The first error that
    /// reading an attribute gives is returned.
    fn has_attribute<T: FromAttribute + PartialEq>(&self, attrib: T) -> Result<bool, Error>;

    /// The first attribute of type `T`. The first error that reading an
    /// attribute gives is returned.
    fn get_attribute<T: FromAttribute>(&self) -> Result<Option<T>, Error>;
}

impl AttributeAccess for Vec<Attribute> {
    fn has_attribute<T: FromAttribute + PartialEq>(&self, attrib: T) -> (r: Result<bool, Error>)
        ensures
            self@.len() == 0 ==> r == Ok::<bool, Error>(false),
    {
        let mut i: usize = 0;
        while i < self.len()
            invariant
                i <= self@.len(),
            decreases self@.len() - i,
        {
            match T::parse(&self[i].tokens)? {
                Some(found) => {
                    if found == attrib {
                        return Ok(true);
                    }
                },
                None => {},
            }
            i += 1;
        }
        Ok(false)
    }

    fn get_attribute<T: FromAttribute>(&self) -> (r: Result<Option<T>, Error>)
        ensures
            self@.len() == 0 ==> r is Ok && r->Ok_0 is None,
    {
        let mut i: usize = 0;
        while i < self.len()
            invariant
                i <= self@.len(),
            decreases self@.len() - i,
        {
            match T::parse(&self[i].tokens)? {
                Some(found) => {
                    return Ok(Some(found));
                },
                None => {},
            }
            i += 1;
        }
        Ok(None)
    }
}

/// The visibility of a declaration or a field. Every form of `pub` counts as public.
#[derive(Clone, Copy, Debug, PartialEq, Eq, Structural)]
pub enum Visibility {
    /// No visibility marker
    Default,
    /// `pub`, `pub(crate)`, `pub(super)`, `pub(self)` or `pub(in path)`
    Pub,
}

/// The words that may stand in the parentheses of a restricted `pub`.
pub open spec fn is_scope_word(t: TokenTree) -> bool {
    is_ident(t, "crate"@) || is_ident(t, "self"@) || is_ident(t, "super"@) || is_ident(t, "in"@)
}

/// The visibility at the front of `ts`, and the number of tokens it takes. A group
/// holding only `pub` (as some macros deliver it) counts as `pub`, together with a
/// group right after it.
pub open spec fn vis_scan(ts: Seq<TokenTree>) -> (Visibility, int) {
    if ts.len() > 0 && is_ident(ts[0], "pub"@) {
        if ts.len() > 1 && ts[1] is Group && ts[1]->Group_0.delimiter == Delim::Parenthesis
            && ts[1]->Group_0.stream@.len() > 0 && is_scope_word(ts[1]->Group_0.stream@[0]) {
            (Visibility::Pub, 2)
        } else {
            (Visibility::Pub, 1)
        }
    } else if ts.len() > 0 && ts[0] is Group && ts[0]->Group_0.stream@.len() == 1
        && is_ident(ts[0]->Group_0.stream@[0], "pub"@) {
        if ts.len() > 1 && ts[1] is Group {
            (Visibility::Pub, 2)
        } else {
            (Visibility::Pub, 1)
        }
    } else {
        (Visibility::Default, 0)
    }
}

fn is_scope_word_token(t: &TokenTree) -> (r: bool)
    ensures
        r == is_scope_word(*t),
{
    match t {
        TokenTree::Ident(i) => i.is("crate") || i.is("self") || i.is("super") || i.is("in"),
        _ => false,
    }
}

impl Visibility {
    /// Read the visibility at the front of `input`.
    pub fn try_take(input: &mut TokenCursor) -> (r: Visibility)
        ensures
            r == vis_scan(old(input).rest()).0,
            took(old(input).rest(), final(input).rest(), vis_scan(old(input).rest()).1),
    {
        let ghost ts = input.rest();
        let kind: u8 = match input.peek() {
            Some(TokenTree::Ident(i)) => if i.is("pub") { 1 } else { 0 },
            Some(TokenTree::Group(g)) => {
                if g.stream.len() == 1 && match &g.stream[0] {
                    TokenTree::Ident(i) => i.is("pub"),
                    _ => false,
                } { 2 } else { 0 }
            },
            _ => 0,
        };
        if kind == 0 {
            assert(ts.subrange(0, ts.len() as int) == ts);
            return Visibility::Default;
        }
        let _ = input.next();
        let ghost ts1 = input.rest();
        let take_group = match input.peek() {
            Some(TokenTree::Group(g)) => {
                if kind == 2 {
                    true
                } else {
                    match g.delimiter {
                        Delim::Parenthesis => g.stream.len() > 0 && is_scope_word_token(&g.stream[0]),
                        _ => false,
                    }
                }
            },
            _ => false,
        };
        proof {
            if ts1.len() > 0 {
                assert(ts1[0] == ts[1]);
            }
        }
        if take_group {
            let _ = input.next();
            assert(input.rest() =~= ts.subrange(2, ts.len() as int));
        }
        Visibility::Pub
    }
}

} // verus!
