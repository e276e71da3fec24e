//! Reading attributes of the form `#[prefix(tag, key = "value", ...)]`.
use crate::body::{reports_at, Located};
use crate::cursor::{is_punct, Fault};
use crate::error::Error;
use crate::token::{Group, Ident, Literal, TokenTree};
use vstd::prelude::*;

verus! {

/// One entry of a tagged attribute.
#[derive(Debug)]
pub enum ParsedAttribute {
    /// `#[prefix(tag)]`
    Tag(Ident),
    /// `#[prefix(key = "value")]`
    Property(Ident, Literal),
}

/// The entries that the inside of `prefix(...)` lists. A key followed by `=` and
/// something other than a literal is skipped, as is the token after the `=`.
#[verifier::opaque]
pub open spec fn tagged_scan(ts: Seq<TokenTree>) -> Result<Seq<ParsedAttribute>, Located>
    decreases ts.len(),
{
    if ts.len() == 0 {
        Ok(Seq::empty())
    } else if !(ts[0] is Ident) {
        Err((Fault::Custom(0), ts))
    } else {
        let key = ts[0]->Ident_0;
        if ts.len() == 1 {
            Ok(seq![ParsedAttribute::Tag(key)])
        } else if is_punct(ts[1], ',') {
            match tagged_scan(ts.subrange(2, ts.len() as int)) {
                Ok(l) => Ok(seq![ParsedAttribute::Tag(key)] + l),
                Err(l) => Err(l),
            }
        } else if is_punct(ts[1], '=') {
            if ts.len() == 2 {
                Ok(Seq::empty())
            } else if !(ts[2] is Literal) {
                tagged_scan(ts.subrange(3, ts.len() as int))
            } else {
                let entry = ParsedAttribute::Property(key, ts[2]->Literal_0);
                if ts.len() == 3 {
                    Ok(seq![entry])
                } else if is_punct(ts[3], ',') {
                    match tagged_scan(ts.subrange(4, ts.len() as int)) {
                        Ok(l) => Ok(seq![entry] + l),
                        Err(l) => Err(l),
                    }
                } else {
                    Err((Fault::Custom(3), ts))
                }
            }
        } else {
            Err((Fault::Custom(0), ts))
        }
    }
}

/// What [`parse_tagged_attribute`] makes of the tokens of an attribute group.
pub open spec fn tagged_attribute(ts: Seq<TokenTree>, prefix: Seq<char>) -> Result<Option<Seq<ParsedAttribute>>, Located> {
    if ts.len() > 1 && ts[0] is Ident && ts[0]->Ident_0.text@ == prefix && ts[1] is Group {
        match tagged_scan(ts[1]->Group_0.stream@) {
            Ok(l) => Ok(Some(l)),
            Err(l) => Err(l),
        }
    } else {
        Ok(None)
    }
}

fn copy_entry(key: &Ident, lit: Option<&Literal>) -> (r: ParsedAttribute)
    ensures
        lit is None ==> r == ParsedAttribute::Tag(*key),
        lit is Some ==> r == ParsedAttribute::Property(*key, *lit->0),
{
    match lit {
        Some(l) => ParsedAttribute::Property(key.duplicate(), l.duplicate()),
        None => ParsedAttribute::Tag(key.duplicate()),
    }
}

/// Read the entries inside `prefix(...)`.
fn parse_entries(ts: &Vec<TokenTree>) -> (r: Result<Vec<ParsedAttribute>, Error>)
    ensures
        match tagged_scan(ts@) {
            Ok(l) => r is Ok && r->Ok_0@ == l,
            Err(l) => r is Err && reports_at(r->Err_0, l),
        },
{
    let mut result: Vec<ParsedAttribute> = Vec::new();
    let mut i: usize = 0;
    let n = ts.len();
    proof {
        reveal(tagged_scan);
        assert(ts@.subrange(0, n as int) =~= ts@);
        match tagged_scan(ts@) {
            Ok(l) => { assert(Seq::<ParsedAttribute>::empty() + l =~= l); },
            Err(l) => {},
        }
    }
    while i < n
        invariant
            n == ts@.len(),
            i <= n,
            match tagged_scan(ts@.subrange(i as int, n as int)) {
                Ok(l) => tagged_scan(ts@) == Ok::<Seq<ParsedAttribute>, Located>(result@ + l),
                Err(l) => tagged_scan(ts@) == Err::<Seq<ParsedAttribute>, Located>(l),
            },
        decreases n - i,
    {
        let ghost rest = ts@.subrange(i as int, n as int);
        proof { reveal(tagged_scan); }
        let key = match &ts[i] {
            TokenTree::Ident(k) => k,
            x => {
                return Err(Error::custom_at("Expected `key` or `key = \"val\"`", x.span()));
            },
        };
        if i + 1 == n {
            result.push(copy_entry(key, None));
            return Ok(result);
        }
        if ts[i + 1].is_punct(',') {
            let entry = copy_entry(key, None);
            proof {
                assert(rest.subrange(2, rest.len() as int) =~= ts@.subrange(i + 2, n as int));
                match tagged_scan(ts@.subrange(i + 2, n as int)) {
                    Ok(l) => { assert(result@.push(entry) + l =~= result@ + (seq![entry] + l)); },
                    Err(l) => {},
                }
            }
            result.push(entry);
            i = i + 2;
        } else if ts[i + 1].is_punct('=') {
            if i + 2 == n {
                assert(result@ + Seq::<ParsedAttribute>::empty() =~= result@);
                return Ok(result);
            }
            match &ts[i + 2] {
                TokenTree::Literal(lit) => {
                    let entry = copy_entry(key, Some(lit));
                    if i + 3 == n {
                        result.push(entry);
                        return Ok(result);
                    }
                    if !ts[i + 3].is_punct(',') {
                        let x = ts[i + 3].span();
                        assert(rest[3] == ts@[i + 3]);
                        return Err(Error::custom_at("Expected `,`", x));
                    }
                    proof {
                        assert(rest.subrange(4, rest.len() as int) =~= ts@.subrange(i + 4, n as int));
                        match tagged_scan(ts@.subrange(i + 4, n as int)) {
                            Ok(l) => { assert(result@.push(entry) + l =~= result@ + (seq![entry] + l)); },
                            Err(l) => {},
                        }
                    }
                    result.push(entry);
                    i = i + 4;
                },
                _ => {
                    assert(rest.subrange(3, rest.len() as int) =~= ts@.subrange(i + 3, n as int));
                    i = i + 3;
                },
            }
        } else {
            return Err(Error::custom_at("Expected `key` or `key = \"val\"`", key.span));
        }
    }
    proof {
        reveal(tagged_scan);
        assert(ts@.subrange(i as int, n as int) =~= Seq::<TokenTree>::empty());
        assert(result@ + Seq::<ParsedAttribute>::empty() =~= result@);
    }
    Ok(result)
}

/// Read an attribute of the form `prefix(...)`: `None` where it does not start
/// with `prefix` followed by a group, else the entries the group lists.
pub fn parse_tagged_attribute(group: &Group, prefix: &str) -> (r: Result<Option<Vec<ParsedAttribute>>, Error>)
    ensures
        match tagged_attribute(group.stream@, prefix@) {
            Ok(None) => r is Ok && r->Ok_0 is None,
            Ok(Some(l)) => r is Ok && r->Ok_0 is Some && r->Ok_0->0@ == l,
            Err(l) => r is Err && reports_at(r->Err_0, l),
        },
{
    let ts = &group.stream;
    if ts.len() > 1 {
        let starts = match &ts[0] {
            TokenTree::Ident(i) => i.is(prefix),
            _ => false,
        };
        if starts {
            match &ts[1] {
                TokenTree::Group(g) => {
                    let entries = parse_entries(&g.stream)?;
                    return Ok(Some(entries));
                },
                _ => {},
            }
        }
    }
    Ok(None)
}

} // verus!
