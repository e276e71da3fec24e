//! An append-only token buffer with the primitives that generated code is built from.
use crate::error::{Error, PushParseError};
use crate::token::{lemma_shapes_concat, lemma_shapes_one, shapes_of, decimal, group_shape, ident_shape, lemma_shapes_upto, lexes, quotes, punct_shape, shape, shaped, shapes_upto, span_of, string_literal, usize_literal, Delim, Group, Ident, Literal, Punct, PunctSpacing, TokenShape, TokenTree, lex};
use proc_macro2::Span;
use vstd::prelude::*;

verus! {

/// `after` is `before` with tokens added at its end whose shapes are `shp`.
pub open spec fn extended(before: Seq<TokenTree>, after: Seq<TokenTree>, shp: Seq<TokenShape>) -> bool {
    &&& after.len() == before.len() + shp.len()
    &&& after.subrange(0, before.len() as int) == before
    &&& shaped(after.subrange(before.len() as int, after.len() as int), shp)
}

/// One punctuation token per character, each glued to the next.
pub open spec fn joint_shapes(s: Seq<char>) -> Seq<TokenShape>
    decreases s.len(),
{
    if s.len() == 0 {
        Seq::empty()
    } else {
        joint_shapes(s.drop_last()).push(TokenShape::Punct(s.last(), PunctSpacing::Joint))
    }
}

/// The shapes of a lifetime named `name`: a joint apostrophe, then the name.
pub open spec fn lifetime_shapes(name: Seq<char>) -> Seq<TokenShape> {
    seq![TokenShape::Punct('\'', PunctSpacing::Joint), ident_shape(name)]
}

pub proof fn lemma_extended_empty(ts: Seq<TokenTree>)
    ensures
        extended(ts, ts, Seq::empty()),
{
    assert(ts.subrange(0, ts.len() as int) == ts);
}

pub proof fn lemma_extended_trans(
    a: Seq<TokenTree>,
    b: Seq<TokenTree>,
    c: Seq<TokenTree>,
    s1: Seq<TokenShape>,
    s2: Seq<TokenShape>,
)
    requires
        extended(a, b, s1),
        extended(b, c, s2),
    ensures
        extended(a, c, s1 + s2),
{
    assert(c.subrange(0, a.len() as int) == b.subrange(0, a.len() as int));
    let tail = c.subrange(a.len() as int, c.len() as int);
    assert forall|i: int| 0 <= i < tail.len() implies #[trigger] shape(tail[i]) == (s1 + s2)[i] by {
        if i < s1.len() {
            assert(tail[i] == b.subrange(a.len() as int, b.len() as int)[i]);
        } else {
            assert(tail[i] == c.subrange(b.len() as int, c.len() as int)[i - s1.len()]);
        }
    }
}

pub proof fn lemma_extended_concat(a: Seq<TokenTree>, t: Seq<TokenTree>, s: Seq<TokenShape>)
    requires
        shaped(t, s),
    ensures
        extended(a, a + t, s),
{
    assert((a + t).subrange(0, a.len() as int) == a);
    assert((a + t).subrange(a.len() as int, (a + t).len() as int) == t);
}

/// Text tokenized ahead of its use: the tokens, or the refusal with the text.
pub type Lexed = Result<Vec<TokenTree>, PushParseError>;

/// The tokens `after` holds beyond those of `before`.
pub open spec fn added(before: Seq<TokenTree>, after: Seq<TokenTree>) -> Seq<TokenTree> {
    after.subrange(before.len() as int, after.len() as int)
}

/// What tokenized text says; nothing for text that did not tokenize.
pub open spec fn piece(l: Result<Vec<TokenTree>, PushParseError>) -> Seq<TokenShape> {
    match l {
        Ok(t) => shapes_of(t@),
        Err(_) => Seq::empty(),
    }
}

/// `l` is the outcome of tokenizing `code`: tokens the lexer in use made of it,
/// or the refusal, with the text.
pub open spec fn lexing_of(code: Seq<char>, l: Result<Vec<TokenTree>, PushParseError>) -> bool {
    match l {
        Ok(t) => lexes(code, shapes_of(t@)),
        Err(e) => e.code@ == code,
    }
}

/// Tokenize `code`, keeping the tokens or the refusal for later.
pub fn lex_text(code: &str) -> (r: Result<Vec<TokenTree>, PushParseError>)
    ensures
        lexing_of(code@, r),
{
    match lex(code) {
        Ok(tokens) => Ok(tokens),
        Err(error) => Err(PushParseError { error, code: code.to_string() }),
    }
}

/// A helper to build a token sequence piece by piece.
pub struct StreamBuilder {
    pub stream: Vec<TokenTree>,
}

impl StreamBuilder {
    /// An empty builder.
    pub fn new() -> (r: StreamBuilder)
        ensures
            r.stream@ == Seq::<TokenTree>::empty(),
    {
        StreamBuilder { stream: Vec::new() }
    }

    /// Add the given tokens, in order.
    pub fn extend(&mut self, items: Vec<TokenTree>)
        ensures
            final(self).stream@ == old(self).stream@ + items@,
            shapes_of(final(self).stream@) == shapes_of(old(self).stream@) + shapes_of(items@),
    {
        let mut items = items;
        proof { lemma_shapes_concat(self.stream@, items@); }
        self.stream.append(&mut items);
    }

    /// Add everything another builder holds.
    pub fn append(&mut self, builder: StreamBuilder)
        ensures
            final(self).stream@ == old(self).stream@ + builder.stream@,
            shapes_of(final(self).stream@) == shapes_of(old(self).stream@) + shapes_of(builder.stream@),
    {
        self.extend(builder.stream);
    }

    /// Add a single token.
    pub fn push(&mut self, item: TokenTree)
        ensures
            final(self).stream@ == old(self).stream@.push(item),
            shapes_of(final(self).stream@) == shapes_of(old(self).stream@) + seq![shape(item)],
    {
        proof { lemma_pushed(self.stream@, item); }
        self.stream.push(item);
    }

    /// Tokenize `code` and add its tokens after those already held. Text that does
    /// not tokenize is reported with the text itself, and nothing is added.
    pub fn push_parsed(&mut self, code: &str) -> (r: Result<(), Error>)
        ensures
            match r {
                Ok(()) => final(self).stream@.len() >= old(self).stream@.len()
                    && final(self).stream@.subrange(0, old(self).stream@.len() as int) == old(self).stream@
                    && lexes(code@, shapes_of(added(old(self).stream@, final(self).stream@)))
                    && shapes_of(final(self).stream@) == shapes_of(old(self).stream@)
                        + shapes_of(added(old(self).stream@, final(self).stream@)),
                Err(e) => final(self).stream@ == old(self).stream@ && e is PushParse
                    && e->PushParse_0.code@ == code@,
            },
    {
        let l = lex_text(code);
        let r = self.append_lexed(l);
        proof {
            if r is Ok {
                assert(added(old(self).stream@, self.stream@) =~= l->Ok_0@);
                assert(self.stream@.subrange(0, old(self).stream@.len() as int) =~= old(self).stream@);
            }
        }
        r
    }

    /// Add tokens that were tokenized before, or report the text that was not.
    /// Nothing is added on the error.
    pub fn append_lexed(&mut self, l: Result<Vec<TokenTree>, PushParseError>) -> (r: Result<(), Error>)
        ensures
            r is Ok <==> l is Ok,
            l is Ok ==> final(self).stream@ == old(self).stream@ + l->Ok_0@
                && shapes_of(final(self).stream@) == shapes_of(old(self).stream@) + piece(l),
            l is Err ==> final(self).stream@ == old(self).stream@ && r == Err::<(), Error>(Error::PushParse(l->Err_0)),
    {
        match l {
            Ok(tokens) => {
                self.extend(tokens);
                Ok(())
            },
            Err(e) => Err(Error::PushParse(e)),
        }
    }

    /// Add an identifier as it is, location included.
    pub fn ident(&mut self, ident: Ident)
        ensures
            final(self).stream@ == old(self).stream@.push(TokenTree::Ident(ident)),
            shapes_of(final(self).stream@) == shapes_of(old(self).stream@) + seq![ident_shape(ident.text@)],
    {
        proof { lemma_pushed(self.stream@, TokenTree::Ident(ident)); }
        self.stream.push(TokenTree::Ident(ident));
    }

    /// Add an identifier with the given text at the invocation's location.
    pub fn ident_str(&mut self, ident: &str)
        ensures
            extended(old(self).stream@, final(self).stream@, seq![ident_shape(ident@)]),
            shapes_of(final(self).stream@) == shapes_of(old(self).stream@) + seq![ident_shape(ident@)],
    {
        let t = TokenTree::Ident(Ident::new(ident, Span::call_site()));
        self.stream.push(t);
        proof { lemma_pushed(old(self).stream@, t); }
    }

    /// Add a group delimited by `delim` whose contents `inner` builds from a fresh
    /// builder. Where `inner` fails, nothing is added and its error is returned.
    pub fn group<F: FnOnce(StreamBuilder) -> Result<StreamBuilder, Error>>(&mut self, delim: Delim, inner: F) -> (r: Result<(), Error>)
        requires
            forall|b: StreamBuilder| inner.requires((b,)),
        ensures
            r is Err ==> final(self).stream@ == old(self).stream@,
            r is Err ==> exists|b: StreamBuilder| b.stream@.len() == 0
                && #[trigger] inner.ensures((b,), Err::<StreamBuilder, Error>(r->Err_0)),
            r is Ok ==> exists|b: StreamBuilder, v: StreamBuilder|
                #![trigger inner.ensures((b,), Ok::<StreamBuilder, Error>(v))]
                b.stream@.len() == 0 && inner.ensures((b,), Ok::<StreamBuilder, Error>(v))
                && final(self).stream@.len() == old(self).stream@.len() + 1
                && final(self).stream@.drop_last() == old(self).stream@
                && final(self).stream@.last() is Group
                && final(self).stream@.last()->Group_0.delimiter == delim
                && final(self).stream@.last()->Group_0.stream == v.stream,
    {
        let fresh = StreamBuilder::new();
        let ghost b0 = fresh;
        let res = inner(fresh);
        let v = match res {
            Ok(v) => v,
            Err(e) => {
                let r: Result<(), Error> = Err(e);
                assert(inner.ensures((b0,), Err::<StreamBuilder, Error>(r->Err_0)));
                assert(b0.stream@.len() == 0);
                return r;
            },
        };
        self.group_of(delim, v);
        Ok(())
    }

    /// Add a group delimited by `delim` that holds what `inner` holds.
    pub fn group_of(&mut self, delim: Delim, inner: StreamBuilder)
        ensures
            final(self).stream@.len() == old(self).stream@.len() + 1,
            final(self).stream@.drop_last() == old(self).stream@,
            final(self).stream@.last() is Group,
            final(self).stream@.last()->Group_0.delimiter == delim,
            final(self).stream@.last()->Group_0.stream == inner.stream,
            extended(
                old(self).stream@,
                final(self).stream@,
                seq![group_shape(delim, shapes_upto(inner.stream@, inner.stream@.len() as nat))],
            ),
            shapes_of(final(self).stream@) == shapes_of(old(self).stream@) + seq![group_shape(delim, shapes_of(inner.stream@))],
    {
        let t = TokenTree::Group(Group { delimiter: delim, stream: inner.stream, span: Span::call_site() });
        self.stream.push(t);
        proof { lemma_pushed(old(self).stream@, t); }
    }

    /// Add a single punctuation character that stands alone.
    pub fn punct(&mut self, p: char)
        ensures
            extended(old(self).stream@, final(self).stream@, seq![punct_shape(p)]),
            shapes_of(final(self).stream@) == shapes_of(old(self).stream@) + seq![punct_shape(p)],
    {
        let t = TokenTree::Punct(Punct { ch: p, spacing: PunctSpacing::Alone, span: Span::call_site() });
        self.stream.push(t);
        proof { lemma_pushed(old(self).stream@, t); }
    }

    /// Add several punctuation characters glued together, such as `::` or `->`.
    pub fn puncts(&mut self, puncts: &str)
        ensures
            extended(old(self).stream@, final(self).stream@, joint_shapes(puncts@)),
            shapes_of(final(self).stream@) == shapes_of(old(self).stream@) + joint_shapes(puncts@),
    {
        let n = puncts.unicode_len();
        let mut i: usize = 0;
        proof {
            lemma_extended_empty(self.stream@);
            assert(puncts@.subrange(0, 0).len() == 0);
            assert(shapes_of(self.stream@) + joint_shapes(puncts@.subrange(0, 0)) =~= shapes_of(self.stream@));
        }
        while i < n
            invariant
                n == puncts@.len(),
                i <= n,
                extended(old(self).stream@, self.stream@, joint_shapes(puncts@.subrange(0, i as int))),
                shapes_of(self.stream@) == shapes_of(old(self).stream@) + joint_shapes(puncts@.subrange(0, i as int)),
            decreases n - i,
        {
            let c = puncts.get_char(i);
            let t = TokenTree::Punct(Punct { ch: c, spacing: PunctSpacing::Joint, span: Span::call_site() });
            proof {
                let before = self.stream@;
                lemma_pushed(before, t);
                lemma_extended_trans(old(self).stream@, before, before.push(t),
                    joint_shapes(puncts@.subrange(0, i as int)), seq![shape(t)]);
                assert(puncts@.subrange(0, i + 1).drop_last() =~= puncts@.subrange(0, i as int));
                assert(joint_shapes(puncts@.subrange(0, i as int)) + seq![shape(t)]
                    =~= joint_shapes(puncts@.subrange(0, i + 1)));
            }
            self.stream.push(t);
            i += 1;
        }
        assert(puncts@.subrange(0, n as int) =~= puncts@);
    }

    /// Add a lifetime: an apostrophe glued to the given identifier.
    pub fn lifetime(&mut self, lt: Ident)
        ensures
            final(self).stream@.len() == old(self).stream@.len() + 2,
            final(self).stream@.subrange(0, old(self).stream@.len() as int) == old(self).stream@,
            final(self).stream@.last() == TokenTree::Ident(lt),
            extended(old(self).stream@, final(self).stream@, lifetime_shapes(lt.text@)),
            shapes_of(final(self).stream@) == shapes_of(old(self).stream@) + lifetime_shapes(lt.text@),
    {
        let t = TokenTree::Punct(Punct { ch: '\'', spacing: PunctSpacing::Joint, span: Span::call_site() });
        let ghost lt_text = lt.text@;
        self.stream.push(t);
        proof { lemma_pushed(old(self).stream@, t); }
        let ghost mid = self.stream@;
        let u = TokenTree::Ident(lt);
        self.stream.push(u);
        proof {
            lemma_pushed(mid, u);
            lemma_extended_trans(old(self).stream@, mid, self.stream@, seq![shape(t)], seq![shape(u)]);
            assert(seq![shape(t)] + seq![shape(u)] == lifetime_shapes(lt_text));
        }
    }

    /// Add a lifetime with the given name, without its apostrophe.
    pub fn lifetime_str(&mut self, lt: &str)
        ensures
            extended(old(self).stream@, final(self).stream@, lifetime_shapes(lt@)),
            shapes_of(final(self).stream@) == shapes_of(old(self).stream@) + lifetime_shapes(lt@),
    {
        self.lifetime(Ident::new(lt, Span::call_site()));
    }

    /// Add a string literal holding `s`.
    pub fn lit_str(&mut self, s: &str)
        ensures
            final(self).stream@.len() == old(self).stream@.len() + 1,
            final(self).stream@.drop_last() == old(self).stream@,
            final(self).stream@.last() is Literal,
            quotes(s@, final(self).stream@.last()->Literal_0.text@),
            shapes_of(final(self).stream@) == shapes_of(old(self).stream@)
                + seq![TokenShape::Literal(final(self).stream@.last()->Literal_0.text@)],
    {
        let t = TokenTree::Literal(Literal { text: string_literal(s), span: Span::call_site() });
        self.stream.push(t);
        proof { lemma_pushed(old(self).stream@, t); }
    }

    /// Add an unsuffixed integer literal of `val`.
    pub fn lit_usize(&mut self, val: usize)
        ensures
            extended(old(self).stream@, final(self).stream@, seq![TokenShape::Literal(decimal(val as nat))]),
            shapes_of(final(self).stream@) == shapes_of(old(self).stream@) + seq![TokenShape::Literal(decimal(val as nat))],
    {
        let t = TokenTree::Literal(Literal { text: usize_literal(val), span: Span::call_site() });
        self.stream.push(t);
        proof { lemma_pushed(old(self).stream@, t); }
    }

    /// Move every top-level token to `span`; what the tokens say is unchanged.
    pub fn set_span_on_all_tokens(&mut self, span: Span)
        ensures
            final(self).stream@.len() == old(self).stream@.len(),
            forall|i: int| 0 <= i < old(self).stream@.len() ==>
                #[trigger] shape(final(self).stream@[i]) == shape(old(self).stream@[i]),
            forall|i: int| 0 <= i < old(self).stream@.len() ==>
                #[trigger] span_of(final(self).stream@[i]) == span,
    {
        let n = self.stream.len();
        let mut old_tokens: Vec<TokenTree> = Vec::new();
        std::mem::swap(&mut old_tokens, &mut self.stream);
        let ghost orig = old_tokens@;
        assert(orig == old(self).stream@);
        let mut rev: Vec<TokenTree> = Vec::new();
        while old_tokens.len() > 0
            invariant
                old_tokens@.len() + rev@.len() == n,
                n == orig.len(),
                orig == old(self).stream@,
                old_tokens@ == orig.subrange(0, old_tokens@.len() as int),
                forall|j: int| 0 <= j < rev@.len() ==> #[trigger] shape(rev@[j]) == shape(orig[n - 1 - j]),
                forall|j: int| 0 <= j < rev@.len() ==> #[trigger] span_of(rev@[j]) == span,
            decreases old_tokens@.len(),
        {
            let mut t = old_tokens.pop().unwrap();
            t.set_span(span);
            rev.push(t);
        }
        let mut out: Vec<TokenTree> = Vec::new();
        while rev.len() > 0
            invariant
                rev@.len() + out@.len() == n,
                n == orig.len(),
                orig == old(self).stream@,
                forall|j: int| 0 <= j < rev@.len() ==> #[trigger] shape(rev@[j]) == shape(orig[n - 1 - j]),
                forall|j: int| 0 <= j < rev@.len() ==> #[trigger] span_of(rev@[j]) == span,
                forall|j: int| 0 <= j < out@.len() ==> #[trigger] shape(out@[j]) == shape(orig[j]),
                forall|j: int| 0 <= j < out@.len() ==> #[trigger] span_of(out@[j]) == span,
            decreases rev@.len(),
        {
            let t = rev.pop().unwrap();
            out.push(t);
        }
        self.stream = out;
    }
}

pub proof fn lemma_pushed(before: Seq<TokenTree>, t: TokenTree)
    ensures
        extended(before, before.push(t), seq![shape(t)]),
        shapes_of(before.push(t)) == shapes_of(before) + seq![shape(t)],
{
    assert(before.push(t) =~= before + seq![t]);
    lemma_shapes_concat(before, seq![t]);
    lemma_shapes_one(t);
    assert(before.push(t).subrange(0, before.len() as int) == before);
    assert(before.push(t).subrange(before.len() as int, before.len() as int + 1) == seq![t]);
}

} // verus!
