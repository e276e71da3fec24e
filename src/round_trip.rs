//! What the declaration parser makes of a struct definition that the struct
//! scope wrote.
use crate::attributes::{attrs_scan, vis_scan, AttrScan, Visibility};
use crate::body::{lemma_named_list_unfold, named_item, named_list, prefix_scan, FieldsView};
use crate::cursor::{is_punct, scan, scan_from, ScanEnd};
use crate::generics::{constraints_scan, generics_scan};
use crate::parse::{data_type_scan, decl_scan, BodyView, DataType};
use crate::scopes::{keyword_if, named_fields_shapes, StructField};
use crate::stream_builder::piece;
use crate::token::{group_shape, ident_shape, lemma_shapes_upto, punct_shape, shape, shaped, shapes_of, shapes_upto, Delim, Group, Ident, Punct, TokenShape, TokenTree};
use vstd::prelude::*;

verus! {

/// A field that reads back as written: private, not named `pub`, and of a type
/// that was tokenized to a single identifier.
pub open spec fn simple_field(f: StructField) -> bool {
    &&& f.vis == Visibility::Default
    &&& f.name@ != "pub"@
    &&& f.ty is Ok
    &&& piece(f.ty).len() == 1
    &&& piece(f.ty)[0] is Ident
}

/// The tokens of one simple field: `name : ty ,`.
pub open spec fn simple_field_shapes(f: StructField) -> Seq<TokenShape> {
    seq![ident_shape(f.name@), punct_shape(':'), piece(f.ty)[0], punct_shape(',')]
}

proof fn lemma_named_fields_front(fields: Seq<StructField>)
    requires
        fields.len() > 0,
        forall|i: int| 0 <= i < fields.len() ==> #[trigger] simple_field(fields[i]),
    ensures
        named_fields_shapes(fields) == simple_field_shapes(fields[0])
            + named_fields_shapes(fields.subrange(1, fields.len() as int)),
    decreases fields.len(),
{
    let f = fields.last();
    assert(simple_field(fields[fields.len() - 1]));
    assert(keyword_if(f.vis == Visibility::Pub, "pub"@) == Seq::<TokenShape>::empty());
    assert(piece(f.ty) =~= seq![piece(f.ty)[0]]);
    assert(named_fields_shapes(fields) == named_fields_shapes(fields.drop_last())
        + keyword_if(f.vis == Visibility::Pub, "pub"@) + seq![ident_shape(f.name@), punct_shape(':')] + piece(f.ty)
        + seq![punct_shape(',')]);
    if fields.len() == 1 {
        assert(fields.drop_last() =~= Seq::<StructField>::empty());
        assert(fields.subrange(1, 1) =~= Seq::<StructField>::empty());
        assert(named_fields_shapes(fields) =~= simple_field_shapes(fields[0]));
        assert(simple_field_shapes(fields[0]) + Seq::<TokenShape>::empty() =~= simple_field_shapes(fields[0]));
    } else {
        let front = fields.drop_last();
        assert forall|i: int| 0 <= i < front.len() implies #[trigger] simple_field(front[i]) by {
            assert(front[i] == fields[i]);
        }
        lemma_named_fields_front(front);
        let tail = fields.subrange(1, fields.len() as int);
        assert(tail.drop_last() =~= front.subrange(1, front.len() as int));
        assert(tail.last() == f);
        assert(named_fields_shapes(fields) =~= simple_field_shapes(fields[0]) + named_fields_shapes(tail));
    }
}

proof fn lemma_shape_ident(t: TokenTree, s: Seq<char>)
    requires
        shape(t) == ident_shape(s),
    ensures
        t is Ident,
        t->Ident_0.text@ == s,
{
}

proof fn lemma_shape_punct(t: TokenTree, c: char)
    requires
        shape(t) == punct_shape(c),
    ensures
        is_punct(t, c),
{
}

proof fn lemma_shaped_tail(ts: Seq<TokenTree>, shp: Seq<TokenShape>, n: int)
    requires
        shaped(ts, shp),
        0 <= n <= ts.len(),
    ensures
        shaped(ts.subrange(n, ts.len() as int), shp.subrange(n, shp.len() as int)),
{
    assert forall|i: int| 0 <= i < ts.len() - n implies #[trigger] shape(ts.subrange(n, ts.len() as int)[i])
        == shp.subrange(n, shp.len() as int)[i] by {
        assert(shape(ts[i + n]) == shp[i + n]);
    }
}

/// Named fields written by the struct scope read back with their names and
/// types, in order.
proof fn lemma_named_list_simple(ts: Seq<TokenTree>, fields: Seq<StructField>)
    requires
        shaped(ts, named_fields_shapes(fields)),
        forall|i: int| 0 <= i < fields.len() ==> #[trigger] simple_field(fields[i]),
    ensures
        named_list(ts) is Ok,
        named_list(ts)->Ok_0.len() == fields.len(),
        forall|i: int| 0 <= i < fields.len() ==> {
            &&& (#[trigger] named_list(ts)->Ok_0[i]).0.text@ == fields[i].name@
            &&& named_list(ts)->Ok_0[i].1.vis == Visibility::Default
            &&& named_list(ts)->Ok_0[i].1.ty.len() == 1
            &&& shape(named_list(ts)->Ok_0[i].1.ty[0]) == piece(fields[i].ty)[0]
        },
    decreases fields.len(),
{
    lemma_named_list_unfold(ts);
    if fields.len() == 0 {
        assert(ts.len() == 0);
        assert(attrs_scan(ts) == AttrScan::Done(Seq::<(Punct, Group)>::empty(), 0));
        assert(ts.subrange(0, 0) =~= ts);
        assert(named_item(ts) is Ok && named_item(ts)->Ok_0 is None);
    } else {
        let f = fields[0];
        assert(simple_field(fields[0]));
        lemma_named_fields_front(fields);
        let tail_fields = fields.subrange(1, fields.len() as int);
        let shp = named_fields_shapes(fields);
        assert(shp.len() == 4 + named_fields_shapes(tail_fields).len());
        assert(shape(ts[0]) == shp[0]);
        assert(shape(ts[1]) == shp[1]);
        assert(shape(ts[2]) == shp[2]);
        assert(shape(ts[3]) == shp[3]);
        lemma_shape_ident(ts[0], f.name@);
        lemma_shape_punct(ts[1], ':');
        lemma_shape_ident(ts[2], piece(f.ty)[0]->Ident_0);
        lemma_shape_punct(ts[3], ',');
        assert(!is_punct(ts[0], '#'));
        assert(attrs_scan(ts) == AttrScan::Done(Seq::<(Punct, Group)>::empty(), 0));
        assert(ts.subrange(0, ts.len() as int) =~= ts);
        assert(vis_scan(ts) == (Visibility::Default, 0int));
        assert(prefix_scan(ts) == Ok::<(Seq<(Punct, Group)>, Visibility, int), crate::body::Located>(
            (Seq::<(Punct, Group)>::empty(), Visibility::Default, 0)));
        let t3 = ts.subrange(2, ts.len() as int);
        assert(t3[0] == ts[2]);
        assert(t3[1] == ts[3]);
        assert(seq![','][0] == ',');
        assert(seq![','].contains(','));
        assert(scan_from(t3, seq![','], 1, Seq::empty()) == ScanEnd::Stop(1));
        assert(scan(t3, seq![',']) == ScanEnd::Stop(1));
        assert(crate::generics::with_comma(t3, 1) == 2);
        let item = named_item(ts);
        assert(item is Ok && item->Ok_0 is Some);
        assert((item->Ok_0->0).1 == 4);
        let rest = ts.subrange(4, ts.len() as int);
        lemma_shaped_tail(ts, shp, 4);
        assert(shp.subrange(4, shp.len() as int) =~= named_fields_shapes(tail_fields));
        assert forall|i: int| 0 <= i < tail_fields.len() implies #[trigger] simple_field(tail_fields[i]) by {
            assert(tail_fields[i] == fields[i + 1]);
        }
        lemma_named_list_simple(rest, tail_fields);
        let l = named_list(ts)->Ok_0;
        assert forall|i: int| 0 <= i < fields.len() implies {
            &&& (#[trigger] named_list(ts)->Ok_0[i]).0.text@ == fields[i].name@
            &&& named_list(ts)->Ok_0[i].1.vis == Visibility::Default
            &&& named_list(ts)->Ok_0[i].1.ty.len() == 1
            &&& shape(named_list(ts)->Ok_0[i].1.ty[0]) == piece(fields[i].ty)[0]
        } by {
            if i > 0 {
                assert(l[i] == named_list(rest)->Ok_0[i - 1]);
                assert(tail_fields[i - 1] == fields[i]);
            } else {
                assert(t3.subrange(0, 1)[0] == ts[2]);
            }
        }
    }
}

/// A struct that the struct scope wrote with simple named fields reads back as
/// a struct with the same name, and fields of the same names and types in the
/// same order.
pub proof fn lemma_struct_round_trip(ts: Seq<TokenTree>, name: Seq<char>, fields: Seq<StructField>)
    requires
        shapes_of(ts) == seq![ident_shape("struct"@), ident_shape(name)]
            + seq![group_shape(Delim::Brace, named_fields_shapes(fields))],
        forall|i: int| 0 <= i < fields.len() ==> #[trigger] simple_field(fields[i]),
    ensures
        decl_scan(ts) is Ok,
        decl_scan(ts)->Ok_0.name.text@ == name,
        decl_scan(ts)->Ok_0.body matches BodyView::Struct(Some(FieldsView::Struct(l))) && {
            &&& l.len() == fields.len()
            &&& forall|i: int| 0 <= i < fields.len() ==> {
                &&& (#[trigger] l[i]).0.text@ == fields[i].name@
                &&& l[i].1.ty.len() == 1
                &&& shape(l[i].1.ty[0]) == piece(fields[i].ty)[0]
            }
        },
{
    let shp = shapes_of(ts);
    lemma_shapes_upto(ts, ts.len());
    assert(ts.subrange(0, ts.len() as int) =~= ts);
    assert(shp.len() == 3);
    assert(shape(ts[0]) == shp[0]);
    assert(shape(ts[1]) == shp[1]);
    assert(shape(ts[2]) == shp[2]);
    lemma_shape_ident(ts[0], "struct"@);
    lemma_shape_ident(ts[1], name);
    let g = ts[2]->Group_0;
    assert(ts[2] is Group);
    assert(g.delimiter == Delim::Brace);
    assert(shapes_upto(g.stream@, g.stream@.len() as nat) == named_fields_shapes(fields));
    lemma_shapes_upto(g.stream@, g.stream@.len() as nat);
    assert(g.stream@.subrange(0, g.stream@.len() as int) =~= g.stream@);
    lemma_named_list_simple(g.stream@, fields);
    assert(!is_punct(ts[0], '#'));
    assert(attrs_scan(ts) == AttrScan::Done(Seq::<(Punct, Group)>::empty(), 0));
    assert("struct"@ != "pub"@) by {
        reveal_strlit("struct");
        reveal_strlit("pub");
        assert("struct"@[0] != "pub"@[0]);
    }
    assert(vis_scan(ts) == (Visibility::Default, 0int));
    assert(data_type_scan(ts) == Ok::<(DataType, Ident), crate::body::Located>((DataType::Struct, ts[1]->Ident_0)));
    let t3 = ts.subrange(2, ts.len() as int);
    assert(t3[0] == ts[2]);
    assert(generics_scan(t3) == Ok::<(Option<Seq<crate::generics::GenericView>>, int), crate::cursor::Fault>((None, 0)));
    assert(t3.subrange(0, t3.len() as int) =~= t3);
    assert(constraints_scan(t3) == Ok::<(Option<Seq<TokenTree>>, int), crate::cursor::Fault>((None, 0)));
}

} // verus!
