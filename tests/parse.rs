use proc_macro2::Span;
use virtue::attributes::{Attribute, AttributeLocation, Visibility};
use virtue::body::{EnumBody, Fields, IdentOrIndex, StructBody, UnnamedField};
use virtue::cursor::TokenCursor;
use virtue::error::Error;
use virtue::generics::{Generic, GenericConstraints, Generics};
use virtue::parse::{DataType, Function, Parse};
use virtue::stream_builder::StreamBuilder;
use virtue::token::{Ident, Punct, PunctSpacing, TokenTree};

fn tokens(s: &str) -> Vec<TokenTree> {
    let mut builder = StreamBuilder::new();
    builder
        .push_parsed(s)
        .unwrap_or_else(|e| panic!("Could not parse code: {:?}\n{:?}", s, e));
    builder.stream
}

fn token_stream(s: &str) -> TokenCursor {
    TokenCursor::new(tokens(s))
}

fn field_at(fields: &Fields, index: usize) -> Option<(Option<&Ident>, &UnnamedField)> {
    match fields {
        Fields::Tuple(fields) => fields.get(index).map(|f| (None, f)),
        Fields::Struct(fields) => fields.get(index).map(|(ident, field)| (Some(ident), field)),
    }
}

fn integer_of(value: &Option<virtue::token::Literal>) -> i64 {
    value
        .as_ref()
        .expect("Variant has no value")
        .text
        .parse()
        .expect("Value is not a valid integer")
}

fn name_of(generic: &Generic) -> String {
    generic.ident().text.clone()
}

fn validate_output_eq(input: &str, expected_dt: DataType, expected_ident: &str) {
    let (dt, ident) = DataType::take(&mut token_stream(input)).unwrap_or_else(|e| {
        panic!("Could not parse tokenstream {:?}: {:?}", input, e);
    });
    if dt != expected_dt || ident.text != expected_ident {
        println!("While parsing {:?}", input);
        panic!(
            "Expected {:?} {:?}, received {:?} {:?}",
            dt, ident, expected_dt, expected_ident
        );
    }
}

fn parse_function(s: &str) -> Function {
    Function::try_take(&mut token_stream(s)).unwrap()
}

#[test]
fn test_attributes_try_take() {
    let stream = &mut token_stream("struct Foo;");
    assert!(Attribute::try_take(AttributeLocation::Container, stream)
        .unwrap()
        .is_empty());
    match stream.next().unwrap() {
        TokenTree::Ident(i) => assert_eq!(i.text, "struct"),
        x => panic!("Expected ident, found {:?}", x),
    }

    let stream = &mut token_stream("#[cfg(test)] struct Foo;");
    assert!(!Attribute::try_take(AttributeLocation::Container, stream)
        .unwrap()
        .is_empty());
    match stream.next().unwrap() {
        TokenTree::Ident(i) => assert_eq!(i.text, "struct"),
        x => panic!("Expected ident, found {:?}", x),
    }
}

#[test]
fn test_struct_body_take() {
    let stream = &mut token_stream(
        "struct Foo { pub bar: u8, pub(crate) baz: u32, bla: Vec<Box<dyn Future<Output = ()>>> }",
    );
    let (data_type, ident) = DataType::take(stream).unwrap();
    assert_eq!(data_type, DataType::Struct);
    assert_eq!(ident.text, "Foo");
    let body = StructBody::take(stream).unwrap();
    let fields = body.fields.as_ref().unwrap();

    assert_eq!(fields.len(), 3);
    let (ident, field) = field_at(fields, 0).unwrap();
    assert_eq!(ident.unwrap().text, "bar");
    assert_eq!(field.vis, Visibility::Pub);
    assert_eq!(field.type_string(), "u8");

    let (ident, field) = field_at(fields, 1).unwrap();
    assert_eq!(ident.unwrap().text, "baz");
    assert_eq!(field.vis, Visibility::Pub);
    assert_eq!(field.type_string(), "u32");

    let (ident, field) = field_at(fields, 2).unwrap();
    assert_eq!(ident.unwrap().text, "bla");
    assert_eq!(field.vis, Visibility::Default);
    assert_eq!(field.type_string(), "Vec<Box<dynFuture<Output=()>>>");

    let stream = &mut token_stream(
        "struct Foo ( pub u8, pub(crate) u32, Vec<Box<dyn Future<Output = ()>>> )",
    );
    let (data_type, ident) = DataType::take(stream).unwrap();
    assert_eq!(data_type, DataType::Struct);
    assert_eq!(ident.text, "Foo");
    let body = StructBody::take(stream).unwrap();
    let fields = body.fields.as_ref().unwrap();

    assert_eq!(fields.len(), 3);

    let (ident, field) = field_at(fields, 0).unwrap();
    assert!(ident.is_none());
    assert_eq!(field.vis, Visibility::Pub);
    assert_eq!(field.type_string(), "u8");

    let (ident, field) = field_at(fields, 1).unwrap();
    assert!(ident.is_none());
    assert_eq!(field.vis, Visibility::Pub);
    assert_eq!(field.type_string(), "u32");

    let (ident, field) = field_at(fields, 2).unwrap();
    assert!(ident.is_none());
    assert_eq!(field.vis, Visibility::Default);
    assert_eq!(field.type_string(), "Vec<Box<dynFuture<Output=()>>>");

    let stream = &mut token_stream("struct Foo;");
    let (data_type, ident) = DataType::take(stream).unwrap();
    assert_eq!(data_type, DataType::Struct);
    assert_eq!(ident.text, "Foo");
    let body = StructBody::take(stream).unwrap();
    assert!(body.fields.is_none());

    let stream = &mut token_stream("struct Foo {}");
    let (data_type, ident) = DataType::take(stream).unwrap();
    assert_eq!(data_type, DataType::Struct);
    assert_eq!(ident.text, "Foo");
    let body = StructBody::take(stream).unwrap();
    if let Some(Fields::Struct(v)) = body.fields {
        assert!(v.len() == 0);
    } else {
        panic!("wrong fields {:?}", body.fields);
    }

    let stream = &mut token_stream("struct Foo ()");
    let (data_type, ident) = DataType::take(stream).unwrap();
    assert_eq!(data_type, DataType::Struct);
    assert_eq!(ident.text, "Foo");
    let body = StructBody::take(stream).unwrap();
    if let Some(Fields::Tuple(v)) = body.fields {
        assert!(v.len() == 0);
    } else {
        panic!("wrong fields {:?}", body.fields);
    }
}

#[test]
fn test_enum_body_take() {
    let stream = &mut token_stream("enum Foo { }");
    let (data_type, ident) = DataType::take(stream).unwrap();
    assert_eq!(data_type, DataType::Enum);
    assert_eq!(ident.text, "Foo");
    let body = EnumBody::take(stream).unwrap();
    assert!(body.variants.is_empty());

    let stream = &mut token_stream("enum Foo { Bar, Baz(u8), Blah { a: u32, b: u128 } }");
    let (data_type, ident) = DataType::take(stream).unwrap();
    assert_eq!(data_type, DataType::Enum);
    assert_eq!(ident.text, "Foo");
    let body = EnumBody::take(stream).unwrap();
    assert_eq!(3, body.variants.len());

    assert_eq!(body.variants[0].name.text, "Bar");
    assert!(body.variants[0].fields.is_none());

    assert_eq!(body.variants[1].name.text, "Baz");
    assert!(body.variants[1].fields.is_some());
    let fields = body.variants[1].fields.as_ref().unwrap();
    assert_eq!(1, fields.len());
    let (ident, field) = field_at(fields, 0).unwrap();
    assert!(ident.is_none());
    assert_eq!(field.type_string(), "u8");

    assert_eq!(body.variants[2].name.text, "Blah");
    assert!(body.variants[2].fields.is_some());
    let fields = body.variants[2].fields.as_ref().unwrap();
    assert_eq!(2, fields.len());
    let (ident, field) = field_at(fields, 0).unwrap();
    assert_eq!(ident.unwrap().text, "a");
    assert_eq!(field.type_string(), "u32");
    let (ident, field) = field_at(fields, 1).unwrap();
    assert_eq!(ident.unwrap().text, "b");
    assert_eq!(field.type_string(), "u128");

    let stream = &mut token_stream("enum Foo { Bar = -1, Baz = 2 }");
    let (data_type, ident) = DataType::take(stream).unwrap();
    assert_eq!(data_type, DataType::Enum);
    assert_eq!(ident.text, "Foo");
    let body = EnumBody::take(stream).unwrap();
    assert_eq!(2, body.variants.len());

    assert_eq!(body.variants[0].name.text, "Bar");
    assert!(body.variants[0].fields.is_none());
    assert_eq!(integer_of(&body.variants[0].value), -1);

    assert_eq!(body.variants[1].name.text, "Baz");
    assert!(body.variants[1].fields.is_none());
    assert_eq!(integer_of(&body.variants[1].value), 2);

    let stream = &mut token_stream("enum Foo { Bar(i32) = -1, Baz { a: i32 } = 2 }");
    let (data_type, ident) = DataType::take(stream).unwrap();
    assert_eq!(data_type, DataType::Enum);
    assert_eq!(ident.text, "Foo");
    let body = EnumBody::take(stream).unwrap();
    assert_eq!(2, body.variants.len());

    assert_eq!(body.variants[0].name.text, "Bar");
    assert!(body.variants[0].fields.is_some());
    let fields = body.variants[0].fields.as_ref().unwrap();
    assert_eq!(fields.len(), 1);
    assert!(matches!(fields.names()[0], IdentOrIndex::Index { index, .. } if index == 0));
    assert_eq!(integer_of(&body.variants[0].value), -1);

    assert_eq!(body.variants[1].name.text, "Baz");
    assert!(body.variants[1].fields.is_some());
    let fields = body.variants[1].fields.as_ref().unwrap();
    assert_eq!(fields.len(), 1);
    assert_eq!(fields.names().len(), 1);
    assert!(
        matches!(fields.names()[0], IdentOrIndex::Ident { ident, .. } if ident.text == "a")
    );
    assert_eq!(integer_of(&body.variants[1].value), 2);

    let stream = &mut token_stream("enum Foo { Round(), Curly{}, Without }");
    let (data_type, ident) = DataType::take(stream).unwrap();
    assert_eq!(data_type, DataType::Enum);
    assert_eq!(ident.text, "Foo");
    let body = EnumBody::take(stream).unwrap();
    assert_eq!(3, body.variants.len());

    assert_eq!(body.variants[0].name.text, "Round");
    assert!(body.variants[0].fields.is_some());
    let fields = body.variants[0].fields.as_ref().unwrap();
    assert!(fields.names().is_empty());
    assert_eq!(fields.len(), 0);

    assert_eq!(body.variants[1].name.text, "Curly");
    assert!(body.variants[1].fields.is_some());
    let fields = body.variants[1].fields.as_ref().unwrap();
    assert!(fields.names().is_empty());
    assert_eq!(fields.len(), 0);

    assert_eq!(body.variants[2].name.text, "Without");
    assert!(body.variants[2].fields.is_none());
}

#[test]
fn enum_explicit_variants() {
    let stream = &mut token_stream("{ A = 1, B = 2 }");
    let body = EnumBody::take(stream).unwrap();
    assert_eq!(body.variants.len(), 2);
}

#[test]
fn test_datatype_take() {
    assert!(DataType::take(&mut token_stream("enum"))
        .unwrap_err()
        .is_invalid_rust_syntax());
    validate_output_eq("enum Foo", DataType::Enum, "Foo");
    validate_output_eq("enum Foo { }", DataType::Enum, "Foo");
    validate_output_eq("enum Foo { bar, baz }", DataType::Enum, "Foo");
    validate_output_eq("enum Foo<'a, T> { bar, baz }", DataType::Enum, "Foo");

    assert!(DataType::take(&mut token_stream("struct"))
        .unwrap_err()
        .is_invalid_rust_syntax());
    validate_output_eq("struct Foo { }", DataType::Struct, "Foo");
    validate_output_eq("struct Foo { bar: u32, baz: u32 }", DataType::Struct, "Foo");
    validate_output_eq("struct Foo<'a, T> { bar: &'a T }", DataType::Struct, "Foo");

    assert!(DataType::take(&mut token_stream("fn foo() {}"))
        .unwrap_err()
        .is_unknown_data_type());

    assert!(DataType::take(&mut token_stream("() {}"))
        .unwrap_err()
        .is_invalid_rust_syntax());

    assert!(DataType::take(&mut token_stream(""))
        .unwrap_err()
        .is_invalid_rust_syntax());
}

#[test]
fn playground() {
    let foo = parse_function(
        "pub fn foo<'a, 'b, T>(
            arg2: &'a [T],
        ) -> ()
        where
            T: Default,
        {
            println!(\"{}\", \"Hello, world!\");
        }",
    );
    println!("{:#?}", foo);
}

#[test]
fn test_simple() {
    let func = parse_function("pub async unsafe fn foo() {}");
    assert_eq!(func.visibility, Visibility::Pub);
    assert!(func.is_async);
    assert!(func.is_unsafe);
    assert_eq!(func.name, "foo");
    assert!(func.generics.is_none());

    let func = parse_function("pub fn foo() {}");
    assert_eq!(func.visibility, Visibility::Pub);
    assert_eq!(func.name, "foo");

    let func = parse_function("extern \"C\" fn bar() {}");
    assert_eq!(func.visibility, Visibility::Default);
    assert_eq!(func.name, "bar");
}

#[test]
fn test_generics_try_take() {
    assert!(Generics::try_take(&mut token_stream("")).unwrap().is_none());
    assert!(Generics::try_take(&mut token_stream("foo"))
        .unwrap()
        .is_none());
    assert!(Generics::try_take(&mut token_stream("()"))
        .unwrap()
        .is_none());

    let stream = &mut token_stream("struct Foo<'a, T>()");
    let (data_type, ident) = DataType::take(stream).unwrap();
    assert_eq!(data_type, DataType::Struct);
    assert_eq!(ident.text, "Foo");
    let generics = Generics::try_take(stream).unwrap().unwrap();
    assert_eq!(generics.0.len(), 2);
    assert_eq!(name_of(&generics.0[0]), "a");
    assert_eq!(name_of(&generics.0[1]), "T");

    let stream = &mut token_stream("struct Foo<A, B>()");
    let (data_type, ident) = DataType::take(stream).unwrap();
    assert_eq!(data_type, DataType::Struct);
    assert_eq!(ident.text, "Foo");
    let generics = Generics::try_take(stream).unwrap().unwrap();
    assert_eq!(generics.0.len(), 2);
    assert_eq!(name_of(&generics.0[0]), "A");
    assert_eq!(name_of(&generics.0[1]), "B");

    let stream = &mut token_stream("struct Foo<'a, T: Display>()");
    let (data_type, ident) = DataType::take(stream).unwrap();
    assert_eq!(data_type, DataType::Struct);
    assert_eq!(ident.text, "Foo");
    let generics = Generics::try_take(stream).unwrap().unwrap();
    assert_eq!(generics.0.len(), 2);
    assert_eq!(name_of(&generics.0[0]), "a");
    assert_eq!(name_of(&generics.0[1]), "T");

    let stream = &mut token_stream("struct Foo<'a, T: for<'a> Bar<'a> + 'static>()");
    let (data_type, ident) = DataType::take(stream).unwrap();
    assert_eq!(data_type, DataType::Struct);
    assert_eq!(ident.text, "Foo");
    assert_eq!(generics.0.len(), 2);
    assert_eq!(name_of(&generics.0[0]), "a");
    assert_eq!(name_of(&generics.0[1]), "T");

    let stream = &mut token_stream(
        "struct Baz<T: for<'a> Bar<'a, for<'b> Bar<'b, for<'c> Bar<'c, u32>>>> {}",
    );
    let (data_type, ident) = DataType::take(stream).unwrap();
    assert_eq!(data_type, DataType::Struct);
    assert_eq!(ident.text, "Baz");
    let generics = Generics::try_take(stream).unwrap().unwrap();
    assert_eq!(generics.0.len(), 1);
    assert_eq!(name_of(&generics.0[0]), "T");

    let stream = &mut token_stream("struct Baz<()> {}");
    let (data_type, ident) = DataType::take(stream).unwrap();
    assert_eq!(data_type, DataType::Struct);
    assert_eq!(ident.text, "Baz");
    assert!(Generics::try_take(stream)
        .unwrap_err()
        .is_invalid_rust_syntax());

    let stream = &mut token_stream("struct Bar<A: FnOnce(&'static str) -> SomeStruct, B>");
    let (data_type, ident) = DataType::take(stream).unwrap();
    assert_eq!(data_type, DataType::Struct);
    assert_eq!(ident.text, "Bar");
    let generics = Generics::try_take(stream).unwrap().unwrap();
    assert_eq!(generics.0.len(), 2);
    assert_eq!(name_of(&generics.0[0]), "A");
    assert_eq!(name_of(&generics.0[1]), "B");
}

#[test]
fn test_generic_constraints_try_take() {
    let stream = &mut token_stream("struct Foo where Foo: Bar { }");
    DataType::take(stream).unwrap();
    assert!(GenericConstraints::try_take(stream).unwrap().is_some());

    let stream = &mut token_stream("struct Foo { }");
    DataType::take(stream).unwrap();
    assert!(GenericConstraints::try_take(stream).unwrap().is_none());

    let stream = &mut token_stream("struct Foo where Foo: Bar(Foo)");
    DataType::take(stream).unwrap();
    assert!(GenericConstraints::try_take(stream).unwrap().is_some());

    let stream = &mut token_stream("struct Foo()");
    DataType::take(stream).unwrap();
    assert!(GenericConstraints::try_take(stream).unwrap().is_none());

    let stream = &mut token_stream("struct Foo()");
    assert!(GenericConstraints::try_take(stream).unwrap().is_none());

    let stream = &mut token_stream("{}");
    assert!(GenericConstraints::try_take(stream).unwrap().is_none());

    let stream = &mut token_stream("");
    assert!(GenericConstraints::try_take(stream).unwrap().is_none());

    let stream = &mut token_stream("pub(crate) struct Test<T: Encode> {}");
    assert_eq!(Visibility::Pub, Visibility::try_take(stream));
    let (data_type, ident) = DataType::take(stream).unwrap();
    assert_eq!(data_type, DataType::Struct);
    assert_eq!(ident.text, "Test");
    let constraints = Generics::try_take(stream).unwrap().unwrap();
    assert_eq!(constraints.0.len(), 1);
    assert_eq!(name_of(&constraints.0[0]), "T");
    let body = StructBody::take(stream).unwrap();
    assert_eq!(body.fields.unwrap().len(), 0);
}

#[test]
fn test_visibility_try_take() {
    assert_eq!(
        Visibility::Default,
        Visibility::try_take(&mut token_stream(""))
    );
    assert_eq!(
        Visibility::Pub,
        Visibility::try_take(&mut token_stream("pub"))
    );
    assert_eq!(
        Visibility::Pub,
        Visibility::try_take(&mut token_stream(" pub ")),
    );
    assert_eq!(
        Visibility::Pub,
        Visibility::try_take(&mut token_stream("\tpub\t"))
    );
    assert_eq!(
        Visibility::Pub,
        Visibility::try_take(&mut token_stream("pub(crate)"))
    );
    assert_eq!(
        Visibility::Pub,
        Visibility::try_take(&mut token_stream(" pub ( crate ) "))
    );
    assert_eq!(
        Visibility::Pub,
        Visibility::try_take(&mut token_stream("\tpub\t(\tcrate\t)\t"))
    );

    assert_eq!(
        Visibility::Default,
        Visibility::try_take(&mut token_stream("pb"))
    );
}

#[test]
fn record_fields_in_order() {
    let parsed = Parse::new(tokens("struct Foo { bar: u16, baz: String }")).unwrap();
    match parsed {
        Parse::Struct { visibility, name, body, .. } => {
            assert_eq!(visibility, Visibility::Default);
            assert_eq!(name.text, "Foo");
            let fields = body.fields.unwrap();
            assert_eq!(fields.len(), 2);
            let (ident, field) = field_at(&fields, 0).unwrap();
            assert_eq!(ident.unwrap().text, "bar");
            assert_eq!(field.type_string(), "u16");
            let (ident, field) = field_at(&fields, 1).unwrap();
            assert_eq!(ident.unwrap().text, "baz");
            assert_eq!(field.type_string(), "String");
        }
        Parse::Enum { .. } => panic!("parsed a struct as an enum"),
    }
}

#[test]
fn variant_shapes() {
    let parsed = Parse::new(tokens("enum Foo { A, B(u16), C { x: u32 } }")).unwrap();
    match parsed {
        Parse::Enum { body, .. } => {
            assert_eq!(body.variants.len(), 3);
            assert_eq!(body.variants[0].name.text, "A");
            assert!(body.variants[0].fields.is_none());
            match body.variants[1].fields.as_ref().unwrap() {
                Fields::Tuple(f) => {
                    assert_eq!(f.len(), 1);
                    assert_eq!(f[0].type_string(), "u16");
                }
                other => panic!("wrong fields {:?}", other),
            }
            match body.variants[2].fields.as_ref().unwrap() {
                Fields::Struct(f) => {
                    assert_eq!(f.len(), 1);
                    assert_eq!(f[0].0.text, "x");
                    assert_eq!(f[0].1.type_string(), "u32");
                }
                other => panic!("wrong fields {:?}", other),
            }
        }
        Parse::Struct { .. } => panic!("parsed an enum as a struct"),
    }
}

#[test]
fn unknown_keyword_is_reported() {
    let input = tokens("fn foo() {}");
    let err = Parse::new(input).err().unwrap();
    assert!(err.is_unknown_data_type());
    assert!(!err.is_invalid_rust_syntax());
}

#[test]
fn unmatched_bracket_in_generics_fails() {
    let punct = |c: char| {
        TokenTree::Punct(Punct {
            ch: c,
            spacing: PunctSpacing::Alone,
            span: Span::call_site(),
        })
    };
    let input = vec![
        TokenTree::Ident(Ident::new("struct", Span::call_site())),
        TokenTree::Ident(Ident::new("Foo", Span::call_site())),
        punct('<'),
        punct('('),
        punct('>'),
    ];
    let err = Parse::new(input).err().unwrap();
    assert!(err.is_invalid_rust_syntax());

    let mut builder = StreamBuilder::new();
    let err = builder.push_parsed("struct Foo<(>").unwrap_err();
    assert!(matches!(err, Error::PushParse(_)));
    assert!(builder.stream.is_empty());
}

#[test]
fn mismatched_bracket_in_bound_fails() {
    let mut input = tokens("struct Foo<T: Bar<u8");
    for c in [')', '>', '>'] {
        input.push(TokenTree::Punct(Punct {
            ch: c,
            spacing: PunctSpacing::Alone,
            span: Span::call_site(),
        }));
    }
    let stream = &mut TokenCursor::new(input);
    DataType::take(stream).unwrap();
    assert!(Generics::try_take(stream).unwrap_err().is_invalid_rust_syntax());
}

#[test]
fn lifetime_without_name_is_expected_ident() {
    let input = vec![
        TokenTree::Punct(Punct {
            ch: '\'',
            spacing: PunctSpacing::Joint,
            span: Span::call_site(),
        }),
        TokenTree::Punct(Punct {
            ch: ',',
            spacing: PunctSpacing::Alone,
            span: Span::call_site(),
        }),
    ];
    let err = virtue::generics::Lifetime::take(&mut TokenCursor::new(input)).unwrap_err();
    assert!(matches!(err, Error::ExpectedIdent(_)));
}

#[test]
fn attribute_with_wrong_delimiter_fails() {
    let err = Parse::new(tokens("# { x } struct Foo;")).err().unwrap();
    assert!(err.is_invalid_rust_syntax());
}

#[test]
fn attributes_visibility_and_where_clause() {
    let parsed = Parse::new(tokens(
        "#[derive(Debug)] #[serde(rename = \"x\")] pub struct Foo<T> where T: Clone { t: T }",
    ))
    .unwrap();
    match parsed {
        Parse::Struct { attributes, visibility, generics, generic_constraints, .. } => {
            assert_eq!(attributes.len(), 2);
            assert_eq!(attributes[0].location, AttributeLocation::Container);
            assert_eq!(visibility, Visibility::Pub);
            assert_eq!(generics.unwrap().0.len(), 1);
            let text: String = generic_constraints
                .unwrap()
                .constraints
                .iter()
                .map(|t| t.text())
                .collect();
            assert_eq!(text, "T:Clone");
        }
        Parse::Enum { .. } => panic!("parsed a struct as an enum"),
    }
}

#[test]
fn negative_discriminant_out_of_range_fails() {
    let err = EnumBody::take(&mut token_stream("{ A = -9223372036854775808 }")).unwrap_err();
    assert!(matches!(err, Error::Custom { .. }));
    let body = EnumBody::take(&mut token_stream("{ A = -9223372036854775807 }")).unwrap();
    assert_eq!(integer_of(&body.variants[0].value), -9223372036854775807);
}

#[test]
fn const_generic_is_read() {
    let generics = Generics::try_take(&mut token_stream("<const N: usize, 'a>")).unwrap().unwrap();
    assert_eq!(generics.0.len(), 2);
    match &generics.0[0] {
        Generic::Const(c) => {
            assert_eq!(c.ident.text, "N");
            assert_eq!(c.constraints.len(), 1);
        }
        _ => panic!("expected a const parameter"),
    }
    assert!(generics.0[1].is_lifetime());
    assert!(generics.has_lifetime());
    assert_eq!(generics.iter_generics().len(), 0);
}

#[test]
fn field_references() {
    let body = StructBody::take(&mut token_stream("(u8, #[attr] pub u16)")).unwrap();
    let fields = body.fields.unwrap();
    assert_eq!(fields.delimiter(), virtue::token::Delim::Parenthesis);
    let names = fields.names();
    assert_eq!(names.len(), 2);
    assert_eq!(names[1].to_string_with_prefix("field_"), "field_1");
    match names[1].to_token_tree_with_prefix("f") {
        TokenTree::Ident(i) => assert_eq!(i.text, "f1"),
        other => panic!("expected an identifier, got {:?}", other),
    }
    assert_eq!(names[1].attributes().len(), 1);

    let body = StructBody::take(&mut token_stream("{ a: u8 }")).unwrap();
    let fields = body.fields.unwrap();
    assert_eq!(fields.delimiter(), virtue::token::Delim::Brace);
    let names = fields.names();
    assert_eq!(names[0].unwrap_ident().text, "a");
    assert_eq!(names[0].to_string_with_prefix("field_"), "a");
}

#[test]
fn custom_errors() {
    let t = tokens("x").pop().unwrap();
    let e = Error::custom_at_token("bad", t);
    assert!(matches!(e, Error::Custom { span: Some(_), .. }));
    let e = Error::custom_at_opt_token("bad", None);
    assert!(matches!(e, Error::Custom { span: None, .. }));
    assert_eq!(e.message(), "bad");
}
