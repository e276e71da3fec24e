use proc_macro2::Span;
use virtue::body::Fields;
use virtue::error::Error;
use virtue::generator::{FnSelfArg, Generator, StringOrIdent};
use virtue::generics::Generics;
use virtue::parse::Parse;
use virtue::cursor::TokenCursor;
use virtue::stream_builder::StreamBuilder;
use virtue::token::{Delim, Ident, TokenTree};

fn tokens(s: &str) -> Vec<TokenTree> {
    let mut builder = StreamBuilder::new();
    builder
        .push_parsed(s)
        .unwrap_or_else(|e| panic!("Could not parse code: {:?}\n{:?}", s, e));
    builder.stream
}

fn token_stream(s: &str) -> TokenCursor {
    TokenCursor::new(tokens(s))
}

fn text(ts: &[TokenTree]) -> String {
    ts.iter().map(|t| t.text()).collect::<String>()
}

fn same_tokens(actual: &[TokenTree], expected: &str) {
    let expected = tokens(expected);
    assert_eq!(actual.len(), expected.len());
    assert_eq!(text(actual), text(&expected));
}

#[test]
fn impl_for_with_lifetimes() {
    // No generics
    let mut generator =
        Generator::new(Ident::new("StructOrEnum", Span::call_site()), None, None);
    generator
        .impl_for_with_lifetimes("Foo", vec!["a".to_string(), "b".to_string()])
        .close()
        .unwrap();
    let output = generator.finish().unwrap();
    assert_eq!(
        text(&output),
        text(&tokens("impl<'a, 'b> Foo<'a, 'b> for StructOrEnum { }")),
    );

    //with simple generics
    let mut generator = Generator::new(
        Ident::new("StructOrEnum", Span::call_site()),
        Generics::try_take(&mut token_stream("<T1, T2>")).unwrap(),
        None,
    );
    generator
        .impl_for_with_lifetimes("Foo", vec!["a".to_string(), "b".to_string()])
        .close()
        .unwrap();
    let output = generator.finish().unwrap();
    assert_eq!(
        text(&output),
        text(&tokens("impl<'a, 'b, T1, T2> Foo<'a, 'b> for StructOrEnum<T1, T2> { }"))
    );

    // with lifetimes
    let mut generator = Generator::new(
        Ident::new("StructOrEnum", Span::call_site()),
        Generics::try_take(&mut token_stream("<'alpha, 'beta>")).unwrap(),
        None,
    );
    generator
        .impl_for_with_lifetimes("Foo", vec!["a".to_string(), "b".to_string()])
        .close()
        .unwrap();
    let output = generator.finish().unwrap();
    assert_eq!(
        text(&output),
        text(&tokens(
            "impl<'a, 'b, 'alpha, 'beta> Foo<'a, 'b> for StructOrEnum<'alpha, 'beta> { }"
        ))
    );
}

#[test]
fn struct_scope_output() {
    let mut generator = Generator::with_name("Fooz");
    let mut s = generator.generate_struct("Foo");
    s.add_field("bar", "u16");
    s.add_field("baz", "String");
    s.close().unwrap();
    let output = generator.finish().unwrap();
    same_tokens(&output, "struct Foo { bar : u16 , baz : String , }");
}

#[test]
fn struct_scope_tuple_and_zst() {
    let mut generator = Generator::with_name("Fooz");
    let mut s = generator.generate_struct("Foo");
    s.make_tuple();
    s.make_pub();
    s.add_field("bar", "u16");
    s.add_pub_field("baz", "String");
    s.close().unwrap();
    let mut z = generator.generate_struct("Unit");
    z.make_zst();
    z.add_field("ignored", "u8");
    z.close().unwrap();
    let output = generator.finish().unwrap();
    same_tokens(&output, "pub struct Foo (u16 , pub String ,) ; struct Unit ;");
}

#[test]
fn generics_rendering() {
    let generics = Generics::try_take(&mut token_stream("<'a, T>")).unwrap().unwrap();
    assert_eq!(text(&generics.impl_generics().stream), "<'a,T>");
    assert_eq!(text(&generics.type_generics().stream), "<'a,T>");

    let bounded = Generics::try_take(&mut token_stream("<'a, T: Clone + 'a>"))
        .unwrap()
        .unwrap();
    assert_eq!(text(&bounded.impl_generics().stream), "<'a,T:Clone+'a>");
    assert_eq!(text(&bounded.type_generics().stream), "<'a,T>");

    let with_const = Generics::try_take(&mut token_stream("<const N: usize>"))
        .unwrap()
        .unwrap();
    assert_eq!(text(&with_const.impl_generics().stream), "<constN:usize>");
    assert_eq!(text(&with_const.type_generics().stream), "<N>");
}

#[test]
fn struct_output_parses_back() {
    let mut generator = Generator::with_name("Fooz");
    let mut s = generator.generate_struct("Foo");
    s.add_field("bar", "u16");
    s.add_field("baz", "String");
    s.close().unwrap();
    let output = generator.finish().unwrap();
    match Parse::new(output).unwrap() {
        Parse::Struct { name, body, .. } => {
            assert_eq!(name.text, "Foo");
            match body.fields.unwrap() {
                Fields::Struct(fields) => {
                    assert_eq!(fields.len(), 2);
                    assert_eq!(fields[0].0.text, "bar");
                    assert_eq!(fields[0].1.type_string(), "u16");
                    assert_eq!(fields[1].0.text, "baz");
                    assert_eq!(fields[1].1.type_string(), "String");
                }
                other => panic!("wrong fields {:?}", other),
            }
        }
        Parse::Enum { .. } => panic!("parsed a struct as an enum"),
    }
}

#[test]
fn sibling_scopes_flush_in_order() {
    let mut generator = Generator::with_name("Root");
    generator.generate_struct("A").close().unwrap();
    let mut b = generator.generate_enum("B");
    b.add_value("X").make_zst();
    b.close().unwrap();
    let output = generator.finish().unwrap();
    same_tokens(&output, "struct A { } enum B { X , }");
}

#[test]
fn failed_group_leaves_builder_unchanged() {
    let mut builder = StreamBuilder::new();
    builder.ident_str("before");
    let count = builder.stream.len();
    let result = builder.group(Delim::Brace, |mut b| {
        b.punct('x');
        Err(Error::custom("refused"))
    });
    assert!(result.is_err());
    assert_eq!(builder.stream.len(), count);

    builder
        .group(Delim::Parenthesis, |mut b| {
            b.ident_str("inside");
            Ok(b)
        })
        .unwrap();
    assert_eq!(builder.stream.len(), count + 1);
    assert_eq!(text(&builder.stream), "before(inside)");
}

#[test]
fn failed_scope_leaves_parent_unchanged() {
    let mut generator = Generator::with_name("Root");
    let mut s = generator.generate_struct("Foo");
    s.add_field("bar", "Vec<(u8>");
    assert!(s.close().is_err());
    assert!(generator.finish().unwrap().is_empty());
}

#[test]
fn function_in_impl() {
    let mut generator = Generator::with_name("Foo");
    let mut imp = generator.generate_impl();
    imp.generate_fn("hi")
        .with_attr("inline(never)")
        .with_self_arg(FnSelfArg::RefSelf)
        .with_return_type("&'static str")
        .body(|mut body| {
            body.lit_str("hi");
            Ok(body)
        })
        .unwrap();
    imp.close().unwrap();
    let output = generator.finish().unwrap();
    same_tokens(
        &output,
        "impl Foo { #[inline(never)] fn hi(&self,) -> &'static str { \"hi\" } }",
    );
}

#[test]
fn function_signature_parts() {
    let mut generator = Generator::with_name("Foo");
    let mut imp = generator.generate_impl();
    imp.generate_fn("foo")
        .make_pub()
        .as_async()
        .with_lifetime("a")
        .with_lifetime_deps("b", vec!["a".to_string()])
        .with_generic("D")
        .with_generic_deps("E", vec!["Encodable".to_string()])
        .with_arg("a", "u32")
        .with_arg("b", "u32")
        .body(Ok)
        .unwrap();
    imp.close().unwrap();
    let output = generator.finish().unwrap();
    same_tokens(
        &output,
        "impl Foo { pub async fn foo<'a, 'b: 'a, D, E: Encodable>(a: u32, b: u32) { } }",
    );
}

#[test]
fn function_with_bad_argument_fails() {
    let mut generator = Generator::with_name("Foo");
    let mut imp = generator.generate_impl();
    let result = imp.generate_fn("foo").with_arg("a", "(u8").body(Ok);
    assert!(matches!(result, Err(Error::PushParse(_))));
    imp.close().unwrap();
    let output = generator.finish().unwrap();
    same_tokens(&output, "impl Foo { }");
}

#[test]
fn impl_for_trait_with_type_and_const() {
    let mut generator = Generator::with_name("Bar");
    let mut imp = generator.impl_for("Foo");
    imp.impl_type("Output", "u8").unwrap();
    imp.generate_const("BAR", "u8")
        .with_value(|mut b| {
            b.push_parsed("5")?;
            Ok(b)
        })
        .unwrap();
    imp.close().unwrap();
    let output = generator.finish().unwrap();
    same_tokens(&output, "impl Foo for Bar { type Output = u8; const BAR : u8 = 5 ; }");
}

#[test]
fn impl_for_other_types() {
    let mut generator = Generator::with_name("Baz");
    generator
        .impl_for_other_type(StringOrIdent::String("Foo".to_string()))
        .close()
        .unwrap();
    generator
        .impl_trait_for_other_type(
            StringOrIdent::String("Foo".to_string()),
            StringOrIdent::String("Bar".to_string()),
        )
        .close()
        .unwrap();
    let output = generator.finish().unwrap();
    same_tokens(&output, "impl Foo { } impl Foo for Bar { }");
}

#[test]
fn impl_uses_generics_and_where_clause() {
    match Parse::new(tokens("struct Foo<'a, T: Clone> where T: Default { t: &'a T }")).unwrap() {
        parsed => {
            let (mut generator, _, _) = parsed.into_generator();
            let mut imp = generator.generate_impl();
            imp.modify_generic_constraints(|_, constraints| {
                constraints.push_parsed_constraint("T: Copy")
            })
            .unwrap();
            imp.close().unwrap();
            let output = generator.finish().unwrap();
            same_tokens(
                &output,
                "impl<'a, T: Clone> Foo<'a, T> where T: Default, T: Copy { }",
            );
        }
    }
}

#[test]
fn enum_scope_output() {
    let mut generator = Generator::with_name("Fooz");
    let mut e = generator.generate_enum("Foo");
    e.add_value("ZST").make_zst();
    let named = e.add_value("Named");
    named.add_field("bar", "u16");
    named.add_field("baz", "String");
    let unnamed = e.add_value("Unnamed");
    unnamed.add_field("", "u16");
    unnamed.add_field("baz", "String");
    unnamed.make_fields_unnamed();
    e.close().unwrap();
    let output = generator.finish().unwrap();
    same_tokens(
        &output,
        "enum Foo { ZST , Named { bar : u16 , baz : String , } , Unnamed (u16 , String ,) , }",
    );
}

#[test]
fn module_scope_output() {
    let mut generator = Generator::with_name("Fooz");
    let mut m = generator.generate_mod("inner");
    m.add_use("super::*").unwrap();
    m.generate_struct("A").close().unwrap();
    m.close().unwrap();
    let output = generator.finish().unwrap();
    same_tokens(&output, "mod inner { use super::*; struct A { } }");
}

#[test]
fn literals_and_puncts() {
    let mut builder = StreamBuilder::new();
    builder.lit_str("hi \"there\"");
    builder.lit_usize(42);
    builder.puncts("->");
    builder.lifetime_str("static");
    assert_eq!(builder.stream.len(), 6);
    assert_eq!(builder.stream[0].text(), "\"hi \\\"there\\\"\"");
    assert_eq!(builder.stream[1].text(), "42");
    assert_eq!(text(&builder.stream[2..]), "->'static");
}

#[test]
fn diagnostic_tokens() {
    let err = Error::custom("broken");
    assert_eq!(err.message(), "broken");
    let out = err.into_token_stream();
    assert_eq!(out.len(), 3);
    assert_eq!(text(&out), "compile_error!{\"broken\"}");
    let err = Error::wrong_token(None, "ident");
    assert_eq!(err.message(), "Invalid rust syntax, expected ident");
}

#[test]
fn constraint_pushes() {
    let mut constraints = virtue::generics::GenericConstraints::new();
    let generics = Generics::try_take(&mut token_stream("<T>")).unwrap().unwrap();
    let t = generics.iter_generics()[0];
    constraints.push_constraint(t, "Clone").unwrap();
    constraints.push_parsed_constraint("u8: Copy").unwrap();
    assert!(constraints.push_parsed_constraint("(").is_err());
    assert_eq!(text(&constraints.where_clause().stream), "whereT:Clone,u8:Copy");
    constraints.clear();
    assert!(constraints.constraints.is_empty());
}

#[test]
fn failing_callbacks_add_nothing() {
    let mut generator = Generator::with_name("Foo");
    let mut imp = generator.generate_impl();
    let result = imp
        .generate_fn("foo")
        .body(|_| Err(Error::custom("no body")));
    assert_eq!(result.unwrap_err().message(), "no body");
    let result = imp
        .generate_const("BAR", "u8")
        .with_value(|_| Err(Error::custom("no value")));
    assert_eq!(result.unwrap_err().message(), "no value");
    imp.close().unwrap();
    let output = generator.finish().unwrap();
    same_tokens(&output, "impl Foo { }");
}

#[test]
fn unlexable_impl_name_fails_at_close() {
    let mut generator = Generator::with_name("Root");
    let mut m = generator.generate_mod("inner");
    let imp = m.generate_impl("Foo<(");
    assert!(matches!(imp.close(), Err(Error::PushParse(_))));
    m.close().unwrap();
    let output = generator.finish().unwrap();
    same_tokens(&output, "mod inner { }");
}

#[test]
fn attributes_are_bracketed() {
    let mut generator = Generator::with_name("Bar");
    let mut imp = generator.impl_for("Foo");
    imp.impl_outer_attr("inline").unwrap();
    imp.impl_inner_attr("allow(unused)").unwrap();
    imp.generate_const("BAR", "u8")
        .with_attr("doc = \"x\"")
        .with_value(|mut b| {
            b.push_parsed("5")?;
            Ok(b)
        })
        .unwrap();
    imp.close().unwrap();
    let mut other = generator.generate_impl();
    other.impl_inner_attr("allow(dead_code)").unwrap();
    other.close().unwrap();
    let output = generator.finish().unwrap();
    same_tokens(
        &output,
        "#[inline] impl Foo for Bar { #![allow(unused)] #[doc = \"x\"] const BAR : u8 = 5 ; } \
         impl Bar { #![allow(dead_code)] }",
    );
}
