use virtue::attributes::AttributeAccess;
use virtue::cursor::{assume_group, ident_eq, TokenCursor};
use virtue::parse::Parse;
use virtue::error::Error;
use virtue::generics::Generics;
use virtue::stream_builder::StreamBuilder;
use virtue::token::TokenTree;
use virtue::utils::{parse_tagged_attribute, ParsedAttribute};

fn token_stream(s: &str) -> TokenCursor {
    let mut builder = StreamBuilder::new();
    builder
        .push_parsed(s)
        .unwrap_or_else(|e| panic!("Could not parse code: {:?}\n{:?}", s, e));
    TokenCursor::new(builder.stream)
}

#[test]
fn test_parse_tagged_attribute() {
    let group = match token_stream("[prefix(result, foo = \"bar\", baz)]").next() {
        Some(TokenTree::Group(group)) => group,
        x => panic!("Unexpected token {:?}", x),
    };

    let attributes = parse_tagged_attribute(&group, "prefix").unwrap().unwrap();
    let mut iter = attributes.into_iter();

    match iter.next() {
        Some(ParsedAttribute::Tag(i)) => {
            assert_eq!(i.text, String::from("result"));
        }
        x => panic!("Unexpected attribute: {:?}", x),
    }
    match iter.next() {
        Some(ParsedAttribute::Property(key, val)) => {
            assert_eq!(key.text, String::from("foo"));
            assert_eq!(val.text, String::from("\"bar\""));
        }
        x => panic!("Unexpected attribute: {:?}", x),
    }
    match iter.next() {
        Some(ParsedAttribute::Tag(i)) => {
            assert_eq!(i.text, String::from("baz"));
        }
        x => panic!("Unexpected attribute: {:?}", x),
    }
}

#[test]
fn tagged_attribute_with_other_prefix_is_none() {
    let group = assume_group(token_stream("[other(result)]").next());
    assert!(parse_tagged_attribute(&group, "prefix").unwrap().is_none());
}

#[test]
fn tagged_attribute_errors() {
    let group = assume_group(token_stream("[prefix(foo = \"bar\" baz)]").next());
    let err = parse_tagged_attribute(&group, "prefix").unwrap_err();
    assert!(matches!(err, Error::Custom { .. }));
    assert_eq!(err.message(), "Expected `,`");

    let group = assume_group(token_stream("[prefix(\"lit\")]").next());
    let err = parse_tagged_attribute(&group, "prefix").unwrap_err();
    assert_eq!(err.message(), "Expected `key` or `key = \"val\"`");
}

#[test]
fn generic_kinds_are_listed_in_order() {
    let generics = Generics::try_take(&mut token_stream("<'a, T, const N: usize, 'b, U>"))
        .unwrap()
        .unwrap();
    let lifetimes: Vec<String> = generics
        .iter_lifetimes()
        .iter()
        .map(|l| l.ident.text.clone())
        .collect();
    assert_eq!(lifetimes, vec!["a".to_string(), "b".to_string()]);
    let types: Vec<String> = generics
        .iter_generics()
        .iter()
        .map(|g| g.name().text)
        .collect();
    assert_eq!(types, vec!["T".to_string(), "U".to_string()]);
    assert_eq!(generics.iter_consts().len(), 1);
    assert!(ident_eq(&generics.iter_consts()[0].ident, "N"));
}

#[derive(PartialEq, Debug)]
struct Skip;

impl virtue::attributes::FromAttribute for Skip {
    fn parse(group: &virtue::token::Group) -> Result<Option<Self>, Error> {
        match parse_tagged_attribute(group, "my")? {
            Some(entries) => Ok(entries
                .iter()
                .any(|e| matches!(e, ParsedAttribute::Tag(i) if i.text == "skip"))
                .then_some(Skip)),
            None => Ok(None),
        }
    }
}

#[test]
fn attribute_lookup() {
    let mut builder = StreamBuilder::new();
    builder
        .push_parsed("#[other] #[my(skip)] struct Foo;")
        .unwrap();
    match Parse::new(builder.stream).unwrap() {
        Parse::Struct { attributes, .. } => {
            assert_eq!(attributes.len(), 2);
            assert!(attributes.has_attribute(Skip).unwrap());
            assert_eq!(attributes.get_attribute::<Skip>().unwrap(), Some(Skip));
            let none: Vec<virtue::attributes::Attribute> = Vec::new();
            assert!(!none.has_attribute(Skip).unwrap());
        }
        Parse::Enum { .. } => panic!("parsed a struct as an enum"),
    }
}
