use range_print_derive::input::{
    AttrMeta, FieldAttribute, Data, DataEnum, DataStruct, Item, ItemField, ItemFields, FieldsNamed, FieldsUnnamed,
    ItemVariant,
};
use range_print_derive::parse::parse_item;
use range_print_derive::range::enum_impl;
use range_print_derive::range::struct_impl;
use range_print_derive::range::utils::{get_fallback, named, unnamed};
use range_print_derive::tokens::{Delimiter, Token};

fn render(tokens: &[Token]) -> String {
    let mut out = String::new();
    let mut glue = true;
    for t in tokens {
        if !glue {
            out.push(' ');
        }
        glue = false;
        match t {
            Token::Ident(s) => out.push_str(s),
            Token::Punct(c, joint) => {
                out.push(*c);
                glue = *joint;
            }
            Token::Str(s) => out.push_str(&format!("{:?}", s)),
            Token::Literal(s) => out.push_str(s),
            Token::Open(d) => out.push_str(match d {
                Delimiter::Parenthesis => "(",
                Delimiter::Brace => "{",
                Delimiter::Bracket => "[",
                Delimiter::Invisible => "<<",
            }),
            Token::Close(d) => out.push_str(match d {
                Delimiter::Parenthesis => ")",
                Delimiter::Brace => "}",
                Delimiter::Bracket => "]",
                Delimiter::Invisible => ">>",
            }),
            Token::Error(m) => out.push_str(&format!("error!({:?})", m)),
            Token::Verbatim(s) => out.push_str(s),
        }
    }
    out
}

fn attr(path: Option<&str>, value: Option<&str>) -> FieldAttribute {
    let meta = match value {
        Some(v) => AttrMeta::NameValueStr(v.to_string()),
        None => AttrMeta::NameValueOtherLiteral,
    };
    FieldAttribute { path_ident: path.map(|s| s.to_string()), meta }
}

fn field(name: &str, attrs: Vec<FieldAttribute>) -> ItemField {
    ItemField { ident: Some(name.to_string()), attrs }
}

fn named_fields(fields: Vec<ItemField>) -> FieldsNamed {
    FieldsNamed { named: fields }
}

fn input(name: &str, generics: Vec<Token>, data: Data) -> Item {
    Item { ident: name.to_string(), generics, data }
}

const HEADER: &str = "# [ inline ] fn get_range ( & self ) -> Result < crate :: types :: Range , crate :: types :: GetRangeError >";

#[test]
fn struct_with_one_named_field() {
    let data = DataStruct { fields: ItemFields::Named(named_fields(vec![field("a", vec![])])) };
    let out = range_print_derive::range(&input("Foo", vec![], Data::Struct(data)));
    assert_eq!(
        render(&out),
        format!("impl crate :: types :: GetRange for Foo {{ {} {{ self . a . get_range ( ) }} }}", HEADER)
    );
}

#[test]
fn struct_spans_first_to_last_field() {
    let fields = named_fields(vec![
        field("a", vec![attr(Some("range_or"), Some("b"))]),
        field("b", vec![]),
        field("c", vec![]),
    ]);
    let out = struct_impl::named(&fields);
    assert_eq!(
        render(&out),
        "Ok ( crate :: types :: Range :: new ( { if let Some ( item ) = & self . a { item . get_range ( ) } else { self . b . get_range ( ) } } ? . start , self . c . get_range ( ) ? . end , ) )"
    );
}

#[test]
fn struct_with_generics_repeats_them() {
    let generics = vec![
        Token::Punct('<', false),
        Token::Ident("T".to_string()),
        Token::Punct('>', false),
    ];
    let data = DataStruct { fields: ItemFields::Unnamed(FieldsUnnamed { count: 1 }) };
    let out = range_print_derive::range(&input("Foo", generics, Data::Struct(data)));
    assert_eq!(
        render(&out),
        format!("impl < T > crate :: types :: GetRange for Foo < T > {{ {} {{ self . 0 . get_range ( ) }} }}", HEADER)
    );
}

#[test]
fn fallback_must_be_a_string() {
    let fields = named_fields(vec![field("a", vec![attr(Some("range_or"), None)]), field("b", vec![])]);
    assert_eq!(render(&struct_impl::named(&fields)), "error!(\"`range_or` field must be a string literal.\")");
    let last_bad = named_fields(vec![field("a", vec![]), field("b", vec![attr(Some("range_or"), None)])]);
    assert_eq!(render(&struct_impl::named(&last_bad)), "error!(\"`range_or` field must be a string literal.\")");
}

#[test]
fn named_struct_without_fields_is_an_error() {
    let out = struct_impl::named(&named_fields(vec![]));
    assert_eq!(render(&out), "error!(\"Structs passed to `#[Derive(Range)]` must have at least one item.\")");
    let unnamed_first = named_fields(vec![ItemField { ident: None, attrs: vec![] }]);
    assert_eq!(render(&struct_impl::named(&unnamed_first)), render(&out));
}

#[test]
fn unit_struct_and_union_are_errors() {
    let unit = DataStruct { fields: ItemFields::Unit };
    assert_eq!(
        render(&struct_impl::generate(&unit)),
        "error!(\"`#[Derive(Range)]` can't be implemented on unit structs.\")"
    );
    let out = range_print_derive::range(&input("U", vec![], Data::Union));
    assert_eq!(
        render(&out),
        format!(
            "impl crate :: types :: GetRange for U {{ {} {{ error!(\"`#[Derive(Range)]` can't be called on unions.\") }} }}",
            HEADER
        )
    );
}

#[test]
fn tuple_struct_spans_first_to_last_position() {
    let out = struct_impl::unnamed(&FieldsUnnamed { count: 3 });
    assert_eq!(
        render(&out),
        "Ok ( crate :: types :: Range :: new ( self . 0 . get_range ( ) ? . start , self . 2usize . get_range ( ) ? . end , ) )"
    );
}

#[test]
fn get_fallback_takes_last_string_valued_attribute() {
    let f = field(
        "a",
        vec![
            attr(Some("range_or"), Some("x")),
            attr(Some("other"), Some("y")),
            attr(Some("range_or"), None),
            attr(None, Some("z")),
            attr(Some("range_or"), Some("w")),
            attr(Some("range_or"), None),
        ],
    );
    assert_eq!(get_fallback(&f), (true, Some("w".to_string())));
    let g = field("a", vec![attr(Some("other"), Some("y")), attr(None, Some("z"))]);
    assert_eq!(get_fallback(&g), (false, None));
    let h = field("a", vec![attr(Some("r#range_or"), Some("y"))]);
    assert_eq!(get_fallback(&h), (false, None));
}

#[test]
fn indexer_variants_read_through_binding() {
    let fields = named_fields(vec![field("a", vec![]), field("b", vec![attr(Some("range_or"), Some("a"))])]);
    assert_eq!(
        render(&named(&fields, "node")),
        "Ok ( crate :: types :: Range :: new ( node . a . get_range ( ) ? . start , { if let Some ( item ) = & node . b { item . get_range ( ) } else { node . a . get_range ( ) } } ? . end , ) )"
    );
    assert_eq!(render(&unnamed(&FieldsUnnamed { count: 1 }, "node")), "node . 0 . get_range ( )");
    assert_eq!(
        render(&unnamed(&FieldsUnnamed { count: 12 }, "node")),
        "Ok ( crate :: types :: Range :: new ( node . 0 . get_range ( ) ? . start , node . 11usize . get_range ( ) ? . end , ) )"
    );
}

#[test]
fn enum_arms_follow_variants() {
    let data = DataEnum {
        variants: vec![
            ItemVariant { ident: "A".to_string(), fields: ItemFields::Unit },
            ItemVariant { ident: "B".to_string(), fields: ItemFields::Unnamed(FieldsUnnamed { count: 1 }) },
            ItemVariant { ident: "C".to_string(), fields: ItemFields::Unnamed(FieldsUnnamed { count: 4 }) },
        ],
    };
    assert_eq!(
        render(&enum_impl::generate(&data)),
        "match self { Self :: A => Err ( crate :: types :: GetRangeError :: ErrorVariant ) , Self :: B ( item ) => item . get_range ( ) , Self :: C ( item1 , .. , item2 ) => lsp_types :: Range :: new ( item1 . get_range ( ) ? . start , item2 . get_range ( ) ? . end , ) , }"
    );
}

#[test]
fn enum_named_variant_binds_fields_and_fallbacks() {
    let one = named_fields(vec![field("a", vec![attr(Some("range_or"), Some("z"))]), field("z", vec![])]);
    assert_eq!(
        render(&enum_impl::named(&"V".to_string(), &named_fields(vec![field("a", vec![])]))),
        "Self :: V { a , .. } => a . get_range ( ) ,"
    );
    assert_eq!(
        render(&enum_impl::named(&"V".to_string(), &one)),
        "Self :: V { a , z , z , .. } => Ok ( lsp_types :: Range :: new ( { if let Some ( item ) = a { item . get_range ( ) } else { z . get_range ( ) } } ? . start , z . get_range ( ) ? . end , ) ) ,"
    );
    let back = named_fields(vec![field("a", vec![]), field("b", vec![attr(Some("range_or"), Some("a"))])]);
    assert_eq!(
        render(&enum_impl::named(&"V".to_string(), &back)),
        "Self :: V { a , b , .. } => Ok ( lsp_types :: Range :: new ( a . get_range ( ) ? . start , { if let Some ( item ) = b { item . get_range ( ) } else { a . get_range ( ) } } ? . end , ) ) ,"
    );
    assert_eq!(
        render(&enum_impl::named(&"V".to_string(), &named_fields(vec![]))),
        "error!(\"Enum variants passed to `#[Derive(Range)]` must have at least one item.\")"
    );
}

#[test]
fn enum_with_no_positional_fields_keeps_two_bindings() {
    assert_eq!(
        render(&enum_impl::unnamed(&"V".to_string(), &FieldsUnnamed { count: 0 })),
        "Self :: V ( item1 , .. , item2 ) => lsp_types :: Range :: new ( item1 . get_range ( ) ? . start , item2 . get_range ( ) ? . end , ) ,"
    );
}

#[test]
fn empty_enum_has_empty_match() {
    let out = range_print_derive::range(&input("E", vec![], Data::Enum(DataEnum { variants: vec![] })));
    assert_eq!(
        render(&out),
        format!("impl crate :: types :: GetRange for E {{ {} {{ match self {{ }} }} }}", HEADER)
    );
}

#[test]
fn parse_item_describes_the_source() {
    let item = parse_item("struct S<T: Clone> { #[range_or = \"b\"] #[doc = 3] a: T, b: u8 }").unwrap();
    assert_eq!(item.ident, "S");
    assert_eq!(item.generics, vec![Token::Verbatim("< T : Clone >".to_string())]);
    let Data::Struct(DataStruct { fields: ItemFields::Named(f) }) = &item.data else { panic!("expected named fields") };
    assert_eq!(f.named.len(), 2);
    assert_eq!(f.named[0].ident.as_deref(), Some("a"));
    assert_eq!(f.named[0].attrs[0].path_ident.as_deref(), Some("range_or"));
    assert!(matches!(&f.named[0].attrs[0].meta, AttrMeta::NameValueStr(v) if v == "b"));
    assert_eq!(f.named[0].attrs[1].path_ident.as_deref(), Some("doc"));
    assert!(matches!(f.named[0].attrs[1].meta, AttrMeta::NameValueOtherLiteral));
    let e = parse_item("enum E { A, B(u8, u8), C { x: u8 } }").unwrap();
    assert!(e.generics.is_empty());
    let Data::Enum(d) = &e.data else { panic!("expected an enum") };
    assert_eq!(d.variants.iter().map(|v| v.ident.clone()).collect::<Vec<_>>(), vec!["A", "B", "C"]);
    assert!(matches!(d.variants[1].fields, ItemFields::Unnamed(FieldsUnnamed { count: 2 })));
}

#[test]
fn range_derive_on_source_text() {
    let out = range_print_derive::range_derive("struct Foo { a: A }").unwrap();
    assert_eq!(
        render(&out),
        format!("impl crate :: types :: GetRange for Foo {{ {} {{ self . a . get_range ( ) }} }}", HEADER)
    );
    assert!(range_print_derive::range_derive("struct Foo();").is_none());
    let message = syn::parse_str::<syn::DeriveInput>("fn f() {}").err().map(|e| e.into_iter().map(|m| Token::Error(m.to_string())).collect::<Vec<_>>()).unwrap();
    let out = range_print_derive::range_derive("fn f() {}").unwrap();
    assert_eq!(out, message);
}

#[test]
fn every_parse_error_message_becomes_an_error() {
    let messages = vec!["first".to_string(), "second".to_string()];
    let out = range_print_derive::range_parsed(&Err(messages));
    assert_eq!(out, Some(vec![Token::Error("first".to_string()), Token::Error("second".to_string())]));
    let item = parse_item("struct S();").unwrap();
    assert_eq!(range_print_derive::range_parsed(&Ok(item)), None);
    let item = parse_item("struct S { }").unwrap();
    assert_eq!(range_print_derive::print_parsed(&Ok(item)), None);
}

#[test]
fn attribute_forms_other_than_a_string_give_no_fallback() {
    let item = parse_item(
        "struct S { #[range_or] #[range_or(x)] #[range_or = 1] #[range_or = x] #[range_or = \"y\"] a: A }",
    )
    .unwrap();
    let Data::Struct(DataStruct { fields: ItemFields::Named(f) }) = &item.data else { panic!("expected named fields") };
    let metas = &f.named[0].attrs;
    assert!(matches!(metas[0].meta, AttrMeta::Path));
    assert!(matches!(metas[1].meta, AttrMeta::List));
    assert!(matches!(metas[2].meta, AttrMeta::NameValueOtherLiteral));
    assert!(matches!(metas[3].meta, AttrMeta::NameValueOtherExpression));
    assert_eq!(get_fallback(&f.named[0]), (true, Some("y".to_string())));
    let only_forms = ItemField {
        ident: Some("a".to_string()),
        attrs: vec![
            FieldAttribute { path_ident: Some("range_or".to_string()), meta: AttrMeta::Path },
            FieldAttribute { path_ident: Some("range_or".to_string()), meta: AttrMeta::List },
            FieldAttribute { path_ident: Some("range_or".to_string()), meta: AttrMeta::NameValueOtherExpression },
        ],
    };
    assert_eq!(get_fallback(&only_forms), (true, None));
}
