use range_print_derive::input::{
    Data, DataEnum, DataStruct, Item, ItemField, ItemFields, FieldsNamed, FieldsUnnamed, ItemVariant,
};
use range_print_derive::print::enum_impl;
use range_print_derive::print::struct_impl;
use range_print_derive::print::utils::{generate, generate_print_final_trivia, generate_print_without_final_trivia};
use range_print_derive::print::CodeData;
use range_print_derive::tokens::{decimal_string, push_usize_literal, Delimiter, Token};

fn render(tokens: &[Token]) -> String {
    let mut out = String::new();
    let mut glue = true;
    for t in tokens {
        if !glue {
            out.push(' ');
        }
        glue = false;
        match t {
            Token::Ident(s) => out.push_str(s),
            Token::Punct(c, joint) => {
                out.push(*c);
                glue = *joint;
            }
            Token::Str(s) => out.push_str(&format!("{:?}", s)),
            Token::Literal(s) => out.push_str(s),
            Token::Open(d) => out.push_str(match d {
                Delimiter::Parenthesis => "(",
                Delimiter::Brace => "{",
                Delimiter::Bracket => "[",
                Delimiter::Invisible => "<<",
            }),
            Token::Close(d) => out.push_str(match d {
                Delimiter::Parenthesis => ")",
                Delimiter::Brace => "}",
                Delimiter::Bracket => "]",
                Delimiter::Invisible => ">>",
            }),
            Token::Error(m) => out.push_str(&format!("error!({:?})", m)),
            Token::Verbatim(s) => out.push_str(s),
        }
    }
    out
}

fn ident(s: &str) -> Vec<Token> {
    vec![Token::Ident(s.to_string())]
}

fn field(name: &str) -> ItemField {
    ItemField { ident: Some(name.to_string()), attrs: vec![] }
}

fn input(name: &str, data: Data) -> Item {
    Item { ident: name.to_string(), generics: vec![], data }
}

const FT: &str = "# [ inline ] # [ allow ( unused ) ] fn print_final_trivia ( & self ) -> String";
const WFT: &str = "# [ inline ] # [ allow ( unused ) ] fn print_without_final_trivia ( & self ) -> String";

#[test]
fn struct_prints_fields_in_order() {
    let data = DataStruct {
        fields: ItemFields::Named(FieldsNamed { named: vec![field("a"), field("b"), field("c")] }),
    };
    let out = range_print_derive::print(&input("S", Data::Struct(data)));
    assert_eq!(
        render(&out),
        format!(
            "impl crate :: types :: Print for S {{ {} {{ self . c . print_final_trivia ( ) }} {} {{ let mut string = self . a . print_without_final_trivia ( ) ; string . push_str ( & self . b . print_without_final_trivia ( ) ) ; string . push_str ( & self . c . print_without_final_trivia ( ) ) ; string }} }}",
            FT, WFT
        )
    );
}

#[test]
fn tuple_struct_uses_unsuffixed_positions() {
    let data = DataStruct { fields: ItemFields::Unnamed(FieldsUnnamed { count: 2 }) };
    let out = struct_impl::generate(&input("T", Data::Union), &data);
    assert_eq!(
        render(&out),
        format!(
            "impl crate :: types :: Print for T {{ {} {{ self . 1 . print_final_trivia ( ) }} {} {{ let mut string = self . 0 . print_without_final_trivia ( ) ; string . push_str ( & self . 1 . print_without_final_trivia ( ) ) ; string }} }}",
            FT, WFT
        )
    );
}

#[test]
fn empty_tuple_struct_and_unit_struct_are_errors() {
    let d = struct_impl::unnamed(&FieldsUnnamed { count: 0 });
    assert_eq!(render(&d.first), "error!(\"Structs passed to `#[Derive(Print)]` must have at least one item.\")");
    assert!(d.middle.is_empty() && d.last.is_none());
    let unit = DataStruct { fields: ItemFields::Unit };
    let out = struct_impl::generate(&input("U", Data::Union), &unit);
    let e = "error!(\"`#[Derive(Range)]` can't be implemented on unit structs.\")";
    assert_eq!(
        render(&out),
        format!(
            "impl crate :: types :: Print for U {{ {} {{ {} . print_final_trivia ( ) }} {} {{ let mut string = {} . print_without_final_trivia ( ) ; string }} }}",
            FT, e, WFT, e
        )
    );
}

#[test]
fn union_is_a_bare_error() {
    let out = range_print_derive::print(&input("U", Data::Union));
    assert_eq!(render(&out), "error!(\"`#[Derive(Print)]` can't be called on unions.\")");
}

#[test]
fn named_struct_fields_become_self_members() {
    let d = struct_impl::named(&FieldsNamed { named: vec![field("x")] });
    assert_eq!(render(&d.first), "self . x");
    assert!(d.middle.is_empty() && d.last.is_none());
}

#[test]
fn enum_arms_for_each_kind_of_variant() {
    let data = DataEnum {
        variants: vec![
            ItemVariant { ident: "A".to_string(), fields: ItemFields::Unit },
            ItemVariant { ident: "B".to_string(), fields: ItemFields::Unnamed(FieldsUnnamed { count: 3 }) },
            ItemVariant {
                ident: "C".to_string(),
                fields: ItemFields::Named(FieldsNamed { named: vec![field("x"), field("y")] }),
            },
        ],
    };
    let out = enum_impl::generate(&input("E", Data::Union), &data);
    let a = "Self :: A => \"\" . to_string ( ) ,";
    let b = "Self :: B ( item1 , item0 , item2 , ) =>";
    let c = "Self :: C { x , y , } =>";
    assert_eq!(
        render(&out),
        format!(
            "impl crate :: types :: Print for E {{ {} {{ match self {{ {} {} {{ item2 . print_final_trivia ( ) }} {} {{ y . print_final_trivia ( ) }} }} }} {} {{ match self {{ {} {} {{ let mut string = item0 . print_without_final_trivia ( ) ; string . push_str ( & item1 . print_without_final_trivia ( ) ) ; string . push_str ( & item2 . print_without_final_trivia ( ) ) ; string }} {} {{ let mut string = x . print_without_final_trivia ( ) ; string . push_str ( & y . print_without_final_trivia ( ) ) ; string }} }} }} }}",
            FT, a, b, c, WFT, a, b, c
        )
    );
}

#[test]
fn enum_variant_without_positional_fields_is_an_error_binding() {
    let d = enum_impl::unnamed(&FieldsUnnamed { count: 0 });
    match d {
        enum_impl::Data::CodeData(d) => {
            assert_eq!(
                render(&d.first),
                "error!(\"Enum variants passed to `#[Derive(Print)]` must have at least one item.\")"
            );
            assert!(d.middle.is_empty() && d.last.is_none());
        }
        enum_impl::Data::MatchArm(_) => panic!("expected bindings"),
    }
}

#[test]
fn enum_named_variant_binds_field_names() {
    match enum_impl::named(&FieldsNamed { named: vec![field("p"), field("q"), field("r"), field("s")] }) {
        enum_impl::Data::CodeData(d) => {
            assert_eq!(render(&d.first), "p");
            assert_eq!(d.middle.iter().map(|m| render(m)).collect::<Vec<_>>(), vec!["q", "r"]);
            assert_eq!(render(d.last.as_ref().unwrap()), "s");
        }
        enum_impl::Data::MatchArm(_) => panic!("expected bindings"),
    }
}

#[test]
fn repeated_variant_name_has_one_arm_with_the_last_data() {
    let data = DataEnum {
        variants: vec![
            ItemVariant { ident: "A".to_string(), fields: ItemFields::Unnamed(FieldsUnnamed { count: 1 }) },
            ItemVariant { ident: "B".to_string(), fields: ItemFields::Unit },
            ItemVariant { ident: "A".to_string(), fields: ItemFields::Unit },
        ],
    };
    let out = render(&enum_impl::generate(&input("E", Data::Union), &data));
    assert_eq!(out.matches("Self :: A").count(), 2);
    assert_eq!(out.matches("Self :: B").count(), 2);
    assert!(!out.contains("item0"));
    assert!(out.find("Self :: A").unwrap() < out.find("Self :: B").unwrap());
}

#[test]
fn split_keeps_every_receiver_in_order() {
    for n in 1..6 {
        let names: Vec<Vec<Token>> = (0..n).map(|i| ident(&format!("n{}", i))).collect();
        let expected: Vec<String> = (0..n).map(|i| format!("n{}", i)).collect();
        let d = generate(names);
        let mut rejoined = vec![render(&d.first)];
        rejoined.extend(d.middle.iter().map(|m| render(m)));
        if let Some(l) = &d.last {
            rejoined.push(render(l));
        }
        assert_eq!(rejoined, expected);
        assert_eq!(d.last.is_some(), n >= 2);
        assert_eq!(render(&generate_print_final_trivia(&d)), format!("n{} . print_final_trivia ( )", n - 1));
        let mut body = String::from("let mut string = n0 . print_without_final_trivia ( ) ;");
        for i in 1..n {
            body.push_str(&format!(" string . push_str ( & n{} . print_without_final_trivia ( ) ) ;", i));
        }
        body.push_str(" string");
        assert_eq!(render(&generate_print_without_final_trivia(&d)), body);
    }
}

fn well_bracketed(tokens: &[Token]) -> bool {
    let mut stack = Vec::new();
    for t in tokens {
        match t {
            Token::Open(d) => stack.push(*d),
            Token::Close(d) => {
                if stack.pop() != Some(*d) {
                    return false;
                }
            }
            _ => {}
        }
    }
    stack.is_empty()
}

#[test]
fn generated_code_is_well_bracketed() {
    let data = DataEnum {
        variants: vec![
            ItemVariant { ident: "A".to_string(), fields: ItemFields::Unit },
            ItemVariant { ident: "B".to_string(), fields: ItemFields::Unnamed(FieldsUnnamed { count: 0 }) },
            ItemVariant { ident: "C".to_string(), fields: ItemFields::Unnamed(FieldsUnnamed { count: 5 }) },
            ItemVariant {
                ident: "D".to_string(),
                fields: ItemFields::Named(FieldsNamed { named: vec![field("x"), field("y"), field("z")] }),
            },
        ],
    };
    let generics = vec![
        Token::Punct('<', false),
        Token::Ident("T".to_string()),
        Token::Punct(':', false),
        Token::Ident("Fn".to_string()),
        Token::Open(Delimiter::Parenthesis),
        Token::Close(Delimiter::Parenthesis),
        Token::Punct('>', false),
    ];
    let item = Item { ident: "E".to_string(), generics, data: Data::Enum(data) };
    assert!(well_bracketed(&range_print_derive::print(&item)));
    assert!(well_bracketed(&range_print_derive::range(&item)));
}

#[test]
fn final_trivia_falls_back_to_middle_then_first() {
    let d = CodeData { first: ident("f"), middle: vec![ident("m1"), ident("m2")], last: None };
    assert_eq!(render(&generate_print_final_trivia(&d)), "m2 . print_final_trivia ( )");
    let d = CodeData { first: ident("f"), middle: vec![], last: None };
    assert_eq!(render(&generate_print_final_trivia(&d)), "f . print_final_trivia ( )");
    assert_eq!(
        render(&generate_print_without_final_trivia(&d)),
        "let mut string = f . print_without_final_trivia ( ) ; string"
    );
}

#[test]
fn decimal_text_of_numbers() {
    assert_eq!(decimal_string(0), "0");
    assert_eq!(decimal_string(7), "7");
    assert_eq!(decimal_string(10), "10");
    assert_eq!(decimal_string(1234567890), "1234567890");
    assert_eq!(decimal_string(usize::MAX), usize::MAX.to_string());
    let mut out = Vec::new();
    push_usize_literal(&mut out, 42, true);
    push_usize_literal(&mut out, 42, false);
    assert_eq!(out, vec![Token::Literal("42usize".to_string()), Token::Literal("42".to_string())]);
}

#[test]
fn positional_bindings_are_distinct() {
    let d = enum_impl::unnamed(&FieldsUnnamed { count: 12 });
    let enum_impl::Data::CodeData(d) = d else { panic!("expected bindings") };
    let mut all = vec![render(&d.first)];
    all.extend(d.middle.iter().map(|m| render(m)));
    all.push(render(d.last.as_ref().unwrap()));
    let mut sorted = all.clone();
    sorted.sort();
    sorted.dedup();
    assert_eq!(sorted.len(), 12);
    assert_eq!(all[11], "item11");
}

#[test]
fn print_derive_on_source_text() {
    let out = range_print_derive::print_derive("struct S(u8);").unwrap();
    assert_eq!(
        render(&out),
        format!(
            "impl crate :: types :: Print for S {{ {} {{ self . 0 . print_final_trivia ( ) }} {} {{ let mut string = self . 0 . print_without_final_trivia ( ) ; string }} }}",
            FT, WFT
        )
    );
    assert!(range_print_derive::print_derive("struct S {}").is_none());
    assert!(range_print_derive::print_derive("enum E { A {} }").is_none());
    let message = syn::parse_str::<syn::DeriveInput>("struct").err().map(|e| e.into_iter().map(|m| Token::Error(m.to_string())).collect::<Vec<_>>()).unwrap();
    assert_eq!(range_print_derive::print_derive("struct").unwrap(), message);
}

#[test]
fn enum_variants_print_fields_in_order() {
    let out = render(&range_print_derive::print_derive("enum E { P(u8, u8), Q { x: u8, y: u8, z: u8 } }").unwrap());
    assert!(out.contains("Self :: P ( item0 , item1 , ) => { let mut string = item0 . print_without_final_trivia ( ) ; string . push_str ( & item1 . print_without_final_trivia ( ) ) ; string }"));
    assert!(out.contains("Self :: P ( item0 , item1 , ) => { item1 . print_final_trivia ( ) }"));
    assert!(out.contains("=> { let mut string = x . print_without_final_trivia ( ) ; string . push_str ( & y . print_without_final_trivia ( ) ) ; string . push_str ( & z . print_without_final_trivia ( ) ) ; string }"));
    assert!(out.contains("=> { z . print_final_trivia ( ) }"));
}
