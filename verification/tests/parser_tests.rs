use redscript_doc::ast::Annotation;
use redscript_doc::ast::ContainerType;
use redscript_doc::ast::FieldDefinition;
use redscript_doc::ast::FieldQualifier;
use redscript_doc::ast::FuncQualifier;
use redscript_doc::ast::Ident;
use redscript_doc::ast::ParamQualifier;
use redscript_doc::ast::ScalarType;
use redscript_doc::ast::TypeDeclaration;
use redscript_doc::ast::VariableType;
use redscript_doc::ast::Visibility;
use redscript_doc::parser;

#[test]
fn parse_comment_line() {
    let (comment, _) = parser::comments("/// Line comment\n").unwrap();

    assert_eq!(
        format!("{:?}", comment.lines),
        format!("{:?}", vec!["Line comment"])
    )
}

#[test]
fn parse_comment_block() {
    let (comments, _) = parser::comments(
        "/**\nUnprefixed line\n * Prefixed line\n* Also prefixed line\n\nEmpty line above\n    Important leading whitespace\nTrailing whitespace    \nNo whitespace at end*/",
    )
    .unwrap();

    assert_eq!(
        format!("{:?}", comments.lines),
        format!(
            "{:?}",
            vec![
                "Unprefixed line",
                "Prefixed line",
                "Also prefixed line",
                "",
                "Empty line above",
                "    Important leading whitespace",
                "Trailing whitespace",
                "No whitespace at end"
            ]
        )
    )
}

#[test]
fn parse_field_uncommented() {
    let (field, consumed) = parser::field_traced("private static const let m_field: Int32;").unwrap();

    assert_eq!(consumed, 40);
    assert_eq!(
        format!("{:?}", field),
        format!(
            "{:?}",
            FieldDefinition {
                comments: None,
                annotations: vec![],
                visibility: Visibility::Private,
                qualifiers: vec![FieldQualifier::Static, FieldQualifier::Const],
                name: Ident::new("m_field".to_string()),
                type_: TypeDeclaration::leaf(VariableType::Scalar(ScalarType::I32))
            }
        )
    );
}

#[test]
fn parse_type_args() {
    // the type rule reads the container with its argument and leaves the
    // trailing content unconsumed
    let (parsed, consumed) = parser::type_traced("array<CName> butts").unwrap();
    assert_eq!(consumed, 12);
    assert_eq!(
        format!("{:?}", parsed),
        format!(
            "{:?}",
            TypeDeclaration::node(
                VariableType::Container(ContainerType::Array),
                TypeDeclaration::leaf(VariableType::Scalar(ScalarType::CName))
            )
        )
    )
}

#[test]
fn parse_field_commented() {
    let source = "/**\n              * This field has several comments\n              * with a bunch of whitespace\n              * and **MARKDOWN** content\n              *   - Like this list item\n              */\n            @addField(GameObject)\n            protected native final let m_names: array<CName>;";
    let (field, _) = parser::field_traced(source).unwrap();

    let comment_lines: Vec<String> = field
        .comments
        .as_ref()
        .unwrap()
        .lines
        .iter()
        .map(|l| l.as_str().to_string())
        .collect();
    // the indentation before the closing delimiter forms one last,
    // fully-trimmed line
    assert_eq!(
        comment_lines,
        vec![
            "This field has several comments".to_string(),
            "with a bunch of whitespace".to_string(),
            "and **MARKDOWN** content".to_string(),
            "  - Like this list item".to_string(),
            "".to_string(),
        ]
    );
    assert_eq!(
        format!("{:?}", field.annotations),
        format!(
            "{:?}",
            vec![Annotation::AddField(Ident::new("GameObject".to_string()))]
        )
    );
    assert_eq!(
        format!("{:?}", field.visibility),
        format!("{:?}", Visibility::Protected)
    );
    assert_eq!(
        field.qualifiers,
        vec![FieldQualifier::Native, FieldQualifier::Final]
    );
    assert_eq!(format!("{:?}", field.name), format!("{:?}", Ident::new("m_names".to_string())));
    assert_eq!(
        format!("{:?}", field.type_),
        format!(
            "{:?}",
            TypeDeclaration::node(
                VariableType::Container(ContainerType::Array),
                TypeDeclaration::leaf(VariableType::Scalar(ScalarType::CName))
            )
        )
    );
}

#[test]
fn identifier_roundtrip_concrete() {
    let (t, consumed) = parser::type_("_my_Name2").unwrap();
    assert_eq!(consumed, 9);
    assert_eq!(
        format!("{:?}", t),
        format!(
            "{:?}",
            TypeDeclaration::leaf(VariableType::Compound(Ident::new("_my_Name2".to_string())))
        )
    );
}

#[test]
fn keyword_boundary_identifier() {
    // `nativeVar` is one identifier, never the keyword `native` plus `Var`
    let (t, consumed) = parser::type_("nativeVar").unwrap();
    assert_eq!(consumed, 9);
    assert_eq!(
        format!("{:?}", t),
        format!(
            "{:?}",
            TypeDeclaration::leaf(VariableType::Compound(Ident::new("nativeVar".to_string())))
        )
    );
    // a parameter named `nativeVar` picks up no qualifier
    let (p, _) = parser::param("nativeVar: Int32").unwrap();
    assert!(p.qualifiers.is_empty());
    assert_eq!(format!("{:?}", p.name), format!("{:?}", Ident::new("nativeVar".to_string())));
}

#[test]
fn qualifier_order_independence() {
    let (f1, _) = parser::field("private static const let x: Bool;").unwrap();
    let (f2, _) = parser::field("private const static let x: Bool;").unwrap();
    assert_eq!(f1.qualifiers, vec![FieldQualifier::Static, FieldQualifier::Const]);
    assert_eq!(f2.qualifiers, vec![FieldQualifier::Const, FieldQualifier::Static]);
    let mut q1 = f1.qualifiers.clone();
    let mut q2 = f2.qualifiers.clone();
    q1.sort();
    q2.sort();
    assert_eq!(q1, q2);
    assert_eq!(format!("{:?}", f1.name), format!("{:?}", f2.name));
    assert_eq!(format!("{:?}", f1.type_), format!("{:?}", f2.type_));
    assert_eq!(format!("{:?}", f1.visibility), format!("{:?}", f2.visibility));
}

#[test]
fn missing_semicolon_fails_after_type() {
    let err = parser::field("private static const let m_field: Int32").unwrap_err();
    // the type expression ends at character 39; the failure points there
    assert_eq!(err.offset, 39);
    assert_eq!(err.expected, ";");
}

#[test]
fn persistent_collapses_to_native() {
    // the grammar maps both `native` and `persistent` to the Native tag
    let (f, _) = parser::field("public persistent native let a: Bool;").unwrap();
    assert_eq!(f.qualifiers, vec![FieldQualifier::Native, FieldQualifier::Native]);
}

#[test]
fn nested_containers() {
    let (t, consumed) = parser::type_("array<ref<Foo>>").unwrap();
    assert_eq!(consumed, 15);
    assert_eq!(
        format!("{:?}", t),
        format!(
            "{:?}",
            TypeDeclaration::node(
                VariableType::Container(ContainerType::Array),
                TypeDeclaration::node(
                    VariableType::Container(ContainerType::Ref),
                    TypeDeclaration::leaf(VariableType::Compound(Ident::new("Foo".to_string())))
                )
            )
        )
    );
}

#[test]
fn scalar_keyword_needs_boundary() {
    assert!(parser::scalar_type("Int64xx").is_err());
    let (sc, consumed) = parser::scalar_type("Uint64").unwrap();
    assert_eq!(consumed, 6);
    assert_eq!(format!("{:?}", sc), format!("{:?}", ScalarType::U64));
}

#[test]
fn type_args_rule() {
    let (t, consumed) = parser::type_args("<CName> rest").unwrap();
    assert_eq!(consumed, 7);
    assert_eq!(
        format!("{:?}", t),
        format!("{:?}", TypeDeclaration::leaf(VariableType::Scalar(ScalarType::CName)))
    );
}

#[test]
fn unknown_annotation_is_preserved_verbatim() {
    let (f, _) = parser::field("@fancyThing(raw stuff 123) private let x: Bool;").unwrap();
    assert_eq!(f.annotations.len(), 1);
    match &f.annotations[0] {
        Annotation::Unsupported(name, raw) => {
            assert_eq!(name.to_owned().as_str(), "fancyThing");
            assert_eq!(raw.as_str(), "raw stuff 123");
        }
        other => panic!("expected an unsupported annotation, got {:?}", other),
    }
}

#[test]
fn func_declaration() {
    let source =
        "/// Heals the target\n@replaceMethod(PlayerPuppet) public final func Heal(opt amount: Int32) -> Void";
    let (f, _) = parser::func(source).unwrap();
    assert_eq!(
        format!("{:?}", f.comments.as_ref().unwrap().lines),
        format!("{:?}", vec!["Heals the target"])
    );
    assert_eq!(
        format!("{:?}", f.annotations),
        format!(
            "{:?}",
            vec![Annotation::ReplaceMethod(Ident::new("PlayerPuppet".to_string()))]
        )
    );
    assert_eq!(f.visibility, Visibility::Public);
    assert_eq!(f.qualifiers, vec![FuncQualifier::Final]);
    assert_eq!(format!("{:?}", f.name), format!("{:?}", Ident::new("Heal".to_string())));
    assert_eq!(f.params.len(), 1);
    assert_eq!(f.params[0].qualifiers, vec![ParamQualifier::Optional]);
    assert_eq!(
        format!("{:?}", f.params[0].name),
        format!("{:?}", Ident::new("amount".to_string()))
    );
    assert_eq!(
        format!("{:?}", f.returns),
        format!("{:?}", TypeDeclaration::leaf(VariableType::Scalar(ScalarType::Void)))
    );
}

#[test]
fn replace_global_annotation() {
    let (f, _) = parser::func("@replaceGlobal() public static func Main() -> Void").unwrap();
    assert_eq!(format!("{:?}", f.annotations), format!("{:?}", vec![Annotation::ReplaceGlobal]));
    assert_eq!(f.qualifiers, vec![FuncQualifier::Static]);
}

#[test]
fn comments_failure_positions() {
    let err = parser::comments("not a comment").unwrap_err();
    assert_eq!(err.offset, 0);
    // a line comment must end in a line break
    let err = parser::comments("/// no newline").unwrap_err();
    assert_eq!(err.offset, 14);
    assert_eq!(err.expected, "line break");
}

#[test]
fn scope_block_skipping() {
    assert_eq!(parser::scope_block("{a{b}c} rest").unwrap(), 7);
    assert_eq!(parser::scope_block("{}").unwrap(), 2);
    let err = parser::scope_block("{unterminated").unwrap_err();
    assert_eq!(err.offset, 13);
    let err = parser::scope_block("x").unwrap_err();
    assert_eq!(err.offset, 0);
    // purely textual: a brace inside a string literal counts as structural
    assert_eq!(parser::scope_block("{\"}\"}").unwrap(), 3);
}

#[test]
fn vec_to_string_trimmed() {
    assert_eq!(parser::VecToStringTrimmed(vec!["a", "b  "]), "ab");
    assert_eq!(parser::VecToStringTrimmed(vec![]), "");
    assert_eq!(parser::VecToStringTrimmed(vec!["  keep", " inner ", "\t\n"]), "  keep inner");
}
