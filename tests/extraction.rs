use enum_scan::builder::{build_model, BuildError, Model};
use enum_scan::classify::is_enum;
use enum_scan::comment::{get_comment, get_comments};
use enum_scan::extract::{extract_constant, extract_function};
use enum_scan::source::{
    AttrMeta, Attribute, ConstDecl, Expr, FnDecl, ImplDecl, ImplMember, Literal, SelfType,
    SourceItem, StructDecl,
};
use enum_scan::text::{str_equal, trim};

fn doc(text: &str) -> Attribute {
    Attribute {
        path_ident: Some("doc".to_string()),
        meta: AttrMeta::NameValue(Expr::Lit(Literal::Str(text.to_string()))),
    }
}

fn int_lit(digits: &str) -> Expr {
    Expr::Lit(Literal::Int(digits.to_string()))
}

fn konst(name: &str, expr: Expr) -> ImplMember {
    ImplMember::Const(ConstDecl { ident: name.to_string(), attrs: vec![], expr })
}

fn method(name: &str, attrs: Vec<Attribute>) -> ImplMember {
    ImplMember::Fn(FnDecl { ident: name.to_string(), attrs })
}

fn strukt(name: &str, attrs: Vec<Attribute>) -> SourceItem {
    SourceItem::Struct(StructDecl { ident: name.to_string(), attrs })
}

fn inherent(name: &str, members: Vec<ImplMember>) -> SourceItem {
    SourceItem::Impl(ImplDecl {
        has_trait: false,
        self_ty: SelfType::Ident(name.to_string()),
        members,
    })
}

fn build(items: Vec<SourceItem>) -> Model {
    match build_model(&items) {
        Ok(m) => m,
        Err(_) => panic!("the model should build"),
    }
}

fn const_names(m: &Model, ty: &str) -> Vec<String> {
    let e = m.enums.iter().find(|e| e.name == ty).expect("enum present");
    e.enum_consts.iter().map(|c| c.name.clone()).collect()
}

#[test]
fn comment_joins_trimmed_doc_lines() {
    let attrs = vec![doc("  a "), doc("\tb"), doc("c  \n")];
    assert_eq!(get_comment(&attrs), "a\nb\nc");
}

#[test]
fn comment_of_no_docs_is_empty() {
    assert_eq!(get_comment(&[]), "");
    let attrs = vec![Attribute { path_ident: Some("derive".to_string()), meta: AttrMeta::List }];
    assert_eq!(get_comment(&attrs), "");
}

#[test]
fn comment_skips_other_attributes() {
    let attrs = vec![
        doc(" first"),
        Attribute { path_ident: Some("allow".to_string()), meta: AttrMeta::List },
        Attribute {
            path_ident: Some("doc".to_string()),
            meta: AttrMeta::NameValue(Expr::Other),
        },
        Attribute { path_ident: None, meta: AttrMeta::NameValue(Expr::Lit(Literal::Str("x".to_string()))) },
        Attribute {
            path_ident: Some("other".to_string()),
            meta: AttrMeta::NameValue(Expr::Lit(Literal::Str("y".to_string()))),
        },
        doc("second "),
    ];
    assert_eq!(get_comment(&attrs), "first\nsecond");
}

#[test]
fn single_doc_attribute_is_trimmed() {
    assert_eq!(get_comments(&doc("   hello world  ")), Some("hello world".to_string()));
    assert_eq!(get_comments(&Attribute { path_ident: Some("doc".to_string()), meta: AttrMeta::Path }), None);
}

#[test]
fn trim_removes_surrounding_white_space() {
    assert_eq!(trim("  x y \t\n"), "x y");
    assert_eq!(trim(" \u{A0}z\u{2003}"), "z");
    assert_eq!(trim("   "), "");
    assert_eq!(trim(""), "");
    assert_eq!(trim("abc"), "abc");
}

#[test]
fn str_equal_compares_characters() {
    assert!(str_equal("Task", "Task"));
    assert!(!str_equal("Task", "Tas"));
    assert!(!str_equal("Task", "Tusk"));
}

#[test]
fn excluded_names_are_not_enum_like() {
    assert!(!is_enum("Task"));
    assert!(!is_enum("Env"));
    assert!(!is_enum("TaskCB"));
    assert!(!is_enum("Task"));
    assert!(is_enum("Color"));
    assert!(is_enum("task"));
    assert!(is_enum("TaskC"));
    assert!(is_enum(""));
}

#[test]
fn integer_constant_value() {
    let c = ConstDecl { ident: "ANSWER".to_string(), attrs: vec![doc(" the answer ")], expr: int_lit("42") };
    let r = extract_constant(&c);
    assert_eq!(r.name, "ANSWER");
    assert_eq!(r.comment, "the answer");
    assert_eq!(r.value, "42");
}

#[test]
fn non_integer_constant_values_are_empty() {
    for expr in [Expr::Lit(Literal::Str("42".to_string())), Expr::Other, Expr::Lit(Literal::Other)] {
        let c = ConstDecl { ident: "X".to_string(), attrs: vec![], expr };
        assert_eq!(extract_constant(&c).value, "");
    }
}

#[test]
fn function_record_names_owner() {
    let f = FnDecl { ident: "run".to_string(), attrs: vec![doc(" Runs. ")] };
    let r = extract_function(&f, "Task");
    assert_eq!(r.name, "run");
    assert_eq!(r.struct_name, "Task");
    assert_eq!(r.comment, "Runs.");
}

#[test]
fn constants_keep_order_across_blocks() {
    let m = build(vec![
        strukt("Mode", vec![]),
        inherent("Mode", vec![konst("A", int_lit("1"))]),
        SourceItem::Other,
        inherent("Task", vec![method("run", vec![])]),
        inherent("Mode", vec![konst("B", int_lit("2")), method("ignored", vec![]), konst("C", int_lit("3"))]),
    ]);
    assert_eq!(const_names(&m, "Mode"), vec!["A", "B", "C"]);
    assert_eq!(m.functions.len(), 1);
}

#[test]
fn functions_keep_file_order() {
    let m = build(vec![
        strukt("Color", vec![]),
        inherent("Task", vec![method("a", vec![]), method("b", vec![])]),
        inherent("Color", vec![konst("RED", int_lit("1")), method("skipped", vec![])]),
        inherent("Env", vec![method("c", vec![doc(" env c ")])]),
        inherent("Task", vec![method("d", vec![])]),
    ]);
    let got: Vec<(String, String, String)> = m
        .functions
        .iter()
        .map(|f| (f.name.clone(), f.struct_name.clone(), f.comment.clone()))
        .collect();
    let want: Vec<(String, String, String)> = vec![
        ("a".to_string(), "Task".to_string(), "".to_string()),
        ("b".to_string(), "Task".to_string(), "".to_string()),
        ("c".to_string(), "Env".to_string(), "env c".to_string()),
        ("d".to_string(), "Task".to_string(), "".to_string()),
    ];
    assert_eq!(got, want);
}

#[test]
fn color_end_to_end() {
    let m = build(vec![strukt("Color", vec![]), inherent("Color", vec![konst("RED", int_lit("1"))])]);
    assert_eq!(m.enums.len(), 1);
    let e = &m.enums[0];
    assert_eq!(e.name, "Color");
    assert_eq!(e.comment, "");
    assert_eq!(e.enum_consts.len(), 1);
    assert_eq!(e.enum_consts[0].name, "RED");
    assert_eq!(e.enum_consts[0].comment, "");
    assert_eq!(e.enum_consts[0].value, "1");
    assert!(m.functions.is_empty());
}

#[test]
fn task_end_to_end() {
    let m = build(vec![strukt("Task", vec![]), inherent("Task", vec![method("run", vec![])])]);
    assert!(m.enums.is_empty());
    assert_eq!(m.functions.len(), 1);
    assert_eq!(m.functions[0].name, "run");
    assert_eq!(m.functions[0].struct_name, "Task");
    assert_eq!(m.functions[0].comment, "");
}

#[test]
fn trait_impls_contribute_nothing() {
    let m = build(vec![
        strukt("Color", vec![]),
        SourceItem::Impl(ImplDecl {
            has_trait: true,
            self_ty: SelfType::Ident("Color".to_string()),
            members: vec![konst("RED", int_lit("1")), method("fmt", vec![])],
        }),
        SourceItem::Impl(ImplDecl {
            has_trait: true,
            self_ty: SelfType::Ident("Task".to_string()),
            members: vec![method("clone", vec![])],
        }),
        SourceItem::Impl(ImplDecl {
            has_trait: true,
            self_ty: SelfType::Ident("Undeclared".to_string()),
            members: vec![konst("X", int_lit("1"))],
        }),
        SourceItem::Impl(ImplDecl { has_trait: true, self_ty: SelfType::Unsupported, members: vec![] }),
    ]);
    assert_eq!(m.enums.len(), 1);
    assert!(m.enums[0].enum_consts.is_empty());
    assert!(m.functions.is_empty());
}

#[test]
fn doc_comments_reach_records() {
    let m = build(vec![
        strukt("Color", vec![doc(" Colors. "), doc(" Of things.")]),
        inherent(
            "Color",
            vec![ImplMember::Const(ConstDecl {
                ident: "RED".to_string(),
                attrs: vec![doc(" Red. ")],
                expr: int_lit("0x10"),
            })],
        ),
    ]);
    assert_eq!(m.enums[0].comment, "Colors.\nOf things.");
    assert_eq!(m.enums[0].enum_consts[0].comment, "Red.");
    assert_eq!(m.enums[0].enum_consts[0].value, "0x10");
}

#[test]
fn redeclaration_restarts_record() {
    let m = build(vec![
        strukt("Color", vec![doc("old")]),
        inherent("Color", vec![konst("RED", int_lit("1"))]),
        strukt("Shape", vec![]),
        strukt("Color", vec![doc("new")]),
        inherent("Color", vec![konst("BLUE", int_lit("2"))]),
    ]);
    assert_eq!(m.enums.len(), 2);
    assert_eq!(m.enums[0].name, "Color");
    assert_eq!(m.enums[0].comment, "new");
    assert_eq!(const_names(&m, "Color"), vec!["BLUE"]);
}

#[test]
fn undeclared_enum_type_fails() {
    let items = vec![inherent("Color", vec![konst("RED", int_lit("1"))]), strukt("Color", vec![])];
    match build_model(&items) {
        Err(BuildError::UndeclaredType(n)) => assert_eq!(n, "Color"),
        _ => panic!("expected an undeclared type"),
    }
}

#[test]
fn unsupported_self_type_fails() {
    let items = vec![
        strukt("Color", vec![]),
        SourceItem::Impl(ImplDecl { has_trait: false, self_ty: SelfType::Unsupported, members: vec![] }),
    ];
    assert!(matches!(build_model(&items), Err(BuildError::UnsupportedSelfType)));
}

#[test]
fn empty_file_gives_empty_model() {
    let m = build(vec![]);
    assert!(m.enums.is_empty());
    assert!(m.functions.is_empty());
}
