use pyexport::directive::{extract_pyfn_attrs, ArgDirective, Attribute, DirectiveError, NestedMeta};
use pyexport::marshal::{resolve_arguments, ArgSource, MarshalError};
use pyexport::module::{process_functions_in_module, py_init, GenError, ItemFn, Stmt, StmtError};
use pyexport::naming::{function_wrapper_ident, module_entry_ident};
use pyexport::signature::{
    extract_signature, is_optional_type, is_runtime_context_type, Binding, FnInput, NativeType,
    SignatureError, TypeKind,
};
use pyexport::wrapper::{add_fn_to_module, plan_parameter, FnDecl, ParamPlan, ReturnKind};

fn path_type(segments: &[&str], last_has_args: bool, text: &str) -> NativeType {
    NativeType {
        kind: TypeKind::Path,
        segments: segments.iter().map(|s| s.to_string()).collect(),
        last_has_args,
        text: text.to_string(),
    }
}

fn typed(name: &str, ty: NativeType) -> FnInput {
    FnInput::Typed {
        binding: Binding::Ident { name: name.to_string(), mutable: false, by_ref: false },
        ty,
    }
}

fn i64_param(name: &str) -> FnInput {
    typed(name, path_type(&["i64"], false, "i64"))
}

fn pyfn(nested: Vec<NestedMeta>, origin: usize) -> Attribute {
    Attribute::List { path: "pyfn".to_string(), nested, origin }
}

fn add_decl() -> FnDecl {
    FnDecl {
        name: "add".to_string(),
        inputs: vec![i64_param("a"), i64_param("b")],
        output: ReturnKind::Value,
        doc: String::new(),
    }
}

fn plan(name: &str, optional: bool, default: Option<&str>, keyword_only: bool, ctx: bool) -> ParamPlan {
    ParamPlan {
        name: name.to_string(),
        optional,
        default: default.map(|d| d.to_string()),
        keyword_only,
        runtime_context: ctx,
    }
}

#[test]
fn add_exported_end_to_end() {
    let stmts = vec![
        Stmt::ItemFn(ItemFn {
            decl: add_decl(),
            attrs: vec![
                pyfn(vec![NestedMeta::Path("mymod".to_string()), NestedMeta::Str("add".to_string())], 0),
                Attribute::Other { origin: 1 },
            ],
        }),
        Stmt::Other { origin: 7 },
    ];
    let out = process_functions_in_module(stmts).unwrap();
    assert_eq!(out.len(), 2);
    let reg = out[0].registration.as_ref().unwrap();
    assert_eq!(reg.module, "mymod");
    assert_eq!(reg.wrapper.wrapper_ident, "__generated_get_function_add");
    assert_eq!(reg.wrapper.python_name, "add");
    assert_eq!(reg.wrapper.target, "add");
    assert_eq!(reg.wrapper.params.len(), 2);
    match &out[0].stmt {
        Stmt::ItemFn(item) => {
            assert_eq!(item.attrs.len(), 1);
            assert!(matches!(item.attrs[0], Attribute::Other { origin: 1 }));
        }
        _ => panic!("the function stays in place"),
    }
    assert!(out[1].registration.is_none());
    assert!(matches!(out[1].stmt, Stmt::Other { origin: 7 }));

    // mymod.add(2, 3): both arguments come from the positional container.
    let sources = resolve_arguments(&reg.wrapper.plans, 2, &vec![]).unwrap();
    assert_eq!(sources, vec![ArgSource::Positional(0), ArgSource::Positional(1)]);
    // mymod.add(2): the second argument is missing, a reported error.
    assert_eq!(
        resolve_arguments(&reg.wrapper.plans, 1, &vec![]),
        Err(MarshalError::Missing { param: 1 })
    );
    let entry = py_init("init_mymod", "mymod", "doc".to_string());
    assert_eq!(entry.entry_ident, "PyInit_mymod");
    assert_eq!(entry.module_name, "mymod");
    assert_eq!(entry.init_fn, "init_mymod");
    assert_eq!(entry.doc, "doc");
}

#[test]
fn wrapper_names_follow_the_prefix() {
    assert_eq!(function_wrapper_ident("add"), "__generated_get_function_add");
    assert_eq!(function_wrapper_ident(""), "__generated_get_function_");
    assert_ne!(function_wrapper_ident("a"), function_wrapper_ident("b"));
    assert_eq!(function_wrapper_ident("add"), function_wrapper_ident("add"));
    assert_eq!(module_entry_ident("mymod"), "PyInit_mymod");
}

#[test]
fn receiver_first_is_refused() {
    let decl = FnDecl {
        name: "m".to_string(),
        inputs: vec![FnInput::Receiver, i64_param("a")],
        output: ReturnKind::Unit,
        doc: String::new(),
    };
    let r = add_fn_to_module(&decl, "m".to_string(), &vec![]);
    assert_eq!(r.err(), Some(SignatureError::UnexpectedReceiver { index: 0 }));
    let stmts = vec![Stmt::ItemFn(ItemFn {
        decl,
        attrs: vec![pyfn(vec![NestedMeta::Path("m".to_string()), NestedMeta::Str("m".to_string())], 0)],
    })];
    assert_eq!(
        process_functions_in_module(stmts).err(),
        Some(StmtError { stmt: 0, error: GenError::Signature(SignatureError::UnexpectedReceiver { index: 0 }) })
    );
}

#[test]
fn destructuring_pattern_is_refused() {
    let inputs = vec![
        i64_param("a"),
        FnInput::Typed { binding: Binding::Other, ty: path_type(&["i64"], false, "(i64, i64)") },
        FnInput::Receiver,
    ];
    assert_eq!(extract_signature(&inputs).err(), Some(SignatureError::UnsupportedArgument { index: 1 }));
}

#[test]
fn parameter_kinds_are_classified() {
    let inputs = vec![
        typed("py", path_type(&["pyo3", "Python"], true, "pyo3::Python<'_>")),
        typed("x", path_type(&["std", "option", "Option"], true, "Option<u8>")),
        typed(
            "s",
            NativeType { kind: TypeKind::Reference, segments: vec![], last_has_args: false, text: "&str".to_string() },
        ),
        FnInput::Typed {
            binding: Binding::Ident { name: "n".to_string(), mutable: true, by_ref: true },
            ty: path_type(&["Optional"], true, "Optional<u8>"),
        },
    ];
    let ps = extract_signature(&inputs).unwrap();
    assert!(ps[0].is_runtime_context && !ps[0].optional && !ps[0].pass_by_reference);
    assert!(!ps[1].is_runtime_context && ps[1].optional);
    assert!(ps[2].pass_by_reference && !ps[2].optional);
    assert_eq!(ps[2].native_type, "&str");
    assert!(ps[3].mutable && ps[3].by_ref && !ps[3].optional && !ps[3].is_runtime_context);
    assert_eq!(ps[3].name, "n");
    assert!(!is_optional_type(&path_type(&["Option"], false, "Option")));
    assert!(!is_runtime_context_type(&path_type(&["Python", "Other"], false, "Python::Other")));
}

#[test]
fn directive_is_decoded_and_removed() {
    let mut attrs = vec![
        Attribute::Other { origin: 0 },
        pyfn(
            vec![
                NestedMeta::Path("m".to_string()),
                NestedMeta::Str("f".to_string()),
                NestedMeta::Path("a".to_string()),
                NestedMeta::Str("*".to_string()),
                NestedMeta::NameValue { name: "b".to_string(), value: "5".to_string() },
            ],
            1,
        ),
        Attribute::List { path: "doc".to_string(), nested: vec![], origin: 2 },
    ];
    let d = extract_pyfn_attrs(&mut attrs).unwrap().unwrap();
    assert_eq!(d.module, "m");
    assert_eq!(d.python_name, "f");
    assert_eq!(d.args.len(), 3);
    assert!(matches!(&d.args[0], ArgDirective::Arg { name, default: None } if name == "a"));
    assert!(matches!(d.args[1], ArgDirective::KeywordOnlyMarker));
    assert!(matches!(&d.args[2], ArgDirective::Arg { name, default: Some(v) } if name == "b" && v == "5"));
    assert_eq!(attrs.len(), 2);
    assert!(matches!(attrs[0], Attribute::Other { origin: 0 }));
    assert!(matches!(attrs[1], Attribute::List { origin: 2, .. }));
}

#[test]
fn no_directive_leaves_attributes() {
    let mut attrs = vec![Attribute::Other { origin: 3 }];
    assert!(extract_pyfn_attrs(&mut attrs).unwrap().is_none());
    assert_eq!(attrs.len(), 1);
    let mut none: Vec<Attribute> = vec![];
    assert!(extract_pyfn_attrs(&mut none).unwrap().is_none());
}

#[test]
fn malformed_directives_are_errors() {
    let cases: Vec<(Vec<NestedMeta>, DirectiveError)> = vec![
        (vec![NestedMeta::Path("m".to_string())], DirectiveError::TooFewEntries { origin: 4 }),
        (
            vec![NestedMeta::Str("m".to_string()), NestedMeta::Str("f".to_string())],
            DirectiveError::ModuleNotPath { origin: 4 },
        ),
        (
            vec![NestedMeta::Path("m".to_string()), NestedMeta::Path("f".to_string())],
            DirectiveError::NameNotString { origin: 4 },
        ),
        (
            vec![
                NestedMeta::Path("m".to_string()),
                NestedMeta::Str("f".to_string()),
                NestedMeta::Path("a".to_string()),
                NestedMeta::Other,
            ],
            DirectiveError::BadArgument { origin: 4, position: 3 },
        ),
        (
            vec![NestedMeta::Path("m".to_string()), NestedMeta::Str("f".to_string()), NestedMeta::Str("**".to_string())],
            DirectiveError::BadArgument { origin: 4, position: 2 },
        ),
    ];
    for (nested, expected) in cases {
        let mut attrs = vec![Attribute::Other { origin: 0 }, pyfn(nested, 4)];
        assert_eq!(extract_pyfn_attrs(&mut attrs).err(), Some(expected));
        assert_eq!(attrs.len(), 2);
    }
}

#[test]
fn second_directive_is_an_error() {
    let good = || vec![NestedMeta::Path("m".to_string()), NestedMeta::Str("f".to_string())];
    let mut attrs = vec![pyfn(good(), 0), Attribute::Other { origin: 1 }, pyfn(good(), 2), pyfn(good(), 3)];
    assert_eq!(extract_pyfn_attrs(&mut attrs).err(), Some(DirectiveError::Duplicate { origin: 2 }));
    assert_eq!(attrs.len(), 4);
    let stmts = vec![Stmt::Other { origin: 0 }, Stmt::ItemFn(ItemFn { decl: add_decl(), attrs })];
    assert_eq!(
        process_functions_in_module(stmts).err(),
        Some(StmtError { stmt: 1, error: GenError::Directive(DirectiveError::Duplicate { origin: 2 }) })
    );
}

#[test]
fn directives_plan_defaults_and_keyword_only() {
    let dirs = vec![
        ArgDirective::Arg { name: "a".to_string(), default: None },
        ArgDirective::KeywordOnlyMarker,
        ArgDirective::Arg { name: "b".to_string(), default: Some("10".to_string()) },
        ArgDirective::Arg { name: "a".to_string(), default: Some("1".to_string()) },
    ];
    let decl = FnDecl {
        name: "f".to_string(),
        inputs: vec![i64_param("a"), i64_param("b"), i64_param("c")],
        output: ReturnKind::ResultWithError,
        doc: "docs".to_string(),
    };
    let w = add_fn_to_module(&decl, "g".to_string(), &dirs).unwrap();
    assert_eq!(w.python_name, "g");
    assert_eq!(w.doc, "docs");
    assert_eq!(w.output, ReturnKind::ResultWithError);
    assert!(w.plans[0].default.is_none() && !w.plans[0].keyword_only);
    assert_eq!(w.plans[1].default.as_deref(), Some("10"));
    assert!(w.plans[1].keyword_only);
    assert!(w.plans[2].default.is_none() && !w.plans[2].keyword_only);
    let p = plan_parameter(&w.params[1], &vec![]);
    assert!(p.default.is_none() && !p.keyword_only);
}

#[test]
fn optional_missing_gets_absent_value() {
    let plans = vec![plan("a", false, None, false, false), plan("o", true, None, false, false)];
    assert_eq!(resolve_arguments(&plans, 1, &vec![]), Ok(vec![ArgSource::Positional(0), ArgSource::Absent]));
    assert_eq!(resolve_arguments(&plans, 2, &vec![]), Ok(vec![ArgSource::Positional(0), ArgSource::Positional(1)]));
}

#[test]
fn default_and_keyword_sources() {
    let plans = vec![
        plan("a", false, None, false, false),
        plan("b", false, Some("3"), false, false),
        plan("k", false, None, true, false),
    ];
    let kw = vec!["k".to_string(), "k".to_string()];
    assert_eq!(
        resolve_arguments(&plans, 1, &kw),
        Ok(vec![ArgSource::Positional(0), ArgSource::Default, ArgSource::Keyword(0)])
    );
    let kw_b = vec!["b".to_string(), "k".to_string()];
    assert_eq!(
        resolve_arguments(&plans, 1, &kw_b),
        Ok(vec![ArgSource::Positional(0), ArgSource::Keyword(0), ArgSource::Keyword(1)])
    );
    let kw_a = vec!["k".to_string(), "a".to_string()];
    assert_eq!(
        resolve_arguments(&plans, 0, &kw_a),
        Ok(vec![ArgSource::Keyword(1), ArgSource::Default, ArgSource::Keyword(0)])
    );
    // The keyword-only parameter is never filled positionally.
    assert_eq!(
        resolve_arguments(&plans, 3, &kw),
        Err(MarshalError::TooManyPositional { given: 3, accepted: 2 })
    );
    assert_eq!(resolve_arguments(&plans, 2, &vec![]), Err(MarshalError::Missing { param: 2 }));
}

#[test]
fn unknown_keyword_is_an_error() {
    let plans = vec![plan("a", true, None, false, false)];
    assert_eq!(
        resolve_arguments(&plans, 0, &vec!["a".to_string(), "x".to_string()]),
        Err(MarshalError::UnexpectedKeyword { keyword: 1 })
    );
    assert_eq!(resolve_arguments(&plans, 0, &vec!["a".to_string()]), Ok(vec![ArgSource::Keyword(0)]));
}

#[test]
fn argument_given_twice_is_an_error() {
    let plans = vec![plan("a", false, None, false, false)];
    assert_eq!(
        resolve_arguments(&plans, 1, &vec!["a".to_string()]),
        Err(MarshalError::Duplicate { param: 0 })
    );
}

#[test]
fn runtime_context_is_not_matched() {
    let plans = vec![
        plan("a", false, None, false, false),
        plan("py", false, None, false, true),
        plan("b", false, None, false, false),
    ];
    // A keyword named like the context parameter is not matched to it.
    assert_eq!(
        resolve_arguments(&plans, 2, &vec!["py".to_string()]),
        Err(MarshalError::UnexpectedKeyword { keyword: 0 })
    );
    assert_eq!(
        resolve_arguments(&plans, 2, &vec![]),
        Ok(vec![ArgSource::Positional(0), ArgSource::Context, ArgSource::Positional(1)])
    );
    let first = vec![plan("py", false, None, false, true), plan("a", false, None, false, false)];
    assert_eq!(resolve_arguments(&first, 1, &vec![]), Ok(vec![ArgSource::Context, ArgSource::Positional(0)]));
    assert_eq!(
        resolve_arguments(&first, 2, &vec![]),
        Err(MarshalError::TooManyPositional { given: 2, accepted: 1 })
    );
}

#[test]
fn generation_is_repeatable() {
    let run = || {
        let stmts = vec![Stmt::ItemFn(ItemFn {
            decl: add_decl(),
            attrs: vec![pyfn(vec![NestedMeta::Path("mymod".to_string()), NestedMeta::Str("add".to_string())], 0)],
        })];
        format!("{:?}", process_functions_in_module(stmts))
    };
    assert_eq!(run(), run());
}
