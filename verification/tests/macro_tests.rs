use hotfnl::macros::{
    assoc_path, cfg_gate, hot_fn_args, hot_fn_key, hot_method_key, hot_method_name, is_hot_method, join_strings,
    method_signature, read_impl_attr, AttrToken, CfgGate, FnArg, HotArgError, MethodArg, TokenKind,
};

fn strings(v: &[&str]) -> Vec<String> {
    v.iter().map(|s| s.to_string()).collect()
}

#[test]
fn join_with_separator() {
    assert_eq!(join_strings(&strings(&[]), ", "), "");
    assert_eq!(join_strings(&strings(&["a"]), ", "), "a");
    assert_eq!(join_strings(&strings(&["a", "b", "c"]), ", "), "a, b, c");
}

#[test]
fn keys_of_hot_functions() {
    assert_eq!(hot_fn_key("", "hello", &vec![], None), "::hello::()->()");
    assert_eq!(
        hot_fn_key("p", "add", &strings(&["i32", "& str"]), Some("u8")),
        "p::add::(i32, & str)->u8"
    );
    assert_eq!(
        hot_method_key("", "App", "render", &strings(&["& Self", "& mut Frame"]), None),
        "::App::render::(& Self, & mut Frame)->()"
    );
}

#[test]
fn names_of_generated_items() {
    assert_eq!(hot_method_name("update"), "hot_method_update");
    assert_eq!(assoc_path("Counter::<>", "hot_method_update"), "Counter::<>::hot_method_update");
}

#[test]
fn arguments_of_hot_functions() {
    let ok = vec![
        FnArg::Named { name: "a".to_string(), ty: "i32".to_string() },
        FnArg::Named { name: "b".to_string(), ty: "String".to_string() },
    ];
    assert_eq!(hot_fn_args(&ok), Ok((strings(&["a", "b"]), strings(&["i32", "String"]))));
    let pat = vec![FnArg::Named { name: "a".to_string(), ty: "i32".to_string() }, FnArg::Pattern, FnArg::Receiver];
    assert_eq!(hot_fn_args(&pat), Err(HotArgError::NotNamed));
    assert_eq!(hot_fn_args(&vec![FnArg::Receiver, FnArg::Pattern]), Err(HotArgError::HasReceiver));
    assert_eq!(HotArgError::NotNamed.message(), "#[hot] currently only supports named arguments");
    assert_eq!(HotArgError::HasReceiver.message(), "#[hot] does not support methods with self yet");
}

#[test]
fn method_signatures() {
    let args = vec![
        MethodArg::Receiver { reference: true, mutable: true },
        MethodArg::Typed { pat: "message".to_string(), ty: "Message".to_string() },
    ];
    let (types, names) = method_signature(&args);
    assert_eq!(types, strings(&["& mut Self", "Message"]));
    assert_eq!(names, strings(&["self", "message"]));
    let (t2, _) = method_signature(&vec![MethodArg::Receiver { reference: true, mutable: false }]);
    assert_eq!(t2, strings(&["& Self"]));
    let (t3, _) = method_signature(&vec![MethodArg::Receiver { reference: false, mutable: false }]);
    assert_eq!(t3, strings(&["Self"]));
}

#[test]
fn gates() {
    assert_eq!(cfg_gate("dev"), Some(CfgGate::NotProd));
    assert_eq!(cfg_gate("prod"), Some(CfgGate::Prod));
    assert_eq!(cfg_gate("derive"), None);
}

fn tok(kind: TokenKind, text: &str) -> AttrToken {
    AttrToken { kind, text: text.to_string() }
}

fn ident(t: &str) -> AttrToken {
    tok(TokenKind::Ident, t)
}

fn punct(c: char) -> AttrToken {
    tok(TokenKind::Punct(c), &c.to_string())
}

#[test]
fn impl_attribute_defaults() {
    assert_eq!(read_impl_attr(&vec![]), (String::new(), "<>".to_string()));
}

#[test]
fn impl_attribute_prefix_and_generic() {
    let toks = vec![
        ident("prefix"),
        punct('='),
        tok(TokenKind::Literal, "\"p\""),
        punct(','),
        ident("generic"),
        punct('='),
        punct('<'),
        ident("T"),
        punct(','),
        punct('<'),
        ident("U"),
        punct('>'),
        punct('>'),
        punct(','),
        ident("other"),
    ];
    assert_eq!(read_impl_attr(&toks), ("\"p\"".to_string(), "< T , < U > >".to_string()));
}

#[test]
fn impl_attribute_unclosed_generic_stops() {
    let toks = vec![ident("generic"), punct('='), punct('<'), ident("T")];
    assert_eq!(read_impl_attr(&toks), (String::new(), "<>".to_string()));
}

#[test]
fn impl_attribute_without_equals_skips() {
    let toks = vec![ident("prefix"), punct(':'), tok(TokenKind::Literal, "\"x\"")];
    assert_eq!(read_impl_attr(&toks), (String::new(), "<>".to_string()));
    let toks = vec![ident("generic"), punct('='), ident("T")];
    assert_eq!(read_impl_attr(&toks), (String::new(), "T".to_string()));
}

#[test]
fn keys_of_methods_with_receivers() {
    let f = vec![
        MethodArg::Receiver { reference: true, mutable: false },
        MethodArg::Typed { pat: "x".to_string(), ty: "i32".to_string() },
    ];
    let (types, _) = method_signature(&f);
    assert_eq!(hot_method_key("", "A", "f", &types, Some("i32")), "::A::f::(& Self, i32)->i32");
    let g = vec![MethodArg::Receiver { reference: true, mutable: true }];
    let (types, names) = method_signature(&g);
    assert_eq!(hot_method_key("p", "B", "g", &types, None), "p::B::g::(& mut Self)->()");
    assert_eq!(names, strings(&["self"]));
}

#[test]
fn hot_methods_are_marked() {
    assert!(is_hot_method(&vec![None, Some("inline".to_string()), Some("hot_method".to_string())]));
    assert!(!is_hot_method(&vec![Some("hot_methods".to_string()), None]));
    assert!(!is_hot_method(&vec![]));
}
