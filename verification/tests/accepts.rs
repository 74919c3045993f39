use playwright_api::api::{Api, Arg, Interface, Kind, Member, Type};
use playwright_api::decl::{arg_field, declare_ty, declare_ty_accepts, enum_accepts, Item};
use playwright_api::methods::{event_accepts, method_accepts};
use playwright_api::module::{body_accepts, to_tokens_accepts};
use playwright_api::rust_type::{use_ty_accepts, RustTypeOf};

fn ty(name: &str) -> Type {
    Type {
        name: name.to_string(),
        expression: None,
        properties: vec![],
        templates: vec![],
        union: vec![],
    }
}

fn arg(name: &str, t: Type, required: bool) -> Arg {
    Arg {
        name: name.to_string(),
        alias: name.to_string(),
        ty: t,
        overload_index: 0,
        required,
        deprecated: false,
        is_async: false,
        csharp_action: false,
    }
}

fn member(kind: Kind, name: &str, args: Vec<Arg>, t: Type) -> Member {
    Member {
        kind,
        name: name.to_string(),
        alias: name.to_string(),
        experimental: false,
        overload_index: 0,
        required: true,
        is_async: false,
        args,
        ty: t,
        deprecated: false,
    }
}

#[test]
fn use_ty_refuses_what_it_cannot_write() {
    assert!(use_ty_accepts(&ty("string")));
    assert!(!use_ty_accepts(&Type { templates: vec![ty("string")], ..ty("Func") }));
    assert!(!use_ty_accepts(&Type { templates: vec![ty("a"), ty("b")], ..ty("Array") }));
    assert!(use_ty_accepts(&Type { templates: vec![ty("a")], ..ty("Array") }));
    assert!(!use_ty_accepts(&Type { union: vec![ty("null")], ..ty("u") }));
    assert!(!use_ty_accepts(&Type { properties: vec![arg("a", ty("string"), true)], ..ty("Foo") }));
    assert!(use_ty_accepts(&Type { properties: vec![arg("a", ty("string"), true)], ..ty("Object") }));
    assert!(!use_ty_accepts(&Type {
        properties: vec![arg("a", ty("string"), true)],
        templates: vec![ty("b")],
        ..ty("Object")
    }));
}

#[test]
fn declare_ty_refuses_unknown_generic_types() {
    let unknown = Type { templates: vec![ty("string")], ..ty("Map") };
    assert!(!declare_ty_accepts(&unknown));
    let known = Type {
        expression: Some("[Map]<[string], [JSHandle]>".to_string()),
        templates: vec![ty("string"), ty("JSHandle")],
        ..ty("Map")
    };
    assert!(declare_ty_accepts(&known));
    assert!(declare_ty("m", "n", &known, true).is_empty());
    let record = Type {
        expression: Some(
            "[Object]<[string], [string]|[float]|[boolean]|[ReadStream]|[Object]>".to_string(),
        ),
        properties: vec![arg("a", ty("string"), true)],
        templates: vec![ty("string")],
        ..ty("Object")
    };
    assert!(declare_ty_accepts(&record));
    assert!(declare_ty("m", "n", &record, true).is_empty());
}

#[test]
fn enum_refuses_unwritable_member() {
    let bad = Type { union: vec![ty("string"), Type { templates: vec![ty("x")], ..ty("Func") }], ..ty("u") };
    assert!(!enum_accepts(&bad));
    assert!(!declare_ty_accepts(&bad));
    let quoted = Type { union: vec![ty("\"a\""), ty("\"b\"")], ..ty("u") };
    assert!(enum_accepts(&quoted));
}

#[test]
fn method_and_event_checks() {
    let mut m = member(Kind::Method, "goto", vec![], ty("void"));
    m.alias = "navigate".to_string();
    assert!(!method_accepts(&m));
    let mut m = member(Kind::Method, "goto#2", vec![], ty("void"));
    m.alias = "goto".to_string();
    assert!(method_accepts(&m));
    let mut asynchronous = arg("x", ty("string"), true);
    asynchronous.is_async = true;
    let m = member(Kind::Method, "goto", vec![asynchronous], ty("void"));
    assert!(!method_accepts(&m));
    let e = member(Kind::Event, "close", vec![arg("x", ty("string"), true)], ty("void"));
    assert!(!event_accepts(&e));
    let e = member(Kind::Event, "close", vec![], ty("void"));
    assert!(event_accepts(&e));
}

#[test]
fn interface_and_api_checks() {
    let good = Interface {
        name: "Page".to_string(),
        extends: None,
        members: vec![member(Kind::Method, "goto", vec![arg("url", ty("string"), true)], ty("void"))],
    };
    assert!(body_accepts(&good));
    let bad = Interface {
        name: "Page".to_string(),
        extends: None,
        members: vec![member(Kind::Event, "close", vec![arg("x", ty("string"), true)], ty("void"))],
    };
    assert!(!body_accepts(&bad));
    assert!(!to_tokens_accepts(&Api(vec![good, bad])));
    assert!(to_tokens_accepts(&Api(vec![])));
}

#[test]
fn parameter_type_names_the_declared_struct() {
    let options = Type { properties: vec![arg("delay", ty("float"), false)], ..ty("Object") };
    let f = arg_field("click", &arg("options", options, true), true);
    let options = Type { properties: vec![arg("delay", ty("float"), false)], ..ty("Object") };
    let items = declare_ty("click", "options", &options, true);
    match (&f.ty, &items[0]) {
        (RustTypeOf::Named(n), Item::Struct(s)) => assert_eq!(*n, s.name),
        other => panic!("unexpected {:?}", other),
    }
}
