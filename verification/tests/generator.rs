use playwright_api::api::{Api, Arg, Interface, Kind, Member, Type};
use playwright_api::decl::{arg_field, collect_types, declare_ty, enum_tokens, FieldDecl, Item};
use playwright_api::methods::{event_tokens, method_tokens, needs_builder};
use playwright_api::module::{body, overload_groups, take_overloads, to_tokens};
use playwright_api::naming::{camel_name, snake_name, Name, NameOf};
use playwright_api::rust_type::{use_ty, RustType, RustTypeOf};
use playwright_api::text::{
    contains_char_text, ends_with_char_text, join_text, remove_char, starts_with_text, text_eq,
};

fn text(s: &str) -> Name {
    NameOf::Text(s.to_string())
}

fn boxed(n: Name) -> Box<Name> {
    Box::new(n)
}

fn loud_camel(n: Name) -> Name {
    NameOf::LoudToCamel(boxed(n))
}

fn loud_snake(n: Name) -> Name {
    NameOf::LoudToSnake(boxed(n))
}

fn join(a: Name, b: Name) -> Name {
    NameOf::Join(boxed(a), boxed(b))
}

fn named(n: Name) -> RustType {
    RustTypeOf::Named(n)
}

fn opt(t: RustType) -> RustType {
    RustTypeOf::Optional(Box::new(t))
}

fn ty(name: &str) -> Type {
    Type {
        name: name.to_string(),
        expression: None,
        properties: vec![],
        templates: vec![],
        union: vec![],
    }
}

fn array_of(t: Type) -> Type {
    Type { templates: vec![t], ..ty("Array") }
}

fn union_of(ts: Vec<Type>) -> Type {
    Type { union: ts, ..ty("union") }
}

fn arg(name: &str, t: Type, required: bool) -> Arg {
    Arg {
        name: name.to_string(),
        alias: name.to_string(),
        ty: t,
        overload_index: 0,
        required,
        deprecated: false,
        is_async: false,
        csharp_action: false,
    }
}

fn object(props: Vec<Arg>) -> Type {
    Type { properties: props, ..ty("Object") }
}

fn member(kind: Kind, name: &str, args: Vec<Arg>, t: Type) -> Member {
    Member {
        kind,
        name: name.to_string(),
        alias: name.to_string(),
        experimental: false,
        overload_index: 0,
        required: true,
        is_async: false,
        args,
        ty: t,
        deprecated: false,
    }
}

fn empty_scope() -> Name {
    text("")
}

// ---- text helpers ----

#[test]
fn text_helpers() {
    assert!(text_eq("Array", "Array"));
    assert!(!text_eq("Array", "Arra"));
    assert!(starts_with_text("application/json; charset=utf-8", "application/json"));
    assert!(!starts_with_text("application", "application/json"));
    assert!(ends_with_char_text("string?", '?'));
    assert!(!ends_with_char_text("", '?'));
    assert!(contains_char_text("\"a\"", '"'));
    assert_eq!(remove_char("#on#ce", '#'), "once");
    assert_eq!(join_text("Extends ", "Page"), "Extends Page");
}

// ---- case conversions ----

#[test]
fn camel_case_conversion() {
    assert_eq!(camel_name(text("a_string_and_a_miss")), text("AStringAndAMiss"));
    assert_eq!(camel_name(text("_wild__underscore_s_")), text("WildUnderscoreS"));
    assert_eq!(camel_name(text("fooby")), text("Fooby"));
}

#[test]
fn snake_case_conversion() {
    assert_eq!(snake_name(text("martinLutherStringJr")), text("martin_luther_string_jr"));
    assert_eq!(snake_name(text("WildUnderscoreS")), text("wild_underscore_s"));
}

#[test]
fn camel_of_text_is_computed_and_of_recipe_recorded() {
    assert_eq!(camel_name(text("wait_for")), text("WaitFor"));
    let recipe = loud_camel(text("x"));
    assert_eq!(camel_name(loud_camel(text("x"))), NameOf::Camel(boxed(recipe)));
    assert_eq!(snake_name(text("waitFor")), text("wait_for"));
}

// ---- use_ty ----

#[test]
fn use_ty_primitives() {
    let s = empty_scope();
    assert_eq!(use_ty(&s, "x", &ty("string"), true), RustTypeOf::BorrowedStr);
    assert_eq!(use_ty(&s, "x", &ty("string"), false), RustTypeOf::OwnedStr);
    assert_eq!(use_ty(&s, "x", &ty("json"), true), RustTypeOf::BorrowedStr);
    assert_eq!(use_ty(&s, "x", &ty("json"), false), RustTypeOf::OwnedStr);
    assert_eq!(use_ty(&s, "x", &ty("binary"), true), RustTypeOf::BorrowedBytes);
    assert_eq!(use_ty(&s, "x", &ty("binary"), false), RustTypeOf::OwnedBytes);
    assert_eq!(use_ty(&s, "x", &ty("number"), true), RustTypeOf::JsonNumber);
    assert_eq!(use_ty(&s, "x", &ty("float"), true), RustTypeOf::Float);
    assert_eq!(use_ty(&s, "x", &ty("boolean"), true), RustTypeOf::Bool);
    assert_eq!(use_ty(&s, "x", &ty("void"), false), RustTypeOf::Unit);
}

#[test]
fn use_ty_nullable_primitive_is_optional() {
    let s = empty_scope();
    assert_eq!(use_ty(&s, "x", &ty("string?"), false), opt(RustTypeOf::OwnedStr));
    assert_eq!(use_ty(&s, "x", &ty("boolean?"), true), opt(RustTypeOf::Bool));
}

#[test]
fn use_ty_other_name_is_named_type() {
    let s = empty_scope();
    assert_eq!(use_ty(&s, "x", &ty("ElementHandle"), true), named(loud_camel(text("ElementHandle"))));
    assert_eq!(
        use_ty(&s, "x", &ty("ElementHandle?"), true),
        opt(named(loud_camel(text("ElementHandle"))))
    );
}

#[test]
fn use_ty_object_named_after_place() {
    let t = object(vec![arg("x", ty("float"), true)]);
    let r = use_ty(&text("set_viewport"), "view_port", &t, true);
    assert_eq!(r, named(join(loud_camel(text("SetViewport")), loud_camel(text("ViewPort")))));
}

#[test]
fn use_ty_array() {
    let s = empty_scope();
    let t = array_of(ty("string"));
    assert_eq!(use_ty(&s, "x", &t, true), RustTypeOf::SliceOf(Box::new(RustTypeOf::BorrowedStr)));
    assert_eq!(use_ty(&s, "x", &t, false), RustTypeOf::VecOf(Box::new(RustTypeOf::OwnedStr)));
}

#[test]
fn use_ty_other_template_is_named() {
    let t = Type { templates: vec![ty("string")], ..ty("Map") };
    let r = use_ty(&empty_scope(), "headers", &t, false);
    assert_eq!(r, named(join(loud_camel(text("")), loud_camel(text("Headers")))));
}

#[test]
fn use_ty_unions() {
    let s = empty_scope();
    let single = union_of(vec![ty("null"), ty("string")]);
    assert_eq!(
        use_ty(&s, "x", &single, false),
        RustTypeOf::OptionalMisspelt(Box::new(RustTypeOf::OwnedStr))
    );
    let plain = union_of(vec![ty("string")]);
    assert_eq!(use_ty(&s, "x", &plain, false), RustTypeOf::OwnedStr);
    let two = union_of(vec![ty("string"), ty("float"), ty("null")]);
    let id = named(join(loud_camel(text("")), loud_camel(text("Value"))));
    assert_eq!(use_ty(&s, "value", &two, true), opt(id));
    let two_plain = union_of(vec![ty("string"), ty("float")]);
    let id = named(join(loud_camel(text("")), loud_camel(text("Value"))));
    assert_eq!(use_ty(&s, "value", &two_plain, true), id);
}

// ---- the borrowing laws ----

fn holds_ref(t: &RustType) -> bool {
    match t {
        RustTypeOf::BorrowedBytes | RustTypeOf::BorrowedStr | RustTypeOf::SliceOf(_) => true,
        RustTypeOf::VecOf(x) | RustTypeOf::Optional(x) | RustTypeOf::OptionalMisspelt(x) => holds_ref(x),
        _ => false,
    }
}

#[test]
fn borrowed_and_owned_forms_differ_only_where_borrowed() {
    let s = empty_scope();
    for t in [ty("string"), ty("boolean"), array_of(ty("float")), union_of(vec![ty("null"), ty("binary")])] {
        let b = use_ty(&s, "x", &t, true);
        let o = use_ty(&s, "x", &t, false);
        assert_eq!(holds_ref(&b), b != o);
        assert!(!holds_ref(&o));
    }
}

// ---- arg_field ----

#[test]
fn arg_field_required_and_optional() {
    let f = arg_field("click", &arg("selector", ty("string"), true), true);
    assert_eq!(f, FieldDecl { name: loud_snake(text("selector")), ty: RustTypeOf::BorrowedStr });
    let f = arg_field("click", &arg("timeout", ty("float"), false), true);
    assert_eq!(f, FieldDecl { name: loud_snake(text("timeout")), ty: opt(RustTypeOf::Float) });
}

// ---- declare_ty / enum_tokens / collect_types ----

#[test]
fn declare_ty_primitive_declares_nothing() {
    assert!(declare_ty("goto", "url", &ty("string"), true).is_empty());
}

#[test]
fn declare_ty_object_declares_struct() {
    let t = object(vec![arg("width", ty("float"), true), arg("height", ty("float"), false)]);
    let items = declare_ty("set_viewport#1", "size", &t, true);
    assert_eq!(items.len(), 1);
    let sname = join(loud_camel(text("SetViewport1")), loud_camel(text("Size")));
    let field_ty = |p: &str| {
        named(join(
            loud_camel(NameOf::Camel(boxed(sname.clone_name()))),
            loud_camel(text(p)),
        ))
    };
    match &items[0] {
        Item::Struct(s) => {
            assert_eq!(s.name, sname);
            assert_eq!(s.fields.len(), 2);
            assert_eq!(s.fields[0].name, loud_snake(text("width")));
            assert_eq!(s.fields[0].ty, field_ty("Width"));
            assert_eq!(s.fields[1].name, loud_snake(text("height")));
            assert_eq!(s.fields[1].ty, opt(field_ty("Height")));
        },
        other => panic!("expected a struct, got {:?}", other),
    }
}

trait CloneName {
    fn clone_name(&self) -> Name;
}

impl CloneName for Name {
    fn clone_name(&self) -> Name {
        match self {
            NameOf::Text(s) => NameOf::Text(s.clone()),
            NameOf::Join(a, b) => NameOf::Join(boxed(a.clone_name()), boxed(b.clone_name())),
            NameOf::LoudToCamel(a) => NameOf::LoudToCamel(boxed(a.clone_name())),
            NameOf::LoudToSnake(a) => NameOf::LoudToSnake(boxed(a.clone_name())),
            NameOf::KebabToCamel(a) => NameOf::KebabToCamel(boxed(a.clone_name())),
            NameOf::Camel(a) => NameOf::Camel(boxed(a.clone_name())),
            NameOf::Snake(a) => NameOf::Snake(boxed(a.clone_name())),
        }
    }
}

#[test]
fn declare_ty_union_declares_enum() {
    let t = union_of(vec![ty("\"load\""), ty("\"dom-content-loaded\""), ty("float"), ty("null")]);
    let items = declare_ty("wait_for", "state", &t, false);
    assert_eq!(items.len(), 1);
    match &items[0] {
        Item::Enum(e) => {
            assert_eq!(e.name, join(loud_camel(text("WaitFor")), loud_camel(text("State"))));
            assert_eq!(e.variants.len(), 3);
            assert_eq!(e.variants[0].label, NameOf::KebabToCamel(boxed(text("load"))));
            assert_eq!(e.variants[0].rename, "load");
            assert_eq!(e.variants[0].payload, None);
            assert_eq!(e.variants[1].rename, "dom-content-loaded");
            assert_eq!(e.variants[2].label, NameOf::KebabToCamel(boxed(text("float"))));
            assert_eq!(e.variants[2].rename, "float");
            assert_eq!(e.variants[2].payload, Some(RustTypeOf::Float));
        },
        other => panic!("expected an enum, got {:?}", other),
    }
}

#[test]
fn declare_ty_single_union_and_array_look_through() {
    let inner = object(vec![arg("a", ty("string"), true)]);
    let items = declare_ty("m", "n", &union_of(vec![ty("null"), inner]), true);
    assert_eq!(items.len(), 1);
    let inner = object(vec![arg("a", ty("string"), true)]);
    let items = declare_ty("m", "n", &array_of(inner), true);
    assert_eq!(items.len(), 1);
}

#[test]
fn declare_ty_known_template_declares_each_template() {
    let t = Type {
        expression: Some("[Object]<[string], [string]>".to_string()),
        templates: vec![ty("string"), object(vec![arg("a", ty("string"), true)])],
        ..ty("Object")
    };
    let items = declare_ty("m", "n", &t, true);
    assert_eq!(items.len(), 1);
}

#[test]
fn declarations_do_not_depend_on_borrowing() {
    let t = object(vec![arg("a", ty("string"), true), arg("b", ty("binary"), false)]);
    assert_eq!(declare_ty("m", "n", &t, true), declare_ty("m", "n", &t, false));
    let u = union_of(vec![ty("string"), ty("binary")]);
    assert_eq!(declare_ty("m", "n", &u, true), declare_ty("m", "n", &u, false));
}

#[test]
fn enum_tokens_skips_null() {
    let e = enum_tokens(text("E"), &union_of(vec![ty("null"), ty("\"a\""), ty("\"b\"")]));
    assert_eq!(e.name, text("E"));
    assert_eq!(e.variants.len(), 2);
    assert_eq!(e.variants[1].rename, "b");
}

#[test]
fn collect_types_skips_csharp_callbacks() {
    let obj = || object(vec![arg("a", ty("string"), true)]);
    let mut callback = arg("handler", obj(), true);
    callback.csharp_action = true;
    let m = member(Kind::Method, "route", vec![arg("options", obj(), false), callback], obj());
    let x = Interface { name: "Page".to_string(), extends: None, members: vec![m] };
    let items = collect_types(&x);
    assert_eq!(items.len(), 2);
    match (&items[0], &items[1]) {
        (Item::Struct(a), Item::Struct(b)) => {
            assert_eq!(a.name, join(loud_camel(text("Route")), loud_camel(text("Options"))));
            assert_eq!(b.name, join(loud_camel(text("Route")), loud_camel(text(""))));
        },
        other => panic!("expected two structs, got {:?}", other),
    }
}

// ---- needs_builder / method_tokens / event_tokens ----

#[test]
fn needs_builder_counts_optional_values() {
    let none = member(Kind::Method, "m", vec![arg("a", ty("string"), true)], ty("void"));
    assert!(!needs_builder(&none));
    let one = member(Kind::Method, "m", vec![arg("a", ty("string"), false)], ty("void"));
    assert!(!needs_builder(&one));
    let two = member(
        Kind::Method,
        "m",
        vec![arg("a", ty("string"), false), arg("b", ty("string"), false)],
        ty("void"),
    );
    assert!(needs_builder(&two));
    let options = object(vec![arg("x", ty("float"), false), arg("y", ty("float"), false)]);
    let opts = member(Kind::Method, "m", vec![arg("options", options, true)], ty("void"));
    assert!(needs_builder(&opts));
    let options = object(vec![arg("x", ty("float"), false)]);
    let opt_one = member(Kind::Method, "m", vec![arg("options", options, false)], ty("void"));
    assert!(needs_builder(&opt_one));
}

#[test]
fn method_tokens_plain_method() {
    let mut m = member(
        Kind::Method,
        "waitForSelector",
        vec![arg("selector", ty("string"), true), arg("timeout", ty("float"), false)],
        ty("ElementHandle?"),
    );
    m.is_async = true;
    m.required = false;
    let d = method_tokens(&m, None);
    assert!(d.is_async);
    assert!(d.unnecessary);
    assert!(!d.experimental);
    assert!(!d.deprecated);
    assert_eq!(d.name, loud_snake(text("waitForSelector")));
    assert_eq!(d.args.len(), 1);
    assert_eq!(d.args[0].ty, RustTypeOf::BorrowedStr);
    assert_eq!(d.ret, opt(named(loud_camel(text("ElementHandle")))));
}

#[test]
fn method_tokens_builder_method() {
    let options = object(vec![arg("x", ty("float"), false), arg("y", ty("float"), false)]);
    let ret = object(vec![arg("p", ty("float"), true)]);
    let mut m = member(Kind::Method, "click#2", vec![arg("options", options, false)], ret);
    m.alias = "click".to_string();
    m.is_async = true;
    let d = method_tokens(&m, None);
    assert!(!d.is_async);
    assert_eq!(
        d.name,
        join(NameOf::Snake(boxed(loud_camel(text("click2")))), text("_builder"))
    );
    assert_eq!(
        d.ret,
        named(join(loud_camel(text("")), loud_camel(text("Click2Builder"))))
    );
    assert!(d.args.is_empty());
}

#[test]
fn event_tokens_labels_and_payloads() {
    let close = member(Kind::Event, "close", vec![], ty("void"));
    let console = member(Kind::Event, "console_message", vec![], ty("ConsoleMessage"));
    let vs = event_tokens(vec![&close, &console]);
    assert_eq!(vs.len(), 2);
    assert_eq!(vs[0].label, loud_camel(text("Close")));
    assert_eq!(vs[0].payload, None);
    assert_eq!(vs[1].label, loud_camel(text("ConsoleMessage")));
    assert_eq!(vs[1].payload, Some(named(loud_camel(text("ConsoleMessage")))));
}

// ---- body / to_tokens / overloads ----

fn page() -> Interface {
    let mut overload = member(Kind::Method, "goto#1", vec![], ty("void"));
    overload.alias = "goto".to_string();
    overload.overload_index = 1;
    Interface {
        name: "Page".to_string(),
        extends: Some("EventEmitter".to_string()),
        members: vec![
            member(Kind::Property, "url", vec![], ty("string")),
            member(Kind::Method, "goto", vec![arg("url", ty("string"), true)], ty("void")),
            overload,
            member(Kind::Event, "close", vec![], ty("void")),
        ],
    }
}

#[test]
fn body_of_interface() {
    let d = body(&page());
    assert_eq!(d.owner_name, loud_camel(text("Page")));
    assert_eq!(d.mod_name, NameOf::Snake(boxed(loud_camel(text("Page")))));
    assert_eq!(d.extends_doc, Some("Extends EventEmitter".to_string()));
    assert_eq!(d.methods.len(), 2);
    assert_eq!(d.methods[0].name, loud_snake(text("url")));
    assert_eq!(d.methods[1].name, loud_snake(text("goto")));
    let events = d.events.expect("the interface has an event");
    assert_eq!(events.len(), 1);
    assert!(d.types.is_empty());
}

#[test]
fn body_without_events_has_no_event_enum() {
    let x = Interface {
        name: "Mouse".to_string(),
        extends: None,
        members: vec![member(Kind::Method, "down", vec![], ty("void"))],
    };
    let d = body(&x);
    assert_eq!(d.events, None);
    assert_eq!(d.extends_doc, None);
}

#[test]
fn to_tokens_one_module_per_interface() {
    let api = Api(vec![page(), page()]);
    let ms = to_tokens(&api);
    assert_eq!(ms.len(), 2);
}

#[test]
fn overloads_grouped_by_alias() {
    let x = page();
    let mut groups = overload_groups(&x.members);
    assert_eq!(groups.len(), 1);
    assert_eq!(groups[0].alias, "goto");
    assert_eq!(groups[0].members.len(), 1);
    assert_eq!(groups[0].members[0].name, "goto#1");
    assert!(take_overloads(&mut groups, "url").is_none());
    let taken = take_overloads(&mut groups, "goto").expect("a group for goto");
    assert_eq!(taken.len(), 1);
    assert!(groups.is_empty());
    assert!(take_overloads(&mut groups, "goto").is_none());
}

#[test]
fn unused_kind_is_kept() {
    let _ = Kind::Property;
    let _: Vec<FieldDecl> = Vec::new();
}

#[test]
fn builder_kept_when_arguments_are_added() {
    let one = member(Kind::Method, "m", vec![arg("a", ty("string"), false)], ty("void"));
    let two = member(
        Kind::Method,
        "m",
        vec![arg("a", ty("string"), false), arg("b", ty("string"), false)],
        ty("void"),
    );
    assert!(needs_builder(&two));
    let more = member(
        Kind::Method,
        "m",
        vec![
            arg("x", ty("string"), true),
            arg("a", ty("string"), false),
            arg("y", ty("float"), true),
            arg("b", ty("string"), false),
        ],
        ty("void"),
    );
    assert!(needs_builder(&more));
    assert!(!needs_builder(&one));
}

#[test]
fn builder_ignores_argument_order() {
    let options = || object(vec![arg("x", ty("float"), false)]);
    let a = member(
        Kind::Method,
        "m",
        vec![arg("options", options(), true), arg("b", ty("string"), false)],
        ty("void"),
    );
    let b = member(
        Kind::Method,
        "m",
        vec![arg("b", ty("string"), false), arg("options", options(), true)],
        ty("void"),
    );
    assert_eq!(needs_builder(&a), needs_builder(&b));
    assert!(needs_builder(&a));
}
