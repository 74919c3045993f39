//! The declarations the generator emits for the types that members and
//! arguments use: structs for object types and enums for unions
//! (`declare_ty`, `enum_tokens`, `collect_types`), and the fields of
//! argument lists (`arg_field`).

use vstd::prelude::*;
use crate::api::{Arg, Interface, Member, Type};
use crate::case_conv::{ascii_upper, camel_case, camel_from, to_camel_text};
use crate::naming::{
    join, join_names, kebab_camel, kebab_camel_name, loud_camel, loud_camel_name, loud_snake,
    loud_snake_name, name_text, name_view, text, Name, NameOf, NameV,
};
use crate::rust_type::{
    count_non_null, first_non_null, first_non_null_from, is_null_member, non_null_count, use_ty,
    use_ty_accepts, use_ty_defined, use_ty_spec, ty_view, RustType, RustTypeOf, RustTypeV,
};
use crate::text::{contains_char_text, holds_char, remove_char, text_eq, without_char};

verus! {

/// A field: its identifier and its Rust type.
#[derive(Debug, PartialEq, Eq)]
pub struct FieldDecl {
    pub name: Name,
    pub ty: RustType,
}

/// The view of a field.
pub struct FieldDeclV {
    pub name: NameV,
    pub ty: RustTypeV,
}

/// A struct declaration.
#[derive(Debug, PartialEq, Eq)]
pub struct StructDecl {
    pub name: Name,
    pub fields: Vec<FieldDecl>,
}

/// The view of a struct declaration.
pub struct StructDeclV {
    pub name: NameV,
    pub fields: Seq<FieldDeclV>,
}

/// A variant of a generated enum: its identifier, the name it is
/// (de)serialised under, and the type it carries, if any.
#[derive(Debug, PartialEq, Eq)]
pub struct EnumVariant {
    pub label: Name,
    pub rename: String,
    pub payload: Option<RustType>,
}

/// The view of an enum variant.
pub struct EnumVariantV {
    pub label: NameV,
    pub rename: Seq<char>,
    pub payload: Option<RustTypeV>,
}

/// An enum declaration.
#[derive(Debug, PartialEq, Eq)]
pub struct EnumDecl {
    pub name: Name,
    pub variants: Vec<EnumVariant>,
}

/// The view of an enum declaration.
pub struct EnumDeclV {
    pub name: NameV,
    pub variants: Seq<EnumVariantV>,
}

/// A declared item.
#[derive(Debug, PartialEq, Eq)]
pub enum Item {
    Struct(StructDecl),
    Enum(EnumDecl),
}

/// The view of a declared item.
pub enum ItemV {
    Struct(StructDeclV),
    Enum(EnumDeclV),
}

pub open spec fn field_view(f: FieldDecl) -> FieldDeclV {
    FieldDeclV { name: name_view(f.name), ty: ty_view(f.ty) }
}

pub open spec fn fields_view(fs: Seq<FieldDecl>) -> Seq<FieldDeclV> {
    fs.map_values(|f: FieldDecl| field_view(f))
}

pub open spec fn variant_view(v: EnumVariant) -> EnumVariantV {
    EnumVariantV {
        label: name_view(v.label),
        rename: v.rename@,
        payload: match v.payload {
            Some(t) => Some(ty_view(t)),
            None => None,
        },
    }
}

pub open spec fn enum_view(e: EnumDecl) -> EnumDeclV {
    EnumDeclV {
        name: name_view(e.name),
        variants: e.variants@.map_values(|v: EnumVariant| variant_view(v)),
    }
}

pub open spec fn item_view(i: Item) -> ItemV {
    match i {
        Item::Struct(s) => ItemV::Struct(
            StructDeclV { name: name_view(s.name), fields: fields_view(s.fields@) },
        ),
        Item::Enum(e) => ItemV::Enum(enum_view(e)),
    }
}

pub open spec fn items_view(items: Seq<Item>) -> Seq<ItemV> {
    items.map_values(|i: Item| item_view(i))
}

/// `t`, or `Option<t>` when the value is not required.
pub open spec fn optional_unless(required: bool, t: RustTypeV) -> RustTypeV {
    if required {
        t
    } else {
        RustTypeOf::Optional(Box::new(t))
    }
}

/// What `arg_field` may be given: a synchronous, non-overloaded argument
/// whose alias is its name and whose type `use_ty` maps.
pub open spec fn arg_field_defined(a: Arg) -> bool {
    &&& !a.is_async
    &&& a.overload_index == 0
    &&& a.alias@ == a.name@
    &&& use_ty_defined(a.ty)
}

/// The field for argument `a` of a member whose scope is `scope`: named
/// `loud_to_snake(name)`, optional unless the argument is required.
pub open spec fn arg_field_spec(scope: Seq<char>, a: Arg, borrow: bool) -> FieldDeclV {
    FieldDeclV {
        name: loud_snake(text(a.name@)),
        ty: optional_unless(a.required, use_ty_spec(text(scope), a.name@, a.ty, borrow)),
    }
}

/// The field written for argument `a` in the parameter list of a member
/// whose scope is `scope`.
pub fn arg_field(scope: &str, a: &Arg, borrow: bool) -> (r: FieldDecl)
    requires
        arg_field_defined(*a),
    ensures
        field_view(r) == arg_field_spec(scope@, *a, borrow),
{
    let t = use_ty(&name_text(scope), a.name.as_str(), &a.ty, borrow);
    let ty = if a.required {
        t
    } else {
        RustTypeOf::Optional(Box::new(t))
    };
    FieldDecl { name: loud_snake_name(name_text(a.name.as_str())), ty }
}

/// The name of a type declared for `name` within `scope`:
/// `loud_to_camel` of `scope.to_camel()` without `#`, followed by
/// `loud_to_camel(name.to_camel())`.
pub open spec fn declared_name(scope: Seq<char>, name: Seq<char>) -> NameV {
    join(
        loud_camel(text(without_char(camel_case(scope), '#'))),
        loud_camel(text(camel_case(name))),
    )
}

/// The name of a type declared for `name` within `scope`.
fn declared_type_name(scope: &str, name: &str) -> (r: Name)
    ensures
        name_view(r) == declared_name(scope@, name@),
{
    let s = to_camel_text(scope);
    let a = loud_camel_name(NameOf::Text(remove_char(s.as_str(), '#')));
    let b = loud_camel_name(NameOf::Text(to_camel_text(name)));
    join_names(a, b)
}

/// The field declared for property `p` of the object type `ty` in the
/// struct called `sname`. Its type comes from `use_ty` of `ty` itself.
pub open spec fn property_field(sname: NameV, p: Arg, ty: Type, borrow: bool) -> FieldDeclV {
    FieldDeclV {
        name: loud_snake(text(p.name@)),
        ty: optional_unless(p.required, use_ty_spec(sname, p.name@, ty, borrow)),
    }
}

/// The variant of a generated enum for union member `t`: a quoted literal
/// becomes a plain variant named after the literal, anything else a
/// variant that carries the member's type.
pub open spec fn variant_spec(t: Type) -> EnumVariantV {
    if holds_char(t.name@, '"') {
        let bare = without_char(t.name@, '"');
        EnumVariantV { label: kebab_camel(text(bare)), rename: bare, payload: None }
    } else {
        EnumVariantV {
            label: kebab_camel(text(t.name@)),
            rename: t.name@,
            payload: Some(use_ty_spec(text(t.name@), t.name@, t, false)),
        }
    }
}

/// The variants for the union members in `s` that are not `null`, in
/// order.
pub open spec fn variants_spec(s: Seq<Type>) -> Seq<EnumVariantV>
    decreases s.len(),
{
    if s.len() == 0 {
        Seq::empty()
    } else if is_null_member(s.last()) {
        variants_spec(s.drop_last())
    } else {
        variants_spec(s.drop_last()).push(variant_spec(s.last()))
    }
}

/// The union members that a generated enum carries are ones `use_ty` maps.
pub open spec fn variants_defined(s: Seq<Type>) -> bool {
    forall|k: int|
        0 <= k < s.len() && !is_null_member(#[trigger] s[k]) && !holds_char(s[k].name@, '"')
            ==> use_ty_defined(s[k])
}

/// What `enum_tokens` may be given: a union without properties or
/// templates whose carried member types `use_ty` maps.
pub open spec fn enum_defined(ty: Type) -> bool {
    &&& ty.properties.len() == 0
    &&& ty.templates.len() == 0
    &&& variants_defined(ty.union@)
}

/// The enum declared under `name` for the union `ty`.
pub open spec fn enum_spec(name: NameV, ty: Type) -> EnumDeclV {
    EnumDeclV { name, variants: variants_spec(ty.union@) }
}

/// The variant written for union member `t`.
fn enum_variant(t: &Type) -> (r: EnumVariant)
    requires
        !holds_char(t.name@, '"') ==> use_ty_defined(*t),
    ensures
        variant_view(r) == variant_spec(*t),
{
    if contains_char_text(t.name.as_str(), '"') {
        let bare = remove_char(t.name.as_str(), '"');
        let label = kebab_camel_name(name_text(bare.as_str()));
        EnumVariant { label, rename: bare, payload: None }
    } else {
        let label = kebab_camel_name(name_text(t.name.as_str()));
        let payload = use_ty(&name_text(t.name.as_str()), t.name.as_str(), t, false);
        EnumVariant { label, rename: t.name.clone(), payload: Some(payload) }
    }
}

/// The enum declared under `name` for the union `ty`: one variant per
/// member that is not `null`.
pub fn enum_tokens(name: Name, ty: &Type) -> (r: EnumDecl)
    requires
        enum_defined(*ty),
    ensures
        enum_view(r) == enum_spec(name_view(name), *ty),
{
    let mut variants: Vec<EnumVariant> = Vec::new();
    let mut i: usize = 0;
    assert(ty.union@.take(0) =~= Seq::<Type>::empty());
    while i < ty.union.len()
        invariant
            i <= ty.union.len(),
            enum_defined(*ty),
            variants@.map_values(|v: EnumVariant| variant_view(v)) == variants_spec(
                ty.union@.take(i as int),
            ),
        decreases ty.union.len() - i,
    {
        let t = &ty.union[i];
        assert(ty.union@.take(i + 1).drop_last() =~= ty.union@.take(i as int));
        assert(ty.union@.take(i + 1).last() == ty.union@[i as int]);
        if !text_eq(t.name.as_str(), "null") {
            let v = enum_variant(t);
            let ghost before = variants@;
            variants.push(v);
            assert(variants@.map_values(|v: EnumVariant| variant_view(v)) =~= before.map_values(
                |v: EnumVariant| variant_view(v),
            ).push(variant_view(v)));
        }
        i = i + 1;
    }
    assert(ty.union@.take(ty.union.len() as int) =~= ty.union@);
    EnumDecl { name, variants }
}

/// The expressions of the generic types, other than arrays, whose
/// templates `declare_ty` declares in turn.
pub open spec fn known_template_expression(e: Option<String>) -> bool {
    e matches Some(x) && (x@ == "[IReadOnlyDictionary<string, BrowserNewContextOptions>]"@ || x@
        == "[Map]<[string], [JSHandle]>"@ || x@ == "[Object]<[string], [string]>"@)
}

/// The expression of the one kind of type with both properties and
/// templates, for which nothing is declared.
pub open spec fn known_record_expression(e: Option<String>) -> bool {
    e matches Some(x) && x@ == "[Object]<[string], [string]|[float]|[boolean]|[ReadStream]|[Object]>"@
}

/// The type expressions for which `declare_ty` completes: function types,
/// object types not named `Object`, arrays with other than one template,
/// other generic types with an unknown expression, unions of `null` alone
/// and unions whose enum cannot be written are refused.
pub open spec fn declare_ty_defined(ty: Type) -> bool
    decreases ty,
{
    if ty.union.len() == 0 {
        if ty.properties.len() == 0 {
            if ty.templates.len() == 0 {
                true
            } else if ty.name@ == "Func"@ {
                false
            } else if ty.name@ == "Array"@ {
                ty.templates.len() == 1 && declare_ty_defined(ty.templates@[0])
            } else {
                known_template_expression(ty.expression) && forall|k: int|
                    0 <= k < ty.templates.len() ==> declare_ty_defined(#[trigger] ty.templates@[k])
            }
        } else if ty.templates.len() == 0 {
            ty.name@ == "Object"@
        } else {
            known_record_expression(ty.expression)
        }
    } else {
        let n = non_null_count(ty.union@);
        let i = first_non_null_from(ty.union@, 0);
        &&& n >= 1
        &&& n == 1 ==> (0 <= i < ty.union.len() && declare_ty_defined(ty.union@[i]))
        &&& n >= 2 ==> enum_defined(ty)
    }
}

/// The fields of the struct `sname` declared for the object type `ty`.
pub open spec fn struct_fields_spec(sname: NameV, ty: Type, borrow: bool) -> Seq<FieldDeclV> {
    Seq::new(ty.properties@.len(), |j: int| property_field(sname, ty.properties@[j], ty, borrow))
}

/// The items declared for the type expression `ty` of `name` within
/// `scope`: a struct for an object type, an enum for a union of two or
/// more members besides `null`, the items of the element type for an array
/// and of each template for the known generic types, and nothing for a
/// primitive type.
pub open spec fn declare_ty_spec(scope: Seq<char>, name: Seq<char>, ty: Type, borrow: bool) -> Seq<
    ItemV,
>
    decreases ty, 1nat, 0nat,
{
    if ty.union.len() == 0 {
        if ty.properties.len() == 0 && ty.templates.len() == 0 {
            Seq::empty()
        } else if ty.templates.len() == 0 {
            let sname = declared_name(scope, name);
            seq![
                ItemV::Struct(
                    StructDeclV { name: sname, fields: struct_fields_spec(sname, ty, borrow) },
                ),
            ]
        } else if ty.properties.len() == 0 && ty.name@ == "Array"@ {
            declare_ty_spec(scope, name, ty.templates@[0], borrow)
        } else if ty.properties.len() == 0 {
            templates_items(scope, name, ty, ty.templates.len() as nat, borrow)
        } else {
            Seq::empty()
        }
    } else {
        let i = first_non_null_from(ty.union@, 0);
        if non_null_count(ty.union@) == 1 {
            if 0 <= i < ty.union.len() {
                declare_ty_spec(scope, name, ty.union@[i], borrow)
            } else {
                Seq::empty()
            }
        } else {
            seq![ItemV::Enum(enum_spec(declared_name(scope, name), ty))]
        }
    }
}

/// The items declared for the first `k` templates of `ty`, in order.
pub open spec fn templates_items(
    scope: Seq<char>,
    name: Seq<char>,
    ty: Type,
    k: nat,
    borrow: bool,
) -> Seq<ItemV>
    decreases ty, 0nat, k,
{
    if k == 0 || k > ty.templates.len() {
        Seq::empty()
    } else {
        templates_items(scope, name, ty, (k - 1) as nat, borrow) + declare_ty_spec(
            scope,
            name,
            ty.templates@[k - 1],
            borrow,
        )
    }
}

/// The items declared for the type expression `ty` of `name` within
/// `scope`.
pub fn declare_ty(scope: &str, name: &str, ty: &Type, borrow: bool) -> (r: Vec<Item>)
    requires
        declare_ty_defined(*ty),
    ensures
        items_view(r@) == declare_ty_spec(scope@, name@, *ty, borrow),
    decreases ty,
{
    if ty.union.len() == 0 {
        if ty.properties.len() == 0 && ty.templates.len() == 0 {
            let r: Vec<Item> = Vec::new();
            assert(items_view(r@) =~= Seq::empty());
            r
        } else if ty.templates.len() == 0 {
            let sname = declared_type_name(scope, name);
            let ghost sv = name_view(sname);
            let mut fields: Vec<FieldDecl> = Vec::new();
            let mut i: usize = 0;
            while i < ty.properties.len()
                invariant
                    i <= ty.properties.len(),
                    name_view(sname) == sv,
                    ty.union.len() == 0,
                    ty.templates.len() == 0,
                    ty.properties.len() > 0,
                    ty.name@ == "Object"@,
                    fields_view(fields@) =~= Seq::new(
                        i as nat,
                        |j: int| property_field(sv, ty.properties@[j], *ty, borrow),
                    ),
                decreases ty.properties.len() - i,
            {
                let p = &ty.properties[i];
                let t = use_ty(&sname, p.name.as_str(), ty, borrow);
                let fty = if p.required {
                    t
                } else {
                    RustTypeOf::Optional(Box::new(t))
                };
                let f = FieldDecl { name: loud_snake_name(name_text(p.name.as_str())), ty: fty };
                assert(field_view(f) == property_field(sv, ty.properties@[i as int], *ty, borrow));
                let ghost before = fields@;
                fields.push(f);
                assert(fields_view(fields@) =~= fields_view(before).push(
                    property_field(sv, ty.properties@[i as int], *ty, borrow),
                ));
                i = i + 1;
            }
            let item = Item::Struct(StructDecl { name: sname, fields });
            let r = vec![item];
            assert(items_view(r@) =~= seq![item_view(item)]);
            r
        } else if ty.properties.len() == 0 && text_eq(ty.name.as_str(), "Array") {
            declare_ty(scope, name, &ty.templates[0], borrow)
        } else if ty.properties.len() == 0 {
            let mut out: Vec<Item> = Vec::new();
            let mut k: usize = 0;
            assert(items_view(out@) =~= Seq::empty());
            while k < ty.templates.len()
                invariant
                    k <= ty.templates.len(),
                    forall|j: int|
                        0 <= j < ty.templates.len() ==> declare_ty_defined(
                            #[trigger] ty.templates@[j],
                        ),
                    items_view(out@) == templates_items(scope@, name@, *ty, k as nat, borrow),
                decreases ty.templates.len() - k,
            {
                let mut items = declare_ty(scope, name, &ty.templates[k], borrow);
                let ghost before = out@;
                let ghost added = items@;
                out.append(&mut items);
                assert(items_view(out@) =~= items_view(before) + items_view(added));
                k = k + 1;
            }
            out
        } else {
            let r: Vec<Item> = Vec::new();
            assert(items_view(r@) =~= Seq::empty());
            r
        }
    } else {
        let n = count_non_null(&ty.union);
        if n == 1 {
            let i = first_non_null(&ty.union);
            declare_ty(scope, name, &ty.union[i], borrow)
        } else {
            let e = enum_tokens(declared_type_name(scope, name), ty);
            let item = Item::Enum(e);
            let r = vec![item];
            assert(items_view(r@) =~= seq![item_view(item)]);
            r
        }
    }
}

/// The type expressions of a member for which declarations are written
/// all lie where `declare_ty` completes: its own type, and the types of its
/// arguments other than C# callbacks.
pub open spec fn member_types_defined(m: Member) -> bool {
    &&& declare_ty_defined(m.ty)
    &&& forall|k: int|
        0 <= k < m.args.len() && !(#[trigger] m.args@[k]).csharp_action ==> declare_ty_defined(
            m.args@[k].ty,
        )
}

/// What `collect_types` may be given.
pub open spec fn collect_types_defined(x: Interface) -> bool {
    forall|k: int| 0 <= k < x.members.len() ==> member_types_defined(#[trigger] x.members@[k])
}

/// The items declared for the first `k` arguments of member `m`; an
/// argument that is a C# callback contributes nothing.
pub open spec fn args_items(m: Member, k: nat) -> Seq<ItemV>
    decreases k,
{
    if k == 0 || k > m.args.len() {
        Seq::empty()
    } else {
        let a = m.args@[k - 1];
        args_items(m, (k - 1) as nat) + if a.csharp_action {
            Seq::empty()
        } else {
            declare_ty_spec(m.name@, a.name@, a.ty, true)
        }
    }
}

/// The items declared for member `m`: those of its arguments (borrowed),
/// then those of its own type (owned).
pub open spec fn member_items(m: Member) -> Seq<ItemV> {
    args_items(m, m.args.len() as nat) + declare_ty_spec(m.name@, Seq::empty(), m.ty, false)
}

/// The items declared for the members `ms`, in order.
pub open spec fn members_items(ms: Seq<Member>) -> Seq<ItemV>
    decreases ms.len(),
{
    if ms.len() == 0 {
        Seq::empty()
    } else {
        members_items(ms.drop_last()) + member_items(ms.last())
    }
}

/// The items declared for member `m`.
fn member_types(m: &Member) -> (r: Vec<Item>)
    requires
        member_types_defined(*m),
    ensures
        items_view(r@) == member_items(*m),
{
    let mut out: Vec<Item> = Vec::new();
    let mut k: usize = 0;
    assert(items_view(out@) =~= Seq::empty());
    while k < m.args.len()
        invariant
            k <= m.args.len(),
            member_types_defined(*m),
            items_view(out@) == args_items(*m, k as nat),
        decreases m.args.len() - k,
    {
        let a = &m.args[k];
        if !a.csharp_action {
            let mut items = declare_ty(m.name.as_str(), a.name.as_str(), &a.ty, true);
            let ghost before = out@;
            let ghost added = items@;
            out.append(&mut items);
            assert(items_view(out@) =~= items_view(before) + items_view(added));
        } else {
            assert(args_items(*m, (k + 1) as nat) =~= args_items(*m, k as nat));
        }
        k = k + 1;
    }
    let empty = String::new();
    let mut own = declare_ty(m.name.as_str(), empty.as_str(), &m.ty, false);
    let ghost before = out@;
    let ghost added = own@;
    out.append(&mut own);
    assert(items_view(out@) =~= items_view(before) + items_view(added));
    out
}

/// The declarations for every type that the members of interface `x` use:
/// for each member in order, the types of its arguments that are not C#
/// callbacks, then its own type.
pub fn collect_types(x: &Interface) -> (r: Vec<Item>)
    requires
        collect_types_defined(*x),
    ensures
        items_view(r@) == members_items(x.members@),
{
    let mut out: Vec<Item> = Vec::new();
    let mut k: usize = 0;
    assert(items_view(out@) =~= Seq::empty());
    assert(x.members@.take(0) =~= Seq::<Member>::empty());
    while k < x.members.len()
        invariant
            k <= x.members.len(),
            collect_types_defined(*x),
            items_view(out@) == members_items(x.members@.take(k as int)),
        decreases x.members.len() - k,
    {
        let mut items = member_types(&x.members[k]);
        let ghost before = out@;
        let ghost added = items@;
        out.append(&mut items);
        assert(items_view(out@) =~= items_view(before) + items_view(added));
        assert(x.members@.take(k + 1).drop_last() =~= x.members@.take(k as int));
        k = k + 1;
    }
    assert(x.members@.take(x.members.len() as int) =~= x.members@);
    out
}

/// Borrowing does not change what is declared: the declarations for a
/// type expression are the same whether its values are borrowed or owned.
pub proof fn lemma_declarations_ignore_borrow(scope: Seq<char>, name: Seq<char>, ty: Type)
    ensures
        declare_ty_spec(scope, name, ty, true) == declare_ty_spec(scope, name, ty, false),
    decreases ty, 1nat, 0nat,
{
    if ty.union.len() == 0 {
        if ty.properties.len() == 0 && ty.templates.len() == 0 {
        } else if ty.templates.len() == 0 {
            let sname = declared_name(scope, name);
            assert(struct_fields_spec(sname, ty, true) =~= struct_fields_spec(sname, ty, false));
        } else if ty.properties.len() == 0 && ty.name@ == "Array"@ {
            lemma_declarations_ignore_borrow(scope, name, ty.templates@[0]);
        } else if ty.properties.len() == 0 {
            lemma_template_declarations_ignore_borrow(scope, name, ty, ty.templates.len() as nat);
        }
    } else {
        let i = first_non_null_from(ty.union@, 0);
        if non_null_count(ty.union@) == 1 && 0 <= i < ty.union.len() {
            lemma_declarations_ignore_borrow(scope, name, ty.union@[i]);
        }
    }
}

/// Borrowing does not change the declarations for the first `k` templates
/// of a type expression.
proof fn lemma_template_declarations_ignore_borrow(
    scope: Seq<char>,
    name: Seq<char>,
    ty: Type,
    k: nat,
)
    ensures
        templates_items(scope, name, ty, k, true) == templates_items(scope, name, ty, k, false),
    decreases ty, 0nat, k,
{
    if k == 0 || k > ty.templates.len() {
    } else {
        lemma_template_declarations_ignore_borrow(scope, name, ty, (k - 1) as nat);
        lemma_declarations_ignore_borrow(scope, name, ty.templates@[k - 1]);
    }
}

/// Whether `arg_field` takes argument `a` (see `arg_field_defined`).
pub fn arg_field_accepts(a: &Arg) -> (r: bool)
    ensures
        r == arg_field_defined(*a),
{
    !a.is_async && a.overload_index == 0 && text_eq(a.alias.as_str(), a.name.as_str())
        && use_ty_accepts(&a.ty)
}

/// Whether the carried union members of `s` are all ones `use_ty` maps.
fn variants_accepted(s: &Vec<Type>) -> (r: bool)
    ensures
        r == variants_defined(s@),
{
    let mut i: usize = 0;
    while i < s.len()
        invariant
            i <= s.len(),
            forall|k: int|
                0 <= k < i && !is_null_member(#[trigger] s@[k]) && !holds_char(s@[k].name@, '"')
                    ==> use_ty_defined(s@[k]),
        decreases s.len() - i,
    {
        let t = &s[i];
        if !text_eq(t.name.as_str(), "null") && !contains_char_text(t.name.as_str(), '"')
            && !use_ty_accepts(t) {
            return false;
        }
        i = i + 1;
    }
    true
}

/// Whether `enum_tokens` takes the union `ty` (see `enum_defined`).
pub fn enum_accepts(ty: &Type) -> (r: bool)
    ensures
        r == enum_defined(*ty),
{
    ty.properties.len() == 0 && ty.templates.len() == 0 && variants_accepted(&ty.union)
}

/// Whether an optional text is the given literal text.
fn option_text_is(e: &Option<String>, lit: &str) -> (r: bool)
    ensures
        r == (e matches Some(x) && x@ == lit@),
{
    match e {
        Some(x) => text_eq(x.as_str(), lit),
        None => false,
    }
}

/// Whether `declare_ty` completes for `ty` (see `declare_ty_defined`).
pub fn declare_ty_accepts(ty: &Type) -> (r: bool)
    ensures
        r == declare_ty_defined(*ty),
    decreases ty,
{
    if ty.union.len() == 0 {
        if ty.properties.len() == 0 {
            if ty.templates.len() == 0 {
                true
            } else if text_eq(ty.name.as_str(), "Func") {
                false
            } else if text_eq(ty.name.as_str(), "Array") {
                ty.templates.len() == 1 && declare_ty_accepts(&ty.templates[0])
            } else {
                let known = option_text_is(
                    &ty.expression,
                    "[IReadOnlyDictionary<string, BrowserNewContextOptions>]",
                ) || option_text_is(&ty.expression, "[Map]<[string], [JSHandle]>")
                    || option_text_is(&ty.expression, "[Object]<[string], [string]>");
                if !known {
                    return false;
                }
                assert(known_template_expression(ty.expression));
                let mut k: usize = 0;
                while k < ty.templates.len()
                    invariant
                        k <= ty.templates.len(),
                        ty.union.len() == 0,
                        ty.properties.len() == 0,
                        ty.templates.len() > 0,
                        ty.name@ != "Func"@,
                        ty.name@ != "Array"@,
                        known_template_expression(ty.expression),
                        forall|j: int|
                            0 <= j < k ==> declare_ty_defined(#[trigger] ty.templates@[j]),
                    decreases ty.templates.len() - k,
                {
                    if !declare_ty_accepts(&ty.templates[k]) {
                        assert(!declare_ty_defined(ty.templates@[k as int]));
                        return false;
                    }
                    k = k + 1;
                }
                true
            }
        } else if ty.templates.len() == 0 {
            text_eq(ty.name.as_str(), "Object")
        } else {
            option_text_is(
                &ty.expression,
                "[Object]<[string], [string]|[float]|[boolean]|[ReadStream]|[Object]>",
            )
        }
    } else {
        let n = count_non_null(&ty.union);
        if n == 0 {
            false
        } else if n == 1 {
            let i = first_non_null(&ty.union);
            declare_ty_accepts(&ty.union[i])
        } else {
            enum_accepts(ty)
        }
    }
}

/// Whether the types of member `m` can all be declared (see
/// `member_types_defined`).
pub fn member_types_accepted(m: &Member) -> (r: bool)
    ensures
        r == member_types_defined(*m),
{
    if !declare_ty_accepts(&m.ty) {
        return false;
    }
    let mut k: usize = 0;
    while k < m.args.len()
        invariant
            k <= m.args.len(),
            forall|j: int|
                0 <= j < k && !(#[trigger] m.args@[j]).csharp_action ==> declare_ty_defined(
                    m.args@[j].ty,
                ),
        decreases m.args.len() - k,
    {
        if !m.args[k].csharp_action && !declare_ty_accepts(&m.args[k].ty) {
            return false;
        }
        k = k + 1;
    }
    true
}

/// Whether `collect_types` takes interface `x` (see
/// `collect_types_defined`).
pub fn collect_types_accepts(x: &Interface) -> (r: bool)
    ensures
        r == collect_types_defined(*x),
{
    let mut k: usize = 0;
    while k < x.members.len()
        invariant
            k <= x.members.len(),
            forall|j: int| 0 <= j < k ==> member_types_defined(#[trigger] x.members@[j]),
        decreases x.members.len() - k,
    {
        if !member_types_accepted(&x.members[k]) {
            return false;
        }
        k = k + 1;
    }
    true
}

/// Removing a character that does not occur changes nothing.
proof fn lemma_without_absent_char(s: Seq<char>, c: char)
    requires
        !holds_char(s, c),
    ensures
        without_char(s, c) == s,
    decreases s.len(),
{
    if s.len() > 0 {
        assert(!holds_char(s.drop_last(), c)) by {
            if holds_char(s.drop_last(), c) {
                let i = choose|i: int| 0 <= i < s.drop_last().len() && s.drop_last()[i] == c;
                assert(s[i] == c);
            }
        }
        lemma_without_absent_char(s.drop_last(), c);
        assert(s[s.len() - 1] == s.last());
        assert(s.drop_last().push(s.last()) =~= s);
    }
}

/// Camel case introduces no `#`.
proof fn lemma_camel_keeps_out_hash(s: Seq<char>, at_new_word: bool)
    requires
        !holds_char(s, '#'),
    ensures
        !holds_char(camel_from(s, at_new_word), '#'),
    decreases s.len(),
{
    if s.len() > 0 {
        assert(!holds_char(s.drop_first(), '#')) by {
            if holds_char(s.drop_first(), '#') {
                let i = choose|i: int| 0 <= i < s.drop_first().len() && s.drop_first()[i] == '#';
                assert(s[i + 1] == '#');
            }
        }
        assert(s[0] != '#');
        lemma_camel_keeps_out_hash(s.drop_first(), true);
        lemma_camel_keeps_out_hash(s.drop_first(), false);
        let rest_new = camel_from(s.drop_first(), true);
        let rest_old = camel_from(s.drop_first(), false);
        if s[0] == '_' {
        } else {
            let head = if at_new_word {
                ascii_upper(s[0])
            } else {
                s[0]
            };
            assert(head != '#');
            let whole = seq![head] + rest_old;
            assert(camel_from(s, at_new_word) == whole);
            if holds_char(whole, '#') {
                let i = choose|i: int| 0 <= i < whole.len() && whole[i] == '#';
                if i > 0 {
                    assert(rest_old[i - 1] == '#');
                }
            }
        }
    }
}

/// The identifier a Rust type is written with, looking through `Option`.
pub open spec fn type_ident(t: RustTypeV) -> Option<NameV>
    decreases t,
{
    match t {
        RustTypeOf::Named(n) => Some(n),
        RustTypeOf::Optional(x) => type_ident(*x),
        _ => None,
    }
}

/// The identifier of the first item declared, if any.
pub open spec fn first_declared_name(items: Seq<ItemV>) -> Option<NameV> {
    if items.len() == 0 {
        None
    } else {
        match items[0] {
            ItemV::Struct(s) => Some(s.name),
            ItemV::Enum(e) => Some(e.name),
        }
    }
}

/// A type expression for which a type of its own is declared: an object
/// type, or a union with two or more members besides `null`.
pub open spec fn declares_own_type(ty: Type) -> bool {
    ||| (ty.union.len() == 0 && ty.templates.len() == 0 && ty.properties.len() > 0)
    ||| (ty.union.len() > 0 && non_null_count(ty.union@) >= 2)
}

/// The type a parameter is written with is the type declared for it: for
/// an argument of a member named by its alias (with no `#` in it) whose
/// type is an object or a union of several members, the identifier that
/// `use_ty` gives within the member's alias is the name of the one item
/// that `declare_ty` declares within the member's name.
pub proof fn lemma_parameter_type_is_declared(
    member_name: Seq<char>,
    alias: Seq<char>,
    arg_name: Seq<char>,
    ty: Type,
    borrow: bool,
)
    requires
        member_name == alias,
        !holds_char(alias, '#'),
        declares_own_type(ty),
    ensures
        declare_ty_spec(member_name, arg_name, ty, borrow).len() == 1,
        type_ident(use_ty_spec(text(alias), arg_name, ty, borrow)) == first_declared_name(
            declare_ty_spec(member_name, arg_name, ty, borrow),
        ),
{
    lemma_camel_keeps_out_hash(alias, true);
    lemma_without_absent_char(camel_case(alias), '#');
    reveal_with_fuel(type_ident, 2);
}

/// An array type declares exactly what its element type declares, for the
/// same scope and name.
pub proof fn lemma_array_declares_its_element(
    scope: Seq<char>,
    name: Seq<char>,
    ty: Type,
    borrow: bool,
)
    requires
        ty.union.len() == 0,
        ty.properties.len() == 0,
        ty.name@ == "Array"@,
        ty.templates.len() == 1,
    ensures
        declare_ty_spec(scope, name, ty, borrow) == declare_ty_spec(
            scope,
            name,
            ty.templates@[0],
            borrow,
        ),
{
}

/// The identifier of an array's element type, looking through `Option`.
pub open spec fn element_ident(t: RustTypeV) -> Option<NameV> {
    match t {
        RustTypeOf::SliceOf(x) => type_ident(*x),
        RustTypeOf::VecOf(x) => type_ident(*x),
        _ => None,
    }
}

/// The element type of an array parameter is the type declared for it: for
/// an argument of a member named by its alias (with no `#` in it) whose type
/// is an array of an object or of a union of several members, the
/// identifier that `use_ty` gives the element within the alias is the name
/// of the one item that `declare_ty` declares for the array within the
/// member's name.
pub proof fn lemma_array_element_type_is_declared(
    member_name: Seq<char>,
    alias: Seq<char>,
    arg_name: Seq<char>,
    ty: Type,
    borrow: bool,
)
    requires
        member_name == alias,
        !holds_char(alias, '#'),
        ty.union.len() == 0,
        ty.properties.len() == 0,
        ty.name@ == "Array"@,
        ty.templates.len() == 1,
        declares_own_type(ty.templates@[0]),
    ensures
        declare_ty_spec(member_name, arg_name, ty, borrow).len() == 1,
        element_ident(use_ty_spec(text(alias), arg_name, ty, borrow)) == first_declared_name(
            declare_ty_spec(member_name, arg_name, ty, borrow),
        ),
{
    lemma_parameter_type_is_declared(member_name, alias, arg_name, ty.templates@[0], borrow);
}

/// `part` occurs in `whole` as a contiguous run.
pub open spec fn holds_run<A>(whole: Seq<A>, part: Seq<A>) -> bool {
    exists|p: int|
        0 <= p && p + part.len() <= whole.len() && #[trigger] whole.subrange(p, p + part.len())
            == part
}

proof fn lemma_run_of_itself<A>(s: Seq<A>)
    ensures
        holds_run(s, s),
{
    assert(s.subrange(0int, 0int + s.len()) =~= s);
}

proof fn lemma_run_in_left<A>(a: Seq<A>, b: Seq<A>, part: Seq<A>)
    requires
        holds_run(a, part),
    ensures
        holds_run(a + b, part),
{
    let p = choose|p: int|
        0 <= p && p + part.len() <= a.len() && #[trigger] a.subrange(p, p + part.len()) == part;
    assert((a + b).subrange(p, p + part.len()) =~= a.subrange(p, p + part.len()));
}

proof fn lemma_run_in_right<A>(a: Seq<A>, b: Seq<A>, part: Seq<A>)
    requires
        holds_run(b, part),
    ensures
        holds_run(a + b, part),
{
    let p = choose|p: int|
        0 <= p && p + part.len() <= b.len() && #[trigger] b.subrange(p, p + part.len()) == part;
    let q = p + a.len();
    assert((a + b).subrange(q, q + part.len()) =~= b.subrange(p, p + part.len()));
}

proof fn lemma_run_transitive<A>(a: Seq<A>, b: Seq<A>, c: Seq<A>)
    requires
        holds_run(a, b),
        holds_run(b, c),
    ensures
        holds_run(a, c),
{
    let p = choose|p: int|
        0 <= p && p + b.len() <= a.len() && #[trigger] a.subrange(p, p + b.len()) == b;
    let q = choose|q: int|
        0 <= q && q + c.len() <= b.len() && #[trigger] b.subrange(q, q + c.len()) == c;
    assert(a.subrange(p + q, p + q + c.len()) =~= b.subrange(q, q + c.len()));
}

/// The declarations of every argument (up to `n`) that is not a C#
/// callback occur among the argument declarations of the member.
proof fn lemma_args_items_hold_argument(m: Member, n: nat, k: int)
    requires
        0 <= k < n <= m.args.len(),
        !m.args@[k].csharp_action,
    ensures
        holds_run(args_items(m, n), declare_ty_spec(m.name@, m.args@[k].name@, m.args@[k].ty, true)),
    decreases n,
{
    let d = declare_ty_spec(m.name@, m.args@[k].name@, m.args@[k].ty, true);
    let a = m.args@[n - 1];
    let tail = if a.csharp_action {
        Seq::<ItemV>::empty()
    } else {
        declare_ty_spec(m.name@, a.name@, a.ty, true)
    };
    assert(args_items(m, n) == args_items(m, (n - 1) as nat) + tail);
    if k == n - 1 {
        lemma_run_of_itself(d);
        lemma_run_in_right(args_items(m, (n - 1) as nat), tail, d);
    } else {
        lemma_args_items_hold_argument(m, (n - 1) as nat, k);
        lemma_run_in_left(args_items(m, (n - 1) as nat), tail, d);
    }
}

/// The declarations of each member occur among those of the members.
proof fn lemma_members_items_hold_member(ms: Seq<Member>, j: int)
    requires
        0 <= j < ms.len(),
    ensures
        holds_run(members_items(ms), member_items(ms[j])),
    decreases ms.len(),
{
    let rest = ms.drop_last();
    if j == ms.len() - 1 {
        lemma_run_of_itself(member_items(ms[j]));
        lemma_run_in_right(members_items(rest), member_items(ms.last()), member_items(ms[j]));
    } else {
        lemma_members_items_hold_member(rest, j);
        assert(rest[j] == ms[j]);
        lemma_run_in_left(members_items(rest), member_items(ms.last()), member_items(ms[j]));
    }
}

/// `collect_types` declares the type of every argument that is not a C#
/// callback, required or not: its declarations occur, as a run, among those
/// collected for the interface.
pub proof fn lemma_collect_types_declares_every_argument(x: Interface, j: int, k: int)
    requires
        0 <= j < x.members.len(),
        0 <= k < x.members@[j].args.len(),
        !x.members@[j].args@[k].csharp_action,
    ensures
        holds_run(
            members_items(x.members@),
            declare_ty_spec(
                x.members@[j].name@,
                x.members@[j].args@[k].name@,
                x.members@[j].args@[k].ty,
                true,
            ),
        ),
{
    let m = x.members@[j];
    let d = declare_ty_spec(m.name@, m.args@[k].name@, m.args@[k].ty, true);
    lemma_args_items_hold_argument(m, m.args.len() as nat, k);
    lemma_run_in_left(
        args_items(m, m.args.len() as nat),
        declare_ty_spec(m.name@, Seq::empty(), m.ty, false),
        d,
    );
    lemma_members_items_hold_member(x.members@, j);
    lemma_run_transitive(members_items(x.members@), member_items(m), d);
}

/// `collect_types` declares every member's own type: its declarations, for
/// the member's name and an empty value name, occur as a run among those
/// collected for the interface.
pub proof fn lemma_collect_types_declares_member_type(x: Interface, j: int)
    requires
        0 <= j < x.members.len(),
    ensures
        holds_run(
            members_items(x.members@),
            declare_ty_spec(x.members@[j].name@, Seq::empty(), x.members@[j].ty, false),
        ),
{
    let m = x.members@[j];
    let d = declare_ty_spec(m.name@, Seq::empty(), m.ty, false);
    lemma_run_of_itself(d);
    lemma_run_in_right(args_items(m, m.args.len() as nat), d, d);
    lemma_members_items_hold_member(x.members@, j);
    lemma_run_transitive(members_items(x.members@), member_items(m), d);
}

} // verus!
