//! The methods and events written for the members of an interface
//! (`needs_builder`, `method_tokens`, `event_tokens`).

use vstd::prelude::*;
use crate::api::{Arg, Member};
use crate::case_conv::{camel_case, to_camel_text};
use crate::decl::{arg_field, arg_field_accepts, arg_field_defined, arg_field_spec, field_view, fields_view, FieldDecl, FieldDeclV};
use crate::naming::{
    join, join_names,
    loud_camel, loud_camel_name, loud_snake, loud_snake_name, name_text, name_view, snake_name,
    snake_of, text, Name, NameOf, NameV,
};
use crate::rust_type::{use_ty, use_ty_accepts, use_ty_defined, use_ty_spec, ty_view, RustType, RustTypeV};
use crate::text::{has_prefix, join_text, remove_char, starts_with_text, text_eq, without_char};

verus! {

/// A method of the generated type.
#[derive(Debug, PartialEq, Eq)]
pub struct MethodDecl {
    /// Marked as not needed (the member is not required).
    pub unnecessary: bool,
    /// Marked experimental.
    pub experimental: bool,
    /// Marked deprecated.
    pub deprecated: bool,
    /// Declared `async`.
    pub is_async: bool,
    pub name: Name,
    /// The parameters, in order.
    pub args: Vec<FieldDecl>,
    pub ret: RustType,
}

/// The view of a method.
pub struct MethodDeclV {
    pub unnecessary: bool,
    pub experimental: bool,
    pub deprecated: bool,
    pub is_async: bool,
    pub name: NameV,
    pub args: Seq<FieldDeclV>,
    pub ret: RustTypeV,
}

pub open spec fn method_view(m: MethodDecl) -> MethodDeclV {
    MethodDeclV {
        unnecessary: m.unnecessary,
        experimental: m.experimental,
        deprecated: m.deprecated,
        is_async: m.is_async,
        name: name_view(m.name),
        args: fields_view(m.args@),
        ret: ty_view(m.ret),
    }
}

/// A variant of the generated event enum: its label and the type it
/// carries, if any.
#[derive(Debug, PartialEq, Eq)]
pub struct EventVariant {
    pub label: Name,
    pub payload: Option<RustType>,
}

/// The view of an event variant.
pub struct EventVariantV {
    pub label: NameV,
    pub payload: Option<RustTypeV>,
}

pub open spec fn event_view(e: EventVariant) -> EventVariantV {
    EventVariantV {
        label: name_view(e.label),
        payload: match e.payload {
            Some(t) => Some(ty_view(t)),
            None => None,
        },
    }
}

pub open spec fn events_view(es: Seq<EventVariant>) -> Seq<EventVariantV> {
    es.map_values(|e: EventVariant| event_view(e))
}

/// How many optional values one argument offers: one when it is not
/// required, plus, for an argument called `options` whose type has
/// properties, one for each property.
pub open spec fn arg_optional_values(a: Arg) -> nat {
    (if a.required {
        0nat
    } else {
        1nat
    }) + (if a.name@ == "options"@ && a.ty.properties.len() > 0 {
        a.ty.properties.len() as nat
    } else {
        0nat
    })
}

/// How many optional values the arguments `args` offer, summed over them.
pub open spec fn optional_values(args: Seq<Arg>) -> nat
    decreases args.len(),
{
    if args.len() == 0 {
        0
    } else {
        optional_values(args.drop_last()) + arg_optional_values(args.last())
    }
}

/// Taking out one argument takes out exactly the optional values it offers.
proof fn lemma_optional_values_remove(s: Seq<Arg>, i: int)
    requires
        0 <= i < s.len(),
    ensures
        optional_values(s) == optional_values(s.remove(i)) + arg_optional_values(s[i]),
    decreases s.len(),
{
    if i == s.len() - 1 {
        assert(s.remove(i) =~= s.drop_last());
    } else {
        lemma_optional_values_remove(s.drop_last(), i);
        assert(s.remove(i).drop_last() =~= s.drop_last().remove(i));
        assert(s.remove(i).last() == s.last());
        assert(s.drop_last()[i] == s[i]);
    }
}

/// Arguments that hold, as a multiset, those of `s1` offer at least as many
/// optional values.
proof fn lemma_optional_values_monotone(s1: Seq<Arg>, s2: Seq<Arg>)
    requires
        s1.to_multiset().subset_of(s2.to_multiset()),
    ensures
        optional_values(s1) <= optional_values(s2),
    decreases s1.len(),
{
    broadcast use vstd::seq_lib::group_to_multiset_ensures;
    broadcast use vstd::multiset::group_multiset_axioms;

    if s1.len() > 0 {
        let a = s1.last();
        let rest = s1.drop_last();
        assert(rest.push(a) =~= s1);
        assert(s1.to_multiset() =~= rest.to_multiset().insert(a));
        assert(s1.to_multiset().count(a) <= s2.to_multiset().count(a));
        assert(s2.to_multiset().count(a) > 0);
        assert(s2.contains(a));
        let j = choose|j: int| 0 <= j < s2.len() && s2[j] == a;
        let s2r = s2.remove(j);
        assert(s2r.to_multiset() =~= s2.to_multiset().remove(a));
        assert forall|x: Arg| rest.to_multiset().count(x) <= s2r.to_multiset().count(x) by {
            assert(s1.to_multiset().count(x) <= s2.to_multiset().count(x));
        }
        assert(rest.to_multiset().subset_of(s2r.to_multiset()));
        lemma_optional_values_monotone(rest, s2r);
        lemma_optional_values_remove(s2, j);
    }
}

/// Adding arguments never takes away the need for a builder: when every
/// argument of `m1` (counted with repetition) is also an argument of `m2`,
/// and `m1` needs a builder, so does `m2`.
pub proof fn lemma_builder_kept_with_more_args(m1: Member, m2: Member)
    requires
        m1.args@.to_multiset().subset_of(m2.args@.to_multiset()),
    ensures
        optional_values(m1.args@) >= 2 ==> optional_values(m2.args@) >= 2,
{
    lemma_optional_values_monotone(m1.args@, m2.args@);
}

/// The order of the arguments does not matter: members whose arguments
/// are the same up to order both need a builder or both do not.
pub proof fn lemma_builder_ignores_argument_order(m1: Member, m2: Member)
    requires
        m1.args@.to_multiset() == m2.args@.to_multiset(),
    ensures
        (optional_values(m1.args@) >= 2) == (optional_values(m2.args@) >= 2),
{
    broadcast use vstd::multiset::group_multiset_axioms;

    lemma_optional_values_monotone(m1.args@, m2.args@);
    lemma_optional_values_monotone(m2.args@, m1.args@);
}

/// Whether a member is given a builder: it has two or more optional values.
pub fn needs_builder(member: &Member) -> (r: bool)
    ensures
        r == (optional_values(member.args@) >= 2),
{
    let args = &member.args;
    let mut count: usize = 0;
    let mut i: usize = 0;
    assert(args@.take(0) =~= Seq::<Arg>::empty());
    while i < args.len()
        invariant
            i <= args.len(),
            count <= 2,
            count == if optional_values(args@.take(i as int)) >= 2 {
                2
            } else {
                optional_values(args@.take(i as int))
            },
        decreases args.len() - i,
    {
        let a = &args[i];
        assert(args@.take(i + 1).drop_last() =~= args@.take(i as int));
        assert(args@.take(i + 1).last() == args@[i as int]);
        if !a.required && count < 2 {
            count = count + 1;
        }
        if text_eq(a.name.as_str(), "options") && a.ty.properties.len() > 0 {
            if a.ty.properties.len() >= 2 - count {
                count = 2;
            } else {
                count = count + a.ty.properties.len();
            }
        }
        i = i + 1;
    }
    assert(args@.take(args.len() as int) =~= args@);
    count >= 2
}

/// The arguments that become parameters: required ones that are not C#
/// callbacks.
pub open spec fn is_parameter(a: Arg) -> bool {
    a.required && !a.csharp_action
}

/// The parameters written for the first `k` arguments in `args` of a
/// member with alias `alias`.
pub open spec fn parameters_spec(alias: Seq<char>, args: Seq<Arg>) -> Seq<FieldDeclV>
    decreases args.len(),
{
    if args.len() == 0 {
        Seq::empty()
    } else if is_parameter(args.last()) {
        parameters_spec(alias, args.drop_last()).push(arg_field_spec(alias, args.last(), true))
    } else {
        parameters_spec(alias, args.drop_last())
    }
}

/// What `method_tokens` may be given: the member's name starts with its
/// alias, its type is one `use_ty` maps, and every parameter is one
/// `arg_field` takes.
pub open spec fn method_defined(m: Member) -> bool {
    &&& (m.name@ == m.alias@ || has_prefix(m.name@, m.alias@))
    &&& use_ty_defined(m.ty)
    &&& forall|k: int|
        0 <= k < m.args.len() && is_parameter(#[trigger] m.args@[k]) ==> arg_field_defined(
            m.args@[k],
        )
}

/// The method written for member `m`. A member with a builder gets a
/// synchronous `<name>_builder` method returning the borrowed builder type;
/// any other gets a method named `loud_to_snake(name)` returning the owned
/// type, `async` when the member is.
pub open spec fn method_spec(m: Member) -> MethodDeclV {
    let builder = optional_values(m.args@) >= 2;
    let bare = without_char(m.name@, '#');
    MethodDeclV {
        unnecessary: !m.required,
        experimental: m.experimental,
        deprecated: m.deprecated,
        is_async: !builder && m.is_async,
        name: if builder {
            join(snake_of(loud_camel(text(bare))), text("_builder"@))
        } else {
            loud_snake(text(bare))
        },
        args: parameters_spec(m.alias@, m.args@),
        ret: if builder {
            use_ty_spec(text(Seq::empty()), bare + "Builder"@, m.ty, true)
        } else {
            use_ty_spec(text(Seq::empty()), m.name@, m.ty, false)
        },
    }
}

/// The parameters written for the arguments of a member with alias
/// `alias`.
fn parameters(alias: &str, args: &Vec<Arg>) -> (r: Vec<FieldDecl>)
    requires
        forall|k: int|
            0 <= k < args.len() && is_parameter(#[trigger] args@[k]) ==> arg_field_defined(
                args@[k],
            ),
    ensures
        fields_view(r@) == parameters_spec(alias@, args@),
{
    let mut out: Vec<FieldDecl> = Vec::new();
    let mut i: usize = 0;
    assert(args@.take(0) =~= Seq::<Arg>::empty());
    assert(fields_view(out@) =~= Seq::empty());
    while i < args.len()
        invariant
            i <= args.len(),
            forall|k: int|
                0 <= k < args.len() && is_parameter(#[trigger] args@[k]) ==> arg_field_defined(
                    args@[k],
                ),
            fields_view(out@) == parameters_spec(alias@, args@.take(i as int)),
        decreases args.len() - i,
    {
        let a = &args[i];
        assert(args@.take(i + 1).drop_last() =~= args@.take(i as int));
        assert(args@.take(i + 1).last() == args@[i as int]);
        if a.required && !a.csharp_action {
            let f = arg_field(alias, a, true);
            let ghost before = out@;
            out.push(f);
            assert(fields_view(out@) =~= fields_view(before).push(field_view(f)));
        }
        i = i + 1;
    }
    assert(args@.take(args.len() as int) =~= args@);
    out
}

/// The method written for `member` (see `method_spec`). The member's
/// overloads, when given, are not used.
pub fn method_tokens(member: &Member, _overloads: Option<Vec<&Member>>) -> (r: MethodDecl)
    requires
        method_defined(*member),
    ensures
        method_view(r) == method_spec(*member),
{
    let is_builder = needs_builder(member);
    let bare = remove_char(member.name.as_str(), '#');
    let ret = if is_builder {
        let builder_name = join_text(bare.as_str(), "Builder");
        use_ty(&NameOf::Text(String::new()), builder_name.as_str(), &member.ty, true)
    } else {
        use_ty(&NameOf::Text(String::new()), member.name.as_str(), &member.ty, false)
    };
    let args = parameters(member.alias.as_str(), &member.args);
    let name = if is_builder {
        join_names(snake_name(loud_camel_name(NameOf::Text(bare))), name_text("_builder"))
    } else {
        loud_snake_name(NameOf::Text(bare))
    };
    MethodDecl {
        unnecessary: !member.required,
        experimental: member.experimental,
        deprecated: member.deprecated,
        is_async: !is_builder && member.is_async,
        name,
        args,
        ret,
    }
}

/// What `event_tokens` may be given for an event: no arguments, neither
/// deprecated, asynchronous nor experimental, not overloaded, required,
/// its alias its name, and its type `void` or one `use_ty` maps.
pub open spec fn event_defined(e: Member) -> bool {
    &&& e.args.len() == 0
    &&& !e.deprecated
    &&& !e.is_async
    &&& e.name@ == e.alias@
    &&& !e.experimental
    &&& e.overload_index == 0
    &&& e.required
    &&& e.ty.name@ != "void"@ ==> use_ty_defined(e.ty)
}

/// The variant written for event `e`: labelled
/// `loud_to_camel(name.to_camel())`, carrying the event's owned type
/// unless that is `void`.
pub open spec fn event_spec(e: Member) -> EventVariantV {
    EventVariantV {
        label: loud_camel(text(camel_case(e.name@))),
        payload: if e.ty.name@ == "void"@ {
            None
        } else {
            Some(use_ty_spec(text(Seq::empty()), e.name@, e.ty, false))
        },
    }
}

/// The variants of the event enum written for the events `member`, in
/// order; the event-type enum has the same labels.
pub fn event_tokens(member: Vec<&Member>) -> (r: Vec<EventVariant>)
    requires
        forall|k: int| 0 <= k < member.len() ==> event_defined(*#[trigger] member@[k]),
    ensures
        events_view(r@) == member@.map_values(|e: &Member| event_spec(*e)),
{
    let mut out: Vec<EventVariant> = Vec::new();
    let mut i: usize = 0;
    while i < member.len()
        invariant
            i <= member.len(),
            forall|k: int| 0 <= k < member.len() ==> event_defined(*#[trigger] member@[k]),
            events_view(out@) =~= member@.take(i as int).map_values(|e: &Member| event_spec(*e)),
        decreases member.len() - i,
    {
        let e = member[i];
        let label = loud_camel_name(NameOf::Text(to_camel_text(e.name.as_str())));
        let payload = if text_eq(e.ty.name.as_str(), "void") {
            None
        } else {
            Some(use_ty(&NameOf::Text(String::new()), e.name.as_str(), &e.ty, false))
        };
        let v = EventVariant { label, payload };
        assert(event_view(v) == event_spec(*member@[i as int]));
        let ghost before = out@;
        out.push(v);
        assert(events_view(out@) =~= events_view(before).push(event_view(v)));
        assert(member@.take(i + 1) =~= member@.take(i as int).push(member@[i as int]));
        i = i + 1;
    }
    assert(member@.take(member.len() as int) =~= member@);
    out
}

/// Whether `method_tokens` takes member `m` (see `method_defined`).
pub fn method_accepts(m: &Member) -> (r: bool)
    ensures
        r == method_defined(*m),
{
    let named_after_alias = text_eq(m.name.as_str(), m.alias.as_str()) || starts_with_text(
        m.name.as_str(),
        m.alias.as_str(),
    );
    if !named_after_alias || !use_ty_accepts(&m.ty) {
        return false;
    }
    let mut k: usize = 0;
    while k < m.args.len()
        invariant
            k <= m.args.len(),
            forall|j: int|
                0 <= j < k && is_parameter(#[trigger] m.args@[j]) ==> arg_field_defined(
                    m.args@[j],
                ),
        decreases m.args.len() - k,
    {
        let a = &m.args[k];
        if a.required && !a.csharp_action && !arg_field_accepts(a) {
            return false;
        }
        k = k + 1;
    }
    true
}

/// Whether `event_tokens` takes event `e` (see `event_defined`).
pub fn event_accepts(e: &Member) -> (r: bool)
    ensures
        r == event_defined(*e),
{
    e.args.len() == 0 && !e.deprecated && !e.is_async && text_eq(e.name.as_str(), e.alias.as_str())
        && !e.experimental && e.overload_index == 0 && e.required && (text_eq(
        e.ty.name.as_str(),
        "void",
    ) || use_ty_accepts(&e.ty))
}

/// Properties count only through an argument called `options`: a member
/// whose arguments are all required and none of them called `options` has
/// no optional values and never needs a builder, whatever properties its
/// arguments' types have.
pub proof fn lemma_required_arguments_need_no_builder(m: Member)
    requires
        forall|k: int|
            0 <= k < m.args.len() ==> (#[trigger] m.args@[k]).required && m.args@[k].name@
                != "options"@,
    ensures
        optional_values(m.args@) == 0,
        !(optional_values(m.args@) >= 2),
{
    lemma_required_arguments_count_nothing(m.args@);
}

proof fn lemma_required_arguments_count_nothing(s: Seq<Arg>)
    requires
        forall|k: int| 0 <= k < s.len() ==> (#[trigger] s[k]).required && s[k].name@ != "options"@,
    ensures
        optional_values(s) == 0,
    decreases s.len(),
{
    if s.len() > 0 {
        assert forall|k: int| 0 <= k < s.drop_last().len() implies (
        #[trigger] s.drop_last()[k]).required && s.drop_last()[k].name@ != "options"@ by {
            assert(s.drop_last()[k] == s[k]);
        }
        lemma_required_arguments_count_nothing(s.drop_last());
        assert(s.last() == s[s.len() - 1]);
    }
}

/// The parameters written for arguments `args` are those of the required,
/// non-callback arguments among them, in order.
proof fn lemma_parameters_are_filtered_arguments(alias: Seq<char>, args: Seq<Arg>)
    ensures
        parameters_spec(alias, args) == args.filter(|a: Arg| is_parameter(a)).map_values(
            |a: Arg| arg_field_spec(alias, a, true),
        ),
    decreases args.len(),
{
    let p = |a: Arg| is_parameter(a);
    let f = |a: Arg| arg_field_spec(alias, a, true);
    if args.len() == 0 {
        assert(args.filter(p) =~= Seq::<Arg>::empty()) by {
            reveal(Seq::filter);
        }
        assert(args.filter(p).map_values(f) =~= Seq::<FieldDeclV>::empty());
    } else {
        lemma_parameters_are_filtered_arguments(alias, args.drop_last());
        assert(args.drop_last().push(args.last()) =~= args);
        args.drop_last().lemma_filter_push(args.last(), p);
        if p(args.last()) {
            assert(args.filter(p).map_values(f) =~= args.drop_last().filter(p).map_values(f).push(
                f(args.last()),
            ));
        }
    }
}

/// A method's parameters never depend on whether it is a builder: they are
/// exactly the fields of the member's required arguments that are not C#
/// callbacks, in the arguments' order.
pub proof fn lemma_method_parameters_are_required_arguments(m: Member)
    ensures
        method_spec(m).args == m.args@.filter(|a: Arg| a.required && !a.csharp_action).map_values(
            |a: Arg| arg_field_spec(m.alias@, a, true),
        ),
{
    lemma_parameters_are_filtered_arguments(m.alias@, m.args@);
    assert((|a: Arg| is_parameter(a)) =~= (|a: Arg| a.required && !a.csharp_action));
}

/// Each argument's optional values count: an argument that is not
/// required adds one, and an argument called `options` adds one for each
/// property of its type. In particular two arguments that are not required,
/// or an `options` argument with two properties, make a builder.
pub proof fn lemma_optional_values_count_each_argument(m: Member, k: int)
    requires
        0 <= k < m.args.len(),
    ensures
        optional_values(m.args@) >= (if m.args@[k].required {
            0nat
        } else {
            1nat
        }) + (if m.args@[k].name@ == "options"@ {
            m.args@[k].ty.properties.len() as nat
        } else {
            0nat
        }),
        forall|k2: int|
            0 <= k2 < m.args.len() && k2 != k && !m.args@[k].required && !(
            #[trigger] m.args@[k2]).required ==> optional_values(m.args@) >= 2,
{
    lemma_optional_values_remove(m.args@, k);
    assert forall|k2: int|
        0 <= k2 < m.args.len() && k2 != k && !m.args@[k].required && !(
        #[trigger] m.args@[k2]).required implies optional_values(m.args@) >= 2 by {
        let rest = m.args@.remove(k);
        let j = if k2 < k {
            k2
        } else {
            k2 - 1
        };
        assert(rest[j] == m.args@[k2]);
        lemma_optional_values_remove(rest, j);
    }
}

} // verus!
