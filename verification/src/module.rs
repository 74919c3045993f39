//! What the generator writes for each interface (`body`) and for the whole
//! API (`to_tokens`).

use vstd::prelude::*;
use crate::api::{is_method_like, kind_is_event, kind_is_method_like, Api, Interface, Member};
use crate::decl::{collect_types, collect_types_accepts, collect_types_defined, items_view, members_items, Item, ItemV};
use crate::methods::{
    event_accepts, method_accepts, event_defined, event_spec, event_tokens, events_view, method_defined, method_spec,
    method_tokens, method_view, EventVariant, EventVariantV, MethodDecl, MethodDeclV,
};
use crate::naming::{
    loud_camel, loud_camel_name, name_text, name_view, snake_name, snake_of, text, Name, NameV,
};
use crate::text::{join_text, text_eq};

verus! {

/// The module written for one interface.
#[derive(Debug, PartialEq, Eq)]
pub struct ModuleDecl {
    /// The module's name: `loud_to_camel(name).to_snake()`.
    pub mod_name: Name,
    /// The type the methods belong to: `loud_to_camel(name)`.
    pub owner_name: Name,
    /// The doc line naming the interface it extends, if any.
    pub extends_doc: Option<String>,
    pub methods: Vec<MethodDecl>,
    /// The event enum's variants, when the interface has events.
    pub events: Option<Vec<EventVariant>>,
    /// The declarations of the types its members use.
    pub types: Vec<Item>,
}

/// The view of a module.
pub struct ModuleDeclV {
    pub mod_name: NameV,
    pub owner_name: NameV,
    pub extends_doc: Option<Seq<char>>,
    pub methods: Seq<MethodDeclV>,
    pub events: Option<Seq<EventVariantV>>,
    pub types: Seq<ItemV>,
}

pub open spec fn methods_view(ms: Seq<MethodDecl>) -> Seq<MethodDeclV> {
    ms.map_values(|m: MethodDecl| method_view(m))
}

pub open spec fn module_view(m: ModuleDecl) -> ModuleDeclV {
    ModuleDeclV {
        mod_name: name_view(m.mod_name),
        owner_name: name_view(m.owner_name),
        extends_doc: match m.extends_doc {
            Some(d) => Some(d@),
            None => None,
        },
        methods: methods_view(m.methods@),
        events: match m.events {
            Some(es) => Some(events_view(es@)),
            None => None,
        },
        types: items_view(m.types@),
    }
}

/// A member that becomes a method: a property or method that is not an
/// overload of another.
pub open spec fn is_primary_method(m: Member) -> bool {
    is_method_like(m.kind) && m.overload_index == 0
}

/// The members of `ms` that become methods, in order.
pub open spec fn method_members(ms: Seq<Member>) -> Seq<Member>
    decreases ms.len(),
{
    if ms.len() == 0 {
        Seq::empty()
    } else if is_primary_method(ms.last()) {
        method_members(ms.drop_last()).push(ms.last())
    } else {
        method_members(ms.drop_last())
    }
}

/// The events among the members `ms`, in order.
pub open spec fn event_members(ms: Seq<Member>) -> Seq<Member>
    decreases ms.len(),
{
    if ms.len() == 0 {
        Seq::empty()
    } else if ms.last().kind is Event {
        event_members(ms.drop_last()).push(ms.last())
    } else {
        event_members(ms.drop_last())
    }
}

/// What `body` may be given: every method member is one `method_tokens`
/// takes, every event one `event_tokens` takes, and the types of the
/// members can be declared.
pub open spec fn body_defined(x: Interface) -> bool {
    &&& forall|k: int|
        0 <= k < x.members.len() && is_primary_method(#[trigger] x.members@[k]) ==> method_defined(
            x.members@[k],
        )
    &&& forall|k: int|
        0 <= k < x.members.len() && (#[trigger] x.members@[k]).kind is Event ==> event_defined(
            x.members@[k],
        )
    &&& collect_types_defined(x)
}

/// The module written for interface `x`: one method per property or
/// method that is not an overload, in order; an event enum when there are
/// events; and the declarations of the types the members use.
pub open spec fn body_spec(x: Interface) -> ModuleDeclV {
    let events = event_members(x.members@);
    ModuleDeclV {
        mod_name: snake_of(loud_camel(text(x.name@))),
        owner_name: loud_camel(text(x.name@)),
        extends_doc: match x.extends {
            Some(e) => Some("Extends "@ + e@),
            None => None,
        },
        methods: method_members(x.members@).map_values(|m: Member| method_spec(m)),
        events: if events.len() == 0 {
            None
        } else {
            Some(events.map_values(|e: Member| event_spec(e)))
        },
        types: members_items(x.members@),
    }
}

/// The module written for interface `x` (see `body_spec`).
pub fn body(x: &Interface) -> (r: ModuleDecl)
    requires
        body_defined(*x),
    ensures
        module_view(r) == body_spec(*x),
{
    let owner_name = loud_camel_name(name_text(x.name.as_str()));
    let mod_name = snake_name(loud_camel_name(name_text(x.name.as_str())));
    let extends_doc = match &x.extends {
        Some(e) => Some(join_text("Extends ", e.as_str())),
        None => None,
    };
    let ms = &x.members;
    let mut methods: Vec<MethodDecl> = Vec::new();
    let mut events: Vec<&Member> = Vec::new();
    let mut overload_targets = overload_groups(ms);
    let mut i: usize = 0;
    assert(ms@.take(0) =~= Seq::<Member>::empty());
    while i < ms.len()
        invariant
            i <= ms.len(),
            body_defined(*x),
            ms == x.members,
            methods_view(methods@) =~= method_members(ms@.take(i as int)).map_values(
                |m: Member| method_spec(m),
            ),
            events@.map_values(|e: &Member| *e) =~= event_members(ms@.take(i as int)),
        decreases ms.len() - i,
    {
        let m = &ms[i];
        assert(ms@.take(i + 1).drop_last() =~= ms@.take(i as int));
        assert(ms@.take(i + 1).last() == ms@[i as int]);
        if kind_is_method_like(&m.kind) && m.overload_index == 0 {
            let overloads = take_overloads(&mut overload_targets, m.alias.as_str());
            let d = method_tokens(m, overloads);
            let ghost before = methods@;
            methods.push(d);
            assert(methods_view(methods@) =~= methods_view(before).push(method_view(d)));
        }
        if kind_is_event(&m.kind) {
            let ghost before = events@;
            events.push(m);
            assert(events@.map_values(|e: &Member| *e) =~= before.map_values(|e: &Member| *e).push(
                *m,
            ));
        }
        i = i + 1;
    }
    assert(ms@.take(ms.len() as int) =~= ms@);
    let ghost evs = event_members(ms@);
    let event_decl = if events.len() == 0 {
        None
    } else {
        assert forall|k: int| 0 <= k < events.len() implies event_defined(
            *#[trigger] events@[k],
        ) by {
            assert(events@.map_values(|e: &Member| *e)[k] == *events@[k]);
            lemma_event_members_are_events(ms@, k);
            let j = choose|j: int| 0 <= j < ms.len() && ms@[j] == evs[k];
            assert(ms@[j].kind is Event);
        };
        let ghost evr = events@;
        let es = event_tokens(events);
        assert(evr.map_values(|e: &Member| event_spec(*e)) =~= evs.map_values(
            |e: Member| event_spec(e),
        ));
        Some(es)
    };
    let types = collect_types(x);
    ModuleDecl { mod_name, owner_name, extends_doc, methods, events: event_decl, types }
}

/// Every event member listed is an event member of `ms`.
proof fn lemma_event_members_are_events(ms: Seq<Member>, k: int)
    requires
        0 <= k < event_members(ms).len(),
    ensures
        exists|j: int|
            0 <= j < ms.len() && ms[j] == event_members(ms)[k] && (#[trigger] ms[j]).kind is Event,
    decreases ms.len(),
{
    if ms.len() > 0 {
        let rest = event_members(ms.drop_last());
        if ms.last().kind is Event && k == rest.len() {
            assert(ms[ms.len() - 1] == ms.last());
        } else {
            lemma_event_members_are_events(ms.drop_last(), k);
            let j = choose|j: int|
                0 <= j < ms.drop_last().len() && ms.drop_last()[j] == event_members(
                    ms.drop_last(),
                )[k] && (#[trigger] ms.drop_last()[j]).kind is Event;
            assert(ms[j] == ms.drop_last()[j]);
        }
    }
}

/// What `to_tokens` may be given: every interface is one `body` takes.
pub open spec fn to_tokens_defined(api: Api) -> bool {
    forall|k: int| 0 <= k < api.0.len() ==> body_defined(#[trigger] api.0@[k])
}

/// The modules written for the API, one per interface, in order.
pub fn to_tokens(api: &Api) -> (r: Vec<ModuleDecl>)
    requires
        to_tokens_defined(*api),
    ensures
        r.len() == api.0.len(),
        forall|k: int| 0 <= k < r.len() ==> module_view(#[trigger] r@[k]) == body_spec(api.0@[k]),
{
    let mut out: Vec<ModuleDecl> = Vec::new();
    let mut i: usize = 0;
    while i < api.0.len()
        invariant
            i <= api.0.len(),
            to_tokens_defined(*api),
            out.len() == i,
            forall|k: int| 0 <= k < i ==> module_view(#[trigger] out@[k]) == body_spec(api.0@[k]),
        decreases api.0.len() - i,
    {
        out.push(body(&api.0[i]));
        i = i + 1;
    }
    out
}

/// A member that overloads another: a property or method with a non-zero
/// overload index.
pub open spec fn is_overload(m: Member) -> bool {
    is_method_like(m.kind) && m.overload_index > 0
}

/// The overloads among `ms` whose alias is `alias`, in order.
pub open spec fn overloads_of(ms: Seq<Member>, alias: Seq<char>) -> Seq<Member>
    decreases ms.len(),
{
    if ms.len() == 0 {
        Seq::empty()
    } else if is_overload(ms.last()) && ms.last().alias@ == alias {
        overloads_of(ms.drop_last(), alias).push(ms.last())
    } else {
        overloads_of(ms.drop_last(), alias)
    }
}

/// The overload targets of one alias: the alias, and the overloading
/// members that carry it, in their order. A list of these groups, with no
/// alias in two of them, holds every overload of an interface.
pub struct OverloadGroup<'a> {
    pub alias: &'a str,
    pub members: Vec<&'a Member>,
}

/// The members of a group.
pub open spec fn group_members(g: OverloadGroup) -> Seq<Member> {
    g.members@.map_values(|m: &Member| *m)
}

/// `gs` groups the overloads among `ms` by alias: one group per alias that
/// some overload has, holding exactly the overloads with that alias in
/// their order.
pub open spec fn groups_overloads(ms: Seq<Member>, gs: Seq<OverloadGroup>) -> bool {
    &&& forall|j: int|
        0 <= j < gs.len() ==> group_members(#[trigger] gs[j]) == overloads_of(ms, gs[j].alias@)
    &&& forall|j1: int, j2: int|
        0 <= j1 < gs.len() && 0 <= j2 < gs.len() && j1 != j2 ==> (#[trigger] gs[j1]).alias@
            != (#[trigger] gs[j2]).alias@
    &&& forall|k: int|
        0 <= k < ms.len() && is_overload(#[trigger] ms[k]) ==> exists|j: int|
            0 <= j < gs.len() && (#[trigger] gs[j]).alias@ == ms[k].alias@
    &&& forall|j: int| 0 <= j < gs.len() ==> (#[trigger] gs[j]).members.len() > 0
}

/// With no overload of alias `a` among `ms`, none is listed for it.
proof fn lemma_no_overloads_of(ms: Seq<Member>, a: Seq<char>)
    requires
        forall|k: int| 0 <= k < ms.len() && is_overload(#[trigger] ms[k]) ==> ms[k].alias@ != a,
    ensures
        overloads_of(ms, a) == Seq::<Member>::empty(),
    decreases ms.len(),
{
    if ms.len() > 0 {
        assert forall|k: int|
            0 <= k < ms.drop_last().len() && is_overload(
                #[trigger] ms.drop_last()[k],
            ) implies ms.drop_last()[k].alias@ != a by {
            assert(ms.drop_last()[k] == ms[k]);
        }
        lemma_no_overloads_of(ms.drop_last(), a);
        assert(ms[ms.len() - 1] == ms.last());
    }
}

/// The position of the group for `alias`, if there is one.
fn find_group(groups: &Vec<OverloadGroup>, alias: &str) -> (r: Option<usize>)
    ensures
        match r {
            Some(j) => j < groups.len() && groups@[j as int].alias@ == alias@,
            None => forall|j: int| 0 <= j < groups.len() ==> (#[trigger] groups@[j]).alias@ != alias@,
        },
{
    let mut j: usize = 0;
    while j < groups.len()
        invariant
            j <= groups.len(),
            forall|k: int| 0 <= k < j ==> (#[trigger] groups@[k]).alias@ != alias@,
        decreases groups.len() - j,
    {
        if text_eq(groups[j].alias, alias) {
            return Some(j);
        }
        j = j + 1;
    }
    None
}

/// The overloads among `members`, grouped by alias.
pub fn overload_groups<'a>(members: &'a Vec<Member>) -> (r: Vec<OverloadGroup<'a>>)
    ensures
        groups_overloads(members@, r@),
{
    let mut groups: Vec<OverloadGroup<'a>> = Vec::new();
    let mut i: usize = 0;
    assert(members@.take(0) =~= Seq::<Member>::empty());
    while i < members.len()
        invariant
            i <= members.len(),
            groups_overloads(members@.take(i as int), groups@),
        decreases members.len() - i,
    {
        let m = &members[i];
        let ghost pre = members@.take(i as int);
        let ghost post = members@.take(i + 1);
        assert(post.drop_last() =~= pre);
        assert(post.last() == *m);
        assert forall|k: int| 0 <= k < pre.len() implies #[trigger] post[k] == pre[k] by {}
        let ghost old_groups = groups@;
        if kind_is_method_like(&m.kind) && m.overload_index > 0 {
            match find_group(&groups, m.alias.as_str()) {
                Some(j) => {
                    let mut g = groups.remove(j);
                    let ghost gm = group_members(g);
                    g.members.push(m);
                    assert(group_members(g) =~= gm.push(*m));
                    groups.insert(j, g);
                    assert forall|q: int| 0 <= q < groups.len() implies group_members(
                        #[trigger] groups@[q],
                    ) == overloads_of(post, groups@[q].alias@) by {
                        if q != j {
                            assert(groups@[q] == old_groups[q]);
                        }
                    }
                    assert forall|k: int|
                        0 <= k < post.len() && is_overload(#[trigger] post[k]) implies exists|q: int|
                        0 <= q < groups.len() && (#[trigger] groups@[q]).alias@ == post[k].alias@ by {
                        if k < pre.len() {
                            let q0 = choose|q: int|
                                0 <= q < old_groups.len() && (#[trigger] old_groups[q]).alias@
                                    == pre[k].alias@;
                            assert(groups@[q0] == old_groups[q0] || q0 == j);
                            assert(groups@[q0].alias@ == old_groups[q0].alias@);
                        } else {
                            assert(groups@[j as int].alias@ == post[k].alias@);
                        }
                    }
                    assert forall|q1: int, q2: int|
                        0 <= q1 < groups.len() && 0 <= q2 < groups.len() && q1 != q2 implies (
                        #[trigger] groups@[q1]).alias@ != (#[trigger] groups@[q2]).alias@ by {
                        assert(groups@[q1].alias@ == old_groups[q1].alias@);
                        assert(groups@[q2].alias@ == old_groups[q2].alias@);
                    }
                    assert forall|q: int| 0 <= q < groups.len() implies (
                    #[trigger] groups@[q]).members.len() > 0 by {
                        if q != j {
                            assert(groups@[q] == old_groups[q]);
                        }
                    }
                },
                None => {
                    proof {
                        assert forall|k: int|
                            0 <= k < pre.len() && is_overload(#[trigger] pre[k]) implies pre[k].alias@
                            != m.alias@ by {
                            let q0 = choose|q: int|
                                0 <= q < old_groups.len() && (#[trigger] old_groups[q]).alias@
                                    == pre[k].alias@;
                        }
                        lemma_no_overloads_of(pre, m.alias@);
                    }
                    let mut v: Vec<&'a Member> = Vec::new();
                    v.push(m);
                    let g = OverloadGroup { alias: m.alias.as_str(), members: v };
                    assert(group_members(g) =~= seq![*m]);
                    groups.push(g);
                    assert forall|q: int| 0 <= q < groups.len() implies group_members(
                        #[trigger] groups@[q],
                    ) == overloads_of(post, groups@[q].alias@) by {
                        if q < old_groups.len() {
                            assert(groups@[q] == old_groups[q]);
                        }
                    }
                    assert forall|k: int|
                        0 <= k < post.len() && is_overload(#[trigger] post[k]) implies exists|q: int|
                        0 <= q < groups.len() && (#[trigger] groups@[q]).alias@ == post[k].alias@ by {
                        if k < pre.len() {
                            let q0 = choose|q: int|
                                0 <= q < old_groups.len() && (#[trigger] old_groups[q]).alias@
                                    == pre[k].alias@;
                            assert(groups@[q0] == old_groups[q0]);
                        } else {
                            assert(groups@[old_groups.len() as int].alias@ == post[k].alias@);
                        }
                    }
                },
            }
        } else {
            assert forall|q: int| 0 <= q < groups.len() implies group_members(
                #[trigger] groups@[q],
            ) == overloads_of(post, groups@[q].alias@) by {}
            assert forall|k: int|
                0 <= k < post.len() && is_overload(#[trigger] post[k]) implies exists|q: int|
                0 <= q < groups.len() && (#[trigger] groups@[q]).alias@ == post[k].alias@ by {
                assert(k < pre.len());
                assert(pre[k] == post[k]);
            }
        }
        i = i + 1;
    }
    assert(members@.take(members.len() as int) =~= members@);
    groups
}

/// Takes out the group for `alias`: when there is one, it is returned and
/// leaves `groups`; otherwise nothing changes.
pub fn take_overloads<'a>(groups: &mut Vec<OverloadGroup<'a>>, alias: &str) -> (r: Option<
    Vec<&'a Member>,
>)
    ensures
        match r {
            Some(v) => exists|j: int|
                0 <= j < old(groups).len() && old(groups)@[j].alias@ == alias@ && v@ == old(
                    groups,
                )@[j].members@ && final(groups)@ == old(groups)@.remove(j),
            None => final(groups)@ == old(groups)@ && forall|j: int|
                0 <= j < old(groups).len() ==> (#[trigger] old(groups)@[j]).alias@ != alias@,
        },
{
    match find_group(groups, alias) {
        Some(j) => {
            let g = groups.remove(j);
            Some(g.members)
        },
        None => None,
    }
}

/// Whether `body` takes interface `x` (see `body_defined`).
pub fn body_accepts(x: &Interface) -> (r: bool)
    ensures
        r == body_defined(*x),
{
    let mut k: usize = 0;
    while k < x.members.len()
        invariant
            k <= x.members.len(),
            forall|j: int|
                0 <= j < k && is_primary_method(#[trigger] x.members@[j]) ==> method_defined(
                    x.members@[j],
                ),
            forall|j: int|
                0 <= j < k && (#[trigger] x.members@[j]).kind is Event ==> event_defined(
                    x.members@[j],
                ),
        decreases x.members.len() - k,
    {
        let m = &x.members[k];
        if kind_is_method_like(&m.kind) && m.overload_index == 0 && !method_accepts(m) {
            return false;
        }
        if kind_is_event(&m.kind) && !event_accepts(m) {
            return false;
        }
        k = k + 1;
    }
    collect_types_accepts(x)
}

/// Whether `to_tokens` takes the API (see `to_tokens_defined`).
pub fn to_tokens_accepts(api: &Api) -> (r: bool)
    ensures
        r == to_tokens_defined(*api),
{
    let mut k: usize = 0;
    while k < api.0.len()
        invariant
            k <= api.0.len(),
            forall|j: int| 0 <= j < k ==> body_defined(#[trigger] api.0@[j]),
        decreases api.0.len() - k,
    {
        if !body_accepts(&api.0[k]) {
            return false;
        }
        k = k + 1;
    }
    true
}

} // verus!
