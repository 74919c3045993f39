//! The API description that the generator reads: interfaces, their members,
//! the members' arguments and the type expressions attached to both.

use vstd::prelude::*;

verus! {

/// What a member of an interface is.
#[derive(Debug, PartialEq, Eq)]
pub enum Kind {
    Property,
    Method,
    Event,
}

/// A type expression of the API description.
///
/// `name` is the type's name (`"string"`, `"Array"`, `"Object"`, ... with a
/// trailing `?` when the value may be absent); an object type lists its
/// `properties`, a generic one its `templates`, and a union its `union`
/// members.
#[derive(Debug, PartialEq, Eq)]
pub struct Type {
    pub name: String,
    pub expression: Option<String>,
    pub properties: Vec<Arg>,
    pub templates: Vec<Type>,
    pub union: Vec<Type>,
}

/// An argument of a member, or a property of an object type.
///
/// `csharp_action` is what the API description says of the argument's
/// C# binding: whether it is an `Action` callback there.
#[derive(Debug, PartialEq, Eq)]
pub struct Arg {
    pub name: String,
    pub alias: String,
    pub ty: Type,
    pub overload_index: usize,
    pub required: bool,
    pub deprecated: bool,
    pub is_async: bool,
    pub csharp_action: bool,
}

/// A property, method or event of an interface.
#[derive(Debug, PartialEq, Eq)]
pub struct Member {
    pub kind: Kind,
    pub name: String,
    pub alias: String,
    pub experimental: bool,
    pub overload_index: usize,
    pub required: bool,
    pub is_async: bool,
    pub args: Vec<Arg>,
    pub ty: Type,
    pub deprecated: bool,
}

/// One interface (class) of the API.
#[derive(Debug, PartialEq, Eq)]
pub struct Interface {
    pub name: String,
    pub extends: Option<String>,
    pub members: Vec<Member>,
}

/// The whole API description: its interfaces in order.
#[derive(Debug, PartialEq, Eq)]
pub struct Api(pub Vec<Interface>);

/// A member that becomes a method of the generated type.
pub open spec fn is_method_like(k: Kind) -> bool {
    k is Property || k is Method
}

/// Whether a member is a property or a method.
pub fn kind_is_method_like(k: &Kind) -> (r: bool)
    ensures
        r == is_method_like(*k),
{
    match k {
        Kind::Property => true,
        Kind::Method => true,
        Kind::Event => false,
    }
}

/// Whether a member is an event.
pub fn kind_is_event(k: &Kind) -> (r: bool)
    ensures
        r == (*k is Event),
{
    match k {
        Kind::Event => true,
        _ => false,
    }
}

} // verus!
