//! Identifiers of the generated code, kept as the recipe that builds them.
//!
//! The API description's names reach the generated code through the
//! project's `loud_to_camel`, `loud_to_snake` and `kebab_to_camel`
//! conversions. A `NameOf` records which conversions are applied to which
//! text and how the pieces are joined; the `case` conversions are applied
//! here directly wherever they meet plain text.

use vstd::prelude::*;
use crate::case_conv::{camel_case, snake_case, to_camel_text, to_snake_text};

verus! {

/// An identifier recipe over texts of type `S`.
#[derive(Debug, PartialEq, Eq)]
pub enum NameOf<S> {
    /// The text itself.
    Text(S),
    /// The first name immediately followed by the second.
    Join(Box<NameOf<S>>, Box<NameOf<S>>),
    /// `loud_to_camel` of the name.
    LoudToCamel(Box<NameOf<S>>),
    /// `loud_to_snake` of the name.
    LoudToSnake(Box<NameOf<S>>),
    /// `kebab_to_camel` of the name.
    KebabToCamel(Box<NameOf<S>>),
    /// `CaseExt::to_camel` of a name that is not plain text.
    Camel(Box<NameOf<S>>),
    /// `CaseExt::to_snake` of a name that is not plain text.
    Snake(Box<NameOf<S>>),
}

/// A recipe as the library builds it.
pub type Name = NameOf<String>;

/// A recipe with its texts as character sequences.
pub type NameV = NameOf<Seq<char>>;

/// The recipe `n` with each text viewed as its characters.
pub open spec fn name_view(n: Name) -> NameV
    decreases n,
{
    match n {
        NameOf::Text(s) => NameOf::Text(s@),
        NameOf::Join(a, b) => NameOf::Join(Box::new(name_view(*a)), Box::new(name_view(*b))),
        NameOf::LoudToCamel(a) => NameOf::LoudToCamel(Box::new(name_view(*a))),
        NameOf::LoudToSnake(a) => NameOf::LoudToSnake(Box::new(name_view(*a))),
        NameOf::KebabToCamel(a) => NameOf::KebabToCamel(Box::new(name_view(*a))),
        NameOf::Camel(a) => NameOf::Camel(Box::new(name_view(*a))),
        NameOf::Snake(a) => NameOf::Snake(Box::new(name_view(*a))),
    }
}

/// Plain text as a recipe.
pub open spec fn text(s: Seq<char>) -> NameV {
    NameOf::Text(s)
}

/// `CaseExt::to_camel` of a recipe: computed at once on plain text,
/// recorded otherwise.
pub open spec fn camel_of(n: NameV) -> NameV {
    match n {
        NameOf::Text(s) => NameOf::Text(camel_case(s)),
        _ => NameOf::Camel(Box::new(n)),
    }
}

/// `CaseExt::to_snake` of a recipe: computed at once on plain text,
/// recorded otherwise.
pub open spec fn snake_of(n: NameV) -> NameV {
    match n {
        NameOf::Text(s) => NameOf::Text(snake_case(s)),
        _ => NameOf::Snake(Box::new(n)),
    }
}

/// `loud_to_camel` of a recipe.
pub open spec fn loud_camel(n: NameV) -> NameV {
    NameOf::LoudToCamel(Box::new(n))
}

/// `loud_to_snake` of a recipe.
pub open spec fn loud_snake(n: NameV) -> NameV {
    NameOf::LoudToSnake(Box::new(n))
}

/// `kebab_to_camel` of a recipe.
pub open spec fn kebab_camel(n: NameV) -> NameV {
    NameOf::KebabToCamel(Box::new(n))
}

/// Two recipes joined.
pub open spec fn join(a: NameV, b: NameV) -> NameV {
    NameOf::Join(Box::new(a), Box::new(b))
}

/// A recipe for the given text.
pub fn name_text(s: &str) -> (r: Name)
    ensures
        name_view(r) == text(s@),
{
    NameOf::Text(String::from_str(s))
}

/// `CaseExt::to_camel` of a recipe (see `camel_of`).
pub fn camel_name(n: Name) -> (r: Name)
    ensures
        name_view(r) == camel_of(name_view(n)),
{
    match n {
        NameOf::Text(s) => NameOf::Text(to_camel_text(s.as_str())),
        other => NameOf::Camel(Box::new(other)),
    }
}

/// `CaseExt::to_snake` of a recipe (see `snake_of`).
pub fn snake_name(n: Name) -> (r: Name)
    ensures
        name_view(r) == snake_of(name_view(n)),
{
    match n {
        NameOf::Text(s) => NameOf::Text(to_snake_text(s.as_str())),
        other => NameOf::Snake(Box::new(other)),
    }
}

/// `loud_to_camel` of a recipe.
pub fn loud_camel_name(n: Name) -> (r: Name)
    ensures
        name_view(r) == loud_camel(name_view(n)),
{
    NameOf::LoudToCamel(Box::new(n))
}

/// `loud_to_snake` of a recipe.
pub fn loud_snake_name(n: Name) -> (r: Name)
    ensures
        name_view(r) == loud_snake(name_view(n)),
{
    NameOf::LoudToSnake(Box::new(n))
}

/// `kebab_to_camel` of a recipe.
pub fn kebab_camel_name(n: Name) -> (r: Name)
    ensures
        name_view(r) == kebab_camel(name_view(n)),
{
    NameOf::KebabToCamel(Box::new(n))
}

/// Two recipes joined.
pub fn join_names(a: Name, b: Name) -> (r: Name)
    ensures
        name_view(r) == join(name_view(a), name_view(b)),
{
    NameOf::Join(Box::new(a), Box::new(b))
}

/// A copy of a recipe.
pub fn copy_name(n: &Name) -> (r: Name)
    ensures
        name_view(r) == name_view(*n),
    decreases n,
{
    match n {
        NameOf::Text(s) => NameOf::Text(s.clone()),
        NameOf::Join(a, b) => NameOf::Join(Box::new(copy_name(a)), Box::new(copy_name(b))),
        NameOf::LoudToCamel(a) => NameOf::LoudToCamel(Box::new(copy_name(a))),
        NameOf::LoudToSnake(a) => NameOf::LoudToSnake(Box::new(copy_name(a))),
        NameOf::KebabToCamel(a) => NameOf::KebabToCamel(Box::new(copy_name(a))),
        NameOf::Camel(a) => NameOf::Camel(Box::new(copy_name(a))),
        NameOf::Snake(a) => NameOf::Snake(Box::new(copy_name(a))),
    }
}

} // verus!
