//! The Rust type written for a type expression of the API description
//! (`use_ty`), and what that mapping keeps across its borrowed and owned
//! forms.

use vstd::prelude::*;
use crate::api::Type;
use crate::naming::{
    camel_name, camel_of, copy_name, join, join_names, loud_camel, loud_camel_name, name_text,
    name_view, text, Name, NameOf, NameV,
};
use crate::text::{ends_with_char, ends_with_char_text, remove_char, text_eq, without_char};

verus! {

/// A Rust type as the generated code writes it.
#[derive(Debug, PartialEq, Eq)]
pub enum RustTypeOf<N> {
    /// `&'a [u8]`
    BorrowedBytes,
    /// `Vec<u8>`
    OwnedBytes,
    /// `serde_json::Number`
    JsonNumber,
    /// The 64-bit floating-point type.
    Float,
    /// `&'a str`
    BorrowedStr,
    /// `String`
    OwnedStr,
    /// `bool`
    Bool,
    /// `()`
    Unit,
    /// A type named by the identifier.
    Named(N),
    /// `Option<T>`
    Optional(Box<RustTypeOf<N>>),
    /// `Opiton<T>`: the generator spells the wrapper this way for a
    /// nullable union with a single other member.
    OptionalMisspelt(Box<RustTypeOf<N>>),
    /// `&[T]`
    SliceOf(Box<RustTypeOf<N>>),
    /// `Vec<T>`
    VecOf(Box<RustTypeOf<N>>),
}

/// A Rust type as the library builds it.
pub type RustType = RustTypeOf<Name>;

/// A Rust type with its identifiers viewed as recipes over characters.
pub type RustTypeV = RustTypeOf<NameV>;

/// The view of a Rust type.
pub open spec fn ty_view(t: RustType) -> RustTypeV
    decreases t,
{
    match t {
        RustTypeOf::BorrowedBytes => RustTypeOf::BorrowedBytes,
        RustTypeOf::OwnedBytes => RustTypeOf::OwnedBytes,
        RustTypeOf::JsonNumber => RustTypeOf::JsonNumber,
        RustTypeOf::Float => RustTypeOf::Float,
        RustTypeOf::BorrowedStr => RustTypeOf::BorrowedStr,
        RustTypeOf::OwnedStr => RustTypeOf::OwnedStr,
        RustTypeOf::Bool => RustTypeOf::Bool,
        RustTypeOf::Unit => RustTypeOf::Unit,
        RustTypeOf::Named(n) => RustTypeOf::Named(name_view(n)),
        RustTypeOf::Optional(x) => RustTypeOf::Optional(Box::new(ty_view(*x))),
        RustTypeOf::OptionalMisspelt(x) => RustTypeOf::OptionalMisspelt(Box::new(ty_view(*x))),
        RustTypeOf::SliceOf(x) => RustTypeOf::SliceOf(Box::new(ty_view(*x))),
        RustTypeOf::VecOf(x) => RustTypeOf::VecOf(Box::new(ty_view(*x))),
    }
}

/// `Option<t>`.
pub open spec fn optional(t: RustTypeV) -> RustTypeV {
    RustTypeOf::Optional(Box::new(t))
}

/// A union member that stands for "no value".
pub open spec fn is_null_member(t: Type) -> bool {
    t.name@ == "null"@
}

/// How many members of `s` are not `null`.
pub open spec fn non_null_count(s: Seq<Type>) -> nat
    decreases s.len(),
{
    if s.len() == 0 {
        0
    } else {
        non_null_count(s.drop_last()) + if is_null_member(s.last()) {
            0nat
        } else {
            1nat
        }
    }
}

/// The position of the first member of `s` at or after `i` that is not
/// `null`, or `s.len()` when there is none.
pub open spec fn first_non_null_from(s: Seq<Type>, i: int) -> int
    decreases s.len() - i,
{
    if i < 0 || i >= s.len() {
        s.len() as int
    } else if !is_null_member(s[i]) {
        i
    } else {
        first_non_null_from(s, i + 1)
    }
}

/// The identifier of a type that the generator names after its place:
/// `loud_to_camel(scope.to_camel())` followed by
/// `loud_to_camel(name.to_camel())`.
pub open spec fn object_name(scope: NameV, name: Seq<char>) -> NameV {
    join(loud_camel(camel_of(scope)), loud_camel(camel_of(text(name))))
}

/// The Rust type of a primitive type expression whose name, with `?`
/// removed, is `s`.
pub open spec fn leaf_spec(s: Seq<char>, borrow: bool) -> RustTypeV {
    if s == "binary"@ {
        if borrow {
            RustTypeOf::BorrowedBytes
        } else {
            RustTypeOf::OwnedBytes
        }
    } else if s == "number"@ {
        RustTypeOf::JsonNumber
    } else if s == "float"@ {
        RustTypeOf::Float
    } else if s == "json"@ || s == "string"@ {
        if borrow {
            RustTypeOf::BorrowedStr
        } else {
            RustTypeOf::OwnedStr
        }
    } else if s == "boolean"@ {
        RustTypeOf::Bool
    } else if s == "void"@ {
        RustTypeOf::Unit
    } else {
        RustTypeOf::Named(loud_camel(text(s)))
    }
}

/// The type expressions that `use_ty` maps without failing: a function
/// type, an array with other than one template, an object type not named
/// `Object`, a type with both properties and templates, a union with
/// properties or templates, and a union of `null` alone are refused.
pub open spec fn use_ty_defined(ty: Type) -> bool
    decreases ty,
{
    if ty.union.len() == 0 {
        if ty.properties.len() == 0 {
            if ty.templates.len() == 0 {
                true
            } else if ty.name@ == "Func"@ {
                false
            } else if ty.name@ == "Array"@ {
                ty.templates.len() == 1 && use_ty_defined(ty.templates@[0])
            } else {
                true
            }
        } else {
            ty.templates.len() == 0 && ty.name@ == "Object"@
        }
    } else {
        let i = first_non_null_from(ty.union@, 0);
        &&& ty.properties.len() == 0
        &&& ty.templates.len() == 0
        &&& non_null_count(ty.union@) >= 1
        &&& non_null_count(ty.union@) == 1 ==> (0 <= i < ty.union.len() && use_ty_defined(
            ty.union@[i],
        ))
    }
}

/// The Rust type written for `ty`, for a value found at `name` within
/// `scope`; `borrow` asks for the borrowed forms of bytes, strings and
/// arrays.
pub open spec fn use_ty_spec(scope: NameV, name: Seq<char>, ty: Type, borrow: bool) -> RustTypeV
    decreases ty,
{
    if ty.union.len() == 0 {
        if ty.properties.len() == 0 && ty.templates.len() == 0 {
            let label = leaf_spec(without_char(ty.name@, '?'), borrow);
            if ends_with_char(ty.name@, '?') {
                optional(label)
            } else {
                label
            }
        } else if ty.templates.len() == 0 {
            RustTypeOf::Named(object_name(scope, name))
        } else if ty.properties.len() == 0 && ty.name@ == "Array"@ {
            let inner = use_ty_spec(scope, name, ty.templates@[0], borrow);
            if borrow {
                RustTypeOf::SliceOf(Box::new(inner))
            } else {
                RustTypeOf::VecOf(Box::new(inner))
            }
        } else {
            RustTypeOf::Named(object_name(scope, name))
        }
    } else {
        let n = non_null_count(ty.union@);
        let nullable = ty.union.len() != n;
        if n == 1 {
            let i = first_non_null_from(ty.union@, 0);
            if 0 <= i < ty.union.len() {
                let t = use_ty_spec(scope, name, ty.union@[i], borrow);
                if nullable {
                    RustTypeOf::OptionalMisspelt(Box::new(t))
                } else {
                    t
                }
            } else {
                RustTypeOf::Unit
            }
        } else {
            let id = RustTypeOf::Named(object_name(scope, name));
            if nullable {
                optional(id)
            } else {
                id
            }
        }
    }
}

/// The form a type takes when nothing is borrowed: borrowed bytes, strings
/// and slices become their owned counterparts.
pub open spec fn owned_form(t: RustTypeV) -> RustTypeV
    decreases t,
{
    match t {
        RustTypeOf::BorrowedBytes => RustTypeOf::OwnedBytes,
        RustTypeOf::BorrowedStr => RustTypeOf::OwnedStr,
        RustTypeOf::SliceOf(x) => RustTypeOf::VecOf(Box::new(owned_form(*x))),
        RustTypeOf::VecOf(x) => RustTypeOf::VecOf(Box::new(owned_form(*x))),
        RustTypeOf::Optional(x) => RustTypeOf::Optional(Box::new(owned_form(*x))),
        RustTypeOf::OptionalMisspelt(x) => RustTypeOf::OptionalMisspelt(Box::new(owned_form(*x))),
        _ => t,
    }
}

/// Whether a Rust type holds a reference anywhere.
pub open spec fn contains_ref(t: RustTypeV) -> bool
    decreases t,
{
    match t {
        RustTypeOf::BorrowedBytes => true,
        RustTypeOf::BorrowedStr => true,
        RustTypeOf::SliceOf(_) => true,
        RustTypeOf::VecOf(x) => contains_ref(*x),
        RustTypeOf::Optional(x) => contains_ref(*x),
        RustTypeOf::OptionalMisspelt(x) => contains_ref(*x),
        _ => false,
    }
}

/// How many members of `union` are not `null`.
pub(crate) fn count_non_null(union: &Vec<Type>) -> (r: usize)
    ensures
        r == non_null_count(union@),
{
    let mut count: usize = 0;
    let mut i: usize = 0;
    assert(union@.take(0) =~= Seq::<Type>::empty());
    while i < union.len()
        invariant
            i <= union.len(),
            count == non_null_count(union@.take(i as int)),
            count <= i,
        decreases union.len() - i,
    {
        assert(union@.take(i + 1).drop_last() =~= union@.take(i as int));
        if !text_eq(union[i].name.as_str(), "null") {
            count = count + 1;
        }
        i = i + 1;
    }
    assert(union@.take(union.len() as int) =~= union@);
    count
}

/// A sequence whose members are all `null` has none that is not.
proof fn lemma_all_null_count(s: Seq<Type>)
    requires
        forall|j: int| 0 <= j < s.len() ==> is_null_member(#[trigger] s[j]),
    ensures
        non_null_count(s) == 0,
    decreases s.len(),
{
    if s.len() > 0 {
        lemma_all_null_count(s.drop_last());
    }
}

/// The position of the first member of `union` that is not `null`.
pub(crate) fn first_non_null(union: &Vec<Type>) -> (r: usize)
    requires
        non_null_count(union@) >= 1,
    ensures
        r < union.len(),
        r == first_non_null_from(union@, 0),
{
    let mut i: usize = 0;
    while i < union.len()
        invariant
            i <= union.len(),
            non_null_count(union@) >= 1,
            forall|j: int| 0 <= j < i ==> is_null_member(#[trigger] union@[j]),
            first_non_null_from(union@, 0) == first_non_null_from(union@, i as int),
        decreases union.len() - i,
    {
        if !text_eq(union[i].name.as_str(), "null") {
            return i;
        }
        i = i + 1;
    }
    proof {
        lemma_all_null_count(union@);
    }
    0
}

/// The Rust type of a primitive type expression whose name, with `?`
/// removed, is `s`.
fn leaf_type(s: &String, borrow: bool) -> (r: RustType)
    ensures
        ty_view(r) == leaf_spec(s@, borrow),
{
    let t = s.as_str();
    if text_eq(t, "binary") {
        if borrow {
            RustTypeOf::BorrowedBytes
        } else {
            RustTypeOf::OwnedBytes
        }
    } else if text_eq(t, "number") {
        RustTypeOf::JsonNumber
    } else if text_eq(t, "float") {
        RustTypeOf::Float
    } else if text_eq(t, "json") || text_eq(t, "string") {
        if borrow {
            RustTypeOf::BorrowedStr
        } else {
            RustTypeOf::OwnedStr
        }
    } else if text_eq(t, "boolean") {
        RustTypeOf::Bool
    } else if text_eq(t, "void") {
        RustTypeOf::Unit
    } else {
        RustTypeOf::Named(loud_camel_name(name_text(t)))
    }
}

/// The identifier of a type named after its place (see `object_name`).
pub fn object_type_name(scope: &Name, name: &str) -> (r: Name)
    ensures
        name_view(r) == object_name(name_view(*scope), name@),
{
    let a = loud_camel_name(camel_name(copy_name(scope)));
    let b = loud_camel_name(camel_name(name_text(name)));
    join_names(a, b)
}

/// The Rust type the generator writes for the type expression `ty` of a
/// value called `name` within `scope`; with `borrow`, bytes, strings and
/// arrays are borrowed.
pub fn use_ty(scope: &Name, name: &str, ty: &Type, borrow: bool) -> (r: RustType)
    requires
        use_ty_defined(*ty),
    ensures
        ty_view(r) == use_ty_spec(name_view(*scope), name@, *ty, borrow),
    decreases ty,
{
    let nullable_name = ends_with_char_text(ty.name.as_str(), '?');
    let bare = remove_char(ty.name.as_str(), '?');
    if ty.union.len() == 0 {
        if ty.properties.len() == 0 && ty.templates.len() == 0 {
            let label = leaf_type(&bare, borrow);
            assert(ty_view(label) == leaf_spec(without_char(ty.name@, '?'), borrow));
            if nullable_name {
                RustTypeOf::Optional(Box::new(label))
            } else {
                label
            }
        } else if ty.templates.len() == 0 {
            RustTypeOf::Named(object_type_name(scope, name))
        } else if ty.properties.len() == 0 && text_eq(ty.name.as_str(), "Array") {
            let inner = use_ty(scope, name, &ty.templates[0], borrow);
            if borrow {
                RustTypeOf::SliceOf(Box::new(inner))
            } else {
                RustTypeOf::VecOf(Box::new(inner))
            }
        } else {
            RustTypeOf::Named(object_type_name(scope, name))
        }
    } else {
        let n = count_non_null(&ty.union);
        let nullable = ty.union.len() != n;
        if n == 1 {
            let i = first_non_null(&ty.union);
            let t = use_ty(scope, name, &ty.union[i], borrow);
            assert(ty_view(t) == use_ty_spec(name_view(*scope), name@, ty.union@[i as int], borrow));
            if nullable {
                RustTypeOf::OptionalMisspelt(Box::new(t))
            } else {
                t
            }
        } else {
            let id = RustTypeOf::Named(object_type_name(scope, name));
            assert(ty_view(id) == RustTypeOf::Named(object_name(name_view(*scope), name@)));
            if nullable {
                RustTypeOf::Optional(Box::new(id))
            } else {
                id
            }
        }
    }
}

/// Borrowing only changes bytes, strings and arrays: the owned Rust type
/// of a type expression is the borrowed one with each borrowed part
/// replaced by its owned counterpart.
pub proof fn lemma_owned_form_of_borrowed(scope: NameV, name: Seq<char>, ty: Type)
    ensures
        owned_form(use_ty_spec(scope, name, ty, true)) == use_ty_spec(scope, name, ty, false),
    decreases ty,
{
    reveal_with_fuel(owned_form, 2);
    if ty.union.len() == 0 {
        if ty.properties.len() == 0 && ty.templates.len() == 0 {
        } else if ty.templates.len() == 0 {
        } else if ty.properties.len() == 0 && ty.name@ == "Array"@ {
            lemma_owned_form_of_borrowed(scope, name, ty.templates@[0]);
        }
    } else {
        let i = first_non_null_from(ty.union@, 0);
        if non_null_count(ty.union@) == 1 && 0 <= i < ty.union.len() {
            lemma_owned_form_of_borrowed(scope, name, ty.union@[i]);
        }
    }
}

/// The owned Rust type of a type expression never holds a reference.
pub proof fn lemma_owned_holds_no_reference(scope: NameV, name: Seq<char>, ty: Type)
    ensures
        !contains_ref(use_ty_spec(scope, name, ty, false)),
    decreases ty,
{
    reveal_with_fuel(contains_ref, 2);
    if ty.union.len() == 0 {
        if ty.properties.len() == 0 && ty.templates.len() == 0 {
        } else if ty.templates.len() == 0 {
        } else if ty.properties.len() == 0 && ty.name@ == "Array"@ {
            lemma_owned_holds_no_reference(scope, name, ty.templates@[0]);
        }
    } else {
        let i = first_non_null_from(ty.union@, 0);
        if non_null_count(ty.union@) == 1 && 0 <= i < ty.union.len() {
            lemma_owned_holds_no_reference(scope, name, ty.union@[i]);
        }
    }
}

/// A Rust type is its own owned form exactly when it holds no reference.
proof fn lemma_owned_fixed_iff_no_ref(t: RustTypeV)
    ensures
        (owned_form(t) == t) == !contains_ref(t),
    decreases t,
{
    match t {
        RustTypeOf::SliceOf(x) => {
            lemma_owned_fixed_iff_no_ref(*x);
        },
        RustTypeOf::VecOf(x) => {
            lemma_owned_fixed_iff_no_ref(*x);
        },
        RustTypeOf::Optional(x) => {
            lemma_owned_fixed_iff_no_ref(*x);
        },
        RustTypeOf::OptionalMisspelt(x) => {
            lemma_owned_fixed_iff_no_ref(*x);
        },
        _ => {},
    }
}

/// The borrowed Rust type of a type expression holds a reference exactly
/// when it differs from the owned one.
pub proof fn lemma_reference_iff_borrowing_differs(scope: NameV, name: Seq<char>, ty: Type)
    ensures
        contains_ref(use_ty_spec(scope, name, ty, true)) == (use_ty_spec(scope, name, ty, true)
            != use_ty_spec(scope, name, ty, false)),
{
    lemma_owned_form_of_borrowed(scope, name, ty);
    lemma_owned_fixed_iff_no_ref(use_ty_spec(scope, name, ty, true));
}

/// Whether the Rust type of a type expression holds a reference depends on
/// the type expression alone, not on the scope or name it is found at.
pub proof fn lemma_reference_ignores_place(
    scope1: NameV,
    name1: Seq<char>,
    scope2: NameV,
    name2: Seq<char>,
    ty: Type,
    borrow: bool,
)
    ensures
        contains_ref(use_ty_spec(scope1, name1, ty, borrow)) == contains_ref(
            use_ty_spec(scope2, name2, ty, borrow),
        ),
    decreases ty,
{
    reveal_with_fuel(contains_ref, 2);
    if ty.union.len() == 0 {
        if ty.properties.len() == 0 && ty.templates.len() == 0 {
        } else if ty.templates.len() == 0 {
        } else if ty.properties.len() == 0 && ty.name@ == "Array"@ {
            lemma_reference_ignores_place(scope1, name1, scope2, name2, ty.templates@[0], borrow);
        }
    } else {
        let i = first_non_null_from(ty.union@, 0);
        if non_null_count(ty.union@) == 1 && 0 <= i < ty.union.len() {
            lemma_reference_ignores_place(scope1, name1, scope2, name2, ty.union@[i], borrow);
        }
    }
}

/// Whether `use_ty` maps the type expression `ty` (see `use_ty_defined`).
pub fn use_ty_accepts(ty: &Type) -> (r: bool)
    ensures
        r == use_ty_defined(*ty),
    decreases ty,
{
    if ty.union.len() == 0 {
        if ty.properties.len() == 0 {
            if ty.templates.len() == 0 {
                true
            } else if text_eq(ty.name.as_str(), "Func") {
                false
            } else if text_eq(ty.name.as_str(), "Array") {
                ty.templates.len() == 1 && use_ty_accepts(&ty.templates[0])
            } else {
                true
            }
        } else {
            ty.templates.len() == 0 && text_eq(ty.name.as_str(), "Object")
        }
    } else {
        if ty.properties.len() != 0 || ty.templates.len() != 0 {
            return false;
        }
        let n = count_non_null(&ty.union);
        if n == 0 {
            false
        } else if n == 1 {
            let i = first_non_null(&ty.union);
            use_ty_accepts(&ty.union[i])
        } else {
            true
        }
    }
}

} // verus!
