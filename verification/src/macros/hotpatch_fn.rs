//! The annotated function, and what it must be like to be patched.

use vstd::prelude::*;
use vstd::string::StringExecFns;
use crate::macros::args::same_text;

verus! {

/// The pattern of one argument of a function.
pub enum Pat {
    /// A name.
    Ident(String),
    /// A pattern in round brackets.
    Paren(Box<Pat>),
    /// A pattern behind `&`.
    Reference(Box<Pat>),
    /// A tuple, given by the text of its elements.
    Tuple(String),
    /// A struct, given by its path and the names of its fields.
    Struct(String, Vec<String>),
    /// A tuple struct, given by its path and its elements.
    TupleStruct(String, Vec<Pat>),
    /// Any other pattern.
    Other,
}

/// One argument of a function.
pub enum FnArg {
    /// `self` in one of its forms.
    Receiver,
    /// An argument with a pattern and a type; the flag tells whether the
    /// type is an `impl Trait`.
    Typed(Pat, bool),
}

/// What the generator reads of the signature of a function.
pub struct Signature {
    /// Whether the function is `const`.
    pub constness: bool,
    /// Whether the function is `unsafe`.
    pub unsafety: bool,
    /// The calling convention: `None` without `extern`, `Some(None)` for a
    /// bare `extern`, and else the name behind `extern`.
    pub abi: Option<Option<String>>,
    /// The name of the function.
    pub ident: String,
    /// The number of const parameters.
    pub const_params: usize,
    /// The number of type parameters.
    pub type_params: usize,
    /// The arguments.
    pub inputs: Vec<FnArg>,
    /// The text of the signature as it was written.
    pub text: String,
}

/// Why a function cannot be patched.
#[derive(Clone, Copy, Debug, PartialEq, Eq, Structural)]
pub enum Rejection {
    /// The function is `const`.
    Const,
    /// The function is not `unsafe`.
    NotUnsafe,
    /// The function is `extern "Rust"`.
    ExternRust,
    /// The function takes `self`.
    Receiver,
    /// The function has a const or a type parameter.
    Generics,
    /// An argument of the function has an `impl Trait` type.
    ImplTrait,
}

impl Rejection {
    /// The text with which the generator reports the rejection.
    pub fn message(&self) -> (text: &'static str)
        ensures
            text@ == match self {
                Rejection::Const => "a hot-patch function cannot be `const`"@,
                Rejection::NotUnsafe => "a hot-patch function must be marked `unsafe`"@,
                Rejection::ExternRust => "a hot-patch function cannot be `extern \"Rust\"`"@,
                Rejection::Receiver => "a hot-patch function cannot use `Self`"@,
                Rejection::Generics => "a hot-patch function cannot use non-lifetime generics"@,
                Rejection::ImplTrait =>
                    "a hot-patch function cannot use `impl Trait` type parameters"@,
            },
    {
        match self {
            Rejection::Const => "a hot-patch function cannot be `const`",
            Rejection::NotUnsafe => "a hot-patch function must be marked `unsafe`",
            Rejection::ExternRust => "a hot-patch function cannot be `extern \"Rust\"`",
            Rejection::Receiver => "a hot-patch function cannot use `Self`",
            Rejection::Generics => "a hot-patch function cannot use non-lifetime generics",
            Rejection::ImplTrait => "a hot-patch function cannot use `impl Trait` type parameters",
        }
    }
}

impl FnArg {
    /// Whether the argument has an `impl Trait` type.
    pub open spec fn is_impl_trait(self) -> bool {
        self matches FnArg::Typed(_, is_impl) && is_impl
    }
}

/// Whether one of `inputs` is `self`.
pub open spec fn has_receiver(inputs: Seq<FnArg>) -> bool {
    exists|k: int| 0 <= k < inputs.len() && #[trigger] inputs[k] is Receiver
}

/// Whether one of `inputs` has an `impl Trait` type.
pub open spec fn has_impl_trait(inputs: Seq<FnArg>) -> bool {
    exists|k: int| 0 <= k < inputs.len() && (#[trigger] inputs[k]).is_impl_trait()
}

/// Whether the calling convention is named `Rust`.
pub open spec fn is_extern_rust(abi: Option<Option<String>>) -> bool {
    abi matches Some(Some(name)) && name@ == "Rust"@
}

/// The rejection of a function with the signature `sig`, if it is rejected:
/// the first of the rules that it breaks.
pub open spec fn rejection(sig: Signature) -> Option<Rejection> {
    if sig.constness {
        Some(Rejection::Const)
    } else if !sig.unsafety {
        Some(Rejection::NotUnsafe)
    } else if is_extern_rust(sig.abi) {
        Some(Rejection::ExternRust)
    } else if has_receiver(sig.inputs@) {
        Some(Rejection::Receiver)
    } else if sig.const_params != 0 || sig.type_params != 0 {
        Some(Rejection::Generics)
    } else if has_impl_trait(sig.inputs@) {
        Some(Rejection::ImplTrait)
    } else {
        None
    }
}

/// The name of the function that holds the body of the function `ident`.
pub open spec fn inner_name(ident: Seq<char>) -> Seq<char> {
    ident + "_inner"@
}

/// An annotated function that can be patched: the name of the inner
/// function, which holds the body and is what the site goes to at first, and
/// the signature of the outer function, the shim that callers see.
pub struct HotpatchFn {
    /// The name of the inner function.
    pub inner: String,
    /// The signature of the outer function, as it was annotated.
    pub outer: Signature,
}

fn finds_receiver(inputs: &Vec<FnArg>) -> (found: bool)
    ensures
        found == has_receiver(inputs@),
{
    let mut k: usize = 0;
    while k < inputs.len()
        invariant
            k <= inputs@.len(),
            forall|e: int| 0 <= e < k ==> !(#[trigger] inputs@[e] is Receiver),
        decreases inputs@.len() - k,
    {
        match &inputs[k] {
            FnArg::Receiver => {
                return true;
            },
            _ => {},
        }
        k = k + 1;
    }
    false
}

fn finds_impl_trait(inputs: &Vec<FnArg>) -> (found: bool)
    ensures
        found == has_impl_trait(inputs@),
{
    let mut k: usize = 0;
    while k < inputs.len()
        invariant
            k <= inputs@.len(),
            forall|e: int| 0 <= e < k ==> !(#[trigger] inputs@[e]).is_impl_trait(),
        decreases inputs@.len() - k,
    {
        match &inputs[k] {
            FnArg::Typed(_, is_impl) => {
                if *is_impl {
                    return true;
                }
            },
            _ => {},
        }
        k = k + 1;
    }
    false
}

fn names_rust(abi: &Option<Option<String>>) -> (named: bool)
    ensures
        named == is_extern_rust(*abi),
{
    match abi {
        Some(Some(name)) => same_text(name.as_str(), "Rust"),
        _ => false,
    }
}

impl HotpatchFn {
    /// Takes an annotated function apart. A function that breaks one of the
    /// rules is rejected with the first rule that it breaks, in this order:
    /// it is not `const`; it is `unsafe`; its calling convention is not named
    /// `Rust`; it does not take `self`; it has neither const nor type
    /// parameters; no argument has an `impl Trait` type. Of a function that
    /// keeps the rules, the inner function is named after it, with `_inner`
    /// behind the name, and the outer function keeps the signature.
    pub fn parse(outer: Signature) -> (parsed: Result<HotpatchFn, Rejection>)
        ensures
            match parsed {
                Err(rule) => rejection(outer) == Some(rule),
                Ok(function) => {
                    &&& rejection(outer) is None
                    &&& function.outer == outer
                    &&& function.inner@ == inner_name(outer.ident@)
                },
            },
    {
        if outer.constness {
            return Err(Rejection::Const);
        }
        if !outer.unsafety {
            return Err(Rejection::NotUnsafe);
        }
        if names_rust(&outer.abi) {
            return Err(Rejection::ExternRust);
        }
        if finds_receiver(&outer.inputs) {
            return Err(Rejection::Receiver);
        }
        if outer.const_params != 0 || outer.type_params != 0 {
            return Err(Rejection::Generics);
        }
        if finds_impl_trait(&outer.inputs) {
            return Err(Rejection::ImplTrait);
        }
        let mut inner = String::from_str(outer.ident.as_str());
        inner.append("_inner");
        Ok(HotpatchFn { inner, outer })
    }
}

} // verus!
