//! What the generator puts into a shim.

use vstd::prelude::*;
use vstd::string::StringExecFns;
use crate::macros::args::{ident_view, parsed_args, Args, ArgsError};
use crate::macros::hotpatch_fn::{inner_name, rejection, FnArg, HotpatchFn, Pat, Rejection};
use crate::macros::hotpatch_fn::Signature;

verus! {

/// The text of `parts`, each with `, ` behind it.
pub open spec fn listed(parts: Seq<Seq<char>>) -> Seq<char>
    decreases parts.len(),
{
    if parts.len() == 0 {
        Seq::empty()
    } else {
        listed(parts.drop_last()) + parts.last() + ", "@
    }
}

/// The names of `members`.
pub open spec fn names(members: Seq<String>) -> Seq<Seq<char>> {
    Seq::new(members.len(), |k: int| members[k]@)
}

/// The expression that hands on an argument with the pattern `pat`: the
/// value that the pattern took apart, put together again. There is none for
/// a pattern that holds one of the other kind.
pub open spec fn forwarded(pat: Pat) -> Option<Seq<char>>
    decreases pat,
{
    match pat {
        Pat::Ident(ident) => Some(ident@),
        Pat::Paren(inner) => forwarded(*inner),
        Pat::Reference(inner) => forwarded(*inner),
        Pat::Tuple(elems) => Some("("@ + elems@ + ")"@),
        Pat::Struct(path, members) => Some(path@ + " { "@ + listed(names(members@)) + "}"@),
        Pat::TupleStruct(path, elems) => match forwarded_each(elems@) {
            Some(parts) => Some(path@ + "("@ + listed(parts) + ")"@),
            None => None,
        },
        Pat::Other => None,
    }
}

/// The expressions that hand on the arguments with the patterns `pats`, in
/// order; none where one of the patterns has none.
pub open spec fn forwarded_each(pats: Seq<Pat>) -> Option<Seq<Seq<char>>>
    decreases pats,
{
    if pats.len() == 0 {
        Some(Seq::empty())
    } else {
        match (forwarded_each(pats.drop_last()), forwarded(pats.last())) {
            (Some(front), Some(last)) => Some(front.push(last)),
            _ => None,
        }
    }
}

/// A pattern that no argument of a patched function may have. It is told
/// from the others, which name the rule that a function broke.
#[derive(Clone, Copy, Debug, PartialEq, Eq, Structural)]
pub struct UnsupportedPattern;

impl UnsupportedPattern {
    /// The text with which the generator reports the pattern.
    pub fn message(&self) -> (text: &'static str)
        ensures
            text@ == "unsupported type pattern in function input position"@,
    {
        "unsupported type pattern in function input position"
    }
}

/// The expression that hands on an argument with the pattern `pat`.
pub fn fn_input_pat_to_ts(pat: &Pat) -> (expr: Result<String, UnsupportedPattern>)
    ensures
        match expr {
            Ok(text) => forwarded(*pat) == Some(text@),
            Err(_) => forwarded(*pat) is None,
        },
    decreases pat,
{
    match pat {
        Pat::Ident(ident) => Ok(String::from_str(ident.as_str())),
        Pat::Paren(inner) => fn_input_pat_to_ts(inner),
        Pat::Reference(inner) => fn_input_pat_to_ts(inner),
        Pat::Tuple(elems) => {
            let mut text = String::from_str("(");
            text.append(elems.as_str());
            text.append(")");
            Ok(text)
        },
        Pat::Struct(path, members) => {
            let mut text = String::from_str(path.as_str());
            text.append(" { ");
            let mut k: usize = 0;
            while k < members.len()
                invariant
                    k <= members@.len(),
                    text@ == path@ + " { "@ + listed(names(members@).take(k as int)),
                decreases members@.len() - k,
            {
                text.append(members[k].as_str());
                text.append(", ");
                proof {
                    let all = names(members@);
                    assert(all.take(k + 1).drop_last() =~= all.take(k as int));
                }
                k = k + 1;
            }
            assert(names(members@).take(k as int) =~= names(members@));
            text.append("}");
            Ok(text)
        },
        Pat::TupleStruct(path, elems) => {
            let mut text = String::from_str(path.as_str());
            text.append("(");
            let ghost mut parts: Seq<Seq<char>> = Seq::empty();
            let mut k: usize = 0;
            while k < elems.len()
                invariant
                    k <= elems@.len(),
                    *pat == Pat::TupleStruct(*path, *elems),
                    forwarded_each(elems@.take(k as int)) == Some(parts),
                    text@ == path@ + "("@ + listed(parts),
                decreases elems@.len() - k,
            {
                proof {
                    assert(elems@.take(k + 1).drop_last() =~= elems@.take(k as int));
                }
                match fn_input_pat_to_ts(&elems[k]) {
                    Ok(part) => {
                        text.append(part.as_str());
                        text.append(", ");
                        proof {
                            assert(parts.push(part@).drop_last() =~= parts);
                            parts = parts.push(part@);
                        }
                    },
                    Err(unsupported) => {
                        proof {
                            lemma_none_stays_none(elems@, k + 1);
                        }
                        return Err(unsupported);
                    },
                }
                k = k + 1;
            }
            assert(elems@.take(k as int) =~= elems@);
            text.append(")");
            Ok(text)
        },
        Pat::Other => Err(UnsupportedPattern),
    }
}

/// Where the first patterns of a list cannot all be handed on, the list
/// cannot be.
proof fn lemma_none_stays_none(pats: Seq<Pat>, n: int)
    requires
        0 <= n <= pats.len(),
        forwarded_each(pats.take(n)) is None,
    ensures
        forwarded_each(pats) is None,
    decreases pats.len() - n,
{
    if n < pats.len() {
        assert(pats.take(n + 1).drop_last() =~= pats.take(n));
        lemma_none_stays_none(pats, n + 1);
    } else {
        assert(pats.take(n) =~= pats);
    }
}

/// The expression that hands on the argument `arg`.
pub open spec fn forwarded_arg(arg: FnArg) -> Option<Seq<char>> {
    match arg {
        FnArg::Receiver => Some("self"@),
        FnArg::Typed(pat, _) => forwarded(pat),
    }
}

/// The expressions that hand on the arguments `inputs`, in order; none where
/// one of the arguments has none.
pub open spec fn forwarded_args(inputs: Seq<FnArg>) -> Option<Seq<Seq<char>>>
    decreases inputs.len(),
{
    if inputs.len() == 0 {
        Some(Seq::empty())
    } else {
        match (forwarded_args(inputs.drop_last()), forwarded_arg(inputs.last())) {
            (Some(front), Some(last)) => Some(front.push(last)),
            _ => None,
        }
    }
}

/// The calling convention of the function that a site goes to: that of the
/// annotated function where it names one, `C-unwind` where it has none, and
/// always `C-unwind` for checked calls, which go through an entry of their
/// own. `None` stands for a bare `extern`.
pub open spec fn target_abi(abi: Option<Option<String>>, is_checked: bool) -> Option<Seq<char>> {
    if is_checked {
        Some("C-unwind"@)
    } else {
        match abi {
            None => Some("C-unwind"@),
            Some(None) => None,
            Some(Some(name)) => Some(name@),
        }
    }
}

/// What the generator puts into the shim of one function.
pub struct Shim {
    /// Whether the arguments of a call and its result cross to the patched
    /// code in serialised form.
    pub is_checked: bool,
    /// The name of the outer function, which callers see.
    pub outer: String,
    /// The name of the inner function, which holds the body.
    pub inner: String,
    /// The calling convention of the function that the site goes to; `None`
    /// stands for a bare `extern`.
    pub abi: Option<String>,
    /// The text of the signature, which goes into the identity hash.
    pub signature: String,
    /// The expressions that hand the arguments of the shim on, in order.
    pub args: Vec<String>,
    /// The number of arguments of the function that the site goes to.
    pub wild: usize,
}

/// Why the generator gives no shim.
#[derive(Clone, Copy, Debug, PartialEq, Eq, Structural)]
pub enum MacroError {
    /// The arguments of the annotation are refused.
    Args(ArgsError),
    /// The function breaks a rule.
    Rejected(Rejection),
    /// An argument of the function has a pattern that cannot be handed on.
    Pattern(UnsupportedPattern),
}

fn forward_args(inputs: &Vec<FnArg>) -> (exprs: Result<Vec<String>, UnsupportedPattern>)
    ensures
        match exprs {
            Ok(list) => forwarded_args(inputs@) == Some(names(list@)),
            Err(_) => forwarded_args(inputs@) is None,
        },
{
    let mut list: Vec<String> = Vec::new();
    let mut k: usize = 0;
    while k < inputs.len()
        invariant
            k <= inputs@.len(),
            forwarded_args(inputs@.take(k as int)) == Some(names(list@)),
        decreases inputs@.len() - k,
    {
        proof {
            assert(inputs@.take(k + 1).drop_last() =~= inputs@.take(k as int));
        }
        let expr = match &inputs[k] {
            FnArg::Receiver => Ok(String::from_str("self")),
            FnArg::Typed(pat, _) => fn_input_pat_to_ts(pat),
        };
        match expr {
            Ok(text) => {
                list.push(text);
            },
            Err(unsupported) => {
                proof {
                    lemma_no_args_stay_none(inputs@, k + 1);
                }
                return Err(unsupported);
            },
        }
        k = k + 1;
    }
    assert(inputs@.take(k as int) =~= inputs@);
    Ok(list)
}

/// Where the first arguments of a list cannot all be handed on, the list
/// cannot be.
proof fn lemma_no_args_stay_none(inputs: Seq<FnArg>, n: int)
    requires
        0 <= n <= inputs.len(),
        forwarded_args(inputs.take(n)) is None,
    ensures
        forwarded_args(inputs) is None,
    decreases inputs.len() - n,
{
    if n < inputs.len() {
        assert(inputs.take(n + 1).drop_last() =~= inputs.take(n));
        lemma_no_args_stay_none(inputs, n + 1);
    } else {
        assert(inputs.take(n) =~= inputs);
    }
}

/// Works out the shim of an annotated function: `ident` is the identifier
/// that the arguments of the annotation start with, if they start with one,
/// `checked_enabled` tells whether the build has checked calls, and `item` is
/// the signature of the function.
///
/// The arguments of the annotation are read first, then the function is held
/// to the rules, then the arguments of the function are handed on; the first
/// of the three that fails gives the error.
pub fn hotpatch(ident: Option<&str>, checked_enabled: bool, item: Signature) -> (shim: Result<
    Shim,
    MacroError,
>)
    ensures
        match shim {
            Err(MacroError::Args(error)) => parsed_args(ident_view(ident), checked_enabled) == Err::<
                Args,
                ArgsError,
            >(error),
            Err(MacroError::Rejected(rule)) => {
                &&& parsed_args(ident_view(ident), checked_enabled) is Ok
                &&& rejection(item) == Some(rule)
            },
            Err(MacroError::Pattern(_)) => {
                &&& parsed_args(ident_view(ident), checked_enabled) is Ok
                &&& rejection(item) is None
                &&& forwarded_args(item.inputs@) is None
            },
            Ok(shim) => {
                &&& parsed_args(ident_view(ident), checked_enabled) == Ok::<Args, ArgsError>(
                    Args { is_checked: shim.is_checked },
                )
                &&& rejection(item) is None
                &&& shim.outer@ == item.ident@
                &&& shim.inner@ == inner_name(item.ident@)
                &&& shim.signature@ == item.text@
                &&& match shim.abi {
                    Some(name) => target_abi(item.abi, shim.is_checked) == Some(name@),
                    None => target_abi(item.abi, shim.is_checked) is None,
                }
                &&& forwarded_args(item.inputs@) == Some(names(shim.args@))
                &&& shim.wild == item.inputs@.len()
            },
        },
{
    let args = match Args::parse(ident, checked_enabled) {
        Ok(args) => args,
        Err(error) => {
            return Err(MacroError::Args(error));
        },
    };
    let function = match HotpatchFn::parse(item) {
        Ok(function) => function,
        Err(rule) => {
            return Err(MacroError::Rejected(rule));
        },
    };
    let exprs = match forward_args(&function.outer.inputs) {
        Ok(exprs) => exprs,
        Err(unsupported) => {
            return Err(MacroError::Pattern(unsupported));
        },
    };
    let abi = if args.is_checked {
        Some(String::from_str("C-unwind"))
    } else {
        match &function.outer.abi {
            None => Some(String::from_str("C-unwind")),
            Some(None) => None,
            Some(Some(name)) => Some(String::from_str(name.as_str())),
        }
    };
    Ok(
        Shim {
            is_checked: args.is_checked,
            outer: String::from_str(function.outer.ident.as_str()),
            inner: function.inner,
            abi,
            signature: String::from_str(function.outer.text.as_str()),
            wild: function.outer.inputs.len(),
            args: exprs,
        },
    )
}

} // verus!
