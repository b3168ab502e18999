//! The arguments of the annotation.

use vstd::prelude::*;
use vstd::string::StringExecFns;

verus! {

/// The arguments of the annotation.
#[derive(Clone, Copy, Debug, PartialEq, Eq, Structural)]
pub struct Args {
    /// Whether the arguments of a call and its result cross to the patched
    /// code in serialised form.
    pub is_checked: bool,
}

/// Why the arguments of an annotation are refused.
#[derive(Clone, Copy, Debug, PartialEq, Eq, Structural)]
pub enum ArgsError {
    /// The argument is not one that the annotation knows.
    Unsupported,
    /// The argument asks for checked calls, which the build leaves out.
    CheckedDisabled,
}

impl ArgsError {
    /// The text with which the generator reports the error.
    pub fn message(&self) -> (text: &'static str)
        ensures
            text@ == match self {
                ArgsError::Unsupported => "unsupported attribute, is not one of: \"checked\""@,
                ArgsError::CheckedDisabled => "feature \"checked\" is disabled"@,
            },
    {
        match self {
            ArgsError::Unsupported => "unsupported attribute, is not one of: \"checked\"",
            ArgsError::CheckedDisabled => "feature \"checked\" is disabled",
        }
    }
}

/// Whether two pieces of text are the same.
pub fn same_text(a: &str, b: &str) -> (same: bool)
    ensures
        same == (a@ == b@),
{
    String::from_str(a) == String::from_str(b)
}

/// What the arguments of an annotation are read as, when they start with the
/// identifier `ident`, or with none, in a build that has checked calls or has
/// none.
pub open spec fn parsed_args(ident: Option<Seq<char>>, checked_enabled: bool) -> Result<
    Args,
    ArgsError,
> {
    match ident {
        None => Ok(Args { is_checked: false }),
        Some(ident) => if ident != "checked"@ {
            Err(ArgsError::Unsupported)
        } else if !checked_enabled {
            Err(ArgsError::CheckedDisabled)
        } else {
            Ok(Args { is_checked: true })
        },
    }
}

/// The identifier as its characters.
pub open spec fn ident_view(ident: Option<&str>) -> Option<Seq<char>> {
    match ident {
        Some(ident) => Some(ident@),
        None => None,
    }
}

impl Args {
    /// Reads the arguments of an annotation: `ident` is the identifier that
    /// the arguments start with, if they start with one, and
    /// `checked_enabled` tells whether the build has checked calls. Without
    /// an identifier the calls are unchecked. The one identifier that is
    /// known is `checked`.
    pub fn parse(ident: Option<&str>, checked_enabled: bool) -> (args: Result<Args, ArgsError>)
        ensures
            args == parsed_args(ident_view(ident), checked_enabled),
    {
        let ident = match ident {
            Some(ident) => ident,
            None => {
                return Ok(Args { is_checked: false });
            },
        };
        if !same_text(ident, "checked") {
            return Err(ArgsError::Unsupported);
        }
        if !checked_enabled {
            return Err(ArgsError::CheckedDisabled);
        }
        Ok(Args { is_checked: true })
    }
}

} // verus!
