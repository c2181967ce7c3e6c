//! Validation of subscription arguments.

use vstd::prelude::*;

use super::bot_types::SubscriptionArgs;

verus! {

/// Checks a parsed subscription for completeness: the location must be
/// non-empty and the yield and both size bounds present. Returns one error
/// message when anything is missing, and nothing otherwise.
pub fn check_args(args: SubscriptionArgs) -> (errors: Vec<String>)
    ensures
        errors@.len() <= 1,
        (errors@.len() == 0) <==> (args.location@.len() > 0 && args.target_yield is Some
            && args.min_size is Some && args.max_size is Some),
{
    let mut errors: Vec<String> = Vec::new();

    if args.location.as_str().unicode_len() == 0 || args.target_yield.is_none()
        || args.min_size.is_none() || args.max_size.is_none() {
        errors.push(String::from_str("Missing value in args."));
    }

    errors
}

} // verus!
