//! The arguments of the command that asks for a graph.

use vstd::prelude::*;
use crate::error::GitGraphError;
use crate::graph::{clamp_limit, sanitize_limit, DEFAULT_LIMIT, MAX_LIMIT};
use crate::number::{
    is_signed_decimal, lemma_signed_only, lemma_unsigned_is_signed, parse_usize, signed_decimal,
};
use crate::text::chars_of;

verus! {

/// What the command was asked for.
#[derive(Debug, Clone)]
pub struct SlashCommandOptions {
    /// How many commits to show, within `[1, MAX_LIMIT]`.
    pub limit: usize,
}

impl SlashCommandOptions {
    /// Reads the optional limit: absent, it is `DEFAULT_LIMIT`; given as a decimal
    /// integer of any size, it is clamped to `[1, MAX_LIMIT]`; an argument that is no
    /// integer is an error.
    pub fn from_args(args: &[String]) -> (r: Result<SlashCommandOptions, GitGraphError>)
        ensures
            args@.len() == 0 ==> r is Ok && r->Ok_0.limit == DEFAULT_LIMIT,
            args@.len() > 0 ==> (r is Ok <==> signed_decimal(args@[0]@) is Some),
            args@.len() > 0 && r is Ok ==> r->Ok_0.limit as int == clamp_limit(
                signed_decimal(args@[0]@)->Some_0,
            ),
            r is Err ==> r->Err_0 is Parse && r->Err_0->Parse_0@.take(15) == "invalid limit: "@,
    {
        if args.len() == 0 {
            return Ok(SlashCommandOptions { limit: DEFAULT_LIMIT });
        }
        let arg = args[0].as_str();
        match parse_usize(arg) {
            Ok(limit) => {
                proof {
                    lemma_unsigned_is_signed(args@[0]@);
                }
                Ok(SlashCommandOptions { limit: sanitize_limit(limit) })
            },
            Err(err) => {
                let cs = chars_of(arg);
                if is_signed_decimal(cs.as_slice()) {
                    proof {
                        lemma_signed_only(args@[0]@);
                    }
                    // An integer outside the range of `usize`, or a negative one.
                    Ok(SlashCommandOptions { limit: if cs[0] == '-' { 1 } else { MAX_LIMIT } })
                } else {
                    let detail = err.to_string();
                    let cause = String::from_str("invalid limit: ").concat(detail.as_str());
                    proof {
                        reveal_strlit("invalid limit: ");
                        assert(cause@.take(15) =~= "invalid limit: "@);
                    }
                    Err(GitGraphError::Parse(cause))
                }
            },
        }
    }
}

} // verus!
