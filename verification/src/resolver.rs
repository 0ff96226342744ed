//! Activation resolver: turns the token returned by the tray runtime on a
//! click into a structured result, consumed by exhaustive matching instead
//! of string-prefix chains at the call sites.

use vstd::prelude::*;
use vstd::string::StrSliceExecFns;

use crate::builder::quit_sentinel;
use crate::codec::{decode, decode_spec, has_action_prefix, DecodeError, GroupRef};

verus! {

/// What an activated token means to the hosting application.
#[derive(Debug)]
pub enum ActivationResult {
    /// The reserved quit entry was activated: the host should exit.
    Terminate,
    /// A header, separator or foreign token: a no-op.
    Ignored,
    /// An actionable token decoded to this group: apply its configuration.
    ApplyConfiguration { target: GroupRef },
    /// The token carried the action prefix but could not be decoded; the
    /// caller reports it and carries on.
    ResolutionFailed { error: DecodeError },
}

/// Character-wise string equality.
fn str_eq(a: &str, b: &str) -> (r: bool)
    ensures
        r == (a@ == b@),
{
    let n: usize = a.unicode_len();
    let m: usize = b.unicode_len();
    if n != m {
        return false;
    }
    let mut i: usize = 0;
    while i < n
        invariant
            i <= n,
            n == a@.len(),
            n == b@.len(),
            forall|k: int| 0 <= k < i ==> a@[k] == b@[k],
        decreases n - i,
    {
        if a.get_char(i) != b.get_char(i) {
            return false;
        }
        i = i + 1;
    }
    proof {
        assert(a@ =~= b@);
    }
    true
}

/// Resolves one activation. Stateless across activations: the quit sentinel
/// yields `Terminate`; a token without the action prefix is `Ignored`; an
/// actionable token either decodes to the group to apply or reports why it
/// could not — the resolver itself never fails.
pub fn resolve_activation(token: &str) -> (r: ActivationResult)
    ensures
        token@ == quit_sentinel() ==> r is Terminate,
        token@ != quit_sentinel() && !has_action_prefix(token@) ==> r is Ignored,
        token@ != quit_sentinel() && (decode_spec(token@) matches Ok(v)) ==> (r matches
            ActivationResult::ApplyConfiguration { target } && target.project_id@
                == decode_spec(token@)->Ok_0.0 && target.env_file_path@
                == decode_spec(token@)->Ok_0.1 && target.group_id@ == decode_spec(token@)->Ok_0.2),
        token@ != quit_sentinel() && has_action_prefix(token@) && decode_spec(token@) is Err ==> (r
            matches ActivationResult::ResolutionFailed { error } && error == DecodeError::Malformed),
{
    if str_eq(token, "quit-app") {
        return ActivationResult::Terminate;
    }
    match decode(token) {
        Ok(target) => ActivationResult::ApplyConfiguration { target },
        Err(DecodeError::NotATargetToken) => ActivationResult::Ignored,
        Err(DecodeError::Malformed) => ActivationResult::ResolutionFailed {
            error: DecodeError::Malformed,
        },
    }
}

} // verus!
