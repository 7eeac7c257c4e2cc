//! Authentication of the asynchronous callback: only the oracle service's
//! own identity may inject a response.

use vstd::prelude::*;

use crate::addr::Addr;
use crate::errors::CoreError;

verus! {

/// The identity account the callback's caller supplies, as the platform
/// presents it: its address and whether it signed this very invocation.
#[derive(Clone, Copy, PartialEq, Eq, Debug)]
pub struct CallerIdentity {
    pub key: Addr,
    pub is_signer: bool,
}

/// What `callback_from_agent` does: the response passes through exactly when
/// the supplied identity is a verified signer of the call; otherwise the call
/// refuses with `AuthorizationError` and nothing else happens.
pub open spec fn callback_post(
    identity: CallerIdentity,
    response: Seq<char>,
    r: Result<String, CoreError>,
) -> bool {
    &&& (r is Ok <==> identity.is_signer)
    &&& match r {
        Ok(s) => s@ == response,
        Err(e) => e == CoreError::AuthorizationError,
    }
}

/// `callback_from_agent`: accepts the oracle's response only when the
/// supplied identity is itself a verified signer of the invocation, so that
/// no third party can impersonate the oracle service. On success the response
/// is handed onward unchanged; this core persists nothing of it.
pub fn callback_from_agent(identity: &CallerIdentity, response: String) -> (r: Result<
    String,
    CoreError,
>)
    ensures
        callback_post(*identity, response@, r),
{
    if !identity.is_signer {
        return Err(CoreError::AuthorizationError);
    }
    Ok(response)
}

/// The lifecycle of one interaction, as far as this core defines it.
#[derive(Clone, Copy, PartialEq, Eq, Structural, Debug)]
pub enum InteractionState {
    Created,
    PendingOracleResponse,
    Completed,
}

/// A created interaction becomes pending once its request is handed to the
/// oracle service.
pub fn submit_interaction(s: InteractionState) -> (t: InteractionState)
    requires
        s == InteractionState::Created,
    ensures
        t == InteractionState::PendingOracleResponse,
{
    InteractionState::PendingOracleResponse
}

/// A pending interaction is completed exactly by an accepted callback; a
/// refused callback leaves it pending, and one that never arrives leaves it
/// pending indefinitely — this core defines no timeout for that state.
pub fn interaction_after_callback(s: InteractionState, accepted: bool) -> (t: InteractionState)
    requires
        s == InteractionState::PendingOracleResponse,
    ensures
        t == if accepted {
            InteractionState::Completed
        } else {
            InteractionState::PendingOracleResponse
        },
{
    if accepted {
        InteractionState::Completed
    } else {
        InteractionState::PendingOracleResponse
    }
}

} // verus!
