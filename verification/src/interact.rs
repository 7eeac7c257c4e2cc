//! The interaction initiator: sends one immediate query to the oracle
//! service on behalf of the agent.

use vstd::prelude::*;

use crate::addr::Addr;
use crate::addr::PROGRAM_ID;
use crate::addr::addr_eq;
use crate::addr::program_id;
use crate::errors::CoreError;
use crate::ixdata::CALLBACK_FROM_AGENT_TAG;
use crate::registry::Agent;

verus! {

/// One request to the oracle service's "interact" operation: the query text,
/// the accounts the exchange uses, and where the callback is to land.
#[derive(PartialEq, Eq, Debug)]
pub struct OracleRequest {
    pub payer: Addr,
    pub interaction: Addr,
    pub context_account: Addr,
    pub text: String,
    pub callback_program: Addr,
    pub callback_tag: [u8; 8],
}

/// What `interact_agent` does: any text, the empty string included, is
/// forwarded as-is to the context the agent is bound to, with this program
/// and its callback selector named as the response's destination; a supplied
/// context other than the agent's refuses before any delegated call, with
/// `ContextMismatch`.
pub open spec fn interact_post(
    agent: Agent,
    context_account: Addr,
    payer: Addr,
    interaction: Addr,
    text: Seq<char>,
    r: Result<OracleRequest, CoreError>,
) -> bool {
    &&& (r is Ok <==> context_account@ == agent.context@)
    &&& match r {
        Ok(q) => {
            &&& q.payer == payer
            &&& q.interaction == interaction
            &&& q.context_account@ == agent.context@
            &&& q.text@ == text
            &&& q.callback_program@ == PROGRAM_ID@
            &&& q.callback_tag == CALLBACK_FROM_AGENT_TAG
        },
        Err(e) => e == CoreError::ContextMismatch,
    }
}

/// `interact_agent`: builds the delegated "interact" request for the oracle
/// service — a fresh ephemeral interaction, the caller's text unvalidated and
/// unchanged, and this program's callback entry point as the reply address.
pub fn interact_agent(
    agent: &Agent,
    context_account: Addr,
    payer: Addr,
    interaction: Addr,
    text: String,
) -> (r: Result<OracleRequest, CoreError>)
    ensures
        interact_post(*agent, context_account, payer, interaction, text@, r),
{
    if !addr_eq(&context_account, &agent.context) {
        return Err(CoreError::ContextMismatch);
    }
    Ok(
        OracleRequest {
            payer,
            interaction,
            context_account,
            text,
            callback_program: program_id(),
            callback_tag: CALLBACK_FROM_AGENT_TAG,
        },
    )
}

} // verus!
