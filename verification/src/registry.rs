//! The agent registry: the single, write-once binding between this
//! deployment and one conversation context.

use vstd::prelude::*;

use crate::addr::Addr;
use crate::errors::CoreError;

verus! {

/// The singleton agent record: it holds nothing but the reference to the
/// conversation context it is bound to, immutable once written.
#[derive(Clone, Copy, PartialEq, Eq, Debug)]
pub struct Agent {
    pub context: Addr,
}

/// The request handed to the oracle service to create the agent's context,
/// produced by a successful initialization.
#[derive(PartialEq, Eq, Debug)]
pub struct CreateContextRequest {
    pub payer: Addr,
    pub context_account: Addr,
    pub description: String,
}

/// The description the agent's context is created with.
pub open spec fn agent_description() -> Seq<char> {
    "You are a helpful assistant."@
}

/// The deployment's fixed agent slot, keyed by the well-known agent seed:
/// empty until initialization, then holding the one agent ever created.
pub struct Registry {
    agent: Option<Agent>,
}

/// What `initialize` does: it succeeds exactly on an empty registry, binds
/// the agent to the chosen context, and asks the oracle service to create
/// that context; a second attempt refuses with `AlreadyInitialized` and
/// changes nothing.
pub open spec fn initialize_post(
    pre: Registry,
    post: Registry,
    payer: Addr,
    llm_context: Addr,
    r: Result<CreateContextRequest, CoreError>,
) -> bool {
    &&& (r is Ok <==> pre.agent_spec() is None)
    &&& match r {
        Ok(req) => {
            &&& post.agent_spec() == Some(Agent { context: llm_context })
            &&& req.payer == payer
            &&& req.context_account == llm_context
            &&& req.description@ == agent_description()
        },
        Err(e) => {
            &&& e == CoreError::AlreadyInitialized
            &&& post.agent_spec() == pre.agent_spec()
        },
    }
}

impl Registry {
    /// The agent as the registry holds it.
    pub closed spec fn agent_spec(&self) -> Option<Agent> {
        self.agent
    }

    /// An empty registry: the deployment before initialization.
    pub fn new() -> (r: Registry)
        ensures
            r.agent_spec() is None,
    {
        Registry { agent: None }
    }

    /// Whether the singleton agent exists yet.
    pub fn is_initialized(&self) -> (r: bool)
        ensures
            r == (self.agent_spec() is Some),
    {
        match self.agent {
            Some(_) => true,
            None => false,
        }
    }

    /// The agent, readable once created.
    pub fn agent(&self) -> (r: Option<&Agent>)
        ensures
            match r {
                Some(a) => self.agent_spec() == Some(*a),
                None => self.agent_spec() is None,
            },
    {
        self.agent.as_ref()
    }

    /// `initialize`: creates the singleton agent bound to the freshly chosen
    /// context and returns the delegated request that creates that context at
    /// the oracle service. Write-once: refuses with `AlreadyInitialized` when
    /// the agent already exists, leaving the registry unchanged.
    pub fn initialize(&mut self, payer: Addr, llm_context: Addr) -> (r: Result<
        CreateContextRequest,
        CoreError,
    >)
        ensures
            initialize_post(*old(self), *final(self), payer, llm_context, r),
    {
        if self.is_initialized() {
            return Err(CoreError::AlreadyInitialized);
        }
        self.agent = Some(Agent { context: llm_context });
        Ok(
            CreateContextRequest {
                payer,
                context_account: llm_context,
                description: "You are a helpful assistant.".to_owned(),
            },
        )
    }
}

/// The registry is write-once: once an initialization has succeeded, every
/// further attempt refuses with `AlreadyInitialized` and leaves the registry
/// as it was — exactly one agent is ever created.
pub proof fn lemma_initialize_once(
    s0: Registry,
    s1: Registry,
    s2: Registry,
    payer1: Addr,
    ctx1: Addr,
    payer2: Addr,
    ctx2: Addr,
    r1: Result<CreateContextRequest, CoreError>,
    r2: Result<CreateContextRequest, CoreError>,
)
    requires
        initialize_post(s0, s1, payer1, ctx1, r1),
        r1 is Ok,
        initialize_post(s1, s2, payer2, ctx2, r2),
    ensures
        r2 matches Err(e) && e == CoreError::AlreadyInitialized,
        s2.agent_spec() == s1.agent_spec(),
{
}

} // verus!
