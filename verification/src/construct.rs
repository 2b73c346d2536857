//! The five-phase onboarding flow:
//!
//! 1. **SelfDeclaration** — the agent declares its identity, model, and capabilities.
//! 2. **ModuleSelection** — pick modules from the registry to adopt.
//! 3. **InterfaceSelection** — choose interface preferences (CLI, TUI, API, etc.).
//! 4. **ConnectionSetup** — configure external connections (APIs, databases, services).
//! 5. **EnvironmentGeneration** — produce the final `OnboardingConfig`.

use std::collections::HashMap;

use vstd::prelude::*;

use crate::registry::{copy_modules, copy_strings, module_views, str_views, ModuleShadow};

verus! {

/// The five onboarding phases.
#[derive(Debug, Clone, Copy, PartialEq, Eq, Structural)]
pub enum Phase {
    /// Phase 1: Agent self-declares its identity and capabilities.
    SelfDeclaration,
    /// Phase 2: Select modules from the registry.
    ModuleSelection,
    /// Phase 3: Choose interface preferences.
    InterfaceSelection,
    /// Phase 4: Set up external connections.
    ConnectionSetup,
    /// Phase 5: Generate the final environment configuration.
    EnvironmentGeneration,
}

/// The phases in the order in which an onboarding session passes through them.
pub open spec fn phase_order() -> Seq<Phase> {
    seq![
        Phase::SelfDeclaration,
        Phase::ModuleSelection,
        Phase::InterfaceSelection,
        Phase::ConnectionSetup,
        Phase::EnvironmentGeneration,
    ]
}

/// The phase that follows `p`, if any.
pub open spec fn following_phase(p: Phase) -> Option<Phase> {
    match p {
        Phase::SelfDeclaration => Some(Phase::ModuleSelection),
        Phase::ModuleSelection => Some(Phase::InterfaceSelection),
        Phase::InterfaceSelection => Some(Phase::ConnectionSetup),
        Phase::ConnectionSetup => Some(Phase::EnvironmentGeneration),
        Phase::EnvironmentGeneration => None,
    }
}

impl Phase {
    /// Return all phases in order.
    pub fn all() -> (r: &'static [Phase])
        ensures
            r@ == phase_order(),
    {
        &[
            Phase::SelfDeclaration,
            Phase::ModuleSelection,
            Phase::InterfaceSelection,
            Phase::ConnectionSetup,
            Phase::EnvironmentGeneration,
        ]
    }

    /// Advance to the next phase, returning `None` if already at the end.
    pub fn next(self) -> (r: Option<Phase>)
        ensures
            r == following_phase(self),
    {
        match self {
            Phase::SelfDeclaration => Some(Phase::ModuleSelection),
            Phase::ModuleSelection => Some(Phase::InterfaceSelection),
            Phase::InterfaceSelection => Some(Phase::ConnectionSetup),
            Phase::ConnectionSetup => Some(Phase::EnvironmentGeneration),
            Phase::EnvironmentGeneration => None,
        }
    }
}

/// Each phase of `all()` but the last is followed by the next one in that
/// list, and the last has no successor: `next` walks the phases in order.
pub proof fn law_next_walks_phase_order()
    ensures
        forall|i: int| 0 <= i < phase_order().len() - 1 ==> following_phase(#[trigger] phase_order()[i]) == Some(phase_order()[i + 1]),
        following_phase(phase_order().last()) is None,
        phase_order().no_duplicates(),
        forall|p: Phase| #[trigger] phase_order().contains(p),
{
    assert forall|p: Phase| #[trigger] phase_order().contains(p) by {
        match p {
            Phase::SelfDeclaration => assert(phase_order()[0] == p),
            Phase::ModuleSelection => assert(phase_order()[1] == p),
            Phase::InterfaceSelection => assert(phase_order()[2] == p),
            Phase::ConnectionSetup => assert(phase_order()[3] == p),
            Phase::EnvironmentGeneration => assert(phase_order()[4] == p),
        }
    }
}

/// How the agent identifies itself during onboarding.
#[derive(Debug, Clone, PartialEq)]
pub struct AgentIdentity {
    /// Chosen name for the agent.
    pub name: String,
    /// Underlying model identifier.
    pub model: String,
    /// Declared capabilities (e.g. `"code-generation"`, `"web-search"`).
    pub capabilities: Vec<String>,
    /// Tools the agent has access to.
    pub tools: Vec<String>,
    /// Self-imposed constraints (e.g. `"no-filesystem-write"`).
    pub constraints: Vec<String>,
    /// Preference hints (e.g. `"terse-output"`, `"structured-logging"`).
    pub preferences: Vec<String>,
}

/// The model of an agent identity: every field taken by its character sequences.
#[verifier::ext_equal]
pub struct IdentityView {
    pub name: Seq<char>,
    pub model: Seq<char>,
    pub capabilities: Seq<Seq<char>>,
    pub tools: Seq<Seq<char>>,
    pub constraints: Seq<Seq<char>>,
    pub preferences: Seq<Seq<char>>,
}

impl View for AgentIdentity {
    type V = IdentityView;

    open spec fn view(&self) -> IdentityView {
        IdentityView {
            name: self.name@,
            model: self.model@,
            capabilities: str_views(self.capabilities@),
            tools: str_views(self.tools@),
            constraints: str_views(self.constraints@),
            preferences: str_views(self.preferences@),
        }
    }
}

impl AgentIdentity {
    /// A copy of this identity with the same contents.
    pub fn duplicate(&self) -> (r: AgentIdentity)
        ensures
            r@ == self@,
    {
        AgentIdentity {
            name: self.name.clone(),
            model: self.model.clone(),
            capabilities: copy_strings(self.capabilities.as_slice()),
            tools: copy_strings(self.tools.as_slice()),
            constraints: copy_strings(self.constraints.as_slice()),
            preferences: copy_strings(self.preferences.as_slice()),
        }
    }
}

/// An external connection configured during Phase 4.
#[derive(Debug, Clone, PartialEq)]
pub struct Connection {
    /// Connection label (e.g. `"github"`, `"postgres"`).
    pub label: String,
    /// Connection type (e.g. `"api"`, `"database"`, `"messaging"`).
    pub kind: String,
    /// Connection URI or endpoint.
    pub endpoint: String,
    /// Additional metadata.
    pub metadata: HashMap<String, String>,
}

/// Interface preferences selected during Phase 3.
#[derive(Debug, Clone, PartialEq)]
pub struct InterfacePreferences {
    /// Preferred primary interface (e.g. `"cli"`, `"tui"`, `"api"`, `"discord"`).
    pub primary: String,
    /// Secondary / fallback interfaces.
    pub secondary: Vec<String>,
    /// Output format preference (e.g. `"json"`, `"markdown"`, `"plain"`).
    pub output_format: String,
    /// Whether to enable verbose logging.
    pub verbose: bool,
}

/// An onboarding session tracking progress through the five phases.
#[derive(Debug, Clone)]
pub struct OnboardingSession {
    /// Unique session identifier.
    pub session_id: String,
    /// Current phase.
    pub phase: Phase,
    /// Agent identity (set during Phase 1).
    pub agent_identity: Option<AgentIdentity>,
    /// Selected modules (set during Phase 2).
    pub selected_modules: Vec<ModuleShadow>,
    /// Interface preferences (set during Phase 3).
    pub interface_prefs: Option<InterfacePreferences>,
    /// Configured connections (set during Phase 4).
    pub connections: Vec<Connection>,
}

/// Why a session cannot leave its current phase, if it cannot.
pub open spec fn advance_error(s: OnboardingSession) -> Option<Seq<char>> {
    if following_phase(s.phase) is None {
        Some("already at the final phase"@)
    } else if s.phase == Phase::SelfDeclaration && s.agent_identity is None {
        Some("agent identity must be set before leaving SelfDeclaration"@)
    } else if s.phase == Phase::InterfaceSelection && s.interface_prefs is None {
        Some("interface preferences must be set before leaving InterfaceSelection"@)
    } else {
        None
    }
}

impl OnboardingSession {
    /// Create a new session at the start of Phase 1.
    pub fn new(session_id: String) -> (r: Self)
        ensures
            r.session_id == session_id,
            r.phase == Phase::SelfDeclaration,
            r.agent_identity is None,
            r.selected_modules@.len() == 0,
            r.interface_prefs is None,
            r.connections@.len() == 0,
    {
        OnboardingSession {
            session_id,
            phase: Phase::SelfDeclaration,
            agent_identity: None,
            selected_modules: Vec::new(),
            interface_prefs: None,
            connections: Vec::new(),
        }
    }

    /// Advance to the next phase.
    ///
    /// Returns `Ok(())` if advanced, or an error string if there is no next
    /// phase or required data is missing.
    pub fn advance(&mut self) -> (r: Result<(), String>)
        ensures
            r is Ok <==> advance_error(*old(self)) is None,
            final(self).phase == old(self).phase || following_phase(old(self).phase) == Some(final(self).phase),
            match r {
                Ok(()) => {
                    &&& following_phase(old(self).phase) == Some(final(self).phase)
                    &&& final(self).session_id == old(self).session_id
                    &&& final(self).agent_identity == old(self).agent_identity
                    &&& final(self).selected_modules == old(self).selected_modules
                    &&& final(self).interface_prefs == old(self).interface_prefs
                    &&& final(self).connections == old(self).connections
                },
                Err(msg) => {
                    &&& *final(self) == *old(self)
                    &&& advance_error(*old(self)) == Some(msg@)
                },
            },
    {
        let next = match self.phase.next() {
            Some(p) => p,
            None => {
                return Err("already at the final phase".to_owned());
            },
        };
        match self.phase {
            Phase::SelfDeclaration => {
                if self.agent_identity.is_none() {
                    return Err("agent identity must be set before leaving SelfDeclaration".to_owned());
                }
            },
            Phase::ModuleSelection => {},
            Phase::InterfaceSelection => {
                if self.interface_prefs.is_none() {
                    return Err(
                        "interface preferences must be set before leaving InterfaceSelection".to_owned(),
                    );
                }
            },
            Phase::ConnectionSetup => {},
            Phase::EnvironmentGeneration => {},
        }
        self.phase = next;
        Ok(())
    }
}

/// `serde_json::Value`, a JSON document.  The library carries such a value
/// through unchanged and reads nothing inside it.
#[verifier::external_type_specification]
#[verifier::external_body]
pub struct ExJsonValue(serde_json::Value);

/// The final output of a completed onboarding session.
#[derive(Debug)]
pub struct OnboardingConfig {
    /// The agent identity card.
    pub agent_card: AgentIdentity,
    /// Selected modules (with dependencies resolved).
    pub modules: Vec<ModuleShadow>,
    /// Workspace configuration blob (serialized JSON).
    pub workspace_config: serde_json::Value,
    /// Policy constraints derived from the agent identity.
    pub policies: Vec<String>,
}

impl OnboardingConfig {
    /// Build an `OnboardingConfig` from a completed session plus workspace
    /// config and policies.
    pub fn from_session(session: &OnboardingSession, workspace_config: serde_json::Value, policies: Vec<String>) -> (r: Result<Self, String>)
        ensures
            r is Ok <==> session.agent_identity is Some,
            match r {
                Ok(c) => {
                    &&& c.agent_card@ == session.agent_identity->0@
                    &&& module_views(c.modules@) == module_views(session.selected_modules@)
                    &&& c.workspace_config == workspace_config
                    &&& c.policies == policies
                },
                Err(msg) => msg@ == "session missing agent identity"@,
            },
    {
        let agent_card = match &session.agent_identity {
            Some(identity) => identity.duplicate(),
            None => {
                return Err("session missing agent identity".to_owned());
            },
        };
        Ok(OnboardingConfig {
            agent_card,
            modules: copy_modules(&session.selected_modules),
            workspace_config,
            policies,
        })
    }
}

} // verus!
