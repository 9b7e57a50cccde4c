//! The agent registry as the commands see it: rows, states, and the requests
//! that are sent to it.

use crate::text::{same, text_of, texts};
use vstd::prelude::*;
use vstd::string::*;

verus! {

/// Where an agent stands in its life cycle.
#[derive(Debug, Clone, Copy, PartialEq, Eq, Structural)]
pub enum AgentState {
    Active,
    Suspended,
    Decommissioned,
}

impl AgentState {
    /// The state's name in requests, rows and flags.
    pub open spec fn wire(self) -> Seq<char> {
        match self {
            AgentState::Active => "active"@,
            AgentState::Suspended => "suspended"@,
            AgentState::Decommissioned => "decommissioned"@,
        }
    }

    /// The state's name in requests, rows and flags.
    pub fn as_wire(self) -> (r: &'static str)
        ensures
            r@ == self.wire(),
            self == AgentState::Active ==> r@ == "active"@,
            self == AgentState::Suspended ==> r@ == "suspended"@,
            self == AgentState::Decommissioned ==> r@ == "decommissioned"@,
    {
        match self {
            AgentState::Active => "active",
            AgentState::Suspended => "suspended",
            AgentState::Decommissioned => "decommissioned",
        }
    }

    /// The state of that name, if there is one.
    pub fn parse(s: &str) -> (r: Option<AgentState>)
        ensures
            match r {
                Some(state) => s@ == state.wire(),
                None => forall|state: AgentState| s@ != #[trigger] state.wire(),
            },
            s@ == "active"@ <==> r == Some(AgentState::Active),
            s@ == "suspended"@ <==> r == Some(AgentState::Suspended),
            s@ == "decommissioned"@ <==> r == Some(AgentState::Decommissioned),
    {
        proof {
            state_names_differ(AgentState::Active, AgentState::Suspended);
            state_names_differ(AgentState::Active, AgentState::Decommissioned);
            state_names_differ(AgentState::Suspended, AgentState::Decommissioned);
        }
        if same(s, "active") {
            assert(s@ == AgentState::Active.wire());
            Some(AgentState::Active)
        } else if same(s, "suspended") {
            assert(s@ == AgentState::Suspended.wire());
            Some(AgentState::Suspended)
        } else if same(s, "decommissioned") {
            assert(s@ == AgentState::Decommissioned.wire());
            Some(AgentState::Decommissioned)
        } else {
            None
        }
    }
}

/// No two states share a name.
pub proof fn state_names_differ(a: AgentState, b: AgentState)
    ensures
        a.wire() == b.wire() ==> a == b,
{
    reveal_strlit("active");
    reveal_strlit("suspended");
    reveal_strlit("decommissioned");
    assert("active"@.len() == 6);
    assert("suspended"@.len() == 9);
    assert("decommissioned"@.len() == 14);
}

/// One row of the registry.
#[derive(Debug)]
pub struct AgentRecord {
    pub id: String,
    pub tenant: String,
    pub agent_name: String,
    pub state: AgentState,
    pub scope_envelope: Vec<String>,
    pub yellow_envelope: Vec<String>,
    pub attestation_kinds_accepted: Vec<String>,
    pub created_by_sub: String,
    pub created_by_idp: String,
    pub owner_team: String,
    pub created_at: String,
    pub state_changed_at: String,
    pub state_changed_by: String,
    pub description: Option<String>,
}

/// What an [`AgentRecord`] holds.
pub struct AgentRecordView {
    pub id: Seq<char>,
    pub tenant: Seq<char>,
    pub agent_name: Seq<char>,
    pub state: AgentState,
    pub scope_envelope: Seq<Seq<char>>,
    pub yellow_envelope: Seq<Seq<char>>,
    pub attestation_kinds_accepted: Seq<Seq<char>>,
    pub created_by_sub: Seq<char>,
    pub created_by_idp: Seq<char>,
    pub owner_team: Seq<char>,
    pub created_at: Seq<char>,
    pub state_changed_at: Seq<char>,
    pub state_changed_by: Seq<char>,
    pub description: Option<Seq<char>>,
}

impl View for AgentRecord {
    type V = AgentRecordView;

    open spec fn view(&self) -> AgentRecordView {
        AgentRecordView {
            id: self.id@,
            tenant: self.tenant@,
            agent_name: self.agent_name@,
            state: self.state,
            scope_envelope: texts(self.scope_envelope@),
            yellow_envelope: texts(self.yellow_envelope@),
            attestation_kinds_accepted: texts(self.attestation_kinds_accepted@),
            created_by_sub: self.created_by_sub@,
            created_by_idp: self.created_by_idp@,
            owner_team: self.owner_team@,
            created_at: self.created_at@,
            state_changed_at: self.state_changed_at@,
            state_changed_by: self.state_changed_by@,
            description: text_of(self.description),
        }
    }
}

/// The views of a sequence of rows.
pub open spec fn rows_of(rows: Seq<AgentRecord>) -> Seq<AgentRecordView> {
    rows.map_values(|r: AgentRecord| r@)
}

/// Which rows a listing asks for.
#[derive(Debug)]
pub struct AgentListFilter {
    pub state: Option<AgentState>,
    pub owner_team: Option<String>,
}

/// A request to register an agent.
#[derive(Debug)]
pub struct CreateAgentRequest {
    pub tenant: String,
    pub agent_name: String,
    pub owner_team: String,
    pub scope_envelope: Vec<String>,
    pub yellow_envelope: Vec<String>,
    pub attestation_kinds: Vec<String>,
    pub description: Option<String>,
    /// On whose behalf the row is created; `None` leaves that to the caller's
    /// own token.
    pub actor_sub: Option<String>,
}

/// What a [`CreateAgentRequest`] holds.
pub struct CreateAgentRequestView {
    pub tenant: Seq<char>,
    pub agent_name: Seq<char>,
    pub owner_team: Seq<char>,
    pub scope_envelope: Seq<Seq<char>>,
    pub yellow_envelope: Seq<Seq<char>>,
    pub attestation_kinds: Seq<Seq<char>>,
    pub description: Option<Seq<char>>,
    pub actor_sub: Option<Seq<char>>,
}

impl View for CreateAgentRequest {
    type V = CreateAgentRequestView;

    open spec fn view(&self) -> CreateAgentRequestView {
        CreateAgentRequestView {
            tenant: self.tenant@,
            agent_name: self.agent_name@,
            owner_team: self.owner_team@,
            scope_envelope: texts(self.scope_envelope@),
            yellow_envelope: texts(self.yellow_envelope@),
            attestation_kinds: texts(self.attestation_kinds@),
            description: text_of(self.description),
            actor_sub: text_of(self.actor_sub),
        }
    }
}

/// The whole new envelope of an agent: it replaces the current one.
#[derive(Debug)]
pub struct EnvelopeRequest {
    pub scope_envelope: Vec<String>,
    pub yellow_envelope: Vec<String>,
}

/// A row is seen as it is, member by member.
pub proof fn rows_are_seen_whole(row: AgentRecord)
    ensures
        row@.id == row.id@,
        row@.tenant == row.tenant@,
        row@.agent_name == row.agent_name@,
        row@.state == row.state,
        row@.scope_envelope == texts(row.scope_envelope@),
        row@.yellow_envelope == texts(row.yellow_envelope@),
        row@.attestation_kinds_accepted == texts(row.attestation_kinds_accepted@),
        row@.created_by_sub == row.created_by_sub@,
        row@.created_by_idp == row.created_by_idp@,
        row@.owner_team == row.owner_team@,
        row@.created_at == row.created_at@,
        row@.state_changed_at == row.state_changed_at@,
        row@.state_changed_by == row.state_changed_by@,
        row@.description is Some <==> row.description is Some,
        row.description is Some ==> row@.description == Some(row.description->0@),
{
}

/// A request is seen as it is, member by member.
pub proof fn requests_are_seen_whole(request: CreateAgentRequest)
    ensures
        request@.tenant == request.tenant@,
        request@.agent_name == request.agent_name@,
        request@.owner_team == request.owner_team@,
        request@.scope_envelope == texts(request.scope_envelope@),
        request@.yellow_envelope == texts(request.yellow_envelope@),
        request@.attestation_kinds == texts(request.attestation_kinds@),
        request@.description is Some <==> request.description is Some,
        request.description is Some ==> request@.description == Some(request.description->0@),
        request@.actor_sub is Some <==> request.actor_sub is Some,
        request.actor_sub is Some ==> request@.actor_sub == Some(request.actor_sub->0@),
{
}

/// Rows are seen in their order, none left out.
pub proof fn rows_are_seen_in_order(rows: Seq<AgentRecord>, i: int)
    requires
        0 <= i < rows.len(),
    ensures
        rows_of(rows).len() == rows.len(),
        rows_of(rows)[i] == rows[i]@,
{
}

} // verus!
