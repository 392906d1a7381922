//! The tile kinds and lifecycle states, with their stored names.

use vstd::prelude::*;

use crate::text::same_text;

verus! {

/// Tile type classification.
#[derive(Debug, Clone, Copy, PartialEq, Eq, Structural, Hash)]
pub enum TileType {
    Observation,
    Action,
    Thought,
    Delegation,
    Escalation,
    Artifact,
    System,
    Onboarding,
    StandDown,
}

/// The name under which a tile type is stored.
pub open spec fn tile_type_name(t: TileType) -> Seq<char> {
    match t {
        TileType::Observation => "observation"@,
        TileType::Action => "action"@,
        TileType::Thought => "thought"@,
        TileType::Delegation => "delegation"@,
        TileType::Escalation => "escalation"@,
        TileType::Artifact => "artifact"@,
        TileType::System => "system"@,
        TileType::Onboarding => "onboarding"@,
        TileType::StandDown => "stand_down"@,
    }
}

/// The tile type whose stored name is `s`, if any.
pub open spec fn tile_type_from_name(s: Seq<char>) -> Option<TileType> {
    if s == "observation"@ {
        Some(TileType::Observation)
    } else if s == "action"@ {
        Some(TileType::Action)
    } else if s == "thought"@ {
        Some(TileType::Thought)
    } else if s == "delegation"@ {
        Some(TileType::Delegation)
    } else if s == "escalation"@ {
        Some(TileType::Escalation)
    } else if s == "artifact"@ {
        Some(TileType::Artifact)
    } else if s == "system"@ {
        Some(TileType::System)
    } else if s == "onboarding"@ {
        Some(TileType::Onboarding)
    } else if s == "stand_down"@ {
        Some(TileType::StandDown)
    } else {
        None
    }
}

/// Every tile type, in declaration order.
pub open spec fn all_tile_types() -> Seq<TileType> {
    seq![
        TileType::Observation,
        TileType::Action,
        TileType::Thought,
        TileType::Delegation,
        TileType::Escalation,
        TileType::Artifact,
        TileType::System,
        TileType::Onboarding,
        TileType::StandDown,
    ]
}

impl TileType {
    pub fn as_str(&self) -> (res: &'static str)
        ensures
            res@ == tile_type_name(*self),
    {
        match self {
            TileType::Observation => "observation",
            TileType::Action => "action",
            TileType::Thought => "thought",
            TileType::Delegation => "delegation",
            TileType::Escalation => "escalation",
            TileType::Artifact => "artifact",
            TileType::System => "system",
            TileType::Onboarding => "onboarding",
            TileType::StandDown => "stand_down",
        }
    }

    pub fn parse(s: &str) -> (res: Option<TileType>)
        ensures
            res == tile_type_from_name(s@),
    {
        if same_text(s, "observation") {
            Some(TileType::Observation)
        } else if same_text(s, "action") {
            Some(TileType::Action)
        } else if same_text(s, "thought") {
            Some(TileType::Thought)
        } else if same_text(s, "delegation") {
            Some(TileType::Delegation)
        } else if same_text(s, "escalation") {
            Some(TileType::Escalation)
        } else if same_text(s, "artifact") {
            Some(TileType::Artifact)
        } else if same_text(s, "system") {
            Some(TileType::System)
        } else if same_text(s, "onboarding") {
            Some(TileType::Onboarding)
        } else if same_text(s, "stand_down") {
            Some(TileType::StandDown)
        } else {
            None
        }
    }

    pub fn all() -> (res: Vec<TileType>)
        ensures
            res@ == all_tile_types(),
    {
        vec![
            TileType::Observation,
            TileType::Action,
            TileType::Thought,
            TileType::Delegation,
            TileType::Escalation,
            TileType::Artifact,
            TileType::System,
            TileType::Onboarding,
            TileType::StandDown,
        ]
    }

    /// The text that displays the tile type: its stored name.
    pub fn to_string(&self) -> (res: String)
        ensures
            res@ == tile_type_name(*self),
    {
        String::from_str(self.as_str())
    }
}

/// Tile lifecycle status.
#[derive(Debug, Clone, Copy, PartialEq, Eq, Structural, Hash)]
pub enum TileStatus {
    Active,
    Complete,
    Deadband,
    Escalated,
    Archived,
    Orphaned,
}

/// The name under which a status is stored.
pub open spec fn status_name(s: TileStatus) -> Seq<char> {
    match s {
        TileStatus::Active => "active"@,
        TileStatus::Complete => "complete"@,
        TileStatus::Deadband => "deadband"@,
        TileStatus::Escalated => "escalated"@,
        TileStatus::Archived => "archived"@,
        TileStatus::Orphaned => "orphaned"@,
    }
}

/// The status whose stored name is `s`, if any.
pub open spec fn status_from_name(s: Seq<char>) -> Option<TileStatus> {
    if s == "active"@ {
        Some(TileStatus::Active)
    } else if s == "complete"@ {
        Some(TileStatus::Complete)
    } else if s == "deadband"@ {
        Some(TileStatus::Deadband)
    } else if s == "escalated"@ {
        Some(TileStatus::Escalated)
    } else if s == "archived"@ {
        Some(TileStatus::Archived)
    } else if s == "orphaned"@ {
        Some(TileStatus::Orphaned)
    } else {
        None
    }
}

/// A status that ends a tile's lifecycle.
pub open spec fn status_is_terminal(s: TileStatus) -> bool {
    s == TileStatus::Complete || s == TileStatus::Archived || s == TileStatus::Orphaned
}

impl TileStatus {
    pub fn as_str(&self) -> (res: &'static str)
        ensures
            res@ == status_name(*self),
    {
        match self {
            TileStatus::Active => "active",
            TileStatus::Complete => "complete",
            TileStatus::Deadband => "deadband",
            TileStatus::Escalated => "escalated",
            TileStatus::Archived => "archived",
            TileStatus::Orphaned => "orphaned",
        }
    }

    pub fn parse(s: &str) -> (res: Option<TileStatus>)
        ensures
            res == status_from_name(s@),
    {
        if same_text(s, "active") {
            Some(TileStatus::Active)
        } else if same_text(s, "complete") {
            Some(TileStatus::Complete)
        } else if same_text(s, "deadband") {
            Some(TileStatus::Deadband)
        } else if same_text(s, "escalated") {
            Some(TileStatus::Escalated)
        } else if same_text(s, "archived") {
            Some(TileStatus::Archived)
        } else if same_text(s, "orphaned") {
            Some(TileStatus::Orphaned)
        } else {
            None
        }
    }

    pub fn is_terminal(&self) -> (res: bool)
        ensures
            res == status_is_terminal(*self),
    {
        match self {
            TileStatus::Complete | TileStatus::Archived | TileStatus::Orphaned => true,
            _ => false,
        }
    }

    /// The text that displays the status: its stored name.
    pub fn to_string(&self) -> (res: String)
        ensures
            res@ == status_name(*self),
    {
        String::from_str(self.as_str())
    }
}

impl Default for TileStatus {
    fn default() -> (res: TileStatus)
        ensures
            res == TileStatus::Active,
    {
        TileStatus::Active
    }
}

/// The stored names of the tile types are pairwise distinct: each has a
/// different first character or a different length.
proof fn lemma_tile_type_names_distinct()
    ensures
        forall|a: TileType, b: TileType|
            #[trigger] tile_type_name(a) == #[trigger] tile_type_name(b) ==> a == b,
{
    reveal_strlit("observation");
    reveal_strlit("action");
    reveal_strlit("thought");
    reveal_strlit("delegation");
    reveal_strlit("escalation");
    reveal_strlit("artifact");
    reveal_strlit("system");
    reveal_strlit("onboarding");
    reveal_strlit("stand_down");
    assert forall|a: TileType, b: TileType|
        #[trigger] tile_type_name(a) == #[trigger] tile_type_name(b) implies a == b by {
        assert(tile_type_name(a)[0] == tile_type_name(b)[0]);
        assert(tile_type_name(a).len() == tile_type_name(b).len());
    }
}

/// Parsing a tile type's stored name gives that tile type back, and only a
/// stored name parses: `parse(s) == Some(t)` exactly when `s` is `t`'s name.
pub proof fn law_tile_type_name_roundtrip(t: TileType, s: Seq<char>)
    ensures
        tile_type_from_name(tile_type_name(t)) == Some(t),
        tile_type_from_name(s) == Some(t) <==> s == tile_type_name(t),
{
    lemma_tile_type_names_distinct();
    let n = tile_type_name(t);
    assert(n == tile_type_name(TileType::Observation) ==> t == TileType::Observation);
    assert(n == tile_type_name(TileType::Action) ==> t == TileType::Action);
    assert(n == tile_type_name(TileType::Thought) ==> t == TileType::Thought);
    assert(n == tile_type_name(TileType::Delegation) ==> t == TileType::Delegation);
    assert(n == tile_type_name(TileType::Escalation) ==> t == TileType::Escalation);
    assert(n == tile_type_name(TileType::Artifact) ==> t == TileType::Artifact);
    assert(n == tile_type_name(TileType::System) ==> t == TileType::System);
    assert(n == tile_type_name(TileType::Onboarding) ==> t == TileType::Onboarding);
}

/// The stored names of the statuses are pairwise distinct: each has a
/// different first character or a different length.
proof fn lemma_status_names_distinct()
    ensures
        forall|a: TileStatus, b: TileStatus|
            #[trigger] status_name(a) == #[trigger] status_name(b) ==> a == b,
{
    reveal_strlit("active");
    reveal_strlit("complete");
    reveal_strlit("deadband");
    reveal_strlit("escalated");
    reveal_strlit("archived");
    reveal_strlit("orphaned");
    assert forall|a: TileStatus, b: TileStatus|
        #[trigger] status_name(a) == #[trigger] status_name(b) implies a == b by {
        assert(status_name(a)[0] == status_name(b)[0]);
        assert(status_name(a).len() == status_name(b).len());
    }
}

/// Parsing a status's stored name gives that status back, and only a stored
/// name parses: `parse(s) == Some(st)` exactly when `s` is `st`'s name.
pub proof fn law_status_name_roundtrip(st: TileStatus, s: Seq<char>)
    ensures
        status_from_name(status_name(st)) == Some(st),
        status_from_name(s) == Some(st) <==> s == status_name(st),
{
    lemma_status_names_distinct();
    let n = status_name(st);
    assert(n == status_name(TileStatus::Active) ==> st == TileStatus::Active);
    assert(n == status_name(TileStatus::Complete) ==> st == TileStatus::Complete);
    assert(n == status_name(TileStatus::Deadband) ==> st == TileStatus::Deadband);
    assert(n == status_name(TileStatus::Escalated) ==> st == TileStatus::Escalated);
    assert(n == status_name(TileStatus::Archived) ==> st == TileStatus::Archived);
}
/// `all` lists every tile type exactly once.
pub proof fn law_all_tile_types_complete(t: TileType)
    ensures
        all_tile_types().contains(t),
        all_tile_types().no_duplicates(),
        all_tile_types().len() == 9,
{
    let s = all_tile_types();
    match t {
        TileType::Observation => assert(s[0] == t),
        TileType::Action => assert(s[1] == t),
        TileType::Thought => assert(s[2] == t),
        TileType::Delegation => assert(s[3] == t),
        TileType::Escalation => assert(s[4] == t),
        TileType::Artifact => assert(s[5] == t),
        TileType::System => assert(s[6] == t),
        TileType::Onboarding => assert(s[7] == t),
        TileType::StandDown => assert(s[8] == t),
    }
}

/// Each tile type is stored under its own snake_case name, and parsing
/// that name gives the type back.
pub proof fn law_tile_type_names()
    ensures
        tile_type_name(TileType::Observation) == "observation"@,
        tile_type_name(TileType::Action) == "action"@,
        tile_type_name(TileType::Thought) == "thought"@,
        tile_type_name(TileType::Delegation) == "delegation"@,
        tile_type_name(TileType::Escalation) == "escalation"@,
        tile_type_name(TileType::Artifact) == "artifact"@,
        tile_type_name(TileType::System) == "system"@,
        tile_type_name(TileType::Onboarding) == "onboarding"@,
        tile_type_name(TileType::StandDown) == "stand_down"@,
        tile_type_from_name("observation"@) == Some(TileType::Observation),
        tile_type_from_name("action"@) == Some(TileType::Action),
        tile_type_from_name("thought"@) == Some(TileType::Thought),
        tile_type_from_name("delegation"@) == Some(TileType::Delegation),
        tile_type_from_name("escalation"@) == Some(TileType::Escalation),
        tile_type_from_name("artifact"@) == Some(TileType::Artifact),
        tile_type_from_name("system"@) == Some(TileType::System),
        tile_type_from_name("onboarding"@) == Some(TileType::Onboarding),
        tile_type_from_name("stand_down"@) == Some(TileType::StandDown),
{
    law_tile_type_name_roundtrip(TileType::Observation, "observation"@);
    law_tile_type_name_roundtrip(TileType::Action, "action"@);
    law_tile_type_name_roundtrip(TileType::Thought, "thought"@);
    law_tile_type_name_roundtrip(TileType::Delegation, "delegation"@);
    law_tile_type_name_roundtrip(TileType::Escalation, "escalation"@);
    law_tile_type_name_roundtrip(TileType::Artifact, "artifact"@);
    law_tile_type_name_roundtrip(TileType::System, "system"@);
    law_tile_type_name_roundtrip(TileType::Onboarding, "onboarding"@);
    law_tile_type_name_roundtrip(TileType::StandDown, "stand_down"@);
}

/// Each status is stored under its own lowercase name, and parsing that
/// name gives the status back.
pub proof fn law_status_names()
    ensures
        status_name(TileStatus::Active) == "active"@,
        status_name(TileStatus::Complete) == "complete"@,
        status_name(TileStatus::Deadband) == "deadband"@,
        status_name(TileStatus::Escalated) == "escalated"@,
        status_name(TileStatus::Archived) == "archived"@,
        status_name(TileStatus::Orphaned) == "orphaned"@,
        status_from_name("active"@) == Some(TileStatus::Active),
        status_from_name("complete"@) == Some(TileStatus::Complete),
        status_from_name("deadband"@) == Some(TileStatus::Deadband),
        status_from_name("escalated"@) == Some(TileStatus::Escalated),
        status_from_name("archived"@) == Some(TileStatus::Archived),
        status_from_name("orphaned"@) == Some(TileStatus::Orphaned),
{
    law_status_name_roundtrip(TileStatus::Active, "active"@);
    law_status_name_roundtrip(TileStatus::Complete, "complete"@);
    law_status_name_roundtrip(TileStatus::Deadband, "deadband"@);
    law_status_name_roundtrip(TileStatus::Escalated, "escalated"@);
    law_status_name_roundtrip(TileStatus::Archived, "archived"@);
    law_status_name_roundtrip(TileStatus::Orphaned, "orphaned"@);
}

/// The terminal statuses are exactly Complete, Archived and Orphaned;
/// Active, Deadband and Escalated are not terminal.
pub proof fn law_terminal_statuses(s: TileStatus)
    ensures
        status_is_terminal(s) <==> (s == TileStatus::Complete || s == TileStatus::Archived || s
            == TileStatus::Orphaned),
        !status_is_terminal(TileStatus::Active),
        !status_is_terminal(TileStatus::Deadband),
        !status_is_terminal(TileStatus::Escalated),
        status_is_terminal(TileStatus::Complete),
        status_is_terminal(TileStatus::Archived),
        status_is_terminal(TileStatus::Orphaned),
{
}

} // verus!
