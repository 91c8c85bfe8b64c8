//! The lifecycle flag of a module and its textual form.

use vstd::prelude::*;

verus! {

/// Lifecycle flag of a module. Only `Started` modules are dispatched.
#[derive(Debug, Clone, Copy, PartialEq, Eq, Structural, Hash)]
pub enum ModuleState {
    NotStarted,
    Started,
    Stopped,
}

/// The text given to a state name that is none of the three literal names.
#[derive(Debug, Clone, Copy, PartialEq, Eq, Structural)]
pub struct InvalidModuleState;

/// The literal name under which a state is stored.
pub open spec fn state_name(state: ModuleState) -> Seq<char> {
    match state {
        ModuleState::NotStarted => "NotStarted"@,
        ModuleState::Started => "Started"@,
        ModuleState::Stopped => "Stopped"@,
    }
}

/// The state that a stored name stands for, if it is one of the three names.
pub open spec fn parse_state(text: Seq<char>) -> Option<ModuleState> {
    if text == "NotStarted"@ {
        Some(ModuleState::NotStarted)
    } else if text == "Started"@ {
        Some(ModuleState::Started)
    } else if text == "Stopped"@ {
        Some(ModuleState::Stopped)
    } else {
        None
    }
}

/// Reading back the name of a state gives that state: the three names are
/// pairwise different.
pub proof fn law_state_name_round_trip(state: ModuleState)
    ensures
        parse_state(state_name(state)) == Some(state),
{
    reveal_strlit("NotStarted");
    reveal_strlit("Started");
    reveal_strlit("Stopped");
    assert("Started"@[3] != "Stopped"@[3]);
}

/// A name is accepted only if it is the name of the state it yields.
pub proof fn law_parse_state_is_inverse(text: Seq<char>)
    ensures
        parse_state(text) matches Some(state) ==> state_name(state) == text,
{
}

impl ModuleState {
    /// The literal name of the state.
    pub fn as_str(&self) -> (text: &'static str)
        ensures
            text@ == state_name(*self),
    {
        match self {
            ModuleState::NotStarted => "NotStarted",
            ModuleState::Started => "Started",
            ModuleState::Stopped => "Stopped",
        }
    }

    /// The literal name of the state, owned.
    pub fn to_string(&self) -> (text: String)
        ensures
            text@ == state_name(*self),
    {
        self.as_str().to_owned()
    }

    /// Reads a state from its literal name; any other text is rejected.
    pub fn parse(text: &str) -> (parsed: Result<ModuleState, InvalidModuleState>)
        ensures
            parsed.ok() == parse_state(text@),
    {
        let owned = text.to_owned();
        if owned == "NotStarted".to_owned() {
            Ok(ModuleState::NotStarted)
        } else if owned == "Started".to_owned() {
            Ok(ModuleState::Started)
        } else if owned == "Stopped".to_owned() {
            Ok(ModuleState::Stopped)
        } else {
            Err(InvalidModuleState)
        }
    }

    /// Whether the scheduler dispatches work to a module in this state.
    pub fn is_dispatched(&self) -> (dispatched: bool)
        ensures
            dispatched == (*self == ModuleState::Started),
    {
        match self {
            ModuleState::Started => true,
            _ => false,
        }
    }
}

impl std::str::FromStr for ModuleState {
    type Err = InvalidModuleState;

    fn from_str(s: &str) -> (parsed: Result<Self, Self::Err>)
        ensures
            parsed.ok() == parse_state(s@),
    {
        ModuleState::parse(s)
    }
}

} // verus!
