//! The event schema shared by the publish and consume paths.

use vstd::prelude::*;
use vstd::string::StringExecFns;

verus! {

/// Mathematical model of an event: the user identifier together with the
/// character sequences of the two string fields.
pub struct EventModel {
    pub user_id: u32,
    pub action: Seq<char>,
    pub producer_id: Seq<char>,
}

impl EventModel {
    /// Structural invariant of the schema: all fields are present by
    /// construction, and the action token is non-empty.
    pub open spec fn wf(self) -> bool {
        self.action.len() >= 1
    }
}

/// An event flowing through the pipeline.  Immutable once constructed.
#[derive(Debug)]
pub struct UserAction {
    pub user_id: u32,
    pub action: String,
    pub producer_id: String,
}

impl View for UserAction {
    type V = EventModel;

    open spec fn view(&self) -> EventModel {
        EventModel {
            user_id: self.user_id,
            action: self.action@,
            producer_id: self.producer_id@,
        }
    }
}

impl PartialEq for UserAction {
    fn eq(&self, other: &UserAction) -> (r: bool) {
        self.user_id == other.user_id && self.action == other.action
            && self.producer_id == other.producer_id
    }
}

impl vstd::std_specs::cmp::PartialEqSpecImpl for UserAction {
    open spec fn obeys_eq_spec() -> bool {
        true
    }

    open spec fn eq_spec(&self, other: &UserAction) -> bool {
        self@ == other@
    }
}

impl UserAction {
    /// Checks the schema invariant on a runtime value: the action token
    /// must be non-empty.
    pub fn is_well_formed(&self) -> (r: bool)
        ensures
            r == self@.wf(),
    {
        !self.action.as_str().is_empty()
    }

    /// Builds an event from its parts, copying the strings.
    pub fn new(user_id: u32, action: &str, producer_id: &str) -> (e: UserAction)
        ensures
            e@.user_id == user_id,
            e@.action == action@,
            e@.producer_id == producer_id@,
    {
        UserAction {
            user_id,
            action: String::from_str(action),
            producer_id: String::from_str(producer_id),
        }
    }

}

/// The fixed vocabulary the synthetic generator draws from, by index.
pub open spec fn vocab_action(i: u32) -> Seq<char> {
    if i == 0 {
        "click"@
    } else if i == 1 {
        "view"@
    } else if i == 2 {
        "purchase"@
    } else {
        "login"@
    }
}

/// Shapes two externally drawn random numbers into a synthetic event: the
/// user identifier is the first draw reduced modulo 100 and the action is
/// picked from the fixed vocabulary by the second draw.
pub fn synthetic_event(producer_id: &str, user_draw: u32, action_draw: u32) -> (e: UserAction)
    ensures
        e@.user_id == user_draw % 100,
        e@.action == vocab_action(action_draw % 4),
        e@.producer_id == producer_id@,
        e@.wf(),
{
    let pick: u32 = action_draw % 4;
    let action: &str = if pick == 0 {
        "click"
    } else if pick == 1 {
        "view"
    } else if pick == 2 {
        "purchase"
    } else {
        "login"
    };
    proof {
        reveal_strlit("click");
        reveal_strlit("view");
        reveal_strlit("purchase");
        reveal_strlit("login");
    }
    UserAction {
        user_id: user_draw % 100,
        action: String::from_str(action),
        producer_id: String::from_str(producer_id),
    }
}

} // verus!
