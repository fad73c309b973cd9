//! The closed enumeration of lifecycle events and their wire names.

use vstd::prelude::*;
use crate::strutil::str_is;

verus! {

/// A lifecycle signal.  Each event is dispatched to plugins enabled on
/// the affected project; the set of events is closed.
#[derive(Clone, Copy, Debug, PartialEq, Eq, Structural)]
pub enum Event {
    ProjectPeek,
    ProjectSwitch,
    ProjectAdd,
    ProjectDelete,
    ProjectUpdate,
    PluginEnable,
    PluginDisable,
}

impl Event {
    /// The kebab-case wire name of this event.
    pub open spec fn spec_name(self) -> Seq<char> {
        match self {
            Event::ProjectPeek => "project-peek"@,
            Event::ProjectSwitch => "project-switch"@,
            Event::ProjectAdd => "project-add"@,
            Event::ProjectDelete => "project-delete"@,
            Event::ProjectUpdate => "project-update"@,
            Event::PluginEnable => "plugin-enable"@,
            Event::PluginDisable => "plugin-disable"@,
        }
    }

    /// Returns the kebab-case wire name of this event.
    pub fn name(self) -> (r: String)
        ensures
            r@ == self.spec_name(),
    {
        match self {
            Event::ProjectPeek => "project-peek".to_owned(),
            Event::ProjectSwitch => "project-switch".to_owned(),
            Event::ProjectAdd => "project-add".to_owned(),
            Event::ProjectDelete => "project-delete".to_owned(),
            Event::ProjectUpdate => "project-update".to_owned(),
            Event::PluginEnable => "plugin-enable".to_owned(),
            Event::PluginDisable => "plugin-disable".to_owned(),
        }
    }

    /// The event named `n`, if any.
    pub open spec fn spec_from_name(n: Seq<char>) -> Option<Event> {
        if n == "project-peek"@ {
            Some(Event::ProjectPeek)
        } else if n == "project-switch"@ {
            Some(Event::ProjectSwitch)
        } else if n == "project-add"@ {
            Some(Event::ProjectAdd)
        } else if n == "project-delete"@ {
            Some(Event::ProjectDelete)
        } else if n == "project-update"@ {
            Some(Event::ProjectUpdate)
        } else if n == "plugin-enable"@ {
            Some(Event::PluginEnable)
        } else if n == "plugin-disable"@ {
            Some(Event::PluginDisable)
        } else {
            None
        }
    }

    /// Resolves a name against the closed enumeration.
    pub fn from_name(n: &str) -> (r: Option<Event>)
        ensures
            r == Self::spec_from_name(n@),
    {
        if str_is(n, "project-peek") {
            Some(Event::ProjectPeek)
        } else if str_is(n, "project-switch") {
            Some(Event::ProjectSwitch)
        } else if str_is(n, "project-add") {
            Some(Event::ProjectAdd)
        } else if str_is(n, "project-delete") {
            Some(Event::ProjectDelete)
        } else if str_is(n, "project-update") {
            Some(Event::ProjectUpdate)
        } else if str_is(n, "plugin-enable") {
            Some(Event::PluginEnable)
        } else if str_is(n, "plugin-disable") {
            Some(Event::PluginDisable)
        } else {
            None
        }
    }

    /// Every event, in declaration order.
    pub open spec fn spec_all() -> Seq<Event> {
        seq![
            Event::ProjectPeek,
            Event::ProjectSwitch,
            Event::ProjectAdd,
            Event::ProjectDelete,
            Event::ProjectUpdate,
            Event::PluginEnable,
            Event::PluginDisable,
        ]
    }

    /// Returns every event, in declaration order.
    pub fn all() -> (r: Vec<Event>)
        ensures
            r@ == Self::spec_all(),
    {
        let mut v: Vec<Event> = Vec::new();
        v.push(Event::ProjectPeek);
        v.push(Event::ProjectSwitch);
        v.push(Event::ProjectAdd);
        v.push(Event::ProjectDelete);
        v.push(Event::ProjectUpdate);
        v.push(Event::PluginEnable);
        v.push(Event::PluginDisable);
        proof {
            assert(v@ =~= Self::spec_all());
        }
        v
    }

}

} // verus!
