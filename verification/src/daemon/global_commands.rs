//! The `global` subject: the store's global key/value properties.

use vstd::prelude::*;
use crate::daemon::{Daemon, DaemonView, HandlerOutcome, OutcomeV, plain, persisting,
    unknown_outcome, missing_param, outcome_plain, outcome_plain_string, outcome_persist_string,
    outcome_missing};
use crate::props::{PropsV, spec_lookup, spec_set, spec_del, list_get};
use crate::strutil::{str_is, cat4, cat3};
use crate::wire::{spec_props_json, props_json};

verus! {

/// What the `global` subject yields.
pub open spec fn spec_handle_global(d: DaemonView, command: Seq<char>, params: PropsV) -> (
    DaemonView,
    OutcomeV,
) {
    let g = d.store.globals;
    if command == "set-property"@ {
        match spec_lookup(params, "property"@) {
            None => (d, missing_param("property"@)),
            Some(prop) => match spec_lookup(params, "value"@) {
                None => (d, missing_param("value"@)),
                Some(value) => (
                    d.with_store(d.store.with_globals(spec_set(g, prop, value))),
                    persisting("Global property "@ + prop + " set to "@ + value),
                ),
            },
        }
    } else if command == "get-property"@ {
        match spec_lookup(params, "property"@) {
            None => (d, missing_param("property"@)),
            Some(prop) => match spec_lookup(g, prop) {
                Some(value) => (d, plain(value)),
                None => (d, plain("Global property "@ + prop + " not found"@)),
            },
        }
    } else if command == "del-property"@ {
        match spec_lookup(params, "property"@) {
            None => (d, missing_param("property"@)),
            Some(prop) => if spec_lookup(g, prop) is Some {
                (
                    d.with_store(d.store.with_globals(spec_del(g, prop))),
                    persisting("Global property "@ + prop + " removed"@),
                )
            } else {
                (d, plain("Global property "@ + prop + " not found"@))
            },
        }
    } else if command == "list-properties"@ {
        (d, plain(spec_props_json(g)))
    } else {
        (d, unknown_outcome())
    }
}

impl Daemon {
    /// Handles the `global` subject: get, set, delete and list the
    /// store's global properties; every mutation requires persistence.
    pub fn handle_global(&mut self, command: &str, params: &Vec<(String, String)>) -> (r:
        HandlerOutcome)
        ensures
            final(self)@ == spec_handle_global(old(self)@, command@, params.deep_view()).0,
            r@ == spec_handle_global(old(self)@, command@, params.deep_view()).1,
            final(self).config.path@ == old(self).config.path@,
            old(self)@.wf() ==> final(self)@.wf(),
    {
        if str_is(command, "set-property") {
            match list_get(params, "property") {
                None => outcome_missing("property"),
                Some(prop) => match list_get(params, "value") {
                    None => outcome_missing("value"),
                    Some(value) => {
                        let response = cat4(
                            "Global property ",
                            prop.as_str(),
                            " set to ",
                            value.as_str(),
                        );
                        self.config.data.set_global(prop.as_str(), value.as_str());
                        outcome_persist_string(response)
                    },
                },
            }
        } else if str_is(command, "get-property") {
            match list_get(params, "property") {
                None => outcome_missing("property"),
                Some(prop) => match list_get(&self.config.data.properties, prop.as_str()) {
                    Some(value) => outcome_plain_string(value.clone()),
                    None => outcome_plain_string(
                        cat3("Global property ", prop.as_str(), " not found"),
                    ),
                },
            }
        } else if str_is(command, "del-property") {
            match list_get(params, "property") {
                None => outcome_missing("property"),
                Some(prop) => {
                    if self.config.data.del_global(prop.as_str()) {
                        outcome_persist_string(cat3("Global property ", prop.as_str(), " removed"))
                    } else {
                        outcome_plain_string(
                            cat3("Global property ", prop.as_str(), " not found"),
                        )
                    }
                },
            }
        } else if str_is(command, "list-properties") {
            outcome_plain_string(props_json(&self.config.data.properties))
        } else {
            outcome_plain("Unknown command")
        }
    }
}

} // verus!
