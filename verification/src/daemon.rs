//! The daemon core: the command router, the per-request outcome, and
//! the shutdown coordination.
//!
//! A handler never performs an effect itself.  It mutates the store,
//! builds the reply, and reports what must happen next: whether the
//! store must be persisted before the reply counts, and which plugin
//! dispatches to carry out.  The surrounding process performs those
//! effects and feeds their results back through `finish_request`.

use vstd::prelude::*;
use crate::config::{ConfigView, SavedConfig};
use crate::event::Event;
use crate::plugin::{EventPlan, EventPlanV, Plugin, PluginFactory, PluginHandle};
use crate::props::PropsV;
use crate::wire::{Request, parsed_request, decode_request};

pub mod project_commands;
pub mod event_commands;
pub mod global_commands;
pub mod plugin_commands;

verus! {

/// The mathematical content of one plugin dispatch.
pub struct DispatchV {
    pub event: Event,
    pub project: Seq<char>,
    pub plugin: Seq<char>,
    pub plan: Option<EventPlanV>,
}

/// One plugin dispatch decided by a handler: the event, the affected
/// project, the plugin it goes to, and the plugin's plan.  A plan of
/// None means the named plugin is not registered; carrying it out
/// fails, which is reported and must not stop later dispatches.
pub struct Dispatch {
    pub event: Event,
    pub project: String,
    pub plugin: String,
    pub plan: Option<EventPlan>,
}

impl View for Dispatch {
    type V = DispatchV;

    open spec fn view(&self) -> DispatchV {
        DispatchV {
            event: self.event,
            project: self.project@,
            plugin: self.plugin@,
            plan: match &self.plan {
                Some(p) => Some(p@),
                None => None,
            },
        }
    }
}

impl DeepView for Dispatch {
    type V = DispatchV;

    open spec fn deep_view(&self) -> DispatchV {
        self.view()
    }
}

/// The mathematical content of a handler outcome.
pub struct OutcomeV {
    pub response: Seq<char>,
    pub persist: bool,
    pub dispatches: Seq<DispatchV>,
}

/// What one handled request yields: the reply text, whether the store
/// must be persisted before the reply counts as success, and the
/// plugin dispatches to carry out after persisting.
pub struct HandlerOutcome {
    pub response: String,
    pub persist: bool,
    pub dispatches: Vec<Dispatch>,
}

impl View for HandlerOutcome {
    type V = OutcomeV;

    open spec fn view(&self) -> OutcomeV {
        OutcomeV {
            response: self.response@,
            persist: self.persist,
            dispatches: self.dispatches.deep_view(),
        }
    }
}

/// An outcome that only replies.
pub open spec fn plain(response: Seq<char>) -> OutcomeV {
    OutcomeV { response, persist: false, dispatches: Seq::empty() }
}

/// An outcome that replies and requires persistence.
pub open spec fn persisting(response: Seq<char>) -> OutcomeV {
    OutcomeV { response, persist: true, dispatches: Seq::empty() }
}

/// The reply to an unknown subject or command.
pub open spec fn unknown_outcome() -> OutcomeV {
    plain("Unknown command"@)
}

/// The reply when a required parameter is absent.
pub open spec fn missing_param(key: Seq<char>) -> OutcomeV {
    plain("Missing parameter "@ + key)
}

/// The mathematical content of the daemon state.
pub struct DaemonView {
    pub store: ConfigView,
    pub plugins: Seq<PluginHandle>,
    pub stopping: bool,
}

impl DaemonView {
    /// The store is well formed and plugin names are unique.
    pub open spec fn wf(self) -> bool {
        &&& self.store.wf()
        &&& forall|i: int, j: int|
            0 <= i < j < self.plugins.len() ==> (#[trigger] self.plugins[i]).spec_name() != (
            #[trigger] self.plugins[j]).spec_name()
    }

    /// This state with another store.
    pub open spec fn with_store(self, store: ConfigView) -> DaemonView {
        DaemonView { store, plugins: self.plugins, stopping: self.stopping }
    }

    /// This state with the stop flag raised.
    pub open spec fn stopped(self) -> DaemonView {
        DaemonView { store: self.store, plugins: self.plugins, stopping: true }
    }
}

/// The daemon state shared by all sessions: the store bound to its
/// path, the plugin registry, and the cooperative stop flag.  Sessions
/// access it under mutual exclusion, so requests are linearized: each
/// handler runs against a store no other request is touching.
pub struct Daemon {
    pub config: SavedConfig,
    pub plugin_manager: PluginFactory,
    pub should_stop: bool,
}

impl View for Daemon {
    type V = DaemonView;

    open spec fn view(&self) -> DaemonView {
        DaemonView {
            store: self.config.data@,
            plugins: self.plugin_manager@,
            stopping: self.should_stop,
        }
    }
}

/// What the daemon subject yields: the stop flag after the command,
/// and the outcome.
pub open spec fn spec_handle_daemon(d: DaemonView, command: Seq<char>) -> (DaemonView, OutcomeV) {
    if command == "status"@ {
        (d, plain("up and running"@))
    } else if command == "stop"@ {
        (d.stopped(), plain("stopping"@))
    } else {
        (d, unknown_outcome())
    }
}

impl Daemon {
    /// A daemon around the given store, with an empty plugin registry
    /// and the stop flag down.
    pub fn new(config: SavedConfig) -> (r: Daemon)
        ensures
            r@.store == config.data@,
            r@.plugins.len() == 0,
            !r@.stopping,
            r.config.path@ == config.path@,
            r.config.data == config.data,
    {
        Daemon { config, plugin_manager: PluginFactory::new(), should_stop: false }
    }

    /// Handles the `daemon` subject: `status` reports liveness; `stop`
    /// raises the stop flag and acknowledges with "stopping" at once,
    /// leaving socket teardown to the supervisor.
    pub fn handle_daemon(&mut self, command: &str, params: &Vec<(String, String)>) -> (r:
        HandlerOutcome)
        ensures
            final(self)@ == spec_handle_daemon(old(self)@, command@).0,
            r@ == spec_handle_daemon(old(self)@, command@).1,
            final(self).config.path@ == old(self).config.path@,
            old(self)@.wf() ==> final(self)@.wf(),
    {
        let ghost d0 = self@;
        let r: HandlerOutcome;
        if crate::strutil::str_is(command, "status") {
            r = HandlerOutcome {
                response: "up and running".to_owned(),
                persist: false,
                dispatches: Vec::new(),
            };
        } else if crate::strutil::str_is(command, "stop") {
            self.should_stop = true;
            r = HandlerOutcome {
                response: "stopping".to_owned(),
                persist: false,
                dispatches: Vec::new(),
            };
        } else {
            r = HandlerOutcome {
                response: "Unknown command".to_owned(),
                persist: false,
                dispatches: Vec::new(),
            };
        }
        proof {
            assert(r@.dispatches =~= Seq::<DispatchV>::empty());
            assert(self@.store == d0.store);
            assert(self@.plugins == d0.plugins);
            if d0.wf() {
                assert(self@.wf());
            }
        }
        r
    }
}

/// An outcome that only replies, from a string slice.
pub fn outcome_plain(response: &str) -> (r: HandlerOutcome)
    ensures
        r@ == plain(response@),
{
    let empty: Vec<Dispatch> = Vec::new();
    proof {
        assert(empty.deep_view() =~= Seq::<DispatchV>::empty());
    }
    HandlerOutcome { response: response.to_owned(), persist: false, dispatches: empty }
}

/// An outcome that only replies, taking the reply string.
pub fn outcome_plain_string(response: String) -> (r: HandlerOutcome)
    ensures
        r@ == plain(response@),
{
    let empty: Vec<Dispatch> = Vec::new();
    proof {
        assert(empty.deep_view() =~= Seq::<DispatchV>::empty());
    }
    HandlerOutcome { response, persist: false, dispatches: empty }
}

/// An outcome that replies and requires persistence, without
/// dispatches.
pub fn outcome_persist_string(response: String) -> (r: HandlerOutcome)
    ensures
        r@ == persisting(response@),
{
    let empty: Vec<Dispatch> = Vec::new();
    proof {
        assert(empty.deep_view() =~= Seq::<DispatchV>::empty());
    }
    HandlerOutcome { response, persist: true, dispatches: empty }
}

/// The outcome for an absent required parameter.
pub fn outcome_missing(key: &str) -> (r: HandlerOutcome)
    ensures
        r@ == missing_param(key@),
{
    let empty: Vec<Dispatch> = Vec::new();
    proof {
        assert(empty.deep_view() =~= Seq::<DispatchV>::empty());
    }
    HandlerOutcome {
        response: crate::strutil::cat2("Missing parameter ", key),
        persist: false,
        dispatches: empty,
    }
}

/// What one routed request yields: two-level routing by subject and
/// command, where an unknown subject is a well-formed reply, never a
/// fault.
pub open spec fn spec_handle_request(
    d: DaemonView,
    subject: Seq<char>,
    command: Seq<char>,
    params: PropsV,
) -> (DaemonView, OutcomeV) {
    if subject == "global"@ {
        crate::daemon::global_commands::spec_handle_global(d, command, params)
    } else if subject == "project"@ {
        crate::daemon::project_commands::spec_handle_project(d, command, params)
    } else if subject == "event"@ {
        crate::daemon::event_commands::spec_handle_event(d, command, params)
    } else if subject == "plugin"@ {
        crate::daemon::plugin_commands::spec_handle_plugin(d, command, params)
    } else if subject == "daemon"@ {
        spec_handle_daemon(d, command)
    } else {
        (d, unknown_outcome())
    }
}

impl Daemon {
    /// Routes one request: `subject` selects the handler group and
    /// `command` the operation.  The caller holds exclusive access to
    /// the daemon for the whole call, so the request is linearized; it
    /// must then persist the store if the outcome asks for it and carry
    /// the dispatches out.
    pub fn handle_request(&mut self, subject: &str, command: &str, params: &Vec<(String, String)>)
        -> (r: HandlerOutcome)
        ensures
            final(self)@ == spec_handle_request(
                old(self)@,
                subject@,
                command@,
                params.deep_view(),
            ).0,
            r@ == spec_handle_request(old(self)@, subject@, command@, params.deep_view()).1,
            final(self).config.path@ == old(self).config.path@,
            old(self)@.wf() ==> final(self)@.wf(),
    {
        if crate::strutil::str_is(subject, "global") {
            self.handle_global(command, params)
        } else if crate::strutil::str_is(subject, "project") {
            self.handle_project(command, params)
        } else if crate::strutil::str_is(subject, "event") {
            self.handle_event(command, params)
        } else if crate::strutil::str_is(subject, "plugin") {
            self.handle_plugin(command, params)
        } else if crate::strutil::str_is(subject, "daemon") {
            self.handle_daemon(command, params)
        } else {
            outcome_plain("Unknown command")
        }
    }
}

/// Applies the persistence result to an outcome.  When the outcome
/// required persistence and the save failed, the mutation must not be
/// reported as durably applied: the reply becomes a distinguishable
/// failure and no dispatch is carried out.  Otherwise the outcome
/// stands as decided.
pub fn finish_request(outcome: HandlerOutcome, save_ok: bool) -> (r: (String, Vec<Dispatch>))
    ensures
        outcome@.persist && !save_ok ==> r.0@ == "Error: failed to save configuration"@
            && r.1.deep_view() == Seq::<DispatchV>::empty(),
        !(outcome@.persist && !save_ok) ==> r.0@ == outcome@.response && r.1.deep_view()
            == outcome@.dispatches,
{
    if outcome.persist && !save_ok {
        let empty: Vec<Dispatch> = Vec::new();
        proof {
            assert(empty.deep_view() =~= Seq::<DispatchV>::empty());
        }
        ("Error: failed to save configuration".to_owned(), empty)
    } else {
        (outcome.response, outcome.dispatches)
    }
}

/// What a session does with one read attempt.
pub enum SessionTurn {
    /// The stop flag was observed: signal cancellation to the
    /// supervisor and end this session.
    SignalStopAndClose,
    /// The peer closed the stream: end this session.
    Close,
    /// The message was not a well-formed request: a protocol error,
    /// which ends this session and only this session.
    ProtocolError,
    /// Route the decoded request through the command router.
    Dispatch(Request),
}

/// Decides one session turn from the stop flag, observed before each
/// read attempt, and the read result: None for end-of-stream, or the
/// text of one complete frame.
pub fn session_turn(stopping: bool, read: Option<&str>) -> (r: SessionTurn)
    ensures
        stopping ==> r is SignalStopAndClose,
        !stopping && read is None ==> r is Close,
        !stopping && read is Some ==> match r {
            SessionTurn::Dispatch(req) => parsed_request(read->Some_0@) == Some(
                (req.subject@, req.command@, req.params.deep_view()),
            ),
            SessionTurn::ProtocolError => parsed_request(read->Some_0@) is None,
            _ => false,
        },
{
    if stopping {
        SessionTurn::SignalStopAndClose
    } else {
        match read {
            None => SessionTurn::Close,
            Some(text) => match decode_request(text) {
                Some(req) => SessionTurn::Dispatch(req),
                None => SessionTurn::ProtocolError,
            },
        }
    }
}

/// The phases of a daemon process.  `Running` is entered at bind time;
/// `Stopping` when cancellation is observed; `Stopped` once the accept
/// loop has exited and the socket resource may be released.
#[derive(Clone, Copy, Debug, PartialEq, Eq, Structural)]
pub enum DaemonPhase {
    Running,
    Stopping,
    Stopped,
}

/// What the supervisor observes while waiting.
#[derive(Clone, Copy, Debug, PartialEq, Eq, Structural)]
pub enum SupervisorEvent {
    /// The cancellation signal fired.
    Cancelled,
    /// A connection arrived.
    Connection,
    /// Accepting failed transiently.
    AcceptError,
}

/// What the supervisor must do next.
#[derive(Clone, Copy, Debug, PartialEq, Eq, Structural)]
pub enum SupervisorAction {
    /// Spawn a session for the accepted connection.
    HandleConnection,
    /// Report the transient error and keep waiting.
    Report,
    /// Leave the accept loop and release the socket resource.
    Shutdown,
}

/// The supervisor transition: while `Running`, a connection spawns a
/// session and a transient error is reported; cancellation moves to
/// `Stopping` and shuts the accept loop down.  Once the phase has left
/// `Running`, no event yields a new session, and `Stopped` is final.
pub fn supervisor_step(phase: DaemonPhase, event: SupervisorEvent) -> (r: (
    DaemonPhase,
    SupervisorAction,
))
    ensures
        phase == DaemonPhase::Running && event == SupervisorEvent::Cancelled ==> r == (
            DaemonPhase::Stopping,
            SupervisorAction::Shutdown,
        ),
        phase == DaemonPhase::Running && event == SupervisorEvent::Connection ==> r == (
            DaemonPhase::Running,
            SupervisorAction::HandleConnection,
        ),
        phase == DaemonPhase::Running && event == SupervisorEvent::AcceptError ==> r == (
            DaemonPhase::Running,
            SupervisorAction::Report,
        ),
        phase != DaemonPhase::Running ==> r.1 != SupervisorAction::HandleConnection,
        phase == DaemonPhase::Stopping ==> r == (DaemonPhase::Stopped, SupervisorAction::Shutdown),
        phase == DaemonPhase::Stopped ==> r == (DaemonPhase::Stopped, SupervisorAction::Shutdown),
{
    match phase {
        DaemonPhase::Running => match event {
            SupervisorEvent::Cancelled => (DaemonPhase::Stopping, SupervisorAction::Shutdown),
            SupervisorEvent::Connection => (DaemonPhase::Running, SupervisorAction::HandleConnection),
            SupervisorEvent::AcceptError => (DaemonPhase::Running, SupervisorAction::Report),
        },
        DaemonPhase::Stopping => (DaemonPhase::Stopped, SupervisorAction::Shutdown),
        DaemonPhase::Stopped => (DaemonPhase::Stopped, SupervisorAction::Shutdown),
    }
}

} // verus!
