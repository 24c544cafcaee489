//! The room controller: one client's standing with respect to the session
//! and to rooms.
//!
//! The controller performs no input or output. Each of its methods takes a
//! request from the user or a report from the transport, moves to the next
//! state, and says what is to be done on the network. Whoever drives it
//! does that and reports back.

use crate::endpoint::{
    accepted_endpoints, endpoint_canonical, lemma_accepted_are_the_valid,
    lemma_none_accepted_iff_all_invalid, parse_all, Endpoint,
};
use crate::message::{fits_on_wire, spec_encode, Message, MessageView};
use crate::notice::ErrorKind;
use crate::presence::{presence_reply, reply_payload, PresenceReply};
use crate::topic::{message_topic, message_topic_of, presence_topic, presence_topic_text};
use vstd::prelude::*;
use vstd::string::*;

verus! {

/// Where a client stands with respect to rooms.
#[derive(Debug, PartialEq, Eq)]
pub enum Phase {
    /// In no room.
    Idle,
    /// On the way into the room named.
    Entering(String),
    /// In the room named.
    Active(String),
}

/// What a [`Phase`] stands for.
pub enum PhaseView {
    Idle,
    Entering(Seq<char>),
    Active(Seq<char>),
}

impl View for Phase {
    type V = PhaseView;

    open spec fn view(&self) -> PhaseView {
        match self {
            Phase::Idle => PhaseView::Idle,
            Phase::Entering(room) => PhaseView::Entering(room@),
            Phase::Active(room) => PhaseView::Active(room@),
        }
    }
}

/// What a [`Controller`] stands for.
pub struct ControllerView {
    /// Whether the session is installed.
    pub session: bool,
    pub phase: PhaseView,
    /// How long one round of discovery waits for replies.
    pub discovery_timeout_ms: u64,
}

impl ControllerView {
    /// A room is active only over an installed session.
    pub open spec fn wf(self) -> bool {
        self.phase is Active ==> self.session
    }

    /// This state with another phase.
    pub open spec fn with_phase(self, phase: PhaseView) -> ControllerView {
        ControllerView { phase, ..self }
    }

    /// This state with the session installed or not.
    pub open spec fn with_session(self, session: bool) -> ControllerView {
        ControllerView { session, ..self }
    }

    /// The message topic of the active room, if a room is active.
    pub open spec fn active_topic(self) -> Option<Seq<char>> {
        match self.phase {
            PhaseView::Active(room) => Some(message_topic_of(room)),
            _ => None,
        }
    }
}

/// The first step of an entry into a room.
#[derive(Debug, PartialEq, Eq)]
pub enum EntryStep {
    /// The entry is refused and nothing has changed.
    Refused(ErrorKind),
    /// There is no session yet: open one to these endpoints, then report
    /// with [`Controller::session_opened`].
    OpenSession { endpoints: Vec<Endpoint> },
    /// Release what was declared on `leave`, if anything, then declare on
    /// `topic`, then report with [`Controller::joined`].
    Join { leave: Option<String>, topic: String },
}

/// Which of a room's three declarations were made.
#[derive(Clone, Copy, Debug, PartialEq, Eq, Structural)]
pub struct Declared {
    pub subscriber: bool,
    pub publisher: bool,
    pub responder: bool,
}

impl Declared {
    /// All three were made.
    pub open spec fn complete(self) -> bool {
        self.subscriber && self.publisher && self.responder
    }
}

/// How an entry ended.
#[derive(Clone, Copy, Debug, PartialEq, Eq, Structural)]
pub struct JoinOutcome {
    /// Whether the room is now active.
    pub entered: bool,
    /// The declarations to release again.
    pub release: Declared,
    /// The failure to tell the user about, if any.
    pub error: Option<ErrorKind>,
}

/// Something to publish.
#[derive(Debug, PartialEq, Eq)]
pub struct Publication {
    pub topic: String,
    pub payload: Vec<u8>,
}

/// A query to issue, and how long to gather replies.
#[derive(Debug, PartialEq, Eq)]
pub struct DiscoveryPlan {
    pub topic: String,
    pub timeout_ms: u64,
}

/// Whether a session may be opened to `endpoints`, and if not, why not:
/// never a second one beside the one installed, and never one to no endpoint.
pub open spec fn session_plan(installed: bool, endpoints: Seq<Seq<char>>) -> Result<
    Seq<Seq<char>>,
    ErrorKind,
> {
    if installed {
        Err(ErrorKind::AlreadyInitialized)
    } else if endpoints.len() == 0 {
        Err(ErrorKind::Configuration)
    } else {
        Ok(endpoints)
    }
}

/// One client's session and room state.
pub struct Controller {
    session: bool,
    phase: Phase,
    discovery_timeout_ms: u64,
}

impl View for Controller {
    type V = ControllerView;

    closed spec fn view(&self) -> ControllerView {
        ControllerView {
            session: self.session,
            phase: self.phase@,
            discovery_timeout_ms: self.discovery_timeout_ms,
        }
    }
}

impl Controller {
    #[verifier::type_invariant]
    spec fn inv(self) -> bool {
        self.phase is Active ==> self.session
    }

    /// A controller with no session and no room. A round of discovery will
    /// gather replies for `discovery_timeout_ms` milliseconds.
    pub fn new(discovery_timeout_ms: u64) -> (r: Controller)
        ensures
            r@ == (ControllerView { session: false, phase: PhaseView::Idle, discovery_timeout_ms }),
    {
        Controller { session: false, phase: Phase::Idle, discovery_timeout_ms }
    }

    /// Whether the session is installed.
    pub fn has_session(&self) -> (r: bool)
        ensures
            r == self@.session,
            self@.wf(),
    {
        proof {
            use_type_invariant(self);
        }
        self.session
    }

    /// Where the client stands.
    pub fn phase(&self) -> (r: &Phase)
        ensures
            r@ == self@.phase,
            self@.wf(),
    {
        proof {
            use_type_invariant(self);
        }
        &self.phase
    }

    /// Decides whether a session may be opened to `endpoints`. A second
    /// session is refused while one is installed, and so is an opening to no
    /// endpoint at all.
    pub fn plan_session_to(&self, endpoints: Vec<Endpoint>) -> (r: Result<Vec<Endpoint>, ErrorKind>)
        ensures
            match session_plan(self@.session, endpoints.deep_view()) {
                Ok(to) => r matches Ok(v) && v.deep_view() == to,
                Err(kind) => r == Err::<Vec<Endpoint>, ErrorKind>(kind),
            },
    {
        if self.session {
            Err(ErrorKind::AlreadyInitialized)
        } else if endpoints.len() == 0 {
            Err(ErrorKind::Configuration)
        } else {
            Ok(endpoints)
        }
    }

    /// Decides whether a session may be opened for `candidates`, and to
    /// which endpoints: candidates that are no endpoints are dropped.
    pub fn plan_session(&self, candidates: &Vec<String>) -> (r: Result<Vec<Endpoint>, ErrorKind>)
        ensures
            match session_plan(self@.session, accepted_endpoints(candidates.deep_view())) {
                Ok(to) => r matches Ok(v) && v.deep_view() == to,
                Err(kind) => r == Err::<Vec<Endpoint>, ErrorKind>(kind),
            },
    {
        self.plan_session_to(parse_all(candidates))
    }

    /// Takes a request to enter `room_id`, with the endpoints to open a
    /// session to should there be none yet.
    pub fn enter_room_over(&mut self, room_id: &str, endpoints: Vec<Endpoint>) -> (r: EntryStep)
        ensures
            final(self)@.wf(),
            match r {
                EntryStep::Refused(kind) => {
                    &&& final(self)@ == old(self)@
                    &&& if old(self)@.phase is Entering {
                        kind == ErrorKind::Busy
                    } else {
                        &&& kind == ErrorKind::Configuration
                        &&& !old(self)@.session
                        &&& endpoints.len() == 0
                    }
                },
                EntryStep::OpenSession { endpoints: to } => {
                    &&& !(old(self)@.phase is Entering)
                    &&& !old(self)@.session
                    &&& to.deep_view() == endpoints.deep_view()
                    &&& to.len() > 0
                    &&& final(self)@ == old(self)@.with_phase(PhaseView::Entering(room_id@))
                },
                EntryStep::Join { leave, topic } => {
                    &&& !(old(self)@.phase is Entering)
                    &&& old(self)@.session
                    &&& leave.deep_view() == old(self)@.active_topic()
                    &&& topic@ == message_topic_of(room_id@)
                    &&& final(self)@ == old(self)@.with_phase(PhaseView::Entering(room_id@))
                },
            },
    {
        proof {
            use_type_invariant(&*self);
        }
        let leave: Option<String> = match &self.phase {
            Phase::Entering(_) => { return EntryStep::Refused(ErrorKind::Busy); },
            Phase::Active(previous) => Some(message_topic(previous.as_str())),
            Phase::Idle => None,
        };
        if self.session {
            self.phase = Phase::Entering(room_id.to_owned());
            EntryStep::Join { leave, topic: message_topic(room_id) }
        } else {
            match self.plan_session_to(endpoints) {
                Ok(to) => {
                    self.phase = Phase::Entering(room_id.to_owned());
                    EntryStep::OpenSession { endpoints: to }
                },
                Err(kind) => EntryStep::Refused(kind),
            }
        }
    }

    /// Takes a request to enter `room_id`, with the candidate endpoints to
    /// use should there be no session yet. Candidates that are no endpoints
    /// are dropped.
    pub fn enter_room(&mut self, room_id: &str, candidates: &Vec<String>) -> (r: EntryStep)
        ensures
            final(self)@.wf(),
            match r {
                EntryStep::Refused(kind) => {
                    &&& final(self)@ == old(self)@
                    &&& if old(self)@.phase is Entering {
                        kind == ErrorKind::Busy
                    } else {
                        &&& kind == ErrorKind::Configuration
                        &&& !old(self)@.session
                        &&& accepted_endpoints(candidates.deep_view()).len() == 0
                    }
                },
                EntryStep::OpenSession { endpoints } => {
                    &&& !(old(self)@.phase is Entering)
                    &&& !old(self)@.session
                    &&& endpoints.deep_view() == accepted_endpoints(candidates.deep_view())
                    &&& endpoints.len() > 0
                    &&& final(self)@ == old(self)@.with_phase(PhaseView::Entering(room_id@))
                },
                EntryStep::Join { leave, topic } => {
                    &&& !(old(self)@.phase is Entering)
                    &&& old(self)@.session
                    &&& leave.deep_view() == old(self)@.active_topic()
                    &&& topic@ == message_topic_of(room_id@)
                    &&& final(self)@ == old(self)@.with_phase(PhaseView::Entering(room_id@))
                },
            },
    {
        self.enter_room_over(room_id, parse_all(candidates))
    }

    /// Takes the report that an attempt to open a session has ended. Where
    /// it went well and an entry is under way, says on which topic to
    /// declare next.
    pub fn session_opened(&mut self, connected: bool) -> (r: Result<Option<String>, ErrorKind>)
        ensures
            final(self)@.wf(),
            old(self)@.session ==> {
                &&& r == Err::<Option<String>, ErrorKind>(ErrorKind::AlreadyInitialized)
                &&& final(self)@ == old(self)@
            },
            !old(self)@.session && !connected ==> {
                &&& r == Err::<Option<String>, ErrorKind>(ErrorKind::Connection)
                &&& final(self)@ == old(self)@.with_phase(PhaseView::Idle)
            },
            !old(self)@.session && connected ==> {
                &&& final(self)@ == old(self)@.with_session(true)
                &&& r matches Ok(topic)
                &&& topic.deep_view() == match old(self)@.phase {
                    PhaseView::Entering(room) => Some(message_topic_of(room)),
                    _ => None,
                }
            },
    {
        proof {
            use_type_invariant(&*self);
        }
        if self.session {
            return Err(ErrorKind::AlreadyInitialized);
        }
        if !connected {
            self.phase = Phase::Idle;
            return Err(ErrorKind::Connection);
        }
        self.session = true;
        match &self.phase {
            Phase::Entering(room) => Ok(Some(message_topic(room.as_str()))),
            _ => Ok(None),
        }
    }

    /// Takes the report of which declarations were made for the room being
    /// entered. The room becomes active only if all three were made over an
    /// installed session; otherwise whatever was made is to be released.
    pub fn joined(&mut self, declared: Declared) -> (r: JoinOutcome)
        ensures
            final(self)@.wf(),
            r.entered == (old(self)@.phase is Entering && old(self)@.session && declared.complete()),
            r.entered ==> {
                &&& r.release == (Declared { subscriber: false, publisher: false, responder: false })
                &&& r.error is None
                &&& old(self)@.phase matches PhaseView::Entering(room)
                &&& final(self)@ == old(self)@.with_phase(PhaseView::Active(room))
            },
            !r.entered ==> {
                &&& r.release == declared
                &&& r.error == Some(ErrorKind::Subscription)
                &&& final(self)@ == if old(self)@.phase is Entering {
                    old(self)@.with_phase(PhaseView::Idle)
                } else {
                    old(self)@
                }
            },
    {
        proof {
            use_type_invariant(&*self);
        }
        let mut phase = Phase::Idle;
        std::mem::swap(&mut self.phase, &mut phase);
        match phase {
            Phase::Entering(room) => {
                if self.session && declared.subscriber && declared.publisher && declared.responder {
                    self.phase = Phase::Active(room);
                    JoinOutcome {
                        entered: true,
                        release: Declared { subscriber: false, publisher: false, responder: false },
                        error: None,
                    }
                } else {
                    JoinOutcome {
                        entered: false,
                        release: declared,
                        error: Some(ErrorKind::Subscription),
                    }
                }
            },
            other => {
                self.phase = other;
                JoinOutcome { entered: false, release: declared, error: Some(ErrorKind::Subscription) }
            },
        }
    }

    /// Leaves whatever room is active or being entered. Says which topic's
    /// declarations to release, if a room was active.
    pub fn leave(&mut self) -> (r: Option<String>)
        ensures
            final(self)@ == old(self)@.with_phase(PhaseView::Idle),
            final(self)@.wf(),
            r.deep_view() == old(self)@.active_topic(),
    {
        let release: Option<String> = match &self.phase {
            Phase::Active(room) => Some(message_topic(room.as_str())),
            _ => None,
        };
        self.phase = Phase::Idle;
        release
    }

    /// Takes a request to send `body` under the name `name`. A message goes
    /// out only while a room is active, and then to that room's topic.
    pub fn send_message(&self, name: &str, body: &str) -> (r: Result<Publication, ErrorKind>)
        ensures
            !(self@.phase is Active) ==> r == Err::<Publication, ErrorKind>(ErrorKind::NotInRoom),
            self@.phase is Active && !(fits_on_wire(name@) && fits_on_wire(body@)) ==> r == Err::<
                Publication,
                ErrorKind,
            >(ErrorKind::Send),
            self@.phase is Active && fits_on_wire(name@) && fits_on_wire(body@) ==> r is Ok,
            r matches Ok(publication) ==> {
                &&& Some(publication.topic@) == self@.active_topic()
                &&& publication.payload@ == spec_encode(MessageView { name: name@, message: body@ })
            },
    {
        match &self.phase {
            Phase::Active(room) => match Message::new(name, body) {
                Some(message) => Ok(
                    Publication { topic: message_topic(room.as_str()), payload: message.encode() },
                ),
                None => Err(ErrorKind::Send),
            },
            _ => Err(ErrorKind::NotInRoom),
        }
    }

    /// Takes a request to list the rooms. Says what to ask, on which topic,
    /// and for how long to gather replies; there is nothing to ask without
    /// a session.
    pub fn discover(&self) -> (r: Result<DiscoveryPlan, ErrorKind>)
        ensures
            !self@.session ==> r == Err::<DiscoveryPlan, ErrorKind>(ErrorKind::Connection),
            self@.session ==> r is Ok,
            r matches Ok(plan) ==> plan.topic@ == presence_topic_text() && plan.timeout_ms
                == self@.discovery_timeout_ms,
    {
        if self.session {
            Ok(DiscoveryPlan { topic: presence_topic(), timeout_ms: self.discovery_timeout_ms })
        } else {
            Err(ErrorKind::Connection)
        }
    }

    /// Answers a presence query that came on `query_key`: with the active
    /// room, or not at all.
    pub fn answer_query(&self, query_key: &str) -> (r: Option<PresenceReply>)
        ensures
            r is Some <==> self@.phase is Active,
            r matches Some(reply) ==> {
                &&& reply.key@ == query_key@
                &&& self@.phase matches PhaseView::Active(room)
                &&& reply.payload@ == reply_payload(room)
            },
    {
        match &self.phase {
            Phase::Active(room) => Some(presence_reply(room.as_str(), query_key)),
            _ => None,
        }
    }
}

/// Where some candidates are endpoints and some are not, a first session
/// is opened, and to the valid candidates only: the plan holds a text if
/// and only if it is the canonical form of a candidate.
pub proof fn lemma_invalid_candidates_are_dropped(candidates: Seq<Seq<char>>)
    requires
        exists|i: int|
            0 <= i < candidates.len() && endpoint_canonical(#[trigger] candidates[i]) is Some,
        exists|i: int|
            0 <= i < candidates.len() && endpoint_canonical(#[trigger] candidates[i]) is None,
    ensures
        session_plan(false, accepted_endpoints(candidates)) matches Ok(to) && forall|e: Seq<char>|
            #[trigger] to.contains(e) <==> exists|i: int|
                0 <= i < candidates.len() && endpoint_canonical(#[trigger] candidates[i]) == Some(
                    e,
                ),
{
    lemma_none_accepted_iff_all_invalid(candidates);
    assert forall|e: Seq<char>| #[trigger]
        accepted_endpoints(candidates).contains(e) <==> exists|i: int|
            0 <= i < candidates.len() && endpoint_canonical(#[trigger] candidates[i]) == Some(
                e,
            ) by {
        lemma_accepted_are_the_valid(candidates, e);
    }
}

/// Where no candidate is an endpoint, no session is opened: the plan fails
/// for want of configuration.
pub proof fn lemma_only_invalid_candidates_are_refused(candidates: Seq<Seq<char>>)
    requires
        forall|i: int|
            0 <= i < candidates.len() ==> endpoint_canonical(#[trigger] candidates[i]) is None,
    ensures
        session_plan(false, accepted_endpoints(candidates)) == Err::<Seq<Seq<char>>, ErrorKind>(
            ErrorKind::Configuration,
        ),
{
    lemma_none_accepted_iff_all_invalid(candidates);
}

} // verus!
