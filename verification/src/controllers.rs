//! Which tablet controller connection owns the virtual input devices: each
//! new connection claims them under a fresh generation, and only the lease of
//! the current generation may drive the devices or release them.
use vstd::prelude::*;
use crate::input::{InputAction, InputEvent, route, route_spec};

verus! {

pub struct Controllers {
    generation: u64,
}

impl View for Controllers {
    type V = u64;

    closed spec fn view(&self) -> u64 {
        self.generation
    }
}

impl Controllers {
    /// No controller has claimed the devices yet.
    pub fn new() -> (r: Controllers)
        ensures
            r@ == 0,
    {
        Controllers { generation: 0 }
    }

    /// A new connection takes over the devices: the generation advances
    /// (wrapping) and the result is its lease. The lease of the previous
    /// controller is no longer current, so its late events are refused and
    /// dropping it releases nothing.
    pub fn claim(&mut self) -> (lease: u64)
        ensures
            final(self)@ == (if old(self)@ == u64::MAX {
                0
            } else {
                (old(self)@ + 1) as u64
            }),
            lease == final(self)@,
            lease != old(self)@,
    {
        self.generation = self.generation.wrapping_add(1);
        self.generation
    }

    /// Whether events under this lease may drive the devices, and whether
    /// dropping it releases them.
    pub fn is_current(&self, lease: u64) -> (r: bool)
        ensures
            r == (lease == self@),
    {
        self.generation == lease
    }
}

/// The generation after `k` claims from generation `g`.
pub open spec fn after_claims(g: u64, k: nat) -> u64 {
    ((g + k) % 0x1_0000_0000_0000_0000) as u64
}

/// One claim advances the generation as `claim` does.
pub proof fn lemma_one_claim(g: u64)
    ensures
        after_claims(g, 1) == (if g == u64::MAX {
            0
        } else {
            (g + 1) as u64
        }),
{
}

/// Takeover law: a superseded lease stays refused through every later claim,
/// until the 64-bit generation counter has wrapped all the way round.
pub proof fn lemma_claims_supersede(g: u64, k: nat)
    requires
        0 < k < 0x1_0000_0000_0000_0000,
    ensures
        after_claims(g, k) != g,
{
}

/// What a controller connection's loop is woken by.
pub enum ControllerEvent<P> {
    /// The generation of the device owner changed: another connection
    /// claimed the devices.
    Superseded,
    /// A text message: the decoded control message, or `None` when it does
    /// not decode.
    Text(Option<InputEvent<P>>),
    /// A ping, with its payload.
    Ping(P),
    /// A close frame, a receive error, or the end of the stream.
    Closed,
    /// Any other frame.
    Other,
    /// The session mode or the encoder settings changed.
    SettingsChanged,
    /// The encoder settings are no longer published.
    SettingsGone,
    /// The session mode is no longer published.
    ModeGone,
}

/// What the loop does next.
pub enum ControllerAction<P> {
    /// End the connection.
    Stop,
    /// Make these calls, then send the settings rejection if one is pending.
    Dispatch(Vec<InputAction<P>>),
    /// Answer the ping with its payload.
    Pong(P),
    /// Send the tablet the current mode and settings.
    SendMode,
    /// Go on without following the encoder settings.
    StopWatchingSettings,
    /// Wait for the next event.
    Continue,
}

/// An action as a specification value: the calls of a dispatch as a
/// sequence.
pub enum StepView<P> {
    Stop,
    Dispatch(Seq<InputAction<P>>),
    Pong(P),
    SendMode,
    StopWatchingSettings,
    Continue,
}

pub open spec fn action_view<P>(a: ControllerAction<P>) -> StepView<P> {
    match a {
        ControllerAction::Stop => StepView::Stop,
        ControllerAction::Dispatch(calls) => StepView::Dispatch(calls@),
        ControllerAction::Pong(p) => StepView::Pong(p),
        ControllerAction::SendMode => StepView::SendMode,
        ControllerAction::StopWatchingSettings => StepView::StopWatchingSettings,
        ControllerAction::Continue => StepView::Continue,
    }
}

/// One step of a controller connection that holds lease `lease` while the
/// devices' current generation is `current`. Once another connection has
/// claimed the devices (`current != lease`) every step ends the connection:
/// nothing more is dispatched or sent. Otherwise a closed socket or a
/// vanished mode ends it; a decoded message is dispatched (an undecodable
/// one makes no call), after which any pending settings rejection is sent;
/// pings are answered and mode or settings changes are reported.
pub open spec fn controller_step_spec<P>(lease: u64, current: u64, pen_enabled: bool, event: ControllerEvent<P>) -> StepView<P> {
    if current != lease {
        StepView::Stop
    } else {
        step_under_lease(pen_enabled, event)
    }
}

pub open spec fn step_under_lease<P>(pen_enabled: bool, event: ControllerEvent<P>) -> StepView<P> {
    match event {
        ControllerEvent::Superseded => StepView::Stop,
        ControllerEvent::Closed => StepView::Stop,
        ControllerEvent::ModeGone => StepView::Stop,
        ControllerEvent::Text(None) => StepView::Dispatch(Seq::empty()),
        ControllerEvent::Text(Some(e)) => StepView::Dispatch(route_spec(e, pen_enabled)),
        ControllerEvent::Ping(p) => StepView::Pong(p),
        ControllerEvent::Other => StepView::Continue,
        ControllerEvent::SettingsChanged => StepView::SendMode,
        ControllerEvent::SettingsGone => StepView::StopWatchingSettings,
    }
}

pub fn controller_step<P>(lease: u64, current: u64, pen_enabled: bool, event: ControllerEvent<P>) -> (r: ControllerAction<P>)
    ensures
        action_view(r) == controller_step_spec(lease, current, pen_enabled, event),
{
    if current != lease {
        return ControllerAction::Stop;
    }
    match event {
        ControllerEvent::Superseded => ControllerAction::Stop,
        ControllerEvent::Closed => ControllerAction::Stop,
        ControllerEvent::ModeGone => ControllerAction::Stop,
        ControllerEvent::Text(None) => {
            let none: Vec<InputAction<P>> = Vec::new();
            assert(none@ =~= Seq::<InputAction<P>>::empty());
            ControllerAction::Dispatch(none)
        },
        ControllerEvent::Text(Some(e)) => ControllerAction::Dispatch(route(e, pen_enabled)),
        ControllerEvent::Ping(p) => ControllerAction::Pong(p),
        ControllerEvent::Other => ControllerAction::Continue,
        ControllerEvent::SettingsChanged => ControllerAction::SendMode,
        ControllerEvent::SettingsGone => ControllerAction::StopWatchingSettings,
    }
}

/// Ownership law: a connection whose lease is no longer the current
/// generation stops at its next step, whatever wakes it: it makes no device,
/// settings or latency call and sends nothing more.
pub proof fn lemma_superseded_makes_no_calls<P>(lease: u64, current: u64, pen_enabled: bool, event: ControllerEvent<P>)
    requires
        current != lease,
    ensures
        controller_step_spec(lease, current, pen_enabled, event) == StepView::<P>::Stop,
{
}

/// The first message of a controller connection, right after its claim:
/// the "connected" greeting when the claim still holds the devices; when
/// another connection has already claimed them, the connection ends without
/// a word.
pub open spec fn greets(lease: u64, current: u64) -> bool {
    lease == current
}

/// Whether a freshly claimed connection sends its "connected" greeting
/// (and then serves) or ends at once.
pub fn controller_open(lease: u64, current: u64) -> (greet: bool)
    ensures
        greet == greets(lease, current),
{
    lease == current
}

} // verus!
