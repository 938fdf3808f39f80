//! Routing of the tablet's control messages. Each decoded message turns into
//! the calls it makes on the virtual input devices, the session settings and
//! the latency tracker; the payloads (touch and pen samples, requested sizes,
//! decoder reports) pass through unchanged, so `P` is whatever the wire
//! decoding produces for them.
use vstd::prelude::*;
use crate::text::str_eq;

verus! {

/// A decoded control message from the tablet.
pub enum InputEvent<P> {
    /// A touch contact: position, pressure, action and slot.
    Touch { contact: P },
    /// A pen sample: position, pressure, tilt, eraser, button and action.
    Pen { sample: P },
    /// The tablet's pixel and physical size.
    Resolution { size: P },
    /// The decoders the tablet reports.
    Decoders { capabilities: P },
    /// A picture the tablet rendered, with its decode time and decoder.
    Rendered { receipt: P },
    /// Requested bitrate, frame rate and encoder.
    Config { request: P },
    /// The authentication token, already checked when the connection opened.
    Auth { token: P },
    /// Pen-only mode on or off.
    Mode { pen_only: bool },
}

/// One call that a message makes.
pub enum InputAction<P> {
    /// The user interacted: the latency tracker notes it.
    NoteInteraction,
    /// A touch contact for the touchscreen device.
    Touch(P),
    /// A pen sample for the pen device, which drops it when the pen is off.
    Pen { sample: P, pen_enabled: bool },
    /// The tablet's size, for the session settings.
    Resolution(P),
    /// The tablet's decoders, for the session settings.
    Decoders(P),
    /// A render receipt, for the latency tracker.
    Rendered(P),
    /// A settings request, for the session settings.
    Configure(P),
    /// Pen-only mode, for the session settings.
    Mode(bool),
}

/// The calls a message makes, in order: touch and pen input note an
/// interaction and then reach their device; each settings or latency message
/// makes its one call; the token makes none.
pub open spec fn route_spec<P>(event: InputEvent<P>, pen_enabled: bool) -> Seq<InputAction<P>> {
    match event {
        InputEvent::Touch { contact } => seq![InputAction::NoteInteraction, InputAction::Touch(contact)],
        InputEvent::Pen { sample } => seq![
            InputAction::NoteInteraction,
            InputAction::Pen { sample, pen_enabled },
        ],
        InputEvent::Resolution { size } => seq![InputAction::Resolution(size)],
        InputEvent::Decoders { capabilities } => seq![InputAction::Decoders(capabilities)],
        InputEvent::Rendered { receipt } => seq![InputAction::Rendered(receipt)],
        InputEvent::Config { request } => seq![InputAction::Configure(request)],
        InputEvent::Auth { .. } => Seq::empty(),
        InputEvent::Mode { pen_only } => seq![InputAction::Mode(pen_only)],
    }
}

/// The calls that a message from the controlling tablet makes.
pub fn route<P>(event: InputEvent<P>, pen_enabled: bool) -> (r: Vec<InputAction<P>>)
    ensures
        r@ == route_spec(event, pen_enabled),
{
    let ghost e = event;
    let mut out: Vec<InputAction<P>> = Vec::new();
    match event {
        InputEvent::Touch { contact } => {
            out.push(InputAction::NoteInteraction);
            out.push(InputAction::Touch(contact));
        },
        InputEvent::Pen { sample } => {
            out.push(InputAction::NoteInteraction);
            out.push(InputAction::Pen { sample, pen_enabled });
        },
        InputEvent::Resolution { size } => {
            out.push(InputAction::Resolution(size));
        },
        InputEvent::Decoders { capabilities } => {
            out.push(InputAction::Decoders(capabilities));
        },
        InputEvent::Rendered { receipt } => {
            out.push(InputAction::Rendered(receipt));
        },
        InputEvent::Config { request } => {
            out.push(InputAction::Configure(request));
        },
        InputEvent::Auth { .. } => {},
        InputEvent::Mode { pen_only } => {
            out.push(InputAction::Mode(pen_only));
        },
    }
    assert(out@ =~= route_spec(e, pen_enabled));
    out
}

/// The first message a new input connection sends, when a session token is
/// required.
pub enum FirstMessage<T> {
    /// An authentication message carrying this token.
    Auth(T),
    /// Any other message, or text that does not decode.
    Other,
    /// Nothing before the deadline, a close, or a receive error.
    Missing,
}

/// Whether a new input connection is served.
#[derive(Clone, Copy, Debug, PartialEq, Eq, Structural)]
pub enum AuthAction {
    /// Go on to claim the devices and serve the controller.
    Serve,
    /// Refuse it: ask for the app to be relaunched (so that it receives the
    /// token) and close the connection.
    Refuse,
}

pub open spec fn first_view(m: FirstMessage<String>) -> FirstMessage<Seq<char>> {
    match m {
        FirstMessage::Auth(t) => FirstMessage::Auth(t@),
        FirstMessage::Other => FirstMessage::Other,
        FirstMessage::Missing => FirstMessage::Missing,
    }
}

/// Authentication before anything else: without a configured token every
/// connection is served; with one, only a connection whose first message is
/// an authentication carrying exactly that token.
pub open spec fn auth_spec(expected: Option<Seq<char>>, first: FirstMessage<Seq<char>>) -> AuthAction {
    match expected {
        None => AuthAction::Serve,
        Some(t) => match first {
            FirstMessage::Auth(token) => if token == t {
                AuthAction::Serve
            } else {
                AuthAction::Refuse
            },
            _ => AuthAction::Refuse,
        },
    }
}

pub fn authenticate(expected: Option<&str>, first: FirstMessage<String>) -> (r: AuthAction)
    ensures
        r == auth_spec(
            match expected {
                Some(t) => Some(t@),
                None => None,
            },
            first_view(first),
        ),
{
    match expected {
        None => AuthAction::Serve,
        Some(t) => match first {
            FirstMessage::Auth(token) => if str_eq(token.as_str(), t) {
                AuthAction::Serve
            } else {
                AuthAction::Refuse
            },
            _ => AuthAction::Refuse,
        },
    }
}

/// Most input connections served or still authenticating at once.
pub const MAX_INPUT_CONNECTIONS: usize = 16;

/// Admission of input connections: each holds a slot from acceptance until
/// it ends; a connection accepted while every slot is held is dropped at
/// once.
pub struct Admission {
    held: usize,
}

impl View for Admission {
    type V = nat;

    closed spec fn view(&self) -> nat {
        self.held as nat
    }
}

impl Admission {
    pub open spec fn wf(&self) -> bool {
        self@ <= MAX_INPUT_CONNECTIONS
    }

    pub fn new() -> (r: Admission)
        ensures
            r.wf(),
            r@ == 0,
    {
        Admission { held: 0 }
    }

    /// Take a slot for a newly accepted connection, if one is free.
    pub fn try_admit(&mut self) -> (admitted: bool)
        requires
            old(self).wf(),
        ensures
            final(self).wf(),
            admitted == (old(self)@ < MAX_INPUT_CONNECTIONS),
            final(self)@ == (if admitted {
                old(self)@ + 1
            } else {
                old(self)@
            }),
    {
        if self.held < MAX_INPUT_CONNECTIONS {
            self.held = self.held + 1;
            true
        } else {
            false
        }
    }

    /// A connection ended and gives its slot back.
    pub fn release(&mut self)
        requires
            old(self).wf(),
            old(self)@ > 0,
        ensures
            final(self).wf(),
            final(self)@ == old(self)@ - 1,
    {
        self.held = self.held - 1;
    }
}

} // verus!
