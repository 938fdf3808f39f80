use blent_host::controllers::{
    controller_open, controller_step, ControllerAction, ControllerEvent, Controllers,
};
use blent_host::input::{
    authenticate, route, Admission, AuthAction, FirstMessage, InputAction, InputEvent,
    MAX_INPUT_CONNECTIONS,
};

fn calls(actions: &[InputAction<u8>]) -> Vec<String> {
    actions
        .iter()
        .map(|a| match a {
            InputAction::NoteInteraction => "note".to_string(),
            InputAction::Touch(p) => format!("touch {p}"),
            InputAction::Pen { sample, pen_enabled } => format!("pen {sample} {pen_enabled}"),
            InputAction::Resolution(p) => format!("resolution {p}"),
            InputAction::Decoders(p) => format!("decoders {p}"),
            InputAction::Rendered(p) => format!("rendered {p}"),
            InputAction::Configure(p) => format!("configure {p}"),
            InputAction::Mode(m) => format!("mode {m}"),
        })
        .collect()
}

#[test]
fn touch_and_pen_note_an_interaction_before_reaching_their_device() {
    assert_eq!(calls(&route(InputEvent::Touch { contact: 7u8 }, true)), ["note", "touch 7"]);
    assert_eq!(calls(&route(InputEvent::Pen { sample: 9u8 }, false)), ["note", "pen 9 false"]);
    assert_eq!(calls(&route(InputEvent::Pen { sample: 9u8 }, true)), ["note", "pen 9 true"]);
}

#[test]
fn settings_messages_make_one_call_and_the_token_none() {
    assert_eq!(calls(&route(InputEvent::Resolution { size: 1u8 }, true)), ["resolution 1"]);
    assert_eq!(calls(&route(InputEvent::Decoders { capabilities: 2u8 }, true)), ["decoders 2"]);
    assert_eq!(calls(&route(InputEvent::Rendered { receipt: 3u8 }, true)), ["rendered 3"]);
    assert_eq!(calls(&route(InputEvent::Config { request: 4u8 }, true)), ["configure 4"]);
    assert_eq!(calls(&route(InputEvent::Mode::<u8> { pen_only: true }, true)), ["mode true"]);
    assert!(route(InputEvent::Auth { token: 5u8 }, true).is_empty());
}

#[test]
fn a_superseded_controller_stops_instead_of_dispatching() {
    let mut controllers = Controllers::new();
    let first = controllers.claim();
    let second = controllers.claim();
    let current = second;
    let event = || ControllerEvent::Text(Some(InputEvent::Touch { contact: 1u8 }));
    assert!(matches!(controller_step(first, current, true, event()), ControllerAction::Stop));
    match controller_step(second, current, true, event()) {
        ControllerAction::Dispatch(actions) => assert_eq!(calls(&actions), ["note", "touch 1"]),
        _ => panic!("the current controller's touch is dispatched"),
    }
    assert!(matches!(controller_step(first, current, true, ControllerEvent::Ping(6u8)), ControllerAction::Stop));
    assert!(matches!(
        controller_step(first, current, true, ControllerEvent::<u8>::SettingsChanged),
        ControllerAction::Stop
    ));
    assert!(matches!(controller_step(first, current, true, ControllerEvent::<u8>::Text(None)), ControllerAction::Stop));
    match controller_step(second, current, true, ControllerEvent::<u8>::Text(None)) {
        ControllerAction::Dispatch(actions) => assert!(actions.is_empty()),
        _ => panic!("an undecodable message is skipped"),
    }
    assert!(matches!(controller_step(second, current, true, ControllerEvent::<u8>::Superseded), ControllerAction::Stop));
    assert!(matches!(controller_step(second, current, true, ControllerEvent::<u8>::Closed), ControllerAction::Stop));
    assert!(matches!(controller_step(second, current, true, ControllerEvent::<u8>::ModeGone), ControllerAction::Stop));
    assert!(matches!(controller_step(second, current, true, ControllerEvent::Ping(6u8)), ControllerAction::Pong(6)));
    assert!(matches!(controller_step(second, current, true, ControllerEvent::<u8>::Other), ControllerAction::Continue));
    assert!(matches!(controller_step(second, current, true, ControllerEvent::<u8>::SettingsChanged), ControllerAction::SendMode));
    assert!(matches!(
        controller_step(second, current, true, ControllerEvent::<u8>::SettingsGone),
        ControllerAction::StopWatchingSettings
    ));
}

#[test]
fn a_claim_overtaken_before_the_greeting_ends_silently() {
    let mut controllers = Controllers::new();
    let first = controllers.claim();
    assert!(controller_open(first, first));
    let second = controllers.claim();
    assert!(!controller_open(first, second));
    assert!(controller_open(second, second));
}

#[test]
fn connections_authenticate_with_the_session_token_first() {
    assert_eq!(authenticate(None, FirstMessage::Missing), AuthAction::Serve);
    assert_eq!(authenticate(Some("s3cret"), FirstMessage::Auth("s3cret".into())), AuthAction::Serve);
    assert_eq!(authenticate(Some("s3cret"), FirstMessage::Auth("s3cre".into())), AuthAction::Refuse);
    assert_eq!(authenticate(Some("s3cret"), FirstMessage::Other), AuthAction::Refuse);
    assert_eq!(authenticate(Some("s3cret"), FirstMessage::Missing), AuthAction::Refuse);
}

#[test]
fn at_most_sixteen_input_connections_are_admitted() {
    let mut admission = Admission::new();
    for _ in 0..MAX_INPUT_CONNECTIONS {
        assert!(admission.try_admit());
    }
    assert!(!admission.try_admit(), "a seventeenth connection is dropped");
    admission.release();
    assert!(admission.try_admit());
}
