use server::controller::event::{blank_translation, Action, Event, Mode, Rules};
use server::controller::{combine, route, Context, ContextBuilder, Dispatch, Manager, Seat, Setup};
use server::error::{Error, ErrorKind};

fn lines(text: &[&str]) -> Vec<String> {
    text.iter().map(|line| String::from(*line)).collect()
}

fn names() -> Vec<String> {
    vec![String::from("a"), String::from("b")]
}

fn error(kind: ErrorKind, line: usize, detail: &str) -> Error {
    Error { kind, line, detail: String::from(detail) }
}

fn rules() -> Rules {
    Rules {
        bytes_id: Some(vec![1]),
        bytes_value: Some(vec![2, 3]),
        value_up: Some(0),
        value_down: Some(0x0400),
        value_repeat: None,
        value_center: None,
    }
}

fn event(identifier: u64, bindings: &[(usize, Action)]) -> Event {
    let mut translation = blank_translation();
    for (slot, action) in bindings {
        translation[*slot] = *action;
    }
    Event { modes: vec![Mode::new(translation, 0)], base_mode: None, rules: rules(), identifier }
}

fn context(events: Vec<Event>) -> Context {
    Context { events, bytes_event: vec![0], source: String::from("/dev/input/event0"), width: 4, verbose: false }
}

#[test]
fn a_message_holds_target_modifiers_and_character() {
    assert_eq!(combine(0, 0, 0x41), 0x0000_0041);
    assert_eq!(combine(2, 0, 0x41), 0x0200_0041);
    assert_eq!(combine(1, 0b1000, 0x61), 0x0100_0861);
    assert_eq!(combine(255, 255, 255), 0xff00_ffff);
}

#[test]
fn a_message_is_routed_to_its_target() {
    assert_eq!(route(0x0200_0041), (2, 0x0041));
    assert_eq!(route(0x0100_0861), (1, 0x0861));
    assert_eq!(route(0xffff_ffff), (255, 0xffff));
    assert_eq!(route(0), (0, 0));
}

#[test]
fn routing_undoes_combining() {
    for target in [0u8, 1, 7, 255] {
        for modifiers in [0u8, 1, 0x80, 0xff] {
            for character in [0u8, 0x41, 0xff] {
                let (index, data) = route(combine(target, modifiers, character));
                assert_eq!(index, target as usize);
                assert_eq!(data, (modifiers as u16) << 8 | character as u16);
            }
        }
    }
}

#[test]
fn a_report_of_a_pressed_key_gives_a_message() {
    let context = context(vec![event(0, &[(0x0c, Action::Press(0x41))])]);
    let mut target = 1;
    let mut modifiers = 0;
    let message = context.dispatch(&vec![0x00, 0x0c, 0x04, 0x00], &mut target, &mut modifiers);
    assert_eq!(message, Some(0x0100_0041));
    assert_eq!((target, modifiers), (1, 0));
}

#[test]
fn a_switch_of_target_sends_the_next_character_there() {
    let context = context(vec![event(0, &[(1, Action::Target(1)), (2, Action::Press(0x41))])]);
    let mut target = 0;
    let mut modifiers = 0;
    assert_eq!(context.dispatch(&vec![0, 1, 4, 0], &mut target, &mut modifiers), None);
    assert_eq!(target, 1);
    let message = context.dispatch(&vec![0, 2, 4, 0], &mut target, &mut modifiers).unwrap();
    assert_eq!(route(message), (1, 0x0041));
    let manager = Manager::new(&vec![0], &vec![1]).unwrap();
    assert_eq!(manager.deliver(message), Some((Seat::Ethernet(0), 0x0041)));
}

#[test]
fn a_message_carries_the_modifiers_after_the_translation() {
    let context = context(vec![event(0, &[(1, Action::Hold(3)), (2, Action::Press(b'x'))])]);
    let mut events = context.events;
    let mut shifted = blank_translation();
    shifted[2] = Action::Press(b'X');
    events[0].modes.push(Mode::new(shifted, 0b1000));
    let context = Context { events, bytes_event: vec![0], source: String::new(), width: 4, verbose: true };
    let mut target = 0;
    let mut modifiers = 0;
    assert_eq!(context.dispatch(&vec![0, 1, 4, 0], &mut target, &mut modifiers), None);
    assert_eq!(modifiers, 0b1000);
    assert_eq!(
        context.dispatch(&vec![0, 2, 4, 0], &mut target, &mut modifiers),
        Some(0x0000_0800 | b'X' as u32)
    );
}

#[test]
fn the_event_with_the_identifier_of_the_report_translates_it() {
    let context = context(vec![
        event(1, &[(5, Action::Press(b'1'))]),
        event(2, &[(5, Action::Press(b'2'))]),
    ]);
    assert_eq!(context.try_dispatch(&vec![1, 5, 4, 0], 0, 0).unwrap().message, Some(b'1' as u32));
    assert_eq!(context.try_dispatch(&vec![2, 5, 4, 0], 0, 0).unwrap().message, Some(b'2' as u32));
    assert_eq!(
        context.try_dispatch(&vec![3, 5, 4, 0], 4, 5),
        Some(Dispatch { message: None, target: 4, modifiers: 5 })
    );
    assert_eq!(context.find(2).unwrap().identifier, 2);
    assert!(context.find(3).is_none());
}

#[test]
fn a_report_that_is_not_accepted_is_told() {
    let context = context(vec![event(0, &[(5, Action::Press(b'1'))])]);
    assert_eq!(context.try_dispatch(&Vec::new(), 0, 0), None);
    assert_eq!(context.try_dispatch(&vec![0], 0, 0), None);
    assert_eq!(context.try_dispatch(&vec![0, 200, 4, 0], 0, 0), None);
    assert!(context.try_dispatch(&vec![9], 0, 0).is_some());
}

#[test]
fn a_controller_is_set_up_from_its_lines_and_those_of_its_events() {
    let mut setup = Setup::new(
        &lines(&[
            "?source /dev/input/event3",
            "?width 8",
            "?verbose enabled",
            "?target b",
            ":byte event 0 ;",
            ":byte id 1 ;",
            ":byte value 2 3 ;",
            ":value down 1024",
            "@event keys/",
            ":event letters 1",
            ":value down 2048",
            ":event digits 2",
        ]),
        &names(),
    );
    assert_eq!(setup.next(), Ok(Some(String::from("keys/letters"))));
    assert_eq!(setup.next(), Ok(Some(String::from("keys/letters"))));
    assert_eq!(setup.builder.request.as_ref().unwrap().identifier, 1);
    assert_eq!(setup.supply(&lines(&[":mode base", ":press 4 ba"])), Ok(()));
    assert_eq!(setup.next(), Ok(Some(String::from("keys/digits"))));
    assert_eq!(setup.supply(&lines(&[":mode base", ":press 4 b1", ":value up 0"])), Ok(()));
    assert_eq!(setup.next(), Ok(None));
    let (context, target) = setup.finish().unwrap();
    assert_eq!(target, 1);
    assert_eq!(context.source, "/dev/input/event3");
    assert_eq!(context.width, 8);
    assert!(context.verbose);
    assert_eq!(context.bytes_event, vec![0]);
    assert_eq!(context.events.len(), 2);
    assert_eq!(context.events[0].identifier, 1);
    assert_eq!(context.events[0].rules.value_down, Some(1024));
    assert_eq!(context.events[1].identifier, 2);
    assert_eq!(context.events[1].rules.value_down, Some(2048));
    assert_eq!(context.events[1].rules.value_up, Some(0));
    assert_eq!(context.events[0].rules.value_up, None);
    let mut target = target;
    let mut modifiers = 0;
    assert_eq!(
        context.dispatch(&vec![1, 4, 4, 0, 0, 0, 0, 0], &mut target, &mut modifiers),
        Some(0x0100_0000 | b'a' as u32)
    );
    assert_eq!(
        context.dispatch(&vec![2, 4, 8, 0, 0, 0, 0, 0], &mut target, &mut modifiers),
        Some(0x0100_0000 | b'1' as u32)
    );
}

#[test]
fn two_events_do_not_share_an_identifier() {
    let mut setup = Setup::new(&lines(&[":byte id 1 ;", ":event a 1", ":event b 1"]), &names());
    assert_eq!(setup.next(), Ok(Some(String::from("a"))));
    assert_eq!(setup.supply(&Vec::new()), Ok(()));
    assert_eq!(setup.next(), Err(error(ErrorKind::DuplicateEvent, 3, "b")));
}

#[test]
fn an_event_that_is_rejected_is_not_added() {
    let mut setup = Setup::new(&lines(&[":event a 1"]), &names());
    assert_eq!(setup.next(), Ok(Some(String::from("a"))));
    assert_eq!(setup.supply(&lines(&[":mode base"])), Err(error(ErrorKind::NoSlotBytes, 1, "")));
    assert!(setup.builder.events.is_empty());
    assert!(setup.builder.request.is_some());
}

#[test]
fn a_controller_needs_a_source_and_a_width() {
    let mut setup = Setup::new(&lines(&["?width 4"]), &names());
    assert_eq!(setup.next(), Ok(None));
    assert_eq!(setup.finish(), Err(error(ErrorKind::NoSource, 1, "")));
    let mut setup = Setup::new(&lines(&["?source x"]), &names());
    assert_eq!(setup.next(), Ok(None));
    assert_eq!(setup.finish(), Err(error(ErrorKind::NoWidth, 1, "")));
    let mut setup = Setup::new(&Vec::new(), &names());
    assert_eq!(setup.next(), Ok(None));
    assert_eq!(setup.finish(), Err(error(ErrorKind::NoSource, 0, "")));
}

#[test]
fn the_settings_of_a_controller_are_given_once() {
    let mut setup = Setup::new(&lines(&["?source x", "?source y"]), &names());
    assert_eq!(setup.next(), Err(error(ErrorKind::RepeatedCall, 2, "source")));
    let mut setup = Setup::new(&lines(&[": source x"]), &names());
    assert_eq!(setup.next(), Err(error(ErrorKind::InvalidKeyword, 1, "")));
    let mut setup = Setup::new(&lines(&[":source x"]), &names());
    assert_eq!(setup.next(), Err(error(ErrorKind::SingleCall, 1, "source")));
    let mut setup = Setup::new(&lines(&["@width 3"]), &names());
    assert_eq!(setup.next(), Err(error(ErrorKind::SingleCall, 1, "width")));
    let mut setup = Setup::new(&lines(&["?event a 1"]), &names());
    assert_eq!(setup.next(), Err(error(ErrorKind::PrefixedCall, 1, "event")));
}

#[test]
fn the_operands_of_a_controller_are_checked() {
    let mut setup = Setup::new(&lines(&["? verbose yes"]), &names());
    assert_eq!(setup.next(), Err(error(ErrorKind::InvalidKeyword, 1, "")));
    let mut setup = Setup::new(&lines(&["?verbose yes"]), &names());
    assert_eq!(setup.next(), Err(error(ErrorKind::InvalidState, 1, "yes")));
    let mut setup = Setup::new(&lines(&["?target c"]), &names());
    assert_eq!(setup.next(), Err(error(ErrorKind::ClientNotFound, 1, "c")));
    let mut setup = Setup::new(&lines(&["?width wide"]), &names());
    assert_eq!(setup.next(), Err(error(ErrorKind::InvalidNumber, 1, "wide")));
    let mut setup = Setup::new(&lines(&["?source"]), &names());
    assert_eq!(setup.next(), Err(error(ErrorKind::MissingOperand, 1, "no source name specified")));
    let mut setup = Setup::new(&lines(&[":event"]), &names());
    assert_eq!(setup.next(), Err(error(ErrorKind::MissingOperand, 1, "no event name specified")));
    let mut setup = Setup::new(&lines(&[":event a"]), &names());
    assert_eq!(setup.next(), Err(error(ErrorKind::MissingOperand, 1, "no number specified")));
    let mut setup = Setup::new(&lines(&[":byte other 1 ;"]), &names());
    assert_eq!(setup.next(), Err(error(ErrorKind::InvalidByteRule, 1, "other")));
}

#[test]
fn a_builder_knows_the_events_it_holds() {
    let mut builder = ContextBuilder::new(&names());
    assert!(!builder.has_event(1));
    builder.events.push(event(1, &[]));
    assert!(builder.has_event(1));
    assert!(!builder.has_event(2));
}

#[test]
fn clients_are_seated_by_their_indices() {
    let manager = Manager::new(&vec![2, 0], &vec![1, 3]).unwrap();
    assert_eq!(manager.seats, vec![Seat::Serial(1), Seat::Ethernet(0), Seat::Serial(0), Seat::Ethernet(1)]);
    assert_eq!(Manager::new(&Vec::new(), &Vec::new()).unwrap().seats, Vec::new());
}

#[test]
fn clients_with_a_gap_in_their_indices_are_not_seated() {
    assert_eq!(Manager::new(&vec![0], &vec![2]), None);
    assert_eq!(Manager::new(&vec![1], &Vec::new()), None);
    assert_eq!(Manager::new(&vec![0, 0], &Vec::new()), None);
    assert_eq!(Manager::new(&vec![0], &vec![0]), None);
}

#[test]
fn a_message_for_no_client_goes_nowhere() {
    let manager = Manager::new(&vec![0], &vec![1]).unwrap();
    assert_eq!(manager.deliver(0x0000_0141), Some((Seat::Serial(0), 0x0141)));
    assert_eq!(manager.deliver(0x0200_0041), None);
}
