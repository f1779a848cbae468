use morse_blink::events::{Event, DASH_MS, DOT_MS, LETTER_GAP_MS, PAUSE_MS, UNIT_MS, WORD_GAP_MS};
use morse_blink::port::RecordingPort;
use morse_blink::transmit::{transmit, TransmitError};

fn total_ms(events: &[Event]) -> u64 {
    let mut sum: u64 = 0;
    for e in events {
        if let Event::Delay(ms) = e {
            sum += *ms as u64;
        }
    }
    sum
}

fn pair_counts(events: &[Event]) -> (u64, u64) {
    let mut asserts: u64 = 0;
    let mut deasserts: u64 = 0;
    for e in events {
        match e {
            Event::Assert => asserts += 1,
            Event::Deassert => deasserts += 1,
            Event::Delay(_) => {}
        }
    }
    (asserts, deasserts)
}

#[test]
fn dot_sequence() {
    let mut port = RecordingPort::new();
    let r = transmit(&mut port, ".");
    assert!(r.is_ok());
    assert_eq!(
        port.events().as_slice(),
        &[Event::Assert, Event::Delay(200), Event::Deassert, Event::Delay(200)]
    );
    assert_eq!(total_ms(port.events()), 400);
    assert_eq!(pair_counts(port.events()), (1, 1));
}

#[test]
fn dash_sequence() {
    let mut port = RecordingPort::new();
    let r = transmit(&mut port, "-");
    assert!(r.is_ok());
    assert_eq!(
        port.events().as_slice(),
        &[Event::Assert, Event::Delay(600), Event::Deassert, Event::Delay(200)]
    );
    assert_eq!(total_ms(port.events()), 800);
}

#[test]
fn letter_space_sequence() {
    let mut port = RecordingPort::new();
    let r = transmit(&mut port, " ");
    assert!(r.is_ok());
    assert_eq!(port.events().as_slice(), &[Event::Delay(500), Event::Delay(200)]);
    assert_eq!(total_ms(port.events()), 700);
    assert_eq!(pair_counts(port.events()), (0, 0));
}

#[test]
fn word_space_sequence() {
    let mut port = RecordingPort::new();
    let r = transmit(&mut port, "/");
    assert!(r.is_ok());
    assert_eq!(port.events().as_slice(), &[Event::Delay(1000), Event::Delay(200)]);
    assert_eq!(total_ms(port.events()), 1200);
    assert_eq!(pair_counts(port.events()), (0, 0));
}

#[test]
fn dot_dash_is_dot_followed_by_dash() {
    let mut dot_port = RecordingPort::new();
    transmit(&mut dot_port, ".").unwrap();
    let mut dash_port = RecordingPort::new();
    transmit(&mut dash_port, "-").unwrap();
    let mut both_port = RecordingPort::new();
    transmit(&mut both_port, ".-").unwrap();

    let mut expected = dot_port.events().clone();
    expected.extend_from_slice(dash_port.events());
    assert_eq!(both_port.events(), &expected);
    assert_eq!(total_ms(both_port.events()), 1200);
}

#[test]
fn unknown_character_only_pauses() {
    let mut port = RecordingPort::new();
    let r = transmit(&mut port, "x");
    assert!(r.is_ok());
    assert_eq!(port.events().as_slice(), &[Event::Delay(200)]);
    assert_eq!(pair_counts(port.events()), (0, 0));
}

#[test]
fn empty_message_produces_nothing() {
    let mut port = RecordingPort::new();
    let r = transmit(&mut port, "");
    assert!(r.is_ok());
    assert!(port.events().is_empty());
}

#[test]
fn repeated_transmissions_are_identical() {
    let message = ".-.. / x.";
    let mut first = RecordingPort::new();
    transmit(&mut first, message).unwrap();
    let mut second = RecordingPort::new();
    transmit(&mut second, message).unwrap();
    assert_eq!(first.events(), second.events());

    let mut twice = RecordingPort::new();
    transmit(&mut twice, message).unwrap();
    transmit(&mut twice, message).unwrap();
    let n = first.events().len();
    assert_eq!(&twice.events()[..n], first.events().as_slice());
    assert_eq!(&twice.events()[n..], first.events().as_slice());
}

#[test]
fn pairs_match_signal_count() {
    let mut port = RecordingPort::new();
    transmit(&mut port, ".... . .-.. .-.. ---").unwrap();
    assert_eq!(pair_counts(port.events()), (16, 16));

    let mut silent = RecordingPort::new();
    transmit(&mut silent, " / ?a ").unwrap();
    assert_eq!(pair_counts(silent.events()), (0, 0));
}

#[test]
fn hello_message_duration() {
    let mut port = RecordingPort::new();
    transmit(&mut port, ".... . .-.. .-.. ---").unwrap();
    assert_eq!(total_ms(port.events()), 11200);
}

#[test]
fn assert_failure_aborts_transmission() {
    let mut port = RecordingPort::failing_on_assert(1);
    let r = transmit(&mut port, "...");
    assert_eq!(r, Err(TransmitError::SinkError));
    assert_eq!(
        port.events().as_slice(),
        &[Event::Assert, Event::Delay(200), Event::Deassert, Event::Delay(200)]
    );
}

#[test]
fn deassert_failure_leaves_partial_signal() {
    let mut port = RecordingPort::failing_on_deassert(0);
    let r = transmit(&mut port, "-.");
    assert_eq!(r, Err(TransmitError::SinkError));
    assert_eq!(port.events().as_slice(), &[Event::Assert, Event::Delay(600)]);
}

#[test]
fn failure_before_any_signal_leaves_earlier_characters_only() {
    let mut port = RecordingPort::failing_on_assert(0);
    let r = transmit(&mut port, " .");
    assert_eq!(r, Err(TransmitError::SinkError));
    assert_eq!(port.events().as_slice(), &[Event::Delay(500), Event::Delay(200)]);
}

#[test]
fn durations_are_fixed_multiples_of_the_unit() {
    assert_eq!(DOT_MS, UNIT_MS);
    assert_eq!(PAUSE_MS, UNIT_MS);
    assert_eq!(DASH_MS, 3 * UNIT_MS);
    assert_eq!(WORD_GAP_MS, 5 * UNIT_MS);
    assert_eq!(2 * LETTER_GAP_MS, 5 * UNIT_MS);
}
