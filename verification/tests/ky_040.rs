use swarm_lib::sensors::ky_040::{Direction, EncoderInput, Event, RotaryEncoder, State};

fn feed(enc: &mut RotaryEncoder, readings: &[u32]) -> Vec<Option<Event>> {
    readings
        .iter()
        .map(|&reading| enc.next_event(EncoderInput::Rotation { reading }))
        .collect()
}

#[test]
fn clockwise_detent_reports_once() {
    let mut enc = RotaryEncoder::new();
    let out = feed(&mut enc, &[1, 0, 2, 3]);
    assert_eq!(out, vec![None, None, None, Some(Event::RotationClockwise)]);
    assert_eq!(enc.state(), State::Start);
}

#[test]
fn counter_clockwise_detent_reports_once() {
    let mut enc = RotaryEncoder::new();
    let out = feed(&mut enc, &[2, 0, 1, 3]);
    assert_eq!(out, vec![None, None, None, Some(Event::RotationAntiClockwise)]);
    assert_eq!(enc.state(), State::Start);
}

#[test]
fn bouncing_contacts_still_give_one_event() {
    let mut enc = RotaryEncoder::new();
    let out = feed(&mut enc, &[1, 0, 1, 0, 2, 0, 2, 3]);
    let events: Vec<Event> = out.into_iter().flatten().collect();
    assert_eq!(events, vec![Event::RotationClockwise]);
}

#[test]
fn reversing_midway_reports_nothing() {
    let mut enc = RotaryEncoder::new();
    let out = feed(&mut enc, &[1, 0, 1, 3]);
    assert!(out.iter().all(|e| e.is_none()));
    assert_eq!(enc.state(), State::Start);
}

#[test]
fn rest_always_returns_to_start() {
    for (state, reading) in [
        (State::CWBegin, 3),
        (State::CWNext, 3),
        (State::CCWBegin, 3),
        (State::CCWNext, 3),
        (State::CCWFinal, 3),
    ] {
        assert_eq!(RotaryEncoder::buxton_lookup(state, reading).0, State::Start);
    }
    assert_eq!(RotaryEncoder::buxton_lookup(State::CWFinal, 3), (State::Start, Direction::CW));
    assert_eq!(RotaryEncoder::buxton_lookup(State::CCWFinal, 3), (State::Start, Direction::CCW));
}

#[test]
fn lookup_table_rows() {
    let (st, cb, cn, cf) = (State::Start, State::CWBegin, State::CWNext, State::CWFinal);
    let (ab, an, af) = (State::CCWBegin, State::CCWNext, State::CCWFinal);
    let expect = [
        [st, cb, ab, st],
        [cn, cb, st, st],
        [cn, cb, cf, st],
        [cn, st, cf, st],
        [an, st, ab, st],
        [an, af, ab, st],
        [an, af, st, st],
    ];
    let states = [st, cb, cn, cf, ab, an, af];
    for (i, s) in states.iter().enumerate() {
        for r in 0..4usize {
            assert_eq!(RotaryEncoder::buxton_lookup(*s, r).0, expect[i][r]);
        }
    }
}

#[test]
fn switch_reports_press_and_release_without_losing_position() {
    let mut enc = RotaryEncoder::new();
    assert_eq!(enc.next_event(EncoderInput::Rotation { reading: 1 }), None);
    assert_eq!(enc.state(), State::CWBegin);
    assert_eq!(enc.next_event(EncoderInput::Switch { low: true }), Some(Event::PressDown));
    assert_eq!(enc.state(), State::CWBegin);
    assert_eq!(enc.next_event(EncoderInput::Switch { low: false }), Some(Event::PressUp));
    let out = feed(&mut enc, &[0, 2, 3]);
    assert_eq!(out, vec![None, None, Some(Event::RotationClockwise)]);
}
