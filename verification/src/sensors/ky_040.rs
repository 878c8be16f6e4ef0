//! KY-040 rotary encoder with push switch.
//!
//! The two quadrature contacts are sampled by a PIO program that pushes the
//! pair of pin levels (`0..=3`) every time it changes; the switch is read as
//! a GPIO after a debounce delay. The decoding below is Ben Buxton's
//! full-step state machine: a rotation is reported once per detent, when the
//! contacts come back to rest (`0b11`) after passing through every
//! intermediate position in order, so contact bounce within a step produces
//! no event.

use vstd::prelude::*;

verus! {

/// Delay, in milliseconds, between a switch edge and reading its level.
pub const SWITCH_DEBOUNCE_MS: u64 = 20;

/// Clock divider of the PIO state machine that samples the contacts.
pub const PIO_CLOCK_DIVIDER: u16 = 1_000;

/// The contacts' reading at a detent: both pins high.
pub const REST: u32 = 3;

/// What the encoder reports.
#[derive(Clone, Copy, PartialEq, Eq, Structural, Debug)]
pub enum Event {
    RotationClockwise,
    RotationAntiClockwise,
    PressDown,
    PressUp,
}

/// Position within the current detent.
#[derive(Clone, Copy, PartialEq, Eq, Structural, Debug)]
pub enum State {
    Start,
    CWBegin,
    CWNext,
    CWFinal,
    CCWBegin,
    CCWNext,
    CCWFinal,
}

/// Direction of a completed detent, if any.
#[derive(Clone, Copy, PartialEq, Eq, Structural, Debug)]
pub enum Direction {
    Idle,
    CW,
    CCW,
}

/// What the firmware observed while waiting.
#[derive(Clone, Copy, PartialEq, Eq, Structural, Debug)]
pub enum EncoderInput {
    /// The switch changed; `low` is its level after the debounce delay
    /// (the switch pulls the pin low when pressed).
    Switch { low: bool },
    /// The PIO program pushed a new pair of contact levels.
    Rotation { reading: u32 },
}

/// Ben Buxton's transition table, row by row: the next state and the
/// completed direction for a state and a contact reading.
pub open spec fn transition(state: State, reading: int) -> (State, Direction) {
    match state {
        State::Start => if reading == 0 {
            (State::Start, Direction::Idle)
        } else if reading == 1 {
            (State::CWBegin, Direction::Idle)
        } else if reading == 2 {
            (State::CCWBegin, Direction::Idle)
        } else {
            (State::Start, Direction::Idle)
        },
        State::CWBegin => if reading == 0 {
            (State::CWNext, Direction::Idle)
        } else if reading == 1 {
            (State::CWBegin, Direction::Idle)
        } else {
            (State::Start, Direction::Idle)
        },
        State::CWNext => if reading == 0 {
            (State::CWNext, Direction::Idle)
        } else if reading == 1 {
            (State::CWBegin, Direction::Idle)
        } else if reading == 2 {
            (State::CWFinal, Direction::Idle)
        } else {
            (State::Start, Direction::Idle)
        },
        State::CWFinal => if reading == 0 {
            (State::CWNext, Direction::Idle)
        } else if reading == 1 {
            (State::Start, Direction::Idle)
        } else if reading == 2 {
            (State::CWFinal, Direction::Idle)
        } else {
            (State::Start, Direction::CW)
        },
        State::CCWBegin => if reading == 0 {
            (State::CCWNext, Direction::Idle)
        } else if reading == 1 {
            (State::Start, Direction::Idle)
        } else if reading == 2 {
            (State::CCWBegin, Direction::Idle)
        } else {
            (State::Start, Direction::Idle)
        },
        State::CCWNext => if reading == 0 {
            (State::CCWNext, Direction::Idle)
        } else if reading == 1 {
            (State::CCWFinal, Direction::Idle)
        } else if reading == 2 {
            (State::CCWBegin, Direction::Idle)
        } else {
            (State::Start, Direction::Idle)
        },
        State::CCWFinal => if reading == 0 {
            (State::CCWNext, Direction::Idle)
        } else if reading == 1 {
            (State::CCWFinal, Direction::Idle)
        } else if reading == 2 {
            (State::Start, Direction::Idle)
        } else {
            (State::Start, Direction::CCW)
        },
    }
}

/// The event that a completed direction is reported as.
pub open spec fn rotation_event(direction: Direction) -> Option<Event> {
    match direction {
        Direction::Idle => None,
        Direction::CW => Some(Event::RotationClockwise),
        Direction::CCW => Some(Event::RotationAntiClockwise),
    }
}

/// One step of the decoder: the next state and what is reported, if anything.
pub open spec fn step(state: State, input: EncoderInput) -> (State, Option<Event>) {
    match input {
        EncoderInput::Switch { low } => (
            state,
            Some(
                if low {
                    Event::PressDown
                } else {
                    Event::PressUp
                },
            ),
        ),
        EncoderInput::Rotation { reading } => {
            let (next, direction) = transition(state, reading as int);
            (next, rotation_event(direction))
        },
    }
}

/// An input the decoder can be handed: readings are two pin levels.
pub open spec fn valid_input(input: EncoderInput) -> bool {
    input matches EncoderInput::Rotation { reading } ==> reading < 4
}

/// The state after a run of contact readings, and what each reading reported.
pub open spec fn run(state: State, readings: Seq<int>) -> (State, Seq<Option<Event>>)
    decreases readings.len(),
{
    if readings.len() == 0 {
        (state, Seq::empty())
    } else {
        let (next, direction) = transition(state, readings[0]);
        let (last, rest) = run(next, readings.drop_first());
        (last, seq![rotation_event(direction)] + rest)
    }
}

/// Coming to rest ends every detent: from any position, the rest reading
/// returns the decoder to `Start`.
pub proof fn lemma_rest_returns_to_start(state: State)
    ensures
        transition(state, REST as int).0 == State::Start,
{
}

/// A rotation is reported only when the contacts come to rest from the last
/// position of a detent, and always then.
pub proof fn lemma_rotation_only_at_rest(state: State, reading: int)
    requires
        0 <= reading < 4,
    ensures
        transition(state, reading).1 == Direction::CW <==> (reading == REST && state
            == State::CWFinal),
        transition(state, reading).1 == Direction::CCW <==> (reading == REST && state
            == State::CCWFinal),
{
}

/// After the contacts have been at rest, one full clockwise detent
/// (`01`, `00`, `10`, back to rest) reports exactly one clockwise rotation,
/// when it completes.
pub proof fn lemma_full_detent_clockwise(state: State)
    ensures
        run(state, seq![3, 1, 0, 2, 3]) == (
            State::Start,
            seq![
                rotation_event(transition(state, 3).1),
                None,
                None,
                None,
                Some(Event::RotationClockwise),
            ],
        ),
{
    reveal_with_fuel(run, 6);
    assert(seq![3int, 1, 0, 2, 3].drop_first() =~= seq![1int, 0, 2, 3]);
    assert(seq![1int, 0, 2, 3].drop_first() =~= seq![0int, 2, 3]);
    assert(seq![0int, 2, 3].drop_first() =~= seq![2int, 3]);
    assert(seq![2int, 3].drop_first() =~= seq![3int]);
    assert(seq![3int].drop_first() =~= Seq::<int>::empty());
    assert(run(state, seq![3, 1, 0, 2, 3]).1 =~= seq![
        rotation_event(transition(state, 3).1),
        None,
        None,
        None,
        Some(Event::RotationClockwise),
    ]);
}

/// After the contacts have been at rest, one full counter-clockwise detent
/// (`10`, `00`, `01`, back to rest) reports exactly one counter-clockwise
/// rotation, when it completes.
pub proof fn lemma_full_detent_counter_clockwise(state: State)
    ensures
        run(state, seq![3, 2, 0, 1, 3]) == (
            State::Start,
            seq![
                rotation_event(transition(state, 3).1),
                None,
                None,
                None,
                Some(Event::RotationAntiClockwise),
            ],
        ),
{
    reveal_with_fuel(run, 6);
    assert(seq![3int, 2, 0, 1, 3].drop_first() =~= seq![2int, 0, 1, 3]);
    assert(seq![2int, 0, 1, 3].drop_first() =~= seq![0int, 1, 3]);
    assert(seq![0int, 1, 3].drop_first() =~= seq![1int, 3]);
    assert(seq![1int, 3].drop_first() =~= seq![3int]);
    assert(seq![3int].drop_first() =~= Seq::<int>::empty());
    assert(run(state, seq![3, 2, 0, 1, 3]).1 =~= seq![
        rotation_event(transition(state, 3).1),
        None,
        None,
        None,
        Some(Event::RotationAntiClockwise),
    ]);
}

/// However the contacts bounce, readings that never come back to rest
/// report nothing.
pub proof fn lemma_no_event_without_rest(state: State, readings: Seq<int>)
    requires
        forall|i: int| 0 <= i < readings.len() ==> 0 <= #[trigger] readings[i] < REST,
    ensures
        run(state, readings).1.len() == readings.len(),
        forall|i: int| 0 <= i < readings.len() ==> #[trigger] run(state, readings).1[i] is None,
    decreases readings.len(),
{
    if readings.len() > 0 {
        let next = transition(state, readings[0]).0;
        let tail = readings.drop_first();
        assert forall|i: int| 0 <= i < tail.len() implies 0 <= #[trigger] tail[i] < REST by {
            assert(tail[i] == readings[i + 1]);
        }
        lemma_no_event_without_rest(next, tail);
        lemma_rotation_only_at_rest(state, readings[0]);
        let out = run(state, readings).1;
        assert forall|i: int| 0 <= i < readings.len() implies #[trigger] out[i] is None by {
            if i > 0 {
                assert(out[i] == run(next, tail).1[i - 1]);
            }
        }
    }
}

/// The decoder and a run agree: one rotation input is the first step of a run.
pub proof fn lemma_step_is_run(state: State, reading: u32)
    requires
        reading < 4,
    ensures
        step(state, EncoderInput::Rotation { reading }).0 == run(state, seq![reading as int]).0,
        seq![step(state, EncoderInput::Rotation { reading }).1] == run(
            state,
            seq![reading as int],
        ).1,
{
    reveal_with_fuel(run, 2);
    assert(seq![reading as int].drop_first() =~= Seq::<int>::empty());
    assert(run(state, seq![reading as int]).1 =~= seq![
        step(state, EncoderInput::Rotation { reading }).1,
    ]);
}

/// The decoder's position always agrees with the contacts it last saw, and
/// it advances through a detent one position at a time (in quadrature
/// order `01`, `00`, `10` clockwise and `10`, `00`, `01` counter-clockwise),
/// never skipping a position: a detent can only complete after every
/// intermediate position has been seen in order.
pub proof fn lemma_position_follows_quadrature(state: State, reading: int)
    requires
        0 <= reading < 4,
    ensures
        ({
            let next = transition(state, reading).0;
            &&& next == State::CWBegin ==> reading == 1 && (state == State::Start || state
                == State::CWBegin || state == State::CWNext)
            &&& next == State::CWNext ==> reading == 0 && (state == State::CWBegin || state
                == State::CWNext || state == State::CWFinal)
            &&& next == State::CWFinal ==> reading == 2 && (state == State::CWNext || state
                == State::CWFinal)
            &&& next == State::CCWBegin ==> reading == 2 && (state == State::Start || state
                == State::CCWBegin || state == State::CCWNext)
            &&& next == State::CCWNext ==> reading == 0 && (state == State::CCWBegin || state
                == State::CCWNext || state == State::CCWFinal)
            &&& next == State::CCWFinal ==> reading == 1 && (state == State::CCWNext || state
                == State::CCWFinal)
        }),
{
}

/// The switch pulls its pin low while pressed: a low level reports a
/// press, a high level a release, and neither disturbs the rotation.
pub proof fn lemma_switch_events(state: State, low: bool)
    ensures
        step(state, EncoderInput::Switch { low }).0 == state,
        step(state, EncoderInput::Switch { low }).1 == Some(
            if low {
                Event::PressDown
            } else {
                Event::PressUp
            },
        ),
        step(state, EncoderInput::Switch { low: true }).1 != step(
            state,
            EncoderInput::Switch { low: false },
        ).1,
{
}

/// The decoder half of the encoder driver: the position within the
/// current detent.
pub struct RotaryEncoder {
    state: State,
}

impl RotaryEncoder {
    /// The position within the current detent.
    pub closed spec fn state_spec(&self) -> State {
        self.state
    }

    /// A decoder at rest.
    pub fn new() -> (enc: Self)
        ensures
            enc.state_spec() == State::Start,
    {
        Self { state: State::Start }
    }

    /// The position within the current detent.
    pub fn state(&self) -> (s: State)
        ensures
            s == self.state_spec(),
    {
        self.state
    }

    /// Looks a state and a reading up in the transition table.
    pub fn buxton_lookup(state: State, reading: usize) -> (r: (State, Direction))
        requires
            reading < 4,
        ensures
            r == transition(state, reading as int),
    {
        let table: [[(State, Direction); 4]; 7] = [
            [
                (State::Start, Direction::Idle),
                (State::CWBegin, Direction::Idle),
                (State::CCWBegin, Direction::Idle),
                (State::Start, Direction::Idle),
            ],
            [
                (State::CWNext, Direction::Idle),
                (State::CWBegin, Direction::Idle),
                (State::Start, Direction::Idle),
                (State::Start, Direction::Idle),
            ],
            [
                (State::CWNext, Direction::Idle),
                (State::CWBegin, Direction::Idle),
                (State::CWFinal, Direction::Idle),
                (State::Start, Direction::Idle),
            ],
            [
                (State::CWNext, Direction::Idle),
                (State::Start, Direction::Idle),
                (State::CWFinal, Direction::Idle),
                (State::Start, Direction::CW),
            ],
            [
                (State::CCWNext, Direction::Idle),
                (State::Start, Direction::Idle),
                (State::CCWBegin, Direction::Idle),
                (State::Start, Direction::Idle),
            ],
            [
                (State::CCWNext, Direction::Idle),
                (State::CCWFinal, Direction::Idle),
                (State::CCWBegin, Direction::Idle),
                (State::Start, Direction::Idle),
            ],
            [
                (State::CCWNext, Direction::Idle),
                (State::CCWFinal, Direction::Idle),
                (State::Start, Direction::Idle),
                (State::Start, Direction::CCW),
            ],
        ];
        let row: usize = match state {
            State::Start => 0,
            State::CWBegin => 1,
            State::CWNext => 2,
            State::CWFinal => 3,
            State::CCWBegin => 4,
            State::CCWNext => 5,
            State::CCWFinal => 6,
        };
        table[row][reading]
    }

    /// Handles one observation and says what it reports, if anything; the
    /// firmware keeps waiting while this returns `None`.
    pub fn next_event(&mut self, input: EncoderInput) -> (event: Option<Event>)
        requires
            valid_input(input),
        ensures
            (final(self).state_spec(), event) == step(old(self).state_spec(), input),
    {
        match input {
            EncoderInput::Switch { low } => {
                if low {
                    Some(Event::PressDown)
                } else {
                    Some(Event::PressUp)
                }
            },
            EncoderInput::Rotation { reading } => {
                let (next, direction) = Self::buxton_lookup(self.state, reading as usize);
                self.state = next;
                match direction {
                    Direction::Idle => None,
                    Direction::CW => Some(Event::RotationClockwise),
                    Direction::CCW => Some(Event::RotationAntiClockwise),
                }
            },
        }
    }
}

} // verus!
