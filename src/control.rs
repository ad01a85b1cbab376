//! The play/pause/stop state machine, the input bytes it reads, and the
//! replay-or-quit prompt that ends a round.
use vstd::prelude::*;

verus! {

/// Whether the simulation advances, waits, or has been told to stop.
#[derive(Clone, Copy, Debug, PartialEq, Eq, Structural)]
pub enum ControlState {
    Playing,
    Paused,
    Stopped,
}

/// One input event, read once per poll.
#[derive(Clone, Copy, Debug, PartialEq, Eq, Structural)]
pub enum Event {
    Resume,
    Pause,
    Quit,
    Recolor,
    Nothing,
}

/// How the prompt at the end of a round is answered.
#[derive(Clone, Copy, Debug, PartialEq, Eq, Structural)]
pub enum RestartChoice {
    Restart,
    Quit,
}

/// The event that an input byte stands for: `c` recolours, a space
/// resumes, `s` pauses, `q` quits, and anything else is nothing.
pub open spec fn event_spec(b: u8) -> Event {
    if b == 99 {
        Event::Recolor
    } else if b == 32 {
        Event::Resume
    } else if b == 115 {
        Event::Pause
    } else if b == 113 {
        Event::Quit
    } else {
        Event::Nothing
    }
}

/// The event of one poll: no input at all is nothing.
pub open spec fn polled_event(input: Option<u8>) -> Event {
    match input {
        Some(b) => event_spec(b),
        None => Event::Nothing,
    }
}

/// The state after `e`: resume plays, pause pauses, quit stops, and the
/// other events keep the state.
pub open spec fn transition(s: ControlState, e: Event) -> ControlState {
    match e {
        Event::Resume => ControlState::Playing,
        Event::Pause => ControlState::Paused,
        Event::Quit => ControlState::Stopped,
        Event::Recolor => s,
        Event::Nothing => s,
    }
}

/// What a byte read at the prompt decides: `r` restarts, `q` quits.
pub open spec fn choice_spec(b: u8) -> Option<RestartChoice> {
    if b == 114 {
        Some(RestartChoice::Restart)
    } else if b == 113 {
        Some(RestartChoice::Quit)
    } else {
        None
    }
}

/// The answer to the prompt from a sequence of bytes: the first byte that
/// decides, if any does.
pub open spec fn prompt_outcome(s: Seq<u8>) -> Option<RestartChoice>
    decreases s.len(),
{
    if s.len() == 0 {
        None
    } else {
        match choice_spec(s[0]) {
            Some(c) => Some(c),
            None => prompt_outcome(s.drop_first()),
        }
    }
}

/// Maps an input byte to its event.
pub fn event_of_byte(b: u8) -> (r: Event)
    ensures
        r == event_spec(b),
{
    if b == 99 {
        Event::Recolor
    } else if b == 32 {
        Event::Resume
    } else if b == 115 {
        Event::Pause
    } else if b == 113 {
        Event::Quit
    } else {
        Event::Nothing
    }
}

/// Maps the result of one poll to its event.
pub fn event_of_input(input: Option<u8>) -> (r: Event)
    ensures
        r == polled_event(input),
{
    match input {
        Some(b) => event_of_byte(b),
        None => Event::Nothing,
    }
}

impl ControlState {
    /// The state after event `e`.
    pub fn next(self, e: Event) -> (r: ControlState)
        ensures
            r == transition(self, e),
            e == Event::Resume ==> r == ControlState::Playing,
            e == Event::Pause ==> r == ControlState::Paused,
            e == Event::Quit ==> r == ControlState::Stopped,
            e == Event::Recolor ==> r == self,
            e == Event::Nothing ==> r == self,
    {
        match e {
            Event::Resume => ControlState::Playing,
            Event::Pause => ControlState::Paused,
            Event::Quit => ControlState::Stopped,
            Event::Recolor => self,
            Event::Nothing => self,
        }
    }
}

/// What one byte read at the prompt decides; other bytes are ignored.
pub fn restart_choice(b: u8) -> (r: Option<RestartChoice>)
    ensures
        r == choice_spec(b),
        b == 114 ==> r == Some(RestartChoice::Restart),
        b == 113 ==> r == Some(RestartChoice::Quit),
        b != 114 && b != 113 ==> r is None,
{
    if b == 114 {
        Some(RestartChoice::Restart)
    } else if b == 113 {
        Some(RestartChoice::Quit)
    } else {
        None
    }
}

/// Answers the prompt from bytes read in order: the first `r` or `q`
/// decides; `None` when no byte does.
pub fn resolve_prompt(inputs: &Vec<u8>) -> (r: Option<RestartChoice>)
    ensures
        r == prompt_outcome(inputs@),
{
    let mut i: usize = 0;
    assert(inputs@.subrange(0, inputs@.len() as int) =~= inputs@);
    while i < inputs.len()
        invariant
            0 <= i <= inputs@.len(),
            prompt_outcome(inputs@) == prompt_outcome(inputs@.subrange(i as int, inputs@.len() as int)),
        decreases inputs.len() - i,
    {
        let rest = Ghost(inputs@.subrange(i as int, inputs@.len() as int));
        assert(rest@[0] == inputs@[i as int]);
        assert(rest@.drop_first() =~= inputs@.subrange(i + 1, inputs@.len() as int));
        match restart_choice(inputs[i]) {
            Some(c) => {
                return Some(c);
            },
            None => {},
        }
        i = i + 1;
    }
    assert(inputs@.subrange(i as int, inputs@.len() as int).len() == 0);
    None
}

} // verus!
