//! One game: the board, the two players' colours, the control state and
//! the frame clock, with the decisions of the fixed-timestep loop.
use vstd::prelude::*;
use rand::rngs::ThreadRng;
use crate::control::{ControlState, Event, event_of_input, polled_event, transition};
use crate::grid::{
    Grid,
    lemma_next_view_possible,
    live_count,
    outcome_possible,
    split_cell,
    uniform,
    valid_count,
};
use crate::rng::{random_color, random_draws};
use crate::timestep::{FrameClock, Step, TICK_NANOS};

verus! {

pub struct Game {
    pub width: u32,
    pub height: u32,
    pub glyph: char,
    pub game_state: ControlState,
    pub world: Grid,
    pub player1: (u8, u8, u8),
    pub player2: (u8, u8, u8),
    pub clock: FrameClock,
    pub rand: ThreadRng,
}

/// Every component of the colour is below 255.
pub open spec fn drawn_color(c: (u8, u8, u8)) -> bool {
    c.0 < 255 && c.1 < 255 && c.2 < 255
}

/// `b` is a possible next board of `a` under the update rule.
pub open spec fn possible_step(a: Grid, b: Grid) -> bool {
    &&& b.wf()
    &&& b.width == a.width
    &&& b.height == a.height
    &&& forall|y: int, x: int|
        0 <= y < a.height && 0 <= x < a.width ==> outcome_possible(
            live_count(a@, a.width as int, a.height as int, x, y),
            valid_count(a.width as int, a.height as int, x, y),
            a@[y][x],
            #[trigger] b@[y][x],
        )
}

impl Game {
    pub open spec fn wf(&self) -> bool {
        &&& self.world.wf()
        &&& self.world.width == self.width as usize
        &&& self.world.height == self.height as usize
        &&& self.clock.wf()
    }

    /// A game of the given size, with an all-`false` board, black colours,
    /// and a clock of thirty ticks per second; `init` starts its first round.
    pub fn new(width: u32, height: u32, glyph: char) -> (r: Game)
        ensures
            r.wf(),
            r.width == width,
            r.height == height,
            r.glyph == glyph,
            r.game_state == ControlState::Playing,
            uniform(r.world@, width as int, height as int, false),
            r.player1 == (0u8, 0u8, 0u8),
            r.player2 == (0u8, 0u8, 0u8),
            r.clock.acc == 0,
            r.clock.dt == TICK_NANOS,
    {
        let world = Grid::filled(width as usize, height as usize, false);
        let rand = rand::thread_rng();
        Game {
            width,
            height,
            glyph,
            game_state: ControlState::Playing,
            world,
            player1: (0, 0, 0),
            player2: (0, 0, 0),
            clock: FrameClock::new(TICK_NANOS),
            rand,
        }
    }

    /// A colour drawn from the game's random source.
    fn rand_color(&mut self) -> (r: (u8, u8, u8))
        ensures
            drawn_color(r),
            final(self).width == old(self).width,
            final(self).height == old(self).height,
            final(self).glyph == old(self).glyph,
            final(self).game_state == old(self).game_state,
            final(self).world == old(self).world,
            final(self).player1 == old(self).player1,
            final(self).player2 == old(self).player2,
            final(self).clock == old(self).clock,
    {
        random_color(&mut self.rand)
    }

    /// Starts a round: the starting board, two fresh colours, `Playing`,
    /// and nothing gathered on the clock.
    pub fn init(&mut self)
        requires
            old(self).wf(),
        ensures
            final(self).wf(),
            final(self).width == old(self).width,
            final(self).height == old(self).height,
            final(self).glyph == old(self).glyph,
            final(self).game_state == ControlState::Playing,
            forall|y: int, x: int|
                0 <= y < old(self).height && 0 <= x < old(self).width ==> final(self).world@[y][x]
                    == split_cell(old(self).width as int, x),
            drawn_color(final(self).player1),
            drawn_color(final(self).player2),
            final(self).clock.acc == 0,
            final(self).clock.dt == old(self).clock.dt,
    {
        self.game_state = ControlState::Playing;
        self.player1 = self.rand_color();
        self.player2 = self.rand_color();
        self.world = Grid::split(self.width as usize, self.height as usize);
        self.clock.acc = 0;
    }

    /// Applies one poll's input: recolours on `c`, and moves the control
    /// state as the event says.
    pub fn handle_input(&mut self, input: Option<u8>)
        ensures
            final(self).game_state == transition(old(self).game_state, polled_event(input)),
            polled_event(input) == Event::Recolor ==> drawn_color(final(self).player1)
                && drawn_color(final(self).player2),
            polled_event(input) != Event::Recolor ==> final(self).player1 == old(self).player1
                && final(self).player2 == old(self).player2,
            final(self).width == old(self).width,
            final(self).height == old(self).height,
            final(self).glyph == old(self).glyph,
            final(self).world == old(self).world,
            final(self).clock == old(self).clock,
    {
        let e = event_of_input(input);
        if e == Event::Recolor {
            self.player1 = self.rand_color();
            self.player2 = self.rand_color();
        }
        self.game_state = self.game_state.next(e);
    }

    /// Replaces the board by one update of it under fresh random draws.
    pub fn update(&mut self)
        requires
            old(self).wf(),
        ensures
            final(self).wf(),
            possible_step(old(self).world, final(self).world),
            final(self).width == old(self).width,
            final(self).height == old(self).height,
            final(self).glyph == old(self).glyph,
            final(self).game_state == old(self).game_state,
            final(self).player1 == old(self).player1,
            final(self).player2 == old(self).player2,
            final(self).clock == old(self).clock,
    {
        let draws = random_draws(&mut self.rand, self.world.width, self.world.height);
        let next = self.world.next_grid(&draws);
        proof {
            lemma_next_view_possible(
                self.world@,
                self.world.width as int,
                self.world.height as int,
                crate::grid::draws_view(draws@),
            );
        }
        self.world = next;
    }

    /// Whether the round is over: every cell holds the same value.
    pub fn check_end(&self) -> (r: bool)
        requires
            self.wf(),
        ensures
            r == (uniform(self.world@, self.width as int, self.height as int, true) || uniform(
                self.world@,
                self.width as int,
                self.height as int,
                false,
            )),
    {
        self.world.is_converged()
    }

    /// The colour a cell is drawn in: player one's for `true`, player two's
    /// for `false`.
    pub fn color_of(&self, alive: bool) -> (r: (u8, u8, u8))
        ensures
            r == (if alive {
                self.player1
            } else {
                self.player2
            }),
    {
        if alive {
            self.player1
        } else {
            self.player2
        }
    }

    /// Gathers the real time that passed since the last frame.
    pub fn begin_frame(&mut self, elapsed: u64)
        ensures
            final(self).clock.dt == old(self).clock.dt,
            old(self).clock.acc + elapsed <= u64::MAX ==> final(self).clock.acc == old(self).clock.acc + elapsed,
            old(self).clock.acc + elapsed > u64::MAX ==> final(self).clock.acc == u64::MAX,
            final(self).width == old(self).width,
            final(self).height == old(self).height,
            final(self).glyph == old(self).glyph,
            final(self).game_state == old(self).game_state,
            final(self).world == old(self).world,
            final(self).player1 == old(self).player1,
            final(self).player2 == old(self).player2,
    {
        self.clock.add_elapsed(elapsed);
    }

    /// Whether a sub-step is due in this frame.
    pub fn tick_due(&self) -> (r: bool)
        ensures
            r == (self.clock.acc >= self.clock.dt),
    {
        self.clock.tick_due()
    }

    /// One sub-step of a frame, given the input of its poll: the event moves
    /// the control state; `Stopped` exits at once, `Paused` drops the whole
    /// ticks gathered and asks for the frame to be drawn, and `Playing`
    /// updates the board and spends one tick.
    pub fn substep(&mut self, input: Option<u8>) -> (r: Step)
        requires
            old(self).wf(),
            old(self).clock.acc >= old(self).clock.dt,
        ensures
            final(self).wf(),
            final(self).game_state == transition(old(self).game_state, polled_event(input)),
            polled_event(input) == Event::Recolor ==> drawn_color(final(self).player1)
                && drawn_color(final(self).player2),
            polled_event(input) != Event::Recolor ==> final(self).player1 == old(self).player1
                && final(self).player2 == old(self).player2,
            final(self).width == old(self).width,
            final(self).height == old(self).height,
            final(self).glyph == old(self).glyph,
            final(self).clock.dt == old(self).clock.dt,
            final(self).game_state == ControlState::Stopped ==> r == Step::Exit && final(self).world == old(self).world && final(self).clock == old(self).clock,
            final(self).game_state == ControlState::Paused ==> r == Step::Render && final(self).world == old(self).world && final(self).clock.acc == old(self).clock.acc % old(self).clock.dt,
            final(self).game_state == ControlState::Playing ==> r == Step::Continue
                && possible_step(old(self).world, final(self).world) && final(self).clock.acc == old(self).clock.acc - old(self).clock.dt,
    {
        self.handle_input(input);
        match self.game_state {
            ControlState::Stopped => Step::Exit,
            ControlState::Paused => {
                self.clock.drop_ticks();
                Step::Render
            },
            ControlState::Playing => {
                self.update();
                self.clock.consume_tick();
                Step::Continue
            },
        }
    }
}

} // verus!
