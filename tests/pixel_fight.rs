use rusty_pixel_fighting::config::{parse_dimension, DEFAULT_GLYPH};
use rusty_pixel_fighting::control::{
    event_of_byte, event_of_input, resolve_prompt, restart_choice, ControlState, Event,
    RestartChoice,
};
use rusty_pixel_fighting::game::Game;
use rusty_pixel_fighting::grid::{cell_outcome, Grid, DRAW_SCALE};
use rusty_pixel_fighting::rng::{random_color, random_draws};
use rusty_pixel_fighting::timestep::{FrameClock, Step, TICK_NANOS};
use rusty_pixel_fighting::Config;

fn args(list: &[&str]) -> Vec<String> {
    list.iter().map(|s| s.to_string()).collect()
}

fn rows(g: &Grid) -> Vec<Vec<bool>> {
    (0..g.height).map(|y| (0..g.width).map(|x| g.get(x, y)).collect()).collect()
}

fn constant_draws(w: usize, h: usize, d: u32) -> Vec<Vec<u32>> {
    vec![vec![d; w]; h]
}

fn grid_of(cells: Vec<Vec<bool>>) -> Grid {
    let height = cells.len();
    let width = if height == 0 { 0 } else { cells[0].len() };
    Grid { cells, width, height }
}

#[test]
fn config_defaults() {
    let c = Config::build(&args(&["prog"])).unwrap();
    assert_eq!(c.width, 80);
    assert_eq!(c.height, 40);
    assert_eq!(c.glyph, DEFAULT_GLYPH);
    assert_eq!(c.glyph, '\u{2588}');
}

#[test]
fn config_given_values() {
    let c = Config::build(&args(&["prog", "12", "7", "#x"])).unwrap();
    assert_eq!(c.width, 12);
    assert_eq!(c.height, 7);
    assert_eq!(c.glyph, '#');
}

#[test]
fn config_errors() {
    assert_eq!(
        Config::build(&args(&["prog", "abc"])).err(),
        Some("width must be a positive integer")
    );
    assert_eq!(
        Config::build(&args(&["prog", "10", "0"])).err(),
        Some("height must be a positive integer")
    );
    assert_eq!(
        Config::build(&args(&["prog", "10", "5", ""])).err(),
        Some("glyph must not be empty")
    );
}

#[test]
fn dimension_parsing() {
    assert_eq!(parse_dimension(&"4294967295".to_string()), Some(u32::MAX));
    assert_eq!(parse_dimension(&"4294967296".to_string()), None);
    assert_eq!(parse_dimension(&"007".to_string()), Some(7));
    assert_eq!(parse_dimension(&"".to_string()), None);
    assert_eq!(parse_dimension(&"-3".to_string()), None);
    assert_eq!(parse_dimension(&"0".to_string()), None);
}

#[test]
fn initial_board_is_split() {
    let g = Grid::split(4, 4);
    let row = vec![true, true, false, false];
    assert_eq!(rows(&g), vec![row.clone(), row.clone(), row.clone(), row]);
    let odd = Grid::split(5, 1);
    assert_eq!(rows(&odd), vec![vec![true, true, false, false, false]]);
}

#[test]
fn update_with_zero_draws() {
    let g = Grid::split(4, 4);
    let next = g.next_grid(&constant_draws(4, 4, 0));
    // every cell with a live neighbour becomes true; the last column has none
    let row = vec![true, true, true, false];
    assert_eq!(rows(&next), vec![row.clone(), row.clone(), row.clone(), row]);
}

#[test]
fn update_with_high_draws() {
    let g = Grid::split(4, 4);
    let d = (0.999 * DRAW_SCALE as f64) as u32;
    let next = g.next_grid(&constant_draws(4, 4, d));
    // only cells whose neighbours all live stay true
    let row = vec![true, false, false, false];
    assert_eq!(rows(&next), vec![row.clone(), row.clone(), row.clone(), row]);
}

#[test]
fn uniform_true_board_stays_true() {
    let g = Grid::filled(5, 3, true);
    for d in [0, 1, DRAW_SCALE / 2, DRAW_SCALE - 1] {
        let next = g.next_grid(&constant_draws(5, 3, d));
        assert!(next.is_converged());
        assert_eq!(rows(&next), vec![vec![true; 5]; 3]);
    }
}

#[test]
fn uniform_false_board_stays_false() {
    let g = Grid::filled(3, 6, false);
    for d in [0, 1, DRAW_SCALE / 2, DRAW_SCALE - 1] {
        let next = g.next_grid(&constant_draws(3, 6, d));
        assert_eq!(rows(&next), vec![vec![false; 3]; 6]);
    }
}

#[test]
fn neighbor_counts_by_position() {
    let g = Grid::filled(5, 4, true);
    assert_eq!(g.neighbor_counts(0, 0), (3, 3));
    assert_eq!(g.neighbor_counts(4, 3), (3, 3));
    assert_eq!(g.neighbor_counts(2, 0), (5, 5));
    assert_eq!(g.neighbor_counts(0, 2), (5, 5));
    assert_eq!(g.neighbor_counts(2, 2), (8, 8));
    let mut total = 0;
    for y in 0..4 {
        for x in 0..5 {
            total += g.neighbor_counts(x, y).1;
        }
    }
    let (w, h) = (5, 4);
    assert_eq!(total, 8 * (w - 2) * (h - 2) + 5 * (2 * (w - 2) + 2 * (h - 2)) + 3 * 4);
    assert_eq!(total, 110);
}

#[test]
fn neighbor_counts_degenerate() {
    let line = Grid::filled(3, 1, false);
    assert_eq!(line.neighbor_counts(0, 0), (0, 1));
    assert_eq!(line.neighbor_counts(1, 0), (0, 2));
    let single = Grid::filled(1, 1, true);
    assert_eq!(single.neighbor_counts(0, 0), (0, 0));
    let split = Grid::split(4, 4);
    assert_eq!(split.neighbor_counts(1, 1), (5, 8));
}

#[test]
fn lone_cell_keeps_its_value() {
    let on = Grid::filled(1, 1, true);
    assert_eq!(rows(&on.next_grid(&constant_draws(1, 1, 0))), vec![vec![true]]);
    let off = Grid::filled(1, 1, false);
    assert_eq!(rows(&off.next_grid(&constant_draws(1, 1, 0))), vec![vec![false]]);
}

#[test]
fn cell_rule_values() {
    // ratio 3/8 = 0.375 against draws 0.25 and 0.5
    assert!(cell_outcome(3, 8, false, DRAW_SCALE / 4));
    assert!(!cell_outcome(3, 8, true, DRAW_SCALE / 2));
    // ratio exactly equal to the draw is not enough
    assert!(!cell_outcome(4, 8, false, DRAW_SCALE / 2));
    assert!(!cell_outcome(0, 5, true, 0));
    assert!(cell_outcome(5, 5, false, DRAW_SCALE - 1));
    assert!(cell_outcome(0, 0, true, 0));
}

#[test]
fn convergence_detection() {
    assert!(Grid::filled(4, 4, true).is_converged());
    assert!(Grid::filled(4, 4, false).is_converged());
    assert!(!Grid::split(4, 4).is_converged());
    assert!(Grid::filled(1, 1, true).is_converged());
    assert!(Grid::filled(1, 1, false).is_converged());
    assert!(!grid_of(vec![vec![true, true], vec![true, false]]).is_converged());
}

#[test]
fn control_transitions() {
    let states = [ControlState::Playing, ControlState::Paused, ControlState::Stopped];
    for s in states {
        assert_eq!(s.next(Event::Resume), ControlState::Playing);
        assert_eq!(s.next(Event::Pause), ControlState::Paused);
        assert_eq!(s.next(Event::Quit), ControlState::Stopped);
        assert_eq!(s.next(Event::Recolor), s);
        assert_eq!(s.next(Event::Nothing), s);
    }
}

#[test]
fn input_bytes_to_events() {
    assert_eq!(event_of_byte(b'c'), Event::Recolor);
    assert_eq!(event_of_byte(b' '), Event::Resume);
    assert_eq!(event_of_byte(b's'), Event::Pause);
    assert_eq!(event_of_byte(b'q'), Event::Quit);
    assert_eq!(event_of_byte(b'r'), Event::Nothing);
    assert_eq!(event_of_byte(b'x'), Event::Nothing);
    assert_eq!(event_of_input(None), Event::Nothing);
    assert_eq!(event_of_input(Some(b'q')), Event::Quit);
}

#[test]
fn restart_prompt_scripts() {
    assert_eq!(resolve_prompt(&vec![b'x', b'q']), Some(RestartChoice::Quit));
    assert_eq!(resolve_prompt(&vec![b'z', b'r']), Some(RestartChoice::Restart));
    assert_eq!(resolve_prompt(&vec![b'c', b' ', b's']), None);
    assert_eq!(resolve_prompt(&vec![]), None);
    assert_eq!(restart_choice(b'r'), Some(RestartChoice::Restart));
    assert_eq!(restart_choice(b'q'), Some(RestartChoice::Quit));
    assert_eq!(restart_choice(b'c'), None);
}

#[test]
fn clock_operations() {
    let mut c = FrameClock::new(10);
    c.add_elapsed(25);
    assert!(c.tick_due());
    c.consume_tick();
    assert_eq!(c.acc, 15);
    c.drop_ticks();
    assert_eq!(c.acc, 5);
    assert!(!c.tick_due());
    c.add_elapsed(u64::MAX);
    assert_eq!(c.acc, u64::MAX);
}

fn run_frame(game: &mut Game, elapsed: u64, inputs: &[Option<u8>]) -> (usize, Step) {
    game.begin_frame(elapsed);
    let mut updates = 0;
    let mut polls = 0;
    while game.tick_due() {
        let input = inputs.get(polls).copied().flatten();
        polls += 1;
        match game.substep(input) {
            Step::Continue => updates += 1,
            other => return (updates, other),
        }
    }
    (updates, Step::Render)
}

#[test]
fn playing_frame_runs_whole_ticks() {
    let mut game = Game::new(6, 4, '#');
    game.init();
    let t = 5 * TICK_NANOS + TICK_NANOS / 2;
    let (updates, step) = run_frame(&mut game, t, &[]);
    assert_eq!(updates as u64, t / TICK_NANOS);
    assert_eq!(updates, 5);
    assert_eq!(step, Step::Render);
    assert_eq!(game.clock.acc, TICK_NANOS / 2);
}

#[test]
fn pause_ends_frame_without_catch_up() {
    let mut game = Game::new(6, 4, '#');
    game.init();
    let t = 6 * TICK_NANOS;
    let (updates, step) = run_frame(&mut game, t, &[None, None, Some(b's')]);
    assert_eq!(updates, 2);
    assert_eq!(step, Step::Render);
    assert_eq!(game.game_state, ControlState::Paused);
    assert_eq!(game.clock.acc, 0);
    // a paused frame simulates nothing; resuming does not catch up
    let (paused, _) = run_frame(&mut game, 3 * TICK_NANOS, &[None]);
    assert_eq!(paused, 0);
    let (resumed, _) = run_frame(&mut game, TICK_NANOS, &[Some(b' ')]);
    assert_eq!(resumed, 1);
}

#[test]
fn quit_exits_frame() {
    let mut game = Game::new(4, 4, '#');
    game.init();
    let (updates, step) = run_frame(&mut game, 4 * TICK_NANOS, &[None, Some(b'q')]);
    assert_eq!(updates, 1);
    assert_eq!(step, Step::Exit);
    assert_eq!(game.game_state, ControlState::Stopped);
}

#[test]
fn game_round_start() {
    let mut game = Game::new(4, 3, '@');
    assert!(game.check_end());
    assert_eq!(game.player1, (0, 0, 0));
    game.init();
    assert!(!game.check_end());
    assert_eq!(rows(&game.world), vec![vec![true, true, false, false]; 3]);
    for c in [game.player1, game.player2] {
        assert!(c.0 < 255 && c.1 < 255 && c.2 < 255);
    }
    assert_eq!(game.color_of(true), game.player1);
    assert_eq!(game.color_of(false), game.player2);
}

#[test]
fn game_update_respects_rule() {
    let mut game = Game::new(4, 4, '#');
    game.init();
    game.update();
    let r = rows(&game.world);
    for y in 0..4 {
        // the last column has no live neighbour, the first only live ones
        assert!(r[y][0]);
        assert!(!r[y][3]);
    }
}

#[test]
fn recolor_input_draws_colors() {
    let mut game = Game::new(2, 2, '#');
    game.handle_input(Some(b'c'));
    assert_eq!(game.game_state, ControlState::Playing);
    for c in [game.player1, game.player2] {
        assert!(c.0 < 255 && c.1 < 255 && c.2 < 255);
    }
    game.handle_input(Some(b's'));
    assert_eq!(game.game_state, ControlState::Paused);
}

#[test]
fn random_values_in_range() {
    let mut rng = rand::thread_rng();
    for _ in 0..200 {
        let c = random_color(&mut rng);
        assert!(c.0 < 255 && c.1 < 255 && c.2 < 255);
    }
    let d = random_draws(&mut rng, 7, 3);
    assert_eq!(d.len(), 3);
    assert!(d.iter().all(|row| row.len() == 7 && row.iter().all(|v| *v < DRAW_SCALE)));
    // a draw from [0, DRAW_SCALE) over many cells is not always one value
    let many = random_draws(&mut rng, 64, 64);
    assert!(many.iter().flatten().any(|v| *v != many[0][0]));
}
