use rain::opts::{configure, parse_fps, Color, Config, ConfigError};
use rain::rain::{compose_frame, spawn, Rain};
use rain::raindrop::{Raindrop, STAGE_COUNT};
use rain::session::{next_step, Phase, Step};

const CLEAR: &str = "\x1b[2J";
const RESET: &str = "\x1b[39m";

fn drawn(d: &Raindrop) -> String {
    let mut s = String::new();
    d.draw(&mut s);
    s
}

fn glyph_count(text: &str) -> usize {
    text.matches('H').count()
}

#[test]
fn parse_fps_accepts_positive_numbers() {
    assert_eq!(parse_fps("10"), Ok(10));
    assert_eq!(parse_fps("+5"), Ok(5));
    assert_eq!(parse_fps("4294967295"), Ok(4294967295));
}

#[test]
fn parse_fps_rejects_zero() {
    assert_eq!(parse_fps("0"), Err(ConfigError::ZeroFps));
    assert_eq!(parse_fps("000"), Err(ConfigError::ZeroFps));
}

#[test]
fn parse_fps_rejects_malformed_numbers() {
    assert_eq!(parse_fps(""), Err(ConfigError::InvalidNumber));
    assert_eq!(parse_fps("-1"), Err(ConfigError::InvalidNumber));
    assert_eq!(parse_fps("ten"), Err(ConfigError::InvalidNumber));
    assert_eq!(parse_fps(" 10"), Err(ConfigError::InvalidNumber));
    assert_eq!(parse_fps("4294967296"), Err(ConfigError::InvalidNumber));
}

#[test]
fn configure_accepts_defaults() {
    assert_eq!(
        configure("Blue", 100, "10"),
        Ok(Config { color: Color::Blue, max: 100, fps: 10 })
    );
}

#[test]
fn configure_ignores_case_of_color() {
    assert_eq!(configure("lightred", 3, "30"), configure("LIGHTRED", 3, "30"));
    assert_eq!(
        configure("lightRed", 3, "30"),
        Ok(Config { color: Color::LightRed, max: 3, fps: 30 })
    );
}

#[test]
fn configure_twice_gives_the_same_result() {
    let first = configure("green", 0, "24");
    let second = configure("green", 0, "24");
    assert_eq!(first, second);
    assert_eq!(configure("mauve", 1, "1"), configure("mauve", 1, "1"));
}

#[test]
fn configure_rejects_unknown_color() {
    assert_eq!(configure("purple", 10, "10"), Err(ConfigError::UnknownColor));
    assert_eq!(configure("", 10, "10"), Err(ConfigError::UnknownColor));
}

#[test]
fn configure_rejects_negative_max() {
    assert_eq!(configure("red", -1, "10"), Err(ConfigError::NegativeMax));
}

#[test]
fn configure_rejects_zero_fps() {
    assert_eq!(configure("red", 10, "0"), Err(ConfigError::ZeroFps));
    assert_eq!(configure("red", 10, "x"), Err(ConfigError::InvalidNumber));
}

#[test]
fn color_names_parse() {
    assert_eq!(Color::from_name("black"), Some(Color::Black));
    assert_eq!(Color::from_name("LightYellow"), Some(Color::LightYellow));
    assert_eq!(Color::from_name("yellowish"), None);
}

#[test]
fn color_sequences_are_termion_sequences() {
    assert_eq!(Color::Black.to_color_str(), "\x1b[38;5;0m");
    assert_eq!(Color::Blue.to_color_str(), "\x1b[38;5;4m");
    assert_eq!(Color::LightWhite.to_color_str(), "\x1b[38;5;15m");
    assert_eq!(
        Color::LightMagenta.to_color_str(),
        format!("{}", termion::color::Fg(termion::color::LightMagenta))
    );
    assert_eq!(
        Color::Cyan.to_color_str(),
        format!("{}", termion::color::Fg(termion::color::Cyan))
    );
}

#[test]
fn new_drop_draws_a_dot() {
    let d = Raindrop::new(10, 5);
    assert_eq!(drawn(&d), "\x1b[5;10H.");
    assert!(!d.is_done());
}

#[test]
fn drop_goes_through_every_stage() {
    let mut d = Raindrop::new(10, 5);
    assert_eq!(drawn(&d), "\x1b[5;10H.");
    d.increment();
    assert_eq!(drawn(&d), "\x1b[5;10Ho");
    d.increment();
    assert_eq!(drawn(&d), "\x1b[5;10HO");
    d.increment();
    assert_eq!(
        drawn(&d),
        "\x1b[4;10H-\x1b[5;9H|\x1b[5;10H.\x1b[5;11H|\x1b[6;10H-"
    );
    d.increment();
    assert_eq!(
        drawn(&d),
        "\x1b[3;10H-\x1b[4;9H/\x1b[4;11H\\\x1b[5;8H|\x1b[5;10HO\x1b[5;12H|\x1b[6;9H\\\x1b[6;11H/\x1b[7;10H-"
    );
    assert!(!d.is_done());
    d.increment();
    assert!(d.is_done());
    d.increment();
    assert!(d.is_done());
}

#[test]
fn drop_glyph_counts() {
    let mut d = Raindrop::new(2, 2);
    assert_eq!(glyph_count(&drawn(&d)), 1);
    for _ in 0..4 {
        d.increment();
    }
    assert_eq!(glyph_count(&drawn(&d)), 9);
    d.increment();
    assert!(d.is_done());
}

#[test]
fn splash_at_the_margin_reaches_column_zero() {
    let mut d = Raindrop::new(2, 2);
    for _ in 0..4 {
        d.increment();
    }
    let text = drawn(&d);
    assert!(text.contains("\x1b[2;0H|"));
    assert!(text.contains("\x1b[0;2H-"));
}

#[test]
fn empty_frame_still_clears_and_colors() {
    let mut drops: Vec<Raindrop> = Vec::new();
    let frame = compose_frame(&mut drops, Color::Blue);
    assert_eq!(frame, format!("{}\x1b[38;5;4m{}", CLEAR, RESET));
    assert!(drops.is_empty());
}

#[test]
fn single_drop_lives_for_every_stage() {
    let mut drops = vec![Raindrop::new(7, 8)];
    let mut frames = 0;
    while !drops.is_empty() {
        let frame = compose_frame(&mut drops, Color::Red);
        assert!(frame.starts_with(CLEAR));
        assert!(frame.ends_with(RESET));
        frames += 1;
        assert!(frames <= STAGE_COUNT);
    }
    assert_eq!(frames, STAGE_COUNT);
}

#[test]
fn frame_draws_drops_in_order() {
    let mut drops = vec![Raindrop::new(3, 4), Raindrop::new(9, 9)];
    let frame = compose_frame(&mut drops, Color::White);
    assert_eq!(
        frame,
        "\x1b[2J\x1b[38;5;7m\x1b[4;3H.\x1b[9;9H.\x1b[39m"
    );
    assert_eq!(drops.len(), 2);
    assert_eq!(drawn(&drops[0]), "\x1b[4;3Ho");
}

#[test]
fn finished_drops_leave_while_others_stay() {
    let mut older = Raindrop::new(5, 5);
    for _ in 0..4 {
        older.increment();
    }
    let mut drops = vec![older, Raindrop::new(6, 6)];
    compose_frame(&mut drops, Color::Green);
    assert_eq!(drops.len(), 1);
    assert_eq!(drawn(&drops[0]), "\x1b[6;6Ho");
}

#[test]
fn spawn_respects_the_cap() {
    let mut drops: Vec<Raindrop> = Vec::new();
    spawn(&mut drops, 100, 10, 80, 24);
    assert_eq!(drops.len(), 10);
    spawn(&mut drops, 5, 10, 80, 24);
    assert_eq!(drops.len(), 10);
    let mut few: Vec<Raindrop> = Vec::new();
    spawn(&mut few, 3, 10, 80, 24);
    assert_eq!(few.len(), 3);
}

#[test]
fn spawn_with_zero_cap_adds_nothing() {
    let mut drops: Vec<Raindrop> = Vec::new();
    spawn(&mut drops, 50, 0, 80, 24);
    assert!(drops.is_empty());
}

#[test]
fn spawn_on_smallest_screen_uses_the_only_free_cell() {
    let mut drops: Vec<Raindrop> = Vec::new();
    spawn(&mut drops, 20, 20, 6, 6);
    assert_eq!(drops.len(), 20);
    for d in &drops {
        assert_eq!(drawn(d), "\x1b[2;2H.");
    }
}

#[test]
fn spawn_positions_stay_inside_the_margin() {
    let (width, height) = (12u16, 9u16);
    let mut drops: Vec<Raindrop> = Vec::new();
    spawn(&mut drops, 500, 500, width, height);
    for d in &drops {
        let text = drawn(d);
        let body = &text[2..text.len() - 2];
        let mut parts = body.split(';');
        let row: u16 = parts.next().unwrap().parse().unwrap();
        let col: u16 = parts.next().unwrap().parse().unwrap();
        assert!(2 <= col && col < width - 2);
        assert!(2 <= row && row < height - 2);
    }
}

#[test]
fn rain_refuses_a_tiny_screen() {
    let config = Config { color: Color::Blue, max: 10, fps: 10 };
    assert!(Rain::new(config, 5, 24).is_none());
    assert!(Rain::new(config, 80, 5).is_none());
    assert!(Rain::new(config, 6, 6).is_some());
}

#[test]
fn rain_with_zero_cap_stays_empty() {
    let config = Config { color: Color::Yellow, max: 0, fps: 10 };
    let mut rain = Rain::new(config, 80, 24).unwrap();
    for _ in 0..20 {
        let frame = rain.tick(7);
        assert_eq!(frame, format!("{}\x1b[38;5;3m{}", CLEAR, RESET));
        assert_eq!(rain.len(), 0);
    }
}

#[test]
fn rain_population_never_exceeds_cap() {
    let config = Config { color: Color::Cyan, max: 5, fps: 10 };
    let mut rain = Rain::new(config, 40, 20).unwrap();
    for k in 0..50u64 {
        rain.tick(k % 4);
        assert!(rain.len() <= 5);
    }
    assert_eq!(rain.get_config(), config);
}

#[test]
fn rain_tick_draws_new_drops_as_dots() {
    let config = Config { color: Color::Magenta, max: 3, fps: 10 };
    let mut rain = Rain::new(config, 6, 6).unwrap();
    let frame = rain.tick(1);
    assert_eq!(frame, "\x1b[2J\x1b[38;5;5m\x1b[2;2H.\x1b[39m");
    assert_eq!(rain.len(), 1);
    rain.spawn_drops(10);
    assert_eq!(rain.len(), 3);
    let frame = rain.draw_frame();
    assert_eq!(frame.matches("\x1b[2;2H.").count(), 2);
    assert_eq!(frame.matches("\x1b[2;2Ho").count(), 1);
}

#[test]
fn loop_sets_up_ticks_and_restores() {
    let (phase, step) = next_step(Phase::Idle, true);
    assert_eq!((phase, step), (Phase::Running, Step::Setup));
    assert_eq!(next_step(Phase::Running, true), (Phase::Running, Step::Tick));
    assert_eq!(next_step(Phase::Running, false), (Phase::Stopped, Step::Restore));
    assert_eq!(next_step(Phase::Stopped, true), (Phase::Stopped, Step::Done));
}

#[test]
fn stop_during_a_wait_ends_the_ticks() {
    let flags = [true, true, true, false, false, true];
    let mut phase = Phase::Running;
    let mut steps = Vec::new();
    for f in flags.iter() {
        let (next, step) = next_step(phase, *f);
        phase = next;
        steps.push(step);
    }
    assert_eq!(
        steps,
        vec![Step::Tick, Step::Tick, Step::Tick, Step::Restore, Step::Done, Step::Done]
    );
}
