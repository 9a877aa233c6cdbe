use mill::board::{Board, Duration, Hardware, Input, Line};
use mill::rotary_encoder::RotaryEncoder;
use mill::screen::{Screen, ScreenUpdateError};
use mill::stepper_motor::{Mode, StepperMotor, StepperMotorConfig};
use mill::{Error, Mill, MillConfig};
use std::collections::VecDeque;

#[derive(Debug, Clone, PartialEq)]
enum Ev {
    Drive(Line, bool),
    Wait,
    Read(Input, bool),
    Clear,
    Cursor(u8),
    Text(String),
}

#[derive(Default)]
struct FakeBoard {
    log: Vec<Ev>,
    phase_b: bool,
    home: VecDeque<bool>,
    failing_line: Option<Line>,
    failing_input: Option<Input>,
    failing_display: bool,
}

impl Hardware for FakeBoard {
    type Fault = &'static str;

    fn set_line(&mut self, line: Line, high: bool) -> Result<(), &'static str> {
        if self.failing_line == Some(line) {
            return Err("line");
        }
        self.log.push(Ev::Drive(line, high));
        Ok(())
    }

    fn pause(&mut self, _duration: Duration) {
        self.log.push(Ev::Wait);
    }

    fn read_input(&mut self, input: Input) -> Result<bool, &'static str> {
        if self.failing_input == Some(input) {
            return Err("input");
        }
        let level = match input {
            Input::PhaseB => self.phase_b,
            Input::Home => self.home.pop_front().unwrap_or(false),
        };
        self.log.push(Ev::Read(input, level));
        Ok(level)
    }

    fn clear_display(&mut self) -> Result<(), &'static str> {
        if self.failing_display {
            return Err("display");
        }
        self.log.push(Ev::Clear);
        Ok(())
    }

    fn set_cursor_pos(&mut self, pos: u8) -> Result<(), &'static str> {
        if self.failing_display {
            return Err("display");
        }
        self.log.push(Ev::Cursor(pos));
        Ok(())
    }

    fn write_str(&mut self, text: &str) -> Result<(), &'static str> {
        if self.failing_display {
            return Err("display");
        }
        self.log.push(Ev::Text(text.to_string()));
        Ok(())
    }
}

fn config(motor: StepperMotor, mm: u32, per_tick: u32, max: u32, cooldown: u32) -> MillConfig {
    MillConfig {
        encoder: RotaryEncoder::new(),
        screen: Screen::new(),
        motor,
        max_height: max,
        motor_steps_per_tick: per_tick,
        motor_steps_per_mm: mm,
        cooldown_ticks: cooldown,
    }
}

fn build(hw: FakeBoard, mm: u32, per_tick: u32, max: u32, cooldown: u32) -> Mill<FakeBoard> {
    let mut board = Board::new(hw);
    let motor = StepperMotor::new(
        StepperMotorConfig { mode: Mode::FullStep, signal_delay: Duration::Ms(1) },
        &mut board,
    )
    .unwrap();
    Mill::new(config(motor, mm, per_tick, max, cooldown), board).unwrap()
}

fn log(mill: &mut Mill<FakeBoard>) -> &mut Vec<Ev> {
    &mut mill.hardware_mut().log
}

fn pulses(events: &[Ev]) -> usize {
    events.iter().filter(|e| **e == Ev::Drive(Line::Step, true)).count()
}

/// Ticks until the carriage is homed, with the sensor triggered at once.
fn homed(mut mill: Mill<FakeBoard>) -> Mill<FakeBoard> {
    mill.hardware_mut().home.push_back(true);
    mill.tick().unwrap();
    assert_eq!(mill.current_height(), Some(0));
    mill
}

#[test]
fn three_clicks_then_six_hundred_ticks() {
    let mut mill = build(FakeBoard { phase_b: true, ..Default::default() }, 200, 1, 9000, 0);
    for _ in 0..3 {
        mill.handle_sia_interrupt().unwrap();
    }
    assert_eq!(mill.target_height(), 600);
    let mut mill = homed(mill);
    log(&mut mill).clear();
    let mut ticks = 0;
    while mill.current_height() != Some(600) {
        mill.tick().unwrap();
        ticks += 1;
        assert!(ticks <= 600);
    }
    assert_eq!(ticks, 600);
    assert_eq!(pulses(log(&mut mill)), 600);
}

#[test]
fn clockwise_clicks_clamp_at_max_height() {
    let mut mill = build(FakeBoard { phase_b: true, ..Default::default() }, 200, 1, 9000, 0);
    for _ in 0..45 {
        mill.handle_sia_interrupt().unwrap();
    }
    assert_eq!(mill.target_height(), 9000);
    mill.handle_sia_interrupt().unwrap();
    assert_eq!(mill.target_height(), 9000);
}

#[test]
fn clamp_when_max_is_not_a_whole_click() {
    let mut mill = build(FakeBoard { phase_b: true, ..Default::default() }, 200, 1, 9100, 0);
    for _ in 0..50 {
        mill.handle_sia_interrupt().unwrap();
    }
    assert_eq!(mill.target_height(), 9100);
}

#[test]
fn counter_clockwise_clicks_floor_at_zero() {
    let mut mill = build(FakeBoard::default(), 200, 1, 9000, 0);
    mill.handle_sia_interrupt().unwrap();
    assert_eq!(mill.target_height(), 0);
    mill.hardware_mut().phase_b = true;
    mill.handle_sia_interrupt().unwrap();
    mill.handle_sia_interrupt().unwrap();
    mill.hardware_mut().phase_b = false;
    mill.handle_sia_interrupt().unwrap();
    assert_eq!(mill.target_height(), 200);
    for _ in 0..5 {
        mill.handle_sia_interrupt().unwrap();
    }
    assert_eq!(mill.target_height(), 0);
}

#[test]
fn homing_waits_for_the_sensor() {
    let mut hw = FakeBoard::default();
    hw.home.extend([false, false, false, true]);
    let mut mill = build(hw, 200, 1, 9000, 0);
    log(&mut mill).clear();
    for _ in 0..3 {
        mill.tick().unwrap();
        assert_eq!(mill.current_height(), None);
    }
    mill.tick().unwrap();
    assert_eq!(mill.current_height(), Some(0));
    let events = log(&mut mill).clone();
    assert_eq!(pulses(&events), 4);
    assert_eq!(events.iter().filter(|e| matches!(e, Ev::Read(Input::Home, _))).count(), 4);
    assert!(events.contains(&Ev::Text("Obecna wysokosc:".to_string())));
    assert!(events.contains(&Ev::Text("00mm".to_string())));
}

#[test]
fn homing_moves_counter_clockwise() {
    let mut mill = build(FakeBoard::default(), 200, 1, 9000, 0);
    log(&mut mill).clear();
    mill.tick().unwrap();
    let events = log(&mut mill).clone();
    assert_eq!(
        events,
        vec![
            Ev::Drive(Line::Dir, false),
            Ev::Drive(Line::Enable, false),
            Ev::Drive(Line::Step, true),
            Ev::Wait,
            Ev::Drive(Line::Step, false),
            Ev::Wait,
            Ev::Drive(Line::Enable, true),
            Ev::Read(Input::Home, false),
        ]
    );
}

#[test]
fn tracking_takes_ceiling_of_gap_over_steps_per_tick() {
    let mut mill = build(FakeBoard { phase_b: true, ..Default::default() }, 10, 3, 9000, 0);
    mill.handle_sia_interrupt().unwrap();
    let mut mill = homed(mill);
    let mut seen = Vec::new();
    for _ in 0..4 {
        mill.tick().unwrap();
        seen.push(mill.current_height().unwrap());
    }
    assert_eq!(seen, vec![3, 6, 9, 10]);
    mill.tick().unwrap();
    assert_eq!(mill.current_height(), Some(10));
}

#[test]
fn tracking_down_moves_counter_clockwise() {
    let mut mill = build(FakeBoard { phase_b: true, ..Default::default() }, 4, 3, 9000, 0);
    mill.handle_sia_interrupt().unwrap();
    let mut mill = homed(mill);
    for _ in 0..2 {
        mill.tick().unwrap();
    }
    assert_eq!(mill.current_height(), Some(4));
    mill.hardware_mut().phase_b = false;
    mill.handle_sia_interrupt().unwrap();
    log(&mut mill).clear();
    mill.tick().unwrap();
    assert_eq!(mill.current_height(), Some(1));
    assert_eq!(log(&mut mill)[0], Ev::Drive(Line::Dir, false));
    mill.tick().unwrap();
    assert_eq!(mill.current_height(), Some(0));
}

#[test]
fn tick_at_target_does_nothing() {
    let mill = build(FakeBoard::default(), 200, 1, 9000, 0);
    let mut mill = homed(mill);
    log(&mut mill).clear();
    mill.tick().unwrap();
    assert!(log(&mut mill).is_empty());
    assert_eq!(mill.current_height(), Some(0));
    assert_eq!(mill.target_height(), 0);
}

#[test]
fn home_switch_forces_recalibration() {
    let mut mill = build(FakeBoard { phase_b: true, ..Default::default() }, 200, 1, 9000, 0);
    mill.handle_sia_interrupt().unwrap();
    let mut mill = homed(mill);
    for _ in 0..50 {
        mill.tick().unwrap();
    }
    assert_eq!(mill.current_height(), Some(50));
    log(&mut mill).clear();
    mill.handle_home_switch_interrupt().unwrap();
    assert_eq!(mill.current_height(), None);
    assert_eq!(mill.target_height(), 200);
    assert_eq!(
        log(&mut mill).clone(),
        vec![Ev::Clear, Ev::Text("Kalibracja...".to_string())]
    );
}

#[test]
fn cooldown_holds_back_the_move() {
    let mill = build(FakeBoard { phase_b: true, ..Default::default() }, 200, 1, 9000, 5);
    let mut mill = homed(mill);
    for _ in 0..3 {
        mill.handle_sia_interrupt().unwrap();
    }
    assert_eq!(mill.target_height(), 600);
    log(&mut mill).clear();
    for _ in 0..5 {
        mill.tick().unwrap();
    }
    assert_eq!(pulses(log(&mut mill)), 0);
    assert_eq!(mill.current_height(), Some(0));
    mill.tick().unwrap();
    assert_eq!(pulses(log(&mut mill)), 1);
    assert_eq!(mill.current_height(), Some(1));
}

#[test]
fn limit_switch_backs_off_one_millimetre() {
    let mut mill = build(FakeBoard { phase_b: true, ..Default::default() }, 200, 1, 9000, 0);
    mill.handle_sia_interrupt().unwrap();
    mill.handle_sia_interrupt().unwrap();
    log(&mut mill).clear();
    mill.handle_limit_switch_interrupt().unwrap();
    assert_eq!(mill.current_height(), Some(200));
    assert_eq!(mill.target_height(), 200);
    let events = log(&mut mill).clone();
    assert_eq!(events[0], Ev::Drive(Line::Dir, true));
    assert_eq!(pulses(&events), 200);
    assert_eq!(events.last(), Some(&Ev::Text("01mm".to_string())));
}

#[test]
fn click_shows_height_in_millimetres() {
    let mut mill = build(FakeBoard { phase_b: true, ..Default::default() }, 200, 1, 9000, 0);
    mill.handle_sia_interrupt().unwrap();
    let mut mill = homed(mill);
    log(&mut mill).clear();
    mill.handle_sia_interrupt().unwrap();
    assert_eq!(
        log(&mut mill).clone(),
        vec![
            Ev::Read(Input::PhaseB, true),
            Ev::Clear,
            Ev::Text("Obecna wysokosc:".to_string()),
            Ev::Cursor(45),
            Ev::Text("02mm".to_string()),
        ]
    );
}

#[test]
fn invalid_settings_are_refused() {
    for (mm, per_tick, max) in [(0, 1, 9000), (200, 0, 9000), (200, 1, 100)] {
        let mut board = Board::new(FakeBoard::default());
        let motor = StepperMotor::new(
            StepperMotorConfig { mode: Mode::HalfStep, signal_delay: Duration::Us(500) },
            &mut board,
        )
        .unwrap();
        let r = Mill::new(config(motor, mm, per_tick, max, 0), board);
        assert!(matches!(r, Err(Error::Config)));
    }
}

#[test]
fn new_shows_calibrating() {
    let mut mill = build(FakeBoard::default(), 200, 1, 9000, 0);
    let events = log(&mut mill).clone();
    let n = events.len();
    assert_eq!(events[n - 2..].to_vec(), vec![Ev::Clear, Ev::Text("Kalibracja...".to_string())]);
    assert_eq!(mill.current_height(), None);
    assert_eq!(mill.target_height(), 0);
}

#[test]
fn new_reports_display_fault() {
    let mut board = Board::new(FakeBoard::default());
    let motor = StepperMotor::new(
        StepperMotorConfig { mode: Mode::FullStep, signal_delay: Duration::Ms(1) },
        &mut board,
    )
    .unwrap();
    board.hardware_mut().failing_display = true;
    let r = Mill::new(config(motor, 200, 1, 9000, 0), board);
    assert!(matches!(r, Err(Error::ScreenUpdate(ScreenUpdateError::Display("display")))));
}

#[test]
fn step_fault_keeps_current_height() {
    let mut mill = build(FakeBoard { phase_b: true, ..Default::default() }, 200, 1, 9000, 0);
    mill.handle_sia_interrupt().unwrap();
    let mut mill = homed(mill);
    mill.hardware_mut().failing_line = Some(Line::Step);
    let r = mill.tick();
    assert!(matches!(r, Err(Error::Motor(mill::stepper_motor::Error::Step("line")))));
    assert_eq!(mill.current_height(), Some(0));
    mill.hardware_mut().failing_line = None;
    mill.tick().unwrap();
    assert_eq!(mill.current_height(), Some(1));
}

#[test]
fn direction_fault_during_homing() {
    let mut mill = build(FakeBoard::default(), 200, 1, 9000, 0);
    mill.hardware_mut().failing_line = Some(Line::Dir);
    let r = mill.tick();
    assert!(matches!(r, Err(Error::Motor(mill::stepper_motor::Error::Dir(_)))));
    assert_eq!(mill.current_height(), None);
}

#[test]
fn home_sensor_fault_during_homing() {
    let mut mill = build(FakeBoard::default(), 200, 1, 9000, 0);
    mill.hardware_mut().failing_input = Some(Input::Home);
    let r = mill.tick();
    assert!(matches!(r, Err(Error::LimitSwitch("input"))));
    assert_eq!(mill.current_height(), None);
}

#[test]
fn encoder_fault_keeps_target() {
    let mut mill = build(FakeBoard { phase_b: true, ..Default::default() }, 200, 1, 9000, 0);
    mill.hardware_mut().failing_input = Some(Input::PhaseB);
    let r = mill.handle_sia_interrupt();
    assert!(matches!(r, Err(Error::Encoder(mill::rotary_encoder::Error::Sib("input")))));
    assert_eq!(mill.target_height(), 0);
}

#[test]
fn height_over_display_width_is_a_format_error() {
    let mill = build(FakeBoard { phase_b: true, ..Default::default() }, 1, 1, 5000, 0);
    let mut mill = homed(mill);
    for _ in 0..999 {
        mill.handle_sia_interrupt().unwrap();
    }
    assert_eq!(mill.target_height(), 999);
    log(&mut mill).clear();
    let r = mill.handle_sia_interrupt();
    assert!(matches!(r, Err(Error::ScreenUpdate(ScreenUpdateError::Fmt(_)))));
    assert_eq!(mill.target_height(), 1000);
    assert_eq!(
        log(&mut mill).clone(),
        vec![
            Ev::Read(Input::PhaseB, true),
            Ev::Clear,
            Ev::Text("Obecna wysokosc:".to_string()),
        ]
    );
}
