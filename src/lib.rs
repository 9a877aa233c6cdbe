//! Height control for a stepper-driven carriage: a quadrature dial sets the
//! target height, a home switch gives the absolute reference, and a small
//! character display reports the state.
//!
//! All peripheral access goes through the [`board::Hardware`] capability
//! trait. The [`board::Board`] wrapper records every operation that the
//! library performs in a ghost trace, so that the contracts can say exactly
//! which lines were driven, which inputs were sampled and what was displayed.
pub mod board;
pub mod height;
pub mod rotary_encoder;
pub mod screen;
pub mod stepper_motor;

use board::{extends, lemma_since_concat, since, Board, Duration, Hardware, Input, Op};
use height::{tick_steps, toward, turned};
use rotary_encoder::{RotaryEncoder, Rotation};
use screen::{displayed, Frame, Screen, ScreenUpdateError};
use stepper_motor::{lemma_rotate_restores, ran, rotate_ops, StepperMotor};
use vstd::prelude::*;

verus! {

/// The display part of a handler's result, for a handler that reached the
/// display.
pub open spec fn screen_part<F>(r: Result<(), Error<F>>) -> Result<(), ScreenUpdateError<F>> {
    match r {
        Err(Error::ScreenUpdate(e)) => Err(e),
        _ => Ok(()),
    }
}

/// Settings and parts of a height controller.
pub struct MillConfig {
    pub encoder: RotaryEncoder,
    pub screen: Screen,
    pub motor: StepperMotor,
    /// The highest target, in steps.
    pub max_height: u32,
    /// The most steps taken by one tick.
    pub motor_steps_per_tick: u32,
    /// Steps per millimetre, and per click of the dial.
    pub motor_steps_per_mm: u32,
    /// For how many ticks after a click of the dial a pending move waits.
    pub cooldown_ticks: u32,
}

impl MillConfig {
    /// Every rate is positive and one millimetre fits under the highest
    /// target.
    pub open spec fn valid(&self) -> bool {
        &&& self.motor_steps_per_mm > 0
        &&& self.motor_steps_per_tick > 0
        &&& self.motor_steps_per_mm <= self.max_height
    }
}

/// A failure of the controller, tagged with the part that failed.
#[derive(Debug)]
pub enum Error<F> {
    /// Reading the dial failed.
    Encoder(rotary_encoder::Error<F>),
    /// Sampling the home sensor failed.
    LimitSwitch(F),
    /// Driving the motor failed; the train of pulses stopped there.
    Motor(stepper_motor::Error<F>),
    /// Updating the display failed.
    ScreenUpdate(ScreenUpdateError<F>),
    /// The settings are not valid.
    Config,
}

/// The height controller: it owns the board and the parts, the target height
/// and, once homed, the current height, both in motor steps.
pub struct Mill<H: Hardware> {
    board: Board<H>,
    encoder: RotaryEncoder,
    motor: StepperMotor,
    screen: Screen,
    target_height: u32,
    current_height: Option<u32>,
    motor_steps_per_tick: u32,
    motor_steps_per_mm: u32,
    max_height: u32,
    cooldown_ticks: u32,
    cooldown_left: u32,
}

impl<H: Hardware> Mill<H> {
    pub closed spec fn target(&self) -> u32 {
        self.target_height
    }

    /// `None` while the carriage has not been homed.
    pub closed spec fn current(&self) -> Option<u32> {
        self.current_height
    }

    pub closed spec fn max_height(&self) -> u32 {
        self.max_height
    }

    pub closed spec fn steps_per_tick(&self) -> u32 {
        self.motor_steps_per_tick
    }

    pub closed spec fn steps_per_mm(&self) -> u32 {
        self.motor_steps_per_mm
    }

    pub closed spec fn cooldown_ticks(&self) -> u32 {
        self.cooldown_ticks
    }

    /// Ticks left before a pending move may start.
    pub closed spec fn cooldown_left(&self) -> u32 {
        self.cooldown_left
    }

    pub closed spec fn motor_enabled(&self) -> bool {
        self.motor.enabled()
    }

    pub closed spec fn motor_delay(&self) -> Duration {
        self.motor.delay()
    }

    /// Every operation performed on the board through the controller.
    pub closed spec fn trace(&self) -> Seq<Op> {
        self.board.trace()
    }

    pub open spec fn wf(&self) -> bool {
        &&& self.steps_per_mm() > 0
        &&& self.steps_per_tick() > 0
        &&& self.steps_per_mm() <= self.max_height()
        &&& self.target() <= self.max_height()
        &&& self.current() matches Some(c) ==> c <= self.max_height()
    }

    /// The frame that shows this state.
    pub open spec fn frame(&self) -> Frame {
        if self.current() is Some {
            Frame::Height(self.target() / self.steps_per_mm())
        } else {
            Frame::Calibrating
        }
    }

    /// The settings, which no handler changes.
    pub open spec fn same_config(&self, other: Self) -> bool {
        &&& self.max_height() == other.max_height()
        &&& self.steps_per_tick() == other.steps_per_tick()
        &&& self.steps_per_mm() == other.steps_per_mm()
        &&& self.cooldown_ticks() == other.cooldown_ticks()
        &&& self.motor_delay() == other.motor_delay()
    }

    /// What one tick does while homed: nothing at the target; while a
    /// cooldown runs, only count it down; otherwise one bounded move toward
    /// the target, after which the current height has moved by the steps
    /// taken, or is unchanged if the motor failed.
    pub open spec fn tracking_tick(&self, post: Self, r: Result<(), Error<H::Fault>>) -> bool {
        let c = self.current()->Some_0;
        let t = self.target();
        let done = since(self.trace(), post.trace());
        let plan = rotate_ops(
            self.motor_enabled(),
            c < t,
            tick_steps(c, t, self.steps_per_tick()) as nat,
            self.motor_delay(),
        );
        if c == t {
            &&& r is Ok
            &&& done.len() == 0
            &&& post.current() == self.current()
            &&& post.cooldown_left() == self.cooldown_left()
            &&& post.motor_enabled() == self.motor_enabled()
        } else if self.cooldown_left() > 0 {
            &&& r is Ok
            &&& done.len() == 0
            &&& post.current() == self.current()
            &&& post.cooldown_left() == self.cooldown_left() - 1
            &&& post.motor_enabled() == self.motor_enabled()
        } else {
            &&& post.cooldown_left() == 0
            &&& r is Ok ==> done == plan && post.current() == Some(
                toward(c, t, self.steps_per_tick()),
            ) && post.motor_enabled() == self.motor_enabled()
            &&& r matches Err(e) ==> e is Motor && ran(plan, done, Some(e->Motor_0.line()))
                && post.current() == self.current()
        }
    }

    /// What one tick does before homing: one homing move down, then one
    /// sample of the home sensor. The carriage counts as homed, at height
    /// zero, exactly when that sample reported the sensor triggered; the
    /// display then shows the height.
    pub open spec fn homing_tick(&self, post: Self, r: Result<(), Error<H::Fault>>) -> bool {
        let done = since(self.trace(), post.trace());
        let plan = rotate_ops(
            self.motor_enabled(),
            false,
            self.steps_per_tick() as nat,
            self.motor_delay(),
        );
        let n = plan.len() as int;
        &&& post.cooldown_left() == self.cooldown_left()
        &&& r matches Err(Error::Motor(e)) ==> ran(plan, done, Some(e.line()))
            && post.current() is None
        &&& r matches Err(Error::LimitSwitch(_)) ==> done == plan && post.current() is None
        &&& (r is Ok || r is Err && r->Err_0 is ScreenUpdate) ==> {
            &&& done.len() > n
            &&& done.take(n + 1) == plan.push(Op::Read(Input::Home, post.current() is Some))
            &&& post.motor_enabled() == self.motor_enabled()
            &&& post.current() is Some ==> post.current() == Some(0u32) && displayed(
                post.frame(),
                done.skip(n + 1),
                screen_part(r),
            )
            &&& post.current() is None ==> r is Ok && done.len() == n + 1
        }
        &&& !(r is Err && (r->Err_0 is Encoder || r->Err_0 is Config))
    }

    /// Takes the parts and the board and shows the calibrating frame; the
    /// carriage starts unhomed with target zero.
    pub fn new(config: MillConfig, board: Board<H>) -> (r: Result<Self, Error<H::Fault>>)
        ensures
            r matches Err(Error::Config) <==> !config.valid(),
            r matches Err(e) ==> e is Config || e is ScreenUpdate,
            r matches Ok(m) ==> {
                &&& m.wf()
                &&& m.target() == 0
                &&& m.current() is None
                &&& m.cooldown_left() == 0
                &&& m.max_height() == config.max_height
                &&& m.steps_per_tick() == config.motor_steps_per_tick
                &&& m.steps_per_mm() == config.motor_steps_per_mm
                &&& m.cooldown_ticks() == config.cooldown_ticks
                &&& m.motor_enabled() == config.motor.enabled()
                &&& m.motor_delay() == config.motor.delay()
                &&& extends(board.trace(), m.trace())
                &&& since(board.trace(), m.trace()) == screen::frame_ops(Frame::Calibrating)
            },
    {
        if config.motor_steps_per_mm == 0 || config.motor_steps_per_tick == 0
            || config.motor_steps_per_mm > config.max_height {
            return Err(Error::Config);
        }
        let mut mill = Mill {
            board,
            encoder: config.encoder,
            motor: config.motor,
            screen: config.screen,
            target_height: 0,
            current_height: None,
            motor_steps_per_tick: config.motor_steps_per_tick,
            motor_steps_per_mm: config.motor_steps_per_mm,
            max_height: config.max_height,
            cooldown_ticks: config.cooldown_ticks,
            cooldown_left: 0,
        };
        match mill.screen.update(&mut mill.board, Frame::Calibrating) {
            Ok(()) => Ok(mill),
            Err(e) => Err(Error::ScreenUpdate(e)),
        }
    }

    /// One iteration of the control loop: before homing, one homing move
    /// and a sample of the home sensor; once homed, at most one bounded move
    /// toward the target (see `homing_tick` and `tracking_tick`).
    pub fn tick(&mut self) -> (r: Result<(), Error<H::Fault>>)
        requires
            old(self).wf(),
        ensures
            final(self).wf(),
            final(self).same_config(*old(self)),
            final(self).target() == old(self).target(),
            extends(old(self).trace(), final(self).trace()),
            old(self).current() is Some ==> old(self).tracking_tick(*final(self), r),
            old(self).current() is None ==> old(self).homing_tick(*final(self), r),
    {
        let ghost t0 = self.board.trace();
        let ghost e0 = self.motor.enabled();
        let ghost d = self.motor.delay();
        proof {
            assert(t0.take(t0.len() as int) =~= t0);
            assert(since(t0, t0) =~= Seq::<Op>::empty());
        }
        match self.current_height {
            Some(current) => {
                let target = self.target_height;
                if current == target {
                    return Ok(());
                }
                if self.cooldown_left > 0 {
                    self.cooldown_left = self.cooldown_left - 1;
                    return Ok(());
                }
                let gap = if current < target {
                    target - current
                } else {
                    current - target
                };
                let steps = if gap < self.motor_steps_per_tick {
                    gap
                } else {
                    self.motor_steps_per_tick
                };
                if current < target {
                    match self.motor.rotate_clockwise(&mut self.board, steps) {
                        Ok(()) => {
                            proof {
                                lemma_rotate_restores(e0, true, steps as nat, d);
                            }
                            self.current_height = Some(current + steps);
                            Ok(())
                        },
                        Err(e) => Err(Error::Motor(e)),
                    }
                } else {
                    match self.motor.rotate_counter_clockwise(&mut self.board, steps) {
                        Ok(()) => {
                            proof {
                                lemma_rotate_restores(e0, false, steps as nat, d);
                            }
                            self.current_height = Some(current - steps);
                            Ok(())
                        },
                        Err(e) => Err(Error::Motor(e)),
                    }
                }
            },
            None => {
                if let Err(e) = self.motor.rotate_counter_clockwise(
                    &mut self.board,
                    self.motor_steps_per_tick,
                ) {
                    return Err(Error::Motor(e));
                }
                let ghost plan = rotate_ops(e0, false, self.motor_steps_per_tick as nat, d);
                proof {
                    lemma_rotate_restores(e0, false, self.motor_steps_per_tick as nat, d);
                }
                let ghost t1 = self.board.trace();
                let at_home = match self.board.read_input(Input::Home) {
                    Ok(v) => v,
                    Err(f) => return Err(Error::LimitSwitch(f)),
                };
                let ghost t2 = self.board.trace();
                proof {
                    assert(t2.take(t1.len() as int) =~= t1);
                    assert(since(t1, t2) =~= seq![Op::Read(Input::Home, at_home)]);
                    lemma_since_concat(t0, t1, t2);
                    assert(since(t0, t2) =~= plan.push(Op::Read(Input::Home, at_home)));
                }
                if at_home {
                    self.current_height = Some(0);
                    let r = self.update_screen();
                    proof {
                        let t3 = self.board.trace();
                        lemma_since_concat(t0, t2, t3);
                        let done = since(t0, t3);
                        let n = plan.len() as int;
                        assert(done.take(n + 1) =~= since(t0, t2));
                        assert(done.skip(n + 1) =~= since(t2, t3));
                    }
                    r
                } else {
                    proof {
                        let done = since(t0, t2);
                        assert(done.take(plan.len() as int + 1) =~= done);
                    }
                    Ok(())
                }
            },
        }
    }

    /// A click of the dial: samples phase B, moves the target by one
    /// millimetre in that direction within `[0, max_height]`, restarts the
    /// cooldown and shows the new state.
    pub fn handle_sia_interrupt(&mut self) -> (r: Result<(), Error<H::Fault>>)
        requires
            old(self).wf(),
        ensures
            final(self).wf(),
            final(self).same_config(*old(self)),
            final(self).current() == old(self).current(),
            final(self).motor_enabled() == old(self).motor_enabled(),
            extends(old(self).trace(), final(self).trace()),
            r is Ok || r->Err_0 is Encoder || r->Err_0 is ScreenUpdate,
            r matches Err(Error::Encoder(e)) ==> {
                &&& e is Sib
                &&& final(self).trace() == old(self).trace()
                &&& final(self).target() == old(self).target()
                &&& final(self).cooldown_left() == old(self).cooldown_left()
            },
            !(r matches Err(Error::Encoder(_))) ==> {
                let done = since(old(self).trace(), final(self).trace());
                &&& done.len() >= 1
                &&& done[0] is Read && done[0]->Read_0 == Input::PhaseB
                &&& final(self).target() == turned(
                    old(self).target(),
                    done[0]->Read_1,
                    old(self).steps_per_mm(),
                    old(self).max_height(),
                )
                &&& final(self).cooldown_left() == old(self).cooldown_ticks()
                &&& displayed(final(self).frame(), done.skip(1), screen_part(r))
            },
    {
        let ghost t0 = self.board.trace();
        proof {
            assert(t0.take(t0.len() as int) =~= t0);
        }
        let rotation = match self.encoder.update(&mut self.board) {
            Ok(rotation) => rotation,
            Err(e) => return Err(Error::Encoder(e)),
        };
        let ghost t1 = self.board.trace();
        let mm = self.motor_steps_per_mm;
        match rotation {
            Rotation::Clockwise => {
                if self.target_height > self.max_height - mm {
                    self.target_height = self.max_height;
                } else {
                    self.target_height = self.target_height + mm;
                }
            },
            Rotation::CounterClockwise => {
                if self.target_height < mm {
                    self.target_height = 0;
                } else {
                    self.target_height = self.target_height - mm;
                }
            },
            Rotation::Idle => {},
        }
        self.cooldown_left = self.cooldown_ticks;
        let r = self.update_screen();
        proof {
            let t2 = self.board.trace();
            assert(t1.take(t0.len() as int) =~= t0);
            assert(since(t0, t1) =~= seq![Op::Read(Input::PhaseB, rotation == Rotation::Clockwise)]);
            lemma_since_concat(t0, t1, t2);
            assert(since(t0, t2).skip(1) =~= since(t1, t2));
        }
        r
    }

    /// The home switch: forget the current height, so that the next ticks
    /// home the carriage again, and show the calibrating frame.
    pub fn handle_home_switch_interrupt(&mut self) -> (r: Result<(), Error<H::Fault>>)
        requires
            old(self).wf(),
        ensures
            final(self).wf(),
            final(self).same_config(*old(self)),
            final(self).current() is None,
            final(self).target() == old(self).target(),
            final(self).cooldown_left() == old(self).cooldown_left(),
            final(self).motor_enabled() == old(self).motor_enabled(),
            extends(old(self).trace(), final(self).trace()),
            displayed(
                Frame::Calibrating,
                since(old(self).trace(), final(self).trace()),
                screen_part(r),
            ),
            r is Ok || r->Err_0 is ScreenUpdate,
    {
        self.current_height = None;
        self.update_screen()
    }

    /// The safety limit switch: both heights become one millimetre, the
    /// carriage is driven one millimetre up off the switch, and the height is
    /// shown.
    pub fn handle_limit_switch_interrupt(&mut self) -> (r: Result<(), Error<H::Fault>>)
        requires
            old(self).wf(),
        ensures
            final(self).wf(),
            final(self).same_config(*old(self)),
            final(self).current() == Some(old(self).steps_per_mm()),
            final(self).target() == old(self).steps_per_mm(),
            final(self).cooldown_left() == old(self).cooldown_left(),
            extends(old(self).trace(), final(self).trace()),
            r is Ok || r->Err_0 is Motor || r->Err_0 is ScreenUpdate,
            ({
                let done = since(old(self).trace(), final(self).trace());
                let plan = rotate_ops(
                    old(self).motor_enabled(),
                    true,
                    old(self).steps_per_mm() as nat,
                    old(self).motor_delay(),
                );
                let n = plan.len() as int;
                &&& r matches Err(Error::Motor(e)) ==> ran(plan, done, Some(e.line()))
                &&& !(r matches Err(Error::Motor(_))) ==> {
                    &&& done.len() >= n
                    &&& done.take(n) == plan
                    &&& final(self).motor_enabled() == old(self).motor_enabled()
                    &&& displayed(final(self).frame(), done.skip(n), screen_part(r))
                }
            }),
    {
        let ghost t0 = self.board.trace();
        let ghost e0 = self.motor.enabled();
        let mm = self.motor_steps_per_mm;
        self.current_height = Some(mm);
        self.target_height = mm;
        if let Err(e) = self.motor.rotate_clockwise(&mut self.board, mm) {
            return Err(Error::Motor(e));
        }
        proof {
            lemma_rotate_restores(e0, true, mm as nat, self.motor.delay());
        }
        let ghost t1 = self.board.trace();
        let r = self.update_screen();
        proof {
            let t2 = self.board.trace();
            lemma_since_concat(t0, t1, t2);
            let n = since(t0, t1).len() as int;
            assert(since(t0, t2).take(n) =~= since(t0, t1));
            assert(since(t0, t2).skip(n) =~= since(t1, t2));
        }
        r
    }

    /// Shows the frame of the current state.
    fn update_screen(&mut self) -> (r: Result<(), Error<H::Fault>>)
        requires
            old(self).wf(),
        ensures
            final(self).wf(),
            final(self).same_config(*old(self)),
            final(self).current() == old(self).current(),
            final(self).target() == old(self).target(),
            final(self).cooldown_left() == old(self).cooldown_left(),
            final(self).motor_enabled() == old(self).motor_enabled(),
            extends(old(self).trace(), final(self).trace()),
            displayed(old(self).frame(), since(old(self).trace(), final(self).trace()), screen_part(r)),
            r is Ok || r->Err_0 is ScreenUpdate,
    {
        let frame = if self.current_height.is_some() {
            Frame::Height(self.target_height / self.motor_steps_per_mm)
        } else {
            Frame::Calibrating
        };
        match self.screen.update(&mut self.board, frame) {
            Ok(()) => Ok(()),
            Err(e) => Err(Error::ScreenUpdate(e)),
        }
    }

    pub fn target_height(&self) -> (r: u32)
        ensures
            r == self.target(),
    {
        self.target_height
    }

    pub fn current_height(&self) -> (r: Option<u32>)
        ensures
            r == self.current(),
    {
        self.current_height
    }

    /// Direct access to the hardware, for what the controller does not do
    /// itself (acknowledging interrupts, for instance).
    pub fn hardware_mut(&mut self) -> (r: &mut H)
        ensures
            final(self).trace() == old(self).trace(),
    {
        self.board.hardware_mut()
    }
}

/// While a cooldown runs, a tick moves nothing: it performs no operation and
/// the current height stays. Clicks of the dial in that window still move
/// the target, and each restarts the cooldown, so a burst of them becomes a
/// single move toward the final target once the cooldown has run out.
pub proof fn lemma_cooldown_defers_moves<H: Hardware>(
    pre: Mill<H>,
    post: Mill<H>,
    r: Result<(), Error<H::Fault>>,
)
    requires
        pre.current() is Some,
        pre.cooldown_left() > 0,
        pre.tracking_tick(post, r),
    ensures
        r is Ok,
        since(pre.trace(), post.trace()).len() == 0,
        post.current() == pre.current(),
{
}

} // verus!
