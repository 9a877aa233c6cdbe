//! The step generator: microstep mode lines, the enable line and bounded
//! trains of step pulses.
use crate::board::{extends, since, Board, Duration, Hardware, Line, Op};
use vstd::prelude::*;

verus! {

/// Microstep resolution of the driver.
#[derive(Debug, Clone, Copy, PartialEq, Eq, Structural)]
pub enum Mode {
    FullStep,
    HalfStep,
    QuarterStep,
    EighthStep,
    SixteenthStep,
}

/// The levels of the mode-select lines M1, M2 and M3 for each mode. A driver
/// with two mode lines ignores M3 and offers the first three modes.
pub open spec fn mode_levels(mode: Mode) -> (bool, bool, bool) {
    match mode {
        Mode::FullStep => (false, false, false),
        Mode::HalfStep => (true, false, false),
        Mode::QuarterStep => (false, true, false),
        Mode::EighthStep => (true, true, false),
        Mode::SixteenthStep => (true, true, true),
    }
}

impl Mode {
    pub fn levels(self) -> (r: (bool, bool, bool))
        ensures
            r == mode_levels(self),
    {
        match self {
            Mode::FullStep => (false, false, false),
            Mode::HalfStep => (true, false, false),
            Mode::QuarterStep => (false, true, false),
            Mode::EighthStep => (true, true, false),
            Mode::SixteenthStep => (true, true, true),
        }
    }
}

/// A fault on one of the motor driver's lines.
#[derive(Debug)]
pub enum Error<F> {
    Step(F),
    Dir(F),
    Enable(F),
    M1(F),
    M2(F),
    M3(F),
}

impl<F> Error<F> {
    /// The line whose write failed.
    pub open spec fn line(&self) -> Line {
        match self {
            Error::Step(_) => Line::Step,
            Error::Dir(_) => Line::Dir,
            Error::Enable(_) => Line::Enable,
            Error::M1(_) => Line::M1,
            Error::M2(_) => Line::M2,
            Error::M3(_) => Line::M3,
        }
    }
}

/// The line named by a failed result, or `None` on success.
pub open spec fn fault_line<T, F>(r: Result<T, Error<F>>) -> Option<Line> {
    match r {
        Ok(_) => None,
        Err(e) => Some(e.line()),
    }
}

/// `done` is what performing `plan` in order left behind, stopping at the
/// first failed write: all of it when nothing failed (`failed` is `None`),
/// otherwise a proper prefix followed in `plan` by a write to the line that
/// failed.
pub open spec fn ran(plan: Seq<Op>, done: Seq<Op>, failed: Option<Line>) -> bool {
    match failed {
        None => done == plan,
        Some(line) => {
            &&& done.len() < plan.len()
            &&& done == plan.take(done.len() as int)
            &&& plan[done.len() as int] is Drive
            &&& plan[done.len() as int]->Drive_0 == line
        },
    }
}

/// Whether the driver is enabled after `ops`, starting from `start`: the
/// last write to the (active-low) enable line decides.
pub open spec fn enabled_after(start: bool, ops: Seq<Op>) -> bool
    decreases ops.len(),
{
    if ops.len() == 0 {
        start
    } else {
        match ops.last() {
            Op::Drive(Line::Enable, high) => !high,
            _ => enabled_after(start, ops.drop_last()),
        }
    }
}

/// The writes that select a mode.
pub open spec fn mode_ops(mode: Mode) -> Seq<Op> {
    let (m1, m2, m3) = mode_levels(mode);
    seq![Op::Drive(Line::M1, m1), Op::Drive(Line::M2, m2), Op::Drive(Line::M3, m3)]
}

/// One step pulse: step line high, hold, low, hold.
pub open spec fn pulse(d: Duration) -> Seq<Op> {
    seq![Op::Drive(Line::Step, true), Op::Wait(d), Op::Drive(Line::Step, false), Op::Wait(d)]
}

/// `steps` pulses in a row.
pub open spec fn pulses(steps: nat, d: Duration) -> Seq<Op> {
    Seq::new(4 * steps, |j: int| pulse(d)[j % 4])
}

/// A full rotation: the direction line (high is clockwise), then the pulses;
/// a driver that was disabled is enabled around them and disabled again.
pub open spec fn rotate_ops(enabled: bool, clockwise: bool, steps: nat, d: Duration) -> Seq<Op> {
    let wrap = !enabled;
    seq![Op::Drive(Line::Dir, clockwise)]
        + (if wrap { seq![Op::Drive(Line::Enable, false)] } else { Seq::empty() })
        + pulses(steps, d)
        + (if wrap { seq![Op::Drive(Line::Enable, true)] } else { Seq::empty() })
}

proof fn lemma_pulses_prefix(n: nat, i: nat, d: Duration)
    requires
        i <= n,
    ensures
        pulses(n, d).take(4 * i as int) == pulses(i, d),
        i < n ==> pulses(n, d)[4 * i as int] == Op::Drive(Line::Step, true),
        i < n ==> pulses(n, d)[4 * i as int + 1] == Op::Wait(d),
        i < n ==> pulses(n, d)[4 * i as int + 2] == Op::Drive(Line::Step, false),
        i < n ==> pulses(i, d) + pulse(d) == pulses(i + 1, d),
{
    assert(pulses(n, d).take(4 * i as int) =~= pulses(i, d));
    if i < n {
        assert((4 * i) % 4 == 0) by (nonlinear_arith);
        assert((4 * i + 1) % 4 == 1) by (nonlinear_arith);
        assert((4 * i + 2) % 4 == 2) by (nonlinear_arith);
        assert forall|j: int| 4 * i <= j < 4 * i + 4 implies #[trigger] (j % 4) == j - 4 * i by {
            assert(4 * i <= j < 4 * i + 4 ==> j % 4 == j - 4 * i) by (nonlinear_arith);
        }
        assert(pulses(i, d) + pulse(d) =~= pulses(i + 1, d));
    }
}

proof fn lemma_enabled_after_push(start: bool, ops: Seq<Op>, op: Op)
    ensures
        enabled_after(start, ops.push(op)) == match op {
            Op::Drive(Line::Enable, high) => !high,
            _ => enabled_after(start, ops),
        },
{
    assert(ops.push(op).drop_last() =~= ops);
}

/// The part of a board's trace that a call added, seen as a growing record.
proof fn lemma_since_push(t0: Seq<Op>, t: Seq<Op>, op: Op)
    requires
        extends(t0, t),
    ensures
        extends(t0, t.push(op)),
        since(t0, t.push(op)) == since(t0, t).push(op),
{
    assert(t.push(op).take(t0.len() as int) =~= t.take(t0.len() as int));
    assert(since(t0, t.push(op)) =~= since(t0, t).push(op));
}

proof fn lemma_take_push(plan: Seq<Op>, k: int)
    requires
        0 <= k < plan.len(),
    ensures
        plan.take(k).push(plan[k]) == plan.take(k + 1),
{
    assert(plan.take(k).push(plan[k]) =~= plan.take(k + 1));
}

proof fn lemma_rotate_layout(enabled: bool, clockwise: bool, steps: nat, d: Duration, i: nat)
    requires
        i <= steps,
    ensures
        ({
            let plan = rotate_ops(enabled, clockwise, steps, d);
            let pre = if enabled { 1int } else { 2int };
            &&& plan.len() == pre + 4 * steps + (pre - 1)
            &&& plan[0] == Op::Drive(Line::Dir, clockwise)
            &&& !enabled ==> plan[1] == Op::Drive(Line::Enable, false)
            &&& !enabled ==> plan[pre + 4 * steps] == Op::Drive(Line::Enable, true)
            &&& plan.take(pre + 4 * i) == plan.take(pre) + pulses(i, d)
            &&& i < steps ==> plan[pre + 4 * i] == Op::Drive(Line::Step, true)
            &&& i < steps ==> plan[pre + 4 * i + 1] == Op::Wait(d)
            &&& i < steps ==> plan[pre + 4 * i + 2] == Op::Drive(Line::Step, false)
            &&& i < steps ==> plan[pre + 4 * i + 3] == Op::Wait(d)
        }),
{
    let plan = rotate_ops(enabled, clockwise, steps, d);
    let pre = if enabled { 1int } else { 2int };
    let head = seq![Op::Drive(Line::Dir, clockwise)]
        + (if !enabled { seq![Op::Drive(Line::Enable, false)] } else { Seq::empty() });
    let p = pulses(steps, d);
    assert(head.len() == pre);
    assert(plan.take(pre) =~= head);
    lemma_pulses_prefix(steps, i, d);
    assert forall|j: int| 0 <= j < 4 * steps implies plan[pre + j] == #[trigger] p[j] by {}
    assert(plan.take(pre + 4 * i) =~= plan.take(pre) + pulses(i, d));
    if i < steps {
        assert((4 * i + 3) % 4 == 3) by (nonlinear_arith);
        assert(p[4 * i as int + 3] == Op::Wait(d));
    }
}

proof fn lemma_enabled_after_other(start: bool, ops: Seq<Op>)
    requires
        forall|j: int|
            0 <= j < ops.len() ==> !(#[trigger] ops[j] matches Op::Drive(Line::Enable, _)),
    ensures
        enabled_after(start, ops) == start,
    decreases ops.len(),
{
    if ops.len() > 0 {
        let rest = ops.drop_last();
        assert forall|j: int| 0 <= j < rest.len() implies !(#[trigger] rest[j] matches Op::Drive(
            Line::Enable,
            _,
        )) by {
            assert(rest[j] == ops[j]);
        }
        assert(ops.last() == ops[ops.len() - 1]);
        lemma_enabled_after_other(start, rest);
    }
}

/// A complete rotation leaves the driver enabled exactly when it was before.
pub proof fn lemma_rotate_restores(enabled: bool, clockwise: bool, steps: nat, d: Duration)
    ensures
        enabled_after(enabled, rotate_ops(enabled, clockwise, steps, d)) == enabled,
{
    let plan = rotate_ops(enabled, clockwise, steps, d);
    if enabled {
        let p = pulses(steps, d);
        assert forall|j: int| 0 <= j < p.len() implies !(#[trigger] p[j] matches Op::Drive(
            Line::Enable,
            _,
        )) by {
            assert(0 <= j % 4 < 4);
        }
        assert(plan =~= seq![Op::Drive(Line::Dir, clockwise)] + p);
        assert forall|j: int| 0 <= j < plan.len() implies !(#[trigger] plan[j] matches Op::Drive(
            Line::Enable,
            _,
        )) by {
            if j > 0 {
                assert(plan[j] == p[j - 1]);
            }
        }
        lemma_enabled_after_other(enabled, plan);
    } else {
        assert(plan.last() == Op::Drive(Line::Enable, true));
    }
}

/// Settings of a stepper motor.
pub struct StepperMotorConfig {
    pub mode: Mode,
    pub signal_delay: Duration,
}

/// A stepper motor behind a step/direction driver.
pub struct StepperMotor {
    signal_delay: Duration,
    is_enabled: bool,
}

impl StepperMotor {
    /// Whether the driver was last left enabled.
    pub closed spec fn enabled(&self) -> bool {
        self.is_enabled
    }

    /// How long each level of a step pulse is held.
    pub closed spec fn delay(&self) -> Duration {
        self.signal_delay
    }
}

impl StepperMotor {
    /// Sets up the driver: selects the mode, then leaves it disabled.
    pub fn new<H: Hardware>(config: StepperMotorConfig, board: &mut Board<H>) -> (r: Result<
        Self,
        Error<H::Fault>,
    >)
        ensures
            extends(old(board).trace(), final(board).trace()),
            ran(
                mode_ops(config.mode).push(Op::Drive(Line::Enable, true)),
                since(old(board).trace(), final(board).trace()),
                fault_line(r),
            ),
            r matches Ok(m) ==> !m.enabled() && m.delay() == config.signal_delay,
    {
        let ghost t0 = board.trace();
        let mut motor = StepperMotor { signal_delay: config.signal_delay, is_enabled: false };
        let ghost plan = mode_ops(config.mode).push(Op::Drive(Line::Enable, true));
        match motor.set_mode(board, config.mode) {
            Ok(()) => {},
            Err(e) => {
                proof {
                    let done = since(t0, board.trace());
                    assert(plan.take(done.len() as int) =~= mode_ops(config.mode).take(
                        done.len() as int,
                    ));
                }
                return Err(e);
            },
        }
        let ghost t1 = board.trace();
        match motor.disable(board) {
            Ok(()) => {
                proof {
                    lemma_since_push(t0, t1, Op::Drive(Line::Enable, true));
                }
                Ok(motor)
            },
            Err(e) => {
                proof {
                    assert(plan.take(3) =~= mode_ops(config.mode));
                }
                Err(e)
            },
        }
    }

    /// Drives the mode-select lines to the levels of `mode`.
    pub fn set_mode<H: Hardware>(&mut self, board: &mut Board<H>, mode: Mode) -> (r: Result<
        (),
        Error<H::Fault>,
    >)
        ensures
            extends(old(board).trace(), final(board).trace()),
            ran(mode_ops(mode), since(old(board).trace(), final(board).trace()), fault_line(r)),
            *final(self) == *old(self),
    {
        let (m1, m2, m3) = mode.levels();
        self.write_mode(board, m1, m2, m3)
    }

    fn write_mode<H: Hardware>(&mut self, board: &mut Board<H>, m1: bool, m2: bool, m3: bool) -> (r:
        Result<(), Error<H::Fault>>)
        ensures
            extends(old(board).trace(), final(board).trace()),
            ran(
                seq![Op::Drive(Line::M1, m1), Op::Drive(Line::M2, m2), Op::Drive(Line::M3, m3)],
                since(old(board).trace(), final(board).trace()),
                fault_line(r),
            ),
            *final(self) == *old(self),
    {
        let ghost t0 = board.trace();
        let ghost plan = seq![
            Op::Drive(Line::M1, m1),
            Op::Drive(Line::M2, m2),
            Op::Drive(Line::M3, m3),
        ];
        proof {
            assert(since(t0, t0) =~= plan.take(0));
            assert(t0.take(t0.len() as int) =~= t0);
        }
        if let Err(f) = board.set_line(Line::M1, m1) {
            return Err(Error::M1(f));
        }
        proof {
            lemma_since_push(t0, t0, plan[0]);
            lemma_take_push(plan, 0);
        }
        let ghost t1 = board.trace();
        if let Err(f) = board.set_line(Line::M2, m2) {
            return Err(Error::M2(f));
        }
        proof {
            lemma_since_push(t0, t1, plan[1]);
            lemma_take_push(plan, 1);
        }
        let ghost t2 = board.trace();
        if let Err(f) = board.set_line(Line::M3, m3) {
            return Err(Error::M3(f));
        }
        proof {
            lemma_since_push(t0, t2, plan[2]);
            lemma_take_push(plan, 2);
            assert(plan.take(3) =~= plan);
        }
        Ok(())
    }

    /// Turns clockwise by `steps` pulses.
    pub fn rotate_clockwise<H: Hardware>(&mut self, board: &mut Board<H>, steps: u32) -> (r:
        Result<(), Error<H::Fault>>)
        ensures
            extends(old(board).trace(), final(board).trace()),
            ran(
                rotate_ops(old(self).enabled(), true, steps as nat, old(self).delay()),
                since(old(board).trace(), final(board).trace()),
                fault_line(r),
            ),
            final(self).enabled() == enabled_after(
                old(self).enabled(),
                since(old(board).trace(), final(board).trace()),
            ),
            final(self).delay() == old(self).delay(),
    {
        self.rotate(board, true, steps)
    }

    /// Turns counter-clockwise by `steps` pulses.
    pub fn rotate_counter_clockwise<H: Hardware>(&mut self, board: &mut Board<H>, steps: u32) -> (r:
        Result<(), Error<H::Fault>>)
        ensures
            extends(old(board).trace(), final(board).trace()),
            ran(
                rotate_ops(old(self).enabled(), false, steps as nat, old(self).delay()),
                since(old(board).trace(), final(board).trace()),
                fault_line(r),
            ),
            final(self).enabled() == enabled_after(
                old(self).enabled(),
                since(old(board).trace(), final(board).trace()),
            ),
            final(self).delay() == old(self).delay(),
    {
        self.rotate(board, false, steps)
    }

    /// Drives the enable line low; the driver counts as enabled once that
    /// write succeeded.
    pub fn enable<H: Hardware>(&mut self, board: &mut Board<H>) -> (r: Result<(), Error<H::Fault>>)
        ensures
            r is Ok ==> final(board).trace() == old(board).trace().push(
                Op::Drive(Line::Enable, false),
            ) && final(self).enabled(),
            r matches Err(e) ==> final(board).trace() == old(board).trace() && *final(self)
                == *old(self) && e is Enable,
            final(self).delay() == old(self).delay(),
    {
        match board.set_line(Line::Enable, false) {
            Ok(()) => {
                self.is_enabled = true;
                Ok(())
            },
            Err(f) => Err(Error::Enable(f)),
        }
    }

    pub fn is_enabled(&self) -> (r: bool)
        ensures
            r == self.enabled(),
    {
        self.is_enabled
    }

    /// Drives the enable line high; the driver counts as disabled once that
    /// write succeeded.
    pub fn disable<H: Hardware>(&mut self, board: &mut Board<H>) -> (r: Result<(), Error<H::Fault>>)
        ensures
            r is Ok ==> final(board).trace() == old(board).trace().push(
                Op::Drive(Line::Enable, true),
            ) && !final(self).enabled(),
            r matches Err(e) ==> final(board).trace() == old(board).trace() && *final(self)
                == *old(self) && e is Enable,
            final(self).delay() == old(self).delay(),
    {
        match board.set_line(Line::Enable, true) {
            Ok(()) => {
                self.is_enabled = false;
                Ok(())
            },
            Err(f) => Err(Error::Enable(f)),
        }
    }

    fn rotate<H: Hardware>(&mut self, board: &mut Board<H>, clockwise: bool, steps: u32) -> (r:
        Result<(), Error<H::Fault>>)
        ensures
            extends(old(board).trace(), final(board).trace()),
            ran(
                rotate_ops(old(self).enabled(), clockwise, steps as nat, old(self).delay()),
                since(old(board).trace(), final(board).trace()),
                fault_line(r),
            ),
            final(self).enabled() == enabled_after(
                old(self).enabled(),
                since(old(board).trace(), final(board).trace()),
            ),
            final(self).delay() == old(self).delay(),
    {
        let ghost t0 = board.trace();
        let ghost e0 = self.is_enabled;
        let ghost d = self.signal_delay;
        let ghost plan = rotate_ops(e0, clockwise, steps as nat, d);
        let ghost pre: int = if e0 { 1 } else { 2 };
        proof {
            lemma_rotate_layout(e0, clockwise, steps as nat, d, 0);
            assert(since(t0, t0) =~= plan.take(0));
            assert(t0.take(t0.len() as int) =~= t0);
        }
        if let Err(f) = board.set_line(Line::Dir, clockwise) {
            return Err(Error::Dir(f));
        }
        proof {
            lemma_since_push(t0, t0, plan[0]);
            lemma_take_push(plan, 0);
            lemma_enabled_after_push(e0, plan.take(0), plan[0]);
            assert(plan.take(0) =~= Seq::<Op>::empty());
        }
        let was_enabled = self.is_enabled;
        if !was_enabled {
            let ghost t1 = board.trace();
            if let Err(e) = self.enable(board) {
                return Err(e);
            }
            proof {
                lemma_since_push(t0, t1, plan[1]);
                lemma_take_push(plan, 1);
                lemma_enabled_after_push(e0, plan.take(1), plan[1]);
            }
        }
        proof {
            assert(plan.take(pre) =~= plan.take(pre) + pulses(0, d));
        }
        let mut i: u32 = 0;
        while i < steps
            invariant
                0 <= i <= steps,
                plan == rotate_ops(e0, clockwise, steps as nat, d),
                pre == if e0 { 1int } else { 2int },
                was_enabled == e0,
                e0 == old(self).enabled(),
                d == old(self).delay(),
                t0 == old(board).trace(),
                self.signal_delay == d,
                extends(t0, board.trace()),
                since(t0, board.trace()) == plan.take(pre + 4 * i),
                self.is_enabled == enabled_after(e0, since(t0, board.trace())),
            decreases steps - i,
        {
            proof {
                lemma_rotate_layout(e0, clockwise, steps as nat, d, i as nat);
            }
            let ghost k = pre + 4 * i;
            let ghost ta = board.trace();
            if let Err(f) = board.set_line(Line::Step, true) {
                return Err(Error::Step(f));
            }
            proof {
                lemma_since_push(t0, ta, plan[k]);
                lemma_take_push(plan, k);
                lemma_enabled_after_push(e0, plan.take(k), plan[k]);
            }
            let ghost tb = board.trace();
            board.pause(self.signal_delay);
            proof {
                lemma_since_push(t0, tb, plan[k + 1]);
                lemma_take_push(plan, k + 1);
                lemma_enabled_after_push(e0, plan.take(k + 1), plan[k + 1]);
            }
            let ghost tc = board.trace();
            if let Err(f) = board.set_line(Line::Step, false) {
                return Err(Error::Step(f));
            }
            proof {
                lemma_since_push(t0, tc, plan[k + 2]);
                lemma_take_push(plan, k + 2);
                lemma_enabled_after_push(e0, plan.take(k + 2), plan[k + 2]);
            }
            let ghost td = board.trace();
            board.pause(self.signal_delay);
            proof {
                lemma_since_push(t0, td, plan[k + 3]);
                lemma_take_push(plan, k + 3);
                lemma_enabled_after_push(e0, plan.take(k + 3), plan[k + 3]);
            }
            i = i + 1;
        }
        proof {
            lemma_rotate_layout(e0, clockwise, steps as nat, d, steps as nat);
        }
        if !was_enabled {
            let ghost te = board.trace();
            let ghost k = pre + 4 * steps;
            if let Err(e) = self.disable(board) {
                return Err(e);
            }
            proof {
                lemma_since_push(t0, te, plan[k]);
                lemma_take_push(plan, k);
                lemma_enabled_after_push(e0, plan.take(k), plan[k]);
            }
        }
        proof {
            assert(plan.take(plan.len() as int) =~= plan);
        }
        Ok(())
    }
}

} // verus!
