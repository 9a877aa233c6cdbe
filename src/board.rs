//! Peripheral capabilities and the trace of the operations performed on them.
use vstd::prelude::*;

verus! {

/// A digital output line of the motor driver.
#[derive(Debug, Clone, Copy, PartialEq, Eq, Structural)]
pub enum Line {
    Step,
    Dir,
    /// Active low: driving it low enables the driver.
    Enable,
    M1,
    M2,
    M3,
}

/// A digital input that the controller samples on demand.
#[derive(Debug, Clone, Copy, PartialEq, Eq, Structural)]
pub enum Input {
    /// Phase B of the quadrature dial.
    PhaseB,
    /// The reference sensor; `true` means the carriage is at home.
    Home,
}

/// How long a level is held between two edges of a step pulse.
#[derive(Debug, Clone, Copy, PartialEq, Eq, Structural)]
pub enum Duration {
    Us(u32),
    Ms(u32),
}

/// One operation performed on the hardware, as recorded in a trace.
pub enum Op {
    /// An output line was driven to a level (`true` is high).
    Drive(Line, bool),
    /// The caller was blocked for a duration.
    Wait(Duration),
    /// An input was read and gave this level.
    Read(Input, bool),
    /// The display was cleared.
    Clear,
    /// The display cursor was moved to a position.
    Cursor(u8),
    /// Text was written to the display at the cursor.
    Text(Seq<char>),
}

/// What a board provides to the library. Each method performs the operation
/// on the physical device; a failing one reports a fault of the board's own
/// type.
pub trait Hardware {
    type Fault;

    fn set_line(&mut self, line: Line, high: bool) -> Result<(), Self::Fault>;

    fn pause(&mut self, duration: Duration);

    fn read_input(&mut self, input: Input) -> Result<bool, Self::Fault>;

    fn clear_display(&mut self) -> Result<(), Self::Fault>;

    fn set_cursor_pos(&mut self, pos: u8) -> Result<(), Self::Fault>;

    fn write_str(&mut self, text: &str) -> Result<(), Self::Fault>;
}

/// A board together with the ghost trace of the operations that succeeded on
/// it through this wrapper, oldest first.
pub struct Board<H: Hardware> {
    hw: H,
    log: Ghost<Seq<Op>>,
}

/// `new` is `old` followed by more operations.
pub open spec fn extends(old: Seq<Op>, new: Seq<Op>) -> bool {
    old.len() <= new.len() && new.take(old.len() as int) == old
}

/// The operations recorded after `old`, where `new` extends `old`.
pub open spec fn since(old: Seq<Op>, new: Seq<Op>) -> Seq<Op> {
    new.skip(old.len() as int)
}

/// What was recorded after `t0` is what came up to `t1` followed by what
/// came after `t1`.
pub proof fn lemma_since_concat(t0: Seq<Op>, t1: Seq<Op>, t2: Seq<Op>)
    requires
        extends(t0, t1),
        extends(t1, t2),
    ensures
        extends(t0, t2),
        since(t0, t2) == since(t0, t1) + since(t1, t2),
{
    assert forall|j: int| 0 <= j < t1.len() implies #[trigger] t2[j] == t1[j] by {
        assert(t2.take(t1.len() as int)[j] == t2[j]);
    }
    assert forall|j: int| 0 <= j < t0.len() implies #[trigger] t1[j] == t0[j] by {
        assert(t1.take(t0.len() as int)[j] == t1[j]);
    }
    assert(t2.take(t0.len() as int) =~= t0);
    assert(since(t0, t2) =~= since(t0, t1) + since(t1, t2));
}

impl<H: Hardware> Board<H> {
    pub closed spec fn trace(&self) -> Seq<Op> {
        self.log@
    }

    pub fn new(hw: H) -> (r: Self)
        ensures
            r.trace() == Seq::<Op>::empty(),
    {
        Board { hw, log: Ghost(Seq::empty()) }
    }

    /// Direct access to the hardware, for what the library does not do
    /// itself (acknowledging interrupts, for instance).
    pub fn hardware_mut(&mut self) -> (r: &mut H)
        ensures
            final(self).trace() == old(self).trace(),
    {
        &mut self.hw
    }

    pub fn set_line(&mut self, line: Line, high: bool) -> (r: Result<(), H::Fault>)
        ensures
            r is Ok ==> final(self).trace() == old(self).trace().push(Op::Drive(line, high)),
            r is Err ==> final(self).trace() == old(self).trace(),
    {
        let r = self.hw.set_line(line, high);
        if r.is_ok() {
            self.log = Ghost(self.log@.push(Op::Drive(line, high)));
        }
        r
    }

    pub fn pause(&mut self, duration: Duration)
        ensures
            final(self).trace() == old(self).trace().push(Op::Wait(duration)),
    {
        self.hw.pause(duration);
        self.log = Ghost(self.log@.push(Op::Wait(duration)));
    }

    pub fn read_input(&mut self, input: Input) -> (r: Result<bool, H::Fault>)
        ensures
            r matches Ok(v) ==> final(self).trace() == old(self).trace().push(Op::Read(input, v)),
            r is Err ==> final(self).trace() == old(self).trace(),
    {
        let r = self.hw.read_input(input);
        if let Ok(v) = r {
            self.log = Ghost(self.log@.push(Op::Read(input, v)));
        }
        r
    }

    pub fn clear_display(&mut self) -> (r: Result<(), H::Fault>)
        ensures
            r is Ok ==> final(self).trace() == old(self).trace().push(Op::Clear),
            r is Err ==> final(self).trace() == old(self).trace(),
    {
        let r = self.hw.clear_display();
        if r.is_ok() {
            self.log = Ghost(self.log@.push(Op::Clear));
        }
        r
    }

    pub fn set_cursor_pos(&mut self, pos: u8) -> (r: Result<(), H::Fault>)
        ensures
            r is Ok ==> final(self).trace() == old(self).trace().push(Op::Cursor(pos)),
            r is Err ==> final(self).trace() == old(self).trace(),
    {
        let r = self.hw.set_cursor_pos(pos);
        if r.is_ok() {
            self.log = Ghost(self.log@.push(Op::Cursor(pos)));
        }
        r
    }

    pub fn write_str(&mut self, text: &str) -> (r: Result<(), H::Fault>)
        ensures
            r is Ok ==> final(self).trace() == old(self).trace().push(Op::Text(text@)),
            r is Err ==> final(self).trace() == old(self).trace(),
    {
        let r = self.hw.write_str(text);
        if r.is_ok() {
            self.log = Ghost(self.log@.push(Op::Text(text@)));
        }
        r
    }
}

} // verus!
