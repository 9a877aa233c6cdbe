//! The quadrature dial. Decoding is immediate: on each qualifying edge of
//! phase A the caller asks for an update, which samples phase B and reports
//! clockwise when it is high and counter-clockwise when it is low.
use crate::board::{Board, Hardware, Input, Op};
use vstd::prelude::*;

verus! {

/// One decoded transition of the dial.
#[derive(Debug, Clone, Copy, PartialEq, Eq, Structural)]
pub enum Rotation {
    /// No movement.
    Idle,
    Clockwise,
    CounterClockwise,
}

/// The rotation that a level of phase B stands for.
pub open spec fn decode(phase_b: bool) -> Rotation {
    if phase_b {
        Rotation::Clockwise
    } else {
        Rotation::CounterClockwise
    }
}

/// A failed read of one of the dial's phases.
#[derive(Debug)]
pub enum Error<F> {
    Sia(F),
    Sib(F),
}

/// A decoder for a dial whose phase A raises the interrupt.
pub struct RotaryEncoder {}

impl RotaryEncoder {
    pub fn new() -> (r: Self) {
        RotaryEncoder {}
    }

    /// Samples phase B once and decodes it.
    pub fn update<H: Hardware>(&mut self, board: &mut Board<H>) -> (r: Result<
        Rotation,
        Error<H::Fault>,
    >)
        ensures
            r matches Ok(rot) ==> final(board).trace() == old(board).trace().push(
                Op::Read(Input::PhaseB, rot == Rotation::Clockwise),
            ) && rot == decode(rot == Rotation::Clockwise),
            r matches Err(e) ==> final(board).trace() == old(board).trace() && e is Sib,
    {
        match board.read_input(Input::PhaseB) {
            Ok(b) => {
                if b {
                    Ok(Rotation::Clockwise)
                } else {
                    Ok(Rotation::CounterClockwise)
                }
            },
            Err(f) => Err(Error::Sib(f)),
        }
    }
}

} // verus!
