//! What the character display shows for each state of the controller.
use crate::board::{extends, since, Board, Hardware, Op};
use arrayvec::ArrayString;
use core::fmt::Write;
use vstd::prelude::*;

verus! {

#[verifier::external_type_specification]
#[verifier::external_body]
pub struct ExFmtError(core::fmt::Error);

/// What the display can show.
#[derive(Debug, Clone, Copy, PartialEq, Eq, Structural)]
pub enum Frame {
    Welcome,
    Calibrating,
    /// The target height, in millimetres.
    Height(u32),
}

/// Where on the display the height reading starts.
pub const HEIGHT_POS: u8 = 45;

/// How many characters the height reading may take.
pub const HEIGHT_CAPACITY: usize = 5;

/// The first line of each frame.
pub open spec fn caption(frame: Frame) -> Seq<char> {
    match frame {
        Frame::Welcome => "Witaj!"@,
        Frame::Calibrating => "Kalibracja..."@,
        Frame::Height(_) => "Obecna wysokosc:"@,
    }
}

pub open spec fn digit(d: nat) -> char {
    seq!['0', '1', '2', '3', '4', '5', '6', '7', '8', '9'][d as int]
}

/// The decimal digits of `n`, without leading zeros.
pub open spec fn decimal(n: nat) -> Seq<char>
    decreases n,
{
    if n < 10 {
        seq![digit(n)]
    } else {
        decimal(n / 10).push(digit(n % 10))
    }
}

/// A height reading: at least two digits, then the unit.
pub open spec fn height_text(mm: nat) -> Seq<char> {
    (if mm < 10 { seq!['0'] } else { Seq::empty() }) + decimal(mm) + "mm"@
}

/// Whether the display can show a frame.
pub open spec fn fits(frame: Frame) -> bool {
    match frame {
        Frame::Height(mm) => height_text(mm as nat).len() <= HEIGHT_CAPACITY,
        _ => true,
    }
}

/// The display operations that show a frame.
pub open spec fn frame_ops(frame: Frame) -> Seq<Op> {
    let head = seq![Op::Clear, Op::Text(caption(frame))];
    match frame {
        Frame::Height(mm) => head + seq![Op::Cursor(HEIGHT_POS), Op::Text(height_text(mm as nat))],
        _ => head,
    }
}

/// `done` is what performing `plan` in order left behind: all of it when
/// `ok`, otherwise a proper prefix that stopped at a failed operation.
pub open spec fn stopped(plan: Seq<Op>, done: Seq<Op>, ok: bool) -> bool {
    if ok {
        done == plan
    } else {
        done.len() < plan.len() && done == plan.take(done.len() as int)
    }
}

/// A failed display update.
#[derive(Debug)]
pub enum ScreenUpdateError<F> {
    /// The text does not fit in its field.
    Fmt(core::fmt::Error),
    /// The display reported a fault.
    Display(F),
}

/// What updating the display to `frame` left in the trace, given its
/// result: a frame that fits is shown whole unless the display fails part
/// way; one that does not fit gets its caption and then fails.
pub open spec fn displayed<F>(frame: Frame, done: Seq<Op>, r: Result<(), ScreenUpdateError<F>>) -> bool {
    if fits(frame) {
        &&& stopped(frame_ops(frame), done, r is Ok)
        &&& r matches Err(e) ==> e is Display
    } else {
        &&& r is Err
        &&& r matches Err(e) ==> stopped(frame_ops(frame).take(2), done, e is Fmt)
    }
}

/// Relies on arrayvec's `ArrayString` with room for five bytes, written
/// through `core::fmt::Write` with `{:02}mm`: each piece of the formatted
/// text is pushed whole or refused, so writing succeeds exactly when the
/// whole text fits.
#[verifier::external_body]
fn height_to_string(height: u32) -> (r: Result<String, core::fmt::Error>)
    ensures
        r matches Ok(s) ==> s@ == height_text(height as nat),
        r is Ok <==> height_text(height as nat).len() <= HEIGHT_CAPACITY,
{
    let mut content = ArrayString::<[u8; 5]>::new();
    write!(content, "{:02}mm", height)?;
    Ok(String::from(content.as_str()))
}

impl Frame {
    pub fn caption(&self) -> (r: &'static str)
        ensures
            r@ == caption(*self),
    {
        match self {
            Frame::Welcome => "Witaj!",
            Frame::Calibrating => "Kalibracja...",
            Frame::Height(_) => "Obecna wysokosc:",
        }
    }
}

/// The character display.
pub struct Screen {}

impl Screen {
    pub fn new() -> (r: Self) {
        Screen {}
    }

    /// Clears the display and shows `frame`: its caption, and for a height
    /// the reading at [`HEIGHT_POS`].
    pub fn update<H: Hardware>(&mut self, board: &mut Board<H>, frame: Frame) -> (r: Result<
        (),
        ScreenUpdateError<H::Fault>,
    >)
        ensures
            extends(old(board).trace(), final(board).trace()),
            displayed(frame, since(old(board).trace(), final(board).trace()), r),
    {
        let ghost t0 = board.trace();
        let ghost plan = frame_ops(frame);
        proof {
            assert(since(t0, t0) =~= plan.take(0));
            assert(t0.take(t0.len() as int) =~= t0);
            assert(plan.take(2).take(0) =~= plan.take(0));
            assert(plan.take(2).take(1) =~= plan.take(1));
        }
        if let Err(f) = board.clear_display() {
            return Err(ScreenUpdateError::Display(f));
        }
        proof {
            assert(board.trace().take(t0.len() as int) =~= t0);
            assert(since(t0, board.trace()) =~= plan.take(1));
        }
        let ghost t1 = board.trace();
        if let Err(f) = board.write_str(frame.caption()) {
            return Err(ScreenUpdateError::Display(f));
        }
        proof {
            assert(board.trace().take(t0.len() as int) =~= t0);
            assert(since(t0, board.trace()) =~= plan.take(2));
        }
        match frame {
            Frame::Height(mm) => {
                let content = match height_to_string(mm) {
                    Ok(s) => s,
                    Err(e) => return Err(ScreenUpdateError::Fmt(e)),
                };
                if let Err(f) = board.set_cursor_pos(HEIGHT_POS) {
                    return Err(ScreenUpdateError::Display(f));
                }
                proof {
                    assert(board.trace().take(t0.len() as int) =~= t0);
                    assert(since(t0, board.trace()) =~= plan.take(3));
                }
                if let Err(f) = board.write_str(content.as_str()) {
                    return Err(ScreenUpdateError::Display(f));
                }
                proof {
                    assert(board.trace().take(t0.len() as int) =~= t0);
                    assert(since(t0, board.trace()) =~= plan);
                }
            },
            _ => {
                proof {
                    assert(plan.take(2) =~= plan);
                }
            },
        }
        Ok(())
    }
}

} // verus!
