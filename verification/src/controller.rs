use vstd::prelude::*;
use crate::error::ChustError;
use crate::mapper::{
    spec_cell_point_x, spec_cell_point_y, spec_file_index, spec_frame_fits, spec_rank_value,
    spec_square_cell, spec_valid_square, square_to_point,
};
use crate::types::{BoardFrame, Pov};

verus! {

/// What one board reading means to the polling loop.
#[derive(Clone, Copy, PartialEq, Eq, Structural, Debug)]
pub enum Verdict {
    /// The board still shows the last committed position.
    NoChange,
    /// The board changed, but stabilization wants to see the same reading
    /// again before trusting it.
    Unconfirmed,
    /// A changed position is confirmed; decide and play a move now.
    Commit,
}

/// The only state the autoplay loop carries across ticks: the last position
/// it committed a move from, the previous tick's reading, and whether a
/// change must be read twice before it is trusted.
pub struct ControllerState {
    pub last_committed: String,
    pub prev_reading: Option<String>,
    pub stabilize: bool,
}

/// The verdict on a reading: unchanged boards rest, and a changed board is
/// committed at once without stabilization, or as soon as two consecutive
/// ticks agree on it with stabilization. Every newly observed change starts
/// its own confirmation; no reading is ever trusted on one sighting.
pub open spec fn spec_verdict(st: ControllerState, reading: Seq<char>) -> Verdict {
    if reading == st.last_committed@ {
        Verdict::NoChange
    } else if !st.stabilize {
        Verdict::Commit
    } else {
        match st.prev_reading {
            Some(p) => if p@ == reading {
                Verdict::Commit
            } else {
                Verdict::Unconfirmed
            },
            None => Verdict::Unconfirmed,
        }
    }
}

impl ControllerState {
    /// A fresh session: nothing committed yet, nothing read yet.
    pub fn new(initial_position: String, stabilize: bool) -> (st: ControllerState)
        ensures
            st.last_committed@ == initial_position@,
            st.prev_reading is None,
            st.stabilize == stabilize,
    {
        ControllerState { last_committed: initial_position, prev_reading: None, stabilize }
    }

    /// Judge one reading and remember it for the next tick's comparison.
    pub fn observe(&mut self, reading: &String) -> (v: Verdict)
        ensures
            v == spec_verdict(*old(self), reading@),
            final(self).last_committed == old(self).last_committed,
            final(self).stabilize == old(self).stabilize,
            match final(self).prev_reading {
                Some(p) => p@ == reading@,
                None => false,
            },
    {
        let v = if self.last_committed.eq(reading) {
            Verdict::NoChange
        } else if !self.stabilize {
            Verdict::Commit
        } else {
            match &self.prev_reading {
                Some(p) => if p.eq(reading) {
                    Verdict::Commit
                } else {
                    Verdict::Unconfirmed
                },
                None => Verdict::Unconfirmed,
            }
        };
        self.prev_reading = Some(reading.clone());
        v
    }

    /// After the move is played and applied, the position it produced
    /// becomes the new baseline, and the confirmation window starts over.
    pub fn record_commit(&mut self, new_position: String)
        ensures
            final(self).last_committed@ == new_position@,
            final(self).prev_reading is None,
            final(self).stabilize == old(self).stabilize,
    {
        self.last_committed = new_position;
        self.prev_reading = None;
    }
}

/// With stabilization on, a reading that differs from both the last
/// committed position and the previous tick's reading is never committed:
/// a single-tick fluctuation only opens a confirmation window.
pub proof fn lemma_fluctuation_waits(st: ControllerState, reading: Seq<char>)
    requires
        st.stabilize,
        reading != st.last_committed@,
        match st.prev_reading {
            Some(p) => p@ != reading,
            None => true,
        },
    ensures
        spec_verdict(st, reading) == Verdict::Unconfirmed,
{
}

/// A changed reading that matches the previous tick's reading is committed:
/// confirmation is never lost, so a persisting change is played rather than
/// skipped.
pub proof fn lemma_confirmed_change_commits(st: ControllerState, reading: Seq<char>)
    requires
        reading != st.last_committed@,
        match st.prev_reading {
            Some(p) => p@ == reading,
            None => false,
        },
    ensures
        spec_verdict(st, reading) == Verdict::Commit,
{
}

/// The candidate full position handed to the engine: the board string, the
/// side to move, and the configured castling rights, space-separated.
pub fn full_position(board: &str, white_pov: bool, castle_w: bool, castle_b: bool) -> (r: String)
    ensures
        r@ == board@ + " "@ + (if white_pov {
            "w"@
        } else {
            "b"@
        }) + " "@ + (if castle_w {
            "KQ"@
        } else {
            "-"@
        }) + (if castle_b {
            "kq"@
        } else {
            "-"@
        }),
{
    let mut r = board.to_owned();
    r.append(" ");
    if white_pov {
        r.append("w");
    } else {
        r.append("b");
    }
    r.append(" ");
    if castle_w {
        r.append("KQ");
    } else {
        r.append("-");
    }
    if castle_b {
        r.append("kq");
    } else {
        r.append("-");
    }
    r
}

/// Everything the actuator needs for one move: where to click first and
/// second, and the promotion letter when the move carries one.
#[derive(Clone, Copy, PartialEq, Eq, Debug)]
pub struct MovePlan {
    pub from: (u32, u32),
    pub to: (u32, u32),
    pub promotion: Option<char>,
}

/// Where a square name's point lands on a frame, as
/// [`crate::mapper::square_to_point`] computes it.
pub open spec fn spec_square_point(frame: BoardFrame, sq: Seq<char>, white_pov: bool) -> (
    int,
    int,
) {
    let (col, row) = spec_square_cell(
        spec_file_index(sq),
        spec_rank_value(sq),
        white_pov,
    );
    (spec_cell_point_x(frame, col), spec_cell_point_y(frame, row))
}

/// A move string's source and destination turned into click points on the
/// board frame, with its promotion letter if a fifth character carries one.
/// Fails with [`ChustError::InvalidSquare`] exactly when the move is not
/// four or five characters of two well-formed squares.
pub fn plan_move_clicks(frame: &BoardFrame, mv: &str, pov: Pov) -> (r: Result<
    MovePlan,
    ChustError,
>)
    requires
        spec_frame_fits(frame.origin_x as int, frame.origin_y as int, frame.spec_cell_size()),
    ensures
        match r {
            Ok(plan) => {
                &&& mv@.len() == 4 || mv@.len() == 5
                &&& spec_valid_square(mv@.subrange(0, 2))
                &&& spec_valid_square(mv@.subrange(2, 4))
                &&& plan.from.0 == spec_square_point(*frame, mv@.subrange(0, 2), pov == Pov::W).0
                &&& plan.from.1 == spec_square_point(*frame, mv@.subrange(0, 2), pov == Pov::W).1
                &&& plan.to.0 == spec_square_point(*frame, mv@.subrange(2, 4), pov == Pov::W).0
                &&& plan.to.1 == spec_square_point(*frame, mv@.subrange(2, 4), pov == Pov::W).1
                &&& plan.promotion == (if mv@.len() == 5 {
                    Some(mv@[4])
                } else {
                    None::<char>
                })
            },
            Err(e) => {
                &&& e == ChustError::InvalidSquare
                &&& (mv@.len() != 4 && mv@.len() != 5) || !spec_valid_square(mv@.subrange(0, 2))
                    || !spec_valid_square(mv@.subrange(2, 4))
            },
        },
{
    let len = mv.unicode_len();
    if len != 4 && len != 5 {
        return Err(ChustError::InvalidSquare);
    }
    let from_sq = mv.substring_char(0, 2);
    let to_sq = mv.substring_char(2, 4);
    let from = match square_to_point(frame, from_sq, pov) {
        Ok(p) => p,
        Err(e) => {
            return Err(e);
        },
    };
    let to = match square_to_point(frame, to_sq, pov) {
        Ok(p) => p,
        Err(e) => {
            return Err(e);
        },
    };
    let promotion = if len == 5 {
        Some(mv.get_char(4))
    } else {
        None
    };
    Ok(MovePlan { from, to, promotion })
}

} // verus!
