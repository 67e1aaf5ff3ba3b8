use vstd::prelude::*;
use vstd::arithmetic::div_mod::lemma_fundamental_div_mod_converse;
use crate::encoder::{spec_col_of_x, spec_row_of_y};
use crate::error::ChustError;
use crate::geometry::lemma_mul_le;
use crate::types::{BoardFrame, Pov};

verus! {

/// A syntactically valid square name: one file letter `a..h`, one rank
/// digit `1..8`, nothing else.
pub open spec fn spec_valid_square(s: Seq<char>) -> bool {
    &&& s.len() == 2
    &&& 'a' <= s[0] <= 'h'
    &&& '1' <= s[1] <= '8'
}

/// The 0-indexed file of a square name's letter.
pub open spec fn spec_file_index(s: Seq<char>) -> int {
    s[0] as int - 'a' as int
}

/// The 1-indexed rank of a square name's digit.
pub open spec fn spec_rank_value(s: Seq<char>) -> int {
    s[1] as int - '0' as int
}

/// The 0-indexed grid column and row of a square, seen from a side: from
/// white, file `a` is the left column and rank 1 the bottom row; from black
/// the board is rotated a half turn.
pub open spec fn spec_square_cell(file_index: int, rank: int, white_pov: bool) -> (int, int) {
    if white_pov {
        (file_index, 8 - rank)
    } else {
        (7 - file_index, rank - 1)
    }
}

/// The pixel x of the center of grid column `col` on a frame.
pub open spec fn spec_cell_point_x(frame: BoardFrame, col: int) -> int {
    frame.origin_x + frame.spec_cell_size() / 2 + frame.spec_cell_size() * col
}

/// The pixel y of the center of grid row `row` on a frame.
pub open spec fn spec_cell_point_y(frame: BoardFrame, row: int) -> int {
    frame.origin_y + frame.spec_cell_size() / 2 + frame.spec_cell_size() * row
}

/// No cell center of the grid overflows a `u32` coordinate.
pub open spec fn spec_frame_fits(origin_x: int, origin_y: int, cell: int) -> bool {
    &&& origin_x + cell / 2 + cell * 7 <= u32::MAX as int
    &&& origin_y + cell / 2 + cell * 7 <= u32::MAX as int
}

/// The pixel point to click for a square name, or `None` when the name is
/// malformed: the center of the square's grid cell, seen from the given
/// side, on a board whose top-left corner and cell size are given directly.
pub fn notation_to_positions(
    board_cords: (u32, u32),
    tile_size: u32,
    notation: &str,
    is_white_pov: bool,
) -> (r: Option<(u32, u32)>)
    requires
        spec_frame_fits(board_cords.0 as int, board_cords.1 as int, tile_size as int),
    ensures
        match r {
            Some(p) => {
                &&& spec_valid_square(notation@)
                &&& ({
                    let (col, row) = spec_square_cell(
                        spec_file_index(notation@),
                        spec_rank_value(notation@),
                        is_white_pov,
                    );
                    &&& p.0 == board_cords.0 + tile_size / 2 + tile_size * col
                    &&& p.1 == board_cords.1 + tile_size / 2 + tile_size * row
                })
            },
            None => !spec_valid_square(notation@),
        },
{
    if notation.unicode_len() != 2 {
        return None;
    }
    let file = notation.get_char(0);
    let rank_char = notation.get_char(1);
    if file < 'a' || file > 'h' || rank_char < '1' || rank_char > '8' {
        return None;
    }
    let file_index: u32 = file as u32 - 'a' as u32;
    let rank: u32 = rank_char as u32 - '0' as u32;
    let (file_pos, rank_pos): (u32, u32) = if is_white_pov {
        (file_index, 8 - rank)
    } else {
        (7 - file_index, rank - 1)
    };
    proof {
        lemma_mul_le(tile_size as int, file_pos as int, tile_size as int, 7);
        lemma_mul_le(tile_size as int, rank_pos as int, tile_size as int, 7);
        vstd::arithmetic::mul::lemma_mul_is_commutative(tile_size as int, file_pos as int);
        vstd::arithmetic::mul::lemma_mul_is_commutative(tile_size as int, rank_pos as int);
        vstd::arithmetic::mul::lemma_mul_is_commutative(tile_size as int, 7);
    }
    let x: u32 = board_cords.0 + tile_size / 2 + tile_size * file_pos;
    let y: u32 = board_cords.1 + tile_size / 2 + tile_size * rank_pos;
    Some((x, y))
}

/// The pixel point of a square on a board frame, or
/// [`ChustError::InvalidSquare`] exactly when the name is malformed. The
/// frame's own cell size supplies the grid pitch.
pub fn square_to_point(frame: &BoardFrame, square: &str, pov: Pov) -> (r: Result<
    (u32, u32),
    ChustError,
>)
    requires
        spec_frame_fits(frame.origin_x as int, frame.origin_y as int, frame.spec_cell_size()),
    ensures
        match r {
            Ok(p) => {
                &&& spec_valid_square(square@)
                &&& ({
                    let (col, row) = spec_square_cell(
                        spec_file_index(square@),
                        spec_rank_value(square@),
                        pov == Pov::W,
                    );
                    &&& p.0 == spec_cell_point_x(*frame, col)
                    &&& p.1 == spec_cell_point_y(*frame, row)
                })
            },
            Err(e) => {
                &&& e == ChustError::InvalidSquare
                &&& !spec_valid_square(square@)
            },
        },
{
    let cell = frame.cell_size();
    let white = match pov {
        Pov::W => true,
        Pov::B => false,
    };
    match notation_to_positions((frame.origin_x, frame.origin_y), cell, square, white) {
        Some(p) => {
            proof {
                let (col, row) = spec_square_cell(
                    spec_file_index(square@),
                    spec_rank_value(square@),
                    white,
                );
                vstd::arithmetic::mul::lemma_mul_is_commutative(cell as int, col);
                vstd::arithmetic::mul::lemma_mul_is_commutative(cell as int, row);
            }
            Ok(p)
        },
        None => Err(ChustError::InvalidSquare),
    }
}

/// The square-to-point mapper inverts the position encoder's grid mapping:
/// a detection centered on the point returned for a square lands in exactly
/// the grid cell the encoder assigns that square, from either point of
/// view, and both points of view agree on which cell of the serialized
/// board that is. Needs a cell of at least two pixels, so that the half-cell
/// center offset is a real step into the cell.
pub proof fn lemma_square_point_inverse(
    frame: BoardFrame,
    file_index: int,
    rank: int,
    white_pov: bool,
)
    requires
        frame.spec_cell_size() >= 2,
        0 <= file_index <= 7,
        1 <= rank <= 8,
    ensures
        ({
            let (col, row) = spec_square_cell(file_index, rank, white_pov);
            let px = spec_cell_point_x(frame, col);
            let py = spec_cell_point_y(frame, row);
            &&& spec_col_of_x(px, frame) == col + 1
            &&& spec_row_of_y(py, frame) == row + 1
            &&& (if white_pov {
                (spec_row_of_y(py, frame) - 1) * 8 + (spec_col_of_x(px, frame) - 1)
            } else {
                (8 - spec_row_of_y(py, frame)) * 8 + (8 - spec_col_of_x(px, frame))
            }) == (8 - rank) * 8 + file_index
        }),
{
    let cs = frame.spec_cell_size();
    let (col, row) = spec_square_cell(file_index, rank, white_pov);
    let px = spec_cell_point_x(frame, col);
    let py = spec_cell_point_y(frame, row);
    let h = cs / 2;
    assert(1 <= h < cs);
    assert(px - frame.origin_x + cs - 1 == (col + 1) * cs + (h - 1)) by {
        vstd::arithmetic::mul::lemma_mul_is_distributive_add_other_way(cs, col, 1);
        vstd::arithmetic::mul::lemma_mul_is_commutative(cs, col);
    }
    lemma_fundamental_div_mod_converse(px - frame.origin_x + cs - 1, cs, col + 1, h - 1);
    assert(py - frame.origin_y + cs - 1 == (row + 1) * cs + (h - 1)) by {
        vstd::arithmetic::mul::lemma_mul_is_distributive_add_other_way(cs, row, 1);
        vstd::arithmetic::mul::lemma_mul_is_commutative(cs, row);
    }
    lemma_fundamental_div_mod_converse(py - frame.origin_y + cs - 1, cs, row + 1, h - 1);
}

/// The two points of view never send one square to the same point: the
/// mirrored column and row are always different cells, and with them the
/// pixel coordinates.
pub proof fn lemma_pov_points_differ(frame: BoardFrame, file_index: int, rank: int)
    requires
        frame.spec_cell_size() >= 1,
        0 <= file_index <= 7,
        1 <= rank <= 8,
    ensures
        spec_cell_point_x(frame, spec_square_cell(file_index, rank, true).0) != spec_cell_point_x(
            frame,
            spec_square_cell(file_index, rank, false).0,
        ),
        spec_cell_point_y(frame, spec_square_cell(file_index, rank, true).1) != spec_cell_point_y(
            frame,
            spec_square_cell(file_index, rank, false).1,
        ),
{
    let cs = frame.spec_cell_size();
    let cw = spec_square_cell(file_index, rank, true);
    let cb = spec_square_cell(file_index, rank, false);
    assert(cw.0 != cb.0);
    assert(cw.1 != cb.1);
    assert(cs * cw.0 != cs * cb.0) by {
        vstd::arithmetic::mul::lemma_mul_strict_inequality(
            if cw.0 < cb.0 { cw.0 } else { cb.0 },
            if cw.0 < cb.0 { cb.0 } else { cw.0 },
            cs,
        );
        vstd::arithmetic::mul::lemma_mul_is_commutative(cs, cw.0);
        vstd::arithmetic::mul::lemma_mul_is_commutative(cs, cb.0);
    }
    assert(cs * cw.1 != cs * cb.1) by {
        vstd::arithmetic::mul::lemma_mul_strict_inequality(
            if cw.1 < cb.1 { cw.1 } else { cb.1 },
            if cw.1 < cb.1 { cb.1 } else { cw.1 },
            cs,
        );
        vstd::arithmetic::mul::lemma_mul_is_commutative(cs, cw.1);
        vstd::arithmetic::mul::lemma_mul_is_commutative(cs, cb.1);
    }
}

} // verus!
