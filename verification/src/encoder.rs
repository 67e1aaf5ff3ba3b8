use vstd::prelude::*;
use vstd::arithmetic::div_mod::{lemma_div_is_ordered, lemma_div_by_self};
use crate::detect::ChessDetection;
use crate::error::ChustError;
use crate::types::{BoardFrame, Detection, BOARD_CLASS_ID};

verus! {

/// A piece that has won its grid cell so far: what it is and how sure the
/// detector was, so a later, stronger detection can displace it.
#[derive(Clone, Copy, PartialEq, Eq, Structural, Debug)]
pub struct Placed {
    pub class_id: u32,
    pub confidence: u32,
}

/// Ceiling division for a positive divisor.
pub open spec fn ceil_div(a: int, b: int) -> int {
    (a + b - 1) / b
}

/// The x of a detection's center: its corner pushed in by half a cell.
pub open spec fn spec_center_x(d: Detection, cs: int) -> int {
    d.bbox.x + cs / 2
}

/// The y of a detection's center.
pub open spec fn spec_center_y(d: Detection, cs: int) -> int {
    d.bbox.y + cs / 2
}

/// The 1-indexed column a center x falls in, counted from the frame's left
/// edge in cells.
pub open spec fn spec_col_of_x(cx: int, frame: BoardFrame) -> int {
    ceil_div(cx - frame.origin_x, frame.spec_cell_size())
}

/// The 1-indexed row a center y falls in.
pub open spec fn spec_row_of_y(cy: int, frame: BoardFrame) -> int {
    ceil_div(cy - frame.origin_y, frame.spec_cell_size())
}

pub open spec fn spec_col(d: Detection, frame: BoardFrame) -> int {
    spec_col_of_x(spec_center_x(d, frame.spec_cell_size()), frame)
}

pub open spec fn spec_row(d: Detection, frame: BoardFrame) -> int {
    spec_row_of_y(spec_center_y(d, frame.spec_cell_size()), frame)
}

/// Whether a detection lands on the board at all: a piece class, confident
/// enough, and its center inside the eight-by-eight grid of a frame whose
/// cells have any size to them.
pub open spec fn spec_qualifies(d: Detection, frame: BoardFrame, thr: int) -> bool {
    &&& frame.spec_cell_size() >= 1
    &&& d.confidence >= thr
    &&& d.is_piece()
    &&& 1 <= spec_col(d, frame) <= 8
    &&& 1 <= spec_row(d, frame) <= 8
}

/// Row-major index of the cell a qualifying detection occupies, after
/// point-of-view correction: seen from black, the board is rotated a half
/// turn.
pub open spec fn spec_grid_index(d: Detection, frame: BoardFrame, white_pov: bool) -> int {
    let col = spec_col(d, frame);
    let row = spec_row(d, frame);
    if white_pov {
        (row - 1) * 8 + (col - 1)
    } else {
        (8 - row) * 8 + (8 - col)
    }
}

/// All 64 cells empty.
pub open spec fn empty_grid() -> Seq<Option<Placed>> {
    Seq::new(64, |i: int| None)
}

/// One detection folded into the grid. A cell already held by a strictly
/// more confident detection keeps its piece, so among detections aimed at
/// one cell the earliest of the highest confidence wins — the result does
/// not depend on how ties were ordered upstream, only on the input order of
/// exact ties.
pub open spec fn place_one(
    g: Seq<Option<Placed>>,
    d: Detection,
    frame: BoardFrame,
    thr: int,
    white_pov: bool,
) -> Seq<Option<Placed>> {
    if spec_qualifies(d, frame, thr) {
        let idx = spec_grid_index(d, frame, white_pov);
        let p = Placed { class_id: d.class_id, confidence: d.confidence };
        match g[idx] {
            Some(q) => if d.confidence > q.confidence {
                g.update(idx, Some(p))
            } else {
                g
            },
            None => g.update(idx, Some(p)),
        }
    } else {
        g
    }
}

/// The grid after folding every detection in, in order.
pub open spec fn spec_place(
    dets: Seq<Detection>,
    frame: BoardFrame,
    thr: int,
    white_pov: bool,
) -> Seq<Option<Placed>>
    decreases dets.len(),
{
    if dets.len() == 0 {
        empty_grid()
    } else {
        place_one(spec_place(dets.drop_last(), frame, thr, white_pov), dets.last(), frame, thr, white_pov)
    }
}

/// A well-formed grid: 64 cells, every occupied one holding a piece class.
pub open spec fn grid_wf(g: Seq<Option<Placed>>) -> bool {
    &&& g.len() == 64
    &&& forall|i: int|
        0 <= i < 64 ==> match #[trigger] g[i] {
            Some(p) => p.class_id < BOARD_CLASS_ID,
            None => true,
        }
}

pub proof fn lemma_place_wf(dets: Seq<Detection>, frame: BoardFrame, thr: int, white_pov: bool)
    ensures
        grid_wf(spec_place(dets, frame, thr, white_pov)),
    decreases dets.len(),
{
    if dets.len() == 0 {
    } else {
        lemma_place_wf(dets.drop_last(), frame, thr, white_pov);
        let g = spec_place(dets.drop_last(), frame, thr, white_pov);
        let d = dets.last();
        if spec_qualifies(d, frame, thr) {
            let idx = spec_grid_index(d, frame, white_pov);
            assert(0 <= idx < 64);
        }
    }
}

proof fn lemma_ceil_div_nonpos(a: int, b: int)
    requires
        b >= 1,
        a <= 0,
    ensures
        ceil_div(a, b) <= 0,
{
    lemma_div_is_ordered(a + b - 1, b - 1, b);
    assert((b - 1) / b == 0) by {
        vstd::arithmetic::div_mod::lemma_basic_div(b - 1, b);
    }
}

proof fn lemma_ceil_div_pos(a: int, b: int)
    requires
        b >= 1,
        a >= 1,
    ensures
        ceil_div(a, b) >= 1,
{
    lemma_div_is_ordered(b, a + b - 1, b);
    lemma_div_by_self(b);
}

/// One detection folded into the executable grid, mirroring [`place_one`].
fn place_det(
    grid: &mut Vec<Option<Placed>>,
    d: &Detection,
    frame: &BoardFrame,
    thr: u32,
    white_pov: bool,
)
    requires
        old(grid)@.len() == 64,
    ensures
        final(grid)@ == place_one(old(grid)@, *d, *frame, thr as int, white_pov),
{
    let cs = frame.cell_size();
    if cs == 0 || d.confidence < thr || d.class_id >= BOARD_CLASS_ID {
        return ;
    }
    let half: u64 = (cs / 2) as u64;
    let cx: u64 = d.bbox.x as u64 + half;
    let cy: u64 = d.bbox.y as u64 + half;
    let ox: u64 = frame.origin_x as u64;
    let oy: u64 = frame.origin_y as u64;
    if cx <= ox || cy <= oy {
        proof {
            if cx <= ox {
                lemma_ceil_div_nonpos(
                    spec_center_x(*d, cs as int) - frame.origin_x,
                    cs as int,
                );
            } else {
                lemma_ceil_div_nonpos(
                    spec_center_y(*d, cs as int) - frame.origin_y,
                    cs as int,
                );
            }
        }
        return ;
    }
    let col: u64 = (cx - ox + (cs as u64) - 1) / (cs as u64);
    let row: u64 = (cy - oy + (cs as u64) - 1) / (cs as u64);
    proof {
        lemma_ceil_div_pos(spec_center_x(*d, cs as int) - frame.origin_x, cs as int);
        lemma_ceil_div_pos(spec_center_y(*d, cs as int) - frame.origin_y, cs as int);
        assert(col == spec_col(*d, *frame));
        assert(row == spec_row(*d, *frame));
    }
    if col > 8 || row > 8 {
        return ;
    }
    let idx: usize = if white_pov {
        ((row as usize - 1) * 8) + (col as usize - 1)
    } else {
        ((8 - row as usize) * 8) + (8 - col as usize)
    };
    assert(idx == spec_grid_index(*d, *frame, white_pov));
    let p = Placed { class_id: d.class_id, confidence: d.confidence };
    let replace = match grid[idx] {
        Some(q) => d.confidence > q.confidence,
        None => true,
    };
    if replace {
        grid.set(idx, Some(p));
    }
}

impl ChessDetection {
    /// The detections at or above the confidence threshold placed on the
    /// frame's grid, most confident detection winning each cell, seen from
    /// the configured side.
    pub fn place_detections(
        &self,
        dets: &Vec<Detection>,
        frame: &BoardFrame,
        white_pov: bool,
    ) -> (grid: Vec<Option<Placed>>)
        ensures
            grid@ == spec_place(dets@, *frame, self.confidence_threshold as int, white_pov),
    {
        let mut grid: Vec<Option<Placed>> = Vec::new();
        let mut k: usize = 0;
        while k < 64
            invariant
                k <= 64,
                grid@ == empty_grid().subrange(0, k as int),
            decreases 64 - k,
        {
            grid.push(None);
            k = k + 1;
        }
        proof {
            assert(empty_grid().subrange(0, 64) == empty_grid());
        }
        let mut i: usize = 0;
        while i < dets.len()
            invariant
                i <= dets.len(),
                grid@.len() == 64,
                grid@ == spec_place(
                    dets@.subrange(0, i as int),
                    *frame,
                    self.confidence_threshold as int,
                    white_pov,
                ),
            decreases dets.len() - i,
        {
            proof {
                assert(dets@.subrange(0, i + 1 as int).drop_last() == dets@.subrange(0, i as int));
                assert(dets@.subrange(0, i + 1 as int).last() == dets@[i as int]);
            }
            let d = dets[i];
            place_det(&mut grid, &d, frame, self.confidence_threshold, white_pov);
            i = i + 1;
        }
        proof {
            assert(dets@.subrange(0, dets@.len() as int) == dets@);
        }
        grid
    }
}

/// Point-of-view correction is a half-turn of the board: whatever the
/// detections, the grid seen from black holds in cell `i` exactly what the
/// grid seen from white holds in cell `63 - i` — the mirrored placements
/// never disagree about a piece or a tie-break.
pub proof fn lemma_pov_mirror(dets: Seq<Detection>, frame: BoardFrame, thr: int)
    ensures
        forall|i: int|
            0 <= i < 64 ==> spec_place(dets, frame, thr, false)[i] == spec_place(
                dets,
                frame,
                thr,
                true,
            )[63 - i],
    decreases dets.len(),
{
    if dets.len() == 0 {
    } else {
        lemma_pov_mirror(dets.drop_last(), frame, thr);
        lemma_place_wf(dets.drop_last(), frame, thr, true);
        lemma_place_wf(dets.drop_last(), frame, thr, false);
        let gw = spec_place(dets.drop_last(), frame, thr, true);
        let gb = spec_place(dets.drop_last(), frame, thr, false);
        let d = dets.last();
        if spec_qualifies(d, frame, thr) {
            let iw = spec_grid_index(d, frame, true);
            let ib = spec_grid_index(d, frame, false);
            assert(ib == 63 - iw);
            assert(gb[ib] == gw[iw]);
            assert forall|i: int| 0 <= i < 64 implies place_one(gb, d, frame, thr, false)[i]
                == place_one(gw, d, frame, thr, true)[63 - i] by {
                if i != ib {
                    assert(gb[i] == gw[63 - i]);
                }
            }
        }
    }
}

/// The letter written for each piece class: the first six are black pawn,
/// rook, knight, bishop, queen, king, the next six the same in white.
pub open spec fn spec_piece_char(class_id: int) -> char {
    if class_id == 0 {
        'p'
    } else if class_id == 1 {
        'r'
    } else if class_id == 2 {
        'n'
    } else if class_id == 3 {
        'b'
    } else if class_id == 4 {
        'q'
    } else if class_id == 5 {
        'k'
    } else if class_id == 6 {
        'P'
    } else if class_id == 7 {
        'R'
    } else if class_id == 8 {
        'N'
    } else if class_id == 9 {
        'B'
    } else if class_id == 10 {
        'Q'
    } else {
        'K'
    }
}

/// The digit written for a run of `n` empty cells, `1 <= n <= 8`.
pub open spec fn spec_digit_char(n: int) -> char {
    if n == 1 {
        '1'
    } else if n == 2 {
        '2'
    } else if n == 3 {
        '3'
    } else if n == 4 {
        '4'
    } else if n == 5 {
        '5'
    } else if n == 6 {
        '6'
    } else if n == 7 {
        '7'
    } else {
        '8'
    }
}

/// One rank of the grid.
pub open spec fn spec_rank_row(g: Seq<Option<Placed>>, r: int) -> Seq<Option<Placed>> {
    g.subrange(8 * r, 8 * r + 8)
}

/// Run-length serialization of what is left of a rank, with `pending` empty
/// cells already counted but not yet written: empties extend the run, a
/// piece flushes the run as a digit and writes its letter, and the rank's
/// end flushes whatever run remains.
pub open spec fn spec_rank_chars(row: Seq<Option<Placed>>, pending: int) -> Seq<char>
    decreases row.len(),
{
    if row.len() == 0 {
        if pending > 0 {
            seq![spec_digit_char(pending)]
        } else {
            Seq::empty()
        }
    } else {
        match row[0] {
            None => spec_rank_chars(row.skip(1), pending + 1),
            Some(p) => (if pending > 0 {
                seq![spec_digit_char(pending)]
            } else {
                Seq::empty()
            }) + seq![spec_piece_char(p.class_id as int)] + spec_rank_chars(row.skip(1), 0),
        }
    }
}

/// The first `upto` ranks serialized top-first and joined with `/`.
pub open spec fn spec_board_chars(g: Seq<Option<Placed>>, upto: int) -> Seq<char>
    decreases upto,
{
    if upto <= 0 {
        Seq::empty()
    } else {
        spec_board_chars(g, upto - 1) + (if upto - 1 > 0 {
            seq!['/']
        } else {
            Seq::<char>::empty()
        }) + spec_rank_chars(spec_rank_row(g, upto - 1), 0)
    }
}

/// The whole board string: eight ranks, top row first.
pub open spec fn spec_fen(g: Seq<Option<Placed>>) -> Seq<char> {
    spec_board_chars(g, 8)
}

/// What a serialized character claims of the rank it describes: a digit
/// covers that many empty squares, any other character one occupied square.
pub open spec fn char_weight(c: char) -> int {
    if c == '1' {
        1
    } else if c == '2' {
        2
    } else if c == '3' {
        3
    } else if c == '4' {
        4
    } else if c == '5' {
        5
    } else if c == '6' {
        6
    } else if c == '7' {
        7
    } else if c == '8' {
        8
    } else {
        1
    }
}

/// The number of squares a serialized rank string accounts for.
pub open spec fn spec_weight(s: Seq<char>) -> int
    decreases s.len(),
{
    if s.len() == 0 {
        0
    } else {
        char_weight(s[0]) + spec_weight(s.skip(1))
    }
}

proof fn lemma_piece_char_weight(cid: int)
    ensures
        char_weight(spec_piece_char(cid)) == 1,
{
    assert(char_weight('p') == 1);
    assert(char_weight('r') == 1);
    assert(char_weight('n') == 1);
    assert(char_weight('b') == 1);
    assert(char_weight('q') == 1);
    assert(char_weight('k') == 1);
    assert(char_weight('P') == 1);
    assert(char_weight('R') == 1);
    assert(char_weight('N') == 1);
    assert(char_weight('B') == 1);
    assert(char_weight('Q') == 1);
    assert(char_weight('K') == 1);
}

proof fn lemma_weight_concat(a: Seq<char>, b: Seq<char>)
    ensures
        spec_weight(a + b) == spec_weight(a) + spec_weight(b),
    decreases a.len(),
{
    if a.len() == 0 {
        assert(a + b =~= b);
    } else {
        assert((a + b).skip(1) =~= a.skip(1) + b);
        lemma_weight_concat(a.skip(1), b);
    }
}

/// The run-length serialization never loses or invents a square: the
/// digits and letters of a serialized rank always account for the rank's
/// cells plus the pending run — so a full rank always serializes to
/// exactly eight squares' worth of characters.
pub proof fn lemma_rank_weight(row: Seq<Option<Placed>>, pending: int)
    requires
        0 <= pending,
        pending + row.len() <= 8,
    ensures
        spec_weight(spec_rank_chars(row, pending)) == row.len() + pending,
    decreases row.len(),
{
    if row.len() == 0 {
        if pending > 0 {
            let s = seq![spec_digit_char(pending)];
            assert(s.skip(1) =~= Seq::<char>::empty());
            assert(spec_weight(s) == char_weight(s[0]) + spec_weight(s.skip(1)));
        }
    } else {
        match row[0] {
            None => {
                lemma_rank_weight(row.skip(1), pending + 1);
            },
            Some(p) => {
                lemma_rank_weight(row.skip(1), 0);
                let digits = if pending > 0 {
                    seq![spec_digit_char(pending)]
                } else {
                    Seq::<char>::empty()
                };
                let piece = seq![spec_piece_char(p.class_id as int)];
                if pending > 0 {
                    assert(digits.skip(1) =~= Seq::<char>::empty());
                    assert(spec_weight(digits) == char_weight(digits[0]) + spec_weight(
                        digits.skip(1),
                    ));
                }
                assert(piece.skip(1) =~= Seq::<char>::empty());
                lemma_piece_char_weight(p.class_id as int);
                assert(spec_weight(piece) == char_weight(piece[0]) + spec_weight(piece.skip(1)));
                lemma_weight_concat(digits, piece);
                lemma_weight_concat(digits + piece, spec_rank_chars(row.skip(1), 0));
                assert(digits + piece + spec_rank_chars(row.skip(1), 0) =~= (digits + piece)
                    + spec_rank_chars(row.skip(1), 0));
            },
        }
    }
}

/// Each of a position's eight ranks accounts for exactly eight squares.
pub proof fn lemma_position_rank_invariant(g: Seq<Option<Placed>>, r: int)
    requires
        g.len() == 64,
        0 <= r < 8,
    ensures
        spec_weight(spec_rank_chars(spec_rank_row(g, r), 0)) == 8,
{
    lemma_rank_weight(spec_rank_row(g, r), 0);
}

/// The one-character string for a piece class.
fn piece_str(class_id: u32) -> (s: &'static str)
    requires
        class_id < 12,
    ensures
        s@ == seq![spec_piece_char(class_id as int)],
{
    proof {
        reveal_strlit("p");
        reveal_strlit("r");
        reveal_strlit("n");
        reveal_strlit("b");
        reveal_strlit("q");
        reveal_strlit("k");
        reveal_strlit("P");
        reveal_strlit("R");
        reveal_strlit("N");
        reveal_strlit("B");
        reveal_strlit("Q");
        reveal_strlit("K");
    }
    let s = match class_id {
        0 => "p",
        1 => "r",
        2 => "n",
        3 => "b",
        4 => "q",
        5 => "k",
        6 => "P",
        7 => "R",
        8 => "N",
        9 => "B",
        10 => "Q",
        _ => "K",
    };
    proof {
        assert(s@ =~= seq![spec_piece_char(class_id as int)]);
    }
    s
}

/// The one-character string for a run of `n` empties.
fn digit_str(n: u32) -> (s: &'static str)
    requires
        1 <= n <= 8,
    ensures
        s@ == seq![spec_digit_char(n as int)],
{
    proof {
        reveal_strlit("1");
        reveal_strlit("2");
        reveal_strlit("3");
        reveal_strlit("4");
        reveal_strlit("5");
        reveal_strlit("6");
        reveal_strlit("7");
        reveal_strlit("8");
    }
    let s = match n {
        1 => "1",
        2 => "2",
        3 => "3",
        4 => "4",
        5 => "5",
        6 => "6",
        7 => "7",
        _ => "8",
    };
    proof {
        assert(s@ =~= seq![spec_digit_char(n as int)]);
    }
    s
}

/// Serialize one rank onto the end of the board string.
fn append_rank(fen: &mut String, grid: &Vec<Option<Placed>>, r: usize)
    requires
        grid_wf(grid@),
        r < 8,
    ensures
        final(fen)@ == old(fen)@ + spec_rank_chars(spec_rank_row(grid@, r as int), 0),
{
    let ghost rank = spec_rank_row(grid@, r as int);
    proof {
        assert(rank.skip(0) =~= rank);
    }
    let mut count: u32 = 0;
    let mut c: usize = 0;
    while c < 8
        invariant
            c <= 8,
            count <= c,
            grid_wf(grid@),
            r < 8,
            rank == spec_rank_row(grid@, r as int),
            old(fen)@ + spec_rank_chars(rank, 0) == fen@ + spec_rank_chars(
                rank.skip(c as int),
                count as int,
            ),
        decreases 8 - c,
    {
        proof {
            assert(rank.skip(c as int)[0] == grid@[8 * (r as int) + c as int]);
            assert(rank.skip(c as int).skip(1) =~= rank.skip(c as int + 1));
        }
        match grid[8 * r + c] {
            None => {
                count = count + 1;
            },
            Some(p) => {
                if count > 0 {
                    fen.append(digit_str(count));
                }
                fen.append(piece_str(p.class_id));
                count = 0;
            },
        }
        c = c + 1;
    }
    proof {
        assert(rank.skip(8) =~= Seq::<Option<Placed>>::empty());
    }
    if count > 0 {
        fen.append(digit_str(count));
    }
}

impl ChessDetection {
    /// The board string of a detection set on a frame: detections above the
    /// threshold are placed on the grid — the most confident winning each
    /// cell — mirrored for the point of view, and the grid is run-length
    /// serialized rank by rank, top row first, ranks joined with `/`.
    pub fn output_to_fen(
        &self,
        dets: &Vec<Detection>,
        frame: &BoardFrame,
        white_pov: bool,
    ) -> (fen: String)
        ensures
            fen@ == spec_fen(
                spec_place(dets@, *frame, self.confidence_threshold as int, white_pov),
            ),
    {
        let grid = self.place_detections(dets, frame, white_pov);
        proof {
            lemma_place_wf(dets@, *frame, self.confidence_threshold as int, white_pov);
        }
        let mut fen = String::new();
        let mut r: usize = 0;
        while r < 8
            invariant
                r <= 8,
                grid_wf(grid@),
                fen@ == spec_board_chars(grid@, r as int),
            decreases 8 - r,
        {
            if r > 0 {
                proof {
                    reveal_strlit("/");
                    assert("/"@ =~= seq!['/']);
                }
                fen.append("/");
            }
            append_rank(&mut fen, &grid, r);
            r = r + 1;
        }
        fen
    }

    /// The full read of one detection set: locate the board (the best
    /// marker detection), then encode the position on that frame. Fails
    /// with [`ChustError::NoBoardFound`] exactly when the set holds no
    /// marker detection.
    pub fn encode_position(&self, dets: &Vec<Detection>, white_pov: bool) -> (r: Result<
        (String, BoardFrame),
        ChustError,
    >)
        ensures
            match r {
                Ok(p) => exists|i: int|
                    {
                        &&& 0 <= i < dets@.len()
                        &&& #[trigger] dets@[i].class_id == BOARD_CLASS_ID
                        &&& forall|j: int|
                            0 <= j < dets@.len() && dets@[j].class_id == BOARD_CLASS_ID
                                ==> dets@[j].confidence <= dets@[i].confidence
                        &&& p.1 == (BoardFrame {
                            origin_x: dets@[i].bbox.x,
                            origin_y: dets@[i].bbox.y,
                            width: dets@[i].bbox.width,
                            height: dets@[i].bbox.height,
                        })
                        &&& p.0@ == spec_fen(
                            spec_place(dets@, p.1, self.confidence_threshold as int, white_pov),
                        )
                    },
                Err(e) => {
                    &&& e == ChustError::NoBoardFound
                    &&& forall|j: int|
                        0 <= j < dets@.len() ==> dets@[j].class_id != BOARD_CLASS_ID
                },
            },
    {
        match crate::detect::get_best_chessboard_match(dets) {
            None => Err(ChustError::NoBoardFound),
            Some(i) => {
                let b = dets[i];
                let frame = BoardFrame {
                    origin_x: b.bbox.x,
                    origin_y: b.bbox.y,
                    width: b.bbox.width,
                    height: b.bbox.height,
                };
                let fen = self.output_to_fen(dets, &frame, white_pov);
                Ok((fen, frame))
            },
        }
    }
}

} // verus!
