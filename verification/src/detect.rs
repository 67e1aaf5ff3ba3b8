use vstd::prelude::*;
use crate::geometry::{
    crop_with_padding, scale_bbox, spec_crop_rect, spec_span_to_original, spec_to_original,
    Letterbox,
};
use crate::types::{BoardFrame, Detection, PixelBox, RawBox, BOARD_CLASS_ID};

verus! {

/// Detection configuration: the confidence floor for keeping a box and the
/// padding fraction (in thousandths) around the refinement crop. The
/// inference oracle itself lives outside the library; these values steer
/// everything the library does with the oracle's rows.
pub struct ChessDetection {
    pub confidence_threshold: u32,
    pub refined_padding: u32,
}

/// One raw row carried into original-image space, confidence and class
/// unchanged.
pub open spec fn spec_scaled_box(raw: RawBox, lb: Letterbox) -> Detection {
    Detection {
        bbox: PixelBox {
            x: spec_to_original(
                raw.left as int,
                lb.pad_x as int,
                lb.target as int,
                lb.max_side as int,
            ) as u32,
            y: spec_to_original(
                raw.top as int,
                lb.pad_y as int,
                lb.target as int,
                lb.max_side as int,
            ) as u32,
            width: spec_span_to_original(
                raw.left as int,
                raw.right as int,
                lb.target as int,
                lb.max_side as int,
            ) as u32,
            height: spec_span_to_original(
                raw.top as int,
                raw.bottom as int,
                lb.target as int,
                lb.max_side as int,
            ) as u32,
        },
        confidence: raw.confidence,
        class_id: raw.class_id,
    }
}

/// The rows that survive the basic pass: every row at or above the
/// threshold, inverse-transformed, in input order.
pub open spec fn spec_filtered(rows: Seq<RawBox>, lb: Letterbox, thr: int) -> Seq<Detection>
    decreases rows.len(),
{
    if rows.len() == 0 {
        Seq::empty()
    } else {
        let head = spec_filtered(rows.drop_last(), lb, thr);
        if rows.last().confidence >= thr {
            head.push(spec_scaled_box(rows.last(), lb))
        } else {
            head
        }
    }
}

impl ChessDetection {
    pub fn new(confidence_threshold: u32, refined_padding: u32) -> (r: ChessDetection)
        ensures
            r.confidence_threshold == confidence_threshold,
            r.refined_padding == refined_padding,
    {
        ChessDetection { confidence_threshold, refined_padding }
    }

    /// The basic pass after the oracle: drop rows below the confidence
    /// threshold and carry the rest back into original-image pixels.
    pub fn filter_and_process_detections(&self, rows: &Vec<RawBox>, lb: &Letterbox) -> (out: Vec<
        Detection,
    >)
        requires
            lb.wf(),
        ensures
            out@ == spec_filtered(rows@, *lb, self.confidence_threshold as int),
    {
        let mut out: Vec<Detection> = Vec::new();
        let mut i: usize = 0;
        while i < rows.len()
            invariant
                i <= rows.len(),
                lb.wf(),
                out@ == spec_filtered(
                    rows@.subrange(0, i as int),
                    *lb,
                    self.confidence_threshold as int,
                ),
            decreases rows.len() - i,
        {
            proof {
                assert(rows@.subrange(0, i + 1 as int).drop_last() == rows@.subrange(0, i as int));
                assert(rows@.subrange(0, i + 1 as int).last() == rows@[i as int]);
            }
            let row = rows[i];
            if row.confidence >= self.confidence_threshold {
                let bbox = scale_bbox(&row, lb);
                let det = Detection { bbox, confidence: row.confidence, class_id: row.class_id };
                out.push(det);
            }
            i = i + 1;
        }
        proof {
            assert(rows@.subrange(0, rows@.len() as int) == rows@);
        }
        out
    }
}

/// The single best board-marker detection: the first of the highest
/// confidence among boxes of the marker class, or `None` when the set holds
/// no marker at all. No confidence floor applies here — a weak candidate is
/// still the anchor the refinement crop needs.
pub fn get_best_chessboard_match(dets: &Vec<Detection>) -> (r: Option<usize>)
    ensures
        match r {
            Some(i) => {
                &&& i < dets@.len()
                &&& dets@[i as int].class_id == BOARD_CLASS_ID
                &&& forall|j: int|
                    0 <= j < dets@.len() && dets@[j].class_id == BOARD_CLASS_ID
                        ==> dets@[j].confidence <= dets@[i as int].confidence
                &&& forall|j: int|
                    0 <= j < i as int && dets@[j].class_id == BOARD_CLASS_ID
                        ==> dets@[j].confidence < dets@[i as int].confidence
            },
            None => forall|j: int| 0 <= j < dets@.len() ==> dets@[j].class_id != BOARD_CLASS_ID,
        },
{
    let mut best: Option<usize> = None;
    let mut i: usize = 0;
    while i < dets.len()
        invariant
            i <= dets.len(),
            match best {
                Some(b) => {
                    &&& b < i
                    &&& dets@[b as int].class_id == BOARD_CLASS_ID
                    &&& forall|j: int|
                        0 <= j < i as int && dets@[j].class_id == BOARD_CLASS_ID
                            ==> dets@[j].confidence <= dets@[b as int].confidence
                    &&& forall|j: int|
                        0 <= j < b as int && dets@[j].class_id == BOARD_CLASS_ID
                            ==> dets@[j].confidence < dets@[b as int].confidence
                },
                None => forall|j: int| 0 <= j < i as int ==> dets@[j].class_id != BOARD_CLASS_ID,
            },
        decreases dets.len() - i,
    {
        let d = dets[i];
        if d.class_id == BOARD_CLASS_ID {
            let replace = match best {
                Some(b) => dets[b].confidence < d.confidence,
                None => true,
            };
            if replace {
                best = Some(i);
            }
        }
        i = i + 1;
    }
    best
}

/// The unique index the refinement pass anchors on: the earliest
/// board-marker row of maximal confidence.
pub open spec fn is_best_board_row(rows: Seq<RawBox>, i: int) -> bool {
    &&& 0 <= i < rows.len()
    &&& rows[i].class_id == BOARD_CLASS_ID
    &&& forall|j: int|
        0 <= j < rows.len() && rows[j].class_id == BOARD_CLASS_ID ==> rows[j].confidence
            <= rows[i].confidence
    &&& forall|j: int|
        0 <= j < i && rows[j].class_id == BOARD_CLASS_ID ==> rows[j].confidence
            < rows[i].confidence
}

/// Whether any raw row carries the board-marker class.
pub open spec fn spec_has_board_row(rows: Seq<RawBox>) -> bool {
    exists|j: int| 0 <= j < rows.len() && rows[j].class_id == BOARD_CLASS_ID
}

impl ChessDetection {
    /// Where the refinement pass should crop: the best board-marker row of
    /// the unfiltered basic output, carried into original-image pixels and
    /// padded. `None` when no marker row exists at all, or when the marker's
    /// origin falls outside the image and no crop can anchor there.
    pub fn plan_refine_crop(
        &self,
        rows: &Vec<RawBox>,
        lb: &Letterbox,
        img_w: u32,
        img_h: u32,
    ) -> (r: Option<PixelBox>)
        requires
            lb.wf(),
        ensures
            match r {
                Some(crop) => exists|i: int|
                    {
                        &&& #[trigger] is_best_board_row(rows@, i)
                        &&& spec_scaled_box(rows@[i], *lb).bbox.x < img_w
                        &&& spec_scaled_box(rows@[i], *lb).bbox.y < img_h
                        &&& crop == spec_crop_rect(
                            spec_scaled_box(rows@[i], *lb).bbox,
                            img_w as int,
                            img_h as int,
                            self.refined_padding as int,
                        )
                        &&& crop.x + crop.width <= img_w
                        &&& crop.y + crop.height <= img_h
                    },
                None => !spec_has_board_row(rows@) || exists|i: int|
                    {
                        &&& #[trigger] is_best_board_row(rows@, i)
                        &&& (spec_scaled_box(rows@[i], *lb).bbox.x >= img_w || spec_scaled_box(
                            rows@[i],
                            *lb,
                        ).bbox.y >= img_h)
                    },
            },
    {
        match best_raw_board_match(rows) {
            None => None,
            Some(i) => {
                let row = rows[i];
                let bbox = scale_bbox(&row, lb);
                proof {
                    assert(is_best_board_row(rows@, i as int));
                    assert(bbox == spec_scaled_box(rows@[i as int], *lb).bbox);
                }
                if bbox.x < img_w && bbox.y < img_h {
                    Some(crop_with_padding(img_w, img_h, &bbox, self.refined_padding))
                } else {
                    None
                }
            },
        }
    }
}

/// Refined detections found inside the crop, re-anchored in the full image
/// by the crop's offset; coordinates clamp at `u32::MAX` as everywhere else.
pub fn apply_crop_offset(dets: &mut Vec<Detection>, dx: u32, dy: u32)
    ensures
        final(dets)@.len() == old(dets)@.len(),
        forall|i: int|
            0 <= i < old(dets)@.len() ==> final(dets)@[i] == (Detection {
                bbox: PixelBox {
                    x: crate::geometry::cap_u32(old(dets)@[i].bbox.x + dx) as u32,
                    y: crate::geometry::cap_u32(old(dets)@[i].bbox.y + dy) as u32,
                    width: old(dets)@[i].bbox.width,
                    height: old(dets)@[i].bbox.height,
                },
                confidence: old(dets)@[i].confidence,
                class_id: old(dets)@[i].class_id,
            }),
{
    let mut i: usize = 0;
    while i < dets.len()
        invariant
            i <= dets.len(),
            dets@.len() == old(dets)@.len(),
            forall|j: int|
                i as int <= j < old(dets)@.len() ==> dets@[j] == old(dets)@[j],
            forall|j: int|
                0 <= j < i as int ==> dets@[j] == (Detection {
                    bbox: PixelBox {
                        x: crate::geometry::cap_u32(old(dets)@[j].bbox.x + dx) as u32,
                        y: crate::geometry::cap_u32(old(dets)@[j].bbox.y + dy) as u32,
                        width: old(dets)@[j].bbox.width,
                        height: old(dets)@[j].bbox.height,
                    },
                    confidence: old(dets)@[j].confidence,
                    class_id: old(dets)@[j].class_id,
                }),
        decreases dets.len() - i,
    {
        let d = dets[i];
        let sx: u64 = d.bbox.x as u64 + dx as u64;
        let sy: u64 = d.bbox.y as u64 + dy as u64;
        let nx: u32 = if sx > u32::MAX as u64 {
            u32::MAX
        } else {
            sx as u32
        };
        let ny: u32 = if sy > u32::MAX as u64 {
            u32::MAX
        } else {
            sy as u32
        };
        let moved = Detection {
            bbox: PixelBox { x: nx, y: ny, width: d.bbox.width, height: d.bbox.height },
            confidence: d.confidence,
            class_id: d.class_id,
        };
        dets.set(i, moved);
        i = i + 1;
    }
}

/// Which detections a caller wants to see: a confidence floor, and
/// optionally only those whose center falls on a given board frame. An
/// explicit value rather than a composed predicate, so two filters can be
/// compared and tested.
pub struct FilterSpec {
    pub threshold: u32,
    pub region: Option<BoardFrame>,
}

/// What [`passes_filter`] decides: confidence at or above the threshold,
/// and, when a region is set, the detection's center (its corner pushed in
/// by half a cell) inside the frame's box, borders included.
pub open spec fn spec_passes_filter(d: Detection, f: FilterSpec) -> bool {
    &&& d.confidence >= f.threshold
    &&& match f.region {
        Some(frame) => {
            let half = frame.spec_cell_size() / 2;
            let cx = d.bbox.x + half;
            let cy = d.bbox.y + half;
            &&& frame.origin_x <= cx <= frame.origin_x + frame.width
            &&& frame.origin_y <= cy <= frame.origin_y + frame.height
        },
        None => true,
    }
}

pub fn passes_filter(d: &Detection, f: &FilterSpec) -> (r: bool)
    ensures
        r == spec_passes_filter(*d, *f),
{
    if d.confidence < f.threshold {
        return false;
    }
    match &f.region {
        None => true,
        Some(frame) => {
            let half: u64 = (frame.cell_size() / 2) as u64;
            let cx: u64 = d.bbox.x as u64 + half;
            let cy: u64 = d.bbox.y as u64 + half;
            let x0: u64 = frame.origin_x as u64;
            let y0: u64 = frame.origin_y as u64;
            let x1: u64 = frame.origin_x as u64 + frame.width as u64;
            let y1: u64 = frame.origin_y as u64 + frame.height as u64;
            x0 <= cx && cx <= x1 && y0 <= cy && cy <= y1
        },
    }
}

/// As [`get_best_chessboard_match`], but over raw rows before any
/// transform: the refinement pass anchors its crop on this row.
pub fn best_raw_board_match(rows: &Vec<RawBox>) -> (r: Option<usize>)
    ensures
        match r {
            Some(i) => {
                &&& i < rows@.len()
                &&& rows@[i as int].class_id == BOARD_CLASS_ID
                &&& forall|j: int|
                    0 <= j < rows@.len() && rows@[j].class_id == BOARD_CLASS_ID
                        ==> rows@[j].confidence <= rows@[i as int].confidence
                &&& forall|j: int|
                    0 <= j < i as int && rows@[j].class_id == BOARD_CLASS_ID
                        ==> rows@[j].confidence < rows@[i as int].confidence
            },
            None => forall|j: int| 0 <= j < rows@.len() ==> rows@[j].class_id != BOARD_CLASS_ID,
        },
{
    let mut best: Option<usize> = None;
    let mut i: usize = 0;
    while i < rows.len()
        invariant
            i <= rows.len(),
            match best {
                Some(b) => {
                    &&& b < i
                    &&& rows@[b as int].class_id == BOARD_CLASS_ID
                    &&& forall|j: int|
                        0 <= j < i as int && rows@[j].class_id == BOARD_CLASS_ID
                            ==> rows@[j].confidence <= rows@[b as int].confidence
                    &&& forall|j: int|
                        0 <= j < b as int && rows@[j].class_id == BOARD_CLASS_ID
                            ==> rows@[j].confidence < rows@[b as int].confidence
                },
                None => forall|j: int| 0 <= j < i as int ==> rows@[j].class_id != BOARD_CLASS_ID,
            },
        decreases rows.len() - i,
    {
        let d = rows[i];
        if d.class_id == BOARD_CLASS_ID {
            let replace = match best {
                Some(b) => rows[b].confidence < d.confidence,
                None => true,
            };
            if replace {
                best = Some(i);
            }
        }
        i = i + 1;
    }
    best
}

} // verus!
