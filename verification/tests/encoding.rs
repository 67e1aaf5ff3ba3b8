use chust::detect::{
    apply_crop_offset, get_best_chessboard_match, passes_filter, ChessDetection, FilterSpec,
};
use chust::types::{BoardFrame, Detection, PixelBox, RawBox};

fn det(x: u32, y: u32, class_id: u32, confidence: u32) -> Detection {
    Detection { bbox: PixelBox { x, y, width: 100, height: 100 }, confidence, class_id }
}

fn frame800() -> BoardFrame {
    // mean of sides 800 -> cell size 100
    BoardFrame { origin_x: 0, origin_y: 0, width: 800, height: 800 }
}

#[test]
fn empty_set_encodes_all_empty_ranks() {
    let cd = ChessDetection::new(700, 100);
    let fen = cd.output_to_fen(&Vec::new(), &frame800(), true);
    assert_eq!(fen, "8/8/8/8/8/8/8/8");
}

#[test]
fn single_piece_mirrors_between_povs() {
    let cd = ChessDetection::new(700, 100);
    // center (50, 50): grid cell row 1, col 1
    let dets = vec![det(0, 0, 6, 1000)];
    let white = cd.output_to_fen(&dets, &frame800(), true);
    assert_eq!(white, "P7/8/8/8/8/8/8/8");
    let black = cd.output_to_fen(&dets, &frame800(), false);
    assert_eq!(black, "8/8/8/8/8/8/8/7P");
}

#[test]
fn rank_with_pieces_at_both_ends() {
    let cd = ChessDetection::new(700, 100);
    // two white pawns in row 1, columns 1 and 8
    let dets = vec![det(0, 0, 6, 1000), det(700, 0, 6, 1000)];
    let fen = cd.output_to_fen(&dets, &frame800(), true);
    assert_eq!(fen, "P6P/8/8/8/8/8/8/8");
}

#[test]
fn low_confidence_and_marker_and_noise_are_ignored() {
    let cd = ChessDetection::new(700, 100);
    let dets = vec![
        det(0, 0, 6, 699),    // under threshold
        det(100, 0, 12, 1000), // the board marker is not a piece
        det(200, 0, 13, 1000), // unknown class
        det(900, 900, 6, 1000), // outside the grid
    ];
    let fen = cd.output_to_fen(&dets, &frame800(), true);
    assert_eq!(fen, "8/8/8/8/8/8/8/8");
}

#[test]
fn colliding_cell_keeps_higher_confidence_in_both_orders() {
    let cd = ChessDetection::new(700, 100);
    // both center in cell (1,1); the queen is more confident
    let pawn = det(0, 0, 6, 800);
    let queen = det(10, 10, 10, 900);
    let ab = cd.output_to_fen(&vec![pawn, queen], &frame800(), true);
    let ba = cd.output_to_fen(&vec![queen, pawn], &frame800(), true);
    assert_eq!(ab, "Q7/8/8/8/8/8/8/8");
    assert_eq!(ba, ab);
}

#[test]
fn full_starting_position_encodes() {
    let cd = ChessDetection::new(700, 100);
    let mut dets = Vec::new();
    // black pieces on rows 1-2, white on rows 7-8, seen from white
    let back = [1u32, 2, 3, 4, 5, 3, 2, 1]; // r n b q k b n r
    for c in 0..8u32 {
        dets.push(det(c * 100, 0, back[c as usize], 1000));
        dets.push(det(c * 100, 100, 0, 1000)); // black pawns
        dets.push(det(c * 100, 600, 6, 1000)); // white pawns
        dets.push(det(c * 100, 700, back[c as usize] + 6, 1000));
    }
    let fen = cd.output_to_fen(&dets, &frame800(), true);
    assert_eq!(fen, "rnbqkbnr/pppppppp/8/8/8/8/PPPPPPPP/RNBQKBNR");
}

#[test]
fn degenerate_frame_collects_nothing() {
    // a frame too small for even one-pixel cells maps no detection anywhere
    let cd = ChessDetection::new(700, 100);
    let frame = BoardFrame { origin_x: 0, origin_y: 0, width: 7, height: 8 };
    let fen = cd.output_to_fen(&vec![det(0, 0, 6, 1000)], &frame, true);
    assert_eq!(fen, "8/8/8/8/8/8/8/8");
}

#[test]
fn best_board_match_takes_first_of_highest_confidence() {
    let dets = vec![
        det(0, 0, 12, 500),
        det(0, 0, 6, 999), // pieces never count
        det(0, 0, 12, 900),
        det(0, 0, 12, 900),
        det(0, 0, 12, 100),
    ];
    assert_eq!(get_best_chessboard_match(&dets), Some(2));
    assert_eq!(get_best_chessboard_match(&vec![det(0, 0, 6, 999)]), None);
    assert_eq!(get_best_chessboard_match(&Vec::new()), None);
}

#[test]
fn encode_position_reports_no_board() {
    let cd = ChessDetection::new(700, 100);
    let r = cd.encode_position(&vec![det(0, 0, 6, 1000)], true);
    assert_eq!(r, Err(chust::error::ChustError::NoBoardFound));
}

#[test]
fn encode_position_uses_best_marker_frame() {
    let cd = ChessDetection::new(700, 100);
    let mut dets = vec![det(0, 0, 6, 1000)];
    dets.push(Detection {
        bbox: PixelBox { x: 0, y: 0, width: 800, height: 800 },
        confidence: 650, // below the piece threshold: the locator has no floor
        class_id: 12,
    });
    let (fen, frame) = cd.encode_position(&dets, true).unwrap();
    assert_eq!(frame.width, 800);
    assert_eq!(fen, "P7/8/8/8/8/8/8/8");
}

#[test]
fn basic_pass_filters_and_rescales() {
    let cd = ChessDetection::new(700, 100);
    let lb = chust::geometry::letterbox_resize(1280, 1280, 640); // scale 1/2
    let rows = vec![
        RawBox { left: 10, top: 20, right: 110, bottom: 220, confidence: 900, class_id: 6 },
        RawBox { left: 0, top: 0, right: 5, bottom: 5, confidence: 100, class_id: 6 },
    ];
    let out = cd.filter_and_process_detections(&rows, &lb);
    assert_eq!(out.len(), 1);
    assert_eq!(out[0].bbox, PixelBox { x: 20, y: 40, width: 200, height: 400 });
    assert_eq!(out[0].class_id, 6);
    assert_eq!(out[0].confidence, 900);
}

#[test]
fn refined_pass_rebuilds_full_image_coordinates() {
    // A synthetic image 1280x1280; its board sub-region starts at (200, 200).
    // Running the basic pass on the pre-cropped sub-image and correcting by
    // the crop offset must agree with what the refined pipeline reports.
    let cd = ChessDetection::new(700, 0);
    let lb_full = chust::geometry::letterbox_resize(1280, 1280, 640); // scale 1/2
    let full_rows = vec![RawBox {
        left: 100,
        top: 100,
        right: 300,
        bottom: 300,
        confidence: 600,
        class_id: 12,
    }];
    // The marker anchors the crop even though it is under the threshold.
    let crop = cd.plan_refine_crop(&full_rows, &lb_full, 1280, 1280).unwrap();
    assert_eq!((crop.x, crop.y), (200, 200), "zero padding keeps the marker box");
    assert_eq!((crop.width, crop.height), (400, 400));

    // The oracle sees the 400x400 crop letterboxed; a piece at (40, 40) in
    // crop pixels shows up at (64, 64) in the 640 input space.
    let lb_crop = chust::geometry::letterbox_resize(crop.width, crop.height, 640);
    let crop_rows = vec![RawBox {
        left: 64,
        top: 64,
        right: 128,
        bottom: 128,
        confidence: 900,
        class_id: 6,
    }];
    let mut refined = cd.filter_and_process_detections(&crop_rows, &lb_crop);
    let direct = refined.clone(); // what Basic on the pre-cropped image yields
    apply_crop_offset(&mut refined, crop.x, crop.y);
    assert_eq!(refined[0].bbox.x, direct[0].bbox.x + 200);
    assert_eq!(refined[0].bbox.y, direct[0].bbox.y + 200);
    assert_eq!(refined[0].bbox.width, direct[0].bbox.width);
    assert_eq!((refined[0].bbox.x, refined[0].bbox.y), (240, 240));
}

#[test]
fn filter_spec_region_bounds_are_inclusive() {
    let f = FilterSpec { threshold: 700, region: Some(frame800()) };
    assert!(passes_filter(&det(0, 0, 6, 700), &f));
    assert!(!passes_filter(&det(0, 0, 6, 699), &f));
    // center 850 is outside the 0..=800 region
    assert!(!passes_filter(&det(800, 0, 6, 1000), &f));
    // center exactly on the far border passes
    assert!(passes_filter(&det(750, 750, 6, 1000), &f));
    let open = FilterSpec { threshold: 700, region: None };
    assert!(passes_filter(&det(5000, 5000, 6, 700), &open));
}
