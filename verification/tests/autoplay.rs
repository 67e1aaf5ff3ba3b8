use chust::controller::{full_position, plan_move_clicks, ControllerState, Verdict};
use chust::error::ChustError;
use chust::mapper::{notation_to_positions, square_to_point};
use chust::types::{BoardFrame, Pov};

fn frame800() -> BoardFrame {
    BoardFrame { origin_x: 0, origin_y: 0, width: 800, height: 800 }
}

#[test]
fn debounce_commits_second_sighting_and_never_skips() {
    let mut st = ControllerState::new(String::from("A"), true);
    let mut commits: Vec<String> = Vec::new();
    for reading in ["A", "A", "B", "B", "C"] {
        let r = String::from(reading);
        if st.observe(&r) == Verdict::Commit {
            commits.push(r.clone());
            st.record_commit(r);
        }
    }
    // B committed on its second sighting; the lone C only opened a window
    assert_eq!(commits, vec![String::from("B")]);
    // the change to C is pending, not lost: its confirmation commits it
    let c = String::from("C");
    assert_eq!(st.observe(&c), Verdict::Commit);
    st.record_commit(c);
    commits.push(String::from("C"));
    assert_eq!(commits, vec![String::from("B"), String::from("C")]);
}

#[test]
fn debounce_verdict_sequence() {
    let mut st = ControllerState::new(String::from("A"), true);
    assert_eq!(st.observe(&String::from("A")), Verdict::NoChange);
    assert_eq!(st.observe(&String::from("A")), Verdict::NoChange);
    assert_eq!(st.observe(&String::from("B")), Verdict::Unconfirmed);
    assert_eq!(st.observe(&String::from("B")), Verdict::Commit);
    st.record_commit(String::from("B2"));
    // a flicker back to the committed position re-opens nothing
    assert_eq!(st.observe(&String::from("B2")), Verdict::NoChange);
    assert_eq!(st.observe(&String::from("C")), Verdict::Unconfirmed);
    // the flicker target changed: confirmation starts over
    assert_eq!(st.observe(&String::from("D")), Verdict::Unconfirmed);
    assert_eq!(st.observe(&String::from("D")), Verdict::Commit);
}

#[test]
fn without_stabilization_first_change_commits() {
    let mut st = ControllerState::new(String::from("A"), false);
    assert_eq!(st.observe(&String::from("A")), Verdict::NoChange);
    assert_eq!(st.observe(&String::from("B")), Verdict::Commit);
}

#[test]
fn full_position_appends_side_and_castling() {
    assert_eq!(full_position("8/8/8/8/8/8/8/8", true, true, true), "8/8/8/8/8/8/8/8 w KQkq");
    assert_eq!(full_position("x", false, false, false), "x b --");
    assert_eq!(full_position("x", true, false, true), "x w -kq");
    assert_eq!(full_position("x", false, true, false), "x b KQ-");
}

#[test]
fn error_messages_name_the_stage() {
    assert_eq!(ChustError::DetectionFailure.message(), "Detection failed");
    assert_eq!(ChustError::NoBoardFound.message(), "Board not found");
    assert_eq!(ChustError::InvalidSquare.message(), "Invalid square");
    assert_eq!(ChustError::EngineProtocolFailure.message(), "Engine protocol failed");
    assert_eq!(ChustError::CollaboratorFailure.message(), "Capture or actuation failed");
}

#[test]
fn invalid_square_is_rejected() {
    assert_eq!(notation_to_positions((0, 0), 100, "z9", true), None);
    assert_eq!(notation_to_positions((0, 0), 100, "a0", true), None);
    assert_eq!(notation_to_positions((0, 0), 100, "e", true), None);
    assert_eq!(notation_to_positions((0, 0), 100, "e44", true), None);
    assert_eq!(square_to_point(&frame800(), "z9", Pov::W), Err(ChustError::InvalidSquare));
}

#[test]
fn e4_maps_for_both_povs_with_distinct_points() {
    let w = square_to_point(&frame800(), "e4", Pov::W).unwrap();
    let b = square_to_point(&frame800(), "e4", Pov::B).unwrap();
    // cell 100: e -> file 4; white: col 4 row 4, black: col 3 row 3
    assert_eq!(w, (450, 450));
    assert_eq!(b, (350, 350));
    assert_ne!(w, b);
}

#[test]
fn a1_differs_between_povs_and_inverts_the_encoder() {
    let frame = frame800();
    let w = square_to_point(&frame, "a1", Pov::W).unwrap();
    let b = square_to_point(&frame, "a1", Pov::B).unwrap();
    assert_eq!(w, (50, 750));
    assert_eq!(b, (750, 50));
    assert_ne!(w, b);

    // a detection centered on either point encodes back to the a1 cell —
    // bottom-left from white — under its own point of view
    let cd = chust::detect::ChessDetection::new(700, 100);
    let det_w = chust::types::Detection {
        bbox: chust::types::PixelBox { x: w.0 - 50, y: w.1 - 50, width: 100, height: 100 },
        confidence: 1000,
        class_id: 6,
    };
    assert_eq!(cd.output_to_fen(&vec![det_w], &frame, true), "8/8/8/8/8/8/8/P7");
    let det_b = chust::types::Detection {
        bbox: chust::types::PixelBox { x: b.0 - 50, y: b.1 - 50, width: 100, height: 100 },
        confidence: 1000,
        class_id: 6,
    };
    assert_eq!(cd.output_to_fen(&vec![det_b], &frame, false), "8/8/8/8/8/8/8/P7");
}

#[test]
fn move_plan_clicks_source_then_destination() {
    let plan = plan_move_clicks(&frame800(), "e2e4", Pov::W).unwrap();
    assert_eq!(plan.from, (450, 650));
    assert_eq!(plan.to, (450, 450));
    assert_eq!(plan.promotion, None);
}

#[test]
fn move_plan_carries_promotion_letter() {
    let plan = plan_move_clicks(&frame800(), "e7e8q", Pov::W).unwrap();
    assert_eq!(plan.promotion, Some('q'));
    assert_eq!(plan_move_clicks(&frame800(), "e2", Pov::W), Err(ChustError::InvalidSquare));
    assert_eq!(plan_move_clicks(&frame800(), "e2z9", Pov::W), Err(ChustError::InvalidSquare));
}
