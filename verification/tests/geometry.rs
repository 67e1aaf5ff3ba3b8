use chust::geometry::{crop_with_padding, letterbox_resize, scale_bbox};
use chust::types::{PixelBox, RawBox};

fn raw(left: u32, top: u32, right: u32, bottom: u32) -> RawBox {
    RawBox { left, top, right, bottom, confidence: 1000, class_id: 0 }
}

#[test]
fn letterbox_wide_image() {
    let lb = letterbox_resize(1920, 1080, 640);
    assert_eq!(lb.target, 640);
    assert_eq!(lb.max_side, 1920);
    assert_eq!(lb.scaled_w, 640);
    assert_eq!(lb.scaled_h, 360);
    assert_eq!(lb.pad_x, 0);
    assert_eq!(lb.pad_y, 140);
}

#[test]
fn letterbox_tall_image() {
    let lb = letterbox_resize(1080, 1920, 640);
    assert_eq!(lb.scaled_w, 360);
    assert_eq!(lb.scaled_h, 640);
    assert_eq!(lb.pad_x, 140);
    assert_eq!(lb.pad_y, 0);
}

#[test]
fn letterbox_pads_cover_canvas_up_to_one_pixel() {
    // An odd scaled side loses one pixel to centering, never more.
    for (w, h) in [(999, 1000), (640, 640), (333, 777), (2560, 1081)] {
        let lb = letterbox_resize(w, h, 640);
        let covered_w = 2 * lb.pad_x + lb.scaled_w;
        let covered_h = 2 * lb.pad_y + lb.scaled_h;
        assert!(covered_w == 640 || covered_w == 639, "w: {covered_w}");
        assert!(covered_h == 640 || covered_h == 639, "h: {covered_h}");
        assert!(lb.scaled_w <= 640 && lb.scaled_h <= 640);
    }
}

#[test]
fn scale_bbox_undoes_letterbox() {
    // 1920x1080 onto 640: scale 1/3, pad_y 140.
    let lb = letterbox_resize(1920, 1080, 640);
    let pb = scale_bbox(&raw(100, 240, 400, 440), &lb);
    assert_eq!(pb.x, 300); // (100 - 0) * 3
    assert_eq!(pb.y, 300); // (240 - 140) * 3
    assert_eq!(pb.width, 900); // (400 - 100) * 3
    assert_eq!(pb.height, 600); // (440 - 240) * 3
}

#[test]
fn scale_bbox_clamps_into_the_pad() {
    let lb = letterbox_resize(1080, 1920, 640);
    // left inside the horizontal pad comes back as 0, an inverted span as 0
    let pb = scale_bbox(&raw(10, 50, 5, 40), &lb);
    assert_eq!(pb.x, 0);
    assert_eq!(pb.width, 0);
    assert_eq!(pb.height, 0);
}

#[test]
fn round_trip_within_one_pixel() {
    let lb = letterbox_resize(1920, 1080, 640);
    for c in [0u32, 1, 7, 100, 141, 333, 499, 500, 639] {
        let x = lb.to_original_x(c);
        let back = lb.to_input_x(x);
        assert!(back <= c && c - back <= 1, "x: {c} -> {x} -> {back}");
        if c >= lb.pad_y {
            let y = lb.to_original_y(c);
            let back_y = lb.to_input_y(y);
            assert!(back_y <= c && c - back_y <= 1, "y: {c} -> {y} -> {back_y}");
        }
    }
}

#[test]
fn crop_expands_and_clips() {
    let bx = PixelBox { x: 100, y: 50, width: 200, height: 100 };
    // 10% padding: 20 on each x edge, 10 on each y edge
    let r = crop_with_padding(640, 480, &bx, 100);
    assert_eq!((r.x, r.y), (80, 40));
    assert_eq!((r.width, r.height), (240, 120));

    // near the origin the pad clamps at zero
    let bx2 = PixelBox { x: 5, y: 5, width: 200, height: 100 };
    let r2 = crop_with_padding(640, 480, &bx2, 100);
    assert_eq!((r2.x, r2.y), (0, 0));

    // near the far edge the span clips to the image
    let bx3 = PixelBox { x: 600, y: 400, width: 200, height: 100 };
    let r3 = crop_with_padding(640, 480, &bx3, 100);
    assert!(r3.x + r3.width <= 640);
    assert!(r3.y + r3.height <= 480);
}
