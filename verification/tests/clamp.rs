use holo_core::{clamp_coords, Point, Rect};

#[test]
fn clamp_empty_outputs_is_identity() {
    let outputs: Vec<Rect> = vec![];
    let p = Point { x: -57, y: 4000 };
    assert_eq!(clamp_coords(p, &outputs), p);
}

#[test]
fn clamp_two_outputs_x_only() {
    // Output A at the origin, 1920x1080; output B to its right, 1280x1024.
    let outputs = vec![
        Rect { x: 0, y: 0, w: 1920, h: 1080 },
        Rect { x: 1920, y: 0, w: 1280, h: 1024 },
    ];
    // x clamps to the total width 3200; y is bounded by B's height 1024 and
    // is unchanged.
    let r = clamp_coords(Point { x: 3300, y: 500 }, &outputs);
    assert_eq!(r, Point { x: 3200, y: 500 });
}

#[test]
fn clamp_two_outputs_x_and_y() {
    let outputs = vec![
        Rect { x: 0, y: 0, w: 1920, h: 1080 },
        Rect { x: 1920, y: 0, w: 1280, h: 1024 },
    ];
    let r = clamp_coords(Point { x: 3300, y: 2000 }, &outputs);
    assert_eq!(r, Point { x: 3200, y: 1024 });
}

#[test]
fn clamp_negative_candidate_lands_in_first_output() {
    let outputs = vec![
        Rect { x: 0, y: 0, w: 1920, h: 1080 },
        Rect { x: 1920, y: 0, w: 1280, h: 1024 },
    ];
    let r = clamp_coords(Point { x: -250, y: -40 }, &outputs);
    assert_eq!(r, Point { x: 0, y: 0 });
}

#[test]
fn clamp_result_lies_in_union() {
    let outputs = vec![
        Rect { x: 0, y: 0, w: 800, h: 600 },
        Rect { x: 800, y: 0, w: 640, h: 480 },
    ];
    let candidates = [
        Point { x: -10, y: -10 },
        Point { x: 100, y: 700 },
        Point { x: 900, y: 599 },
        Point { x: 5000, y: 5000 },
        Point { x: 800, y: 300 },
    ];
    for p in candidates {
        let r = clamp_coords(p, &outputs);
        let inside = outputs.iter().any(|o| {
            o.x <= r.x && r.x <= o.x + o.w && o.y <= r.y && r.y <= o.y + o.h
        });
        assert!(inside, "clamped point {:?} left the outputs", r);
    }
}

#[test]
fn clamp_leaves_y_alone_over_a_gap() {
    // The outputs are not contiguous: the summed-width bound still clamps
    // x, but no output covers the clamped x, so y passes through.
    let outputs = vec![
        Rect { x: 0, y: 0, w: 100, h: 100 },
        Rect { x: 500, y: 0, w: 100, h: 100 },
    ];
    let r = clamp_coords(Point { x: 300, y: 999 }, &outputs);
    assert_eq!(r, Point { x: 200, y: 999 });
}

#[test]
fn clamp_y_in_middle_output_is_kept() {
    let outputs = vec![
        Rect { x: 0, y: 0, w: 1920, h: 1080 },
        Rect { x: 1920, y: 0, w: 1280, h: 1024 },
    ];
    // Within the first output nothing moves.
    let r = clamp_coords(Point { x: 500, y: 500 }, &outputs);
    assert_eq!(r, Point { x: 500, y: 500 });
}
