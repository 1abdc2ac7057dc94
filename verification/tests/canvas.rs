use softrender::Canvas;
use softrender::Color;
use softrender::Coord;
use softrender::Paint;

#[test]
fn new_canvas_is_fully_transparent() {
    let canvas = Canvas::new(3, 2);
    for x in 0..3 {
        for y in 0..2 {
            assert_eq!(canvas.get(x, y), Color { r: 0, g: 0, b: 0, a: 0 });
        }
    }
}

#[test]
fn apply_overwrites_one_entry() {
    let mut canvas = Canvas::new(3, 2);
    let p = Paint::new(Coord { x: 2, y: 1 }, Color { r: 10, g: 20, b: 30, a: 40 });
    assert_eq!(p.coord(), Coord { x: 2, y: 1 });
    assert_eq!(p.color(), Color { r: 10, g: 20, b: 30, a: 40 });
    canvas.apply(p);
    assert_eq!(canvas.get(2, 1), Color { r: 10, g: 20, b: 30, a: 40 });
    assert_eq!(canvas.get(0, 0), Color { r: 0, g: 0, b: 0, a: 0 });
    assert_eq!(canvas.get(1, 1), Color { r: 0, g: 0, b: 0, a: 0 });
}

#[test]
fn rgba_bytes_are_row_major() {
    let mut canvas = Canvas::new(2, 2);
    canvas.apply(Paint::new(Coord { x: 1, y: 0 }, Color { r: 1, g: 2, b: 3, a: 4 }));
    canvas.apply(Paint::new(Coord { x: 0, y: 1 }, Color { r: 5, g: 6, b: 7, a: 8 }));
    let bytes = canvas.to_rgba_bytes();
    // entry (x, y) sits at 4 * (y * width + x)
    assert_eq!(
        bytes,
        vec![0, 0, 0, 0, 1, 2, 3, 4, 5, 6, 7, 8, 0, 0, 0, 0]
    );
}

#[test]
fn redraw_is_byte_identical() {
    let mut canvas = Canvas::new(4, 3);
    canvas.apply(Paint::new(Coord { x: 3, y: 2 }, Color { r: 9, g: 8, b: 7, a: 6 }));
    let first = canvas.to_rgba_bytes();
    let second = canvas.to_rgba_bytes();
    assert_eq!(first, second);
}

#[test]
fn batch_order_does_not_matter() {
    let paints = vec![
        Paint::new(Coord { x: 0, y: 0 }, Color { r: 1, g: 0, b: 0, a: 255 }),
        Paint::new(Coord { x: 1, y: 0 }, Color { r: 2, g: 0, b: 0, a: 255 }),
        Paint::new(Coord { x: 0, y: 1 }, Color { r: 3, g: 0, b: 0, a: 255 }),
        Paint::new(Coord { x: 1, y: 1 }, Color { r: 4, g: 0, b: 0, a: 255 }),
    ];
    let mut reversed = paints.clone();
    reversed.reverse();

    let mut canvas_a = Canvas::new(2, 2);
    canvas_a.apply_batch(&paints);
    let mut canvas_b = Canvas::new(2, 2);
    canvas_b.apply_batch(&reversed);
    assert_eq!(canvas_a.to_rgba_bytes(), canvas_b.to_rgba_bytes());
}

#[test]
fn partial_batch_shows_only_initial_or_final_values() {
    let full = vec![
        Paint::new(Coord { x: 0, y: 0 }, Color { r: 1, g: 0, b: 0, a: 255 }),
        Paint::new(Coord { x: 1, y: 0 }, Color { r: 2, g: 0, b: 0, a: 255 }),
        Paint::new(Coord { x: 0, y: 1 }, Color { r: 3, g: 0, b: 0, a: 255 }),
        Paint::new(Coord { x: 1, y: 1 }, Color { r: 4, g: 0, b: 0, a: 255 }),
    ];
    let partial = vec![full[1], full[2]];

    let mut finished = Canvas::new(2, 2);
    finished.apply_batch(&full);
    let mut midway = Canvas::new(2, 2);
    midway.apply_batch(&partial);

    let initial = Color { r: 0, g: 0, b: 0, a: 0 };
    for x in 0..2 {
        for y in 0..2 {
            let seen = midway.get(x, y);
            assert!(seen == initial || seen == finished.get(x, y));
        }
    }
}
