use softrender::Color;
use softrender::Coord;

#[test]
fn four_pixel_gradient() {
    let canvas = softrender::pipeline::render_offline(2, 2, &(), &|c: Coord, _s: &()| Color {
        r: (c.x * 255) as u8,
        g: (c.y * 255) as u8,
        b: 0,
        a: 255,
    });
    assert_eq!(canvas.width(), 2);
    assert_eq!(canvas.height(), 2);
    assert_eq!(canvas.get(0, 0), Color { r: 0, g: 0, b: 0, a: 255 });
    assert_eq!(canvas.get(1, 0), Color { r: 255, g: 0, b: 0, a: 255 });
    assert_eq!(canvas.get(0, 1), Color { r: 0, g: 255, b: 0, a: 255 });
    assert_eq!(canvas.get(1, 1), Color { r: 255, g: 255, b: 0, a: 255 });
}

#[test]
fn shared_state_multiplier_clamps() {
    let k: usize = 2;
    let canvas = softrender::pipeline::render_offline(200, 1, &k, &|c: Coord, k: &usize| Color {
        r: if c.x * *k > 255 { 255 } else { (c.x * *k) as u8 },
        g: 0,
        b: 0,
        a: 255,
    });
    assert_eq!(canvas.get(130, 0), Color { r: 255, g: 0, b: 0, a: 255 });
    assert_eq!(canvas.get(10, 0), Color { r: 20, g: 0, b: 0, a: 255 });
}

#[test]
fn every_coordinate_covered() {
    let width: usize = 7;
    let height: usize = 5;
    let canvas = softrender::pipeline::render_offline(width, height, &(), &|c: Coord, _s: &()| {
        Color { r: c.x as u8, g: c.y as u8, b: 9, a: 1 }
    });
    for x in 0..width {
        for y in 0..height {
            assert_eq!(canvas.get(x, y), Color { r: x as u8, g: y as u8, b: 9, a: 1 });
        }
    }
}

#[test]
fn empty_domain_renders_empty_canvas() {
    let canvas = softrender::pipeline::render_offline(0, 4, &(), &|_c: Coord, _s: &()| {
        Color { r: 1, g: 2, b: 3, a: 4 }
    });
    assert_eq!(canvas.width(), 0);
    assert_eq!(canvas.height(), 4);
    assert_eq!(canvas.to_rgba_bytes().len(), 0);

    let canvas = softrender::pipeline::render_offline(4, 0, &(), &|_c: Coord, _s: &()| {
        Color { r: 1, g: 2, b: 3, a: 4 }
    });
    assert_eq!(canvas.to_rgba_bytes().len(), 0);
}
