use qr_icon::compose::composite;
use qr_icon::error::Error;
use qr_icon::pixel::Pixel;
use qr_icon::raster::Raster;
use qr_icon::resize::prepare;

fn blue() -> Pixel {
    Pixel { r: 0, g: 0, b: 255 }
}

fn red() -> Pixel {
    Pixel { r: 255, g: 0, b: 0 }
}

fn white() -> Pixel {
    Pixel { r: 255, g: 255, b: 255 }
}

#[test]
fn test_composite_layout() {
    let canvas = Raster::solid(10, 10, blue());
    let icon = Raster::solid(2, 2, red());

    let out = composite(canvas, &icon, 1).unwrap();

    assert_eq!(out.width, 10);
    assert_eq!(out.height, 10);
    // Centred icon: offset (10 - 2) / 2 = 4, so the icon covers [4, 6).
    // Safe area: side 2 + 2 * 1 = 4 anchored at 4 - 1 = 3, covers [3, 7).
    for y in 0..10 {
        for x in 0..10 {
            let expected = if (4..6).contains(&x) && (4..6).contains(&y) {
                red()
            } else if (3..7).contains(&x) && (3..7).contains(&y) {
                white()
            } else {
                blue()
            };
            assert_eq!(out.get(x, y), expected);
        }
    }
}

#[test]
fn test_composite_centering_is_exact() {
    // Odd remainder: offset (9 - 2) / 2 = 3, biased to the top-left.
    let canvas = Raster::solid(9, 9, blue());
    let icon = Raster::solid(2, 2, red());

    let out = composite(canvas, &icon, 0).unwrap();

    for y in 0..9 {
        for x in 0..9 {
            let expected = if (3..5).contains(&x) && (3..5).contains(&y) { red() } else { blue() };
            assert_eq!(out.get(x, y), expected);
        }
    }
}

#[test]
fn test_composite_clamps_safe_area_to_canvas() {
    // The margin pushes the safe area past every canvas edge; it must be
    // clipped, not wrapped, and the icon still fully drawn.
    let canvas = Raster::solid(4, 4, blue());
    let icon = Raster::solid(4, 4, red());

    let out = composite(canvas, &icon, 5).unwrap();

    for y in 0..4 {
        for x in 0..4 {
            assert_eq!(out.get(x, y), red());
        }
    }
}

#[test]
fn test_composite_icon_too_large() {
    let canvas = Raster::solid(5, 5, blue());
    let icon = Raster::solid(6, 6, red());

    let result = composite(canvas, &icon, 5);

    assert_eq!(result.unwrap_err(), Error::IconTooLarge);
}

#[test]
fn test_prepare_never_exceeds_bound() {
    let wide = Raster::solid(30, 10, red());

    let resized = prepare(&wide, 7);

    assert!(resized.width <= 7);
    assert!(resized.height <= 7);
    assert!(resized.width >= 1);
    assert!(resized.height >= 1);
    // The wide edge is scaled down to the bound.
    assert_eq!(resized.width, 7);
}

#[test]
fn test_raster_set_and_get() {
    let mut r = Raster::solid(3, 2, white());
    r.set(2, 1, red());

    assert_eq!(r.get(2, 1), red());
    assert_eq!(r.get(1, 1), white());
    assert_eq!(r.get(2, 0), white());
}
