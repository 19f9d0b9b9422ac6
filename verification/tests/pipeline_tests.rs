use qr_icon::error::Error;
use qr_icon::pipeline::generate;
use qr_icon::pipeline::generate_qr_with_icon;
use qr_icon::pixel::Pixel;
use qr_icon::raster::Raster;
use qr_icon::resize::prepare;

fn solid(width: usize, height: usize, r: u8, g: u8, b: u8) -> Raster {
    Raster::solid(width, height, Pixel { r, g, b })
}

#[test]
fn test_qr_generation() {
    // A 1x1 icon, as zero-initialized raster (pure black).
    let icon = solid(1, 1, 0, 0, 0);

    let result = generate_qr_with_icon("https://example.com", &icon);

    assert!(result.is_ok());
    let out = result.unwrap();
    assert!(out.width > 0);
    assert_eq!(out.width, out.height);
}

#[test]
fn test_icon_loading_and_resizing() {
    // A 100x100 zero-initialized icon.
    let icon = solid(100, 100, 0, 0, 0);

    let resized = prepare(&icon, 50);
    assert_eq!(resized.width, 50);
    assert_eq!(resized.height, 50);
}

#[test]
fn test_end_to_end_scenario() {
    let icon = solid(100, 100, 200, 30, 30);

    let out = generate_qr_with_icon("https://example.com", &icon).unwrap();

    // The canvas is square and an exact multiple of the encoder's module
    // count for this payload.
    let code = qrcode::QrCode::new("https://example.com").unwrap();
    let n = code.width();
    assert_eq!(out.width, out.height);
    assert!(out.width > 0);
    assert_eq!(out.width % n, 0);
    assert_eq!(out.width, (400 / n) * n);

    // The centre region (icon bounding box plus the margin) holds no pure
    // black pixel: only safe-area white and icon colour.
    let bound = out.width / 5;
    let prepared = prepare(&icon, bound);
    let xo = (out.width - prepared.width) / 2;
    let yo = (out.height - prepared.height) / 2;
    let margin = 5;
    for y in (yo - margin)..(yo + prepared.height + margin) {
        for x in (xo - margin)..(xo + prepared.width + margin) {
            let p = out.get(x, y);
            assert!(!(p.r == 0 && p.g == 0 && p.b == 0));
        }
    }
    // The very centre shows the icon's own colour, not white.
    let c = out.get(out.width / 2, out.height / 2);
    assert!(c.r > 100 && c.g < 100 && c.b < 100);
}

#[test]
fn test_capacity_failure() {
    let icon = solid(10, 10, 10, 200, 10);
    let payload = "a".repeat(4000);

    let result = generate_qr_with_icon(&payload, &icon);

    assert_eq!(result.unwrap_err(), Error::EncodingError);
}

#[test]
fn test_target_too_small_for_symbol() {
    let icon = solid(10, 10, 10, 200, 10);

    // Any QR symbol is at least 21 modules wide, so a 10-pixel canvas
    // cannot hold it.
    let result = generate("https://example.com", &icon, 10, 5);

    assert_eq!(result.unwrap_err(), Error::InvalidDimension);
}

#[test]
fn test_determinism() {
    let icon = solid(64, 48, 5, 120, 240);

    let a = generate_qr_with_icon("https://example.com", &icon).unwrap();
    let b = generate_qr_with_icon("https://example.com", &icon).unwrap();

    assert_eq!(a.width, b.width);
    assert_eq!(a.height, b.height);
    for y in 0..a.height {
        for x in 0..a.width {
            assert_eq!(a.get(x, y), b.get(x, y));
        }
    }
}
