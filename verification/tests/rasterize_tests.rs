use qr_icon::encode::encode_payload;
use qr_icon::error::Error;
use qr_icon::matrix::ModuleMatrix;
use qr_icon::rasterize::rasterize;

fn checker_matrix() -> ModuleMatrix {
    // [ dark, light ]
    // [ light, dark ]
    ModuleMatrix::from_cells(2, vec![true, false, false, true]).unwrap()
}

#[test]
fn test_module_alignment_blocks() {
    let m = checker_matrix();
    let canvas = rasterize(&m, 10).unwrap();

    // 10 / 2 = 5 pixels per module, snapped size 10.
    assert_eq!(canvas.width, 10);
    assert_eq!(canvas.height, 10);
    for py in 0..10 {
        for px in 0..10 {
            let dark = m.module(px / 5, py / 5);
            let p = canvas.get(px, py);
            if dark {
                assert_eq!((p.r, p.g, p.b), (0, 0, 0));
            } else {
                assert_eq!((p.r, p.g, p.b), (255, 255, 255));
            }
        }
    }
}

#[test]
fn test_snapped_size_rounds_down() {
    let m = ModuleMatrix::from_cells(3, vec![false; 9]).unwrap();
    let canvas = rasterize(&m, 10).unwrap();

    // 10 / 3 = 3 pixels per module, snapped size 9.
    assert_eq!(canvas.width, 9);
    assert_eq!(canvas.height, 9);
}

#[test]
fn test_rasterize_rejects_small_target() {
    let m = checker_matrix();

    let result = rasterize(&m, 1);

    assert_eq!(result.unwrap_err(), Error::InvalidDimension);
}

#[test]
fn test_from_cells_checks_length() {
    assert!(ModuleMatrix::from_cells(2, vec![true; 3]).is_none());
    assert!(ModuleMatrix::from_cells(2, vec![true; 4]).is_some());
    assert!(ModuleMatrix::from_cells(0, vec![]).is_some());
}

#[test]
fn test_encoder_matches_symbol() {
    let payload = "https://example.com";
    let m = encode_payload(payload).unwrap();
    let code = qrcode::QrCode::new(payload).unwrap();

    assert_eq!(m.side, code.width());
    for y in 0..m.side {
        for x in 0..m.side {
            assert_eq!(m.module(x, y), code[(x, y)] == qrcode::Color::Dark);
        }
    }
}

#[test]
fn test_encoder_rejects_oversized_payload() {
    let payload = "a".repeat(4000);

    let result = encode_payload(&payload);

    assert_eq!(result.unwrap_err(), Error::EncodingError);
}
