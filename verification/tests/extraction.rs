use qr_extract::extract::{Extract, ExtractError, QRExtractor};
use qr_extract::geometry::{Point, QRLocation};
use qr_extract::raster::Raster;

fn loc(tl: (i64, i64), tr: (i64, i64), bl: (i64, i64), version: u32) -> QRLocation {
    QRLocation {
        top_left: Point { x: tl.0, y: tl.1 },
        top_right: Point { x: tr.0, y: tr.1 },
        bottom_left: Point { x: bl.0, y: bl.1 },
        version,
    }
}

/// A deterministic, asymmetric module pattern.
fn pattern(row: u32, col: u32) -> u8 {
    ((row * 7 + col * 13) % 251) as u8
}

/// A raster of size w x h that draws `pattern` on an axis-aligned module grid
/// of 2k pixels per module whose top-left module corner is at (x0, y0).
fn axis_raster(w: u32, h: u32, x0: u32, y0: u32, k: u32, side: u32) -> Raster {
    let mut data = Vec::new();
    for y in 0..h {
        for x in 0..w {
            let inside =
                x >= x0 && y >= y0 && x < x0 + 2 * k * side && y < y0 + 2 * k * side;
            if inside {
                data.push(pattern((y - y0) / (2 * k), (x - x0) / (2 * k)));
            } else {
                data.push(77);
            }
        }
    }
    Raster::new(w, h, data).expect("buffer length matches dimensions")
}

/// The axis-aligned location that matches `axis_raster`'s grid.
fn axis_loc(x0: i64, y0: i64, k: i64, version: u32) -> QRLocation {
    let den = 4 * version as i64 + 10;
    loc(
        (x0 + 7 * k, y0 + 7 * k),
        (x0 + 7 * k + 2 * k * den, y0 + 7 * k),
        (x0 + 7 * k, y0 + 7 * k + 2 * k * den),
        version,
    )
}

#[test]
fn side_formula_all_versions() {
    for version in 1..=40u32 {
        let side = 4 * version + 17;
        let data = vec![0u8; (side * side) as usize];
        let qd = qr_extract::extract::QRData::new(data, version);
        assert_eq!(qd.version, version);
        assert_eq!(qd.side, side);
        assert_eq!(qd.data.len(), (side * side) as usize);
    }
}

#[test]
fn accessor_defined_exactly_on_grid() {
    let side = 21usize;
    let mut data = Vec::new();
    for i in 0..side * side {
        data.push((i % 256) as u8);
    }
    let qd = qr_extract::extract::QRData::new(data, 1);
    for row in 0..side {
        for col in 0..side {
            let expected = ((row * side + col) % 256) as u8;
            assert_eq!(qd.get(row, col), Some(expected));
            assert_eq!(qd.index((row, col)), expected);
        }
    }
    assert_eq!(qd.get(0, side), None);
    assert_eq!(qd.get(side, 0), None);
    assert_eq!(qd.get(side, side), None);
    assert_eq!(qd.get(usize::MAX, 0), None);
}

#[test]
fn axis_aligned_roundtrip_version1() {
    let raster = axis_raster(100, 100, 8, 8, 2, 21);
    let location = axis_loc(8, 8, 2, 1);
    let qd = QRExtractor::new()
        .extract_location(&raster, &location)
        .expect("aligned grid inside the raster extracts");
    assert_eq!(qd.version, 1);
    assert_eq!(qd.side, 21);
    assert_eq!(qd.data.len(), 21 * 21);
    for row in 0..21u32 {
        for col in 0..21u32 {
            assert_eq!(
                qd.data[(row * 21 + col) as usize],
                pattern(row, col),
                "module ({row}, {col})"
            );
        }
    }
}

#[test]
fn axis_aligned_roundtrip_version40() {
    let raster = axis_raster(380, 380, 4, 4, 1, 177);
    let location = axis_loc(4, 4, 1, 40);
    let qd = QRExtractor::new()
        .extract_location(&raster, &location)
        .expect("aligned grid inside the raster extracts");
    assert_eq!(qd.side, 177);
    assert_eq!(qd.data.len(), 177 * 177);
    for row in 0..177u32 {
        for col in 0..177u32 {
            assert_eq!(qd.data[(row * 177 + col) as usize], pattern(row, col));
        }
    }
}

#[test]
fn determinism_same_inputs() {
    let raster = axis_raster(100, 100, 8, 8, 2, 1 * 4 + 17);
    let location = axis_loc(8, 8, 2, 1);
    let extractor = QRExtractor::new();
    let a = extractor.extract_location(&raster, &location).unwrap();
    let b = extractor.extract_location(&raster, &location).unwrap();
    assert_eq!(a.version, b.version);
    assert_eq!(a.side, b.side);
    assert_eq!(a.data, b.data);
}

#[test]
fn origin_before_raster_is_error() {
    // version 1: side 21, the finder vectors span 14 modules over 70 pixels,
    // so the per-module step is 5 pixels and the grid origin is (-5, -5):
    // the first samples fall outside any raster.
    let location = loc((10, 10), (80, 10), (10, 80), 1);
    let raster = axis_raster(100, 100, 0, 0, 2, 21);
    let r = QRExtractor::new().extract_location(&raster, &location);
    assert_eq!(r.unwrap_err(), ExtractError::OutOfBounds(location));
}

#[test]
fn sample_at_width_is_error_one_more_column_succeeds() {
    // Origin (0, 0), step 5: the last column samples x = 100, so a raster of
    // width 100 fails and one of width 101 succeeds. No clamping.
    let location = loc((15, 15), (85, 15), (15, 85), 1);
    let narrow = Raster::new(100, 101, vec![0u8; 100 * 101]).unwrap();
    let r = QRExtractor::new().extract_location(&narrow, &location);
    assert_eq!(r.unwrap_err(), ExtractError::OutOfBounds(location));

    let wide = Raster::new(101, 101, vec![0u8; 101 * 101]).unwrap();
    let qd = QRExtractor::new().extract_location(&wide, &location).unwrap();
    assert_eq!(qd.side, 21);
}

#[test]
fn degenerate_geometry_is_error() {
    let same_x_axis = loc((10, 10), (10, 10), (10, 80), 1);
    let raster = Raster::new(200, 200, vec![0u8; 200 * 200]).unwrap();
    let r = QRExtractor::new().extract_location(&raster, &same_x_axis);
    assert_eq!(r.unwrap_err(), ExtractError::DegenerateGeometry(same_x_axis));

    let same_y_axis = loc((10, 10), (80, 10), (10, 10), 1);
    let r2 = QRExtractor::new().extract_location(&raster, &same_y_axis);
    assert_eq!(r2.unwrap_err(), ExtractError::DegenerateGeometry(same_y_axis));
}

#[test]
fn rotated_axes_sample_transposed() {
    // The horizontal symbol axis points down the image and the vertical one
    // points right: module (row, col) samples pixel (5*row, 5*col).
    let location = loc((15, 15), (15, 85), (85, 15), 1);
    let mut data = Vec::new();
    for y in 0..101u32 {
        for x in 0..101u32 {
            data.push(((x + 2 * y) % 256) as u8);
        }
    }
    let raster = Raster::new(101, 101, data).unwrap();
    let qd = QRExtractor::new().extract_location(&raster, &location).unwrap();
    for row in 0..21u32 {
        for col in 0..21u32 {
            let expected = ((5 * row + 2 * (5 * col)) % 256) as u8;
            assert_eq!(qd.data[(row * 21 + col) as usize], expected);
        }
    }
}

#[test]
fn scaling_reproduces_values() {
    let raster = axis_raster(100, 100, 8, 8, 2, 21);
    let location = axis_loc(8, 8, 2, 1);
    let qd = QRExtractor::new().extract_location(&raster, &location).unwrap();

    // Double the corner coordinates and replicate every pixel 2x2.
    let doubled_loc = loc(
        (2 * location.top_left.x, 2 * location.top_left.y),
        (2 * location.top_right.x, 2 * location.top_right.y),
        (2 * location.bottom_left.x, 2 * location.bottom_left.y),
        1,
    );
    let mut doubled = Vec::new();
    for y in 0..200u32 {
        for x in 0..200u32 {
            let sx = x / 2;
            let sy = y / 2;
            let inside = sx >= 8 && sy >= 8 && sx < 8 + 84 && sy < 8 + 84;
            if inside {
                doubled.push(pattern((sy - 8) / 4, (sx - 8) / 4));
            } else {
                doubled.push(77);
            }
        }
    }
    let doubled_raster = Raster::new(200, 200, doubled).unwrap();
    let qd2 = QRExtractor::new()
        .extract_location(&doubled_raster, &doubled_loc)
        .unwrap();
    assert_eq!(qd.data, qd2.data);
    assert_eq!(qd.side, qd2.side);
}

#[test]
fn batch_reports_each_location_independently() {
    let raster = axis_raster(100, 100, 8, 8, 2, 21);
    let good = axis_loc(8, 8, 2, 1);
    let degenerate = loc((10, 10), (10, 10), (10, 80), 1);
    let outside = loc((10, 10), (80, 10), (10, 80), 1);
    let results = QRExtractor::new().extract(&raster, vec![good, degenerate, outside]);
    assert_eq!(results.len(), 3);
    assert!(results[0].is_ok());
    assert_eq!(
        *results[1].as_ref().unwrap_err(),
        ExtractError::DegenerateGeometry(degenerate)
    );
    assert_eq!(
        *results[2].as_ref().unwrap_err(),
        ExtractError::OutOfBounds(outside)
    );
}

#[test]
fn raster_rejects_short_buffer() {
    assert!(Raster::new(10, 10, vec![0u8; 99]).is_none());
    assert!(Raster::new(10, 10, vec![0u8; 100]).is_some());
    assert!(Raster::new(10, 10, vec![0u8; 150]).is_some());
}
