use canvas_blit::img::{BlitError, Img};

const RED: [u8; 4] = [0xFF, 0, 0, 0xFF];

fn solid(width: u32, height: u32, pixel: [u8; 4]) -> Img {
    let mut data = Vec::new();
    for _ in 0..(width as usize * height as usize) {
        data.extend_from_slice(&pixel);
    }
    Img::from_raw(width, height, data).unwrap()
}

fn pattern(width: u32, height: u32) -> Img {
    let mut data = Vec::new();
    for r in 0..height {
        for c in 0..width {
            data.push((r % 251) as u8);
            data.push((c % 241) as u8);
            data.push(((r * 7 + c * 3) % 256) as u8);
            data.push(0xFF);
        }
    }
    Img::from_raw(width, height, data).unwrap()
}

fn pixel(img: &Img, row: u32, col: u32) -> [u8; 4] {
    let at = (row as usize * img.wd() as usize + col as usize) * 4;
    let raw = img.as_raw();
    [raw[at], raw[at + 1], raw[at + 2], raw[at + 3]]
}

#[test]
fn new_image_is_blank() {
    let img = Img::new(4, 3);
    assert_eq!(img.wd(), 4);
    assert_eq!(img.ht(), 3);
    assert_eq!(img.as_raw().len(), 48);
    assert!(img.as_raw().iter().all(|b| *b == 0));
    assert_eq!(img.into_raw(), vec![0u8; 48]);
}

#[test]
fn new_image_without_pixels_is_empty() {
    assert_eq!(Img::new(0, 7).into_raw(), Vec::<u8>::new());
    assert_eq!(Img::new(7, 0).into_raw(), Vec::<u8>::new());
}

#[test]
fn from_raw_wants_the_exact_length() {
    assert!(Img::from_raw(2, 2, vec![0u8; 16]).is_some());
    assert!(Img::from_raw(2, 2, vec![0u8; 15]).is_none());
    assert!(Img::from_raw(2, 2, vec![0u8; 17]).is_none());
    assert!(Img::from_raw(0, 5, Vec::new()).is_some());
    assert!(Img::from_raw(u32::MAX, u32::MAX, vec![0u8; 4]).is_none());
}

#[test]
fn from_raw_keeps_size_and_bytes() {
    let data: Vec<u8> = (0u8..24).collect();
    let img = Img::from_raw(3, 2, data.clone()).unwrap();
    assert_eq!(img.wd(), 3);
    assert_eq!(img.ht(), 2);
    assert_eq!(img.as_raw(), &data);
    assert_eq!(img.into_raw(), data);
}

#[test]
fn red_square_on_blank_canvas() {
    let mut dest = Img::new(4, 4);
    let src = solid(2, 2, RED);
    assert_eq!(dest.write(&src, 1, 1), Ok(()));
    for row in 0..4 {
        for col in 0..4 {
            let inside = (1..=2).contains(&row) && (1..=2).contains(&col);
            let want = if inside { RED } else { [0, 0, 0, 0] };
            assert_eq!(pixel(&dest, row, col), want, "row {} col {}", row, col);
        }
    }
    assert_eq!(dest.wd(), 4);
    assert_eq!(dest.ht(), 4);
    assert_eq!(dest.as_raw().len(), 64);
}

#[test]
fn red_square_exact_bytes() {
    let mut dest = Img::new(3, 2);
    let src = solid(1, 1, RED);
    assert_eq!(dest.write(&src, 2, 1), Ok(()));
    let mut want = vec![0u8; 24];
    want[20] = 0xFF;
    want[23] = 0xFF;
    assert_eq!(dest.into_raw(), want);
}

#[test]
fn blit_near_corner_is_clamped() {
    let mut dest = solid(10, 10, [9, 9, 9, 9]);
    let src = pattern(5, 5);
    assert_eq!(dest.write(&src, 8, 8), Ok(()));
    for row in 0..10 {
        for col in 0..10 {
            let want = if row >= 8 && col >= 8 {
                pixel(&src, row - 8, col - 8)
            } else {
                [9, 9, 9, 9]
            };
            assert_eq!(pixel(&dest, row, col), want, "row {} col {}", row, col);
        }
    }
    assert_eq!(dest.as_raw().len(), 400);
}

#[test]
fn offset_outside_is_refused_and_changes_nothing() {
    let src = solid(2, 2, RED);
    for (x, y) in [(4u32, 0u32), (0, 4), (4, 4), (5, 1), (1, 9), (u32::MAX, u32::MAX)] {
        let mut dest = pattern(4, 4);
        let before = dest.as_raw().clone();
        assert_eq!(dest.write(&src, x, y), Err(BlitError::OutOfBounds));
        assert_eq!(dest.as_raw(), &before);
        assert_eq!(dest.wd(), 4);
        assert_eq!(dest.ht(), 4);
    }
}

#[test]
fn any_offset_is_outside_an_empty_destination() {
    let src = solid(2, 2, RED);
    let mut dest = Img::new(0, 0);
    assert_eq!(dest.write(&src, 0, 0), Err(BlitError::OutOfBounds));
    let mut flat = Img::new(3, 0);
    assert_eq!(flat.write(&src, 0, 0), Err(BlitError::OutOfBounds));
    let mut thin = Img::new(0, 3);
    assert_eq!(thin.write(&src, 0, 0), Err(BlitError::OutOfBounds));
}

#[test]
fn last_pixel_is_inside() {
    let src = solid(2, 2, RED);
    let mut dest = Img::new(4, 4);
    assert_eq!(dest.write(&src, 3, 3), Ok(()));
    let mut want = vec![0u8; 64];
    want[60..64].copy_from_slice(&RED);
    assert_eq!(dest.into_raw(), want);
}

#[test]
fn empty_source_changes_nothing() {
    for (w, h) in [(0u32, 0u32), (0, 3), (3, 0)] {
        let src = Img::new(w, h);
        let mut dest = pattern(4, 4);
        let before = dest.as_raw().clone();
        assert_eq!(dest.write(&src, 1, 2), Ok(()));
        assert_eq!(dest.as_raw(), &before);
    }
}

#[test]
fn source_that_fits_is_reproduced() {
    let src = pattern(3, 2);
    let mut dest = solid(6, 5, [1, 2, 3, 4]);
    assert_eq!(dest.write(&src, 2, 3), Ok(()));
    for row in 0..5 {
        for col in 0..6 {
            let inside = (3..5).contains(&row) && (2..5).contains(&col);
            let want = if inside { pixel(&src, row - 3, col - 2) } else { [1, 2, 3, 4] };
            assert_eq!(pixel(&dest, row, col), want, "row {} col {}", row, col);
        }
    }
}

#[test]
fn source_of_the_same_size_replaces_everything() {
    let src = pattern(4, 3);
    let mut dest = solid(4, 3, [7, 7, 7, 7]);
    assert_eq!(dest.write(&src, 0, 0), Ok(()));
    assert_eq!(dest.as_raw(), src.as_raw());
}

#[test]
fn larger_source_is_cropped_at_top_left() {
    let src = pattern(7, 9);
    let mut dest = Img::new(3, 2);
    assert_eq!(dest.write(&src, 1, 0), Ok(()));
    for row in 0..2 {
        for col in 0..3 {
            let want = if col >= 1 { pixel(&src, row, col - 1) } else { [0, 0, 0, 0] };
            assert_eq!(pixel(&dest, row, col), want, "row {} col {}", row, col);
        }
    }
}

#[test]
fn second_blit_changes_nothing() {
    let src = pattern(5, 5);
    for (x, y) in [(0u32, 0u32), (2, 1), (8, 8), (9, 0)] {
        let mut once = solid(10, 10, [3, 1, 4, 1]);
        assert_eq!(once.write(&src, x, y), Ok(()));
        let mut twice = solid(10, 10, [3, 1, 4, 1]);
        assert_eq!(twice.write(&src, x, y), Ok(()));
        assert_eq!(twice.write(&src, x, y), Ok(()));
        assert_eq!(once.as_raw(), twice.as_raw());
    }
}

#[test]
fn source_is_left_alone() {
    let src = pattern(5, 5);
    let before = src.as_raw().clone();
    let mut dest = Img::new(8, 8);
    assert_eq!(dest.write(&src, 6, 6), Ok(()));
    assert_eq!(src.as_raw(), &before);
}

#[test]
fn shifted_blit_into_double_width_canvas() {
    let (w, h) = (60u32, 55u32);
    let src = pattern(w, h);
    let mut dest = Img::new(2 * w, h);
    assert_eq!(dest.write(&src, 0, 0), Ok(()));
    assert_eq!(dest.write(&src, w + 50, 50), Ok(()));
    for row in 0..h {
        for col in 0..2 * w {
            let want = if row >= 50 && col >= w + 50 {
                pixel(&src, row - 50, col - w - 50)
            } else if col < w {
                pixel(&src, row, col)
            } else {
                [0, 0, 0, 0]
            };
            assert_eq!(pixel(&dest, row, col), want, "row {} col {}", row, col);
        }
    }
    assert_eq!(pixel(&dest, 54, 119), pixel(&src, 4, 9));
    assert_eq!(pixel(&dest, 49, 119), [0, 0, 0, 0]);
    assert_eq!(pixel(&dest, 54, 109), [0, 0, 0, 0]);
}

#[test]
fn out_of_bounds_message() {
    assert_eq!(BlitError::OutOfBounds.message(), "Invalid position");
}

#[test]
fn every_offset_inside_copies_what_fits() {
    for (sw, sh) in [(1u32, 1u32), (3, 3), (5, 4), (9, 9)] {
        let src = pattern(sw, sh);
        for y in 0..4u32 {
            for x in 0..5u32 {
                let mut dest = solid(5, 4, [8, 6, 4, 2]);
                assert_eq!(dest.write(&src, x, y), Ok(()));
                assert_eq!(dest.wd(), 5);
                assert_eq!(dest.ht(), 4);
                assert_eq!(dest.as_raw().len(), 80);
                let cols = sw.min(5 - x);
                let rows = sh.min(4 - y);
                for row in 0..4 {
                    for col in 0..5 {
                        let inside = row >= y && row < y + rows && col >= x && col < x + cols;
                        let want = if inside { pixel(&src, row - y, col - x) } else { [8, 6, 4, 2] };
                        assert_eq!(pixel(&dest, row, col), want, "at {} {} row {} col {}", x, y, row, col);
                    }
                }
            }
        }
    }
}
