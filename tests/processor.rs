use wdtagger::error::TaggerError;
use wdtagger::processor::{ImagePreprocessor, SourceImage};

/// An image whose pixel `(x, y)` has red `x`, green `y`, blue `x + y` and alpha 255.
fn gradient(width: u32, height: u32) -> SourceImage {
    let mut pixels = Vec::new();
    for y in 0..height {
        for x in 0..width {
            pixels.extend_from_slice(&[x as u8, y as u8, (x + y) as u8, 255]);
        }
    }
    SourceImage::new(width, height, pixels).unwrap()
}

fn at(data: &[u8], width: usize, x: usize, y: usize, c: usize) -> u8 {
    data[(y * width + x) * 3 + c]
}

#[test]
fn test_process_image() {
    let image = gradient(64, 48);

    let processor = ImagePreprocessor::new(3, 448, 448);

    let tensor = processor.process(&image).unwrap();

    assert_eq!(
        (tensor.batch(), tensor.height(), tensor.width(), tensor.channels()),
        (1, 448, 448, 3)
    );
    assert_eq!(tensor.data().len(), 448 * 448 * 3);
}

#[test]
fn process_yields_declared_size_for_any_image() {
    let processor = ImagePreprocessor::new(3, 8, 12);
    for (w, h) in [(1, 1), (5, 3), (3, 5), (20, 20), (0, 0), (0, 4)] {
        let image = SourceImage::new(w, h, vec![7u8; (w * h * 4) as usize]).unwrap();
        let t = processor.process(&image).unwrap();
        assert_eq!((t.batch(), t.height(), t.width(), t.channels()), (1, 8, 12, 3), "{}x{}", w, h);
        assert_eq!(t.data().len(), 8 * 12 * 3);
        // the resized square is 8 pixels on a side; the columns right of it stay zero
        for y in 0..8 {
            for x in 8..12 {
                for c in 0..3 {
                    assert_eq!(at(t.data(), 12, x, y, c), 0);
                }
            }
        }
    }
}

#[test]
fn padding_centres_a_narrow_image() {
    // 2 wide, 5 tall: the square is 5 on a side, 1 column of padding left and 2 right;
    // at the declared size of the square the resize keeps every pixel.
    let image = gradient(2, 5);
    let t = ImagePreprocessor::new(3, 5, 5).process(&image).unwrap();
    let d = t.data();
    for y in 0..5 {
        for x in 0..5 {
            let inside = (1..3).contains(&x);
            let (r, g, b) = if inside {
                let sx = (x - 1) as u8;
                (sx, y as u8, sx + y as u8)
            } else {
                (0, 0, 0)
            };
            // channels come out blue, green, red
            assert_eq!(at(d, 5, x, y, 0), b, "({}, {})", x, y);
            assert_eq!(at(d, 5, x, y, 1), g, "({}, {})", x, y);
            assert_eq!(at(d, 5, x, y, 2), r, "({}, {})", x, y);
        }
    }
}

#[test]
fn padding_centres_a_wide_image() {
    // 4 wide, 1 tall: 1 row of padding above, 2 below.
    let image = gradient(4, 1);
    let t = ImagePreprocessor::new(3, 4, 4).process(&image).unwrap();
    let d = t.data();
    for y in 0..4 {
        for x in 0..4 {
            let expected_red = if y == 1 { x as u8 } else { 0 };
            assert_eq!(at(d, 4, x, y, 2), expected_red, "({}, {})", x, y);
            assert_eq!(at(d, 4, x, y, 1), 0);
        }
    }
}

#[test]
fn resize_enlarges_a_flat_image() {
    let image = SourceImage::new(1, 1, vec![200, 10, 0, 255]).unwrap();
    let t = ImagePreprocessor::new(3, 4, 4).process(&image).unwrap();
    assert_eq!(t.data().len(), 4 * 4 * 3);
    for p in t.data().chunks(3) {
        assert!(p[0] < 5, "{:?}", p);
        assert!((5..16).contains(&p[1]), "{:?}", p);
        assert!(p[2] > 190, "{:?}", p);
    }
}

#[test]
fn alpha_is_dropped() {
    let opaque = SourceImage::new(1, 1, vec![9, 8, 7, 255]).unwrap();
    let clear = SourceImage::new(1, 1, vec![9, 8, 7, 0]).unwrap();
    let p = ImagePreprocessor::new(3, 1, 1);
    assert_eq!(p.process(&opaque).unwrap().data(), &vec![7, 8, 9]);
    assert_eq!(p.process(&clear).unwrap().data(), &vec![7, 8, 9]);
}

#[test]
fn batch_matches_single_images() {
    let p = ImagePreprocessor::new(3, 6, 6);
    let images = vec![gradient(3, 5), gradient(6, 6), gradient(7, 2)];
    let singles: Vec<Vec<u8>> = images.iter().map(|i| p.process(i).unwrap().data().clone()).collect();
    let batch = p.process_batch(images).unwrap();
    assert_eq!((batch.batch(), batch.height(), batch.width(), batch.channels()), (3, 6, 6, 3));
    let size = 6 * 6 * 3;
    for (k, single) in singles.iter().enumerate() {
        assert_eq!(&batch.data()[k * size..(k + 1) * size], single.as_slice());
    }
}

#[test]
fn empty_batch_is_an_error() {
    let p = ImagePreprocessor::new(3, 6, 6);
    assert!(matches!(p.process_batch(vec![]), Err(TaggerError::Processor(_))));
}

#[test]
fn unusable_shape_is_an_error() {
    let image = gradient(2, 2);
    for (c, h, w) in [(4, 8, 8), (1, 8, 8), (3, 0, 8), (3, 8, 0)] {
        let p = ImagePreprocessor::new(c, h, w);
        assert!(matches!(p.process(&image), Err(TaggerError::Processor(_))), "{} {} {}", c, h, w);
        assert!(matches!(p.process_batch(vec![gradient(2, 2)]), Err(TaggerError::Processor(_))));
    }
}

#[test]
fn image_needs_four_bytes_per_pixel() {
    assert!(SourceImage::new(2, 2, vec![0; 15]).is_none());
    assert!(SourceImage::new(2, 2, vec![0; 12]).is_none());
    let img = SourceImage::new(2, 3, vec![0; 24]).unwrap();
    assert_eq!((img.width(), img.height(), img.pixels().len()), (2, 3, 24));
}

#[test]
fn batch_fails_with_the_error_of_the_first_failing_image() {
    let p = ImagePreprocessor::new(3, 0, 6);
    let single = p.process(&gradient(2, 2)).unwrap_err();
    let batch = p.process_batch(vec![gradient(2, 2), gradient(3, 1)]).unwrap_err();
    assert_eq!(format!("{:?}", batch), format!("{:?}", single));
    assert_eq!(single.to_string(), "Processor Error: Invalid input size");
    let empty = ImagePreprocessor::new(3, 6, 6).process_batch(vec![]).unwrap_err();
    assert_eq!(empty.to_string(), "Processor Error: Failed to process batch");
}
