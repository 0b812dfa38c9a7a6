use std::io::Cursor;

use deathrip::{Assembler, RipError, Tile};

fn png(width: u32, height: u32, colour: [u8; 4]) -> Vec<u8> {
    let buffer = image::RgbaImage::from_pixel(width, height, image::Rgba(colour));
    let mut bytes = Vec::new();
    image::DynamicImage::ImageRgba8(buffer)
        .write_to(&mut Cursor::new(&mut bytes), image::ImageOutputFormat::Png)
        .unwrap();
    bytes
}

fn colour_of(x: usize, y: usize) -> [u8; 4] {
    [10 * x as u8 + 1, 20 * y as u8 + 2, 3, 255]
}

fn tile(width: u32, height: u32, x: usize, y: usize) -> Tile {
    Tile::decode(png(width, height, colour_of(x, y))).unwrap()
}

fn pixel(rgba: &[u8], width: u32, px: u32, py: u32) -> [u8; 4] {
    let i = 4 * (py as usize * width as usize + px as usize);
    [rgba[i], rgba[i + 1], rgba[i + 2], rgba[i + 3]]
}

#[test]
fn decoding_is_deterministic() {
    let bytes = png(2, 3, [9, 8, 7, 6]);
    let a = Tile::decode(bytes.clone()).unwrap();
    let b = Tile::decode(bytes).unwrap();
    assert_eq!((a.width(), a.height()), (b.width(), b.height()));
    let one = Assembler::new(1, 1, a).unwrap().finish().unwrap();
    let two = Assembler::new(1, 1, b).unwrap().finish().unwrap();
    assert_eq!(one.rgba, two.rgba);
    assert_eq!(one.rgba[..4], [9, 8, 7, 6]);
}

#[test]
fn decoded_tile_size() {
    let t = tile(3, 2, 0, 0);
    assert_eq!((t.width(), t.height()), (3, 2));
}

#[test]
fn undecodable_bytes_fail() {
    let r = Tile::decode(b"not an image at all".to_vec());
    assert!(matches!(r, Err(RipError::ImageError(_)) | Err(RipError::ImageFormatGuessError(_))));
    let truncated = png(2, 2, [1, 2, 3, 4])[..20].to_vec();
    assert!(Tile::decode(truncated).is_err());
}

#[test]
fn remaining_cells_column_by_column() {
    let a = Assembler::new(3, 2, tile(1, 1, 0, 0)).unwrap();
    assert_eq!(a.remaining_cells(), vec![(0, 1), (1, 0), (1, 1), (2, 0), (2, 1)]);
    let single = Assembler::new(1, 1, tile(1, 1, 0, 0)).unwrap();
    assert!(single.remaining_cells().is_empty());
}

#[test]
fn composite_places_every_tile_in_its_block() {
    let (columns, rows, w, h) = (3usize, 2usize, 3u32, 2u32);
    let mut a = Assembler::new(columns, rows, tile(w, h, 0, 0)).unwrap();
    let mut cells = a.remaining_cells();
    cells.reverse();
    for (x, y) in cells {
        a.accept(x, y, Ok(tile(w, h, x, y)));
    }
    assert!(!a.has_failed());
    let bitmap = a.finish().unwrap();
    assert_eq!((bitmap.width, bitmap.height), (9, 4));
    assert_eq!(bitmap.rgba.len(), 4 * 9 * 4);
    for x in 0..columns {
        for y in 0..rows {
            for i in 0..w {
                for j in 0..h {
                    let px = x as u32 * w + i;
                    let py = y as u32 * h + j;
                    assert_eq!(pixel(&bitmap.rgba, 9, px, py), colour_of(x, y));
                }
            }
        }
    }
}

#[test]
fn arrival_order_gives_identical_bytes() {
    let build = |reverse: bool| {
        let mut a = Assembler::new(4, 3, tile(2, 2, 0, 0)).unwrap();
        let mut cells = a.remaining_cells();
        if reverse {
            cells.reverse();
        }
        for (x, y) in cells {
            a.accept(x, y, Ok(tile(2, 2, x, y)));
        }
        a.finish().unwrap()
    };
    let first = build(false);
    let second = build(true);
    assert_eq!((first.width, first.height), (second.width, second.height));
    assert_eq!(first.rgba, second.rgba);
}

#[test]
fn one_undecodable_tile_fails_the_rip() {
    let mut a = Assembler::new(5, 5, tile(1, 1, 0, 0)).unwrap();
    for (x, y) in a.remaining_cells() {
        let fetched = if (x, y) == (2, 3) {
            Tile::decode(b"corrupt".to_vec())
        } else {
            Ok(tile(1, 1, x, y))
        };
        a.accept(x, y, fetched);
    }
    assert!(a.has_failed());
    assert!(a.finish().is_err());
}

#[test]
fn first_failure_is_kept() {
    let mut a = Assembler::new(2, 1, tile(1, 1, 0, 0)).unwrap();
    a.accept(1, 0, Err(RipError::TileOutOfBounds));
    a.accept(1, 0, Err(RipError::CanvasTooLarge));
    a.accept(1, 0, Ok(tile(1, 1, 1, 0)));
    assert!(matches!(a.finish(), Err(RipError::TileOutOfBounds)));
}

#[test]
fn oversized_grid_is_refused() {
    assert!(matches!(
        Assembler::new(usize::MAX, 1, tile(2, 1, 0, 0)),
        Err(RipError::CanvasTooLarge)
    ));
    assert!(matches!(
        Assembler::new(1, 1 << 32, tile(1, 1, 0, 0)),
        Err(RipError::CanvasTooLarge)
    ));
}

#[test]
fn empty_grid_cannot_hold_the_head() {
    assert!(matches!(Assembler::new(0, 1, tile(1, 1, 0, 0)), Err(RipError::TileOutOfBounds)));
}

#[test]
fn tile_larger_than_its_place_is_refused() {
    let mut a = Assembler::new(2, 2, tile(2, 2, 0, 0)).unwrap();
    a.accept(1, 1, Ok(tile(3, 3, 1, 1)));
    assert!(matches!(a.finish(), Err(RipError::TileOutOfBounds)));
}

#[test]
fn smaller_tile_leaves_the_rest_blank() {
    let mut a = Assembler::new(2, 1, tile(2, 2, 0, 0)).unwrap();
    a.accept(1, 0, Ok(tile(1, 1, 1, 0)));
    let bitmap = a.finish().unwrap();
    assert_eq!((bitmap.width, bitmap.height), (4, 2));
    assert_eq!(pixel(&bitmap.rgba, 4, 2, 0), colour_of(1, 0));
    assert_eq!(pixel(&bitmap.rgba, 4, 3, 0), [0, 0, 0, 0]);
    assert_eq!(pixel(&bitmap.rgba, 4, 2, 1), [0, 0, 0, 0]);
    assert_eq!(pixel(&bitmap.rgba, 4, 1, 1), colour_of(0, 0));
}
