use rascii::color::RasciiColor;
use rascii::luminance::lightness;
use rascii::converter::{Opt, Rascii};
use rascii::raster::PixelBuffer;
use rascii::tiler::RasciiError;

fn picture(width: u32, height: u32, pixels: &[(u8, u8, u8)]) -> PixelBuffer {
    let mut samples = Vec::new();
    for (r, g, b) in pixels {
        samples.push(*r);
        samples.push(*g);
        samples.push(*b);
    }
    PixelBuffer::new(width, height, samples).unwrap()
}

fn solid(width: u32, height: u32, rgb: (u8, u8, u8)) -> PixelBuffer {
    picture(width, height, &vec![rgb; (width * height) as usize])
}

fn converter(image: PixelBuffer, cols: u32, rows: u32, color: bool, depth: u8) -> Rascii {
    Rascii { image, dim: (cols, rows), color, depth, braille: false }
}

fn options(width: u32, height: Option<u32>) -> Opt {
    Opt { color: true, braille: true, width, depth: 42, height, bg: false }
}

#[test]
fn settings_are_taken_over() {
    let made = Rascii::from_opt(&options(80, Some(24)), solid(4, 4, (1, 2, 3)), 17);
    assert_eq!(made.dim, (80, 24));
    assert!(made.color);
    assert!(made.braille);
    assert_eq!(made.depth, 42);
    assert_eq!(made.image.dimensions(), (4, 4));
}

#[test]
fn height_falls_back_to_the_proportional_one() {
    let made = Rascii::from_opt(&options(80, None), solid(4, 4, (1, 2, 3)), 17);
    assert_eq!(made.dim, (80, 17));
}

#[test]
fn half_black_half_white_in_grey_is_the_middle_of_the_short_ramp() {
    let image = picture(2, 2, &[(0, 0, 0), (255, 255, 255), (0, 0, 0), (255, 255, 255)]);
    let mut rascii = converter(image, 1, 1, false, 10);
    let grid = rascii.run().unwrap();
    assert_eq!(grid, vec![vec![('=', RasciiColor::Grayscale(127))]]);
}

#[test]
fn solid_red_in_colour_keeps_its_colour() {
    let mut rascii = converter(solid(10, 10, (255, 0, 0)), 1, 1, true, 10);
    let grid = rascii.run().unwrap();
    assert_eq!(grid.len(), 1);
    assert_eq!(grid[0].len(), 1);
    let (glyph, colour) = grid[0][0];
    assert_eq!(colour, RasciiColor::RGB(255, 0, 0));
    assert_eq!(colour.to_grayscale(), lightness(255, 0, 0));
    assert_eq!(colour.to_grayscale(), 255);
    assert_eq!(glyph, '@');
}

#[test]
fn solid_red_on_the_long_ramp() {
    let mut rascii = converter(solid(10, 10, (255, 0, 0)), 1, 1, true, 70);
    assert_eq!(rascii.run().unwrap(), vec![vec![('@', RasciiColor::RGB(255, 0, 0))]]);
}

#[test]
fn grid_as_wide_as_the_picture_has_one_cell_for_each_pixel_column() {
    let pixels = [(0, 0, 0), (1, 1, 1), (2, 2, 2), (9, 9, 9), (0, 0, 0), (1, 1, 1), (2, 2, 2), (9, 9, 9)];
    let mut rascii = converter(picture(4, 2, &pixels), 4, 1, true, 10);
    let grid = rascii.run().unwrap();
    assert_eq!(grid.len(), 1);
    assert_eq!(
        grid[0],
        vec![
            (' ', RasciiColor::RGB(0, 0, 0)),
            ('-', RasciiColor::RGB(1, 1, 1)),
            ('*', RasciiColor::RGB(2, 2, 2)),
            ('@', RasciiColor::RGB(9, 9, 9)),
        ]
    );
}

#[test]
fn grid_of_single_pixels_is_not_trimmed() {
    let mut rascii = converter(solid(3, 2, (0, 0, 0)), 3, 2, false, 70);
    let grid = rascii.run().unwrap();
    assert_eq!(grid, vec![vec![(' ', RasciiColor::Grayscale(0)); 3]; 2]);
}

#[test]
fn cells_come_row_by_row() {
    // top row black, bottom row white
    let pixels = [(0, 0, 0), (0, 0, 0), (255, 255, 255), (255, 255, 255)];
    let mut rascii = converter(picture(2, 2, &pixels), 2, 2, false, 10);
    let grid = rascii.run().unwrap();
    assert_eq!(
        grid,
        vec![
            vec![(' ', RasciiColor::Grayscale(0)), (' ', RasciiColor::Grayscale(0))],
            vec![('@', RasciiColor::Grayscale(255)), ('@', RasciiColor::Grayscale(255))],
        ]
    );
}

#[test]
fn pixels_beyond_the_last_tile_are_left_out() {
    // 3 pixels wide, 2 columns: tiles are 1 pixel wide, the third column is not read
    let pixels = [(0, 0, 0), (1, 1, 1), (255, 255, 255)];
    let mut rascii = converter(picture(3, 1, &pixels), 2, 1, true, 10);
    let grid = rascii.run().unwrap();
    assert_eq!(grid, vec![vec![(' ', RasciiColor::RGB(0, 0, 0)), ('-', RasciiColor::RGB(1, 1, 1))]]);
}

#[test]
fn grid_finer_than_the_picture_fails() {
    let mut rascii = converter(solid(4, 4, (7, 7, 7)), 5, 1, true, 10);
    assert_eq!(rascii.run(), Err(RasciiError::InvalidGridSpec));
    let mut rascii = converter(solid(4, 4, (7, 7, 7)), 1, 5, true, 10);
    assert_eq!(rascii.run(), Err(RasciiError::InvalidGridSpec));
}

#[test]
fn grid_without_cells_fails() {
    let mut rascii = converter(solid(4, 4, (7, 7, 7)), 0, 1, true, 10);
    assert_eq!(rascii.run(), Err(RasciiError::InvalidGridSpec));
    let mut rascii = converter(solid(4, 4, (7, 7, 7)), 1, 0, true, 10);
    assert_eq!(rascii.run(), Err(RasciiError::InvalidGridSpec));
}

#[test]
fn converting_twice_gives_the_same_grid() {
    let mut pixels = Vec::new();
    for k in 0..48u32 {
        pixels.push(((k % 7) as u8, (k % 4) as u8, (k % 11) as u8));
    }
    for color in [false, true] {
        for depth in [10u8, 70u8] {
            let mut rascii = converter(picture(8, 6, &pixels), 4, 3, color, depth);
            let first = rascii.run().unwrap();
            let second = rascii.run().unwrap();
            assert_eq!(first, second);
            assert_eq!(first.len(), 3);
            assert!(first.iter().all(|row| row.len() == 4));
            assert_eq!(rascii.dim, (4, 3));
        }
    }
}

#[test]
fn braille_changes_nothing() {
    let pixels = [(0, 0, 0), (1, 2, 3), (3, 2, 1), (200, 100, 50)];
    let mut plain = converter(picture(2, 2, &pixels), 2, 1, true, 70);
    let mut braille = converter(picture(2, 2, &pixels), 2, 1, true, 70);
    braille.braille = true;
    assert_eq!(plain.run(), braille.run());
}
