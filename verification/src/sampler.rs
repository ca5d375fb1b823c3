//! From the pixels of one tile to one cell: the samples of the tile, their
//! mean, and the character that stands for it.

use crate::color::RasciiColor;
use crate::luminance::{lightness, lightness_of};
use crate::ramp::{map_char, ramp_char};
use crate::raster::{get_pixel, PixelBuffer};
use crate::tiler::Tile;
use vstd::arithmetic::div_mod::lemma_fundamental_div_mod_converse;
use vstd::prelude::*;

verus! {

/// One of the four numbers a sample can carry.
pub enum Channel {
    Red,
    Green,
    Blue,
    Gray,
}

/// Whether the tile lies inside the picture.
pub open spec fn tile_inside(buffer: PixelBuffer, tile: Tile) -> bool {
    tile.x0 + tile.width <= buffer.spec_width() && tile.y0 + tile.height <= buffer.spec_height()
}

/// The sample taken of one pixel: the pixel itself where colour is kept, its
/// lightness where it is not.
pub open spec fn sample_of(rgb: (u8, u8, u8), color: bool) -> RasciiColor {
    if color {
        RasciiColor::RGB(rgb.0, rgb.1, rgb.2)
    } else {
        RasciiColor::Grayscale(lightness_of(rgb.0, rgb.1, rgb.2))
    }
}

/// The samples of a tile, one for each pixel: column after column from the
/// left, and from the top down within a column.
pub open spec fn tile_samples(buffer: PixelBuffer, tile: Tile, color: bool) -> Seq<RasciiColor> {
    Seq::new(
        (tile.width * tile.height) as nat,
        |k: int|
            sample_of(
                buffer.pixel_at(tile.x0 + k / (tile.height as int), tile.y0 + k % (tile.height as int)),
                color,
            ),
    )
}

/// What a sample adds to the sum of a channel: its own number for that
/// channel, and nothing where it carries none.
pub open spec fn channel_of(sample: RasciiColor, channel: Channel) -> int {
    match (sample, channel) {
        (RasciiColor::RGB(r, _, _), Channel::Red) => r as int,
        (RasciiColor::RGB(_, g, _), Channel::Green) => g as int,
        (RasciiColor::RGB(_, _, b), Channel::Blue) => b as int,
        (RasciiColor::Grayscale(l), Channel::Gray) => l as int,
        _ => 0,
    }
}

/// The sum of one channel over the samples.
pub open spec fn channel_sum(samples: Seq<RasciiColor>, channel: Channel) -> int
    decreases samples.len(),
{
    if samples.len() == 0 {
        0
    } else {
        channel_sum(samples.drop_last(), channel) + channel_of(samples.last(), channel)
    }
}

/// The mean of one channel over the samples, rounded down.
pub open spec fn channel_mean(samples: Seq<RasciiColor>, channel: Channel) -> int {
    channel_sum(samples, channel) / (samples.len() as int)
}

/// The colour that stands for all the samples: the mean of each channel where
/// colour is kept, the mean lightness where it is not.
pub open spec fn mean_color(samples: Seq<RasciiColor>, color: bool) -> RasciiColor {
    if color {
        RasciiColor::RGB(
            channel_mean(samples, Channel::Red) as u8,
            channel_mean(samples, Channel::Green) as u8,
            channel_mean(samples, Channel::Blue) as u8,
        )
    } else {
        RasciiColor::Grayscale(channel_mean(samples, Channel::Gray) as u8)
    }
}

/// The cell of a tile: the mean colour of its samples, and the character for
/// the lightness of that mean. Where colour is kept the lightness is computed
/// from the mean colour; where it is not, it is the mean of the lightnesses.
pub open spec fn cell_of(buffer: PixelBuffer, tile: Tile, color: bool, depth: u8) -> (
    char,
    RasciiColor,
) {
    let mean = mean_color(tile_samples(buffer, tile, color), color);
    (ramp_char(mean.grayscale(), depth), mean)
}

/// No channel of a sample is above 255, so no sum is above 255 for each sample
/// and no mean is above 255.
pub proof fn lemma_channel_mean_in_range(samples: Seq<RasciiColor>, channel: Channel)
    ensures
        0 <= channel_sum(samples, channel) <= 255 * samples.len(),
        samples.len() > 0 ==> 0 <= channel_mean(samples, channel) <= 255,
    decreases samples.len(),
{
    if samples.len() > 0 {
        lemma_channel_mean_in_range(samples.drop_last(), channel);
        let sum = channel_sum(samples, channel);
        let count = samples.len() as int;
        assert(0 <= sum / count <= 255) by (nonlinear_arith)
            requires
                0 <= sum <= 255 * count,
                count > 0,
        ;
    }
}

/// Takes the samples of a tile that lies inside the picture.
pub fn sample(buffer: &PixelBuffer, tile: &Tile, color: bool) -> (samples: Vec<RasciiColor>)
    requires
        tile_inside(*buffer, *tile),
    ensures
        samples@ == tile_samples(*buffer, *tile, color),
{
    let mut samples: Vec<RasciiColor> = Vec::new();
    let ghost wanted = tile_samples(*buffer, *tile, color);
    let mut px: u32 = 0;
    while px < tile.width
        invariant
            tile_inside(*buffer, *tile),
            wanted == tile_samples(*buffer, *tile, color),
            px <= tile.width,
            samples@.len() == px * tile.height,
            forall|k: int| 0 <= k < samples@.len() ==> samples@[k] == wanted[k],
        decreases tile.width - px,
    {
        let mut py: u32 = 0;
        while py < tile.height
            invariant
                tile_inside(*buffer, *tile),
                wanted == tile_samples(*buffer, *tile, color),
                px < tile.width,
                py <= tile.height,
                samples@.len() == px * tile.height + py,
                forall|k: int| 0 <= k < samples@.len() ==> samples@[k] == wanted[k],
            decreases tile.height - py,
        {
            let data = get_pixel(buffer, tile.x0 + px, tile.y0 + py);
            let sampled = if color {
                RasciiColor::RGB(data[0], data[1], data[2])
            } else {
                RasciiColor::Grayscale(lightness(data[0], data[1], data[2]))
            };
            proof {
                let k = px * tile.height + py;
                lemma_fundamental_div_mod_converse(k, tile.height as int, px as int, py as int);
                assert(k + 1 <= tile.width * tile.height) by (nonlinear_arith)
                    requires
                        k == px * tile.height + py,
                        px + 1 <= tile.width,
                        py + 1 <= tile.height,
                        0 <= px,
                        0 <= py,
                ;
                assert(wanted[k] == sampled);
            }
            samples.push(sampled);
            py = py + 1;
        }
        assert((px + 1) * tile.height == px * tile.height + tile.height) by (nonlinear_arith);
        px = px + 1;
    }
    assert(samples@ =~= wanted);
    samples
}

/// Adds up one channel of the samples.
fn channel_total(samples: &Vec<RasciiColor>, channel: Channel) -> (total: u128)
    ensures
        total == channel_sum(samples@, channel),
{
    let mut total: u128 = 0;
    let mut i: usize = 0;
    while i < samples.len()
        invariant
            i <= samples@.len(),
            total == channel_sum(samples@.take(i as int), channel),
            total <= 255 * i,
        decreases samples@.len() - i,
    {
        let part: u8 = match (samples[i], &channel) {
            (RasciiColor::RGB(r, _, _), Channel::Red) => r,
            (RasciiColor::RGB(_, g, _), Channel::Green) => g,
            (RasciiColor::RGB(_, _, b), Channel::Blue) => b,
            (RasciiColor::Grayscale(l), Channel::Gray) => l,
            _ => 0,
        };
        assert(samples@.take(i + 1).drop_last() =~= samples@.take(i as int));
        total = total + part as u128;
        i = i + 1;
    }
    assert(samples@.take(i as int) =~= samples@);
    total
}

/// Gives the mean of one channel of the samples, rounded down.
fn channel_average(samples: &Vec<RasciiColor>, channel: Channel) -> (mean: u8)
    requires
        samples@.len() > 0,
    ensures
        mean == channel_mean(samples@, channel),
{
    proof {
        lemma_channel_mean_in_range(samples@, channel);
    }
    let total = channel_total(samples, channel);
    (total / (samples.len() as u128)) as u8
}

/// Reduces the samples of a tile to the one colour that stands for them.
pub fn aggregate(samples: &Vec<RasciiColor>, color: bool) -> (mean: RasciiColor)
    requires
        samples@.len() > 0,
    ensures
        mean == mean_color(samples@, color),
{
    if color {
        RasciiColor::RGB(
            channel_average(samples, Channel::Red),
            channel_average(samples, Channel::Green),
            channel_average(samples, Channel::Blue),
        )
    } else {
        RasciiColor::Grayscale(channel_average(samples, Channel::Gray))
    }
}

/// Makes the cell of one tile: samples it, takes the mean, and picks the
/// character for the lightness of the mean.
pub fn cell(buffer: &PixelBuffer, tile: &Tile, color: bool, depth: u8) -> (made: (
    char,
    RasciiColor,
))
    requires
        tile_inside(*buffer, *tile),
        tile.width >= 1,
        tile.height >= 1,
    ensures
        made == cell_of(*buffer, *tile, color, depth),
{
    let samples = sample(buffer, tile, color);
    assert(samples@.len() >= 1) by (nonlinear_arith)
        requires
            samples@.len() == tile.width * tile.height,
            tile.width >= 1,
            tile.height >= 1,
    ;
    let mean = aggregate(&samples, color);
    (map_char(mean.to_grayscale(), depth), mean)
}

} // verus!
