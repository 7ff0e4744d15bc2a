//! Particle metadata and the integer part of particle colouring.
//!
//! A colour is picked from a colormap by a position `t` in `[0, 1]`.
//! This module computes `t` exactly, as a fraction of integers; turning
//! the fraction into a floating-point number and looking up the colormap
//! is left to the caller.

use vstd::prelude::*;

verus! {

/// Coloring mode determines how particles are colored.
#[derive(Clone, Copy, PartialEq, Eq, Debug)]
pub enum ColorMode {
    /// Color based on when particle was created (frame number)
    CreationTime,
    /// Color based on how long particle has been stationary
    Age,
    /// Color based on height (Y position)
    Height,
    /// Random color variation for texture
    Random,
}

/// Particle metadata for coloring.
#[derive(Clone, Copy, Debug)]
pub struct ParticleMetadata {
    /// Frame number when this particle was created
    pub creation_frame: u64,
    /// How many frames this particle has been stationary
    pub stationary_frames: u32,
    /// Last position (for detecting movement)
    pub last_x: usize,
    pub last_y: usize,
}

impl Default for ParticleMetadata {
    fn default() -> (m: Self)
        ensures
            m == ParticleMetadata::zeroed(),
    {
        ParticleMetadata { creation_frame: 0, stationary_frames: 0, last_x: 0, last_y: 0 }
    }
}

impl ParticleMetadata {
    /// All fields zero.
    pub open spec fn zeroed() -> ParticleMetadata {
        ParticleMetadata { creation_frame: 0, stationary_frames: 0, last_x: 0, last_y: 0 }
    }

    /// A particle created at `frame` at `(x, y)`, not yet stationary.
    pub open spec fn created(frame: u64, x: usize, y: usize) -> ParticleMetadata {
        ParticleMetadata { creation_frame: frame, stationary_frames: 0, last_x: x, last_y: y }
    }

    /// Metadata of a particle created at `frame` at position `(x, y)`.
    pub fn new(frame: u64, x: usize, y: usize) -> (m: Self)
        ensures
            m == ParticleMetadata::created(frame, x, y),
    {
        ParticleMetadata { creation_frame: frame, stationary_frames: 0, last_x: x, last_y: y }
    }
}

/// Where in a colormap a particle's colour is taken, as an exact fraction:
/// the position is `numerator / denominator`, or `1 - numerator / denominator`
/// when `complement` is set.
#[derive(Clone, Copy, PartialEq, Eq, Debug, Structural)]
pub struct ColorPosition {
    pub numerator: u64,
    pub denominator: u64,
    pub complement: bool,
}

/// The colormap position of a particle at `(x, y)` with metadata `m`:
/// - `CreationTime`: its creation frame within the colour cycle,
///   `(creation_frame % frame_period) / frame_period`;
/// - `Age`: its stationary time, saturating at 100 frames, `min(s, 100) / 100`;
/// - `Height`: `1 - y / grid_height`, 1 at the top row and falling towards 0
///   at the bottom;
/// - `Random`: a value fixed per particle, `((creation_frame + x + y) % 1000) / 1000`.
pub open spec fn color_position_of(
    mode: ColorMode,
    m: ParticleMetadata,
    frame_period: u64,
    x: usize,
    y: usize,
    grid_height: usize,
) -> ColorPosition {
    match mode {
        ColorMode::CreationTime => ColorPosition {
            numerator: m.creation_frame % frame_period,
            denominator: frame_period,
            complement: false,
        },
        ColorMode::Age => ColorPosition {
            numerator: if m.stationary_frames < 100 { m.stationary_frames as u64 } else { 100 },
            denominator: 100,
            complement: false,
        },
        ColorMode::Height => ColorPosition { numerator: y as u64, denominator: grid_height as u64, complement: true },
        ColorMode::Random => ColorPosition {
            numerator: ((m.creation_frame + x + y) % 1000) as u64,
            denominator: 1000,
            complement: false,
        },
    }
}

/// The inputs on which the position can be computed: the colour cycle is not
/// empty for `CreationTime`, and the seed sum fits in a `u64` for `Random`.
pub open spec fn color_position_defined(mode: ColorMode, m: ParticleMetadata, frame_period: u64, x: usize, y: usize) -> bool {
    &&& mode == ColorMode::CreationTime ==> frame_period > 0
    &&& mode == ColorMode::Random ==> m.creation_frame + x + y <= u64::MAX
}

/// Calculate where in the colormap a particle's colour is taken, based on
/// the mode and metadata.
pub fn color_position(
    mode: ColorMode,
    metadata: &ParticleMetadata,
    frame_period: u64,
    x: usize,
    y: usize,
    grid_height: usize,
) -> (p: ColorPosition)
    requires
        color_position_defined(mode, *metadata, frame_period, x, y),
    ensures
        p == color_position_of(mode, *metadata, frame_period, x, y, grid_height),
{
    match mode {
        ColorMode::CreationTime => ColorPosition {
            numerator: metadata.creation_frame % frame_period,
            denominator: frame_period,
            complement: false,
        },
        ColorMode::Age => {
            let s = metadata.stationary_frames;
            ColorPosition { numerator: if s < 100 { s as u64 } else { 100 }, denominator: 100, complement: false }
        },
        ColorMode::Height => ColorPosition { numerator: y as u64, denominator: grid_height as u64, complement: true },
        ColorMode::Random => {
            let seed = (metadata.creation_frame + x as u64 + y as u64) % 1000;
            ColorPosition { numerator: seed, denominator: 1000, complement: false }
        },
    }
}

/// Every mode picks a position in `[0, 1]`: the fraction never exceeds one,
/// and for `Height` this holds for every row of the grid.
pub proof fn color_position_in_unit_range(
    mode: ColorMode,
    m: ParticleMetadata,
    frame_period: u64,
    x: usize,
    y: usize,
    grid_height: usize,
)
    requires
        color_position_defined(mode, m, frame_period, x, y),
        mode == ColorMode::Height ==> y < grid_height,
    ensures
        ({
            let p = color_position_of(mode, m, frame_period, x, y, grid_height);
            &&& p.denominator > 0
            &&& p.numerator <= p.denominator
            &&& mode != ColorMode::Age ==> p.numerator < p.denominator
        }),
{
}

/// Age colouring: the position is the stationary time in hundredths,
/// capped at one. A grain at rest for 100 frames or more sits at the end of
/// the colormap; below that the numerator is the counter itself over 100.
pub proof fn age_position_saturates(m: ParticleMetadata, frame_period: u64, x: usize, y: usize, grid_height: usize)
    ensures
        color_position_of(ColorMode::Age, m, frame_period, x, y, grid_height).denominator == 100,
        !color_position_of(ColorMode::Age, m, frame_period, x, y, grid_height).complement,
        m.stationary_frames >= 100 ==> color_position_of(ColorMode::Age, m, frame_period, x, y, grid_height).numerator == 100,
        m.stationary_frames < 100 ==> color_position_of(ColorMode::Age, m, frame_period, x, y, grid_height).numerator
            == m.stationary_frames,
{
}

/// Age colouring grows with rest: one more frame at rest moves the position
/// one hundredth further until it reaches the end, and a longer rest never
/// gives an earlier position.
pub proof fn age_position_grows_with_rest(m1: ParticleMetadata, m2: ParticleMetadata, frame_period: u64, x: usize, y: usize, grid_height: usize)
    ensures
        m1.stationary_frames <= m2.stationary_frames ==>
            color_position_of(ColorMode::Age, m1, frame_period, x, y, grid_height).numerator
                <= color_position_of(ColorMode::Age, m2, frame_period, x, y, grid_height).numerator,
        m2.stationary_frames == m1.stationary_frames + 1 ==>
            color_position_of(ColorMode::Age, m2, frame_period, x, y, grid_height).numerator == (
                if color_position_of(ColorMode::Age, m1, frame_period, x, y, grid_height).numerator < 100 {
                    color_position_of(ColorMode::Age, m1, frame_period, x, y, grid_height).numerator + 1
                } else {
                    100
                }),
{
}

/// Height colouring: the position is `1 - y / grid_height` for every row,
/// whatever the particle's metadata, the colour cycle or its column; a lower
/// row (larger `y`) always gives a strictly smaller position.
pub proof fn height_position_follows_row(
    m1: ParticleMetadata,
    m2: ParticleMetadata,
    p1: u64,
    p2: u64,
    x1: usize,
    x2: usize,
    y1: usize,
    y2: usize,
    grid_height: usize,
)
    ensures
        color_position_of(ColorMode::Height, m1, p1, x1, y1, grid_height).numerator == y1,
        color_position_of(ColorMode::Height, m1, p1, x1, y1, grid_height).denominator == grid_height,
        color_position_of(ColorMode::Height, m1, p1, x1, y1, grid_height).complement,
        y1 == y2 ==> color_position_of(ColorMode::Height, m1, p1, x1, y1, grid_height)
            == color_position_of(ColorMode::Height, m2, p2, x2, y2, grid_height),
        y1 < y2 ==> color_position_of(ColorMode::Height, m1, p1, x1, y1, grid_height).numerator
            < color_position_of(ColorMode::Height, m2, p2, x2, y2, grid_height).numerator,
{
}

/// Creation-time colouring: the position is the creation frame's offset in
/// the colour cycle, `numerator / frame_period` with `numerator` below the
/// period and congruent to the creation frame; particles created a whole
/// period apart share it, and the column and row play no part.
pub proof fn creation_position_cycles(m: ParticleMetadata, frame_period: u64, x: usize, y: usize, grid_height: usize)
    requires
        frame_period > 0,
    ensures
        color_position_of(ColorMode::CreationTime, m, frame_period, x, y, grid_height).denominator == frame_period,
        !color_position_of(ColorMode::CreationTime, m, frame_period, x, y, grid_height).complement,
        color_position_of(ColorMode::CreationTime, m, frame_period, x, y, grid_height).numerator < frame_period,
        (m.creation_frame - color_position_of(ColorMode::CreationTime, m, frame_period, x, y, grid_height).numerator)
            % (frame_period as int) == 0,
        m.creation_frame + frame_period <= u64::MAX ==>
            color_position_of(
                ColorMode::CreationTime,
                ParticleMetadata { creation_frame: (m.creation_frame + frame_period) as u64, ..m },
                frame_period,
                x,
                y,
                grid_height,
            ) == color_position_of(ColorMode::CreationTime, m, frame_period, 0, 0, 0),
{
    let c = m.creation_frame as int;
    let f = frame_period as int;
    assert((c - c % f) % f == 0) by (nonlinear_arith)
        requires f > 0;
    assert((c + f) % f == c % f) by (nonlinear_arith)
        requires f > 0;
}

/// Random colouring: the position is fixed by the particle's creation frame
/// and place alone, below one, congruent to `creation_frame + x + y` modulo
/// 1000; one column further to the right moves it one thousandth on, wrapping
/// round at the end.
pub proof fn random_position_is_seeded(m: ParticleMetadata, frame_period: u64, x: usize, y: usize, grid_height: usize)
    requires
        m.creation_frame + x + y + 1 <= u64::MAX,
        x + 1 <= usize::MAX,
    ensures
        color_position_of(ColorMode::Random, m, frame_period, x, y, grid_height).denominator == 1000,
        !color_position_of(ColorMode::Random, m, frame_period, x, y, grid_height).complement,
        color_position_of(ColorMode::Random, m, frame_period, x, y, grid_height).numerator < 1000,
        (m.creation_frame + x + y - color_position_of(ColorMode::Random, m, frame_period, x, y, grid_height).numerator)
            % 1000 == 0,
        color_position_of(ColorMode::Random, m, frame_period, x, y, grid_height)
            == color_position_of(ColorMode::Random, m, 1, x, y, 0),
        color_position_of(ColorMode::Random, m, frame_period, (x + 1) as usize, y, grid_height).numerator
            == (color_position_of(ColorMode::Random, m, frame_period, x, y, grid_height).numerator + 1) % 1000,
{
    let s = m.creation_frame + x + y;
    assert((s - s % 1000) % 1000 == 0) by (nonlinear_arith);
    assert((s + 1) % 1000 == (s % 1000 + 1) % 1000) by (nonlinear_arith);
}

} // verus!
