//! The parameters of a render, and the image that it fills.
//!
//! The image is a flat run of bytes, four for each pixel (red, green, blue
//! and an alpha of 255), row after row from the top. The camera's vertical
//! axis points up, so the scan line `j` of the plane, counted from the bottom,
//! is row `height - 1 - j` of the image: [`Frame::next_pixel`] hands out the
//! pixels in the order in which the bytes are laid down.

use vstd::prelude::*;
use vstd::arithmetic::power2::lemma2_to64;
use crate::scalar::{lemma_encodes, lemma_whole_part_is_shift, Scalar};
use crate::vector::Vector3;

verus! {

/// The encoding of `255.99`, by which a colour channel between 0 and 1 is
/// scaled before it is truncated to a byte.
pub const SCALE_BITS: u32 = 0x437f_fd71;

/// The alpha byte of every pixel: opaque.
pub const OPAQUE: u8 = 255;

/// Why a set of render parameters is refused.
#[derive(Clone, Copy, Debug, PartialEq, Eq, Structural)]
pub enum ConfigError {
    /// The image would be no pixel wide.
    ZeroWidth,
    /// The image would be no pixel high.
    ZeroHeight,
    /// No sample would be taken for a pixel.
    ZeroSamples,
    /// The bounce budget is below zero.
    NegativeBounces,
}

impl ConfigError {
    /// What is wrong, as a sentence.
    pub open spec fn spec_message(self) -> Seq<char> {
        match self {
            ConfigError::ZeroWidth => "the image width must be at least 1"@,
            ConfigError::ZeroHeight => "the image height must be at least 1"@,
            ConfigError::ZeroSamples => "the samples per pixel must be at least 1"@,
            ConfigError::NegativeBounces => "the bounce budget must not be negative"@,
        }
    }

    /// What is wrong, as a sentence.
    pub fn message(&self) -> (text: &'static str)
        ensures
            text@ == self.spec_message(),
    {
        match self {
            ConfigError::ZeroWidth => "the image width must be at least 1",
            ConfigError::ZeroHeight => "the image height must be at least 1",
            ConfigError::ZeroSamples => "the samples per pixel must be at least 1",
            ConfigError::NegativeBounces => "the bounce budget must not be negative",
        }
    }
}

/// The number of bytes of an image of the given size.
pub open spec fn image_bytes(width: int, height: int) -> int {
    4 * width * height
}

/// What [`RenderParams::new`] answers.
pub open spec fn checked(width: u16, height: u16, samples_per_pixel: u16, max_bounces: i16) -> Option<
    ConfigError,
> {
    if width == 0 {
        Some(ConfigError::ZeroWidth)
    } else if height == 0 {
        Some(ConfigError::ZeroHeight)
    } else if samples_per_pixel == 0 {
        Some(ConfigError::ZeroSamples)
    } else if max_bounces < 0 {
        Some(ConfigError::NegativeBounces)
    } else {
        None
    }
}

/// The parameters of a render, held to be usable: a width, a height and a
/// sample count of at least 1, and a bounce budget of at least 0.
#[derive(Clone, Copy, Debug)]
pub struct RenderParams {
    width: u16,
    height: u16,
    samples_per_pixel: u16,
    max_bounces: i16,
    random_seed: Option<u64>,
}

impl RenderParams {
    #[verifier::type_invariant]
    spec fn usable(self) -> bool {
        checked(self.width, self.height, self.samples_per_pixel, self.max_bounces).is_none()
    }

    /// The image width in pixels, as a spec value.
    pub closed spec fn spec_width(&self) -> u16 {
        self.width
    }

    /// The image height in pixels, as a spec value.
    pub closed spec fn spec_height(&self) -> u16 {
        self.height
    }

    /// The samples per pixel, as a spec value.
    pub closed spec fn spec_samples_per_pixel(&self) -> u16 {
        self.samples_per_pixel
    }

    /// The bounce budget, as a spec value.
    pub closed spec fn spec_max_bounces(&self) -> i16 {
        self.max_bounces
    }

    /// The seed, as a spec value.
    pub closed spec fn spec_random_seed(&self) -> Option<u64> {
        self.random_seed
    }

    /// The parameters are usable.
    pub open spec fn well_formed(&self) -> bool {
        checked(
            self.spec_width(),
            self.spec_height(),
            self.spec_samples_per_pixel(),
            self.spec_max_bounces(),
        ).is_none()
    }

    /// Takes the parameters if they are usable, and says what is wrong if
    /// they are not: the first of a zero width, a zero height, a zero sample
    /// count, a bounce budget below zero.
    pub fn new(
        width: u16,
        height: u16,
        samples_per_pixel: u16,
        max_bounces: i16,
        random_seed: Option<u64>,
    ) -> (made: Result<RenderParams, ConfigError>)
        ensures
            match made {
                Ok(params) => {
                    &&& checked(width, height, samples_per_pixel, max_bounces).is_none()
                    &&& params.spec_width() == width
                    &&& params.spec_height() == height
                    &&& params.spec_samples_per_pixel() == samples_per_pixel
                    &&& params.spec_max_bounces() == max_bounces
                    &&& params.spec_random_seed() == random_seed
                },
                Err(e) => checked(width, height, samples_per_pixel, max_bounces) == Some(e),
            },
    {
        if width == 0 {
            return Err(ConfigError::ZeroWidth);
        }
        if height == 0 {
            return Err(ConfigError::ZeroHeight);
        }
        if samples_per_pixel == 0 {
            return Err(ConfigError::ZeroSamples);
        }
        if max_bounces < 0 {
            return Err(ConfigError::NegativeBounces);
        }
        Ok(RenderParams { width, height, samples_per_pixel, max_bounces, random_seed })
    }

    /// The image width in pixels: at least 1.
    #[verifier::when_used_as_spec(spec_width)]
    pub fn width(&self) -> (w: u16)
        ensures
            w == self.spec_width(),
            self.well_formed(),
    {
        proof {
            use_type_invariant(self);
        }
        self.width
    }

    /// The image height in pixels: at least 1.
    #[verifier::when_used_as_spec(spec_height)]
    pub fn height(&self) -> (h: u16)
        ensures
            h == self.spec_height(),
            self.well_formed(),
    {
        proof {
            use_type_invariant(self);
        }
        self.height
    }

    /// The number of samples that are averaged for a pixel: at least 1.
    #[verifier::when_used_as_spec(spec_samples_per_pixel)]
    pub fn samples_per_pixel(&self) -> (n: u16)
        ensures
            n == self.spec_samples_per_pixel(),
            self.well_formed(),
    {
        proof {
            use_type_invariant(self);
        }
        self.samples_per_pixel
    }

    /// The bounce budget of each camera ray: at least 0.
    #[verifier::when_used_as_spec(spec_max_bounces)]
    pub fn max_bounces(&self) -> (b: i16)
        ensures
            b == self.spec_max_bounces(),
            self.well_formed(),
    {
        proof {
            use_type_invariant(self);
        }
        self.max_bounces
    }

    /// The seed of the random stream, where the render is to be repeatable.
    #[verifier::when_used_as_spec(spec_random_seed)]
    pub fn random_seed(&self) -> (seed: Option<u64>)
        ensures
            seed == self.spec_random_seed(),
    {
        self.random_seed
    }
}

/// The factor `255.99` by which a channel is scaled before [`Frame::push`]
/// truncates it. The factor itself, which a channel of 1 scales to, gives the
/// byte 255.
pub fn scale() -> (s: Scalar)
    ensures
        s.bits == SCALE_BITS,
        s.encodes(25599, 100),
        s.spec_to_byte() == 255,
{
    let s = Scalar { bits: SCALE_BITS };
    proof {
        lemma2_to64();
        lemma_encodes(s, 25599, 100, 16);
        lemma_whole_part_is_shift(s);
        assert(s.exponent() == 134 && s.fraction() == 0x7f_fd71);
        assert(s.whole_part() == 0xff_fd71int / 0x1_0000);
    }
    s
}

/// The four bytes of a pixel whose scaled channels are `scaled`.
pub open spec fn quad(scaled: Vector3) -> Seq<u8> {
    seq![scaled.x.spec_to_byte(), scaled.y.spec_to_byte(), scaled.z.spec_to_byte(), OPAQUE]
}

/// An image while it is filled, pixel by pixel.
pub struct Frame {
    width: u16,
    height: u16,
    data: Vec<u8>,
}

impl View for Frame {
    type V = Seq<u8>;

    /// The bytes laid down so far.
    closed spec fn view(&self) -> Seq<u8> {
        self.data@
    }
}

impl Frame {
    /// The image width in pixels, as a spec value.
    pub closed spec fn spec_width(&self) -> u16 {
        self.width
    }

    /// The image height in pixels, as a spec value.
    pub closed spec fn spec_height(&self) -> u16 {
        self.height
    }

    /// The number of pixels laid down so far.
    pub open spec fn spec_done(&self) -> int {
        self@.len() as int / 4
    }

    /// The number of pixels of the whole image.
    pub open spec fn spec_pixels(&self) -> int {
        self.spec_width() * self.spec_height()
    }

    /// The bytes are whole pixels, no more than the image has, each with an
    /// opaque alpha; and the image has a pixel at least.
    /// Every frame made by [`Frame::new`] and filled by [`Frame::push`] is so.
    pub open spec fn well_formed(&self) -> bool {
        &&& self.spec_width() >= 1
        &&& self.spec_height() >= 1
        &&& self@.len() % 4 == 0
        &&& self@.len() <= image_bytes(self.spec_width() as int, self.spec_height() as int)
        &&& forall|at: int| 0 <= at < self@.len() && at % 4 == 3 ==> #[trigger] self@[at] == OPAQUE
    }

    /// The empty image of the size that the parameters give.
    pub fn new(params: &RenderParams) -> (frame: Frame)
        ensures
            frame.spec_width() == params.spec_width(),
            frame.spec_height() == params.spec_height(),
            frame@ == Seq::<u8>::empty(),
            frame.well_formed(),
    {
        let width = params.width();
        let height = params.height();
        Frame { width, height, data: Vec::new() }
    }

    /// The image width in pixels.
    #[verifier::when_used_as_spec(spec_width)]
    pub fn width(&self) -> (w: u16)
        ensures
            w == self.spec_width(),
    {
        self.width
    }

    /// The image height in pixels.
    #[verifier::when_used_as_spec(spec_height)]
    pub fn height(&self) -> (h: u16)
        ensures
            h == self.spec_height(),
    {
        self.height
    }

    /// The pixel to shade next, as the column `i` from the left and the scan
    /// line `j` from the bottom; none when the image is full. The pixels come
    /// row by row from the top, each row from the left, and the bytes of the
    /// pixel handed out land at the offset `4 * ((height - 1 - j) * width + i)`.
    pub fn next_pixel(&self) -> (next: Option<(u16, u16)>)
        requires
            self.well_formed(),
        ensures
            next.is_none() <==> self.spec_done() == self.spec_pixels(),
            match next {
                Some((i, j)) => {
                    &&& self.spec_done() < self.spec_pixels()
                    &&& i < self.spec_width()
                    &&& j < self.spec_height()
                    &&& i == self.spec_done() % (self.spec_width() as int)
                    &&& j == self.spec_height() - 1 - self.spec_done() / (self.spec_width() as int)
                    &&& self@.len() == 4 * ((self.spec_height() - 1 - j) * self.spec_width() + i)
                    &&& self@.len() < image_bytes(
                        self.spec_width() as int,
                        self.spec_height() as int,
                    )
                },
                None => self@.len() == image_bytes(
                    self.spec_width() as int,
                    self.spec_height() as int,
                ),
            },
    {
        let done: u64 = (self.data.len() as u64) / 4;
        let width: u64 = self.width as u64;
        let height: u64 = self.height as u64;
        proof {
            assert(width * height <= 0xffff * 0xffff) by (nonlinear_arith)
                requires
                    width <= 0xffff,
                    height <= 0xffff,
            ;
            assert(width * height == self.spec_pixels()) by (nonlinear_arith)
                requires
                    width == self.spec_width(),
                    height == self.spec_height(),
            ;
            assert(4 * (width * height) == image_bytes(width as int, height as int))
                by (nonlinear_arith);
        }
        if done == width * height {
            return None;
        }
        let row: u64 = done / width;
        let column: u64 = done % width;
        proof {
            assert(done < width * height);
            assert(row < height) by (nonlinear_arith)
                requires
                    row == done / width,
                    done < width * height,
                    width > 0,
            ;
            assert(done == row * width + column) by (nonlinear_arith)
                requires
                    row == done / width,
                    column == done % width,
                    width > 0,
            ;
        }
        Some((column as u16, (height - 1 - row) as u16))
    }

    /// Whether every pixel has been laid down.
    pub fn is_complete(&self) -> (full: bool)
        requires
            self.well_formed(),
        ensures
            full == (self.spec_done() == self.spec_pixels()),
            full == (self@.len() == image_bytes(
                self.spec_width() as int,
                self.spec_height() as int,
            )),
    {
        self.next_pixel().is_none()
    }

    /// Lays down the next pixel. `scaled` holds its three channels, each
    /// already scaled by [`scale`]; each is truncated to a byte, and an opaque
    /// alpha follows them.
    pub fn push(&mut self, scaled: Vector3)
        requires
            old(self).well_formed(),
            old(self).spec_done() < old(self).spec_pixels(),
        ensures
            final(self)@ == old(self)@ + quad(scaled),
            final(self).spec_width() == old(self).spec_width(),
            final(self).spec_height() == old(self).spec_height(),
            final(self).spec_done() == old(self).spec_done() + 1,
            final(self).well_formed(),
    {
        proof {
            assert(4 * (self.spec_width() * self.spec_height()) == image_bytes(
                self.spec_width() as int,
                self.spec_height() as int,
            )) by (nonlinear_arith);
        }
        let ghost before = self.data@;
        self.data.push(scaled.x.to_byte());
        self.data.push(scaled.y.to_byte());
        self.data.push(scaled.z.to_byte());
        self.data.push(OPAQUE);
        proof {
            assert(self.data@ =~= before + quad(scaled));
            assert forall|at: int| 0 <= at < self@.len() && at % 4 == 3 implies #[trigger] self@[at]
                == OPAQUE by {
                if at < before.len() {
                    assert(self@[at] == before[at]);
                }
            }
        }
    }

    /// The bytes of the image: four for each pixel laid down, the fourth of
    /// them an opaque alpha.
    pub fn into_bytes(self) -> (bytes: Vec<u8>)
        ensures
            bytes@ == self@,
    {
        self.data
    }
}

/// The turn of the pixel in column `i` of the scan line `j`: the number of
/// pixels laid down before it.
pub open spec fn turn_of(width: int, height: int, i: int, j: int) -> int {
    (height - 1 - j) * width + i
}

/// Every pixel of the image has one turn, and [`Frame::next_pixel`] hands it
/// out at that turn: the turns of the pixels are the numbers below
/// `width * height`, and a frame with `turn_of(width, height, i, j)` pixels
/// laid down is at column `i` of the scan line `j`.
pub proof fn lemma_every_pixel_has_its_turn(width: int, height: int, i: int, j: int)
    requires
        0 <= i < width,
        0 <= j < height,
    ensures
        0 <= turn_of(width, height, i, j) < width * height,
        turn_of(width, height, i, j) % width == i,
        height - 1 - turn_of(width, height, i, j) / width == j,
{
    let row = height - 1 - j;
    assert(0 <= row * width + i < width * height) by (nonlinear_arith)
        requires
            0 <= row < height,
            0 <= i < width,
    ;
    vstd::arithmetic::div_mod::lemma_fundamental_div_mod_converse(row * width + i, width, row, i);
}

} // verus!
