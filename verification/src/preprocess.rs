//! From a decoded raster to the network's input, byte for byte.
//!
//! The network was trained on images resized with the nearest-neighbour
//! filter, so that filter is the only one used here. The input tensor has the
//! fixed shape (1, 3, 224, 224): one batch entry, three channels, channel
//! first. Each of its values is `(2 * level - 255) / 255` for an 8-bit level,
//! which is the level scaled to the unit interval and then normalised with
//! mean and deviation one half; the tensor keeps the levels, and the fraction
//! is exact.

use image::imageops::FilterType;
use image::DynamicImage;
use image::ImageBuffer;
use vstd::arithmetic::div_mod::lemma_fundamental_div_mod_converse;
use vstd::pervasive::unreached;
use vstd::prelude::*;

verus! {

/// Side of the square the network takes, in pixels.
pub const INPUT_SIDE: u32 = 224;

/// Number of values in an input tensor: three channels of `INPUT_SIDE`
/// squared.
pub const INPUT_LEN: usize = 150528;

/// Denominator of every tensor value.
pub const VALUE_DENOMINATOR: i32 = 255;

/// How the bytes of a raster are grouped into pixels.
#[derive(Debug, Clone, Copy, PartialEq, Eq, Structural)]
pub enum ChannelLayout {
    /// Red, green, blue.
    Rgb,
    /// Red, green, blue, alpha.
    Rgba,
}

impl ChannelLayout {
    /// Bytes per pixel.
    pub open spec fn spec_channels(self) -> nat {
        match self {
            ChannelLayout::Rgb => 3,
            ChannelLayout::Rgba => 4,
        }
    }

    /// Bytes per pixel.
    pub fn channels(self) -> (n: usize)
        ensures
            n == self.spec_channels(),
    {
        match self {
            ChannelLayout::Rgb => 3,
            ChannelLayout::Rgba => 4,
        }
    }
}

/// A buffer of `len` bytes holds a `width` by `height` raster in `layout`.
pub open spec fn raster_fits(layout: ChannelLayout, width: u32, height: u32, len: nat) -> bool {
    layout.spec_channels() * width * height <= len
}

/// A raster of this width can be resampled to the input height: the buffer of
/// four-channel pixels needed on the way can be addressed. This holds of
/// every width where addresses have 64 bits.
pub open spec fn resizable(width: u32) -> bool {
    4 * width * INPUT_SIDE <= usize::MAX
}

/// A decoded raster: 8-bit channels, rows from the top, pixels from the left.
/// Its buffer always holds the whole raster, and it can be resampled.
pub struct RawImage {
    layout: ChannelLayout,
    width: u32,
    height: u32,
    pixels: Vec<u8>,
}

impl RawImage {
    #[verifier::type_invariant]
    spec fn fits(self) -> bool {
        &&& raster_fits(self.layout, self.width, self.height, self.pixels@.len())
        &&& resizable(self.width)
    }

    pub closed spec fn spec_layout(self) -> ChannelLayout {
        self.layout
    }

    pub closed spec fn spec_width(self) -> u32 {
        self.width
    }

    pub closed spec fn spec_height(self) -> u32 {
        self.height
    }

    /// The bytes of the buffer.
    pub closed spec fn spec_pixels(self) -> Seq<u8> {
        self.pixels@
    }

    /// Wraps a buffer as a raster. Returns `None` exactly when the buffer is
    /// too short for the dimensions or the raster is too wide to be
    /// resampled; a longer buffer is kept as it is.
    pub fn from_raw(layout: ChannelLayout, width: u32, height: u32, pixels: Vec<u8>) -> (img:
        Option<RawImage>)
        ensures
            img is Some <==> raster_fits(layout, width, height, pixels@.len()) && resizable(width),
            img matches Some(i) ==> {
                &&& i.spec_layout() == layout
                &&& i.spec_width() == width
                &&& i.spec_height() == height
                &&& i.spec_pixels() == pixels@
            },
    {
        let len: usize = pixels.len();
        let channels: u64 = layout.channels() as u64;
        assert(channels * width <= 4 * 0xffff_ffff) by (nonlinear_arith)
            requires
                channels <= 4,
                width <= 0xffff_ffff,
        ;
        let row: u64 = channels * (width as u64);
        assert(row * height <= 4 * 0xffff_ffff * 0xffff_ffff) by (nonlinear_arith)
            requires
                row <= 4 * 0xffff_ffff,
                height <= 0xffff_ffff,
        ;
        let needed: u128 = (row as u128) * (height as u128);
        let widest: u64 = (usize::MAX as u64) / 896;
        if needed <= len as u128 && width as u64 <= widest {
            Some(RawImage { layout, width, height, pixels })
        } else {
            None
        }
    }

    pub fn layout(&self) -> (l: ChannelLayout)
        ensures
            l == self.spec_layout(),
    {
        self.layout
    }

    pub fn width(&self) -> (w: u32)
        ensures
            w == self.spec_width(),
    {
        self.width
    }

    pub fn height(&self) -> (h: u32)
        ensures
            h == self.spec_height(),
    {
        self.height
    }

    /// The bytes of the buffer.
    pub fn as_raw(&self) -> (bytes: &Vec<u8>)
        ensures
            bytes@ == self.spec_pixels(),
            raster_fits(self.spec_layout(), self.spec_width(), self.spec_height(), bytes@.len()),
            resizable(self.spec_width()),
    {
        proof {
            use_type_invariant(self);
        }
        &self.pixels
    }
}

/// The bytes of the three-channel raster that resizing the given raster to
/// `nwidth` by `nheight` with the nearest-neighbour filter yields.
pub uninterp spec fn nearest_rgb(
    rgba: bool,
    width: u32,
    height: u32,
    pixels: Seq<u8>,
    nwidth: u32,
    nheight: u32,
) -> Seq<u8>;

/// Resizes a raster with `image::DynamicImage::resize_exact` and the filter
/// `Nearest`, then strips it to three 8-bit channels with `to_rgb8`.
///
/// The resampling is not written out here; its result is named. What is
/// claimed beyond the name is the length of the buffer that comes back: three
/// bytes for each pixel of the new size. The bounds keep the buffers that the
/// resampling allocates within the address space.
#[verifier::external_body]
fn resize_nearest_rgb(
    layout: ChannelLayout,
    width: u32,
    height: u32,
    pixels: &Vec<u8>,
    nwidth: u32,
    nheight: u32,
) -> (out: Vec<u8>)
    requires
        raster_fits(layout, width, height, pixels@.len()),
        4 * width * nheight <= usize::MAX,
        4 * nwidth * nheight <= usize::MAX,
    ensures
        out@ == nearest_rgb(layout == ChannelLayout::Rgba, width, height, pixels@, nwidth, nheight),
        out@.len() == 3 * nwidth * nheight,
{
    let image = match layout {
        ChannelLayout::Rgb => DynamicImage::ImageRgb8(
            ImageBuffer::from_raw(width, height, pixels.clone()).unwrap(),
        ),
        ChannelLayout::Rgba => DynamicImage::ImageRgba8(
            ImageBuffer::from_raw(width, height, pixels.clone()).unwrap(),
        ),
    };
    image.resize_exact(nwidth, nheight, FilterType::Nearest).to_rgb8().into_raw()
}

/// The channel-first arrangement of an interleaved three-channel raster of
/// `area` pixels: all red bytes, then all green, then all blue.
pub open spec fn channel_first(rgb: Seq<u8>, area: nat) -> Seq<u8> {
    Seq::new(3 * area, |i: int| rgb[(i % area as int) * 3 + i / area as int])
}

/// Rearranges an interleaved three-channel raster into channel-first order.
/// Returns `None` exactly when the buffer is too short for the dimensions.
pub fn rgb_to_array(rgb: &Vec<u8>, width: u32, height: u32) -> (out: Option<Vec<u8>>)
    ensures
        out is Some <==> 3 * width * height <= rgb@.len(),
        out matches Some(planes) ==> planes@ == channel_first(rgb@, (width * height) as nat),
{
    let len: usize = rgb.len();
    assert(width * height <= 0xffff_ffff * 0xffff_ffff) by (nonlinear_arith)
        requires
            width <= 0xffff_ffff,
            height <= 0xffff_ffff,
    ;
    let area_wide: u64 = (width as u64) * (height as u64);
    assert(3 * width * height == 3 * (width * height)) by (nonlinear_arith);
    if area_wide > (len as u64) / 3 {
        return None;
    }
    let area: usize = area_wide as usize;
    let mut planes: Vec<u8> = Vec::new();
    let mut c: usize = 0;
    while c < 3
        invariant
            c <= 3,
            area == width * height,
            3 * area <= rgb@.len(),
            rgb@.len() == len,
            planes@.len() == c * area,
            forall|i: int|
                0 <= i < planes@.len() ==> planes@[i] == rgb@[(i % area as int) * 3 + i
                    / area as int],
        decreases 3 - c,
    {
        let mut p: usize = 0;
        while p < area
            invariant
                c < 3,
                p <= area,
                area == width * height,
                3 * area <= rgb@.len(),
                rgb@.len() == len,
                planes@.len() == c * area + p,
                forall|i: int|
                    0 <= i < planes@.len() ==> planes@[i] == rgb@[(i % area as int) * 3 + i
                        / area as int],
            decreases area - p,
        {
            proof {
                lemma_fundamental_div_mod_converse(c * area + p, area as int, c as int, p as int);
            }
            planes.push(rgb[p * 3 + c]);
            p += 1;
        }
        c += 1;
        assert(c * area == (c - 1) * area + area) by (nonlinear_arith);
    }
    assert(planes@ =~= channel_first(rgb@, (width * height) as nat));
    Some(planes)
}

/// The numerator of the tensor value for an 8-bit level, over
/// `VALUE_DENOMINATOR`.
pub open spec fn value_numerator(level: u8) -> int {
    2 * level - 255
}

/// The network's input: 8-bit levels in channel-first order, for the fixed
/// shape (1, 3, 224, 224).
pub struct PixelTensor {
    levels: Vec<u8>,
}

impl PixelTensor {
    #[verifier::type_invariant]
    spec fn full(self) -> bool {
        self.levels@.len() == INPUT_LEN
    }

    /// The levels, channel by channel, row by row.
    pub closed spec fn view(self) -> Seq<u8> {
        self.levels@
    }

    /// The lengths of the four axes: batch, channel, row, column.
    pub fn shape(&self) -> (dims: [usize; 4])
        ensures
            dims@ == seq![1usize, 3usize, 224usize, 224usize],
            dims[0] * dims[1] * dims[2] * dims[3] == self.view().len(),
    {
        proof {
            use_type_invariant(self);
        }
        [1, 3, 224, 224]
    }

    /// The levels, channel by channel, row by row.
    pub fn levels(&self) -> (levels: &Vec<u8>)
        ensures
            levels@ == self.view(),
            levels@.len() == INPUT_LEN,
    {
        proof {
            use_type_invariant(self);
        }
        &self.levels
    }

    /// The numerator of the value at `index`; the value is this over
    /// `VALUE_DENOMINATOR`, and so lies between minus one and one.
    pub fn numerator(&self, index: usize) -> (n: i32)
        requires
            index < INPUT_LEN,
        ensures
            n == value_numerator(self.view()[index as int]),
            -VALUE_DENOMINATOR <= n <= VALUE_DENOMINATOR,
    {
        proof {
            use_type_invariant(self);
        }
        2 * (self.levels[index] as i32) - 255
    }
}

/// The input tensor that the network sees for `img`.
pub open spec fn preprocessed(img: RawImage) -> Seq<u8> {
    channel_first(
        nearest_rgb(
            img.spec_layout() == ChannelLayout::Rgba,
            img.spec_width(),
            img.spec_height(),
            img.spec_pixels(),
            INPUT_SIDE,
            INPUT_SIDE,
        ),
        (INPUT_SIDE * INPUT_SIDE) as nat,
    )
}

/// Prepares a raster for the network: resized to 224 by 224 with the
/// nearest-neighbour filter, stripped to three channels, laid out channel
/// first. Never fails.
pub fn preprocess_image(img: &RawImage) -> (tensor: PixelTensor)
    ensures
        tensor.view() == preprocessed(*img),
        tensor.view().len() == INPUT_LEN,
        forall|i: int|
            0 <= i < tensor.view().len() ==> -VALUE_DENOMINATOR <= value_numerator(
                #[trigger] tensor.view()[i],
            ) <= VALUE_DENOMINATOR,
{
    let pixels = img.as_raw();
    let resized = resize_nearest_rgb(
        img.layout(),
        img.width(),
        img.height(),
        pixels,
        INPUT_SIDE,
        INPUT_SIDE,
    );
    match rgb_to_array(&resized, INPUT_SIDE, INPUT_SIDE) {
        Some(levels) => PixelTensor { levels },
        None => unreached(),
    }
}

} // verus!
