//! Image preprocessing: an RGBA image becomes a `[batch, height, width, 3]` tensor of
//! the model's declared size, padded to a square, resized, channels in BGR order.
//!
//! Tensor values are the raw 8-bit channel values (no scaling); the inference side
//! reads each as a 32-bit float. The padding around an image that is not square is
//! black (all channels zero).
use vstd::prelude::*;
use vstd::string::StringExecFns;
use crate::config::ModelConfig;
use crate::error::{error_detail, TaggerError};
use crate::file::ArtifactSource;

verus! {

/// An image as it is seen through its view.
pub struct ImageView {
    pub width: nat,
    pub height: nat,
    /// RGBA bytes, row by row, four per pixel.
    pub pixels: Seq<u8>,
}

/// An image of 8-bit RGBA pixels, stored row by row.
#[derive(Debug)]
pub struct SourceImage {
    width: u32,
    height: u32,
    pixels: Vec<u8>,
}

impl View for SourceImage {
    type V = ImageView;

    closed spec fn view(&self) -> ImageView {
        ImageView { width: self.width as nat, height: self.height as nat, pixels: self.pixels@ }
    }
}

impl SourceImage {
    #[verifier::type_invariant]
    spec fn inv(&self) -> bool {
        self.pixels@.len() == self.width * self.height * 4
    }

    /// An image of `width` × `height` pixels from its RGBA bytes; `None` unless
    /// there are exactly four bytes per pixel.
    pub fn new(width: u32, height: u32, pixels: Vec<u8>) -> (r: Option<SourceImage>)
        ensures
            r is Some <==> pixels@.len() == width * height * 4,
            r matches Some(img) ==> img@ == (ImageView {
                width: width as nat,
                height: height as nat,
                pixels: pixels@,
            }),
    {
        assert(width as u128 * height as u128 <= 0xFFFF_FFFFu128 * 0xFFFF_FFFFu128) by (nonlinear_arith)
            requires
                width <= 0xFFFF_FFFFu32,
                height <= 0xFFFF_FFFFu32,
        ;
        let expected: u128 = width as u128 * height as u128 * 4;
        if pixels.len() as u128 == expected {
            Some(SourceImage { width, height, pixels })
        } else {
            None
        }
    }

    pub fn width(&self) -> (r: u32)
        ensures
            r == self@.width,
    {
        self.width
    }

    pub fn height(&self) -> (r: u32)
        ensures
            r == self@.height,
    {
        self.height
    }

    /// Every image holds four bytes per pixel.
    pub fn pixels(&self) -> (r: &Vec<u8>)
        ensures
            r@ == self@.pixels,
            r@.len() == self@.width * self@.height * 4,
    {
        proof {
            use_type_invariant(self);
        }
        &self.pixels
    }
}

/// A tensor as it is seen through its view.
pub struct TensorView {
    pub batch: nat,
    pub height: nat,
    pub width: nat,
    pub channels: nat,
    /// Values in `[batch, height, width, channel]` order.
    pub data: Seq<u8>,
}

/// A four-axis tensor `[batch, height, width, channel]` of raw channel values.
#[derive(Debug)]
pub struct ImageTensor {
    batch: usize,
    height: usize,
    width: usize,
    channels: usize,
    data: Vec<u8>,
}

impl View for ImageTensor {
    type V = TensorView;

    closed spec fn view(&self) -> TensorView {
        TensorView {
            batch: self.batch as nat,
            height: self.height as nat,
            width: self.width as nat,
            channels: self.channels as nat,
            data: self.data@,
        }
    }
}

impl ImageTensor {
    #[verifier::type_invariant]
    spec fn inv(&self) -> bool {
        self.data@.len() == self.batch * self.height * self.width * self.channels
    }

    pub fn batch(&self) -> (r: usize)
        ensures
            r == self@.batch,
    {
        self.batch
    }

    pub fn height(&self) -> (r: usize)
        ensures
            r == self@.height,
    {
        self.height
    }

    pub fn width(&self) -> (r: usize)
        ensures
            r == self@.width,
    {
        self.width
    }

    pub fn channels(&self) -> (r: usize)
        ensures
            r == self@.channels,
    {
        self.channels
    }

    /// The values, in `[batch, height, width, channel]` order.
    pub fn data(&self) -> (r: &Vec<u8>)
        ensures
            r@ == self@.data,
            r@.len() == self@.batch * self@.height * self@.width * self@.channels,
    {
        proof {
            use_type_invariant(self);
        }
        &self.data
    }
}

/// The side of the square canvas that holds an image.
pub open spec fn square_side(width: nat, height: nat) -> nat {
    if width >= height {
        width
    } else {
        height
    }
}

/// The padding before an extent centred in `side`: integer division rounds it down.
pub open spec fn pad_before(extent: nat, side: nat) -> int {
    (side - extent) / 2
}

/// The padding after an extent centred in `side`: what remains.
pub open spec fn pad_after(extent: nat, side: nat) -> int {
    side - extent - pad_before(extent, side)
}

/// Channel `k` of canvas pixel `(x, y)` once the image is centred on a black square.
pub open spec fn padded_value(img: ImageView, x: int, y: int, k: int) -> u8 {
    let side = square_side(img.width, img.height);
    let left = pad_before(img.width, side);
    let top = pad_before(img.height, side);
    if left <= x < left + img.width && top <= y < top + img.height {
        img.pixels[((y - top) * img.width + (x - left)) * 4 + k]
    } else {
        0
    }
}

/// The RGB bytes of the square canvas, row by row: the image centred on black, its
/// alpha dropped.
pub open spec fn padded_canvas(img: ImageView) -> Seq<u8> {
    let side = square_side(img.width, img.height);
    Seq::new(
        side * side * 3,
        |i: int| padded_value(img, (i / 3) % (side as int), (i / 3) / (side as int), i % 3),
    )
}

/// The side of a square image resized to fit `width` × `height` with its aspect ratio
/// kept; an empty image becomes one pixel.
pub open spec fn resized_side(side: nat, width: nat, height: nat) -> nat {
    if side == 0 {
        1
    } else if width <= height {
        width
    } else {
        height
    }
}

/// The RGB bytes that image's Catmull-Rom resize makes of a `side` × `side` RGB image
/// asked to fit `width` × `height`.
pub uninterp spec fn catmull_rom_resized(pixels: Seq<u8>, side: nat, width: nat, height: nat) -> Seq<u8>;

/// The `[height, width, 3]` tensor values of a resized square image of side `rs`
/// placed at the top left, channels reversed to BGR; zero where it does not reach.
pub open spec fn tensor_data(resized: Seq<u8>, rs: nat, width: nat, height: nat) -> Seq<u8> {
    Seq::new(
        height * width * 3,
        |i: int|
            {
                let x = (i / 3) % (width as int);
                let y = (i / 3) / (width as int);
                if x < rs && y < rs {
                    resized[(y * rs + x) * 3 + (2 - i % 3)]
                } else {
                    0
                }
            },
    )
}

/// Relies on image's `DynamicImage::resize` with the `CatmullRom` filter: it keeps the
/// aspect ratio, so a square RGB image comes back square, `min(width, height)` pixels
/// on a side (one pixel for an empty image), its pixels a function of the input and
/// the sizes asked for.
#[verifier::external_body]
fn resize_square(pixels: Vec<u8>, side: u32, width: u32, height: u32) -> (r: Vec<u8>)
    requires
        pixels@.len() == side * side * 3,
        width >= 1,
        height >= 1,
    ensures
        r@ == catmull_rom_resized(pixels@, side as nat, width as nat, height as nat),
        r@.len() == resized_side(side as nat, width as nat, height as nat) * resized_side(
            side as nat,
            width as nat,
            height as nat,
        ) * 3,
{
    let canvas = image::RgbImage::from_raw(side, side, pixels).unwrap();
    let resized = image::DynamicImage::ImageRgb8(canvas).resize(
        width,
        height,
        image::imageops::FilterType::CatmullRom,
    );
    resized.to_rgb8().into_raw()
}


/// The image centred on a black square canvas, as RGB bytes row by row.
fn pad_to_square(image: &SourceImage) -> (r: Vec<u8>)
    requires
        square_side(image@.width, image@.height) * square_side(image@.width, image@.height) * 3
            <= usize::MAX,
    ensures
        r@ == padded_canvas(image@),
{
    let pixels = image.pixels();
    let plen = pixels.len();
    let w = image.width() as usize;
    let h = image.height() as usize;
    let side: usize = if w >= h {
        w
    } else {
        h
    };
    let left = (side - w) / 2;
    let top = (side - h) / 2;
    assert(side * side * 3 <= usize::MAX);
    let total = side * side * 3;
    let ghost canvas = padded_canvas(image@);
    let mut out: Vec<u8> = Vec::new();
    let mut i: usize = 0;
    while i < total
        invariant
            i <= total,
            total == side * side * 3,
            total == canvas.len(),
            canvas == padded_canvas(image@),
            side == square_side(image@.width, image@.height),
            w == image@.width,
            h == image@.height,
            left == pad_before(image@.width, side as nat),
            top == pad_before(image@.height, side as nat),
            pixels@ == image@.pixels,
            pixels@.len() == w * h * 4,
            pixels@.len() == plen,
            out@ =~= canvas.subrange(0, i as int),
        decreases total - i,
    {
        let p = i / 3;
        let k = i % 3;
        assert(side > 0) by (nonlinear_arith)
            requires
                i < side * side * 3,
        ;
        let x = p % side;
        let y = p / side;
        assert(y < side) by (nonlinear_arith)
            requires
                p == i / 3,
                i < side * side * 3,
                y == p / side,
                side > 0,
        ;
        let v: u8 = if left <= x && x < left + w && top <= y && y < top + h {
            let a = y - top;
            let b = x - left;
            assert(0 <= (a * w + b) * 4 + k < w * h * 4 && a * w <= a * w + b && a * w + b <= (a * w + b) * 4) by (nonlinear_arith)
                requires
                    a < h,
                    b < w,
                    k < 3,
            ;

            pixels[(a * w + b) * 4 + k]
        } else {
            0
        };
        out.push(v);
        i = i + 1;
    }
    out
}

/// The `[height, width, 3]` values of a resized square image, channels reversed.
fn fill_tensor(resized: &Vec<u8>, rs: usize, width: usize, height: usize) -> (r: Vec<u8>)
    requires
        resized@.len() == rs * rs * 3,
        rs <= width,
        rs <= height,
        height * width * 3 <= usize::MAX,
    ensures
        r@ == tensor_data(resized@, rs as nat, width as nat, height as nat),
{
    let total = height * width * 3;
    let rlen = resized.len();
    let ghost data = tensor_data(resized@, rs as nat, width as nat, height as nat);
    let mut out: Vec<u8> = Vec::new();
    let mut i: usize = 0;
    while i < total
        invariant
            i <= total,
            total == height * width * 3,
            total == data.len(),
            data == tensor_data(resized@, rs as nat, width as nat, height as nat),
            resized@.len() == rs * rs * 3,
            resized@.len() == rlen,
            rs <= width,
            rs <= height,
            out@ =~= data.subrange(0, i as int),
        decreases total - i,
    {
        let p = i / 3;
        let c = i % 3;
        assert(width > 0) by (nonlinear_arith)
            requires
                i < height * width * 3,
        ;
        let x = p % width;
        let y = p / width;
        let v: u8 = if x < rs && y < rs {
            assert(0 <= (y * rs + x) * 3 + (2 - c) < rs * rs * 3 && y * rs <= y * rs + x && y * rs + x <= (y * rs + x) * 3) by (nonlinear_arith)
                requires
                    x < rs,
                    y < rs,
                    c < 3,
            ;

            resized[(y * rs + x) * 3 + (2 - c)]
        } else {
            0
        };
        out.push(v);
        i = i + 1;
    }
    out
}


/// The input shape a preprocessor produces.
pub struct PreprocessorView {
    pub channels: nat,
    pub height: nat,
    pub width: nat,
}

/// Whether a declared input shape can be produced: three channels, a height and
/// width of at least one pixel, and a tensor that fits in memory.
pub open spec fn accepts_shape(p: PreprocessorView) -> bool {
    &&& p.channels == 3
    &&& p.height >= 1
    &&& p.width >= 1
    &&& p.height * p.width * 3 <= usize::MAX
}

/// Whether the square canvas of an image fits in memory.
pub open spec fn canvas_fits(img: ImageView) -> bool {
    square_side(img.width, img.height) * square_side(img.width, img.height) * 3 <= usize::MAX
}

/// Why preprocessing an image fails, as the error's text; `None` where it succeeds.
pub open spec fn process_failure(p: PreprocessorView, img: ImageView) -> Option<Seq<char>> {
    if !(p.channels == 3 && p.height >= 1 && p.width >= 1) {
        Some("Invalid input size"@)
    } else if p.height * p.width * 3 > usize::MAX {
        Some("Input size too large"@)
    } else if !canvas_fits(img) {
        Some("Image too large"@)
    } else {
        None
    }
}

/// The failure of the first image of a batch that fails; `None` where none does.
pub open spec fn first_failure(p: PreprocessorView, imgs: Seq<ImageView>) -> Option<Seq<char>>
    decreases imgs.len(),
{
    if imgs.len() == 0 {
        None
    } else if process_failure(p, imgs[0]) is Some {
        process_failure(p, imgs[0])
    } else {
        first_failure(p, imgs.drop_first())
    }
}

/// The tensor of one image: batch of one, the declared height and width, three
/// channels.
pub open spec fn processed(p: PreprocessorView, img: ImageView) -> TensorView {
    let side = square_side(img.width, img.height);
    TensorView {
        batch: 1,
        height: p.height,
        width: p.width,
        channels: 3,
        data: tensor_data(
            catmull_rom_resized(padded_canvas(img), side, p.width, p.height),
            resized_side(side, p.width, p.height),
            p.width,
            p.height,
        ),
    }
}

/// The values of a batch: those of each image in turn.
pub open spec fn batch_data(p: PreprocessorView, imgs: Seq<ImageView>) -> Seq<u8>
    decreases imgs.len(),
{
    if imgs.len() == 0 {
        Seq::empty()
    } else {
        batch_data(p, imgs.drop_last()) + processed(p, imgs.last()).data
    }
}

/// The views of a list of images.
pub open spec fn images_view(images: Seq<SourceImage>) -> Seq<ImageView> {
    images.map_values(|i: SourceImage| i@)
}

/// Turns images into model input tensors of one declared shape.
#[derive(Debug, Clone)]
pub struct ImagePreprocessor {
    channels: u32,
    height: u32,
    width: u32,
}

impl View for ImagePreprocessor {
    type V = PreprocessorView;

    closed spec fn view(&self) -> PreprocessorView {
        PreprocessorView {
            channels: self.channels as nat,
            height: self.height as nat,
            width: self.width as nat,
        }
    }
}

impl ImagePreprocessor {
    pub fn new(channels: u32, height: u32, width: u32) -> (r: Self)
        ensures
            r@ == (PreprocessorView {
                channels: channels as nat,
                height: height as nat,
                width: width as nat,
            }),
    {
        ImagePreprocessor { channels, height, width }
    }

    /// The preprocessor of a model's declared `input_size` `[channels, height,
    /// width]`; a processor error unless it has exactly three entries, the first (the
    /// channel count) being 3.
    pub fn from_config(config: &ModelConfig) -> (r: Result<Self, TaggerError>)
        ensures
            r is Ok <==> config.pretrained_cfg.input_size@.len() == 3
                && config.pretrained_cfg.input_size@[0] == 3,
            r matches Ok(p) ==> p@ == (PreprocessorView {
                channels: config.pretrained_cfg.input_size@[0] as nat,
                height: config.pretrained_cfg.input_size@[1] as nat,
                width: config.pretrained_cfg.input_size@[2] as nat,
            }),
            r matches Err(e) ==> e is Processor,
    {
        let input_size = &config.pretrained_cfg.input_size;
        if input_size.len() != 3 {
            return Err(TaggerError::Processor(String::from_str("Invalid input size")));
        }
        if input_size[0] != 3 {
            return Err(TaggerError::Processor(String::from_str("Invalid channel count")));
        }
        Ok(ImagePreprocessor { channels: input_size[0], height: input_size[1], width: input_size[2] })
    }

    /// The preprocessor of repository `repo_id`, from its configuration as `source`
    /// provides it.
    pub fn from_pretrained<S: ArtifactSource>(repo_id: &str, source: &S) -> (r: Result<Self, TaggerError>)
        ensures
            r matches Ok(p) ==> exists|size: Seq<u32>|
                size.len() == 3 && size[0] == 3 && p@ == (PreprocessorView {
                    channels: size[0] as nat,
                    height: size[1] as nat,
                    width: size[2] as nat,
                }),
    {
        let config = ModelConfig::from_pretrained(repo_id, source)?;
        let r = Self::from_config(&config);
        assert(r matches Ok(p) ==> p@ == (PreprocessorView {
            channels: config.pretrained_cfg.input_size@[0] as nat,
            height: config.pretrained_cfg.input_size@[1] as nat,
            width: config.pretrained_cfg.input_size@[2] as nat,
        }));
        r
    }

    /// Preprocesses one image: its alpha dropped, centred on a black square of side
    /// `max(width, height)`, resized with image's Catmull-Rom filter to fit the
    /// declared size, then laid out as `[1, height, width, 3]` in BGR order. Fails with
    /// a processor error where the declared shape cannot be produced or the canvas
    /// does not fit in memory.
    pub fn process(&self, image: &SourceImage) -> (r: Result<ImageTensor, TaggerError>)
        ensures
            r is Ok <==> accepts_shape(self@) && canvas_fits(image@),
            r is Ok <==> process_failure(self@, image@) is None,
            r matches Ok(t) ==> t@ == processed(self@, image@),
            r matches Err(e) ==> e is Processor && error_detail(e) == process_failure(self@, image@)->0,
    {
        if !(self.channels == 3 && self.height >= 1 && self.width >= 1) {
            return Err(TaggerError::Processor(String::from_str("Invalid input size")));
        }
        assert(self.height as u128 * self.width as u128 <= 0xFFFF_FFFFu128 * 0xFFFF_FFFFu128) by (nonlinear_arith)
            requires
                self.height <= 0xFFFF_FFFFu32,
                self.width <= 0xFFFF_FFFFu32,
        ;
        if self.height as u128 * self.width as u128 * 3 > usize::MAX as u128 {
            return Err(TaggerError::Processor(String::from_str("Input size too large")));
        }
        let iw = image.width();
        let ih = image.height();
        let side: u32 = if iw >= ih {
            iw
        } else {
            ih
        };
        assert(side as u128 * side as u128 <= 0xFFFF_FFFFu128 * 0xFFFF_FFFFu128) by (nonlinear_arith)
            requires
                side <= 0xFFFF_FFFFu32,
        ;
        if side as u128 * side as u128 * 3 > usize::MAX as u128 {
            return Err(TaggerError::Processor(String::from_str("Image too large")));
        }
        let canvas = pad_to_square(image);
        let height = self.height as usize;
        let width = self.width as usize;
        let resized = resize_square(canvas, side, self.width, self.height);
        let rs: usize = if side == 0 {
            1
        } else if self.width <= self.height {
            width
        } else {
            height
        };
        let data = fill_tensor(&resized, rs, width, height);
        assert(data@.len() == 1 * height * width * 3);
        Ok(ImageTensor { batch: 1, height, width, channels: 3, data })
    }

    /// Preprocesses a batch: each image as `process` does it, the tensors joined along
    /// the batch axis in order. Fails as a whole, with the first image's error, where
    /// one image fails; an empty batch is a processor error.
    pub fn process_batch(&self, images: Vec<SourceImage>) -> (r: Result<ImageTensor, TaggerError>)
        ensures
            r is Ok <==> images@.len() > 0 && accepts_shape(self@) && forall|k: int|
                0 <= k < images@.len() ==> canvas_fits(#[trigger] images@[k]@),
            r matches Ok(t) ==> t@ == (TensorView {
                batch: images@.len(),
                height: self@.height,
                width: self@.width,
                channels: 3,
                data: batch_data(self@, images_view(images@)),
            }),
            r matches Err(e) ==> e is Processor && error_detail(e) == if images@.len() == 0 {
                "Failed to process batch"@
            } else {
                first_failure(self@, images_view(images@))->0
            },
    {
        let ghost imgs = images_view(images@);
        assert(imgs.subrange(0, imgs.len() as int) =~= imgs);
        let mut data: Vec<u8> = Vec::new();
        let mut k: usize = 0;
        while k < images.len()
            invariant
                k <= images@.len(),
                imgs == images_view(images@),
                forall|j: int| 0 <= j < k ==> canvas_fits(#[trigger] images@[j]@),
                k > 0 ==> accepts_shape(self@),
                data@ == batch_data(self@, imgs.subrange(0, k as int)),
                first_failure(self@, imgs) == first_failure(self@, imgs.subrange(k as int, imgs.len() as int)),
            decreases images.len() - k,
        {
            let ghost rest = imgs.subrange(k as int, imgs.len() as int);
            assert(rest[0] == images@[k as int]@);
            assert(rest.drop_first() =~= imgs.subrange(k + 1, imgs.len() as int));
            let t = self.process(&images[k]);
            match t {
                Err(e) => {
                    return Err(e);
                },
                Ok(t) => {
                    proof {
                        use_type_invariant(&t);
                    }
                    let mut d = t.data;
                    data.append(&mut d);
                    assert(imgs.subrange(0, k + 1).drop_last() =~= imgs.subrange(0, k as int));
                },
            }
            k = k + 1;
        }
        if images.len() == 0 {
            return Err(TaggerError::Processor(String::from_str("Failed to process batch")));
        }
        assert(imgs.subrange(images@.len() as int, imgs.len() as int) =~= Seq::<ImageView>::empty());
        assert(imgs.subrange(0, images@.len() as int) =~= imgs);
        proof {
            lemma_batch_len(self@, imgs);
            let n = imgs.len();
            let h = self.height as nat;
            let w = self.width as nat;
            assert(n * (h * w * 3) == n * h * w * 3) by (nonlinear_arith);
        }
        Ok(
            ImageTensor {
                batch: images.len(),
                height: self.height as usize,
                width: self.width as usize,
                channels: 3,
                data,
            },
        )
    }
}

/// Every image that preprocesses gives a tensor of the declared shape: a batch of
/// one, the declared height and width, three channels, one value per entry.
pub proof fn lemma_processed_shape(p: PreprocessorView, img: ImageView)
    requires
        accepts_shape(p),
    ensures
        processed(p, img).batch == 1,
        processed(p, img).height == p.height,
        processed(p, img).width == p.width,
        processed(p, img).channels == 3,
        processed(p, img).data.len() == p.height * p.width * 3,
{
}

/// The values of one image sit at its own place in the values of a batch: image `k`
/// of a batch fills positions `k * S` to `(k + 1) * S`, `S` being the size of one
/// image's tensor, with exactly the values that preprocessing it alone gives.
pub proof fn lemma_batch_slice(p: PreprocessorView, imgs: Seq<ImageView>, k: int)
    requires
        0 <= k < imgs.len(),
    ensures
        batch_data(p, imgs).len() == imgs.len() * (p.height * p.width * 3),
        batch_data(p, imgs).subrange(
            k * (p.height * p.width * 3),
            (k + 1) * (p.height * p.width * 3),
        ) == processed(p, imgs[k]).data,
    decreases imgs.len(),
{
    let size = p.height * p.width * 3;
    lemma_batch_len(p, imgs);
    let prefix = batch_data(p, imgs.drop_last());
    lemma_batch_len(p, imgs.drop_last());
    assert(prefix.len() == (imgs.len() - 1) * size) by (nonlinear_arith)
        requires
            prefix.len() == (imgs.len() - 1) as nat * size,
            imgs.len() >= 1,
    ;
    assert(k * size + size == (k + 1) * size) by (nonlinear_arith);
    if k == imgs.len() - 1 {
        assert(batch_data(p, imgs).subrange(k * size, (k + 1) * size) =~= processed(p, imgs[k]).data);
    } else {
        lemma_batch_slice(p, imgs.drop_last(), k);
        assert(0 <= k * size && (k + 1) * size <= (imgs.len() - 1) * size) by (nonlinear_arith)
            requires
                0 <= k < imgs.len() - 1,
        ;
        assert(batch_data(p, imgs).subrange(k * size, (k + 1) * size) =~= prefix.subrange(
            k * size,
            (k + 1) * size,
        ));
        assert(imgs.drop_last()[k] == imgs[k]);
    }
}

proof fn lemma_batch_len(p: PreprocessorView, imgs: Seq<ImageView>)
    ensures
        batch_data(p, imgs).len() == imgs.len() * (p.height * p.width * 3),
    decreases imgs.len(),
{
    if imgs.len() > 0 {
        lemma_batch_len(p, imgs.drop_last());
        let size = p.height * p.width * 3;
        assert((imgs.len() - 1) as nat * size + size == imgs.len() * size) by (nonlinear_arith)
            requires
                imgs.len() >= 1,
        ;
    }
}

/// Centring pads symmetrically: on each axis the padding before the image and after
/// it differ by at most one pixel (the one that integer division leaves over goes
/// after), and together with the image they make up the square's side.
pub proof fn lemma_padding_symmetric(width: nat, height: nat)
    ensures
        ({
            let side = square_side(width, height);
            &&& 0 <= pad_before(width, side) <= pad_after(width, side) <= pad_before(width, side) + 1
            &&& 0 <= pad_before(height, side) <= pad_after(height, side) <= pad_before(height, side) + 1
            &&& pad_before(width, side) + width + pad_after(width, side) == side
            &&& pad_before(height, side) + height + pad_after(height, side) == side
        }),
{
}

} // verus!
