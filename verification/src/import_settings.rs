//! What the importers make of a file's extension and of the parameters in its import file. A
//! parameter is absent where the import file does not give it or gives it in another type.

use crate::importers::GodotError;
use crate::paths::extension;
use crate::text::{begins_with, same_text};
use vstd::arithmetic::div_mod::{lemma_div_multiples_vanish_fancy, lemma_fundamental_div_mod};
use vstd::arithmetic::mul::lemma_mul_is_commutative;
use vstd::prelude::*;
use vstd::string::*;

verus! {

/// A parameter, or its default where it is absent.
pub fn get_or_default<T: Copy>(value: Option<T>, default: T) -> (r: T)
    ensures
        r == match value {
            Some(v) => v,
            None => default,
        },
{
    match value {
        Some(v) => v,
        None => default,
    }
}

/// How an image is read.
#[derive(Clone, Copy, Debug, PartialEq, Eq, Structural)]
pub enum ImageSource {
    Png,
    Jpg,
    Bmp,
    Webp,
    Tga,
    Ktx,
    Dds,
    Svg,
    /// From a temporary file that the bytes are written to.
    TempFile,
    /// From the file at its own path.
    OwnPath,
}

/// How an image with the given extension, in lower case, at the given path is read.
pub open spec fn image_source(ext: Seq<char>, path: Seq<char>) -> ImageSource {
    if ext == "png"@ {
        ImageSource::Png
    } else if ext == "jpg"@ {
        ImageSource::Jpg
    } else if ext == "bmp"@ {
        ImageSource::Bmp
    } else if ext == "webp"@ {
        ImageSource::Webp
    } else if ext == "tga"@ {
        ImageSource::Tga
    } else if ext == "ktx"@ {
        ImageSource::Ktx
    } else if ext == "dds"@ {
        ImageSource::Dds
    } else if ext == "svg"@ {
        ImageSource::Svg
    } else if path == "patchwork"@ || "patchwork/"@.is_prefix_of(path) {
        ImageSource::TempFile
    } else {
        ImageSource::OwnPath
    }
}

/// How an image with the given extension, in lower case, at the given path is read.
pub fn image_source_of(ext: &str, path: &str) -> (r: ImageSource)
    ensures
        r == image_source(ext@, path@),
{
    if same_text(ext, "png") {
        ImageSource::Png
    } else if same_text(ext, "jpg") {
        ImageSource::Jpg
    } else if same_text(ext, "bmp") {
        ImageSource::Bmp
    } else if same_text(ext, "webp") {
        ImageSource::Webp
    } else if same_text(ext, "tga") {
        ImageSource::Tga
    } else if same_text(ext, "ktx") {
        ImageSource::Ktx
    } else if same_text(ext, "dds") {
        ImageSource::Dds
    } else if same_text(ext, "svg") {
        ImageSource::Svg
    } else if same_text(path, "patchwork") || begins_with(path, "patchwork/") {
        ImageSource::TempFile
    } else {
        ImageSource::OwnPath
    }
}

/// How the image at a path is read.
pub fn load_image_from_buffer(path: &str) -> (r: ImageSource)
    ensures
        r == image_source(crate::importers::lower_extension(path@), path@),
{
    let ext = crate::importers::get_extension(path);
    image_source_of(ext.as_str(), path)
}

/// The parameters of a texture with layers.
#[derive(Clone, Copy, Debug)]
pub struct LayerParams {
    pub arrangement: Option<i32>,
    pub horizontal: Option<i32>,
    pub vertical: Option<i32>,
    pub layout: Option<i32>,
    pub amount: Option<i32>,
    pub mipmaps_limit: Option<i32>,
}

/// How many slices of a cubemap stand side by side and one above the other.
pub open spec fn slice_arrangement(arrangement: Option<i32>) -> (int, int) {
    match arrangement {
        Some(0) => (1, 6),
        Some(2) => (3, 2),
        Some(3) => (6, 1),
        _ => (2, 3),
    }
}

/// How many slices of a cubemap stand side by side and one above the other.
pub fn get_slice_arrangement(arrangement: Option<i32>) -> (r: (i32, i32))
    ensures
        (r.0 as int, r.1 as int) == slice_arrangement(arrangement),
{
    let layout: i32 = get_or_default(arrangement, 1);
    if layout == 0 {
        (1, 6)
    } else if layout == 2 {
        (3, 2)
    } else if layout == 3 {
        (6, 1)
    } else {
        (2, 3)
    }
}

/// The parameter, or one where it is absent.
pub open spec fn or_one(value: Option<i32>) -> int {
    match value {
        Some(v) => v as int,
        None => 1,
    }
}

/// How many slices of an image stand side by side and one above the other.
pub open spec fn slice_counts(importer_name: Seq<char>, params: LayerParams) -> (int, int) {
    if importer_name == "cubemap_texture"@ {
        slice_arrangement(params.arrangement)
    } else if importer_name == "2d_array_texture"@ || importer_name == "3d_texture"@ {
        (or_one(params.horizontal), or_one(params.vertical))
    } else if importer_name == "cubemap_array_texture"@ {
        let (x, y) = slice_arrangement(params.arrangement);
        if or_one(params.layout) == 0 {
            (x * or_one(params.amount), y)
        } else {
            (x, y * or_one(params.amount))
        }
    } else {
        (1, 1)
    }
}

/// How many slices of an image stand side by side and one above the other; nothing where there
/// are too many to count.
pub fn get_width_and_height_from_params(importer_name: &str, params: &LayerParams) -> (r: Option<
    (i32, i32),
>)
    ensures
        ({
            let (x, y) = slice_counts(importer_name@, *params);
            if i32::MIN <= x <= i32::MAX && i32::MIN <= y <= i32::MAX {
                r matches Some((a, b)) && a == x && b == y
            } else {
                r is None
            }
        }),
{
    if same_text(importer_name, "cubemap_texture") {
        Some(get_slice_arrangement(params.arrangement))
    } else if same_text(importer_name, "2d_array_texture") || same_text(
        importer_name,
        "3d_texture",
    ) {
        let x: i32 = get_or_default(params.horizontal, 1);
        let y: i32 = get_or_default(params.vertical, 1);
        Some((x, y))
    } else if same_text(importer_name, "cubemap_array_texture") {
        let (x, y): (i32, i32) = get_slice_arrangement(params.arrangement);
        let layout: i32 = get_or_default(params.layout, 1);
        let amount: i32 = get_or_default(params.amount, 1);
        if layout == 0 {
            match x.checked_mul(amount) {
                Some(wide) => Some((wide, y)),
                None => None,
            }
        } else {
            match y.checked_mul(amount) {
                Some(high) => Some((x, high)),
                None => None,
            }
        }
    } else {
        Some((1, 1))
    }
}

/// A part of an image.
#[derive(Clone, Copy, Debug, PartialEq, Eq, Structural)]
pub struct Region {
    pub x: i32,
    pub y: i32,
    pub width: i32,
    pub height: i32,
}

/// Slice number `k` of an image that is cut into `x` slices side by side and `y` one above the
/// other: the slices are counted row by row.
pub open spec fn slice(width: int, height: int, x: int, y: int, k: int) -> Region {
    Region {
        x: ((k % x) * (width / x)) as i32,
        y: ((k / x) * (height / y)) as i32,
        width: (width / x) as i32,
        height: (height / y) as i32,
    }
}

/// The slices of an image; none where the count in either direction is negative.
pub open spec fn slices(width: int, height: int, x: int, y: int) -> Seq<Region> {
    if x > 0 && y > 0 {
        Seq::new((x * y) as nat, |k: int| slice(width, height, x, y, k))
    } else {
        Seq::empty()
    }
}

proof fn lemma_row_and_column(i: int, j: int, x: int)
    requires
        0 <= j < x,
        0 <= i,
    ensures
        (i * x + j) % x == j,
        (i * x + j) / x == i,
{
    lemma_div_multiples_vanish_fancy(i, j, x);
    lemma_fundamental_div_mod(i * x + j, x);
    lemma_mul_is_commutative(i, x);
}

proof fn lemma_slice_fits(width: int, x: int, j: int)
    requires
        0 <= width,
        0 <= j < x,
    ensures
        0 <= j * (width / x) <= width,
        0 <= width / x <= width,
{
    assert(0 <= width / x && (width / x) * x <= width && width / x <= width) by (nonlinear_arith)
        requires
            0 <= width,
            0 < x,
    ;
    assert(0 <= j * (width / x) <= (width / x) * x) by (nonlinear_arith)
        requires
            0 <= j < x,
            0 <= width / x,
    ;
}

/// The slices of an image that is cut into `x` slices side by side and `y` one above the other.
pub fn get_image_slices_from_image(width: i32, height: i32, x: i32, y: i32) -> (r: Vec<Region>)
    requires
        0 <= width,
        0 <= height,
        x != 0,
        y != 0,
    ensures
        r@ == slices(width as int, height as int, x as int, y as int),
{
    let mut out: Vec<Region> = Vec::new();
    if x < 0 || y < 0 {
        return out;
    }
    let slice_w: i32 = width / x;
    let slice_h: i32 = height / y;
    let mut i: i32 = 0;
    while i < y
        invariant
            0 < x,
            0 <= i <= y,
            0 <= width,
            0 <= height,
            slice_w == width as int / x as int,
            slice_h == height as int / y as int,
            out.len() == i * x,
            forall|k: int|
                0 <= k < out.len() ==> #[trigger] out@[k] == slice(
                    width as int,
                    height as int,
                    x as int,
                    y as int,
                    k,
                ),
        decreases y - i,
    {
        let mut j: i32 = 0;
        while j < x
            invariant
                0 <= j <= x,
                0 <= i < y,
                0 < x,
                0 <= width,
                0 <= height,
                slice_w == width as int / x as int,
                slice_h == height as int / y as int,
                out.len() == i * x + j,
                forall|k: int|
                    0 <= k < out.len() ==> #[trigger] out@[k] == slice(
                        width as int,
                        height as int,
                        x as int,
                        y as int,
                        k,
                    ),
            decreases x - j,
        {
            proof {
                lemma_slice_fits(width as int, x as int, j as int);
                lemma_slice_fits(height as int, y as int, i as int);
                lemma_row_and_column(i as int, j as int, x as int);
            }
            out.push(Region { x: j * slice_w, y: i * slice_h, width: slice_w, height: slice_h });
            j = j + 1;
        }
        assert(i * x + x == (i + 1) * x) by (nonlinear_arith);
        i = i + 1;
    }
    proof {
        lemma_mul_is_commutative(x as int, y as int);
        assert(out@ =~= slices(width as int, height as int, x as int, y as int));
    }
    out
}

/// The slices of an image do not overlap and stay inside it.
pub proof fn slices_stay_inside(width: int, height: int, x: int, y: int, k: int)
    requires
        0 <= width <= i32::MAX,
        0 <= height <= i32::MAX,
        0 < x,
        0 < y,
        0 <= k < slices(width, height, x, y).len(),
    ensures
        ({
            let part = slices(width, height, x, y)[k];
            0 <= part.x && part.x + part.width <= width && 0 <= part.y && part.y + part.height
                <= height
        }),
        forall|m: int|
            0 <= m < slices(width, height, x, y).len() && m != k ==> ({
                let part = slices(width, height, x, y)[k];
                let other = #[trigger] slices(width, height, x, y)[m];
                part.x + part.width <= other.x || other.x + other.width <= part.x || part.y
                    + part.height <= other.y || other.y + other.height <= part.y
            }),
{
    let w = width / x;
    let h = height / y;
    lemma_cell(width, height, x, y, k);
    assert forall|m: int| 0 <= m < slices(width, height, x, y).len() && m != k implies ({
        let part = slices(width, height, x, y)[k];
        let other = #[trigger] slices(width, height, x, y)[m];
        part.x + part.width <= other.x || other.x + other.width <= part.x || part.y + part.height
            <= other.y || other.y + other.height <= part.y
    }) by {
        lemma_cell(width, height, x, y, m);
        lemma_fundamental_div_mod(k, x);
        lemma_fundamental_div_mod(m, x);
        if k / x == m / x {
            lemma_apart(k % x, m % x, w);
        } else {
            lemma_apart(k / x, m / x, h);
        }
    }
}

/// Where a slice lies.
proof fn lemma_cell(width: int, height: int, x: int, y: int, k: int)
    requires
        0 <= width <= i32::MAX,
        0 <= height <= i32::MAX,
        0 < x,
        0 < y,
        0 <= k < x * y,
    ensures
        ({
            let part = slice(width, height, x, y, k);
            &&& part.x == (k % x) * (width / x)
            &&& part.y == (k / x) * (height / y)
            &&& part.width == width / x
            &&& part.height == height / y
            &&& 0 <= part.x
            &&& part.x + part.width <= width
            &&& 0 <= part.y
            &&& part.y + part.height <= height
        }),
{
    let j = k % x;
    let i = k / x;
    assert(0 <= j < x && 0 <= i < y) by (nonlinear_arith)
        requires
            0 < x,
            0 < y,
            0 <= k < x * y,
            j == k % x,
            i == k / x,
    ;
    lemma_slice_fits(width, x, j);
    lemma_slice_fits(height, y, i);
    lemma_end_fits(width, x, j);
    lemma_end_fits(height, y, i);
}

proof fn lemma_end_fits(width: int, x: int, j: int)
    requires
        0 <= width,
        0 <= j < x,
    ensures
        j * (width / x) + width / x <= width,
{
    assert((width / x) * x <= width && 0 <= width / x) by (nonlinear_arith)
        requires
            0 <= width,
            0 < x,
    ;
    assert(j * (width / x) + width / x <= (width / x) * x) by (nonlinear_arith)
        requires
            0 <= j < x,
            0 <= width / x,
    ;
}

proof fn lemma_apart(a: int, b: int, w: int)
    requires
        a != b,
        0 <= w,
    ensures
        a * w + w <= b * w || b * w + w <= a * w,
{
    if a < b {
        assert(a * w + w <= b * w) by (nonlinear_arith)
            requires
                a < b,
                0 <= w,
        ;
    } else {
        assert(b * w + w <= a * w) by (nonlinear_arith)
            requires
                b < a,
                0 <= w,
        ;
    }
}

/// Division that rounds toward zero.
pub open spec fn quotient(a: int, b: int) -> int {
    if b > 0 {
        a / b
    } else {
        -(a / (-b))
    }
}

fn divided(a: i32, b: i32) -> (r: i32)
    requires
        0 <= a,
        b != 0,
    ensures
        r == quotient(a as int, b as int),
{
    let wide: i64 = if b > 0 {
        b as i64
    } else {
        -(b as i64)
    };
    let q: i64 = a as i64 / wide;
    assert(0 <= a as int / wide as int <= a) by (nonlinear_arith)
        requires
            0 <= a,
            wide > 0,
    ;
    if b > 0 {
        q as i32
    } else {
        (-q) as i32
    }
}

/// The size of a texture with depth.
#[derive(Clone, Copy, Debug, PartialEq, Eq, Structural)]
pub struct VolumeShape {
    pub width: i32,
    pub height: i32,
    pub depth: i32,
    pub mipmaps: bool,
}

/// The size of a texture whose slices are the parts of an image; nothing where there are too many
/// slices to count.
pub fn volume_shape(
    width: i32,
    height: i32,
    x: i32,
    y: i32,
    mipmaps_limit: Option<i32>,
) -> (r: Option<VolumeShape>)
    requires
        0 <= width,
        0 <= height,
        x != 0,
        y != 0,
    ensures
        if i32::MIN <= x * y <= i32::MAX {
            r matches Some(shape) && shape.width == quotient(width as int, x as int)
                && shape.height == quotient(height as int, y as int) && shape.depth == x * y
                && shape.mipmaps == (mipmaps_limit != Some(0i32))
        } else {
            r is None
        },
{
    match x.checked_mul(y) {
        Some(depth) => {
            let limit: i32 = get_or_default(mipmaps_limit, -1);
            Some(
                VolumeShape {
                    width: divided(width, x),
                    height: divided(height, y),
                    depth,
                    mipmaps: limit != 0,
                },
            )
        },
        None => None,
    }
}

/// A class of textures with layers.
#[derive(Clone, Copy, Debug, PartialEq, Eq, Structural)]
pub enum LayeredClass {
    Cubemap,
    Texture2DArray,
    CubemapArray,
}

/// What is made of an image that is cut into slices.
#[derive(Clone, Copy, Debug, PartialEq, Eq, Structural)]
pub enum LayeredTexture {
    Volume,
    Layers(LayeredClass),
}

/// What the importer of the given name makes of an image that is cut into slices.
pub fn layered_texture(importer_name: &str) -> (r: Result<LayeredTexture, GodotError>)
    ensures
        r == (if importer_name@ == "3d_texture"@ {
            Ok::<LayeredTexture, GodotError>(LayeredTexture::Volume)
        } else if importer_name@ == "cubemap_texture"@ {
            Ok(LayeredTexture::Layers(LayeredClass::Cubemap))
        } else if importer_name@ == "2d_array_texture"@ {
            Ok(LayeredTexture::Layers(LayeredClass::Texture2DArray))
        } else if importer_name@ == "cube_array_texture"@ {
            Ok(LayeredTexture::Layers(LayeredClass::CubemapArray))
        } else {
            Err(GodotError::InvalidParameter)
        }),
{
    if same_text(importer_name, "3d_texture") {
        Ok(LayeredTexture::Volume)
    } else if same_text(importer_name, "cubemap_texture") {
        Ok(LayeredTexture::Layers(LayeredClass::Cubemap))
    } else if same_text(importer_name, "2d_array_texture") {
        Ok(LayeredTexture::Layers(LayeredClass::Texture2DArray))
    } else if same_text(importer_name, "cube_array_texture") {
        Ok(LayeredTexture::Layers(LayeredClass::CubemapArray))
    } else {
        Err(GodotError::InvalidParameter)
    }
}

/// How a compressed sound is played.
#[derive(Clone, Copy, Debug, PartialEq, Eq, Structural)]
pub struct StreamSettings {
    pub looped: bool,
    pub beat_count: i32,
    pub bar_beats: i32,
}

/// How a compressed sound is played.
pub open spec fn is_stream(
    looped: Option<bool>,
    beat_count: Option<i32>,
    bar_beats: Option<i32>,
    r: StreamSettings,
) -> bool {
    &&& r.looped == (looped == Some(true))
    &&& r.beat_count == (match beat_count {
        Some(n) => n,
        None => 0,
    })
    &&& r.bar_beats == (match bar_beats {
        Some(n) => n,
        None => 4,
    })
}

/// How a compressed sound is played: once, with four beats to a bar, where nothing else is said.
pub fn stream_settings(
    looped: Option<bool>,
    beat_count: Option<i32>,
    bar_beats: Option<i32>,
) -> (r: StreamSettings)
    ensures
        is_stream(looped, beat_count, bar_beats, r),
{
    StreamSettings {
        looped: get_or_default(looped, false),
        beat_count: get_or_default(beat_count, 0),
        bar_beats: get_or_default(bar_beats, 4),
    }
}

/// How an uncompressed sound is played.
#[derive(Clone, Copy, Debug, PartialEq, Eq, Structural)]
pub struct WavSettings {
    /// The number of the loop mode, where one is set.
    pub loop_mode: Option<i32>,
    pub loop_begin: i32,
    pub loop_end: i32,
}

/// How an uncompressed sound is played.
pub open spec fn is_wav(
    loop_mode: Option<i32>,
    loop_begin: Option<i32>,
    loop_end: Option<i32>,
    r: WavSettings,
) -> bool {
    &&& r.loop_mode == (match loop_mode {
        Some(m) => if m > 0 {
            Some((m - 1) as i32)
        } else {
            None::<i32>
        },
        None => None,
    })
    &&& r.loop_begin == (match loop_begin {
        Some(n) => n as int,
        None => 0,
    })
    &&& r.loop_end == (match loop_end {
        Some(n) => n as int,
        None => -1,
    })
}

/// How an uncompressed sound is played. The loop mode counts from one: zero leaves the mode as it
/// is.
pub fn wav_settings(
    loop_mode: Option<i32>,
    loop_begin: Option<i32>,
    loop_end: Option<i32>,
) -> (r: WavSettings)
    ensures
        is_wav(loop_mode, loop_begin, loop_end, r),
{
    let mode: i32 = get_or_default(loop_mode, 0);
    WavSettings {
        loop_mode: if mode > 0 {
            Some(mode - 1)
        } else {
            None
        },
        loop_begin: get_or_default(loop_begin, 0),
        loop_end: get_or_default(loop_end, -1),
    }
}

/// The number of the way in which a font of fixed size is scaled: the third where nothing is
/// said.
pub fn bitmap_scaling_mode(scaling_mode: Option<i32>) -> (r: i32)
    ensures
        r == (match scaling_mode {
            Some(n) => n,
            None => 2,
        }),
{
    get_or_default(scaling_mode, 2)
}

/// The parameters of a font with outlines.
#[derive(Clone, Copy, Debug)]
pub struct FontParams {
    pub antialiasing: Option<i32>,
    pub generate_mipmaps: Option<bool>,
    pub disable_embedded_bitmaps: Option<bool>,
    pub multichannel_signed_distance_field: Option<bool>,
    pub msdf_pixel_range: Option<i32>,
    pub msdf_size: Option<i32>,
    pub force_autohinter: Option<bool>,
    pub modulate_color_glyphs: Option<bool>,
    pub allow_system_fallback: Option<bool>,
    pub hinting: Option<i32>,
    pub subpixel_positioning: Option<i32>,
    pub keep_rounding_remainders: Option<bool>,
}

/// How a font with outlines is drawn.
#[derive(Clone, Copy, Debug, PartialEq, Eq, Structural)]
pub struct FontSettings {
    pub antialiasing: i32,
    pub generate_mipmaps: bool,
    pub disable_embedded_bitmaps: bool,
    pub multichannel_signed_distance_field: bool,
    pub msdf_pixel_range: i32,
    pub msdf_size: i32,
    pub force_autohinter: bool,
    pub modulate_color_glyphs: bool,
    pub allow_system_fallback: bool,
    pub hinting: i32,
    pub subpixel_positioning: i32,
    pub keep_rounding_remainders: bool,
}

/// The parameter, or zero where it is absent.
pub open spec fn or_zero(value: Option<i32>) -> i32 {
    match value {
        Some(n) => n,
        None => 0,
    }
}

/// How a font with outlines is drawn.
pub open spec fn drawn(params: FontParams) -> FontSettings {
    FontSettings {
        antialiasing: or_zero(params.antialiasing),
        generate_mipmaps: params.generate_mipmaps == Some(true),
        disable_embedded_bitmaps: params.disable_embedded_bitmaps == Some(true),
        multichannel_signed_distance_field: params.multichannel_signed_distance_field == Some(
            true,
        ),
        msdf_pixel_range: or_zero(params.msdf_pixel_range),
        msdf_size: or_zero(params.msdf_size),
        force_autohinter: params.force_autohinter == Some(true),
        modulate_color_glyphs: params.modulate_color_glyphs == Some(true),
        allow_system_fallback: params.allow_system_fallback == Some(true),
        hinting: or_zero(params.hinting),
        subpixel_positioning: or_zero(params.subpixel_positioning),
        keep_rounding_remainders: params.keep_rounding_remainders == Some(true),
    }
}

/// How a font with outlines is drawn: what is absent is zero or off.
pub fn font_settings(params: &FontParams) -> (r: FontSettings)
    ensures
        r == drawn(*params),
{
    FontSettings {
        antialiasing: get_or_default(params.antialiasing, 0),
        generate_mipmaps: get_or_default(params.generate_mipmaps, false),
        disable_embedded_bitmaps: get_or_default(params.disable_embedded_bitmaps, false),
        multichannel_signed_distance_field: get_or_default(
            params.multichannel_signed_distance_field,
            false,
        ),
        msdf_pixel_range: get_or_default(params.msdf_pixel_range, 0),
        msdf_size: get_or_default(params.msdf_size, 0),
        force_autohinter: get_or_default(params.force_autohinter, false),
        modulate_color_glyphs: get_or_default(params.modulate_color_glyphs, false),
        allow_system_fallback: get_or_default(params.allow_system_fallback, false),
        hinting: get_or_default(params.hinting, 0),
        subpixel_positioning: get_or_default(params.subpixel_positioning, 0),
        keep_rounding_remainders: get_or_default(params.keep_rounding_remainders, false),
    }
}

/// How a scene is read.
#[derive(Clone, Copy, Debug, PartialEq, Eq, Structural)]
pub enum SceneSource {
    /// From a temporary file with the extension of Godot's own scenes.
    TempFile,
    Gltf,
    Fbx,
}

/// How a scene with the given extension is read; an error where it cannot be.
pub open spec fn scene_source(ext: Option<Seq<char>>) -> Result<SceneSource, GodotError> {
    if ext == Some("escn"@) {
        Ok(SceneSource::TempFile)
    } else if ext == Some("glb"@) || ext == Some("gltf"@) {
        Ok(SceneSource::Gltf)
    } else if ext == Some("fbx"@) {
        Ok(SceneSource::Fbx)
    } else {
        Err(GodotError::Unavailable)
    }
}

/// How the scene at a path is read. The extension counts as it is written: one with capitals is
/// none of these.
pub fn import_scene(path: &str) -> (r: Result<SceneSource, GodotError>)
    ensures
        r == scene_source(extension(path@)),
{
    match crate::paths::get_extension(path) {
        Some(ext) => {
            if same_text(ext.as_str(), "escn") {
                Ok(SceneSource::TempFile)
            } else if same_text(ext.as_str(), "glb") || same_text(ext.as_str(), "gltf") {
                Ok(SceneSource::Gltf)
            } else if same_text(ext.as_str(), "fbx") {
                Ok(SceneSource::Fbx)
            } else {
                Err(GodotError::Unavailable)
            }
        },
        None => Err(GodotError::Unavailable),
    }
}

/// Images of each kind are read as what their extension says. Any other image is read from its file,
/// or through a temporary file where it lies in the directory of the plugin.
pub proof fn images_are_read_by_their_extension(ext: Seq<char>, path: Seq<char>)
    ensures
        image_source(ext, path) == ImageSource::Png <==> ext == "png"@,
        image_source(ext, path) == ImageSource::Jpg <==> ext == "jpg"@,
        image_source(ext, path) == ImageSource::Bmp <==> ext == "bmp"@,
        image_source(ext, path) == ImageSource::Webp <==> ext == "webp"@,
        image_source(ext, path) == ImageSource::Tga <==> ext == "tga"@,
        image_source(ext, path) == ImageSource::Ktx <==> ext == "ktx"@,
        image_source(ext, path) == ImageSource::Dds <==> ext == "dds"@,
        image_source(ext, path) == ImageSource::Svg <==> ext == "svg"@,
        image_source(ext, path) == ImageSource::TempFile ==> path == "patchwork"@
            || "patchwork/"@.is_prefix_of(path),
        image_source(ext, path) == ImageSource::OwnPath ==> !(path == "patchwork"@
            || "patchwork/"@.is_prefix_of(path)),
{
    reveal_strlit("png");
    assert("png"@.len() == 3 && "png"@[0] == 'p' && "png"@[1] == 'n');
    reveal_strlit("jpg");
    assert("jpg"@.len() == 3 && "jpg"@[0] == 'j' && "jpg"@[1] == 'p');
    reveal_strlit("bmp");
    assert("bmp"@.len() == 3 && "bmp"@[0] == 'b' && "bmp"@[1] == 'm');
    reveal_strlit("webp");
    assert("webp"@.len() == 4 && "webp"@[0] == 'w' && "webp"@[1] == 'e');
    reveal_strlit("tga");
    assert("tga"@.len() == 3 && "tga"@[0] == 't' && "tga"@[1] == 'g');
    reveal_strlit("ktx");
    assert("ktx"@.len() == 3 && "ktx"@[0] == 'k' && "ktx"@[1] == 't');
    reveal_strlit("dds");
    assert("dds"@.len() == 3 && "dds"@[0] == 'd' && "dds"@[1] == 'd');
    reveal_strlit("svg");
    assert("svg"@.len() == 3 && "svg"@[0] == 's' && "svg"@[1] == 'v');
}

/// A cubemap has six slices, however they are arranged, and an array of cubemaps six for each of
/// them; a texture array or volume has as many as its parameters say, and one in each direction where
/// they say nothing.
pub proof fn how_many_slices_there_are(params: LayerParams, name: Seq<char>)
    ensures
        slice_counts("cubemap_texture"@, params).0 * slice_counts("cubemap_texture"@, params).1
            == 6,
        slice_counts("cubemap_array_texture"@, params).0 * slice_counts(
            "cubemap_array_texture"@,
            params,
        ).1 == 6 * or_one(params.amount),
        slice_counts("2d_array_texture"@, params) == slice_counts("3d_texture"@, params),
        (match params.horizontal {
            Some(n) => slice_counts("3d_texture"@, params).0 == n,
            None => slice_counts("3d_texture"@, params).0 == 1,
        }),
        (match params.vertical {
            Some(n) => slice_counts("3d_texture"@, params).1 == n,
            None => slice_counts("3d_texture"@, params).1 == 1,
        }),
        params.layout == Some(0i32) ==> slice_counts("cubemap_array_texture"@, params).1
            == slice_counts("cubemap_texture"@, params).1,
        params.layout != Some(0i32) ==> slice_counts("cubemap_array_texture"@, params).0
            == slice_counts("cubemap_texture"@, params).0,
        params.arrangement == Some(0i32) ==> slice_counts("cubemap_texture"@, params) == (1int,
            6int),
        params.arrangement == Some(2i32) ==> slice_counts("cubemap_texture"@, params) == (3int,
            2int),
        params.arrangement == Some(3i32) ==> slice_counts("cubemap_texture"@, params) == (6int,
            1int),
        params.arrangement is None || params.arrangement == Some(1i32) ==> slice_counts(
            "cubemap_texture"@,
            params,
        ) == (2int, 3int),
        name != "cubemap_texture"@ && name != "cubemap_array_texture"@ && name
            != "2d_array_texture"@ && name != "3d_texture"@ ==> slice_counts(name, params) == (
            1int,
            1int,
        ),
{
    reveal_strlit("cubemap_texture");
    reveal_strlit("cubemap_array_texture");
    reveal_strlit("2d_array_texture");
    reveal_strlit("3d_texture");
    assert("cubemap_texture"@.len() == 15);
    assert("cubemap_array_texture"@.len() == 21);
    assert("2d_array_texture"@.len() == 16);
    assert("3d_texture"@.len() == 10);
    let (x, y) = slice_arrangement(params.arrangement);
    let n = or_one(params.amount);
    assert(x * y == 6);
    assert((x * n) * y == 6 * n && x * (y * n) == 6 * n) by (nonlinear_arith)
        requires
            x * y == 6,
    ;
}

/// The parameter of a texture counts where it is there.
pub proof fn absent_counts_are_one(value: Option<i32>)
    ensures
        value matches Some(n) ==> or_one(value) == n,
        value is None ==> or_one(value) == 1,
{
}

/// The slices of an image are counted row by row, from left to right: the slice in row `i` and
/// column `j` begins as many slices down and to the right. All have the same size, which is that of
/// the image divided by the count in each direction.
pub proof fn slices_are_counted_row_by_row(
    width: int,
    height: int,
    x: int,
    y: int,
    i: int,
    j: int,
)
    requires
        0 <= width <= i32::MAX,
        0 <= height <= i32::MAX,
        0 <= j < x,
        0 <= i < y,
    ensures
        slices(width, height, x, y).len() == x * y,
        0 <= i * x + j < x * y,
        slices(width, height, x, y)[i * x + j].x == j * (width / x),
        slices(width, height, x, y)[i * x + j].y == i * (height / y),
        slices(width, height, x, y)[i * x + j].width == width / x,
        slices(width, height, x, y)[i * x + j].height == height / y,
{
    assert(0 <= x * y && 0 <= i * x + j < x * y) by (nonlinear_arith)
        requires
            0 <= j < x,
            0 <= i < y,
    ;
    lemma_row_and_column(i, j, x);
    lemma_cell(width, height, x, y, i * x + j);
}

/// An image that is cut into a negative number of slices in some direction has none.
pub proof fn negative_counts_give_no_slices(width: int, height: int, x: int, y: int)
    requires
        x < 0 || y < 0,
    ensures
        slices(width, height, x, y).len() == 0,
{
}

/// Scenes of each kind are read as what their extension says, as it is written, and others not at
/// all.
pub proof fn scenes_are_read_by_their_extension(ext: Option<Seq<char>>)
    ensures
        scene_source(ext) == Ok::<_, GodotError>(SceneSource::TempFile) <==> ext == Some("escn"@),
        scene_source(ext) == Ok::<_, GodotError>(SceneSource::Gltf) <==> ext == Some("glb"@) || ext
            == Some("gltf"@),
        scene_source(ext) == Ok::<_, GodotError>(SceneSource::Fbx) <==> ext == Some("fbx"@),
        scene_source(ext) matches Err(e) ==> e == GodotError::Unavailable,
{
    reveal_strlit("escn");
    reveal_strlit("glb");
    reveal_strlit("gltf");
    reveal_strlit("fbx");
    assert("escn"@[0] == 'e');
    assert("glb"@[0] == 'g');
    assert("gltf"@[0] == 'g');
    assert("fbx"@[0] == 'f');
}

/// A sound is played as its parameters say; where they say nothing, once, with four beats to a bar.
pub proof fn sounds_are_played_as_asked(
    looped: Option<bool>,
    beat_count: Option<i32>,
    bar_beats: Option<i32>,
    stream: StreamSettings,
    loop_mode: Option<i32>,
    loop_begin: Option<i32>,
    loop_end: Option<i32>,
    wav: WavSettings,
)
    requires
        is_stream(looped, beat_count, bar_beats, stream),
        is_wav(loop_mode, loop_begin, loop_end, wav),
    ensures
        looped matches Some(on) ==> stream.looped == on,
        looped is None ==> !stream.looped,
        beat_count matches Some(n) ==> stream.beat_count == n,
        beat_count is None ==> stream.beat_count == 0,
        bar_beats matches Some(n) ==> stream.bar_beats == n,
        bar_beats is None ==> stream.bar_beats == 4,
        loop_begin matches Some(n) ==> wav.loop_begin == n,
        loop_begin is None ==> wav.loop_begin == 0,
        loop_end matches Some(n) ==> wav.loop_end == n,
        loop_end is None ==> wav.loop_end == -1,
        wav.loop_mode is Some <==> loop_mode is Some && loop_mode->0 > 0,
        wav.loop_mode matches Some(m) ==> m + 1 == loop_mode->0,
{
}

/// A font is drawn as its parameters say; what they do not say is zero or off.
pub proof fn fonts_are_drawn_as_asked(params: FontParams)
    ensures
        params.antialiasing matches Some(n) ==> drawn(params).antialiasing == n,
        params.antialiasing is None ==> drawn(params).antialiasing == 0,
        params.msdf_pixel_range matches Some(n) ==> drawn(params).msdf_pixel_range == n,
        params.msdf_pixel_range is None ==> drawn(params).msdf_pixel_range == 0,
        params.msdf_size matches Some(n) ==> drawn(params).msdf_size == n,
        params.msdf_size is None ==> drawn(params).msdf_size == 0,
        params.hinting matches Some(n) ==> drawn(params).hinting == n,
        params.hinting is None ==> drawn(params).hinting == 0,
        params.subpixel_positioning matches Some(n) ==> drawn(params).subpixel_positioning == n,
        params.subpixel_positioning is None ==> drawn(params).subpixel_positioning == 0,
        params.generate_mipmaps matches Some(on) ==> drawn(params).generate_mipmaps == on,
        params.generate_mipmaps is None ==> !drawn(params).generate_mipmaps,
        params.disable_embedded_bitmaps matches Some(on)
            ==> drawn(params).disable_embedded_bitmaps == on,
        params.disable_embedded_bitmaps is None ==> !drawn(params).disable_embedded_bitmaps,
        params.multichannel_signed_distance_field matches Some(on)
            ==> drawn(params).multichannel_signed_distance_field == on,
        params.multichannel_signed_distance_field is None
            ==> !drawn(params).multichannel_signed_distance_field,
        params.force_autohinter matches Some(on) ==> drawn(params).force_autohinter == on,
        params.force_autohinter is None ==> !drawn(params).force_autohinter,
        params.modulate_color_glyphs matches Some(on) ==> drawn(params).modulate_color_glyphs == on,
        params.modulate_color_glyphs is None ==> !drawn(params).modulate_color_glyphs,
        params.allow_system_fallback matches Some(on) ==> drawn(params).allow_system_fallback == on,
        params.allow_system_fallback is None ==> !drawn(params).allow_system_fallback,
        params.keep_rounding_remainders matches Some(on)
            ==> drawn(params).keep_rounding_remainders == on,
        params.keep_rounding_remainders is None ==> !drawn(params).keep_rounding_remainders,
{
}

} // verus!
