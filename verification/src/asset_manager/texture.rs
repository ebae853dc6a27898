//! Textures: how one is described before the graphics back end creates
//! it, and the record the engine keeps of it afterwards.
use vstd::prelude::*;

use crate::clamp_to_i32;
use crate::event_manager::str_eq;

verus! {

/// A texture that the graphics back end holds.
#[derive(Debug)]
pub struct Texture {
    image: u32,
    texture_load_type: TextureLoadType,
}

/// Where a texture's pixels came from.
#[derive(Debug)]
pub enum TextureLoadType {
    /// Decoded from the image file at this path.
    Image(String),
    /// Drawn by the script at this path.
    Script(String),
    /// Made by the engine while running.
    Runtime,
}

/// A pixel format.  Its name gives the components (R, RG, RGB or RGBA),
/// the bit width of each component (8, 16 or 32) and their data type:
/// unsigned normalized (no suffix), unsigned integer (`UI`) or float (`F`).
/// Not all formats support the same things; the back end says what a
/// format supports in a [`ColourFormatInfo`].
#[derive(Clone, Copy, Debug, PartialEq, Eq, Structural)]
pub enum ColourFormat {
    /// No pixel format; stored as the back end's `None` format.
    Unspecified,
    BGRA8,
    RGB8UI,
    RGBA8UI,
    RGB16UI,
    RGBA16UI,
    RGBA32UI,
    RGBA32F,
}

/// The pixel formats of the graphics back end that textures are stored in.
#[derive(Clone, Copy, Debug, PartialEq, Eq, Structural)]
pub enum PixelFormat {
    /// The back end's `None` format: no pixel format (not the back
    /// end's default one).
    Unspecified,
    Bgra8,
    Rgba8ui,
    Rgba16ui,
    Rgba32ui,
    Rgba32f,
}

/// What the graphics back end supports for a pixel format.
#[derive(Clone, Copy, Debug)]
pub struct ColourFormatInfo {
    pub sample: bool,
    pub filter: bool,
    pub render: bool,
    pub blend: bool,
    pub msaa: bool,
    pub depth: bool,
    pub compressed: bool,
    pub bytes_per_pixel: i32,
}

/// How often a texture's content changes.
#[derive(Clone, Copy, Debug, PartialEq, Eq, Structural)]
pub enum TextureUsage {
    /// The content is given when the texture is created and never
    /// changes.
    Immutable,
    /// The content changes now and then, from once after creation to
    /// often but not every frame.
    Dynamic,
    /// The content changes every frame.
    Stream,
}

impl Default for ColourFormat {
    fn default() -> (res: Self)
        ensures
            res == ColourFormat::BGRA8,
    {
        ColourFormat::BGRA8
    }
}

impl Default for TextureUsage {
    fn default() -> (res: Self)
        ensures
            res == TextureUsage::Immutable,
    {
        TextureUsage::Immutable
    }
}

impl ColourFormat {
    /// The back-end format that textures of this format are stored in:
    /// formats without alpha are stored with it.
    pub open spec fn spec_pixel_format(self) -> PixelFormat {
        match self {
            ColourFormat::Unspecified => PixelFormat::Unspecified,
            ColourFormat::BGRA8 => PixelFormat::Bgra8,
            ColourFormat::RGB8UI => PixelFormat::Rgba8ui,
            ColourFormat::RGBA8UI => PixelFormat::Rgba8ui,
            ColourFormat::RGB16UI => PixelFormat::Rgba16ui,
            ColourFormat::RGBA16UI => PixelFormat::Rgba16ui,
            ColourFormat::RGBA32UI => PixelFormat::Rgba32ui,
            ColourFormat::RGBA32F => PixelFormat::Rgba32f,
        }
    }

    /// The back-end format that textures of this format are stored in.
    pub fn to_pixel_format(self) -> (res: PixelFormat)
        ensures
            res == self.spec_pixel_format(),
    {
        match self {
            ColourFormat::Unspecified => PixelFormat::Unspecified,
            ColourFormat::BGRA8 => PixelFormat::Bgra8,
            ColourFormat::RGB8UI => PixelFormat::Rgba8ui,
            ColourFormat::RGBA8UI => PixelFormat::Rgba8ui,
            ColourFormat::RGB16UI => PixelFormat::Rgba16ui,
            ColourFormat::RGBA16UI => PixelFormat::Rgba16ui,
            ColourFormat::RGBA32UI => PixelFormat::Rgba32ui,
            ColourFormat::RGBA32F => PixelFormat::Rgba32f,
        }
    }
}

impl ColourFormat {
    /// Number of components of the format (0 for none).
    pub open spec fn components(self) -> nat {
        match self {
            ColourFormat::Unspecified => 0,
            ColourFormat::BGRA8 => 4,
            ColourFormat::RGB8UI => 3,
            ColourFormat::RGBA8UI => 4,
            ColourFormat::RGB16UI => 3,
            ColourFormat::RGBA16UI => 4,
            ColourFormat::RGBA32UI => 4,
            ColourFormat::RGBA32F => 4,
        }
    }

    /// Bit width of each component of the format (0 for none).
    pub open spec fn component_bits(self) -> nat {
        match self {
            ColourFormat::Unspecified => 0,
            ColourFormat::BGRA8 => 8,
            ColourFormat::RGB8UI => 8,
            ColourFormat::RGBA8UI => 8,
            ColourFormat::RGB16UI => 16,
            ColourFormat::RGBA16UI => 16,
            ColourFormat::RGBA32UI => 32,
            ColourFormat::RGBA32F => 32,
        }
    }

    /// Whether the components of the format are unsigned integers.
    pub open spec fn is_integer(self) -> bool {
        match self {
            ColourFormat::Unspecified => false,
            ColourFormat::BGRA8 => false,
            ColourFormat::RGB8UI => true,
            ColourFormat::RGBA8UI => true,
            ColourFormat::RGB16UI => true,
            ColourFormat::RGBA16UI => true,
            ColourFormat::RGBA32UI => true,
            ColourFormat::RGBA32F => false,
        }
    }

    /// Whether the components of the format are floats.
    pub open spec fn is_float(self) -> bool {
        match self {
            ColourFormat::Unspecified => false,
            ColourFormat::BGRA8 => false,
            ColourFormat::RGB8UI => false,
            ColourFormat::RGBA8UI => false,
            ColourFormat::RGB16UI => false,
            ColourFormat::RGBA16UI => false,
            ColourFormat::RGBA32UI => false,
            ColourFormat::RGBA32F => true,
        }
    }

    /// Whether the format stores blue, green, red (then alpha) rather than red first.
    pub open spec fn blue_first(self) -> bool {
        match self {
            ColourFormat::Unspecified => false,
            ColourFormat::BGRA8 => true,
            ColourFormat::RGB8UI => false,
            ColourFormat::RGBA8UI => false,
            ColourFormat::RGB16UI => false,
            ColourFormat::RGBA16UI => false,
            ColourFormat::RGBA32UI => false,
            ColourFormat::RGBA32F => false,
        }
    }
}

impl PixelFormat {
    /// Number of components of the format (0 for none).
    pub open spec fn components(self) -> nat {
        match self {
            PixelFormat::Unspecified => 0,
            PixelFormat::Bgra8 => 4,
            PixelFormat::Rgba8ui => 4,
            PixelFormat::Rgba16ui => 4,
            PixelFormat::Rgba32ui => 4,
            PixelFormat::Rgba32f => 4,
        }
    }

    /// Bit width of each component of the format (0 for none).
    pub open spec fn component_bits(self) -> nat {
        match self {
            PixelFormat::Unspecified => 0,
            PixelFormat::Bgra8 => 8,
            PixelFormat::Rgba8ui => 8,
            PixelFormat::Rgba16ui => 16,
            PixelFormat::Rgba32ui => 32,
            PixelFormat::Rgba32f => 32,
        }
    }

    /// Whether the components of the format are unsigned integers.
    pub open spec fn is_integer(self) -> bool {
        match self {
            PixelFormat::Unspecified => false,
            PixelFormat::Bgra8 => false,
            PixelFormat::Rgba8ui => true,
            PixelFormat::Rgba16ui => true,
            PixelFormat::Rgba32ui => true,
            PixelFormat::Rgba32f => false,
        }
    }

    /// Whether the components of the format are floats.
    pub open spec fn is_float(self) -> bool {
        match self {
            PixelFormat::Unspecified => false,
            PixelFormat::Bgra8 => false,
            PixelFormat::Rgba8ui => false,
            PixelFormat::Rgba16ui => false,
            PixelFormat::Rgba32ui => false,
            PixelFormat::Rgba32f => true,
        }
    }

    /// Whether the format stores blue, green, red (then alpha) rather than red first.
    pub open spec fn blue_first(self) -> bool {
        match self {
            PixelFormat::Unspecified => false,
            PixelFormat::Bgra8 => true,
            PixelFormat::Rgba8ui => false,
            PixelFormat::Rgba16ui => false,
            PixelFormat::Rgba32ui => false,
            PixelFormat::Rgba32f => false,
        }
    }
}

/// A texture is stored in a back-end format with the components of its
/// own format, in the same order, with the same bit width and data type,
/// and with alpha added where the format has none: four components.  That
/// back-end format is the only one that does so.  The unspecified format
/// is stored as the back end's unspecified format, and nothing else is.
pub proof fn pixel_format_keeps_components(f: ColourFormat)
    ensures
        f == ColourFormat::Unspecified <==> f.spec_pixel_format() == PixelFormat::Unspecified,
        f != ColourFormat::Unspecified ==> {
            let p = f.spec_pixel_format();
            &&& p.components() == 4
            &&& f.components() <= p.components()
            &&& p.component_bits() == f.component_bits()
            &&& p.is_integer() == f.is_integer()
            &&& p.is_float() == f.is_float()
            &&& p.blue_first() == f.blue_first()
        },
        forall|q: PixelFormat|
            q != PixelFormat::Unspecified && q.component_bits() == f.component_bits() && q.is_integer()
                == f.is_integer() && q.is_float() == f.is_float() && q.blue_first() == f.blue_first()
                ==> q == f.spec_pixel_format(),
{
}

/// The settings of a texture that is still to be created.
pub struct TextureBuilder {
    colour_format: ColourFormat,
    render_target: bool,
    width: usize,
    height: usize,
    usage: TextureUsage,
    sample_count: usize,
    data: Vec<u8>,
    label: String,
}

/// Everything the graphics back end needs to create a texture.
pub struct ImageDesc {
    pub render_target: bool,
    pub width: i32,
    pub height: i32,
    pub usage: TextureUsage,
    pub pixel_format: PixelFormat,
    pub sample_count: i32,
    pub data: Vec<u8>,
    pub label: String,
}

/// `val` as the back end takes it: clamped to `i32::MAX`.
pub open spec fn clamped(val: usize) -> i32 {
    if val <= i32::MAX {
        val as i32
    } else {
        i32::MAX
    }
}

impl TextureBuilder {
    pub closed spec fn spec_colour_format(&self) -> ColourFormat {
        self.colour_format
    }

    pub closed spec fn spec_render_target(&self) -> bool {
        self.render_target
    }

    pub closed spec fn spec_width(&self) -> usize {
        self.width
    }

    pub closed spec fn spec_height(&self) -> usize {
        self.height
    }

    pub closed spec fn spec_usage(&self) -> TextureUsage {
        self.usage
    }

    pub closed spec fn spec_sample_count(&self) -> usize {
        self.sample_count
    }

    /// The initial content, in bytes.
    pub closed spec fn spec_data(&self) -> Seq<u8> {
        self.data@
    }

    /// The name shown in diagnostics.
    pub closed spec fn spec_label(&self) -> Seq<char> {
        self.label@
    }

    /// A builder for an empty 0x0 immutable texture in the default format,
    /// not a render target, with sample count 0, labelled `undeclared`.
    pub fn new() -> (res: Self)
        ensures
            res.spec_colour_format() == ColourFormat::BGRA8,
            !res.spec_render_target(),
            res.spec_width() == 0,
            res.spec_height() == 0,
            res.spec_usage() == TextureUsage::Immutable,
            res.spec_sample_count() == 0,
            res.spec_data().len() == 0,
            res.spec_label() == "undeclared"@,
    {
        TextureBuilder {
            colour_format: ColourFormat::default(),
            render_target: false,
            width: 0,
            height: 0,
            usage: TextureUsage::default(),
            sample_count: 0,
            data: Vec::new(),
            label: String::from_str("undeclared"),
        }
    }

    /// The same builder with the label `label`.
    pub fn label(self, label: &str) -> (res: Self)
        ensures
            res.spec_label() == label@,
            res.spec_colour_format() == self.spec_colour_format(),
            res.spec_render_target() == self.spec_render_target(),
            res.spec_width() == self.spec_width(),
            res.spec_height() == self.spec_height(),
            res.spec_usage() == self.spec_usage(),
            res.spec_sample_count() == self.spec_sample_count(),
            res.spec_data() == self.spec_data(),
    {
        let mut res = self;
        res.label = String::from_str(label);
        res
    }

    /// The same builder with the initial content `data`.
    pub fn data(self, data: Box<[u8]>) -> (res: Self)
        ensures
            res.spec_data() == data@,
            res.spec_colour_format() == self.spec_colour_format(),
            res.spec_render_target() == self.spec_render_target(),
            res.spec_width() == self.spec_width(),
            res.spec_height() == self.spec_height(),
            res.spec_usage() == self.spec_usage(),
            res.spec_sample_count() == self.spec_sample_count(),
            res.spec_label() == self.spec_label(),
    {
        let mut res = self;
        res.data = data.into_vec();
        res
    }

    /// The same builder with the pixel format `val`.
    pub fn colour_format(self, val: ColourFormat) -> (res: Self)
        ensures
            res.spec_colour_format() == val,
            res.spec_render_target() == self.spec_render_target(),
            res.spec_width() == self.spec_width(),
            res.spec_height() == self.spec_height(),
            res.spec_usage() == self.spec_usage(),
            res.spec_sample_count() == self.spec_sample_count(),
            res.spec_data() == self.spec_data(),
            res.spec_label() == self.spec_label(),
    {
        let mut res = self;
        res.colour_format = val;
        res
    }

    /// The same builder, to be rendered to when `val` holds.
    pub fn render_target(self, val: bool) -> (res: Self)
        ensures
            res.spec_render_target() == val,
            res.spec_colour_format() == self.spec_colour_format(),
            res.spec_width() == self.spec_width(),
            res.spec_height() == self.spec_height(),
            res.spec_usage() == self.spec_usage(),
            res.spec_sample_count() == self.spec_sample_count(),
            res.spec_data() == self.spec_data(),
            res.spec_label() == self.spec_label(),
    {
        let mut res = self;
        res.render_target = val;
        res
    }

    /// The same builder with a width of `val` pixels.
    pub fn width(self, val: usize) -> (res: Self)
        ensures
            res.spec_width() == val,
            res.spec_colour_format() == self.spec_colour_format(),
            res.spec_render_target() == self.spec_render_target(),
            res.spec_height() == self.spec_height(),
            res.spec_usage() == self.spec_usage(),
            res.spec_sample_count() == self.spec_sample_count(),
            res.spec_data() == self.spec_data(),
            res.spec_label() == self.spec_label(),
    {
        let mut res = self;
        res.width = val;
        res
    }

    /// The same builder with a height of `val` pixels.
    pub fn height(self, val: usize) -> (res: Self)
        ensures
            res.spec_height() == val,
            res.spec_colour_format() == self.spec_colour_format(),
            res.spec_render_target() == self.spec_render_target(),
            res.spec_width() == self.spec_width(),
            res.spec_usage() == self.spec_usage(),
            res.spec_sample_count() == self.spec_sample_count(),
            res.spec_data() == self.spec_data(),
            res.spec_label() == self.spec_label(),
    {
        let mut res = self;
        res.height = val;
        res
    }

    /// The same builder with the usage pattern `val`.
    pub fn usage(self, val: TextureUsage) -> (res: Self)
        ensures
            res.spec_usage() == val,
            res.spec_colour_format() == self.spec_colour_format(),
            res.spec_render_target() == self.spec_render_target(),
            res.spec_width() == self.spec_width(),
            res.spec_height() == self.spec_height(),
            res.spec_sample_count() == self.spec_sample_count(),
            res.spec_data() == self.spec_data(),
            res.spec_label() == self.spec_label(),
    {
        let mut res = self;
        res.usage = val;
        res
    }

    /// The same builder with `val` samples per pixel.
    pub fn sample_count(self, val: usize) -> (res: Self)
        ensures
            res.spec_sample_count() == val,
            res.spec_colour_format() == self.spec_colour_format(),
            res.spec_render_target() == self.spec_render_target(),
            res.spec_width() == self.spec_width(),
            res.spec_height() == self.spec_height(),
            res.spec_usage() == self.spec_usage(),
            res.spec_data() == self.spec_data(),
            res.spec_label() == self.spec_label(),
    {
        let mut res = self;
        res.sample_count = val;
        res
    }

    /// Whether the initial content suits the texture: an immutable texture
    /// needs exactly `width * height * bytes_per_pixel` bytes of it, where
    /// `pixel` describes the builder's format.
    pub open spec fn data_fits_spec(&self, pixel: ColourFormatInfo) -> bool {
        self.spec_usage() != TextureUsage::Immutable || self.spec_data().len() == self.spec_width()
            * self.spec_height() * pixel.bytes_per_pixel
    }

    /// Whether the initial content suits the texture: an immutable texture
    /// needs exactly `width * height * bytes_per_pixel` bytes of it, where
    /// `pixel` describes the builder's format.
    pub fn data_fits(&self, pixel: ColourFormatInfo) -> (res: bool)
        ensures
            res == self.data_fits_spec(pixel),
    {
        if self.usage != TextureUsage::Immutable {
            return true;
        }
        let len = self.data.len();
        let bpp = pixel.bytes_per_pixel;
        if bpp <= 0 {
            proof {
                assert(self.width * self.height >= 0) by (nonlinear_arith);
                assert(self.width * self.height * bpp <= 0) by (nonlinear_arith)
                    requires
                        self.width * self.height >= 0,
                        bpp <= 0,
                ;
                assert((self.width * self.height) * bpp == 0 <==> (self.width * self.height == 0
                    || bpp == 0)) by (nonlinear_arith);
                assert(self.width * self.height == 0 <==> (self.width == 0 || self.height == 0))
                    by (nonlinear_arith);
            }
            return len == 0 && (bpp == 0 || self.width == 0 || self.height == 0);
        }
        match self.width.checked_mul(self.height) {
            None => {
                proof {
                    assert(self.width * self.height * bpp >= self.width * self.height) by (nonlinear_arith)
                        requires
                            bpp >= 1,
                            self.width * self.height >= 0,
                    ;
                }
                false
            },
            Some(area) => match area.checked_mul(bpp as usize) {
                None => false,
                Some(size) => len == size,
            },
        }
    }

    /// Only an immutable texture must be given its content when it is
    /// created: a dynamic or streamed texture suits whatever content it
    /// has, and an immutable one suits exactly `width * height *
    /// bytes_per_pixel` bytes of it.
    pub proof fn only_immutable_textures_need_their_content(&self, pixel: ColourFormatInfo)
        ensures
            self.spec_usage() == TextureUsage::Dynamic ==> self.data_fits_spec(pixel),
            self.spec_usage() == TextureUsage::Stream ==> self.data_fits_spec(pixel),
            self.spec_usage() == TextureUsage::Immutable ==> (self.data_fits_spec(pixel) <==> self.spec_data().len()
                == self.spec_width() * self.spec_height() * pixel.bytes_per_pixel),
    {
    }

    /// What the back end needs to create the texture: sizes and sample
    /// count clamped to `i32::MAX`, the format the texture is stored in,
    /// and the builder's content and label.
    pub fn into_image_desc(self) -> (res: ImageDesc)
        ensures
            res.render_target == self.spec_render_target(),
            res.width == clamped(self.spec_width()),
            res.height == clamped(self.spec_height()),
            res.usage == self.spec_usage(),
            res.pixel_format == self.spec_colour_format().spec_pixel_format(),
            res.sample_count == clamped(self.spec_sample_count()),
            res.data@ == self.spec_data(),
            res.label@ == self.spec_label(),
    {
        let width = clamp_to_i32("texture width", self.width);
        let height = clamp_to_i32("texture height", self.height);
        let sample_count = clamp_to_i32("texture sample count", self.sample_count);
        ImageDesc {
            render_target: self.render_target,
            width,
            height,
            usage: self.usage,
            pixel_format: self.colour_format.to_pixel_format(),
            sample_count,
            data: self.data,
            label: self.label,
        }
    }
}

impl Texture {
    /// The record of a texture that the engine made while running, held
    /// by the back end under `image`.
    pub fn from_image_id(image: u32) -> (res: Texture)
        ensures
            res.spec_image() == image,
            res.spec_load_type() is Runtime,
    {
        Texture { image, texture_load_type: TextureLoadType::Runtime }
    }

    /// The back end's id of the texture.
    pub closed spec fn spec_image(&self) -> u32 {
        self.image
    }

    /// Where the texture's pixels came from.
    pub closed spec fn spec_load_type(&self) -> &TextureLoadType {
        &self.texture_load_type
    }

    /// Records where the texture's pixels came from.
    pub fn set_load_type(&mut self, load_type: TextureLoadType)
        ensures
            final(self).spec_load_type() == &load_type,
            final(self).spec_image() == old(self).spec_image(),
    {
        self.texture_load_type = load_type;
    }

    /// The back end's id of the texture.
    pub fn inner(&self) -> (res: u32)
        ensures
            res == self.spec_image(),
    {
        self.image
    }

    /// Where the texture's pixels came from.
    pub fn load_type(&self) -> (res: &TextureLoadType)
        ensures
            res == self.spec_load_type(),
    {
        &self.texture_load_type
    }
}

/// Position of the first `:` in `s`, if any.
pub open spec fn first_colon(s: Seq<char>) -> Option<int>
    decreases s.len(),
{
    if s.len() == 0 {
        None
    } else {
        match first_colon(s.drop_last()) {
            Some(i) => Some(i),
            None => if s.last() == ':' {
                Some(s.len() - 1)
            } else {
                None
            },
        }
    }
}

/// The text of a texture reference split at its first `:` into the kind
/// of source and the path; `None` when it holds no `:`.
pub open spec fn split_texture_ref(s: Seq<char>) -> Option<(Seq<char>, Seq<char>)> {
    match first_colon(s) {
        Some(i) => Some((s.subrange(0, i), s.subrange(i + 1, s.len() as int))),
        None => None,
    }
}

/// The first `:` of `s`: no earlier character is one.
proof fn lemma_first_colon(s: Seq<char>)
    ensures
        first_colon(s) matches Some(i) ==> 0 <= i < s.len() && s[i] == ':' && forall|j: int|
            0 <= j < i ==> s[j] != ':',
        first_colon(s) is None ==> forall|j: int| 0 <= j < s.len() ==> s[j] != ':',
    decreases s.len(),
{
    if s.len() > 0 {
        lemma_first_colon(s.drop_last());
        assert forall|j: int| 0 <= j < s.len() - 1 implies s[j] == s.drop_last()[j] by {}
    }
}

/// `first_colon` finds the first `:`.
proof fn lemma_first_colon_at(s: Seq<char>, i: int)
    requires
        0 <= i < s.len(),
        s[i] == ':',
        forall|j: int| 0 <= j < i ==> s[j] != ':',
    ensures
        first_colon(s) == Some(i),
    decreases s.len(),
{
    lemma_first_colon(s);
    if let Some(k) = first_colon(s) {
        if k < i {
            assert(s[k] != ':');
        } else if k > i {
            assert(s[i] != ':');
        }
    } else {
        assert(s[i] != ':');
    }
}

impl TextureLoadType {
    /// Reads a texture reference `<kind>:<path>`, split at the first `:`:
    /// kind `image` names an image file, kind `script` a script that draws
    /// the texture.  `None` when the text holds no `:` or the kind is
    /// another.
    pub fn from_texture_string(s: &str) -> (res: Option<TextureLoadType>)
        ensures
            match split_texture_ref(s@) {
                None => res is None,
                Some((kind, path)) => if kind == "image"@ {
                    res matches Some(TextureLoadType::Image(p)) && p@ == path
                } else if kind == "script"@ {
                    res matches Some(TextureLoadType::Script(p)) && p@ == path
                } else {
                    res is None
                },
            },
    {
        let n = s.unicode_len();
        let mut i: usize = 0;
        while i < n
            invariant
                n == s@.len(),
                i <= n,
                forall|j: int| 0 <= j < i ==> s@[j] != ':',
            decreases n - i,
        {
            if s.get_char(i) == ':' {
                proof {
                    lemma_first_colon_at(s@, i as int);
                }
                let kind = s.substring_char(0, i);
                let path = s.substring_char(i + 1, n);
                proof {
                    reveal_strlit("image");
                    reveal_strlit("script");
                }
                if str_eq(kind, "image") {
                    return Some(TextureLoadType::Image(String::from_str(path)));
                } else if str_eq(kind, "script") {
                    return Some(TextureLoadType::Script(String::from_str(path)));
                } else {
                    return None;
                }
            }
            i = i + 1;
        }
        proof {
            lemma_first_colon(s@);
            if let Some(k) = first_colon(s@) {
                assert(s@[k] == ':');
            }
        }
        None
    }

    /// The kind of source a reference names: `image` or `script`.
    pub open spec fn spec_kind(&self) -> Seq<char> {
        match self {
            TextureLoadType::Image(_) => "image"@,
            TextureLoadType::Script(_) => "script"@,
            TextureLoadType::Runtime => Seq::empty(),
        }
    }

    /// The path a reference names.
    pub open spec fn spec_path(&self) -> Seq<char> {
        match self {
            TextureLoadType::Image(p) => p@,
            TextureLoadType::Script(p) => p@,
            TextureLoadType::Runtime => Seq::empty(),
        }
    }

    /// The reference `<kind>:<path>` to a texture that came from a file;
    /// a texture made at run time has none.
    pub fn to_texture_string(&self) -> (res: String)
        requires
            !(self is Runtime),
        ensures
            res@ == self.spec_kind() + seq![':'] + self.spec_path(),
    {
        proof {
            reveal_strlit("image:");
            reveal_strlit("script:");
            reveal_strlit("image");
            reveal_strlit("script");
        }
        let mut out = match self {
            TextureLoadType::Image(_) => String::from_str("image:"),
            _ => String::from_str("script:"),
        };
        match self {
            TextureLoadType::Image(p) => out.append(p.as_str()),
            TextureLoadType::Script(p) => out.append(p.as_str()),
            TextureLoadType::Runtime => {},
        }
        assert(out@ =~= self.spec_kind() + seq![':'] + self.spec_path());
        out
    }
}

/// Writing a file texture's reference and reading it back gives the same
/// kind of source and the same path, whatever `:` the path holds.
pub proof fn texture_string_reads_back(t: TextureLoadType)
    requires
        !(t is Runtime),
    ensures
        split_texture_ref(t.spec_kind() + seq![':'] + t.spec_path()) == Some((t.spec_kind(), t.spec_path())),
{
    reveal_strlit("image");
    reveal_strlit("script");
    let s = t.spec_kind() + seq![':'] + t.spec_path();
    let k = t.spec_kind().len() as int;
    assert forall|j: int| 0 <= j < k implies s[j] != ':' by {
        assert(s[j] == t.spec_kind()[j]);
    }
    assert(s[k] == ':');
    lemma_first_colon_at(s, k);
    assert(s.subrange(0, k) =~= t.spec_kind());
    assert(s.subrange(k + 1, s.len() as int) =~= t.spec_path());
}

} // verus!
