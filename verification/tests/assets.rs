use butter::asset_manager::texture::{
    ColourFormat, ColourFormatInfo, PixelFormat, Texture, TextureBuilder, TextureLoadType, TextureUsage,
};
use butter::asset_manager::{AssetManager, TextureId};

fn info(bytes_per_pixel: i32) -> ColourFormatInfo {
    ColourFormatInfo {
        sample: true,
        filter: true,
        render: true,
        blend: true,
        msaa: false,
        depth: false,
        compressed: false,
        bytes_per_pixel,
    }
}

#[test]
fn builder_defaults() {
    let d = TextureBuilder::new().into_image_desc();
    assert!(!d.render_target);
    assert_eq!((d.width, d.height, d.sample_count), (0, 0, 0));
    assert_eq!(d.usage, TextureUsage::Immutable);
    assert_eq!(d.pixel_format, PixelFormat::Bgra8);
    assert!(d.data.is_empty());
    assert_eq!(d.label, "undeclared");
    assert_eq!(ColourFormat::default(), ColourFormat::BGRA8);
    assert_eq!(TextureUsage::default(), TextureUsage::Immutable);
}

#[test]
fn builder_setters() {
    let d = TextureBuilder::new()
        .label("white")
        .data(Box::new([255u8; 4]))
        .into_image_desc();
    assert_eq!(d.label, "white");
    assert_eq!(d.data, vec![255u8; 4]);
}

#[test]
fn formats_without_alpha_are_stored_with_it() {
    assert_eq!(ColourFormat::RGB8UI.to_pixel_format(), PixelFormat::Rgba8ui);
    assert_eq!(ColourFormat::RGBA8UI.to_pixel_format(), PixelFormat::Rgba8ui);
    assert_eq!(ColourFormat::RGB16UI.to_pixel_format(), PixelFormat::Rgba16ui);
    assert_eq!(ColourFormat::RGBA32F.to_pixel_format(), PixelFormat::Rgba32f);
    assert_eq!(ColourFormat::Unspecified.to_pixel_format(), PixelFormat::Unspecified);
}

#[test]
fn immutable_textures_need_all_their_data() {
    let b = TextureBuilder::new();
    assert!(b.data_fits(info(4)));
    let b = b.data(Box::new([1u8, 2, 3, 4]));
    assert!(!b.data_fits(info(4)));
    assert!(!b.data_fits(info(0)));
}

#[test]
fn dynamic_textures_may_start_empty() {
    let b = TextureBuilder::new().usage(TextureUsage::Dynamic).width(10).height(10);
    assert!(b.data_fits(info(4)));
}

#[test]
fn data_size_is_width_times_height_times_pixel_size() {
    let b = TextureBuilder::new().width(2).height(3).data(vec![0u8; 24].into_boxed_slice());
    assert!(b.data_fits(info(4)));
    assert!(!b.data_fits(info(3)));
    let big = TextureBuilder::new().width(usize::MAX).height(2);
    assert!(!big.data_fits(info(4)));
}

#[test]
fn image_desc_clamps_sizes() {
    let d = TextureBuilder::new()
        .width(usize::MAX)
        .height(7)
        .sample_count(4)
        .render_target(true)
        .colour_format(ColourFormat::RGB8UI)
        .usage(TextureUsage::Stream)
        .into_image_desc();
    assert_eq!(d.width, i32::MAX);
    assert_eq!(d.height, 7);
    assert_eq!(d.sample_count, 4);
    assert!(d.render_target);
    assert_eq!(d.pixel_format, PixelFormat::Rgba8ui);
    assert_eq!(d.usage, TextureUsage::Stream);
}

#[test]
fn textures_remember_where_they_came_from() {
    let mut t = Texture::from_image_id(12);
    assert_eq!(t.inner(), 12);
    assert!(matches!(t.load_type(), TextureLoadType::Runtime));
    t.set_load_type(TextureLoadType::Script("s.lua".to_string()));
    assert!(matches!(t.load_type(), TextureLoadType::Script(p) if p == "s.lua"));
    assert_eq!(t.inner(), 12);
}

#[test]
fn first_texture_is_white() {
    let mut am = AssetManager::new();
    let id = am.push(Texture::from_image_id(1));
    assert_eq!(id, TextureId::white());
    let id2 = am.push(Texture::from_image_id(2));
    assert_eq!(id2, TextureId(1));
    assert_eq!(am.texture(id2).inner(), 2);
}

#[test]
fn image_files_are_loaded_once() {
    let mut am = AssetManager::new();
    am.push(Texture::from_image_id(1));
    assert_eq!(am.cached("a.png"), None);
    let id = am.add_image(2, "a.png");
    assert_eq!(id, TextureId(1));
    assert_eq!(am.len(), 2);
    assert_eq!(am.cached("a.png"), Some(id));
    assert_eq!(am.cached("b.png"), None);
    assert_eq!(am.texture(id).inner(), 2);
    assert!(matches!(am.texture(id).load_type(), TextureLoadType::Image(p) if p == "a.png"));
    assert!(matches!(am.texture(TextureId(0)).load_type(), TextureLoadType::Runtime));
    let b = am.add_image(3, "b.png");
    assert_eq!(am.cached("a.png"), Some(id));
    assert_eq!(am.cached("b.png"), Some(b));
    let a2 = am.add_image(4, "a.png");
    assert_eq!(am.cached("a.png"), Some(a2));
    assert!(matches!(am.texture(a2).load_type(), TextureLoadType::Image(p) if p == "a.png"));
}

#[test]
fn texture_references_are_read() {
    assert!(matches!(TextureLoadType::from_texture_string("image:art/a.png"), Some(TextureLoadType::Image(p)) if p == "art/a.png"));
    assert!(matches!(TextureLoadType::from_texture_string("script:gen.lua"), Some(TextureLoadType::Script(p)) if p == "gen.lua"));
    assert!(matches!(TextureLoadType::from_texture_string("image:c:/x.png"), Some(TextureLoadType::Image(p)) if p == "c:/x.png"));
    assert!(matches!(TextureLoadType::from_texture_string("image:"), Some(TextureLoadType::Image(p)) if p.is_empty()));
}

#[test]
fn texture_references_rejected() {
    assert!(TextureLoadType::from_texture_string("art/a.png").is_none());
    assert!(TextureLoadType::from_texture_string("audio:a.ogg").is_none());
    assert!(TextureLoadType::from_texture_string(":a.png").is_none());
    assert!(TextureLoadType::from_texture_string("Image:a.png").is_none());
    assert!(TextureLoadType::from_texture_string("").is_none());
}

#[test]
fn texture_references_are_written_and_read_back() {
    let t = TextureLoadType::Image("dir:with:colons.png".to_string());
    let s = t.to_texture_string();
    assert_eq!(s, "image:dir:with:colons.png");
    assert!(matches!(TextureLoadType::from_texture_string(&s), Some(TextureLoadType::Image(p)) if p == "dir:with:colons.png"));
    let t = TextureLoadType::Script("s.lua".to_string());
    assert_eq!(t.to_texture_string(), "script:s.lua");
}

#[test]
fn from_image_loads_a_file_once() {
    let mut am = AssetManager::new();
    let mut calls = 0;
    let id = am.from_image("a.png", |p: &str| {
        calls += 1;
        assert_eq!(p, "a.png");
        Some(7)
    });
    assert_eq!(calls, 1);
    assert_eq!(id, Some(TextureId(0)));
    assert_eq!(am.len(), 1);
    assert_eq!(am.texture(TextureId(0)).inner(), 7);
    assert!(matches!(am.texture(TextureId(0)).load_type(), TextureLoadType::Image(p) if p == "a.png"));
    let again = am.from_image("a.png", |_: &str| -> Option<u32> { panic!("a cached file is not loaded again") });
    assert_eq!(again, id);
    assert_eq!(am.len(), 1);
    assert_eq!(am.cached("a.png"), id);
}

#[test]
fn from_image_failure_changes_nothing() {
    let mut am = AssetManager::new();
    assert_eq!(am.from_image("missing.png", |_: &str| None), None);
    assert_eq!(am.len(), 0);
    assert_eq!(am.cached("missing.png"), None);
    let b = am.from_image("b.png", |_: &str| Some(3));
    assert_eq!(b, Some(TextureId(0)));
    let c = am.from_image("c.png", |_: &str| Some(4));
    assert_eq!(c, Some(TextureId(1)));
    assert_eq!(am.from_image("missing.png", |_: &str| None), None);
    assert_eq!(am.len(), 2);
}
