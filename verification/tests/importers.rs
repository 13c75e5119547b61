use backstitch::import_settings::{
    bitmap_scaling_mode, font_settings, get_image_slices_from_image, get_or_default,
    get_slice_arrangement, get_width_and_height_from_params, image_source_of, import_scene,
    layered_texture, load_image_from_buffer, stream_settings, volume_shape, wav_settings,
    FontParams, ImageSource, LayerParams, LayeredClass, LayeredTexture, Region, SceneSource,
};
use backstitch::importers::{
    get_extension, get_temp_path, temp_file_name, FakeImporter, FakeResourceImporter,
    FakeResourceImporterImageFont, FakeResourceImporterLayeredTexture,
    FakeResourceImporterTexture, GodotError, ImporterKind,
};

fn params() -> LayerParams {
    LayerParams {
        arrangement: None,
        horizontal: None,
        vertical: None,
        layout: None,
        amount: None,
        mipmaps_limit: None,
    }
}

#[test]
fn extensions_are_lower_case() {
    assert_eq!(get_extension("res://A.PNG"), "png");
    assert_eq!(get_extension("res://\u{c4}.\u{c4}B"), "\u{e4}b");
    assert_eq!(get_extension("res://a"), "");
    assert_eq!(get_extension("res://.png"), "");
}

#[test]
fn files_are_recognized_by_their_extension() {
    let importers = FakeImporter::default();
    let kind = |path: &str| importers.import_file(path, None).map(|found| found.0);
    assert_eq!(kind("res://a.png"), Ok(ImporterKind::Texture));
    assert_eq!(kind("res://a.PNG"), Ok(ImporterKind::Texture));
    assert_eq!(kind("res://a.svg"), Ok(ImporterKind::SVG));
    assert_eq!(kind("res://a.mp3"), Ok(ImporterKind::MP3));
    assert_eq!(kind("res://a.ogg"), Ok(ImporterKind::OggVorbis));
    assert_eq!(kind("res://a.wav"), Ok(ImporterKind::WAV));
    assert_eq!(kind("res://a.fnt"), Ok(ImporterKind::BMFont));
    assert_eq!(kind("res://a.ttf"), Ok(ImporterKind::DynamicFont));
    assert_eq!(kind("res://a.obj"), Ok(ImporterKind::OBJ));
    assert_eq!(kind("res://a.glb"), Ok(ImporterKind::Scene));
    assert_eq!(kind("res://a.txt"), Err(GodotError::CantCreate));
    assert!(importers.recognize("res://a.png", None));
    assert!(!importers.recognize("res://a.txt", None));
}

#[test]
fn importers_are_found_by_name() {
    let importers = FakeImporter::default();
    assert_eq!(
        importers.import_file("res://a.txt", Some("3d_texture")),
        Ok((ImporterKind::LayeredTexture, "3d_texture".to_string()))
    );
    assert_eq!(
        importers.import_file("res://a.ogg", None),
        Ok((ImporterKind::OggVorbis, "oggvorbisstr".to_string()))
    );
    assert_eq!(importers.import_file("res://a.png", Some("unknown")), Err(GodotError::CantCreate));
    assert!(!importers.recognize("res://a.png", Some("unknown")));
    assert_eq!(ImporterKind::LayeredTexture.first_name(), "cubemap_texture");
    let layered = FakeResourceImporterLayeredTexture {};
    assert!(!layered.recognize("res://a.png", None));
    assert!(layered.recognize("res://a.png", Some("2d_array_texture")));
    assert_eq!(layered.get_recognized_importers().len(), 4);
    let texture = FakeResourceImporterTexture {};
    assert!(texture.get_recognized_extensions().contains(&"svg"));
    assert!(!texture.recognize("res://a.svg", None));
    assert!(!(FakeResourceImporterImageFont {}).recognize("res://a.ttf", None));
}

#[test]
fn imported_files_get_temporary_names() {
    assert_eq!(temp_file_name("res://d/a.png", "7", None), "backstitch_a_7.png");
    assert_eq!(temp_file_name("res://d/a.png", "7", Some("webp")), "backstitch_a_7.webp");
    assert_eq!(temp_file_name("res://d/a", "7", None), "backstitch_a_7.res");
    assert_eq!(temp_file_name("", "7", None), "backstitch_file_name_7.res");
    let one = get_temp_path("res://a.png", None);
    let two = get_temp_path("res://a.png", None);
    assert!(one.starts_with("backstitch_a_") && one.ends_with(".png"));
    assert_ne!(one, two);
}

#[test]
fn images_are_read_by_their_extension() {
    assert_eq!(load_image_from_buffer("res://a.PNG"), ImageSource::Png);
    assert_eq!(load_image_from_buffer("res://a.exr"), ImageSource::OwnPath);
    assert_eq!(load_image_from_buffer("patchwork/a.exr"), ImageSource::TempFile);
    assert_eq!(load_image_from_buffer("patchworks/a.exr"), ImageSource::OwnPath);
    for (ext, source) in [
        ("jpg", ImageSource::Jpg),
        ("bmp", ImageSource::Bmp),
        ("webp", ImageSource::Webp),
        ("tga", ImageSource::Tga),
        ("ktx", ImageSource::Ktx),
        ("dds", ImageSource::Dds),
        ("svg", ImageSource::Svg),
        ("jpeg", ImageSource::OwnPath),
    ] {
        assert_eq!(image_source_of(ext, "res://a"), source);
    }
}

#[test]
fn cubemaps_are_arranged() {
    assert_eq!(get_slice_arrangement(Some(0)), (1, 6));
    assert_eq!(get_slice_arrangement(Some(1)), (2, 3));
    assert_eq!(get_slice_arrangement(Some(2)), (3, 2));
    assert_eq!(get_slice_arrangement(Some(3)), (6, 1));
    assert_eq!(get_slice_arrangement(Some(9)), (2, 3));
    assert_eq!(get_slice_arrangement(None), (2, 3));
}

#[test]
fn slices_are_counted() {
    let count = |name: &str, p: &LayerParams| get_width_and_height_from_params(name, p);
    assert_eq!(count("cubemap_texture", &params()), Some((2, 3)));
    let sides = LayerParams { horizontal: Some(4), vertical: Some(5), ..params() };
    assert_eq!(count("2d_array_texture", &sides), Some((4, 5)));
    assert_eq!(count("3d_texture", &sides), Some((4, 5)));
    assert_eq!(count("3d_texture", &params()), Some((1, 1)));
    let many = LayerParams { layout: Some(0), amount: Some(3), ..params() };
    assert_eq!(count("cubemap_array_texture", &many), Some((6, 3)));
    let many = LayerParams { layout: None, amount: Some(3), ..params() };
    assert_eq!(count("cubemap_array_texture", &many), Some((2, 9)));
    let too_many = LayerParams { amount: Some(i32::MAX), ..params() };
    assert_eq!(count("cubemap_array_texture", &too_many), None);
    assert_eq!(count("texture", &sides), Some((1, 1)));
}

#[test]
fn slices_stay_inside() {
    let slices = get_image_slices_from_image(10, 9, 2, 3);
    assert_eq!(slices.len(), 6);
    assert_eq!(slices[0], Region { x: 0, y: 0, width: 5, height: 3 });
    assert_eq!(slices[1], Region { x: 5, y: 0, width: 5, height: 3 });
    assert_eq!(slices[5], Region { x: 5, y: 6, width: 5, height: 3 });
    // What does not divide evenly is left out.
    let slices = get_image_slices_from_image(7, 1, 3, 1);
    assert_eq!(slices[2], Region { x: 4, y: 0, width: 2, height: 1 });
    assert!(get_image_slices_from_image(7, 1, -3, 1).is_empty());
}

#[test]
fn volumes_have_a_shape() {
    let shape = volume_shape(10, 9, 2, 3, None).unwrap();
    assert_eq!((shape.width, shape.height, shape.depth, shape.mipmaps), (5, 3, 6, true));
    assert!(!volume_shape(10, 9, 2, 3, Some(0)).unwrap().mipmaps);
    assert_eq!(volume_shape(10, 9, -3, 3, None).unwrap().width, -3);
    assert!(volume_shape(10, 9, i32::MAX, 2, None).is_none());
}

#[test]
fn layered_textures_are_told_apart() {
    assert_eq!(layered_texture("3d_texture"), Ok(LayeredTexture::Volume));
    assert_eq!(layered_texture("cubemap_texture"), Ok(LayeredTexture::Layers(LayeredClass::Cubemap)));
    assert_eq!(layered_texture("2d_array_texture"), Ok(LayeredTexture::Layers(LayeredClass::Texture2DArray)));
    assert_eq!(layered_texture("cube_array_texture"), Ok(LayeredTexture::Layers(LayeredClass::CubemapArray)));
    assert_eq!(layered_texture("texture"), Err(GodotError::InvalidParameter));
}

#[test]
fn parameters_have_defaults() {
    assert_eq!(get_or_default(None, 7), 7);
    assert_eq!(get_or_default(Some(3), 7), 3);
    let stream = stream_settings(None, None, None);
    assert_eq!((stream.looped, stream.beat_count, stream.bar_beats), (false, 0, 4));
    let stream = stream_settings(Some(true), Some(2), Some(3));
    assert_eq!((stream.looped, stream.beat_count, stream.bar_beats), (true, 2, 3));
    let wav = wav_settings(None, None, None);
    assert_eq!((wav.loop_mode, wav.loop_begin, wav.loop_end), (None, 0, -1));
    assert_eq!(wav_settings(Some(2), None, None).loop_mode, Some(1));
    assert_eq!(bitmap_scaling_mode(None), 2);
    assert_eq!(bitmap_scaling_mode(Some(1)), 1);
    let font = font_settings(&FontParams {
        antialiasing: Some(1),
        generate_mipmaps: Some(true),
        disable_embedded_bitmaps: None,
        multichannel_signed_distance_field: None,
        msdf_pixel_range: Some(8),
        msdf_size: None,
        force_autohinter: None,
        modulate_color_glyphs: None,
        allow_system_fallback: Some(true),
        hinting: None,
        subpixel_positioning: None,
        keep_rounding_remainders: None,
    });
    assert_eq!((font.antialiasing, font.msdf_pixel_range, font.msdf_size), (1, 8, 0));
    assert!(font.generate_mipmaps && font.allow_system_fallback && !font.force_autohinter);
}

#[test]
fn scenes_are_read_by_their_extension() {
    assert_eq!(import_scene("res://a.escn"), Ok(SceneSource::TempFile));
    assert_eq!(import_scene("res://a.glb"), Ok(SceneSource::Gltf));
    assert_eq!(import_scene("res://a.gltf"), Ok(SceneSource::Gltf));
    assert_eq!(import_scene("res://a.fbx"), Ok(SceneSource::Fbx));
    assert_eq!(import_scene("res://a.GLB"), Err(GodotError::Unavailable));
    assert_eq!(import_scene("res://a"), Err(GodotError::Unavailable));
}
