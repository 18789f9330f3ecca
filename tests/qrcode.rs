use base64::Engine;
use dev_swiss::color::resolve_color;
use dev_swiss::compose::place_on_art;
use dev_swiss::matrix::classify_encoding_error;
use dev_swiss::RgbaImage;
use dev_swiss::overlay_blended;
use dev_swiss::render::color_to_hex;
use dev_swiss::{
    check_logo_size, fit_on_background, generate_ai_qr, generate_qr, overlay, overlay_logo,
    overlay_on_background, parse_color, render_to_image, render_to_svg, render_to_terminal,
    ErrorCorrectionLevel, ImageConfig, LogoConfig, QrConfig, QrError, QrMatrix, RasterImage,
};

fn qr_for(content: &str) -> QrMatrix {
    let config = QrConfig { content: content.to_string(), ..Default::default() };
    generate_qr(&config).unwrap()
}

fn plain_image(width: u32, height: u32, color: [u8; 3]) -> RasterImage {
    RasterImage { width, height, pixels: vec![color; (width * height) as usize] }
}

#[test]
fn qrcode_test_default_config() {
    let config = QrConfig::default();
    assert!(config.content.is_empty());
    assert_eq!(config.error_correction, ErrorCorrectionLevel::Medium);
    assert!(config.quiet_zone);
    assert!(!config.invert);
}

#[test]
fn test_generate_simple_qr() {
    let config = QrConfig { content: "https://example.com".to_string(), ..Default::default() };
    let qr = generate_qr(&config).unwrap();
    assert!(qr.width() > 0);
}

#[test]
fn test_empty_content_error() {
    let config = QrConfig::default();
    let result = generate_qr(&config);
    assert!(matches!(result, Err(QrError::EmptyContent)));
}

#[test]
fn test_terminal_render() {
    let config = QrConfig { content: "test".to_string(), ..Default::default() };
    let qr = generate_qr(&config).unwrap();
    let output = render_to_terminal(&qr, &config);
    assert!(!output.is_empty());
}

#[test]
fn test_inverted_render() {
    let config = QrConfig { content: "test".to_string(), invert: true, ..Default::default() };
    let qr = generate_qr(&config).unwrap();
    let normal_config = QrConfig { invert: false, ..config.clone() };
    let normal = render_to_terminal(&qr, &normal_config);
    let inverted = render_to_terminal(&qr, &config);
    assert_ne!(normal, inverted);
}

#[test]
fn test_parse_hex_color() {
    let color = parse_color("#ff5500").unwrap();
    assert_eq!(color, [255, 85, 0]);
}

#[test]
fn test_parse_named_color() {
    assert_eq!(parse_color("black").unwrap(), [0, 0, 0]);
    assert_eq!(parse_color("white").unwrap(), [255, 255, 255]);
    assert_eq!(parse_color("red").unwrap(), [255, 0, 0]);
}

#[test]
fn test_invalid_color() {
    let result = parse_color("invalid");
    assert!(matches!(result, Err(QrError::InvalidColor(_))));
}

#[test]
fn test_error_correction_levels() {
    for level in [
        ErrorCorrectionLevel::Low,
        ErrorCorrectionLevel::Medium,
        ErrorCorrectionLevel::Quartile,
        ErrorCorrectionLevel::High,
    ] {
        let config =
            QrConfig { content: "test".to_string(), error_correction: level, ..Default::default() };
        let qr = generate_qr(&config);
        assert!(qr.is_ok());
    }
}

#[test]
fn test_render_to_image() {
    let qr = qr_for("https://example.com");
    let image_config = ImageConfig::default();
    let image = render_to_image(&qr, &image_config);
    let (width, height) = image.dimensions();
    assert!(width > 0 && height > 0);
}

#[test]
fn test_render_to_svg() {
    let qr = qr_for("test");
    let image_config = ImageConfig::default();
    let svg = render_to_svg(&qr, &image_config);
    assert!(svg.contains("<svg"));
    assert!(svg.contains("</svg>"));
}

#[test]
fn test_logo_size_validation() {
    let logo_config = LogoConfig { path: "test.png".to_string(), size_percent: 50 };
    let qr = qr_for("test");
    let image_config = ImageConfig::default();
    let mut image = render_to_image(&qr, &image_config);
    let result = overlay_logo(&mut image, &logo_config, &[]);
    assert!(matches!(result, Err(QrError::LogoTooLarge)));
}

#[test]
fn generated_widths_follow_standard_steps() {
    for level in [
        ErrorCorrectionLevel::Low,
        ErrorCorrectionLevel::Medium,
        ErrorCorrectionLevel::Quartile,
        ErrorCorrectionLevel::High,
    ] {
        for content in ["a", "hello world", "https://example.com/some/longer/path?with=query"] {
            let config =
                QrConfig { content: content.to_string(), error_correction: level, ..Default::default() };
            let qr = generate_qr(&config).unwrap();
            assert!(qr.width >= 21 && qr.width <= 177);
            assert_eq!((qr.width - 17) % 4, 0);
            assert_eq!(qr.modules.len(), qr.width * qr.width);
        }
    }
}

#[test]
fn short_content_gives_smallest_matrix() {
    assert_eq!(qr_for("a").width, 21);
}

#[test]
fn empty_content_fails_at_every_level() {
    for level in [
        ErrorCorrectionLevel::Low,
        ErrorCorrectionLevel::Medium,
        ErrorCorrectionLevel::Quartile,
        ErrorCorrectionLevel::High,
    ] {
        let config = QrConfig { content: String::new(), error_correction: level, ..Default::default() };
        assert!(matches!(generate_qr(&config), Err(QrError::EmptyContent)));
    }
}

#[test]
fn oversized_content_is_too_large() {
    let config = QrConfig {
        content: "x".repeat(5000),
        error_correction: ErrorCorrectionLevel::High,
        ..Default::default()
    };
    assert!(matches!(generate_qr(&config), Err(QrError::ContentTooLarge)));
}

#[test]
fn encoder_messages_are_classified() {
    assert!(matches!(classify_encoding_error("data too long".to_string()), QrError::ContentTooLarge));
    match classify_encoding_error("invalid character".to_string()) {
        QrError::EncodingFailed(msg) => assert_eq!(msg, "invalid character"),
        other => panic!("unexpected {:?}", other),
    }
}

#[test]
fn named_colors_resolve() {
    assert_eq!(parse_color("black").unwrap(), [0, 0, 0]);
    assert_eq!(parse_color("green").unwrap(), [0, 255, 0]);
    assert_eq!(parse_color("blue").unwrap(), [0, 0, 255]);
    assert_eq!(parse_color("  BLUE ").unwrap(), [0, 0, 255]);
    assert_eq!(parse_color("White").unwrap(), [255, 255, 255]);
}

#[test]
fn hex_colors_resolve() {
    assert_eq!(parse_color("#ff5500").unwrap(), [255, 85, 0]);
    assert_eq!(parse_color("FF5500").unwrap(), [255, 85, 0]);
    assert_eq!(parse_color(" #0a0B0c ").unwrap(), [10, 11, 12]);
}

#[test]
fn malformed_colors_are_rejected() {
    for bad in ["not-a-color", "#ff550", "#ff55001", "#gg0000", "##ff5500", "+f0000", "", "aé0000"] {
        match parse_color(bad) {
            Err(QrError::InvalidColor(text)) => assert_eq!(text, bad),
            other => panic!("{:?} gave {:?}", bad, other),
        }
    }
}

#[test]
fn colors_are_written_as_hex() {
    assert_eq!(color_to_hex([255, 85, 0]), "#ff5500");
    assert_eq!(color_to_hex([0, 10, 171]), "#000aab");
}

#[test]
fn svg_uses_configured_colors() {
    let qr = qr_for("test");
    let config = ImageConfig { scale: 8, dark_color: [18, 52, 86], light_color: [255, 255, 0] };
    let svg = render_to_svg(&qr, &config);
    assert!(svg.contains("#123456"));
    assert!(svg.contains("#ffff00"));
}

#[test]
fn inverted_terminal_output_differs() {
    let qr = QrMatrix { width: 2, modules: vec![true, false, false, true] };
    let normal = QrConfig { content: "x".to_string(), quiet_zone: false, invert: false, ..Default::default() };
    let inverted = QrConfig { invert: true, ..normal.clone() };
    assert_ne!(render_to_terminal(&qr, &normal), render_to_terminal(&qr, &inverted));
}

#[test]
fn terminal_quiet_zone_adds_border() {
    let qr = qr_for("test");
    let with = QrConfig { content: "test".to_string(), ..Default::default() };
    let without = QrConfig { quiet_zone: false, ..with.clone() };
    let a = render_to_terminal(&qr, &with);
    let b = render_to_terminal(&qr, &without);
    assert!(a.lines().count() > b.lines().count());
}

#[test]
fn raster_side_is_modules_plus_two_times_scale() {
    let qr = qr_for("test");
    for scale in [1u32, 3, 8] {
        let config = ImageConfig { scale, ..Default::default() };
        let image = render_to_image(&qr, &config);
        let side = (qr.width as u32 + 2) * scale;
        assert_eq!(image.dimensions(), (side, side));
        assert_eq!(image.pixels.len(), (side * side) as usize);
    }
}

#[test]
fn raster_pixels_follow_modules() {
    let qr = QrMatrix { width: 2, modules: vec![true, false, false, true] };
    let dark = [1, 2, 3];
    let light = [9, 9, 9];
    let image = render_to_image(&qr, &ImageConfig { scale: 2, dark_color: dark, light_color: light });
    assert_eq!(image.dimensions(), (8, 8));
    assert_eq!(image.get_pixel(0, 0), light);
    assert_eq!(image.get_pixel(2, 2), dark);
    assert_eq!(image.get_pixel(3, 3), dark);
    assert_eq!(image.get_pixel(4, 2), light);
    assert_eq!(image.get_pixel(4, 4), dark);
    assert_eq!(image.get_pixel(7, 7), light);
}

#[test]
fn end_to_end_raster_border_is_light() {
    let config = QrConfig {
        content: "https://example.com".to_string(),
        error_correction: ErrorCorrectionLevel::Medium,
        ..Default::default()
    };
    let qr = generate_qr(&config).unwrap();
    let image_config = ImageConfig::default();
    let image = render_to_image(&qr, &image_config);
    let (w, h) = image.dimensions();
    assert_eq!(w % 8, 0);
    assert_eq!(h % 8, 0);
    for y in 0..h {
        for x in 0..w {
            if x < 8 || y < 8 || x >= w - 8 || y >= h - 8 {
                assert_eq!(image.get_pixel(x, y), [255, 255, 255]);
            }
        }
    }
}

#[test]
fn logo_sizes_outside_range_fail_before_reading() {
    let qr = qr_for("test");
    let mut image = render_to_image(&qr, &ImageConfig::default());
    let before = image.clone();
    for percent in [4u8, 31] {
        let logo = LogoConfig { path: "does/not/exist.png".to_string(), size_percent: percent };
        assert!(matches!(check_logo_size(&logo), Err(QrError::LogoTooLarge)));
        assert!(matches!(overlay_logo(&mut image, &logo, &[]), Err(QrError::LogoTooLarge)));
    }
    assert_eq!(image.pixels, before.pixels);
    for percent in [5u8, 30] {
        let logo = LogoConfig { path: String::new(), size_percent: percent };
        assert!(check_logo_size(&logo).is_ok());
    }
}

#[test]
fn undecodable_logo_names_its_path() {
    let qr = qr_for("test");
    let mut image = render_to_image(&qr, &ImageConfig::default());
    let logo = LogoConfig { path: "logo.png".to_string(), size_percent: 20 };
    match overlay_logo(&mut image, &logo, b"not an image") {
        Err(QrError::InvalidLogoPath(msg)) => assert!(msg.starts_with("logo.png: ")),
        other => panic!("unexpected {:?}", other),
    }
}

fn png_bytes(width: u32, height: u32, color: [u8; 3]) -> Vec<u8> {
    let img = image::RgbImage::from_pixel(width, height, image::Rgb(color));
    let mut out = std::io::Cursor::new(Vec::new());
    img.write_to(&mut out, image::ImageFormat::Png).unwrap();
    out.into_inner()
}

#[test]
fn logo_is_centred_and_fitted() {
    let mut image = plain_image(100, 100, [255, 255, 255]);
    let logo = LogoConfig { path: "logo.png".to_string(), size_percent: 20 };
    overlay_logo(&mut image, &logo, &png_bytes(40, 40, [200, 0, 0])).unwrap();
    assert_eq!(image.dimensions(), (100, 100));
    assert_eq!(image.get_pixel(50, 50), [200, 0, 0]);
    assert_eq!(image.get_pixel(40, 40), [200, 0, 0]);
    assert_eq!(image.get_pixel(59, 59), [200, 0, 0]);
    assert_eq!(image.get_pixel(39, 39), [255, 255, 255]);
    assert_eq!(image.get_pixel(60, 60), [255, 255, 255]);
}

#[test]
fn overlay_clips_and_overwrites() {
    let mut bottom = plain_image(4, 3, [0, 0, 0]);
    let top = plain_image(3, 3, [7, 7, 7]);
    overlay(&mut bottom, &top, 2, 1);
    assert_eq!(bottom.get_pixel(1, 1), [0, 0, 0]);
    assert_eq!(bottom.get_pixel(2, 1), [7, 7, 7]);
    assert_eq!(bottom.get_pixel(3, 2), [7, 7, 7]);
    assert_eq!(bottom.get_pixel(3, 0), [0, 0, 0]);
}

#[test]
fn small_background_is_too_small() {
    let qr = qr_for("test");
    let m = qr.width as u32;
    let side = 2 * 20 + 2 * m - 1;
    let background = plain_image(side, side + 50, [0, 0, 255]);
    let result = fit_on_background(&qr, background, &ImageConfig::default());
    assert!(matches!(result, Err(QrError::BackgroundTooSmall)));
}

#[test]
fn background_fit_centres_the_raster() {
    let qr = qr_for("test");
    let m = qr.width as u32;
    let side = 2 * 20 + 2 * m;
    let background = plain_image(side, side, [0, 0, 255]);
    let image = fit_on_background(&qr, background, &ImageConfig::default()).unwrap();
    assert_eq!(image.dimensions(), (side, side));
    let raster = (m + 2) * 2;
    let offset = (side - raster) / 2;
    assert_eq!(image.get_pixel(0, 0), [0, 0, 255]);
    assert_eq!(image.get_pixel(offset, offset), [255, 255, 255]);
    assert_eq!(image.get_pixel(offset + 2, offset + 2), [0, 0, 0]);
}

#[test]
fn background_bytes_are_decoded() {
    let qr = qr_for("test");
    let bytes = png_bytes(200, 200, [0, 0, 255]);
    let image = overlay_on_background(&qr, "bg.png", &bytes, &ImageConfig::default()).unwrap();
    assert_eq!(image.dimensions(), (200, 200));
    match overlay_on_background(&qr, "bg.png", b"nope", &ImageConfig::default()) {
        Err(QrError::InvalidLogoPath(msg)) => assert!(msg.starts_with("bg.png: ")),
        other => panic!("unexpected {:?}", other),
    }
}

#[test]
fn artwork_payload_failures() {
    let qr = qr_for("test");
    match generate_ai_qr(&qr, "***", &ImageConfig::default()) {
        Err(QrError::ImageProcessingFailed(msg)) => assert!(msg.starts_with("Failed to decode image: ")),
        other => panic!("unexpected {:?}", other),
    }
    match generate_ai_qr(&qr, "aGVsbG8=", &ImageConfig::default()) {
        Err(QrError::ImageProcessingFailed(msg)) => assert!(msg.starts_with("Failed to load image: ")),
        other => panic!("unexpected {:?}", other),
    }
}

#[test]
fn artwork_gets_the_matrix_in_its_centre() {
    let qr = qr_for("test");
    let m = qr.width as u32;
    let side = 40 + 3 * m;
    let payload = base64::engine::general_purpose::STANDARD.encode(png_bytes(side, side, [0, 200, 0]));
    let image = generate_ai_qr(&qr, &payload, &ImageConfig::default()).unwrap();
    assert_eq!(image.dimensions(), (side, side));
    assert_eq!(image.get_pixel(0, 0), [0, 200, 0]);
    let raster = (m + 2) * 3;
    let offset = (side - raster) / 2;
    assert_eq!(image.get_pixel(offset, offset), [255, 255, 255]);
    assert_eq!(image.get_pixel(offset + 3, offset + 3), [0, 0, 0]);
}

#[test]
fn small_artwork_is_returned_as_it_came() {
    let qr = qr_for("test");
    let payload = base64::engine::general_purpose::STANDARD.encode(png_bytes(30, 30, [0, 200, 0]));
    let image = generate_ai_qr(&qr, &payload, &ImageConfig::default()).unwrap();
    assert_eq!(image.dimensions(), (30, 30));
    assert!(image.pixels.iter().all(|p| *p == [0, 200, 0]));
}

#[test]
fn artwork_prompt_is_framed() {
    assert_eq!(
        dev_swiss::ai_prompt("sunset"),
        "A QR code with artistic styling: sunset. The QR code pattern should remain scannable."
    );
}

#[test]
fn colour_resolution_from_its_parts() {
    assert_eq!(resolve_color("Black", "black"), Some([0, 0, 0]));
    assert_eq!(resolve_color("RED", "red"), Some([255, 0, 0]));
    assert_eq!(resolve_color("#Ff5500", "#ff5500"), Some([255, 85, 0]));
    assert_eq!(resolve_color("123abc", "123abc"), Some([18, 58, 188]));
    assert_eq!(resolve_color("purple", "purple"), None);
    assert_eq!(resolve_color("#12345", "#12345"), None);
}

#[test]
fn art_placement_at_scale_two() {
    let qr = qr_for("test");
    let m = qr.width as u32;
    let side = 40 + 2 * m;
    let art = plain_image(side, side + 10, [0, 200, 0]);
    let image = place_on_art(&qr, art, &ImageConfig::default()).unwrap();
    assert_eq!(image.dimensions(), (side, side + 10));
    let raster = (m + 2) * 2;
    let x = (side - raster) / 2;
    let y = (side + 10 - raster) / 2;
    assert_eq!(image.get_pixel(x, y), [255, 255, 255]);
    assert_eq!(image.get_pixel(x + 2, y + 2), [0, 0, 0]);
    assert_eq!(image.get_pixel(x - 1, y), [0, 200, 0]);
}

fn rgba_png(width: u32, height: u32, color: [u8; 4]) -> Vec<u8> {
    let img = image::RgbaImage::from_pixel(width, height, image::Rgba(color));
    let mut out = std::io::Cursor::new(Vec::new());
    img.write_to(&mut out, image::ImageFormat::Png).unwrap();
    out.into_inner()
}

#[test]
fn clear_logo_leaves_the_code_visible() {
    let mut image = plain_image(100, 100, [10, 20, 30]);
    let logo = LogoConfig { path: "logo.png".to_string(), size_percent: 20 };
    overlay_logo(&mut image, &logo, &rgba_png(40, 40, [200, 0, 0, 0])).unwrap();
    assert!(image.pixels.iter().all(|p| *p == [10, 20, 30]));
}

#[test]
fn translucent_logo_is_blended() {
    let mut image = plain_image(100, 100, [0, 0, 0]);
    let logo = LogoConfig { path: "logo.png".to_string(), size_percent: 20 };
    overlay_logo(&mut image, &logo, &rgba_png(40, 40, [200, 200, 200, 128])).unwrap();
    let p = image.get_pixel(50, 50);
    assert!(p[0] > 0 && p[0] < 200);
    assert_eq!(image.get_pixel(10, 10), [0, 0, 0]);
}

#[test]
fn wide_logo_reaches_the_square_edge() {
    let mut image = plain_image(100, 100, [255, 255, 255]);
    let logo = LogoConfig { path: "logo.png".to_string(), size_percent: 20 };
    overlay_logo(&mut image, &logo, &rgba_png(80, 40, [0, 0, 0, 255])).unwrap();
    // fitted to 20 by 10, centred at (40, 45)
    assert_eq!(image.get_pixel(40, 45), [0, 0, 0]);
    assert_eq!(image.get_pixel(59, 54), [0, 0, 0]);
    assert_eq!(image.get_pixel(39, 45), [255, 255, 255]);
    assert_eq!(image.get_pixel(40, 44), [255, 255, 255]);
    assert_eq!(image.get_pixel(40, 55), [255, 255, 255]);
}

#[test]
fn blended_overlay_of_opaque_and_clear_pixels() {
    let mut bottom = plain_image(3, 1, [1, 1, 1]);
    let top = RgbaImage { width: 2, height: 1, pixels: vec![[9, 9, 9, 255], [9, 9, 9, 0]] };
    overlay_blended(&mut bottom, &top, 1, 0);
    assert_eq!(bottom.pixels, vec![[1, 1, 1], [9, 9, 9], [1, 1, 1]]);
}

#[test]
fn error_messages() {
    assert_eq!(QrError::EmptyContent.message(), "Content cannot be empty");
    assert_eq!(
        QrError::InvalidColor("pink".to_string()).message(),
        "Invalid color format: pink"
    );
}
