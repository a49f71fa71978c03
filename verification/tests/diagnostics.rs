use libretro_core::diagnostics::font::{
    DiagnosticFont, DiagnosticGlyph, FntSection, FntTextDefinition, FntV1Header, FontError,
};
use libretro_core::diagnostics::frame::{
    diagnostic_character, diagnostic_pixel_scale, lerp_xrgb, render_software_diagnostic_xrgb8888_frame,
    wrap_diagnostic_message, XRGB_SOFTWARE_BAR, XRGB_SOFTWARE_BG_BOTTOM, XRGB_SOFTWARE_BG_TOP,
    XRGB_SOFTWARE_BORDER, XRGB_SOFTWARE_DIM_TEXT, XRGB_SOFTWARE_TEXT,
};

const FONT_HEADER_LINES: &[&str] = &["TEST CORE", "ERROR SCREEN"];

#[test]
fn software_diagnostic_frame_draws_visible_pixels() {
    let mut framebuffer = Vec::new();

    render_software_diagnostic_xrgb8888_frame(
        &mut framebuffer,
        160,
        120,
        7,
        FONT_HEADER_LINES,
        "software diagnostic",
    );

    assert_eq!(framebuffer.len(), 160 * 120);
    assert!(framebuffer.contains(&XRGB_SOFTWARE_TEXT));
    assert!(framebuffer.contains(&XRGB_SOFTWARE_DIM_TEXT));
}

#[test]
fn software_diagnostic_frame_layout_is_exact() {
    let mut framebuffer = vec![1, 2, 3];
    render_software_diagnostic_xrgb8888_frame(&mut framebuffer, 160, 120, 50, &[], "");
    assert_eq!(framebuffer.len(), 160 * 120);
    // Border on the four edges.
    assert_eq!(framebuffer[0], XRGB_SOFTWARE_BORDER);
    assert_eq!(framebuffer[3 * 160 + 80], XRGB_SOFTWARE_BORDER);
    assert_eq!(framebuffer[119 * 160 + 80], XRGB_SOFTWARE_BORDER);
    assert_eq!(framebuffer[60 * 160 + 159], XRGB_SOFTWARE_BORDER);
    // Progress bar: rows 106..112, columns 8..8+(50-8).
    assert_eq!(framebuffer[106 * 160 + 8], XRGB_SOFTWARE_BAR);
    assert_eq!(framebuffer[111 * 160 + 49], XRGB_SOFTWARE_BAR);
    assert_ne!(framebuffer[111 * 160 + 50], XRGB_SOFTWARE_BAR);
    // Background gradient away from text, border and bar.
    assert_eq!(framebuffer[100 * 160 + 150], lerp_xrgb(XRGB_SOFTWARE_BG_TOP, XRGB_SOFTWARE_BG_BOTTOM, 100 * 255 / 119));
    // The message falls back to a dim line.
    assert!(framebuffer.contains(&XRGB_SOFTWARE_DIM_TEXT));
    assert!(!framebuffer.contains(&XRGB_SOFTWARE_TEXT));
}

#[test]
fn software_diagnostic_frame_of_zero_size_is_empty() {
    let mut framebuffer = vec![1, 2, 3];
    render_software_diagnostic_xrgb8888_frame(&mut framebuffer, 0, 120, 1, FONT_HEADER_LINES, "x");
    assert!(framebuffer.is_empty());
}

#[test]
fn colors_blend_between_endpoints() {
    assert_eq!(lerp_xrgb(0x00102030, 0x00405060, 0), 0x00102030);
    assert_eq!(lerp_xrgb(0x00102030, 0x00405060, 255), 0x00405060);
    assert_eq!(lerp_xrgb(0x00102030, 0x00405060, 1000), 0x00405060);
    assert_eq!(lerp_xrgb(0x000000ff, 0x00ff0000, 128), 0x0080007f);
    assert_eq!(diagnostic_pixel_scale(160, 120), 2);
    assert_eq!(diagnostic_pixel_scale(640, 480), 3);
    assert_eq!(diagnostic_pixel_scale(4000, 4000), 4);
}

#[test]
fn diagnostic_messages_wrap_to_block_font_lines() {
    assert_eq!(
        wrap_diagnostic_message("this diagnostic message should be wrapped", 16),
        vec!["THIS DIAGNOSTIC", "MESSAGE SHOULD", "BE WRAPPED"]
    );
    assert_eq!(wrap_diagnostic_message("   ", 16), vec!["NO DIAGNOSTIC MESSAGE"]);
    assert_eq!(wrap_diagnostic_message("abcdefghij", 4), vec!["ABCD", "EFGH", "IJ"]);
    assert_eq!(wrap_diagnostic_message("ab c", 0), vec!["A", "B", "C"]);
    assert_eq!(wrap_diagnostic_message("é [x]", 10), vec!["? ?X?"]);
    let long = "w ".repeat(400);
    let lines = wrap_diagnostic_message(&long, 1000);
    assert_eq!(lines.len(), 1);
    assert_eq!(lines[0].len(), 319);
    assert_eq!(diagnostic_character('a'), 'A');
    assert_eq!(diagnostic_character('#'), '?');
}

struct FontImage {
    width: u16,
    height: u16,
    bytes_per_line: u16,
    rows: Vec<Vec<u8>>,
}

fn pcx(image: &FontImage, palette: bool) -> Vec<u8> {
    let mut data = vec![0u8; 128];
    data[0] = 0x0a;
    data[1] = 5;
    data[2] = 1;
    data[3] = 8;
    data[8..10].copy_from_slice(&(image.width - 1).to_le_bytes());
    data[10..12].copy_from_slice(&(image.height - 1).to_le_bytes());
    data[66..68].copy_from_slice(&image.bytes_per_line.to_le_bytes());
    for row in &image.rows {
        for &byte in row {
            if byte >= 0xc0 || byte == 7 {
                data.push(0xc1);
            }
            data.push(byte);
        }
    }
    if palette {
        data.push(0x0c);
        data.extend(std::iter::repeat(0u8).take(768));
    }
    data
}

fn fnt(pcx: &[u8], text: &str) -> Vec<u8> {
    let mut bytes = b"ElecbyteFnt\0".to_vec();
    bytes.extend_from_slice(&[0, 1, 0, 0]);
    let pcx_offset = 32u32;
    let text_offset = pcx_offset + pcx.len() as u32;
    bytes.extend_from_slice(&pcx_offset.to_le_bytes());
    bytes.extend_from_slice(&(pcx.len() as u32).to_le_bytes());
    bytes.extend_from_slice(&text_offset.to_le_bytes());
    bytes.extend_from_slice(&(text.len() as u32).to_le_bytes());
    bytes.extend_from_slice(pcx);
    bytes.extend_from_slice(text.as_bytes());
    bytes
}

/// A 13 x 8 atlas of two 6-pixel glyphs and a one-pixel spare column; the
/// rows hold one padding byte past the image width.
fn sample_image() -> FontImage {
    let rows = (0..8u8)
        .map(|y| {
            let mut row = vec![0u8; 14];
            row[1] = 7;
            row[7 + (y as usize % 5)] = 0xc5;
            row[12] = if y == 0 { 1 } else { 0 };
            row[13] = 9;
            row
        })
        .collect();
    FontImage { width: 13, height: 8, bytes_per_line: 14, rows }
}

const SAMPLE_TEXT: &str = "; sample font\r\n[Def]\nSize = 6, 8 ; glyph cell\nSpacing=1,-2\n\n[Map]\nA 0 6\nB 6 6\n0x43 12 1\nB 6 5\n0xZZ 1 1\n[Other]\nC 99 99\n";

#[test]
fn synthetic_fnt_v1_font_parses_metrics_and_glyphs() {
    let bytes = fnt(&pcx(&sample_image(), true), SAMPLE_TEXT);
    let font = DiagnosticFont::from_fnt_v1(&bytes).unwrap();

    assert_eq!(font.image_width(), 13);
    assert_eq!(font.image_height(), 8);
    assert_eq!(font.texture_width, 16);
    assert_eq!(font.texture_height, 8);
    assert_eq!(font.glyph_width, 6);
    assert_eq!(font.glyph_height, 8);
    assert_eq!(font.spacing_x(), 1);
    assert_eq!(font.spacing_y(), -2);
    assert_eq!(font.glyph('A'), Some(DiagnosticGlyph { x: 0, width: 6 }));
    assert_eq!(font.glyph('B'), Some(DiagnosticGlyph { x: 6, width: 5 }));
    assert_eq!(font.glyph('C'), Some(DiagnosticGlyph { x: 12, width: 1 }));
    assert_eq!(font.glyph('Z'), None);
}

#[test]
fn synthetic_font_alpha_texture_preserves_glyphs_and_padding() {
    let bytes = fnt(&pcx(&sample_image(), false), SAMPLE_TEXT);
    let font = DiagnosticFont::from_fnt_v1(&bytes).unwrap();
    let glyph = font.glyph('B').unwrap();
    let mut opaque_pixels = 0;

    for y in 0..font.glyph_height {
        for x in glyph.x..glyph.x + glyph.width {
            let alpha_index = ((y * font.texture_width + x) * 4 + 3) as usize;
            if font.rgba_pixels[alpha_index] == 255 {
                opaque_pixels += 1;
            }
        }
    }
    assert_eq!(opaque_pixels, 7);

    for y in 0..font.image_height() {
        let alpha_index = ((y * font.texture_width + font.image_width()) * 4 + 3) as usize;
        assert_eq!(font.rgba_pixels[alpha_index], 0);
    }
    assert_eq!(font.rgba_pixels.len(), 16 * 8 * 4);
    assert_eq!(&font.rgba_pixels[4..8], &[255, 255, 255, 255]);
    assert_eq!(&font.rgba_pixels[0..4], &[255, 255, 255, 0]);
    assert_eq!(&font.rgba_pixels[12 * 4..13 * 4], &[255, 255, 255, 255]);
    assert_eq!(&font.rgba_pixels[(16 + 12) * 4..(16 + 13) * 4], &[255, 255, 255, 0]);
}

#[test]
fn fnt_v1_header_and_sections_are_checked() {
    assert_eq!(FntV1Header::parse(&[0u8; 31]), Err(FontError::HeaderTooShort));
    let mut bytes = fnt(&pcx(&sample_image(), false), SAMPLE_TEXT);
    let header = FntV1Header::parse(&bytes).unwrap();
    assert_eq!(header.pcx_offset, 32);
    assert_eq!(header.text_offset, bytes.len() - SAMPLE_TEXT.len());

    bytes[11] = b'!';
    assert_eq!(
        DiagnosticFont::from_fnt_v1(&bytes).err(),
        Some(FontError::BadSignature)
    );
    bytes[11] = 0;
    let original_len = bytes.len();
    bytes.truncate(original_len - 1);
    assert_eq!(
        DiagnosticFont::from_fnt_v1(&bytes).err(),
        Some(FontError::SectionOutOfBounds(FntSection::Text))
    );
}

#[test]
fn fnt_v1_text_section_errors_name_the_offending_value() {
    let missing = FntTextDefinition::parse("[Map]\nA 0 6\n");
    assert_eq!(missing.err(), Some(FontError::MissingSize));
    assert_eq!(
        FntTextDefinition::parse("[Def]\nSize = 6\n").err(),
        Some(FontError::ExpectedPair("6".to_string()))
    );
    assert_eq!(
        FntTextDefinition::parse("[def]\nsize = 6, x\n").err(),
        Some(FontError::InvalidPairValue(" x".to_string()))
    );
    assert_eq!(
        FntTextDefinition::parse("[Def]\nSize=6,8\n[MAP]\nA -1 6\n").err(),
        Some(FontError::InvalidGlyphX("-1".to_string()))
    );
    assert_eq!(
        FntTextDefinition::parse("[Def]\nSize=6,8\n[Map]\nA 1 4294967296\n").err(),
        Some(FontError::InvalidGlyphWidth("4294967296".to_string()))
    );
    let definition = FntTextDefinition::parse("[Def]\nSize = -3, +8\nSpacing = -2147483648, 2147483647\n")
        .unwrap();
    assert_eq!(definition.glyph_width, 0);
    assert_eq!(definition.glyph_height, 8);
    assert_eq!(definition.spacing_x, i32::MIN);
    assert_eq!(definition.spacing_y, i32::MAX);
    assert_eq!(
        FntTextDefinition::parse("[Def]\nSpacing = 1, 2147483648\n").err(),
        Some(FontError::InvalidPairValue(" 2147483648".to_string()))
    );
}

#[test]
fn fnt_v1_font_checks_metrics_and_atlas() {
    let image = pcx(&sample_image(), false);
    let zero = fnt(&image, "[Def]\nSize = 0, 8\n");
    assert_eq!(DiagnosticFont::from_fnt_v1(&zero).err(), Some(FontError::ZeroGlyphMetrics));
    let tall = fnt(&image, "[Def]\nSize = 6, 9\n");
    assert_eq!(
        DiagnosticFont::from_fnt_v1(&tall).err(),
        Some(FontError::ImageTooShort { image_height: 8, glyph_height: 9 })
    );
    let wide = fnt(&image, "[Def]\nSize = 6, 8\n[Map]\nA 0 6\nB 12 5\nC 16 0\n");
    assert_eq!(
        DiagnosticFont::from_fnt_v1(&wide).err(),
        Some(FontError::GlyphOutsideTexture { character: 'B', x: 12, width: 5, texture_width: 16 })
    );
    let mut short = image.clone();
    short.truncate(128 + 10);
    assert_eq!(
        DiagnosticFont::from_fnt_v1(&fnt(&short, SAMPLE_TEXT)).err(),
        Some(FontError::PcxTruncated { decoded: 8, required: 14 * 8 })
    );
    let mut run = image[..128].to_vec();
    run.push(0xc3);
    assert_eq!(
        DiagnosticFont::from_fnt_v1(&fnt(&run, SAMPLE_TEXT)).err(),
        Some(FontError::PcxRunMissingValue)
    );
    let mut not_rle = image.clone();
    not_rle[3] = 4;
    assert_eq!(
        DiagnosticFont::from_fnt_v1(&fnt(&not_rle, SAMPLE_TEXT)).err(),
        Some(FontError::PcxNotRle8)
    );
    assert_eq!(
        DiagnosticFont::from_fnt_v1(&fnt(&image[..100], SAMPLE_TEXT)).err(),
        Some(FontError::PcxTooShort)
    );
    let mut inverted = image.clone();
    inverted[4] = 20;
    assert_eq!(
        DiagnosticFont::from_fnt_v1(&fnt(&inverted, SAMPLE_TEXT)).err(),
        Some(FontError::PcxBoundsInverted)
    );
}

#[test]
fn fnt_v1_inputs_that_overflow_are_reported_apart() {
    let mut huge = pcx(&sample_image(), false);
    huge[8..10].copy_from_slice(&0xffffu16.to_le_bytes());
    assert!(DiagnosticFont::try_from_fnt_v1(&fnt(&huge, SAMPLE_TEXT)).is_none());

    let mut narrow = pcx(&sample_image(), false);
    narrow[66..68].copy_from_slice(&2u16.to_le_bytes());
    // Rows of 2 bytes cannot hold a 13-pixel row of the last line.
    let mut image = narrow[..128].to_vec();
    image.extend(std::iter::repeat(0u8).take(16));
    assert!(DiagnosticFont::try_from_fnt_v1(&fnt(&image, SAMPLE_TEXT)).is_none());

    let ok = fnt(&pcx(&sample_image(), false), SAMPLE_TEXT);
    assert!(matches!(DiagnosticFont::try_from_fnt_v1(&ok), Some(Ok(_))));
}

fn plain_image(width: u16, height: u16) -> FontImage {
    let rows = (0..height).map(|y| (0..width).map(|x| ((x + y) % 2) as u8).collect()).collect();
    FontImage { width, height, bytes_per_line: width, rows }
}

#[test]
fn fnt_v1_atlas_is_padded_to_powers_of_two() {
    for (width, height, texture_width, texture_height) in [(16, 8, 16, 8), (17, 9, 32, 16), (1, 1, 1, 1)] {
        let bytes = fnt(&pcx(&plain_image(width, height), false), "[Def]\nSize=1,1\n[Map]\n0x41 0 1\n");
        let font = DiagnosticFont::from_fnt_v1(&bytes).unwrap();
        assert_eq!((font.texture_width, font.texture_height), (texture_width, texture_height));
        assert_eq!(font.rgba_pixels.len(), (texture_width * texture_height * 4) as usize);
        assert_eq!(font.glyph('A'), Some(DiagnosticGlyph { x: 0, width: 1 }));
    }
}

#[test]
fn font_errors_describe_themselves() {
    assert_eq!(FontError::MissingSize.message(), "FNT [Def] Size width is missing");
    assert_eq!(
        FontError::SectionOutOfBounds(FntSection::Pcx).message(),
        "PCX section points outside the FNT file"
    );
    assert_eq!(
        FontError::SectionOverflow(FntSection::Text).message(),
        "text section offset/size overflowed"
    );
    assert_eq!(
        FontError::PcxTruncated { decoded: 8, required: 112 }.message(),
        "PCX decoded 8 bytes, expected at least 112"
    );
    assert_eq!(
        FontError::ExpectedPair("6".to_string()).message(),
        "expected comma-separated pair, got \"6\""
    );
    assert_eq!(FontError::InvalidPairValue("x\ty".to_string()).message(), "invalid pair value: \"x\\ty\"");
    assert_eq!(FontError::InvalidGlyphWidth("-3".to_string()).message(), "invalid FNT glyph width: -3");
    assert_eq!(
        FontError::ImageTooShort { image_height: 4, glyph_height: 8 }.message(),
        "diagnostic font PCX height 4 is smaller than glyph height 8"
    );
    assert_eq!(
        FontError::GlyphOutsideTexture { character: 'B', x: 12, width: 5, texture_width: 16 }.message(),
        "diagnostic font glyph 'B' range 12..17 exceeds padded texture width 16"
    );
    assert_eq!(
        FontError::GlyphOutsideTexture { character: '\'', x: u32::MAX, width: 1, texture_width: 16 }.message(),
        "diagnostic font glyph '\\'' range 4294967295..4294967296 exceeds padded texture width 16"
    );
}

#[test]
fn software_frame_edge_rows_are_border_colored() {
    for (width, height) in [(160u32, 120u32), (3, 64), (640, 480)] {
        let mut framebuffer = vec![7u32; 5];
        render_software_diagnostic_xrgb8888_frame(
            &mut framebuffer,
            width,
            height,
            99,
            FONT_HEADER_LINES,
            "a fairly long message that wraps across several lines of the screen",
        );
        assert_eq!(framebuffer.len(), (width * height) as usize);
        for row in (0..4).chain(height - 4..height) {
            for col in 0..width {
                assert_eq!(framebuffer[(row * width + col) as usize], XRGB_SOFTWARE_BORDER);
            }
        }
    }
    let mut framebuffer = vec![7u32; 5];
    render_software_diagnostic_xrgb8888_frame(&mut framebuffer, 0, 120, 0, FONT_HEADER_LINES, "x");
    assert!(framebuffer.is_empty());
}

#[test]
fn wrapped_messages_hold_only_block_font_characters() {
    let allowed = |c: char| {
        c.is_ascii_uppercase() || c.is_ascii_digit() || " -:./_(),'=?!".contains(c)
    };
    for message in ["héllo wörld\tüber\r\nnext {line} #1", "", "   \n\t", "ab\u{3000}cd+ef"] {
        for line in wrap_diagnostic_message(message, 8) {
            assert!(line.chars().all(allowed), "{line:?}");
        }
    }
    assert_eq!(wrap_diagnostic_message("a+b", 8), vec!["A?B"]);
}
