use yappr::mascot::{
    content_bounds, decode_rgba, dictate_crop, icon_art, place_scaled, uses_dictate_crop, IconArt,
    Rect, Rgba, ICON_SIZE,
};
use yappr::ui_state::{
    is_animated, should_redraw, ERROR, IDLE, NO_AUDIO, NOTICE, PROVISIONING_MODEL, RECORDING_CHAT,
    RECORDING_DICTATE, STARTING, TRANSCRIBING,
};

// 4x4 image with a single opaque pixel at (1,2); rest transparent.
fn sparse_image() -> Rgba {
    let mut pixels = vec![0u8; 4 * 4 * 4];
    let i = (2 * 4 + 1) * 4;
    pixels[i..i + 4].copy_from_slice(&[10, 20, 30, 255]);
    Rgba {
        pixels,
        width: 4,
        height: 4,
    }
}

/// The nearest-neighbour scaling of the app: the scaled size in `f32`, then the copy.
fn scale_region(img: &Rgba, rect: Rect, size: usize) -> Vec<u8> {
    let scale = (size as f32 / rect.w.max(rect.h) as f32).max(f32::MIN_POSITIVE);
    let dw = ((rect.w as f32 * scale).round() as usize).clamp(1, size);
    let dh = ((rect.h as f32 * scale).round() as usize).clamp(1, size);
    place_scaled(img, rect, size, dw, dh)
}

#[test]
fn only_dictate_animates() {
    assert!(is_animated(RECORDING_DICTATE));
    for state in [IDLE, ERROR, NOTICE, RECORDING_CHAT, TRANSCRIBING] {
        assert!(!is_animated(state), "state {state} should be static");
    }
}

#[test]
fn content_bounds_ignores_transparent_padding() {
    let img = sparse_image();
    let b = content_bounds(&img.pixels, img.width, img.height);
    assert_eq!((b.x, b.y, b.w, b.h), (1, 2, 1, 1));
}

#[test]
fn content_bounds_falls_back_to_full_when_empty() {
    let pixels = vec![0u8; 2 * 2 * 4];
    let b = content_bounds(&pixels, 2, 2);
    assert_eq!((b.x, b.y, b.w, b.h), (0, 0, 2, 2));
}

#[test]
fn rect_union_covers_both() {
    let a = Rect {
        x: 1,
        y: 1,
        w: 2,
        h: 2,
    }; // covers 1..3
    let b = Rect {
        x: 4,
        y: 0,
        w: 1,
        h: 5,
    }; // covers x 4..5, y 0..5
    let u = a.union(b);
    assert_eq!((u.x, u.y, u.w, u.h), (1, 0, 4, 5));
}

#[test]
fn scale_region_fills_canvas_from_cropped_content() {
    let img = sparse_image();
    let bounds = content_bounds(&img.pixels, img.width, img.height);
    let out = scale_region(&img, bounds, ICON_SIZE);
    assert_eq!(out.len(), ICON_SIZE * ICON_SIZE * 4);
    let center = ((ICON_SIZE / 2) * ICON_SIZE + ICON_SIZE / 2) * 4;
    assert_eq!(&out[center..center + 4], &[10, 20, 30, 255]);
}

#[test]
fn faint_pixels_are_not_content() {
    let mut pixels = vec![0u8; 3 * 2 * 4];
    pixels[(0 * 3 + 2) * 4 + 3] = 4;
    pixels[(1 * 3 + 0) * 4 + 3] = 5;
    pixels[(1 * 3 + 1) * 4 + 3] = 200;
    let b = content_bounds(&pixels, 3, 2);
    assert_eq!((b.x, b.y, b.w, b.h), (0, 1, 2, 1));
}

#[test]
fn narrow_content_is_centred_on_the_canvas() {
    let mut pixels = vec![0u8; 2 * 1 * 4];
    pixels[0..4].copy_from_slice(&[1, 2, 3, 255]);
    pixels[4..8].copy_from_slice(&[4, 5, 6, 255]);
    let img = Rgba { pixels, width: 2, height: 1 };
    let out = place_scaled(&img, Rect { x: 0, y: 0, w: 2, h: 1 }, 4, 4, 2);
    assert_eq!(out.len(), 64);
    // Rows 0 and 3 stay transparent; rows 1 and 2 hold the two pixels, twice each.
    assert!(out[0..16].iter().all(|b| *b == 0));
    assert_eq!(&out[16..20], &[1, 2, 3, 255]);
    assert_eq!(&out[20..24], &[1, 2, 3, 255]);
    assert_eq!(&out[24..28], &[4, 5, 6, 255]);
    assert_eq!(&out[28..32], &[4, 5, 6, 255]);
    assert!(out[48..64].iter().all(|b| *b == 0));
}

#[test]
fn art_follows_state() {
    assert!(matches!(icon_art(RECORDING_DICTATE, 6), IconArt::DictateFrame(2)));
    assert!(matches!(icon_art(RECORDING_CHAT, 0), IconArt::Chat));
    assert!(matches!(icon_art(PROVISIONING_MODEL, 0), IconArt::Transcribing));
    assert!(matches!(icon_art(STARTING, 3), IconArt::Transcribing));
    assert!(matches!(icon_art(NOTICE, 0), IconArt::Idle));
    assert!(matches!(icon_art(200, 0), IconArt::Idle));
    assert!(matches!(icon_art(ERROR, 0), IconArt::Error));
    assert!(matches!(icon_art(NO_AUDIO, 0), IconArt::Error));
    assert!(uses_dictate_crop(RECORDING_DICTATE));
    assert!(!uses_dictate_crop(IDLE));
    assert!(should_redraw(RECORDING_DICTATE, RECORDING_DICTATE));
    assert!(should_redraw(IDLE, ERROR));
    assert!(!should_redraw(IDLE, IDLE));
}

fn png_bytes(width: u32, height: u32, color: png::ColorType, data: &[u8]) -> Vec<u8> {
    let mut out = Vec::new();
    {
        let mut encoder = png::Encoder::new(&mut out, width, height);
        encoder.set_color(color);
        encoder.set_depth(png::BitDepth::Eight);
        let mut writer = encoder.write_header().expect("header");
        writer.write_image_data(data).expect("data");
    }
    out
}

#[test]
fn decodes_rgba_icons_only() {
    let data = [9u8, 8, 7, 255, 0, 0, 0, 0];
    let img = decode_rgba(&png_bytes(2, 1, png::ColorType::Rgba, &data)).expect("rgba decodes");
    assert_eq!((img.width, img.height), (2, 1));
    assert_eq!(&img.pixels[..8], &data);
    let rgb = decode_rgba(&png_bytes(1, 1, png::ColorType::Rgb, &[1, 2, 3]));
    assert_eq!(rgb.err().as_deref(), Some("expected 8-bit RGBA png"));
    assert!(decode_rgba(b"not a png").is_err());
}

#[test]
fn dictate_frames_share_one_crop() {
    let mut a = vec![0u8; 4 * 4 * 4];
    a[(1 * 4 + 1) * 4 + 3] = 255;
    let mut b = vec![0u8; 4 * 4 * 4];
    b[(3 * 4 + 2) * 4 + 3] = 255;
    let frames = vec![
        Rgba { pixels: a, width: 4, height: 4 },
        Rgba { pixels: b, width: 4, height: 4 },
    ];
    let crop = dictate_crop(&frames);
    assert_eq!((crop.x, crop.y, crop.w, crop.h), (1, 1, 2, 3));
    let none = dictate_crop(&Vec::new());
    assert_eq!((none.x, none.y, none.w, none.h), (0, 0, 1, 1));
}
