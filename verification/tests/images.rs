use aviary::assets::{app_icon, list, load};
use aviary::inline_images::{asset_path, Registry, CAP, CAP_BYTES};
use aviary::pictures::{
    actions_menu, clipboard_image, clipboard_way, helper_failure, looks_like_svg, mime_for_bytes, picture_file,
    rendered_png, ClipboardWay, ExportError, Lightbox, PictureAction, PictureFormat,
};
use std::hash::{Hash, Hasher};

#[test]
fn rendered_bgra_is_exported_as_rgba_png() {
    let png = rendered_png(1, 1, Some(vec![30, 20, 10, 255])).expect("PNG export");
    let decoded = image::load_from_memory(&png).expect("decode PNG").to_rgba8();
    let pixel = decoded.get_pixel(0, 0);
    assert_eq!(pixel.0, [10, 20, 30, 255]);
}

#[test]
fn clipboard_image_preserves_supported_encoded_format() {
    let png = png_bytes();
    let copied = clipboard_image(png.clone()).expect("clipboard image");
    assert_eq!(copied.format, PictureFormat::Png);
    assert_eq!(copied.bytes, png);

    let svg = b"<svg xmlns=\"http://www.w3.org/2000/svg\"></svg>".to_vec();
    let copied = clipboard_image(svg.clone()).expect("SVG clipboard image");
    assert_eq!(copied.format, PictureFormat::Svg);
    assert_eq!(copied.bytes, svg);
}

fn png_bytes() -> Vec<u8> {
    let mut bytes = Vec::new();
    image::DynamicImage::new_rgba8(1, 1)
        .write_to(&mut std::io::Cursor::new(&mut bytes), image::ImageFormat::Png)
        .expect("encode PNG");
    bytes
}

#[test]
fn images_that_cannot_be_copied_are_refused() {
    assert_eq!(clipboard_image(vec![1, 2, 3]).err(), Some("viewer-image-copy-unsupported"));
    assert_eq!(clipboard_image(Vec::new()).err(), Some("viewer-image-copy-unsupported"));
    let icon = vec![0, 0, 1, 0, 0, 0];
    assert_eq!(clipboard_image(icon).err(), Some("viewer-image-copy-unsupported"));
}

#[test]
fn formats_are_told_by_how_files_begin() {
    for (head, format) in [
        (&b"GIF89a...."[..], PictureFormat::Gif),
        (&b"GIF87a...."[..], PictureFormat::Gif),
        (&[0xff, 0xd8, 0xff, 0xe0][..], PictureFormat::Jpeg),
        (&b"BM......"[..], PictureFormat::Bmp),
        (&b"II*\0...."[..], PictureFormat::Tiff),
        (&b"MM\0*...."[..], PictureFormat::Tiff),
        (&b"RIFF\x04\0\0\0WEBPVP8 "[..], PictureFormat::WebP),
    ] {
        let copied = clipboard_image(head.to_vec()).expect("clipboard image");
        assert_eq!(copied.format, format);
    }
    assert_eq!(mime_for_bytes(&png_bytes()), "image/png");
    assert_eq!(mime_for_bytes(&b"GIF89a".to_vec()), "image/gif");
    assert_eq!(mime_for_bytes(&b"<svg/>".to_vec()), "image/svg+xml");
    let file = picture_file(&"a.png".to_string(), png_bytes());
    assert_eq!((file.filename.as_str(), file.mime, file.size as usize), ("a.png", "image/png", file.bytes.len()));
}

#[test]
fn drawings_are_told_by_their_text() {
    assert!(looks_like_svg(&b"  <svg></svg>".to_vec()));
    assert!(looks_like_svg(&b"<?xml version=\"1.0\"?><svg></svg>".to_vec()));
    assert!(!looks_like_svg(&b"<html></html>".to_vec()));
    assert!(!looks_like_svg(&vec![0xff, 0xfe, b'<', b's', b'v', b'g']));
}

#[test]
fn exports_need_their_pixels() {
    assert!(matches!(rendered_png(1, 1, None), Err(ExportError::Unavailable)));
    assert!(matches!(rendered_png(2, 2, Some(vec![0; 12])), Err(ExportError::Unavailable)));
    assert!(matches!(rendered_png(0, 2, Some(Vec::new())), Err(ExportError::Encoder(_))));
    assert!(matches!(rendered_png(-1, 2, Some(Vec::new())), Err(ExportError::Encoder(_))));
    let png = rendered_png(2, 1, Some(vec![1, 2, 3, 4, 5, 6, 7, 8])).expect("PNG export");
    assert_eq!(&png[..8], &[0x89, b'P', b'N', b'G', 0x0d, 0x0a, 0x1a, 0x0a]);
    let decoded = image::load_from_memory(&png).expect("decode PNG").to_rgba8();
    assert_eq!(decoded.get_pixel(1, 0).0, [7, 6, 5, 8]);
    let longer = rendered_png(2, 1, Some(vec![1, 2, 3, 4, 5, 6, 7, 8, 9, 9, 9])).expect("PNG export");
    assert_eq!(longer, png);
}

#[test]
fn the_menu_offers_to_enlarge_only_where_that_makes_sense() {
    assert_eq!(actions_menu(true)[0], PictureAction::Enlarge);
    assert_eq!(actions_menu(false), actions_menu(true)[1..].to_vec());
}

#[test]
fn wayland_needs_a_helper() {
    assert_eq!(clipboard_way("Wayland"), ClipboardWay::Helper);
    assert_eq!(clipboard_way("X11"), ClipboardWay::Native);
    assert_eq!(helper_failure("  no seat \n", "exit status: 1"), "no seat");
    assert_eq!(helper_failure("  \n", "exit status: 1"), "exit status: 1");
}

#[test]
fn the_lightbox_shows_one_image() {
    let mut lightbox = Lightbox { image: None };
    assert_eq!(lightbox.open(1), None);
    assert_eq!(lightbox.open(2), Some(1));
    assert!(!lightbox.on_key("a"));
    assert!(lightbox.on_key("escape"));
    assert_eq!(lightbox.close(), None);
}

#[test]
fn byte_cap_evicts_before_the_count_cap_is_reached() {
    let mut reg = Registry::new();
    let chunk = CAP_BYTES / 4;
    for ix in 0..10 {
        reg.register(&format!("aviary-cid/{ix:04x}"), &vec![0; chunk]);
    }

    assert!(reg.entries.len() < 10, "large images must evict each other");
    assert!(reg.total_bytes <= CAP_BYTES);
    assert_eq!(
        reg.total_bytes,
        reg.entries.iter().map(|entry| entry.1.len()).sum::<usize>(),
        "the running total must match what is actually held"
    );
}

#[test]
fn an_image_larger_than_the_budget_is_still_registered() {
    let mut reg = Registry::new();
    reg.register(&"aviary-cid/small".to_string(), &vec![0; 1024]);
    reg.register(&"aviary-cid/huge".to_string(), &vec![0; CAP_BYTES * 2]);

    assert!(reg.contains(&"aviary-cid/huge".to_string()));
    assert!(!reg.contains(&"aviary-cid/small".to_string()));
}

#[test]
fn the_count_cap_lets_the_oldest_go() {
    let mut reg = Registry::new();
    for ix in 0..CAP + 1 {
        reg.register(&format!("aviary-cid/{ix}"), &vec![1]);
    }
    assert_eq!(reg.stats(), (CAP, CAP));
    assert!(!reg.contains(&"aviary-cid/0".to_string()));
    assert!(reg.contains(&"aviary-cid/1".to_string()));
}

#[test]
fn an_image_is_found_under_its_path_alone() {
    let mut reg = Registry::new();
    let path = reg.register_bytes("message-a", "logo@example.test", &vec![1, 2, 3]);
    assert_eq!(path, asset_path("message-a", "logo@example.test"));
    assert_eq!(path.len(), "aviary-cid/".len() + 16);
    assert!(path["aviary-cid/".len()..].chars().all(|c| c.is_ascii_hexdigit() && !c.is_ascii_uppercase()));
    assert_ne!(path, asset_path("message-b", "logo@example.test"));
    assert_ne!(path, asset_path("message-a", "other@example.test"));
    assert_eq!(reg.load(&path), Some(vec![1, 2, 3]));
    assert_eq!(reg.load("icons/mail.svg"), None);

    let again = reg.register_bytes("message-a", "logo@example.test", &vec![9]);
    assert_eq!(again, path);
    assert_eq!(reg.load(&path), Some(vec![1, 2, 3]));
}

#[test]
fn the_path_is_the_hash_of_message_and_image() {
    let mut hasher = std::collections::hash_map::DefaultHasher::new();
    ("message-a", "logo").hash(&mut hasher);
    assert_eq!(asset_path("message-a", "logo"), format!("aviary-cid/{:016x}", hasher.finish()));
}

#[test]
fn kept_images_answer_before_what_is_built_in() {
    let mut reg = Registry::new();
    let path = reg.register_bytes("m", "c", &vec![1]);
    assert_eq!(load(&reg, &path, Some(vec![2])), Some(vec![1]));
    assert_eq!(load(&reg, "icons/mail.svg", Some(vec![2])), Some(vec![2]));
    assert_eq!(load(&reg, "icons/none.svg", None), None);
    assert_eq!(app_icon("mail"), "icons/mail.svg");
    let paths = vec!["icons/a.svg".to_string(), "fonts/b.ttf".to_string(), "icons/c.svg".to_string()];
    assert_eq!(list(&paths, "icons/"), vec!["icons/a.svg".to_string(), "icons/c.svg".to_string()]);
}
