use crux::clipboard::{pick_content, tiff_to_png, ClipboardContent, ClipboardError, PasteboardOffer};
use std::path::PathBuf;

#[test]
fn test_clipboard_content_types() {
    // Test that ClipboardContent variants are created correctly
    let text = ClipboardContent::Text("Hello".to_string());
    assert!(matches!(text, ClipboardContent::Text(_)));

    let html = ClipboardContent::Html("<p>Test</p>".to_string());
    assert!(matches!(html, ClipboardContent::Html(_)));

    let image = ClipboardContent::Image { png_data: vec![0x89, 0x50, 0x4E, 0x47] };
    assert!(matches!(image, ClipboardContent::Image { .. }));

    let paths = ClipboardContent::FilePaths(vec![PathBuf::from("/tmp/test.txt")]);
    assert!(matches!(paths, ClipboardContent::FilePaths(_)));
}

#[test]
fn test_clipboard_content_equality() {
    let text1 = ClipboardContent::Text("Hello".to_string());
    let text2 = ClipboardContent::Text("Hello".to_string());
    assert_eq!(text1, text2);

    let text3 = ClipboardContent::Text("World".to_string());
    assert_ne!(text1, text3);
}

#[test]
fn test_clipboard_error_display() {
    assert_eq!(ClipboardError::NoPasteboardTypes.to_string(), "no pasteboard types available");
    assert_eq!(ClipboardError::NoSupportedContent.to_string(), "no supported clipboard content found");
    assert_eq!(ClipboardError::NoText.to_string(), "no text in pasteboard");
    assert_eq!(ClipboardError::NoImage.to_string(), "no image data in pasteboard");
    assert_eq!(ClipboardError::WriteFailed.to_string(), "failed to write to pasteboard");
    assert_eq!(ClipboardError::NotImplemented.to_string(), "file path reading not yet implemented");
}

#[test]
fn test_new_error_variants() {
    let err = ClipboardError::ImageDecode("bad format".to_string());
    assert_eq!(err.to_string(), "failed to decode image: bad format");
    let err = ClipboardError::ImageEncode("write error".to_string());
    assert_eq!(err.to_string(), "failed to encode image: write error");
}

fn offer() -> PasteboardOffer {
    PasteboardOffer {
        has_types: true,
        file_paths: None,
        png_image: None,
        tiff_image: None,
        html: None,
        text: None,
    }
}

#[test]
fn read_priority_is_paths_images_html_text() {
    let mut o = offer();
    o.text = Some("t".to_string());
    o.html = Some("<b>h</b>".to_string());
    assert_eq!(pick_content(o).unwrap(), ClipboardContent::Html("<b>h</b>".to_string()));

    let mut o = offer();
    o.text = Some("t".to_string());
    o.tiff_image = Some(vec![2]);
    assert_eq!(pick_content(o).unwrap(), ClipboardContent::Image { png_data: vec![2] });

    let mut o = offer();
    o.png_image = Some(vec![1]);
    o.tiff_image = Some(vec![2]);
    o.file_paths = Some(vec![PathBuf::from("/a")]);
    assert_eq!(pick_content(o).unwrap(), ClipboardContent::FilePaths(vec![PathBuf::from("/a")]));

    let mut o = offer();
    o.text = Some("t".to_string());
    assert_eq!(pick_content(o).unwrap(), ClipboardContent::Text("t".to_string()));
}

#[test]
fn read_errors() {
    assert!(matches!(pick_content(offer()), Err(ClipboardError::NoSupportedContent)));
    let mut o = offer();
    o.has_types = false;
    o.text = Some("t".to_string());
    assert!(matches!(pick_content(o), Err(ClipboardError::NoPasteboardTypes)));
}

#[test]
fn tiff_that_does_not_decode_is_an_image_decode_error() {
    assert!(matches!(tiff_to_png(b"not a tiff"), Err(ClipboardError::ImageDecode(_))));
}

#[test]
fn tiff_converts_to_png() {
    // A 1x1 8-bit grayscale TIFF, uncompressed.
    let tiff: Vec<u8> = vec![
        0x49, 0x49, 0x2A, 0x00, 0x08, 0x00, 0x00, 0x00, // header, IFD at 8
        0x08, 0x00, // 8 entries
        0x00, 0x01, 0x03, 0x00, 0x01, 0x00, 0x00, 0x00, 0x01, 0x00, 0x00, 0x00, // width 1
        0x01, 0x01, 0x03, 0x00, 0x01, 0x00, 0x00, 0x00, 0x01, 0x00, 0x00, 0x00, // height 1
        0x02, 0x01, 0x03, 0x00, 0x01, 0x00, 0x00, 0x00, 0x08, 0x00, 0x00, 0x00, // 8 bits
        0x03, 0x01, 0x03, 0x00, 0x01, 0x00, 0x00, 0x00, 0x01, 0x00, 0x00, 0x00, // no compression
        0x06, 0x01, 0x03, 0x00, 0x01, 0x00, 0x00, 0x00, 0x01, 0x00, 0x00, 0x00, // black is zero
        0x11, 0x01, 0x04, 0x00, 0x01, 0x00, 0x00, 0x00, 0x6E, 0x00, 0x00, 0x00, // strip offset 110
        0x16, 0x01, 0x03, 0x00, 0x01, 0x00, 0x00, 0x00, 0x01, 0x00, 0x00, 0x00, // rows per strip
        0x17, 0x01, 0x04, 0x00, 0x01, 0x00, 0x00, 0x00, 0x01, 0x00, 0x00, 0x00, // strip byte count
        0x00, 0x00, 0x00, 0x00, // no next IFD
        0x7F, // the pixel
    ];
    let png = tiff_to_png(&tiff).unwrap();
    assert_eq!(&png[0..8], &[0x89, 0x50, 0x4E, 0x47, 0x0D, 0x0A, 0x1A, 0x0A]);
}
