use crux::graphics::error::GraphicsError;
use crux::graphics::kitty::{parse_kitty_command, Compression, DeleteTarget, KittyAction};
use crux::graphics::types::{ImageId, PixelFormat, TransmissionMode};

#[test]
fn test_parse_basic_transmit() {
    let input = b"a=t,f=32,s=100,v=50,i=1;AAAA";
    let cmd = parse_kitty_command(input).unwrap();
    assert_eq!(cmd.action, KittyAction::Transmit);
    assert_eq!(cmd.format, PixelFormat::Rgba);
    assert_eq!(cmd.width, 100);
    assert_eq!(cmd.height, 50);
    assert_eq!(cmd.image_id, 1);
    assert_eq!(cmd.payload, b"AAAA");
}

#[test]
fn test_parse_transmit_and_display() {
    let input = b"a=T,f=24,s=200,v=100,i=5;AQID";
    let cmd = parse_kitty_command(input).unwrap();
    assert_eq!(cmd.action, KittyAction::Transmit);
    assert_eq!(cmd.format, PixelFormat::Rgb);
    assert_eq!(cmd.width, 200);
    assert_eq!(cmd.height, 100);
    assert_eq!(cmd.image_id, 5);
}

#[test]
fn test_parse_display_action() {
    // 'p' as the value of the action key means TransmitAndDisplay.
    let input = b"a=p,i=3,p=1,c=10,r=5,z=-1";
    let cmd = parse_kitty_command(input).unwrap();
    assert_eq!(cmd.action, KittyAction::TransmitAndDisplay);
    assert_eq!(cmd.image_id, 3);
    assert_eq!(cmd.placement_id, 1);
    assert_eq!(cmd.display_columns, 10);
    assert_eq!(cmd.display_rows, 5);
    assert_eq!(cmd.z_index, -1);
}

#[test]
fn test_parse_delete_all() {
    let input = b"a=d,d=a";
    let cmd = parse_kitty_command(input).unwrap();
    assert_eq!(cmd.action, KittyAction::Delete);
    assert_eq!(cmd.delete_target, Some(DeleteTarget::All));
}

#[test]
fn test_parse_delete_by_id() {
    let input = b"a=d,d=i,i=42";
    let cmd = parse_kitty_command(input).unwrap();
    assert_eq!(cmd.action, KittyAction::Delete);
    assert_eq!(cmd.delete_target, Some(DeleteTarget::ById(ImageId(42))));
}

#[test]
fn test_parse_delete_by_placement() {
    let input = b"a=d,d=i,i=42,p=7";
    let cmd = parse_kitty_command(input).unwrap();
    assert_eq!(cmd.action, KittyAction::Delete);
    assert_eq!(
        cmd.delete_target,
        Some(DeleteTarget::ByPlacement { image_id: ImageId(42), placement_id: 7 })
    );
}

#[test]
fn test_parse_chunked_transfer() {
    let chunk1 = b"a=t,f=32,s=100,v=50,i=1,m=1;AAAA";
    let cmd1 = parse_kitty_command(chunk1).unwrap();
    assert!(cmd1.more_data);

    let chunk2 = b"m=0;BBBB";
    let cmd2 = parse_kitty_command(chunk2).unwrap();
    assert!(!cmd2.more_data);
}

#[test]
fn test_parse_png_format() {
    let input = b"a=t,f=100,i=10;iVBORw0KGgo=";
    let cmd = parse_kitty_command(input).unwrap();
    assert_eq!(cmd.format, PixelFormat::Png);
}

#[test]
fn test_parse_file_transmission() {
    let input = b"a=t,t=f,i=1;L3RtcC9pbWFnZS5wbmc=";
    let cmd = parse_kitty_command(input).unwrap();
    assert_eq!(cmd.transmission, TransmissionMode::File);
}

#[test]
fn test_parse_zlib_compression() {
    let input = b"a=t,o=z,f=32,s=10,v=10,i=1;AAAA";
    let cmd = parse_kitty_command(input).unwrap();
    assert_eq!(cmd.compression, Compression::Zlib);
}

#[test]
fn test_parse_no_payload() {
    let input = b"a=d,d=a";
    let cmd = parse_kitty_command(input).unwrap();
    assert!(cmd.payload.is_empty());
}

#[test]
fn test_parse_query() {
    let input = b"a=q,i=1,s=1,v=1,f=32;AAAA";
    let cmd = parse_kitty_command(input).unwrap();
    assert_eq!(cmd.action, KittyAction::Query);
}

#[test]
fn test_decode_payload() {
    let input = b"a=t,f=32,s=1,v=1,i=1;AQID";
    let cmd = parse_kitty_command(input).unwrap();
    let decoded = cmd.decode_payload().unwrap();
    assert_eq!(decoded, vec![1, 2, 3]);
}

#[test]
fn test_decode_empty_payload() {
    let input = b"a=d,d=a";
    let cmd = parse_kitty_command(input).unwrap();
    let decoded = cmd.decode_payload().unwrap();
    assert!(decoded.is_empty());
}

#[test]
fn test_default_action_is_transmit_display() {
    // No 'a' key with payload should default to TransmitAndDisplay
    let input = b"f=32,s=10,v=10,i=1;AAAA";
    let cmd = parse_kitty_command(input).unwrap();
    assert_eq!(cmd.action, KittyAction::TransmitAndDisplay);
}

#[test]
fn test_quiet_mode() {
    let input = b"a=t,q=2,i=1;AAAA";
    let cmd = parse_kitty_command(input).unwrap();
    assert_eq!(cmd.quiet, 2);
}

#[test]
fn test_invalid_key_value_pair() {
    let input = b"invalid";
    let result = parse_kitty_command(input);
    assert!(result.is_err());
}

#[test]
fn test_negative_z_index() {
    let input = b"a=t,z=-10,i=1;AAAA";
    let cmd = parse_kitty_command(input).unwrap();
    assert_eq!(cmd.z_index, -10);
}

#[test]
fn transmit_family_reads_back_its_numbers() {
    for (w, h, id) in [(1u32, 1u32, 1u32), (4095, 17, 65534), (640, 480, 7)] {
        let input = format!("a=t,f=32,s={},v={},i={};AQID", w, h, id);
        let cmd = parse_kitty_command(input.as_bytes()).unwrap();
        assert_eq!(cmd.action, KittyAction::Transmit);
        assert_eq!(cmd.width, w);
        assert_eq!(cmd.height, h);
        assert_eq!(cmd.image_id, id);
        assert_eq!(cmd.payload, b"AQID");
    }
}

#[test]
fn display_family_reads_back_its_numbers() {
    for (c, r, z) in [(1u32, 1u32, -100i32), (199, 99, 99), (5, 5, i32::MIN), (5, 5, i32::MAX)] {
        let input = format!("a=p,i=1,c={},r={},z={}", c, r, z);
        let cmd = parse_kitty_command(input.as_bytes()).unwrap();
        assert_eq!(cmd.display_columns, c);
        assert_eq!(cmd.display_rows, r);
        assert_eq!(cmd.z_index, z);
    }
}

#[test]
fn invalid_utf8_is_a_parse_error() {
    let result = parse_kitty_command(&[0xff, 0xfe, 0x3b]);
    assert!(matches!(result, Err(GraphicsError::ParseError(_))));
}

#[test]
fn out_of_range_number_is_a_parse_error() {
    let result = parse_kitty_command(b"a=t,s=4294967296;AAAA");
    assert!(matches!(result, Err(GraphicsError::ParseError(_))));
    let result = parse_kitty_command(b"a=t,f=16;AAAA");
    assert!(matches!(result, Err(GraphicsError::ParseError(_))));
}

#[test]
fn unknown_keys_and_empty_pairs_are_ignored() {
    let cmd = parse_kitty_command(b"a=t,,X=9,ab=3,i=4;").unwrap();
    assert_eq!(cmd.image_id, 4);
    assert_eq!(cmd.action, KittyAction::Transmit);
}

#[test]
fn invalid_base64_payload_is_reported() {
    let cmd = parse_kitty_command(b"a=t,i=1;!!!!").unwrap();
    assert!(matches!(cmd.decode_payload(), Err(GraphicsError::Base64Decode(_))));
}

fn parse_error_text(input: &[u8]) -> String {
    match parse_kitty_command(input) {
        Err(GraphicsError::ParseError(m)) => m,
        other => panic!("expected a parse error, got {:?}", other.map(|c| c.action)),
    }
}

#[test]
fn parse_error_messages_name_the_fault() {
    assert_eq!(parse_error_text(b"abc"), "invalid key-value pair: abc");
    assert_eq!(parse_error_text(b"a=t,f=99"), "unsupported format: 99");
    assert_eq!(
        parse_error_text(b"i=abc"),
        "invalid image id: invalid digit found in string"
    );
    assert_eq!(
        parse_error_text(b"s=99999999999"),
        "invalid width: number too large to fit in target type"
    );
    assert_eq!(
        parse_error_text(b"z="),
        "invalid z-index: cannot parse integer from empty string"
    );
    assert_eq!(
        parse_error_text(b"z=-3000000000"),
        "invalid z-index: number too small to fit in target type"
    );
    assert_eq!(
        parse_error_text(b"q=300"),
        "invalid quiet: number too large to fit in target type"
    );
    assert!(parse_error_text(b"a=t\xff").starts_with("invalid UTF-8: "));
}
