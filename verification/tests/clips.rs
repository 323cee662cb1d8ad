use base64::engine::general_purpose::STANDARD;
use base64::Engine;
use clipboardwire::client::clipboard::{ClipChange, ImageBytes};
use clipboardwire::client::frame::{
    change_to_frame, change_to_frame_if_fits, frame_to_change, image_change, image_frame,
    text_frame, timestamp, FrameRejection, PayloadError,
};
use clipboardwire::client::png::{decode_png, encode_png, EncodeError};
use clipboardwire::ident::Uuid;
use clipboardwire::path::LocalPath;
use clipboardwire::protocol::{ClipFrame, IMAGE_PNG_CONTENT_TYPE, TEXT_CONTENT_TYPE};

fn small_image() -> ImageBytes {
    // 2x2 pure red / green / blue / white image.
    ImageBytes {
        width: 2,
        height: 2,
        rgba: vec![
            255, 0, 0, 255, // R
            0, 255, 0, 255, // G
            0, 0, 255, 255, // B
            255, 255, 255, 255, // W
        ],
    }
}

fn binary_frame(content_type: &str, b64: &str) -> ClipFrame {
    ClipFrame {
        id: Uuid::nil(),
        ts: 0,
        content_type: content_type.into(),
        content: None,
        content_b64: Some(b64.into()),
        from: None,
    }
}

#[test]
fn text_frame_roundtrip() {
    let in_change = ClipChange::Text("hello".into());
    let frame = change_to_frame(in_change.clone()).unwrap();
    assert_eq!(frame.content_type, TEXT_CONTENT_TYPE);
    assert!(frame.content_b64.is_none());

    let out_change = frame_to_change(&frame).unwrap();
    assert_eq!(out_change, in_change);
}

#[test]
fn image_frame_roundtrip_preserves_pixels() {
    let in_img = small_image();
    let frame = change_to_frame(ClipChange::Image(in_img.clone())).unwrap();
    assert_eq!(frame.content_type, IMAGE_PNG_CONTENT_TYPE);
    assert!(frame.content.is_none());

    let out_change = frame_to_change(&frame).unwrap();
    match out_change {
        ClipChange::Image(out_img) => assert_eq!(out_img, in_img),
        other => panic!("expected Image, got {other:?}"),
    }
}

#[test]
fn frame_with_unknown_content_type_is_rejected() {
    let frame = binary_frame("application/octet-stream", &STANDARD.encode(b"xx"));
    assert!(matches!(
        frame_to_change(&frame),
        Err(FrameRejection::UnsupportedType)
    ));
}

#[test]
fn corrupt_image_b64_is_rejected() {
    let frame = binary_frame(IMAGE_PNG_CONTENT_TYPE, "!!!not-base64!!!");
    assert!(matches!(
        frame_to_change(&frame),
        Err(FrameRejection::Decode(_))
    ));
    assert!(matches!(
        frame_to_change(&frame),
        Err(FrameRejection::Decode(PayloadError::Base64(_)))
    ));
}

#[test]
fn corrupt_png_payload_is_rejected() {
    // Valid base64, but the bytes are not a PNG.
    let frame = binary_frame(IMAGE_PNG_CONTENT_TYPE, &STANDARD.encode(b"not a png file"));
    assert!(matches!(
        frame_to_change(&frame),
        Err(FrameRejection::Decode(_))
    ));
    assert!(matches!(
        frame_to_change(&frame),
        Err(FrameRejection::Decode(PayloadError::Png(_)))
    ));
}

#[test]
fn missing_payloads_are_rejected() {
    let mut frame = binary_frame(IMAGE_PNG_CONTENT_TYPE, "");
    frame.content_b64 = None;
    assert!(matches!(
        frame_to_change(&frame),
        Err(FrameRejection::Decode(PayloadError::MissingContentB64))
    ));
    frame.content_type = "text/html".to_string();
    assert!(matches!(
        frame_to_change(&frame),
        Err(FrameRejection::Decode(PayloadError::MissingContent))
    ));
    frame.content = Some("<b>".to_string());
    frame.from = Some(Uuid { bits: 7 });
    assert_eq!(
        frame_to_change(&frame).unwrap(),
        ClipChange::Text("<b>".to_string())
    );
}

#[test]
fn frames_carry_id_time_and_payload() {
    let id = Uuid { bits: 42 };
    let frame = text_frame("x".to_string(), id, -5);
    assert_eq!(
        frame,
        ClipFrame {
            id,
            ts: -5,
            content_type: TEXT_CONTENT_TYPE.to_string(),
            content: Some("x".to_string()),
            content_b64: None,
            from: None,
        }
    );
    assert_eq!(frame.validate(), Ok(()));
    let frame = image_frame(b"\x89PNG\r\n\x1a\n", id, 9);
    assert_eq!(frame.content_b64.as_deref(), Some("iVBORw0KGgo="));
    assert_eq!(frame.content_type, "image/png");
    assert_eq!(frame.content, None);
    assert_eq!(frame.ts, 9);
    assert_eq!(frame.validate(), Ok(()));
}

#[test]
fn frames_get_fresh_ids_and_the_current_time() {
    let a = change_to_frame(ClipChange::Text("a".into())).unwrap();
    let b = change_to_frame(ClipChange::Text("a".into())).unwrap();
    assert_ne!(a.id, b.id);
    // After 2020 and before 2200.
    assert!(a.ts > 1_577_836_800_000 && a.ts < 7_258_118_400_000);
    assert!(b.ts >= a.ts);
}

#[test]
fn timestamps_are_cut_to_64_bits() {
    assert_eq!(timestamp(None), 0);
    assert_eq!(timestamp(Some(0)), 0);
    assert_eq!(timestamp(Some(1_716_163_200_000)), 1_716_163_200_000);
    assert_eq!(timestamp(Some(1 << 63)), i64::MIN);
    assert_eq!(timestamp(Some((1 << 64) + 3)), 3);
}

#[test]
fn files_do_not_become_a_single_frame() {
    assert!(matches!(
        change_to_frame(ClipChange::Files(vec![])),
        Err(EncodeError::Files)
    ));
    let path = LocalPath {
        components: vec![b"f".to_vec()],
    };
    assert!(matches!(
        change_to_frame_if_fits(ClipChange::Files(vec![path])),
        Some(Err(EncodeError::Files))
    ));
}

#[test]
fn images_of_any_size_are_tried() {
    let frame = change_to_frame_if_fits(ClipChange::Image(small_image()))
        .unwrap()
        .unwrap();
    assert_eq!(
        frame_to_change(&frame).unwrap(),
        ClipChange::Image(small_image())
    );
    let text = change_to_frame_if_fits(ClipChange::Text("t".into()))
        .unwrap()
        .unwrap();
    assert_eq!(
        frame_to_change(&text).unwrap(),
        ClipChange::Text("t".into())
    );
}

#[test]
fn short_buffers_and_empty_images_are_refused() {
    let mut short = small_image();
    short.rgba.pop();
    assert!(matches!(
        encode_png(&short),
        Err(EncodeError::InvalidBuffer)
    ));
    assert!(matches!(
        change_to_frame(ClipChange::Image(short)),
        Err(EncodeError::InvalidBuffer)
    ));
    for (width, height) in [(0, 0), (0, 3), (3, 0)] {
        let empty = ImageBytes {
            width,
            height,
            rgba: vec![],
        };
        assert!(matches!(encode_png(&empty), Err(EncodeError::Png(_))));
    }
}

#[test]
fn bytes_behind_the_last_pixel_are_left_out() {
    let mut long = small_image();
    long.rgba.push(9);
    let png = encode_png(&long).unwrap();
    assert_eq!(decode_png(&png).unwrap(), small_image());
}

#[test]
fn png_is_lossless_and_not_the_raw_bytes() {
    let mut rgba = Vec::new();
    for i in 0..(37 * 11 * 4) {
        rgba.push((i * 31 % 256) as u8);
    }
    let image = ImageBytes {
        width: 37,
        height: 11,
        rgba,
    };
    let png = encode_png(&image).unwrap();
    assert_eq!(&png[..8], b"\x89PNG\r\n\x1a\n");
    assert_ne!(png, image.rgba);
    assert_eq!(decode_png(&png).unwrap(), image);
    assert!(decode_png(&png[..20]).is_err());
    assert!(decode_png(b"").is_err());
}

#[test]
fn decoded_images_become_changes() {
    assert_eq!(
        image_change(Ok(small_image())).unwrap(),
        ClipChange::Image(small_image())
    );
    let failed = decode_png(b"nope");
    assert!(matches!(
        image_change(failed),
        Err(FrameRejection::Decode(PayloadError::Png(_)))
    ));
}
