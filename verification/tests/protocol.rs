use clipboardwire::ident::Uuid;
use clipboardwire::protocol::{
    is_text_content_type, ClipFrame, ErrorCode, FileChunkFrame, FILE_CHUNK_BYTES,
    IMAGE_PNG_CONTENT_TYPE, MAX_FRAME_BYTES, PROTOCOL_VERSION, SUPPORTED_CONTENT_TYPE,
    TEXT_CONTENT_TYPE,
};

fn clip(content_type: &str, content: Option<&str>, content_b64: Option<&str>) -> ClipFrame {
    ClipFrame {
        id: Uuid::nil(),
        ts: 0,
        content_type: content_type.to_string(),
        content: content.map(|s| s.to_string()),
        content_b64: content_b64.map(|s| s.to_string()),
        from: None,
    }
}

fn base_chunk() -> FileChunkFrame {
    FileChunkFrame {
        file_id: Uuid::nil(),
        name: "a.bin".into(),
        content_type: "application/octet-stream".into(),
        chunk_index: 0,
        total_chunks: 1,
        file_sha256: "00".into(),
        file_size: 1,
        payload_b64: "AA==".into(),
        from: None,
    }
}

#[test]
fn clip_frame_validate_rejects_missing_payload() {
    let f = clip(TEXT_CONTENT_TYPE, None, None);
    assert!(f.validate().is_err());
    assert_eq!(
        f.validate(),
        Err("clip frame has neither `content` nor `content_b64`")
    );
}

#[test]
fn clip_frame_validate_rejects_double_payload() {
    let f = clip(TEXT_CONTENT_TYPE, Some("x"), Some("eA=="));
    assert!(f.validate().is_err());
    assert_eq!(
        f.validate(),
        Err("clip frame has both `content` and `content_b64`")
    );
}

#[test]
fn clip_frame_validate_rejects_mismatched_kind() {
    let text_with_b64 = clip(TEXT_CONTENT_TYPE, None, Some("eA=="));
    assert!(text_with_b64.validate().is_err());
    assert_eq!(
        text_with_b64.validate(),
        Err("`content_b64` requires a non-text content_type")
    );

    let bin_with_text = clip(IMAGE_PNG_CONTENT_TYPE, Some("x"), None);
    assert!(bin_with_text.validate().is_err());
    assert_eq!(
        bin_with_text.validate(),
        Err("`content` requires a text/* content_type")
    );
}

#[test]
fn clip_frames_with_the_payload_of_their_kind_are_valid() {
    assert_eq!(clip(TEXT_CONTENT_TYPE, Some(""), None).validate(), Ok(()));
    assert_eq!(clip("text/html", Some("<p>"), None).validate(), Ok(()));
    assert_eq!(
        clip(IMAGE_PNG_CONTENT_TYPE, None, Some("eA==")).validate(),
        Ok(())
    );
}

#[test]
fn error_codes_have_documented_close_codes() {
    assert_eq!(ErrorCode::Unauthorized.close_code(), 4001);
    assert_eq!(ErrorCode::BadFrame.close_code(), 4002);
    assert_eq!(ErrorCode::FrameTooLarge.close_code(), 4003);
    assert_eq!(ErrorCode::UnsupportedType.close_code(), 4004);
    assert_eq!(ErrorCode::DuplicateSession.close_code(), 4005);
}

#[test]
fn file_chunk_validate_rejects_traversal_in_name() {
    let mut chunk = base_chunk();
    chunk.name = "".into();
    assert!(chunk.validate().is_err());
    assert_eq!(chunk.validate(), Err("file_chunk name must not be empty"));

    chunk.name = "ok\0sneaky".into();
    assert!(chunk.validate().is_err());
    assert_eq!(
        chunk.validate(),
        Err("file_chunk name must not contain NUL bytes")
    );
}

#[test]
fn file_chunk_validate_rejects_out_of_range_index() {
    let mut chunk = base_chunk();
    chunk.chunk_index = 4;
    chunk.total_chunks = 4;
    assert!(chunk.validate().is_err());
    assert_eq!(
        chunk.validate(),
        Err("file_chunk chunk_index >= total_chunks")
    );
    chunk.chunk_index = 3;
    assert_eq!(chunk.validate(), Ok(()));
}

#[test]
fn file_chunk_validate_rejects_zero_total() {
    let mut chunk = base_chunk();
    chunk.total_chunks = 0;
    assert!(chunk.validate().is_err());
    assert_eq!(
        chunk.validate(),
        Err("file_chunk total_chunks must be >= 1")
    );
}

#[test]
fn file_chunk_validate_rejects_missing_payload_and_digest() {
    let mut chunk = base_chunk();
    chunk.payload_b64 = String::new();
    assert_eq!(
        chunk.validate(),
        Err("file_chunk payload_b64 must not be empty")
    );
    let mut chunk = base_chunk();
    chunk.file_sha256 = String::new();
    assert_eq!(
        chunk.validate(),
        Err("file_chunk file_sha256 must not be empty")
    );
    assert_eq!(base_chunk().validate(), Ok(()));
}

#[test]
fn the_first_failing_check_gives_the_reason() {
    let mut chunk = base_chunk();
    chunk.name = String::new();
    chunk.total_chunks = 0;
    chunk.payload_b64 = String::new();
    assert_eq!(chunk.validate(), Err("file_chunk name must not be empty"));
}

#[test]
fn text_content_types_begin_with_text() {
    assert!(is_text_content_type("text/plain"));
    assert!(is_text_content_type("text/"));
    assert!(!is_text_content_type("text"));
    assert!(!is_text_content_type("TEXT/plain"));
    assert!(!is_text_content_type("image/png"));
    assert!(!is_text_content_type(""));
    assert!(!is_text_content_type(" text/plain"));
}

#[test]
fn constants_of_the_wire() {
    assert_eq!(PROTOCOL_VERSION, "clipboardwire/0.3.0");
    assert_eq!(MAX_FRAME_BYTES, 52_428_800);
    assert_eq!(FILE_CHUNK_BYTES, 4_194_304);
    assert_eq!(TEXT_CONTENT_TYPE, "text/plain; charset=utf-8");
    assert_eq!(IMAGE_PNG_CONTENT_TYPE, "image/png");
    assert_eq!(SUPPORTED_CONTENT_TYPE, TEXT_CONTENT_TYPE);
}
