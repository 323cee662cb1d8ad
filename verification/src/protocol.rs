//! Wire protocol types.
use crate::ident::Uuid;
use crate::text::{chars_of, starts_with};
use vstd::prelude::*;

verus! {

/// Value advertised by the hub in the `welcome` frame. Clients that do not
/// understand a frame type treat it as unknown and ignore it.
pub const PROTOCOL_VERSION: &'static str = "clipboardwire/0.3.0";

/// Maximum WebSocket frame size accepted by the hub (50 MiB): large enough for
/// typical screenshot-sized PNGs without operator tuning, and for the
/// per-chunk size used by file transfers.
pub const MAX_FRAME_BYTES: usize = 52_428_800;

/// Bytes per `file_chunk` frame (4 MiB, raw, before base64). Chunks are independent
/// frames; the receiver assembles them by `file_id` and `chunk_index`.
pub const FILE_CHUNK_BYTES: usize = 4_194_304;

/// `content_type` for UTF-8 text payloads.
pub const TEXT_CONTENT_TYPE: &'static str = "text/plain; charset=utf-8";

/// `content_type` for PNG image payloads.
pub const IMAGE_PNG_CONTENT_TYPE: &'static str = "image/png";

/// Older name of [`TEXT_CONTENT_TYPE`], which new code should prefer.
pub const SUPPORTED_CONTENT_TYPE: &'static str = TEXT_CONTENT_TYPE;

/// Whether a MIME type is textual: its payload travels in `content` rather
/// than in `content_b64`.
pub open spec fn textual(content_type: Seq<char>) -> bool {
    "text/"@.is_prefix_of(content_type)
}

/// Returns whether `content_type` is one of the textual MIME types whose
/// payload travels in the `content` field rather than `content_b64`.
pub fn is_text_content_type(content_type: &str) -> (r: bool)
    ensures
        r == textual(content_type@),
{
    starts_with(content_type, "text/")
}

/// `clip` frame body. Either `content` (text) or `content_b64` (binary) is
/// set; never both, never neither: see [`ClipFrame::validate`].
#[derive(Debug, Clone, PartialEq, Eq)]
pub struct ClipFrame {
    pub id: Uuid,
    pub ts: i64,
    pub content_type: String,
    /// Text payload. Present iff `content_type` is textual.
    pub content: Option<String>,
    /// Base64-encoded binary payload. Present iff `content_type` is binary.
    pub content_b64: Option<String>,
    /// Filled by the hub on relay; absent on the client's outbound send.
    pub from: Option<Uuid>,
}

/// What is wrong with a `clip` frame, if anything is.
pub open spec fn clip_problem(frame: ClipFrame) -> Option<Seq<char>> {
    if frame.content is Some && frame.content_b64 is Some {
        Some("clip frame has both `content` and `content_b64`"@)
    } else if frame.content is None && frame.content_b64 is None {
        Some("clip frame has neither `content` nor `content_b64`"@)
    } else if frame.content is Some && !textual(frame.content_type@) {
        Some("`content` requires a text/* content_type"@)
    } else if frame.content_b64 is Some && textual(frame.content_type@) {
        Some("`content_b64` requires a non-text content_type"@)
    } else {
        None
    }
}

impl ClipFrame {
    /// Returns `Err` if neither or both payload fields are set, or if the
    /// payload kind disagrees with `content_type`.
    pub fn validate(&self) -> (r: Result<(), &'static str>)
        ensures
            r is Ok <==> clip_problem(*self) is None,
            r matches Err(reason) ==> clip_problem(*self) == Some(reason@),
    {
        match (self.content.is_some(), self.content_b64.is_some()) {
            (true, true) => Err("clip frame has both `content` and `content_b64`"),
            (false, false) => Err("clip frame has neither `content` nor `content_b64`"),
            (true, false) => {
                if !is_text_content_type(&self.content_type) {
                    Err("`content` requires a text/* content_type")
                } else {
                    Ok(())
                }
            },
            (false, true) => {
                if is_text_content_type(&self.content_type) {
                    Err("`content_b64` requires a non-text content_type")
                } else {
                    Ok(())
                }
            },
        }
    }
}

/// A `clip` frame is valid exactly where the field for its `content_type` is
/// set and the other one is not.
pub proof fn law_valid_clip_has_one_payload(frame: ClipFrame)
    ensures
        clip_problem(frame) is None <==> {
            &&& frame.content is Some <==> textual(frame.content_type@)
            &&& frame.content_b64 is Some <==> !textual(frame.content_type@)
        },
{
}

/// `welcome` frame body.
#[derive(Debug, Clone, PartialEq, Eq)]
pub struct WelcomeFrame {
    pub server: String,
    pub client_id: Uuid,
    pub last_clip: Option<ClipFrame>,
}

/// `error` frame body.
#[derive(Debug, Clone, PartialEq, Eq)]
pub struct ErrorFrame {
    pub code: ErrorCode,
    pub message: String,
}

/// Protocol-level error codes; each has a WebSocket close code of its own.
#[derive(Debug, Clone, Copy, PartialEq, Eq, Structural)]
pub enum ErrorCode {
    Unauthorized,
    BadFrame,
    FrameTooLarge,
    UnsupportedType,
    DuplicateSession,
}

/// The close code documented for an error.
pub open spec fn documented_close_code(code: ErrorCode) -> int {
    match code {
        ErrorCode::Unauthorized => 4001,
        ErrorCode::BadFrame => 4002,
        ErrorCode::FrameTooLarge => 4003,
        ErrorCode::UnsupportedType => 4004,
        ErrorCode::DuplicateSession => 4005,
    }
}

impl ErrorCode {
    /// WebSocket close code that pairs with this error.
    pub fn close_code(self) -> (r: u16)
        ensures
            r == documented_close_code(self),
    {
        match self {
            ErrorCode::Unauthorized => 4001,
            ErrorCode::BadFrame => 4002,
            ErrorCode::FrameTooLarge => 4003,
            ErrorCode::UnsupportedType => 4004,
            ErrorCode::DuplicateSession => 4005,
        }
    }
}

/// A close code tells which error it stands for, and lies in the range that
/// WebSocket leaves to applications.
pub proof fn law_close_codes_tell_errors_apart(a: ErrorCode, b: ErrorCode)
    ensures
        documented_close_code(a) == documented_close_code(b) <==> a == b,
        4000 <= documented_close_code(a) <= 4999,
{
}

/// A single chunk of a file transfer.
///
/// One file is sent as a sequence of `file_chunk` frames sharing the same
/// `file_id`. The receiver assembles them into a partial file and, on the
/// final chunk, verifies the SHA-256 against the value carried in every chunk
/// before moving the finished file into place.
#[derive(Debug, Clone, PartialEq, Eq)]
pub struct FileChunkFrame {
    /// Unique transfer id. All chunks of the same file share this.
    pub file_id: Uuid,
    /// Original filename (no directory component). The receiver sanitises
    /// this before using it as a path.
    pub name: String,
    /// Best-effort MIME type. May be `application/octet-stream`.
    pub content_type: String,
    /// 0-based chunk index.
    pub chunk_index: u32,
    /// Total number of chunks for this file. Receivers know they are done
    /// assembling when they have received every index in `0..total_chunks`.
    pub total_chunks: u32,
    /// SHA-256 of the *entire* file as a colon-separated uppercase hex
    /// string, repeated in every chunk so that a receiver that joins
    /// mid-transfer can still verify on completion.
    pub file_sha256: String,
    /// Total file size in bytes.
    pub file_size: u64,
    /// Base64-encoded bytes for this chunk. Decoded length is at most
    /// [`FILE_CHUNK_BYTES`] (smaller for the last chunk).
    pub payload_b64: String,
    /// Filled by the hub on relay; absent on the client's outbound send.
    pub from: Option<Uuid>,
}

/// What is wrong with a `file_chunk` frame, if anything is: the first of these
/// checks that fails.
pub open spec fn chunk_problem(frame: FileChunkFrame) -> Option<Seq<char>> {
    if frame.name@.len() == 0 {
        Some("file_chunk name must not be empty"@)
    } else if frame.name@.contains('\0') {
        Some("file_chunk name must not contain NUL bytes"@)
    } else if frame.total_chunks == 0 {
        Some("file_chunk total_chunks must be >= 1"@)
    } else if frame.chunk_index >= frame.total_chunks {
        Some("file_chunk chunk_index >= total_chunks"@)
    } else if frame.payload_b64@.len() == 0 {
        Some("file_chunk payload_b64 must not be empty"@)
    } else if frame.file_sha256@.len() == 0 {
        Some("file_chunk file_sha256 must not be empty"@)
    } else {
        None
    }
}

/// Whether `s` holds the character NUL.
fn holds_nul(s: &str) -> (r: bool)
    ensures
        r == s@.contains('\0'),
{
    let chars = chars_of(s);
    let n = chars.len();
    for i in 0..n
        invariant
            n == chars@.len(),
            chars@ == s@,
            forall|j: int| 0 <= j < i ==> s@[j] != '\0',
    {
        if chars[i] == '\0' {
            return true;
        }
    }
    false
}

impl FileChunkFrame {
    /// Sanity-check fields that a malicious sender could exploit. The hub
    /// calls this before relaying, so that a single bad client cannot make it
    /// fan out garbage.
    pub fn validate(&self) -> (r: Result<(), &'static str>)
        ensures
            r is Ok <==> chunk_problem(*self) is None,
            r matches Err(reason) ==> chunk_problem(*self) == Some(reason@),
    {
        if self.name.as_str().is_empty() {
            return Err("file_chunk name must not be empty");
        }
        if holds_nul(&self.name) {
            return Err("file_chunk name must not contain NUL bytes");
        }
        if self.total_chunks == 0 {
            return Err("file_chunk total_chunks must be >= 1");
        }
        if self.chunk_index >= self.total_chunks {
            return Err("file_chunk chunk_index >= total_chunks");
        }
        if self.payload_b64.as_str().is_empty() {
            return Err("file_chunk payload_b64 must not be empty");
        }
        if self.file_sha256.as_str().is_empty() {
            return Err("file_chunk file_sha256 must not be empty");
        }
        Ok(())
    }
}

/// Any frame on the wire.
#[derive(Debug, Clone, PartialEq, Eq)]
pub enum Frame {
    Clip(ClipFrame),
    Welcome(WelcomeFrame),
    Error(ErrorFrame),
    FileChunk(FileChunkFrame),
}

/// A content type is textual exactly where it is `text/` with anything behind.
pub proof fn law_textual_types_begin_with_text(subtype: Seq<char>, other: Seq<char>)
    requires
        other.len() < 5 || other.take(5) != seq!['t', 'e', 'x', 't', '/'],
    ensures
        textual(seq!['t', 'e', 'x', 't', '/'] + subtype),
        !textual(other),
{
    reveal_strlit("text/");
    let prefix = seq!['t', 'e', 'x', 't', '/'];
    assert("text/"@ =~= prefix);
    assert((prefix + subtype).subrange(0, 5) =~= prefix);
    if other.len() >= 5 {
        assert(other.subrange(0, 5) =~= other.take(5));
    }
}

/// A `clip` frame is refused for the payloads it holds, and for their kind only
/// where there is one: both, neither, text under a binary type, binary under a
/// textual type.
pub proof fn law_clip_is_refused_for_its_payload(frame: ClipFrame)
    ensures
        frame.content is Some && frame.content_b64 is Some <==> clip_problem(frame) == Some(
            "clip frame has both `content` and `content_b64`"@,
        ),
        frame.content is None && frame.content_b64 is None <==> clip_problem(frame) == Some(
            "clip frame has neither `content` nor `content_b64`"@,
        ),
        frame.content is Some && frame.content_b64 is None && !textual(frame.content_type@)
            <==> clip_problem(frame) == Some("`content` requires a text/* content_type"@),
        frame.content is None && frame.content_b64 is Some && textual(frame.content_type@)
            <==> clip_problem(frame) == Some("`content_b64` requires a non-text content_type"@),
{
    reveal_strlit("clip frame has both `content` and `content_b64`");
    reveal_strlit("clip frame has neither `content` nor `content_b64`");
    reveal_strlit("`content` requires a text/* content_type");
    reveal_strlit("`content_b64` requires a non-text content_type");
    assert("clip frame has both `content` and `content_b64`"@[11] == 'h');
    assert("clip frame has both `content` and `content_b64`"@.len() == 47);
    assert("clip frame has neither `content` nor `content_b64`"@.len() == 50);
    assert("`content` requires a text/* content_type"@.len() == 40);
    assert("`content_b64` requires a non-text content_type"@.len() == 46);
}

/// A `file_chunk` frame is valid exactly where it has a name without NUL, an
/// index below the number of chunks, a payload and a digest. Nothing else in it
/// counts: not its id, type or size, nor what the hub writes into `from`.
pub proof fn law_valid_chunk(frame: FileChunkFrame)
    ensures
        chunk_problem(frame) is None <==> {
            &&& frame.name@.len() > 0
            &&& forall|i: int| 0 <= i < frame.name@.len() ==> #[trigger] frame.name@[i] != '\0'
            &&& frame.chunk_index < frame.total_chunks
            &&& frame.payload_b64@.len() > 0
            &&& frame.file_sha256@.len() > 0
        },
{
    if frame.name@.contains('\0') {
        let i = choose|i: int| 0 <= i < frame.name@.len() && frame.name@[i] == '\0';
        assert(frame.name@[i] == '\0');
    }
}

/// What the hub writes into `from` on relay changes nothing of a chunk's
/// validity, nor the reason where it has none.
pub proof fn law_relay_keeps_chunk_validity(frame: FileChunkFrame, from: Option<Uuid>)
    ensures
        chunk_problem(FileChunkFrame { from, ..frame }) == chunk_problem(frame),
{
}

/// The reason for which a chunk is refused names what is wrong with it, the name
/// first, then the indices, then the payload, then the digest.
pub proof fn law_chunk_is_refused_for_its_first_fault(frame: FileChunkFrame)
    ensures
        ({
            let named = frame.name@.len() > 0;
            let clean = !frame.name@.contains('\0');
            let counted = frame.total_chunks > 0;
            let placed = frame.chunk_index < frame.total_chunks;
            let filled = frame.payload_b64@.len() > 0;
            let problem = chunk_problem(frame);
            &&& !named ==> problem == Some("file_chunk name must not be empty"@)
            &&& named && !clean ==> problem == Some("file_chunk name must not contain NUL bytes"@)
            &&& named && clean && !counted ==> problem == Some(
                "file_chunk total_chunks must be >= 1"@,
            )
            &&& named && clean && counted && !placed ==> problem == Some(
                "file_chunk chunk_index >= total_chunks"@,
            )
            &&& named && clean && placed && !filled ==> problem == Some(
                "file_chunk payload_b64 must not be empty"@,
            )
            &&& named && clean && placed && filled && frame.file_sha256@.len() == 0 ==> problem
                == Some("file_chunk file_sha256 must not be empty"@)
        }),
{
}

/// Each error closes the connection with its own documented code.
pub proof fn law_documented_close_codes()
    ensures
        documented_close_code(ErrorCode::Unauthorized) == 4001,
        documented_close_code(ErrorCode::BadFrame) == 4002,
        documented_close_code(ErrorCode::FrameTooLarge) == 4003,
        documented_close_code(ErrorCode::UnsupportedType) == 4004,
        documented_close_code(ErrorCode::DuplicateSession) == 4005,
{
}

} // verus!
