//! Clipboard changes as wire frames, and back.
use crate::client::clipboard::{ChangeValues, ClipChange, ImageBytes, ImageValues};
use crate::client::png::{
    decode_png, encode_png, png_decoding, png_encoding, png_image, png_round_trips, rgba_fits, rgba_len,
    EncodeError,
};
use crate::codec::{
    base64_bytes, base64_decode, base64_encode, base64_fits, base64_text, fits_base64,
    law_base64_length, law_base64_reads_back,
};
use crate::ident::{random_uuid, Uuid};
use crate::protocol::{
    clip_problem, is_text_content_type, textual, ClipFrame, IMAGE_PNG_CONTENT_TYPE,
    TEXT_CONTENT_TYPE,
};
use crate::text::same_text;
use vstd::prelude::*;

verus! {

/// `SystemTime::elapsed` of `UNIX_EPOCH` in the standard library, in whole
/// milliseconds; `None` where the clock stands before 1970. What it gives
/// depends on the machine's clock, so nothing is stated of it.
#[verifier::external_body]
fn millis_since_epoch() -> Option<u128> {
    std::time::UNIX_EPOCH.elapsed().ok().map(|d| d.as_millis())
}

/// The time stamp for a clock that stands at `elapsed` milliseconds after the
/// epoch, cut to 64 bits; 0 where it stands before.
pub fn timestamp(elapsed: Option<u128>) -> (r: i64)
    ensures
        r == (match elapsed {
            Some(ms) => ms as i64,
            None => 0,
        }),
        elapsed matches Some(ms) ==> (ms <= i64::MAX ==> r == ms),
{
    match elapsed {
        Some(ms) => #[verifier::truncate]
        (ms as i64),
        None => 0,
    }
}

/// The current time in milliseconds since the epoch: [`timestamp`] of the
/// machine's clock. Any number is the time stamp of some clock, so nothing is
/// stated of it.
fn now_millis() -> i64 {
    timestamp(millis_since_epoch())
}

/// Whether `frame` carries `text`.
pub open spec fn carries_text(frame: ClipFrame, text: Seq<char>) -> bool {
    &&& frame.content_type@ == TEXT_CONTENT_TYPE@
    &&& frame.content matches Some(content)
    &&& content@ == text
    &&& frame.content_b64 is None
    &&& frame.from is None
}

/// Whether `frame` carries the PNG file `png`.
pub open spec fn carries_png(frame: ClipFrame, png: Seq<u8>) -> bool {
    &&& frame.content_type@ == IMAGE_PNG_CONTENT_TYPE@
    &&& frame.content is None
    &&& frame.content_b64 matches Some(text)
    &&& text@ == base64_text(png)
    &&& frame.from is None
}

/// A frame that carries `text`.
pub fn text_frame(text: String, id: Uuid, ts: i64) -> (r: ClipFrame)
    ensures
        r.id == id,
        r.ts == ts,
        carries_text(r, text@),
        clip_problem(r) is None,
        change_of(r) == Ok::<ChangeValues, Refusal>(ChangeValues::Text(text@)),
{
    proof {
        lemma_content_types();
    }
    ClipFrame {
        id,
        ts,
        content_type: TEXT_CONTENT_TYPE.to_string(),
        content: Some(text),
        content_b64: None,
        from: None,
    }
}

/// A frame that carries the PNG file `png`.
pub fn image_frame(png: &[u8], id: Uuid, ts: i64) -> (r: ClipFrame)
    requires
        base64_fits(png@.len()),
    ensures
        r.id == id,
        r.ts == ts,
        carries_png(r, png@),
        clip_problem(r) is None,
        png_image(png@) matches Some(image) ==> change_of(r) == Ok::<ChangeValues, Refusal>(
            ChangeValues::Image(image),
        ),
{
    proof {
        lemma_content_types();
        law_base64_reads_back(png@);
    }
    ClipFrame {
        id,
        ts,
        content_type: IMAGE_PNG_CONTENT_TYPE.to_string(),
        content: None,
        content_b64: Some(base64_encode(png)),
        from: None,
    }
}

proof fn lemma_content_types()
    ensures
        textual(TEXT_CONTENT_TYPE@),
        !textual(IMAGE_PNG_CONTENT_TYPE@),
{
    reveal_strlit("text/");
    reveal_strlit("text/plain; charset=utf-8");
    reveal_strlit("image/png");
    assert("text/plain; charset=utf-8"@.subrange(0, 5) =~= "text/"@);
    assert("image/png"@[0] != "text/"@[0]);
    if textual(IMAGE_PNG_CONTENT_TYPE@) {
        assert(IMAGE_PNG_CONTENT_TYPE@.subrange(0, 5)[0] == IMAGE_PNG_CONTENT_TYPE@[0]);
    }
}

/// Whether the base64 text of the change's PNG file, if it has one, fits in one
/// allocation.
pub open spec fn encodable(change: ChangeValues) -> bool {
    change matches ChangeValues::Image(image) ==> (rgba_fits(
        image.width,
        image.height,
        image.rgba.len(),
    ) ==> (png_encoding(image.width, image.height, image.rgba) matches Some(png) ==> base64_fits(
        png.len(),
    )))
}

/// Whether `r` is what encoding `change` gives.
pub open spec fn encoded(change: ChangeValues, r: Result<ClipFrame, EncodeError>) -> bool {
    match change {
        ChangeValues::Text(text) => r matches Ok(frame) && carries_text(frame, text),
        ChangeValues::Image(image) => if !rgba_fits(image.width, image.height, image.rgba.len()) {
            r matches Err(EncodeError::InvalidBuffer)
        } else {
            match png_encoding(image.width, image.height, image.rgba) {
                Some(png) => r matches Ok(frame) && carries_png(frame, png),
                None => r matches Err(EncodeError::Png(_)),
            }
        },
        ChangeValues::Files(_) => r matches Err(EncodeError::Files),
    }
}

/// Whether `change` is text, or an image whose pixels come back from a PNG file
/// and whose buffer holds nothing but them.
pub open spec fn survives_the_wire(change: ChangeValues) -> bool {
    match change {
        ChangeValues::Text(_) => true,
        ChangeValues::Image(image) => {
            &&& image.rgba.len() == rgba_len(image.width, image.height)
            &&& png_round_trips(image.width, image.height)
        },
        ChangeValues::Files(_) => false,
    }
}

/// Encodes an image into a wire frame with a fresh id and the current time;
/// `None` where its PNG file is too large for its base64 text to fit in one
/// allocation.
fn image_to_frame(image: ImageBytes) -> (r: Option<Result<ClipFrame, EncodeError>>)
    ensures
        r is Some <==> encodable(ChangeValues::Image(image@)),
        r matches Some(result) ==> encoded(ChangeValues::Image(image@), result),
        r matches Some(Ok(frame)) ==> random_uuid(frame.id.bits) && clip_problem(frame) is None,
        r is Some && survives_the_wire(ChangeValues::Image(image@)) ==> {
            &&& r->0 matches Ok(frame)
            &&& change_of(frame) == Ok::<ChangeValues, Refusal>(ChangeValues::Image(image@))
        },
{
    proof {
        if survives_the_wire(ChangeValues::Image(image@)) {
            lemma_small_image_fits(image.width, image.height);
            assert(image.rgba@.take(rgba_len(image.width, image.height)) =~= image.rgba@);
        }
    }
    match encode_png(&image) {
        Ok(png) => if fits_base64(png.len()) {
            Some(Ok(image_frame(&png, Uuid::new_v4(), now_millis())))
        } else {
            None
        },
        Err(e) => Some(Err(e)),
    }
}

/// Encodes a single-frame clipboard change (text or image) into a wire frame
/// with a fresh id and the current time. A list of files is refused: each file
/// is a transfer of many chunks.
///
/// Text, and an image within the decoder's limits, always becomes a valid frame
/// that decodes to the same change again.
pub fn change_to_frame(change: ClipChange) -> (r: Result<ClipFrame, EncodeError>)
    requires
        encodable(change@),
    ensures
        encoded(change@, r),
        r matches Ok(frame) ==> random_uuid(frame.id.bits) && clip_problem(frame) is None,
        survives_the_wire(change@) ==> {
            &&& r matches Ok(frame)
            &&& change_of(frame) == Ok::<ChangeValues, Refusal>(change@)
        },
{
    match change {
        ClipChange::Text(text) => Ok(text_frame(text, Uuid::new_v4(), now_millis())),
        ClipChange::Image(image) => image_to_frame(image).unwrap(),
        ClipChange::Files(_) => Err(EncodeError::Files),
    }
}

proof fn lemma_small_image_fits(width: u32, height: u32)
    requires
        png_round_trips(width, height),
    ensures
        rgba_fits(width, height, rgba_len(width, height) as nat),
{
    assert(width * 4 <= width * height * 4) by (nonlinear_arith)
        requires
            width > 0,
            height > 0,
    ;
}

/// [`change_to_frame`] for a change of any size: `None` where the image's PNG
/// file is too large for its base64 text to fit in one allocation.
pub fn change_to_frame_if_fits(change: ClipChange) -> (r: Option<Result<ClipFrame, EncodeError>>)
    ensures
        r is Some <==> encodable(change@),
        r matches Some(result) ==> encoded(change@, result),
        r matches Some(Ok(frame)) ==> random_uuid(frame.id.bits) && clip_problem(frame) is None,
        r is Some && survives_the_wire(change@) ==> {
            &&& r->0 matches Ok(frame)
            &&& change_of(frame) == Ok::<ChangeValues, Refusal>(change@)
        },
{
    match change {
        ClipChange::Image(image) => image_to_frame(image),
        change => Some(change_to_frame(change)),
    }
}

/// Why an inbound frame does not become a clipboard change.
#[derive(Debug)]
pub enum FrameRejection {
    /// The content type is neither textual nor `image/png`.
    UnsupportedType,
    /// The payload could not be decoded.
    Decode(PayloadError),
}

/// Why a frame's payload could not be decoded.
#[derive(Debug)]
pub enum PayloadError {
    /// A `text/*` frame is missing `content`.
    MissingContent,
    /// An `image/png` frame is missing `content_b64`.
    MissingContentB64,
    /// `content_b64` is not base64.
    Base64(base64::DecodeError),
    /// The payload is not a PNG file.
    Png(image::ImageError),
}

/// Why an inbound frame is refused, without the decoders' detail.
pub enum Refusal {
    UnsupportedType,
    MissingContent,
    MissingContentB64,
    Base64,
    Png,
}

impl View for FrameRejection {
    type V = Refusal;

    open spec fn view(&self) -> Refusal {
        match *self {
            FrameRejection::UnsupportedType => Refusal::UnsupportedType,
            FrameRejection::Decode(PayloadError::MissingContent) => Refusal::MissingContent,
            FrameRejection::Decode(PayloadError::MissingContentB64) => Refusal::MissingContentB64,
            FrameRejection::Decode(PayloadError::Base64(_)) => Refusal::Base64,
            FrameRejection::Decode(PayloadError::Png(_)) => Refusal::Png,
        }
    }
}

/// The change that a decoded PNG file gives.
pub open spec fn change_of_image(image: Option<ImageValues>) -> Result<ChangeValues, Refusal> {
    match image {
        Some(image) => Ok(ChangeValues::Image(image)),
        None => Err(Refusal::Png),
    }
}

/// The change that an inbound frame stands for, or why it is refused. Only the
/// payload field that goes with the content type is looked at.
pub open spec fn change_of(frame: ClipFrame) -> Result<ChangeValues, Refusal> {
    if textual(frame.content_type@) {
        match frame.content {
            Some(text) => Ok(ChangeValues::Text(text@)),
            None => Err(Refusal::MissingContent),
        }
    } else if frame.content_type@ == IMAGE_PNG_CONTENT_TYPE@ {
        match frame.content_b64 {
            None => Err(Refusal::MissingContentB64),
            Some(text) => match base64_bytes(text@) {
                None => Err(Refusal::Base64),
                Some(png) => change_of_image(png_image(png)),
            },
        }
    } else {
        Err(Refusal::UnsupportedType)
    }
}

/// The change for a PNG file that was decoded, or was not.
pub fn image_change(decoded: Result<ImageBytes, image::ImageError>) -> (r: Result<
    ClipChange,
    FrameRejection,
>)
    ensures
        (match r {
            Ok(change) => Ok(change@),
            Err(e) => Err(e@),
        }) == change_of_image(
            match decoded {
                Ok(image) => Some(image@),
                Err(_) => None,
            },
        ),
{
    match decoded {
        Ok(image) => Ok(ClipChange::Image(image)),
        Err(e) => Err(FrameRejection::Decode(PayloadError::Png(e))),
    }
}

/// Decodes an inbound wire frame into a clipboard change.
pub fn frame_to_change(clip: &ClipFrame) -> (r: Result<ClipChange, FrameRejection>)
    ensures
        (match r {
            Ok(change) => Ok(change@),
            Err(e) => Err(e@),
        }) == change_of(*clip),
{
    if is_text_content_type(&clip.content_type) {
        match &clip.content {
            Some(text) => Ok(ClipChange::Text(text.clone())),
            None => Err(FrameRejection::Decode(PayloadError::MissingContent)),
        }
    } else if same_text(&clip.content_type, IMAGE_PNG_CONTENT_TYPE) {
        match &clip.content_b64 {
            None => Err(FrameRejection::Decode(PayloadError::MissingContentB64)),
            Some(text) => match base64_decode(text) {
                Err(e) => Err(FrameRejection::Decode(PayloadError::Base64(e))),
                Ok(png) => image_change(decode_png(&png)),
            },
        }
    } else {
        Err(FrameRejection::UnsupportedType)
    }
}

/// What the hub writes into `from` on relay does not change what a frame stands
/// for.
pub proof fn law_relay_keeps_change(sent: ClipFrame, from: Option<Uuid>)
    ensures
        change_of(ClipFrame { from, ..sent }) == change_of(sent),
        clip_problem(ClipFrame { from, ..sent }) == clip_problem(sent),
{
}

/// A valid frame is never refused for a missing payload.
pub proof fn law_valid_frame_has_its_payload(frame: ClipFrame)
    requires
        clip_problem(frame) is None,
    ensures
        !(change_of(frame) matches Err(Refusal::MissingContent)),
        !(change_of(frame) matches Err(Refusal::MissingContentB64)),
{
}

/// A frame of a textual type stands for its text, one of type `image/png` for
/// the image that its payload decodes to, and one of any other type for nothing.
/// Neither its id, its time nor its sender counts.
pub proof fn law_frame_stands_for_its_payload(frame: ClipFrame)
    ensures
        ({
            let text = textual(frame.content_type@);
            let png = frame.content_type@ == IMAGE_PNG_CONTENT_TYPE@;
            let change = change_of(frame);
            &&& text && frame.content is Some ==> change == Ok::<ChangeValues, Refusal>(
                ChangeValues::Text(frame.content->0@),
            )
            &&& text && frame.content is None ==> change == Err::<ChangeValues, Refusal>(
                Refusal::MissingContent,
            )
            &&& !text && !png ==> change == Err::<ChangeValues, Refusal>(Refusal::UnsupportedType)
            &&& !text && png && frame.content_b64 is None ==> change == Err::<
                ChangeValues,
                Refusal,
            >(Refusal::MissingContentB64)
        }),
{
}

/// An `image/png` frame whose payload is the base64 text of a PNG file stands
/// for the image in it; other base64 is no PNG file, and other text no base64.
pub proof fn law_image_frame_stands_for_its_image(frame: ClipFrame, png: Seq<u8>)
    requires
        frame.content_type@ == IMAGE_PNG_CONTENT_TYPE@,
        frame.content_b64 is Some,
    ensures
        frame.content_b64->0@ == base64_text(png) ==> change_of(frame) == (match png_decoding(
            png,
        ) {
            Some((width, height, rgba)) => Ok::<ChangeValues, Refusal>(
                ChangeValues::Image(ImageValues { width, height, rgba }),
            ),
            None => Err(Refusal::Png),
        }),
        base64_bytes(frame.content_b64->0@) is None ==> change_of(frame) == Err::<
            ChangeValues,
            Refusal,
        >(Refusal::Base64),
{
    lemma_content_types();
    law_base64_reads_back(png);
}

/// A text becomes a frame of the text type with that text and nothing else, and
/// never fails; a list of files never becomes a frame.
pub proof fn law_text_becomes_its_frame(
    text: Seq<char>,
    paths: Seq<Seq<Seq<u8>>>,
    r: Result<ClipFrame, EncodeError>,
)
    ensures
        encodable(ChangeValues::Text(text)),
        encodable(ChangeValues::Files(paths)),
        encoded(ChangeValues::Text(text), r) ==> {
            &&& r is Ok
            &&& r->Ok_0.content_type@ == TEXT_CONTENT_TYPE@
            &&& r->Ok_0.content is Some
            &&& r->Ok_0.content->0@ == text
            &&& r->Ok_0.content_b64 is None
            &&& r->Ok_0.from is None
        },
        encoded(ChangeValues::Files(paths), r) ==> r is Err && r->Err_0 is Files,
{
}

/// An image becomes a frame of the PNG type with the base64 text of its PNG file
/// and nothing else; it fails exactly where its buffer is too short for its
/// sides, or its PNG file cannot be made.
pub proof fn law_image_becomes_its_frame(image: ImageValues, r: Result<ClipFrame, EncodeError>)
    requires
        encoded(ChangeValues::Image(image), r),
    ensures
        ({
            let short = image.width * 4 > usize::MAX || image.width * image.height * 4
                > image.rgba.len();
            let png = png_encoding(image.width, image.height, image.rgba);
            &&& r is Ok <==> !short && png is Some
            &&& short <==> r is Err && r->Err_0 is InvalidBuffer
            &&& !short && png is None <==> r is Err && r->Err_0 is Png
            &&& r is Ok ==> {
                &&& r->Ok_0.content_type@ == IMAGE_PNG_CONTENT_TYPE@
                &&& r->Ok_0.content is None
                &&& r->Ok_0.content_b64 is Some
                &&& r->Ok_0.content_b64->0@ == base64_text(png->0)
                &&& r->Ok_0.from is None
            }
        }),
{
}

/// The only changes that are too large are images whose PNG file has a base64
/// text that no allocation can hold.
pub proof fn law_only_huge_images_are_too_large(change: ChangeValues)
    requires
        !encodable(change),
    ensures
        change is Image,
        ({
            let image = change->Image_0;
            &&& png_encoding(image.width, image.height, image.rgba) is Some
            &&& base64_text(png_encoding(image.width, image.height, image.rgba)->0).len()
                > isize::MAX
        }),
{
    let image = change->Image_0;
    law_base64_length(png_encoding(image.width, image.height, image.rgba)->0);
}

/// Every text survives the wire, and so does every image of at least one pixel
/// and at most 512 MiB whose buffer holds exactly its pixels.
pub proof fn law_what_survives_the_wire(text: Seq<char>, image: ImageValues)
    ensures
        survives_the_wire(ChangeValues::Text(text)),
        image.width > 0 && image.height > 0 && image.rgba.len() == image.width * image.height * 4
            && image.rgba.len() <= 536_870_912 ==> survives_the_wire(ChangeValues::Image(image)),
{
}

/// What a decoded PNG file gives is its image.
pub proof fn law_decoded_image_is_the_change(image: ImageValues)
    ensures
        change_of_image(Some(image)) == Ok::<ChangeValues, Refusal>(ChangeValues::Image(image)),
        change_of_image(None) == Err::<ChangeValues, Refusal>(Refusal::Png),
{
}

/// A rejection tells which of the faults it is.
pub proof fn law_rejection_is_its_fault(
    base64: base64::DecodeError,
    png: image::ImageError,
)
    ensures
        FrameRejection::UnsupportedType@ == Refusal::UnsupportedType,
        FrameRejection::Decode(PayloadError::MissingContent)@ == Refusal::MissingContent,
        FrameRejection::Decode(PayloadError::MissingContentB64)@ == Refusal::MissingContentB64,
        FrameRejection::Decode(PayloadError::Base64(base64))@ == Refusal::Base64,
        FrameRejection::Decode(PayloadError::Png(png))@ == Refusal::Png,
{
}

/// What carries a text or a PNG file carries nothing else.
pub proof fn law_frames_carry_one_payload(frame: ClipFrame, text: Seq<char>, png: Seq<u8>)
    ensures
        carries_text(frame, text) ==> {
            &&& frame.content_type@ == TEXT_CONTENT_TYPE@
            &&& frame.content is Some && frame.content->0@ == text
            &&& frame.content_b64 is None
            &&& frame.from is None
        },
        carries_png(frame, png) ==> {
            &&& frame.content_type@ == IMAGE_PNG_CONTENT_TYPE@
            &&& frame.content is None
            &&& frame.content_b64 is Some && frame.content_b64->0@ == base64_text(png)
            &&& frame.from is None
        },
{
}

} // verus!
