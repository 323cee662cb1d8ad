//! Certificates in PEM form: reading them, and the fingerprint they are pinned
//! by.
use crate::codec::{base64_bytes, base64_decode, base64_text, law_base64_reads_back};
use crate::digest::{fingerprint, sha256, sha256_fingerprint, sha256_message};
use crate::text::{
    chars_of, find, find_from, is_white_space, lemma_find_from, text_of, white_space,
};
use vstd::prelude::*;
use vstd::utf8::{
    decode_utf8, encode_utf8, encode_utf8_decode_utf8, encode_utf8_valid_utf8, valid_utf8,
};

verus! {

/// Why bytes are not UTF-8, as the standard library reports it.
#[verifier::external_type_specification]
#[verifier::external_body]
pub struct ExUtf8Error(std::str::Utf8Error);

/// `from_utf8` of the standard library: gives the text that the bytes encode,
/// and fails exactly where they are not UTF-8.
pub assume_specification[ std::str::from_utf8 ](v: &[u8]) -> (r: Result<
    &str,
    std::str::Utf8Error,
>)
    ensures
        r is Ok <==> valid_utf8(v@),
        r matches Ok(s) ==> encode_utf8(s@) == v@,
;

/// Why no certificate could be read from a PEM file.
#[derive(Debug)]
pub enum PemError {
    /// The file is not UTF-8.
    NotUtf8(std::str::Utf8Error),
    /// There is no `-----BEGIN ` marker.
    NoBeginMarker,
    /// The line of the `-----BEGIN ` marker does not end.
    IncompleteBeginLine,
    /// There is no `-----END ` marker.
    NoEndMarker,
    /// What stands between the markers is not base64.
    Base64(base64::DecodeError),
}

/// Why no certificate could be read, without the decoders' detail.
pub enum PemProblem {
    NotUtf8,
    NoBeginMarker,
    IncompleteBeginLine,
    NoEndMarker,
    Base64,
}

impl View for PemError {
    type V = PemProblem;

    open spec fn view(&self) -> PemProblem {
        match *self {
            PemError::NotUtf8(_) => PemProblem::NotUtf8,
            PemError::NoBeginMarker => PemProblem::NoBeginMarker,
            PemError::IncompleteBeginLine => PemProblem::IncompleteBeginLine,
            PemError::NoEndMarker => PemProblem::NoEndMarker,
            PemError::Base64(_) => PemProblem::Base64,
        }
    }
}

/// `s` without its white space.
pub open spec fn squeezed(s: Seq<char>) -> Seq<char>
    decreases s.len(),
{
    if s.len() == 0 {
        s
    } else if white_space(s.last()) {
        squeezed(s.drop_last())
    } else {
        squeezed(s.drop_last()).push(s.last())
    }
}

/// Where the block to read begins: the first certificate, or, in a file without
/// one, the first block of any kind.
pub open spec fn block_begin(text: Seq<char>) -> Option<int> {
    match find_from(text, "-----BEGIN CERTIFICATE-----"@, 0) {
        Some(i) => Some(i),
        None => find_from(text, "-----BEGIN "@, 0),
    }
}

/// The base64 text of the block to read: what stands between the line that
/// begins the block and the next end marker, without white space.
pub open spec fn block_text(text: Seq<char>) -> Result<Seq<char>, PemProblem> {
    match block_begin(text) {
        None => Err(PemProblem::NoBeginMarker),
        Some(begin) => match find_from(text, seq!['\n'], begin) {
            None => Err(PemProblem::IncompleteBeginLine),
            Some(newline) => match find_from(text, "-----END "@, newline + 1) {
                None => Err(PemProblem::NoEndMarker),
                Some(end) => Ok(squeezed(text.subrange(newline + 1, end))),
            },
        },
    }
}

/// The bytes that a block's base64 text stands for.
pub open spec fn block_bytes(text: Seq<char>) -> Result<Seq<u8>, PemProblem> {
    match base64_bytes(text) {
        Some(der) => Ok(der),
        None => Err(PemProblem::Base64),
    }
}

/// The bytes of the block to read in a PEM file.
pub open spec fn pem_der(pem: Seq<u8>) -> Result<Seq<u8>, PemProblem> {
    if !valid_utf8(pem) {
        Err(PemProblem::NotUtf8)
    } else {
        match block_text(decode_utf8(pem)) {
            Ok(text) => block_bytes(text),
            Err(e) => Err(e),
        }
    }
}

/// Drops the white space of `chars` from `start` to before `end`.
fn squeeze(chars: &[char], start: usize, end: usize) -> (r: String)
    requires
        start <= end <= chars@.len(),
    ensures
        r@ == squeezed(chars@.subrange(start as int, end as int)),
{
    let mut out: Vec<char> = Vec::new();
    let mut i = start;
    while i < end
        invariant
            start <= i <= end <= chars.len(),
            out@ == squeezed(chars@.subrange(start as int, i as int)),
        decreases end - i,
    {
        let ghost more = chars@.subrange(start as int, i + 1);
        assert(more.drop_last() == chars@.subrange(start as int, i as int));
        if !is_white_space(chars[i]) {
            out.push(chars[i]);
        }
        i += 1;
    }
    text_of(&out)
}

/// The base64 text of the first certificate in a PEM text.
pub fn first_pem_block(text: &str) -> (r: Result<String, PemError>)
    ensures
        (match r {
            Ok(block) => Ok(block@),
            Err(e) => Err(e@),
        }) == block_text(text@),
{
    let chars = chars_of(text);
    let begin: usize = match find(&chars, &chars_of("-----BEGIN CERTIFICATE-----"), 0) {
        Some(i) => i,
        None => match find(&chars, &chars_of("-----BEGIN "), 0) {
            Some(i) => i,
            None => {
                return Err(PemError::NoBeginMarker);
            },
        },
    };
    let mut line_end: Vec<char> = Vec::new();
    line_end.push('\n');
    assert(line_end@ =~= seq!['\n']);
    proof {
        lemma_find_from(text@, "-----BEGIN CERTIFICATE-----"@, 0);
        lemma_find_from(text@, "-----BEGIN "@, 0);
        lemma_find_from(text@, seq!['\n'], begin as int);
    }
    let newline: usize = match find(&chars, &line_end, begin) {
        Some(i) => i,
        None => {
            return Err(PemError::IncompleteBeginLine);
        },
    };
    assert(newline < chars.len());
    proof {
        lemma_find_from(text@, "-----END "@, newline + 1);
    }
    let end: usize = match find(&chars, &chars_of("-----END "), newline + 1) {
        Some(i) => i,
        None => {
            return Err(PemError::NoEndMarker);
        },
    };
    Ok(squeeze(&chars, newline + 1, end))
}

/// The bytes of a block whose base64 text was decoded, or was not.
pub fn decoded_block(decoded: Result<Vec<u8>, base64::DecodeError>) -> (r: Result<
    Vec<u8>,
    PemError,
>)
    ensures
        (match r {
            Ok(der) => Ok(der@),
            Err(e) => Err(e@),
        }) == (match decoded {
            Ok(der) => Ok(der@),
            Err(_) => Err(PemProblem::Base64),
        }),
{
    match decoded {
        Ok(der) => Ok(der),
        Err(e) => Err(PemError::Base64(e)),
    }
}

/// Minimal PEM to DER decode of the first certificate in a file.
pub fn first_pem_block_to_der(pem: &[u8]) -> (r: Result<Vec<u8>, PemError>)
    ensures
        (match r {
            Ok(der) => Ok(der@),
            Err(e) => Err(e@),
        }) == pem_der(pem@),
        r matches Ok(der) ==> der@.len() <= pem@.len(),
{
    let text = match std::str::from_utf8(pem) {
        Ok(text) => text,
        Err(e) => {
            return Err(PemError::NotUtf8(e));
        },
    };
    proof {
        encode_utf8_decode_utf8(text@);
        lemma_block_is_shorter(text@);
        lemma_utf8_len(text@);
    }
    let block = match first_pem_block(text) {
        Ok(block) => block,
        Err(e) => {
            return Err(e);
        },
    };
    decoded_block(base64_decode(&block))
}

proof fn lemma_squeezed_len(s: Seq<char>)
    ensures
        squeezed(s).len() <= s.len(),
    decreases s.len(),
{
    if s.len() > 0 {
        lemma_squeezed_len(s.drop_last());
    }
}

proof fn lemma_block_is_shorter(text: Seq<char>)
    ensures
        block_text(text) matches Ok(block) ==> block.len() <= text.len(),
{
    if let Ok(block) = block_text(text) {
        let begin = block_begin(text)->0;
        lemma_find_from(text, "-----BEGIN CERTIFICATE-----"@, 0);
        lemma_find_from(text, "-----BEGIN "@, 0);
        lemma_find_from(text, seq!['\n'], begin);
        let newline = find_from(text, seq!['\n'], begin)->0;
        lemma_find_from(text, "-----END "@, newline + 1);
        let end = find_from(text, "-----END "@, newline + 1)->0;
        lemma_squeezed_len(text.subrange(newline + 1, end));
    }
}

proof fn lemma_utf8_len(text: Seq<char>)
    ensures
        text.len() <= encode_utf8(text).len(),
    decreases text.len(),
{
    if text.len() > 0 {
        lemma_utf8_len(text.drop_first());
    }
}

/// The fingerprint of a certificate in DER form: colon-separated upper-case hex
/// SHA-256, the format that browsers and `openssl x509 -fingerprint -sha256`
/// print.
pub fn fingerprint_of_der(der: &[u8]) -> (r: String)
    requires
        sha256_message(der@),
    ensures
        r@ == fingerprint(sha256(der@)),
        r@.len() == 95,
{
    sha256_fingerprint(der)
}

/// The fingerprint of the first certificate in a PEM file.
pub open spec fn pem_fingerprint(pem: Seq<u8>) -> Result<Seq<char>, PemProblem> {
    match pem_der(pem) {
        Ok(der) => Ok(fingerprint(sha256(der))),
        Err(e) => Err(e),
    }
}

/// The fingerprint of the first certificate in a PEM file.
pub fn fingerprint_of_pem(pem: &[u8]) -> (r: Result<String, PemError>)
    requires
        sha256_message(pem@),
    ensures
        (match r {
            Ok(text) => Ok(text@),
            Err(e) => Err(e@),
        }) == pem_fingerprint(pem@),
{
    match first_pem_block_to_der(pem) {
        Ok(der) => Ok(fingerprint_of_der(&der)),
        Err(e) => Err(e),
    }
}

/// Whether `eol` ends a line.
pub open spec fn line_ending(eol: Seq<char>) -> bool {
    eol == seq!['\n'] || eol == seq!['\r', '\n']
}

/// Whether `pem` is a certificate in PEM form with `body` between its markers.
pub open spec fn certificate_text(pem: Seq<char>, eol: Seq<char>, body: Seq<char>) -> bool {
    &&& line_ending(eol)
    &&& !body.contains('-')
    &&& pem == "-----BEGIN CERTIFICATE-----"@ + eol + body + "-----END CERTIFICATE-----"@ + eol
}

/// Whether `pem` is the certificate `der` in PEM form: begin marker, base64 text
/// in lines, end marker.
pub open spec fn certificate_pem(pem: Seq<char>, der: Seq<u8>) -> bool {
    exists|eol: Seq<char>, body: Seq<char>| #[trigger]
        certificate_text(pem, eol, body) && squeezed(body) == base64_text(der)
}

/// A certificate in PEM form reads back as the certificate, and so has its
/// fingerprint.
pub proof fn law_certificate_reads_back(pem: Seq<char>, der: Seq<u8>)
    requires
        certificate_pem(pem, der),
    ensures
        pem_der(encode_utf8(pem)) == Ok::<Seq<u8>, PemProblem>(der),
        pem_fingerprint(encode_utf8(pem)) == Ok::<Seq<char>, PemProblem>(fingerprint(sha256(der))),
{
    let (eol, body): (Seq<char>, Seq<char>) = choose|eol: Seq<char>, body: Seq<char>| #[trigger]
        certificate_text(pem, eol, body) && squeezed(body) == base64_text(der);
    let begin = "-----BEGIN CERTIFICATE-----"@;
    let end = "-----END CERTIFICATE-----"@;
    let marker = "-----END "@;
    reveal_strlit("-----BEGIN CERTIFICATE-----");
    reveal_strlit("-----END CERTIFICATE-----");
    reveal_strlit("-----END ");
    encode_utf8_decode_utf8(pem);
    encode_utf8_valid_utf8(pem);
    law_base64_reads_back(der);
    // The begin marker stands at the front.
    assert(pem.subrange(0, begin.len() as int) =~= begin);
    assert(find_from(pem, begin, 0) == Some(0int));
    // The first line ends behind it.
    let newline = begin.len() + eol.len() - 1;
    assert(pem[newline] == '\n');
    assert(pem.subrange(newline, newline + 1) =~= seq!['\n']);
    assert forall|j: int| 0 <= j < newline implies pem[j] != '\n' by {
        if j < begin.len() {
            assert(pem[j] == begin[j]);
        }
    }
    lemma_find_is(pem, seq!['\n'], 0, newline);
    // The end marker stands behind the body.
    let at = newline + 1 + body.len();
    assert(pem.subrange(at, at + marker.len()) =~= marker);
    assert forall|j: int| newline < j < at implies pem[j] != '-' by {
        assert(pem[j] == body[j - newline - 1]);
    }
    lemma_find_is(pem, marker, newline + 1, at);
    assert(pem.subrange(newline + 1, at) =~= body);
}

/// A text stands first where it stands and its first character does not occur
/// before.
proof fn lemma_find_is(hay: Seq<char>, needle: Seq<char>, from: int, at: int)
    requires
        0 <= from <= at,
        needle.len() > 0,
        at + needle.len() <= hay.len(),
        hay.subrange(at, at + needle.len()) == needle,
        forall|j: int| from <= j < at ==> hay[j] != needle[0],
    ensures
        find_from(hay, needle, from) == Some(at),
{
    lemma_find_from(hay, needle, from);
    match find_from(hay, needle, from) {
        Some(i) => {
            if i < at {
                assert(hay.subrange(i, i + needle.len())[0] == hay[i]);
            }
            if i > at {
                assert(hay.subrange(at, at + needle.len()) != needle);
            }
        },
        None => {
            assert(hay.subrange(at, at + needle.len()) != needle);
        },
    }
}

/// Squeezing drops white space character by character and keeps everything else
/// in order.
pub proof fn law_squeezing_drops_only_white_space(a: Seq<char>, b: Seq<char>, c: char)
    ensures
        squeezed(a + b) == squeezed(a) + squeezed(b),
        white_space(c) ==> squeezed(seq![c]).len() == 0,
        !white_space(c) ==> squeezed(seq![c]) == seq![c],
    decreases b.len(),
{
    assert(seq![c].drop_last() =~= Seq::<char>::empty());
    assert(squeezed(seq![c].drop_last()) =~= Seq::<char>::empty());
    if !white_space(c) {
        assert(squeezed(seq![c]) =~= seq![c]);
    }
    if b.len() == 0 {
        assert(a + b =~= a);
        assert(squeezed(a) + squeezed(b) =~= squeezed(a));
    } else {
        law_squeezing_drops_only_white_space(a, b.drop_last(), c);
        assert((a + b).drop_last() =~= a + b.drop_last());
        assert(squeezed(a + b) =~= squeezed(a) + squeezed(b));
    }
}

/// Whether `marker` stands in `text` at `at`.
pub open spec fn marker_at(text: Seq<char>, marker: Seq<char>, at: int) -> bool {
    &&& 0 <= at <= text.len() - marker.len()
    &&& text.subrange(at, at + marker.len()) == marker
}

/// Whether `at` is the first place at or behind `from` where `marker` stands.
pub open spec fn first_marker_at(
    text: Seq<char>,
    marker: Seq<char>,
    from: int,
    at: int,
) -> bool {
    &&& from <= at
    &&& marker_at(text, marker, at)
    &&& forall|j: int| from <= j < at ==> !#[trigger] marker_at(text, marker, j)
}

proof fn lemma_first_marker(text: Seq<char>, marker: Seq<char>, from: int, at: int)
    requires
        0 <= from,
        first_marker_at(text, marker, from, at),
    ensures
        find_from(text, marker, from) == Some(at),
{
    lemma_find_from(text, marker, from);
    if let Some(i) = find_from(text, marker, from) {
        assert(marker_at(text, marker, i));
        if i > at {
            assert(text.subrange(at, at + marker.len()) == marker);
        }
    } else {
        assert(text.subrange(at, at + marker.len()) == marker);
    }
}

proof fn lemma_no_marker(text: Seq<char>, marker: Seq<char>, from: int)
    requires
        0 <= from,
        forall|j: int| from <= j ==> !#[trigger] marker_at(text, marker, j),
    ensures
        find_from(text, marker, from) is None,
{
    lemma_find_from(text, marker, from);
    if let Some(i) = find_from(text, marker, from) {
        assert(marker_at(text, marker, i));
    }
}

/// The block that is read is the first certificate's: from the line behind its
/// begin marker to the next end marker, whatever stands before and behind.
pub proof fn law_first_certificate_is_read(text: Seq<char>, begin: int, newline: int, end: int)
    requires
        first_marker_at(text, "-----BEGIN CERTIFICATE-----"@, 0, begin),
        first_marker_at(text, seq!['\n'], begin, newline),
        first_marker_at(text, "-----END "@, newline + 1, end),
    ensures
        block_text(text) == Ok::<Seq<char>, PemProblem>(
            squeezed(text.subrange(newline + 1, end)),
        ),
{
    lemma_first_marker(text, "-----BEGIN CERTIFICATE-----"@, 0, begin);
    lemma_first_marker(text, seq!['\n'], begin, newline);
    lemma_first_marker(text, "-----END "@, newline + 1, end);
}

/// In a file without a certificate, the first block of any kind is read.
pub proof fn law_else_first_block_is_read(text: Seq<char>, begin: int, newline: int, end: int)
    requires
        forall|j: int| !#[trigger] marker_at(text, "-----BEGIN CERTIFICATE-----"@, j),
        first_marker_at(text, "-----BEGIN "@, 0, begin),
        first_marker_at(text, seq!['\n'], begin, newline),
        first_marker_at(text, "-----END "@, newline + 1, end),
    ensures
        block_text(text) == Ok::<Seq<char>, PemProblem>(
            squeezed(text.subrange(newline + 1, end)),
        ),
{
    lemma_no_marker(text, "-----BEGIN CERTIFICATE-----"@, 0);
    lemma_first_marker(text, "-----BEGIN "@, 0, begin);
    lemma_first_marker(text, seq!['\n'], begin, newline);
    lemma_first_marker(text, "-----END "@, newline + 1, end);
}

/// A file without a begin marker holds no block.
pub proof fn law_no_begin_marker_no_block(text: Seq<char>)
    ensures
        (forall|j: int| !#[trigger] marker_at(text, "-----BEGIN "@, j)) <==> block_text(text)
            == Err::<Seq<char>, PemProblem>(PemProblem::NoBeginMarker),
{
    let long = "-----BEGIN CERTIFICATE-----"@;
    let short = "-----BEGIN "@;
    reveal_strlit("-----BEGIN CERTIFICATE-----");
    reveal_strlit("-----BEGIN ");
    assert(long.take(short.len() as int) =~= short);
    lemma_find_from(text, long, 0);
    lemma_find_from(text, short, 0);
    if let Some(i) = find_from(text, long, 0) {
        assert(text.subrange(i, i + short.len()) =~= text.subrange(i, i + long.len()).take(
            short.len() as int,
        ));
        assert(marker_at(text, short, i));
    } else if let Some(i) = find_from(text, short, 0) {
        assert(marker_at(text, short, i));
    } else {
        assert forall|j: int| !#[trigger] marker_at(text, short, j) by {
            if 0 <= j <= text.len() - short.len() {
                assert(text.subrange(j, j + short.len()) != short);
            }
        }
    }
}

/// A begin marker whose line does not end is incomplete, and a block without an
/// end marker behind that line has no end.
pub proof fn law_unfinished_block_is_no_block(text: Seq<char>, begin: int, newline: int)
    requires
        ({
            ||| first_marker_at(text, "-----BEGIN CERTIFICATE-----"@, 0, begin)
            ||| (forall|j: int| !#[trigger] marker_at(text, "-----BEGIN CERTIFICATE-----"@, j))
                && first_marker_at(text, "-----BEGIN "@, 0, begin)
        }),
    ensures
        (forall|j: int| begin <= j ==> !#[trigger] marker_at(text, seq!['\n'], j)) ==> block_text(
            text,
        ) == Err::<Seq<char>, PemProblem>(PemProblem::IncompleteBeginLine),
        first_marker_at(text, seq!['\n'], begin, newline) && (forall|j: int|
            newline < j ==> !#[trigger] marker_at(text, "-----END "@, j)) ==> block_text(text)
            == Err::<Seq<char>, PemProblem>(PemProblem::NoEndMarker),
{
    if first_marker_at(text, "-----BEGIN CERTIFICATE-----"@, 0, begin) {
        lemma_first_marker(text, "-----BEGIN CERTIFICATE-----"@, 0, begin);
    } else {
        lemma_no_marker(text, "-----BEGIN CERTIFICATE-----"@, 0);
        lemma_first_marker(text, "-----BEGIN "@, 0, begin);
    }
    if forall|j: int| begin <= j ==> !#[trigger] marker_at(text, seq!['\n'], j) {
        lemma_no_marker(text, seq!['\n'], begin);
    }
    if first_marker_at(text, seq!['\n'], begin, newline) && (forall|j: int|
        newline < j ==> !#[trigger] marker_at(text, "-----END "@, j)) {
        lemma_first_marker(text, seq!['\n'], begin, newline);
        lemma_no_marker(text, "-----END "@, newline + 1);
    }
}

/// A PEM file gives the bytes whose base64 text its block is, and their
/// fingerprint; a fault in the file is passed on, and bytes that are not UTF-8
/// are no PEM file.
pub proof fn law_pem_gives_its_blocks_bytes(text: Seq<char>, der: Seq<u8>, other: Seq<u8>)
    requires
        !valid_utf8(other),
    ensures
        block_text(text) == Ok::<Seq<char>, PemProblem>(base64_text(der)) ==> pem_der(
            encode_utf8(text),
        ) == Ok::<Seq<u8>, PemProblem>(der) && pem_fingerprint(encode_utf8(text)) == Ok::<
            Seq<char>,
            PemProblem,
        >(fingerprint(sha256(der))),
        block_text(text) is Ok && base64_bytes(block_text(text)->Ok_0) is None ==> pem_der(
            encode_utf8(text),
        ) == Err::<Seq<u8>, PemProblem>(PemProblem::Base64),
        block_text(text) is Err ==> pem_der(encode_utf8(text)) == Err::<Seq<u8>, PemProblem>(
            block_text(text)->Err_0,
        ),
        pem_der(encode_utf8(text)) is Err ==> pem_fingerprint(encode_utf8(text)) == Err::<
            Seq<char>,
            PemProblem,
        >(pem_der(encode_utf8(text))->Err_0),
        pem_der(other) == Err::<Seq<u8>, PemProblem>(PemProblem::NotUtf8),
{
    encode_utf8_decode_utf8(text);
    encode_utf8_valid_utf8(text);
    law_base64_reads_back(der);
}

/// An error tells which of the faults it is.
pub proof fn law_pem_error_is_its_fault(error: PemError)
    ensures
        match error {
            PemError::NotUtf8(_) => error@ == PemProblem::NotUtf8,
            PemError::NoBeginMarker => error@ == PemProblem::NoBeginMarker,
            PemError::IncompleteBeginLine => error@ == PemProblem::IncompleteBeginLine,
            PemError::NoEndMarker => error@ == PemProblem::NoEndMarker,
            PemError::Base64(_) => error@ == PemProblem::Base64,
        },
{
}

} // verus!
