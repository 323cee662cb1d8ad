//! File names: the MIME type a name suggests, names that are safe to save
//! under, and names that are still free.
use crate::ident::{lemma_uuid_text_chars, random_uuid, uuid_text, Uuid};
use crate::path::{entry_name, entry_of, LocalPath};
use crate::text::{
    ascii_lower_text, chars_of, control, decimal, drop_final_dots, find_last, is_control,
    last_index_of, law_last_position_is_the_last, law_only_final_dots_are_dropped,
    law_trimming_takes_only_outer_white_space, lemma_decimal_digits, lemma_decimal_injective,
    lemma_last_index_of, lemma_trim_back, same_text, text_of, to_ascii_lower, to_decimal, trim,
    trimmed, white_space, without_final_dots,
};
use vstd::prelude::*;
use vstd::string::*;

verus! {

/// What stands before the last full stop of a file name, and what stands
/// behind it. A name without a full stop, or whose only one is its first
/// character, has no extension.
pub open spec fn split_name(name: Seq<char>) -> (Seq<char>, Option<Seq<char>>) {
    match last_index_of(name, '.') {
        Some(i) => if i > 0 {
            (name.take(i), Some(name.skip(i + 1)))
        } else {
            (name, None)
        },
        None => (name, None),
    }
}

/// The MIME type for a lower-case extension.
pub open spec fn mime_for_extension(ext: Option<Seq<char>>) -> Seq<char> {
    match ext {
        None => "application/octet-stream"@,
        Some(e) => if e == "png"@ {
            "image/png"@
        } else if e == "jpg"@ || e == "jpeg"@ {
            "image/jpeg"@
        } else if e == "gif"@ {
            "image/gif"@
        } else if e == "webp"@ {
            "image/webp"@
        } else if e == "svg"@ {
            "image/svg+xml"@
        } else if e == "pdf"@ {
            "application/pdf"@
        } else if e == "zip"@ {
            "application/zip"@
        } else if e == "tar"@ {
            "application/x-tar"@
        } else if e == "gz"@ || e == "tgz"@ {
            "application/gzip"@
        } else if e == "txt"@ || e == "md"@ || e == "log"@ {
            "text/plain; charset=utf-8"@
        } else if e == "json"@ {
            "application/json"@
        } else if e == "html"@ || e == "htm"@ {
            "text/html; charset=utf-8"@
        } else if e == "mp4"@ {
            "video/mp4"@
        } else if e == "mov"@ {
            "video/quicktime"@
        } else if e == "mp3"@ {
            "audio/mpeg"@
        } else if e == "wav"@ {
            "audio/wav"@
        } else {
            "application/octet-stream"@
        },
    }
}

/// The MIME type for a file name: that of its extension, in lower case.
pub open spec fn mime_for_name(name: Seq<char>) -> Seq<char> {
    mime_for_extension(
        match split_name(name).1 {
            Some(e) => Some(ascii_lower_text(e)),
            None => None,
        },
    )
}

/// A copy of the characters from `start` to before `end`.
fn copy_range(chars: &Vec<char>, start: usize, end: usize) -> (r: Vec<char>)
    requires
        start <= end <= chars@.len(),
    ensures
        r@ == chars@.subrange(start as int, end as int),
{
    let mut out: Vec<char> = Vec::new();
    for i in start..end
        invariant
            start <= end <= chars@.len(),
            out@ == chars@.subrange(start as int, i as int),
    {
        out.push(chars[i]);
        assert(chars@.subrange(start as int, i + 1) == chars@.subrange(start as int, i as int).push(
            chars@[i as int],
        ));
    }
    out
}

/// Splits a file name at its last full stop.
fn split_extension(name: &str) -> (r: (Vec<char>, Option<Vec<char>>))
    ensures
        r.0@ == split_name(name@).0,
        r.1 is Some <==> split_name(name@).1 is Some,
        r.1 matches Some(e) ==> split_name(name@).1 == Some(e@),
{
    let chars = chars_of(name);
    proof {
        lemma_last_index_of(name@, '.');
    }
    match find_last(&chars, '.') {
        Some(i) => {
            if i > 0 {
                let stem = copy_range(&chars, 0, i);
                let ext = copy_range(&chars, i + 1, chars.len());
                assert(stem@ == name@.take(i as int));
                assert(ext@ == name@.skip(i + 1));
                (stem, Some(ext))
            } else {
                (chars, None)
            }
        },
        None => (chars, None),
    }
}

/// Best-effort MIME type for a file from its name's extension. The receiver
/// decides what to do with the bytes either way; the type is metadata.
pub fn mime_for(name: &str) -> (r: String)
    ensures
        r@ == mime_for_name(name@),
{
    let (_, ext) = split_extension(name);
    match ext {
        None => "application/octet-stream".to_string(),
        Some(e) => {
            let e = to_ascii_lower(&e);
            let mime: &str = if same_text(&e, "png") {
                "image/png"
            } else if same_text(&e, "jpg") || same_text(&e, "jpeg") {
                "image/jpeg"
            } else if same_text(&e, "gif") {
                "image/gif"
            } else if same_text(&e, "webp") {
                "image/webp"
            } else if same_text(&e, "svg") {
                "image/svg+xml"
            } else if same_text(&e, "pdf") {
                "application/pdf"
            } else if same_text(&e, "zip") {
                "application/zip"
            } else if same_text(&e, "tar") {
                "application/x-tar"
            } else if same_text(&e, "gz") || same_text(&e, "tgz") {
                "application/gzip"
            } else if same_text(&e, "txt") || same_text(&e, "md") || same_text(&e, "log") {
                "text/plain; charset=utf-8"
            } else if same_text(&e, "json") {
                "application/json"
            } else if same_text(&e, "html") || same_text(&e, "htm") {
                "text/html; charset=utf-8"
            } else if same_text(&e, "mp4") {
                "video/mp4"
            } else if same_text(&e, "mov") {
                "video/quicktime"
            } else if same_text(&e, "mp3") {
                "audio/mpeg"
            } else if same_text(&e, "wav") {
                "audio/wav"
            } else {
                "application/octet-stream"
            };
            mime.to_string()
        },
    }
}

/// The characters that a saved file's name may not hold: path separators,
/// drive and stream markers, and control characters, NUL among them.
pub open spec fn forbidden(c: char) -> bool {
    c == '/' || c == '\\' || c == '\0' || c == ':' || control(c)
}

/// An underscore for a forbidden character; any other as it is.
pub open spec fn safe_char(c: char) -> char {
    if forbidden(c) {
        '_'
    } else {
        c
    }
}

/// The name to save a file under that was sent as `name`: white space around
/// it and full stops at its end dropped, forbidden characters replaced, and a
/// name of its own where nothing is left.
pub open spec fn sanitized(name: Seq<char>) -> Seq<char> {
    let cleaned = without_final_dots(trimmed(name).map_values(|c: char| safe_char(c)));
    if cleaned.len() == 0 {
        "received-file"@
    } else {
        cleaned
    }
}

/// Whether a file can be saved under `name` without leaving its directory.
pub open spec fn safe_name(name: Seq<char>) -> bool {
    &&& name.len() > 0
    &&& name.last() != '.'
    &&& forall|i: int| 0 <= i < name.len() ==> !forbidden(#[trigger] name[i])
}

/// Whatever name a sender gives, the file is saved under a safe one.
pub proof fn law_sanitized_is_safe(name: Seq<char>)
    ensures
        safe_name(sanitized(name)),
{
    let mapped = trimmed(name).map_values(|c: char| safe_char(c));
    let cleaned = without_final_dots(mapped);
    lemma_trim_back(mapped, |c: char| c == '.');
    reveal_strlit("received-file");
    if cleaned.len() > 0 {
        assert forall|i: int| 0 <= i < cleaned.len() implies !forbidden(#[trigger] cleaned[i]) by {
            assert(cleaned[i] == mapped.subrange(0, cleaned.len() as int)[i]);
            assert(mapped[i] == safe_char(trimmed(name)[i]));
        }
    }
}

/// A safe name names an entry of the directory it is saved in: it cannot lead
/// anywhere else.
pub proof fn law_safe_name_stays_in_directory(name: Seq<char>)
    requires
        safe_name(name),
    ensures
        entry_name(name),
{
    if name.contains('/') {
        let i = choose|i: int| 0 <= i < name.len() && name[i] == '/';
        assert(forbidden(name[i]));
    }
    if name.contains('\\') {
        let i = choose|i: int| 0 <= i < name.len() && name[i] == '\\';
        assert(forbidden(name[i]));
    }
    assert(seq!['.'].last() == '.');
    assert(seq!['.', '.'].last() == '.');
}

/// A safe name without white space around it is kept as it is.
pub proof fn law_safe_trimmed_name_is_kept(name: Seq<char>)
    requires
        safe_name(name),
        trimmed(name) == name,
    ensures
        sanitized(name) == name,
{
    let mapped = name.map_values(|c: char| safe_char(c));
    assert forall|i: int| 0 <= i < name.len() implies mapped[i] == name[i] by {
        assert(!forbidden(name[i]));
    }
    assert(mapped == name);
    assert(without_final_dots(name) == name);
}

fn make_safe(c: char) -> (r: char)
    ensures
        r == safe_char(c),
{
    if c == '/' || c == '\\' || c == '\0' || c == ':' || is_control(c) {
        '_'
    } else {
        c
    }
}

/// Strips path separators and dangerous characters. It does not try to be
/// clever about Unicode normalisation: it refuses what would let a malicious
/// sender escape the directory that files are saved in.
pub fn sanitize_filename(name: &str) -> (r: String)
    ensures
        r@ == sanitized(name@),
        safe_name(r@),
{
    proof {
        law_sanitized_is_safe(name@);
    }
    let trimmed_name = trim(&chars_of(name));
    let mut cleaned: Vec<char> = Vec::new();
    let n = trimmed_name.len();
    let ghost mapped = trimmed_name@.map_values(|c: char| safe_char(c));
    for i in 0..n
        invariant
            n == trimmed_name@.len(),
            mapped == trimmed_name@.map_values(|c: char| safe_char(c)),
            cleaned@ == mapped.take(i as int),
    {
        cleaned.push(make_safe(trimmed_name[i]));
        assert(mapped.take(i + 1) == mapped.take(i as int).push(mapped[i as int]));
    }
    assert(mapped.take(n as int) == mapped);
    drop_final_dots(&mut cleaned);
    if cleaned.len() == 0 {
        "received-file".to_string()
    } else {
        text_of(&cleaned)
    }
}

/// `name` with a number in brackets before its extension.
pub open spec fn numbered(name: Seq<char>, n: nat) -> Seq<char> {
    let (stem, ext) = split_name(name);
    match ext {
        Some(e) => stem + " ("@ + decimal(n) + ")."@ + e,
        None => stem + " ("@ + decimal(n) + ")"@,
    }
}

/// The names to try for a file, in order: `name` itself, then `name` with the
/// numbers from 1 on.
pub open spec fn candidate(name: Seq<char>, n: nat) -> Seq<char> {
    if n == 0 {
        name
    } else {
        numbered(name, n)
    }
}

/// How many names are tried before a UUID is put behind the name.
pub const CANDIDATES: u32 = 10_000;

proof fn lemma_split_name(name: Seq<char>)
    ensures
        split_name(name).1 matches Some(e) ==> {
            &&& split_name(name).0.len() > 0
            &&& name == split_name(name).0 + seq!['.'] + e
        },
        split_name(name).1 is None ==> split_name(name).0 == name,
{
    lemma_last_index_of(name, '.');
    if let Some(e) = split_name(name).1 {
        assert(name == split_name(name).0 + seq!['.'] + e);
    }
}

/// No name is tried twice.
pub proof fn law_candidates_differ(name: Seq<char>, m: nat, n: nat)
    requires
        m < n,
    ensures
        candidate(name, m) != candidate(name, n),
{
    reveal_strlit(" (");
    reveal_strlit(").");
    reveal_strlit(")");
    lemma_split_name(name);
    lemma_decimal_digits(n);
    let stem = split_name(name).0;
    let start = stem.len() as int + 2;
    if candidate(name, m) == candidate(name, n) {
        if m > 0 {
            lemma_decimal_digits(m);
            assert(numbered(name, m).len() == numbered(name, n).len());
            assert(decimal(m).len() == decimal(n).len());
            assert(decimal(m) == numbered(name, m).subrange(start, start + decimal(m).len()));
            assert(decimal(n) == numbered(name, n).subrange(start, start + decimal(n).len()));
            lemma_decimal_injective(m, n);
        } else {
            assert(numbered(name, n).len() > name.len());
        }
    }
}

/// A name to try for an entry of a directory is the name of such an entry.
proof fn lemma_candidate_is_entry(name: Seq<char>, n: nat)
    requires
        entry_name(name),
    ensures
        entry_name(candidate(name, n)),
{
    if n > 0 {
        reveal_strlit(" (");
        reveal_strlit(").");
        reveal_strlit(")");
        lemma_split_name(name);
        lemma_decimal_digits(n);
        let c = candidate(name, n);
        let stem = split_name(name).0;
        assert forall|i: int| 0 <= i < c.len() implies c[i] != '/' && c[i] != '\\' by {
            lemma_candidate_char(name, n, i);
            if name.contains(c[i]) {
            }
        }
        assert(c.len() > 2);
    }
}

/// Every character of a candidate is one of the name, a digit, a space, a
/// bracket or a full stop.
proof fn lemma_candidate_char(name: Seq<char>, n: nat, i: int)
    requires
        0 <= i < candidate(name, n).len(),
    ensures
        ({
            let c = candidate(name, n)[i];
            name.contains(c) || '0' <= c <= '9' || c == ' ' || c == '(' || c == ')' || c == '.'
        }),
{
    if n > 0 {
        reveal_strlit(" (");
        reveal_strlit(").");
        reveal_strlit(")");
        lemma_split_name(name);
        lemma_decimal_digits(n);
        let (stem, ext) = split_name(name);
        let c = candidate(name, n);
        let d = decimal(n).len() as int;
        let s = stem.len() as int;
        if i < s {
            assert(c[i] == name[i]);
        } else if i < s + 2 {
        } else if i < s + 2 + d {
            assert(c[i] == decimal(n)[i - s - 2]);
        } else if let Some(e) = ext {
            if i >= s + 2 + d + 2 {
                let j = i - (s + 2 + d + 2);
                assert(c[i] == e[j]);
                assert(name[s + 1 + j] == e[j]);
            }
        }
    } else {
        assert(name.contains(name[i]));
    }
}

/// Every name that is tried for a safe name is safe too.
pub proof fn law_candidates_are_safe(name: Seq<char>, n: nat)
    requires
        safe_name(name),
    ensures
        safe_name(candidate(name, n)),
{
    if n > 0 {
        reveal_strlit(" (");
        reveal_strlit(").");
        reveal_strlit(")");
        lemma_split_name(name);
        let c = candidate(name, n);
        assert forall|i: int| 0 <= i < c.len() implies !forbidden(#[trigger] c[i]) by {
            lemma_candidate_char(name, n, i);
            if name.contains(c[i]) {
                let k = choose|k: int| 0 <= k < name.len() && name[k] == c[i];
                assert(!forbidden(name[k]));
            }
        }
        if let Some(e) = split_name(name).1 {
            assert(e.len() > 0) by {
                if e.len() == 0 {
                    assert(name.last() == '.');
                }
            }
            assert(c.last() == e.last());
            assert(name.last() == e.last());
        } else {
            assert(c.last() == ')');
        }
    }
}

/// `name` with a UUID behind it.
pub open spec fn with_uuid(name: Seq<char>, bits: u128) -> Seq<char> {
    name + "-"@ + uuid_text(bits)
}

/// Whether `taken` gave the answer `answer` for the entry `name` of `dir`.
pub open spec fn answered<F: Fn(&LocalPath) -> bool>(
    taken: F,
    dir: Seq<Seq<u8>>,
    name: Seq<char>,
    answer: bool,
) -> bool {
    exists|p: LocalPath|
        #![trigger p@]
        p@ == entry_of(dir, name) && call_ensures(taken, (&p,), answer)
}

fn candidate_name(name: &str, n: u32) -> (r: String)
    ensures
        r@ == candidate(name@, n as nat),
{
    if n == 0 {
        return name.to_string();
    }
    let (stem, ext) = split_extension(name);
    let mut out = text_of(&stem);
    out.append(" (");
    out.append(&to_decimal(n));
    match ext {
        Some(e) => {
            out.append(").");
            out.append(&text_of(&e));
        },
        None => {
            out.append(")");
        },
    }
    out
}

/// The path in `dir` to save a file named `name` under: the first of its
/// candidates that `taken` does not report as existing, or, where it reports
/// all of them, the name with a fresh UUID behind it.
pub fn unique_path<F: Fn(&LocalPath) -> bool>(dir: &LocalPath, name: &str, taken: F) -> (r:
    LocalPath)
    requires
        entry_name(name@),
        forall|p: &LocalPath| call_requires(taken, (p,)),
    ensures
        ({
            ||| exists|n: nat|
                {
                    &&& n < CANDIDATES
                    &&& r@ == entry_of(dir@, #[trigger] candidate(name@, n))
                    &&& answered(taken, dir@, candidate(name@, n), false)
                    &&& forall|m: nat|
                        m < n ==> answered(taken, dir@, #[trigger] candidate(name@, m), true)
                }
            ||| {
                &&& exists|bits: u128|
                    random_uuid(bits) && r@ == entry_of(dir@, #[trigger] with_uuid(name@, bits))
                &&& forall|m: nat|
                    m < CANDIDATES ==> answered(taken, dir@, #[trigger] candidate(name@, m), true)
            }
        }),
{
    let mut n: u32 = 0;
    while n < CANDIDATES
        invariant
            n <= CANDIDATES,
            entry_name(name@),
            forall|p: &LocalPath| call_requires(taken, (p,)),
            forall|m: nat| m < n ==> answered(taken, dir@, #[trigger] candidate(name@, m), true),
        decreases CANDIDATES - n,
    {
        proof {
            lemma_candidate_is_entry(name@, n as nat);
        }
        let path = dir.join(&candidate_name(name, n));
        let answer = taken(&path);
        assert(path@ == entry_of(dir@, candidate(name@, n as nat)));
        assert(answered(taken, dir@, candidate(name@, n as nat), answer));
        if !answer {
            return path;
        }
        n += 1;
    }
    let id = Uuid::new_v4();
    let mut fallback = name.to_string();
    fallback.append("-");
    fallback.append(&id.to_text());
    proof {
        lemma_with_uuid_is_entry(name@, id.bits);
        assert(fallback@ == with_uuid(name@, id.bits));
    }
    dir.join(&fallback)
}

proof fn lemma_with_uuid_char(name: Seq<char>, bits: u128, i: int)
    requires
        0 <= i < with_uuid(name, bits).len(),
    ensures
        ({
            let c = with_uuid(name, bits)[i];
            i < name.len() && c == name[i] || '0' <= c <= '9' || 'a' <= c <= 'f' || c == '-'
        }),
{
    reveal_strlit("-");
    lemma_uuid_text_chars(bits);
    let c = with_uuid(name, bits);
    if i < name.len() {
        assert(c[i] == name[i]);
    } else if i > name.len() {
        assert(c[i] == uuid_text(bits)[i - name.len() - 1]);
    }
}

proof fn lemma_with_uuid_is_entry(name: Seq<char>, bits: u128)
    requires
        entry_name(name),
    ensures
        entry_name(with_uuid(name, bits)),
{
    reveal_strlit("-");
    lemma_uuid_text_chars(bits);
    let c = with_uuid(name, bits);
    assert forall|i: int| 0 <= i < c.len() implies c[i] != '/' && c[i] != '\\' by {
        lemma_with_uuid_char(name, bits, i);
        if i < name.len() {
            assert(name.contains(name[i]));
        }
    }
    assert(c.len() > 2);
}

/// A safe name with a UUID behind it is safe too.
pub proof fn law_name_with_uuid_is_safe(name: Seq<char>, bits: u128)
    requires
        safe_name(name),
    ensures
        safe_name(with_uuid(name, bits)),
{
    reveal_strlit("-");
    lemma_uuid_text_chars(bits);
    let c = with_uuid(name, bits);
    assert forall|i: int| 0 <= i < c.len() implies !forbidden(#[trigger] c[i]) by {
        lemma_with_uuid_char(name, bits, i);
        if i < name.len() {
            assert(!forbidden(name[i]));
        }
    }
    assert(c.last() == uuid_text(bits)[35]);
}

/// A name splits at its last full stop: what stands before and behind comes
/// back from putting them together. A name without a full stop, or with none
/// but its first character, has no extension.
pub proof fn law_name_splits_at_last_dot(stem: Seq<char>, ext: Seq<char>)
    requires
        !ext.contains('.'),
    ensures
        stem.len() > 0 ==> split_name(stem + seq!['.'] + ext) == (stem, Some(ext)),
        split_name(seq!['.'] + ext) == (seq!['.'] + ext, None::<Seq<char>>),
        split_name(ext) == (ext, None::<Seq<char>>),
{
    let name = stem + seq!['.'] + ext;
    law_last_position_is_the_last(stem, '.', ext);
    if stem.len() > 0 {
        assert(name.take(stem.len() as int) =~= stem);
        assert(name.skip(stem.len() as int + 1) =~= ext);
    }
    let empty = Seq::<char>::empty();
    law_last_position_is_the_last(empty, '.', ext);
    assert(empty + seq!['.'] + ext =~= seq!['.'] + ext);
}

/// The MIME type of a file goes by its extension, in whatever case it is
/// written, and by nothing else in its name.
pub proof fn law_mime_goes_by_extension(stem: Seq<char>, ext: Seq<char>)
    requires
        stem.len() > 0,
        !ext.contains('.'),
    ensures
        ({
            let low = ascii_lower_text(ext);
            let mime = mime_for_name(stem + seq!['.'] + ext);
            &&& low == "png"@ ==> mime == "image/png"@
            &&& low == "jpg"@ ==> mime == "image/jpeg"@
            &&& low == "jpeg"@ ==> mime == "image/jpeg"@
            &&& low == "gif"@ ==> mime == "image/gif"@
            &&& low == "webp"@ ==> mime == "image/webp"@
            &&& low == "svg"@ ==> mime == "image/svg+xml"@
            &&& low == "pdf"@ ==> mime == "application/pdf"@
            &&& low == "zip"@ ==> mime == "application/zip"@
            &&& low == "tar"@ ==> mime == "application/x-tar"@
            &&& low == "gz"@ ==> mime == "application/gzip"@
            &&& low == "tgz"@ ==> mime == "application/gzip"@
            &&& low == "txt"@ ==> mime == "text/plain; charset=utf-8"@
            &&& low == "md"@ ==> mime == "text/plain; charset=utf-8"@
            &&& low == "log"@ ==> mime == "text/plain; charset=utf-8"@
            &&& low == "json"@ ==> mime == "application/json"@
            &&& low == "html"@ ==> mime == "text/html; charset=utf-8"@
            &&& low == "htm"@ ==> mime == "text/html; charset=utf-8"@
            &&& low == "mp4"@ ==> mime == "video/mp4"@
            &&& low == "mov"@ ==> mime == "video/quicktime"@
            &&& low == "mp3"@ ==> mime == "audio/mpeg"@
            &&& low == "wav"@ ==> mime == "audio/wav"@
            &&& low != "png"@
                && low != "jpg"@
                && low != "jpeg"@
                && low != "gif"@
                && low != "webp"@
                && low != "svg"@
                && low != "pdf"@
                && low != "zip"@
                && low != "tar"@
                && low != "gz"@
                && low != "tgz"@
                && low != "txt"@
                && low != "md"@
                && low != "log"@
                && low != "json"@
                && low != "html"@
                && low != "htm"@
                && low != "mp4"@
                && low != "mov"@
                && low != "mp3"@
                && low != "wav"@
                ==> mime == "application/octet-stream"@
        }),
{
    law_name_splits_at_last_dot(stem, ext);
    reveal_strlit("png");
    reveal_strlit("jpg");
    reveal_strlit("jpeg");
    reveal_strlit("gif");
    reveal_strlit("webp");
    reveal_strlit("svg");
    reveal_strlit("pdf");
    reveal_strlit("zip");
    reveal_strlit("tar");
    reveal_strlit("gz");
    reveal_strlit("tgz");
    reveal_strlit("txt");
    reveal_strlit("md");
    reveal_strlit("log");
    reveal_strlit("json");
    reveal_strlit("html");
    reveal_strlit("htm");
    reveal_strlit("mp4");
    reveal_strlit("mov");
    reveal_strlit("mp3");
    reveal_strlit("wav");
    assert("png"@ =~= seq!['p', 'n', 'g']);
    assert("jpg"@ =~= seq!['j', 'p', 'g']);
    assert("jpeg"@ =~= seq!['j', 'p', 'e', 'g']);
    assert("gif"@ =~= seq!['g', 'i', 'f']);
    assert("webp"@ =~= seq!['w', 'e', 'b', 'p']);
    assert("svg"@ =~= seq!['s', 'v', 'g']);
    assert("pdf"@ =~= seq!['p', 'd', 'f']);
    assert("zip"@ =~= seq!['z', 'i', 'p']);
    assert("tar"@ =~= seq!['t', 'a', 'r']);
    assert("gz"@ =~= seq!['g', 'z']);
    assert("tgz"@ =~= seq!['t', 'g', 'z']);
    assert("txt"@ =~= seq!['t', 'x', 't']);
    assert("md"@ =~= seq!['m', 'd']);
    assert("log"@ =~= seq!['l', 'o', 'g']);
    assert("json"@ =~= seq!['j', 's', 'o', 'n']);
    assert("html"@ =~= seq!['h', 't', 'm', 'l']);
    assert("htm"@ =~= seq!['h', 't', 'm']);
    assert("mp4"@ =~= seq!['m', 'p', '4']);
    assert("mov"@ =~= seq!['m', 'o', 'v']);
    assert("mp3"@ =~= seq!['m', 'p', '3']);
    assert("wav"@ =~= seq!['w', 'a', 'v']);
}

/// A file without an extension is of no known type.
pub proof fn law_no_extension_is_no_known_type(name: Seq<char>)
    requires
        !name.contains('.') || name[0] == '.' && !name.drop_first().contains('.'),
    ensures
        mime_for_name(name) == "application/octet-stream"@,
{
    if !name.contains('.') {
        law_name_splits_at_last_dot(name, name);
    } else {
        law_name_splits_at_last_dot(name, name.drop_first());
        assert(seq!['.'] + name.drop_first() =~= name);
    }
}

/// Sanitising replaces characters one for one and drops none inside the name:
/// the trimmed name keeps its length but for full stops at its end, separators,
/// colons and control characters become underscores, and every other character
/// stays what it is.
pub proof fn law_sanitising_replaces_one_for_one(name: Seq<char>, end: int)
    requires
        0 < end <= trimmed(name).len(),
        trimmed(name)[end - 1] != '.',
        forall|i: int| end <= i < trimmed(name).len() ==> #[trigger] trimmed(name)[i] == '.',
    ensures
        sanitized(name).len() == end,
        forall|i: int|
            0 <= i < end ==> {
                let c = trimmed(name)[i];
                if c == '/' || c == '\\' || c == ':' || c == '\0' || control(c) {
                    #[trigger] sanitized(name)[i] == '_'
                } else {
                    sanitized(name)[i] == c
                }
            },
{
    let t = trimmed(name);
    let mapped = t.map_values(|c: char| safe_char(c));
    let front = mapped.take(end);
    let dots = mapped.skip(end);
    assert(front.last() == safe_char(t[end - 1]));
    assert forall|i: int| 0 <= i < dots.len() implies #[trigger] dots[i] == '.' by {
        assert(t[i + end] == '.');
        assert(dots[i] == safe_char(t[i + end]));
    }
    law_only_final_dots_are_dropped(front, dots);
    assert(front + dots =~= mapped);
}

/// A name of which nothing is left is replaced by one that says what the file
/// is.
pub proof fn law_empty_name_is_replaced(name: Seq<char>)
    requires
        forall|i: int| 0 <= i < trimmed(name).len() ==> #[trigger] trimmed(name)[i] == '.',
    ensures
        sanitized(name) == "received-file"@,
{
    let t = trimmed(name);
    let mapped = t.map_values(|c: char| safe_char(c));
    let empty = Seq::<char>::empty();
    assert forall|i: int| 0 <= i < mapped.len() implies #[trigger] mapped[i] == '.' by {
        assert(t[i] == '.');
    }
    law_only_final_dots_are_dropped(empty, mapped);
    assert(empty + mapped =~= mapped);
}

/// White space around a name does not count.
pub proof fn law_outer_white_space_does_not_count(
    front: Seq<char>,
    name: Seq<char>,
    back: Seq<char>,
)
    requires
        forall|i: int| 0 <= i < front.len() ==> white_space(#[trigger] front[i]),
        forall|i: int| 0 <= i < back.len() ==> white_space(#[trigger] back[i]),
        name.len() > 0 ==> !white_space(name.first()) && !white_space(name.last()),
    ensures
        sanitized(front + name + back) == sanitized(name),
{
    let none = Seq::<char>::empty();
    law_trimming_takes_only_outer_white_space(front, name, back);
    law_trimming_takes_only_outer_white_space(none, name, none);
    assert(none + name + none =~= name);
}

/// A safe name is one that is not empty, does not end in a full stop, and holds
/// no separator, colon or control character.
pub proof fn law_safe_names(name: Seq<char>)
    ensures
        safe_name(name) <==> {
            &&& name.len() > 0
            &&& name[name.len() - 1] != '.'
            &&& forall|i: int|
                0 <= i < name.len() ==> {
                    let c = #[trigger] name[i];
                    c != '/' && c != '\\' && c != ':' && c != '\0' && !control(c)
                }
        },
{
}

/// The first name to try is the name itself; the others put their number in
/// brackets before the extension, or at the end where there is none, and change
/// nothing else.
pub proof fn law_candidates_number_the_name(stem: Seq<char>, ext: Seq<char>, n: nat)
    requires
        stem.len() > 0,
        !ext.contains('.'),
        n > 0,
    ensures
        candidate(stem + seq!['.'] + ext, 0) == stem + seq!['.'] + ext,
        candidate(stem + seq!['.'] + ext, n) == stem + seq![' ', '('] + decimal(n) + seq![')', '.']
            + ext,
        candidate(ext, 0) == ext,
        candidate(ext, n) == ext + seq![' ', '('] + decimal(n) + seq![')'],
        candidate(seq!['.'] + ext, n) == seq!['.'] + ext + seq![' ', '('] + decimal(n) + seq![')'],
{
    reveal_strlit(" (");
    reveal_strlit(").");
    reveal_strlit(")");
    assert(" ("@ =~= seq![' ', '(']);
    assert(")."@ =~= seq![')', '.']);
    assert(")"@ =~= seq![')']);
    law_name_splits_at_last_dot(stem, ext);
}

/// Ten thousand names are tried; then the name gets a hyphen and a UUID behind.
pub proof fn law_fallback_keeps_the_name(name: Seq<char>, bits: u128)
    ensures
        CANDIDATES == 10_000,
        with_uuid(name, bits) == name + seq!['-'] + uuid_text(bits),
{
    reveal_strlit("-");
    assert("-"@ =~= seq!['-']);
}

/// Where what exists is a matter of the path alone, an answer about an entry of
/// a directory is the truth about its path.
pub proof fn law_answers_are_about_the_entry<F: Fn(&LocalPath) -> bool>(
    taken: F,
    present: spec_fn(Seq<Seq<u8>>) -> bool,
    dir: Seq<Seq<u8>>,
    name: Seq<char>,
    answer: bool,
)
    requires
        forall|p: &LocalPath, r: bool| #[trigger]
            call_ensures(taken, (p,), r) ==> r == present(p@),
        answered(taken, dir, name, answer),
    ensures
        answer == present(dir.push(vstd::utf8::encode_utf8(name))),
{
    let p = choose|p: LocalPath|
        #![trigger p@]
        p@ == entry_of(dir, name) && call_ensures(taken, (&p,), answer);
    assert(call_ensures(taken, (&p,), answer));
}

} // verus!
