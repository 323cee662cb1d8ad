use clipboardwire::client::names::{mime_for, sanitize_filename, unique_path};
use clipboardwire::ident::Uuid;
use clipboardwire::path::LocalPath;

fn path(components: &[&str]) -> LocalPath {
    LocalPath {
        components: components.iter().map(|c| c.as_bytes().to_vec()).collect(),
    }
}

fn last(p: &LocalPath) -> String {
    String::from_utf8(p.components.last().unwrap().clone()).unwrap()
}

#[test]
fn sanitize_filename_strips_path_separators() {
    assert_eq!(sanitize_filename("../etc/passwd"), ".._etc_passwd");
    assert_eq!(sanitize_filename("normal.txt"), "normal.txt");
    assert_eq!(sanitize_filename("   "), "received-file");
    assert_eq!(sanitize_filename("foo\\bar"), "foo_bar");
}

#[test]
fn sanitize_filename_edge_cases() {
    assert_eq!(sanitize_filename(""), "received-file");
    assert_eq!(sanitize_filename("."), "received-file");
    assert_eq!(sanitize_filename(".."), "received-file");
    assert_eq!(sanitize_filename("...."), "received-file");
    assert_eq!(sanitize_filename(".hidden"), ".hidden");
    assert_eq!(sanitize_filename("name..."), "name");
    assert_eq!(sanitize_filename("  padded.txt\t\n"), "padded.txt");
    assert_eq!(sanitize_filename("a\0b\u{7f}c\u{85}d:e"), "a_b_c_d_e");
    assert_eq!(sanitize_filename("\u{a0}ünï©ode\u{3000}"), "ünï©ode");
    assert_eq!(sanitize_filename("trailing. "), "trailing");
    assert_eq!(sanitize_filename("a .  . "), "a .  ");
    assert_eq!(sanitize_filename("/"), "_");
}

#[test]
fn sanitized_names_are_safe_and_stay() {
    for name in ["../x", "a/b\\c", " .. ", "\u{1}", "x.", "ok.txt", "C:\\dir\\f"] {
        let safe = sanitize_filename(name);
        assert!(!safe.is_empty() && !safe.ends_with('.'));
        assert!(!safe
            .chars()
            .any(|c| c == '/' || c == '\\' || c == ':' || c.is_control()));
        assert_eq!(sanitize_filename(&safe), safe);
    }
}

#[test]
fn unique_path_disambiguates_existing_filenames() {
    let dir = path(&["tmp", "unique"]);
    let mut existing: Vec<LocalPath> = Vec::new();
    let p = unique_path(&dir, "doc.txt", |q| existing.contains(q));
    assert_eq!(p, path(&["tmp", "unique", "doc.txt"]));
    existing.push(p.clone());
    let p2 = unique_path(&dir, "doc.txt", |q| existing.contains(q));
    assert_ne!(p, p2);
    assert!(
        last(&p2).contains("(1)"),
        "second `doc.txt` should get a numeric suffix"
    );
    assert_eq!(last(&p2), "doc (1).txt");
    existing.push(p2);
    let p3 = unique_path(&dir, "doc.txt", |q| existing.contains(q));
    assert_eq!(last(&p3), "doc (2).txt");
}

#[test]
fn unique_path_splits_at_the_last_full_stop() {
    let dir = path(&["d"]);
    let taken = |name: &'static str| move |q: &LocalPath| last(q) == name;
    assert_eq!(last(&unique_path(&dir, "a.tar.gz", taken("a.tar.gz"))), "a.tar (1).gz");
    assert_eq!(last(&unique_path(&dir, "README", taken("README"))), "README (1)");
    assert_eq!(last(&unique_path(&dir, ".bashrc", taken(".bashrc"))), ".bashrc (1)");
    assert_eq!(last(&unique_path(&dir, "a.b", taken("x"))), "a.b");
}

#[test]
fn unique_path_gives_up_on_numbers_after_ten_thousand_names() {
    let dir = path(&["d"]);
    let tries = std::cell::Cell::new(0u32);
    let p = unique_path(&dir, "f.txt", |_| {
        tries.set(tries.get() + 1);
        true
    });
    assert_eq!(tries.get(), 10_000);
    let name = last(&p);
    assert!(name.starts_with("f.txt-"));
    let id = &name["f.txt-".len()..];
    assert_eq!(id.len(), 36);
    assert!(uuid::Uuid::parse_str(id).is_ok());

    let p = unique_path(&dir, "f.txt", |q| last(q) != "f (9999).txt");
    assert_eq!(last(&p), "f (9999).txt");
}

#[test]
fn mime_types_by_extension() {
    let table = [
        ("a.png", "image/png"),
        ("a.jpg", "image/jpeg"),
        ("a.jpeg", "image/jpeg"),
        ("a.gif", "image/gif"),
        ("a.webp", "image/webp"),
        ("a.svg", "image/svg+xml"),
        ("a.pdf", "application/pdf"),
        ("a.zip", "application/zip"),
        ("a.tar", "application/x-tar"),
        ("a.gz", "application/gzip"),
        ("a.tgz", "application/gzip"),
        ("a.txt", "text/plain; charset=utf-8"),
        ("a.md", "text/plain; charset=utf-8"),
        ("a.log", "text/plain; charset=utf-8"),
        ("a.json", "application/json"),
        ("a.html", "text/html; charset=utf-8"),
        ("a.htm", "text/html; charset=utf-8"),
        ("a.mp4", "video/mp4"),
        ("a.mov", "video/quicktime"),
        ("a.mp3", "audio/mpeg"),
        ("a.wav", "audio/wav"),
        ("PHOTO.JPG", "image/jpeg"),
        ("a.tar.gz", "application/gzip"),
        ("a.bin", "application/octet-stream"),
        ("png", "application/octet-stream"),
        (".png", "application/octet-stream"),
        ("a.", "application/octet-stream"),
        ("a.PnG", "image/png"),
    ];
    for (name, mime) in table {
        assert_eq!(mime_for(name), mime, "{}", name);
    }
}

#[test]
fn uuids_are_random_and_written_with_hyphens() {
    let a = Uuid::new_v4();
    let b = Uuid::new_v4();
    assert_ne!(a, b);
    assert_eq!(a.to_text(), uuid::Uuid::from_u128(a.bits).to_string());
    assert_eq!(a.to_text().as_bytes()[14], b'4');
    assert_eq!(
        Uuid { bits: 0x0123_4567_89ab_cdef_0123_4567_89ab_cdef }.to_text(),
        "01234567-89ab-cdef-0123-456789abcdef"
    );
    assert_eq!(Uuid::nil().to_text(), "00000000-0000-0000-0000-000000000000");
}

#[test]
fn local_paths_join_and_compare() {
    let dir = path(&["home", "me"]);
    let file = dir.join("ü.txt");
    assert_eq!(file, path(&["home", "me", "ü.txt"]));
    assert!(file.same(&file.copy()));
    assert!(!file.same(&dir));
    assert!(!file.same(&path(&["home", "me", "u.txt"])));
}
