//! Self-signed TLS certificate for the hub.
//!
//! Where no certificate is configured and TLS is not disabled, the hub
//! generates a self-signed one and keeps it in its state directory. Later
//! restarts reload the same pair, so that clients that pin it stay valid.
//!
//! The certificate's subject alternative names cover `localhost`, `127.0.0.1`,
//! `::1`, the bind address (if specific) and the machine's host name: enough
//! for the common case of one box on a LAN without extra configuration.
use crate::digest::{fingerprint, sha256, sha256_message};
use crate::path::{entry_name, entry_of, LocalPath};
use crate::server::pem::{
    certificate_pem, fingerprint_of_der, fingerprint_of_pem, law_certificate_reads_back,
    pem_fingerprint, PemError, PemProblem,
};
use crate::text::{chars_of, decimal, same_text, text_of, to_decimal, trim, trimmed};
use vstd::prelude::*;
use vstd::string::*;
use vstd::utf8::encode_utf8;

verus! {

/// File name of the certificate in the state directory.
pub const CERT_FILENAME: &'static str = "self-signed.crt";

/// File name of the private key in the state directory.
pub const KEY_FILENAME: &'static str = "self-signed.key";

/// Why no certificate could be generated, as the `rcgen` crate reports it.
#[verifier::external_type_specification]
#[verifier::external_body]
pub struct ExRcgenError(rcgen::Error);

/// The IP address that the hub binds to.
#[derive(Debug, Clone, PartialEq, Eq)]
pub enum IpAddress {
    /// The four bytes of an IPv4 address.
    V4([u8; 4]),
    /// The eight 16-bit segments of an IPv6 address, and the text that the
    /// address is written as.
    V6 { segments: [u16; 8], text: String },
}

/// Whether an address stands for every address of the machine: `0.0.0.0` or
/// `::`.
pub open spec fn unspecified(ip: IpAddress) -> bool {
    match ip {
        IpAddress::V4(bytes) => forall|i: int| 0 <= i < 4 ==> bytes@[i] == 0,
        IpAddress::V6 { segments, .. } => forall|i: int| 0 <= i < 8 ==> segments@[i] == 0,
    }
}

/// The text that an address is written as: an IPv4 address as its four bytes in
/// decimal, with a full stop between one and the next.
pub open spec fn ip_text(ip: IpAddress) -> Seq<char> {
    match ip {
        IpAddress::V4(bytes) => decimal(bytes@[0] as nat) + "."@ + decimal(bytes@[1] as nat) + "."@
            + decimal(bytes@[2] as nat) + "."@ + decimal(bytes@[3] as nat),
        IpAddress::V6 { text, .. } => text@,
    }
}

impl IpAddress {
    /// Whether this is `0.0.0.0` or `::`.
    pub fn is_unspecified(&self) -> (r: bool)
        ensures
            r == unspecified(*self),
    {
        match self {
            IpAddress::V4(b) => b[0] == 0 && b[1] == 0 && b[2] == 0 && b[3] == 0,
            IpAddress::V6 { segments: s, .. } => s[0] == 0 && s[1] == 0 && s[2] == 0 && s[3] == 0
                && s[4] == 0 && s[5] == 0 && s[6] == 0 && s[7] == 0,
        }
    }

    /// The text that this address is written as.
    pub fn to_text(&self) -> (r: String)
        ensures
            r@ == ip_text(*self),
    {
        match self {
            IpAddress::V4(b) => {
                let mut out = to_decimal(b[0] as u32);
                out.append(".");
                out.append(&to_decimal(b[1] as u32));
                out.append(".");
                out.append(&to_decimal(b[2] as u32));
                out.append(".");
                out.append(&to_decimal(b[3] as u32));
                out
            },
            IpAddress::V6 { text, .. } => text.clone(),
        }
    }
}

/// The names of a list.
pub open spec fn texts(names: Seq<String>) -> Seq<Seq<char>> {
    names.map_values(|s: String| s@)
}

/// The names that every certificate covers.
pub open spec fn local_names() -> Seq<Seq<char>> {
    seq!["localhost"@, "127.0.0.1"@, "::1"@]
}

/// The local names and the bind address, where that is specific and not among
/// them.
pub open spec fn address_names(bind: IpAddress) -> Seq<Seq<char>> {
    if unspecified(bind) || local_names().contains(ip_text(bind)) {
        local_names()
    } else {
        local_names().push(ip_text(bind))
    }
}

/// The names that a certificate covers, on a machine with the host name `host`:
/// the local names, the bind address where that is specific, and the host name
/// where it is not empty and not among them.
pub open spec fn alt_names(bind: IpAddress, host: Option<Seq<char>>) -> Seq<Seq<char>> {
    let names = address_names(bind);
    match host {
        Some(h) => if trimmed(h).len() > 0 && !names.contains(trimmed(h)) {
            names.push(trimmed(h))
        } else {
            names
        },
        None => names,
    }
}

/// `hostname::get` of the `hostname` crate, where it succeeds and the name is
/// UTF-8. The name is the machine's, so nothing is stated of it.
#[verifier::external_body]
fn host_name() -> Option<String> {
    hostname::get().ok()?.into_string().ok()
}

/// Whether `name` is among `names`.
fn listed(names: &Vec<String>, name: &str) -> (r: bool)
    ensures
        r == texts(names@).contains(name@),
{
    let n = names.len();
    for i in 0..n
        invariant
            n == names@.len(),
            forall|j: int| 0 <= j < i ==> texts(names@)[j] != name@,
    {
        if same_text(&names[i], name) {
            assert(texts(names@)[i as int] == name@);
            return true;
        }
    }
    false
}

/// The names for a certificate on a machine with the host name `host`.
pub fn alt_names_with_host(bind: &IpAddress, host: Option<&str>) -> (r: Vec<String>)
    ensures
        texts(r@) == alt_names(
            *bind,
            match host {
                Some(h) => Some(h@),
                None => None,
            },
        ),
{
    let mut names: Vec<String> = Vec::new();
    names.push("localhost".to_string());
    names.push("127.0.0.1".to_string());
    names.push("::1".to_string());
    assert(texts(names@) =~= local_names());
    if !bind.is_unspecified() && !listed(&names, &bind.to_text()) {
        names.push(bind.to_text());
        assert(texts(names@) =~= local_names().push(ip_text(*bind)));
    }
    if let Some(h) = host {
        let h = text_of(&trim(&chars_of(h)));
        if h.as_str().unicode_len() > 0 && !listed(&names, &h) {
            let ghost before = names@;
            names.push(h);
            assert(texts(names@) =~= texts(before).push(h@));
        }
    }
    names
}

/// The names for the generated certificate. The goal is not completeness: the
/// user can always bring a certificate of their own.
///
/// Which host name comes last, if any, is the machine's.
pub fn subject_alt_names_for(bind: &IpAddress) -> (r: Vec<String>)
    ensures
        exists|host: Option<Seq<char>>| texts(r@) == #[trigger] alt_names(*bind, host),
{
    match host_name() {
        Some(host) => alt_names_with_host(bind, Some(&host)),
        None => alt_names_with_host(bind, None),
    }
}

/// Every certificate covers the local names and, where it is specific, the bind
/// address, whatever the machine is called.
pub proof fn law_alt_names_cover_addresses(bind: IpAddress, host: Option<Seq<char>>)
    ensures
        address_names(bind).is_prefix_of(alt_names(bind, host)),
        alt_names(bind, host).len() <= address_names(bind).len() + 1,
        local_names().is_prefix_of(alt_names(bind, host)),
{
    let names = address_names(bind);
    assert(names.is_prefix_of(alt_names(bind, host)));
    assert(local_names().is_prefix_of(names));
    assert(local_names() =~= alt_names(bind, host).subrange(0, 3));
}

/// A specific bind address is covered.
pub proof fn law_specific_address_is_covered(bind: IpAddress, host: Option<Seq<char>>)
    requires
        !unspecified(bind),
    ensures
        alt_names(bind, host).contains(ip_text(bind)),
{
    let names = address_names(bind);
    if local_names().contains(ip_text(bind)) {
        assert(names.contains(ip_text(bind)));
    } else {
        assert(names[3] == ip_text(bind));
    }
    let i = choose|i: int| 0 <= i < names.len() && names[i] == ip_text(bind);
    assert(alt_names(bind, host)[i] == names[i]);
}

/// No name is covered twice.
pub proof fn law_alt_names_differ(bind: IpAddress, host: Option<Seq<char>>)
    ensures
        alt_names(bind, host).no_duplicates(),
{
    reveal_strlit("localhost");
    reveal_strlit("127.0.0.1");
    reveal_strlit("::1");
    let local = local_names();
    assert(local[0].len() == 9 && local[1].len() == 9 && local[2].len() == 3);
    assert(local[0][0] != local[1][0]);
    assert(local.no_duplicates());
    let names = address_names(bind);
    assert(names.no_duplicates()) by {
        assert forall|i: int, j: int| 0 <= i < j < names.len() implies names[i] != names[j] by {
            assert(local[i] == names[i]);
            if j < 3 {
                assert(local[j] == names[j]);
            }
        }
    }
    if let Some(h) = host {
        let all = alt_names(bind, host);
        assert forall|i: int, j: int| 0 <= i < j < all.len() implies all[i] != all[j] by {
            assert(names[i] == all[i]);
            if j < names.len() {
                assert(names[j] == all[j]);
            }
        }
    }
}

/// A bind address that stands for every address is not covered as such, unless
/// the machine is called like it, or an IPv6 address is handed in under the text
/// of a local name.
pub proof fn law_unspecified_address_is_not_covered(bind: IpAddress, host: Option<Seq<char>>)
    requires
        unspecified(bind),
        bind matches IpAddress::V6 { text, .. } ==> !local_names().contains(text@),
        host matches Some(h) ==> trimmed(h) != ip_text(bind),
    ensures
        !alt_names(bind, host).contains(ip_text(bind)),
{
    reveal_strlit("localhost");
    reveal_strlit("127.0.0.1");
    reveal_strlit("::1");
    if bind is V4 {
        assert(bind->V4_0@[0] == 0);
        assert(ip_text(bind)[0] == decimal(0)[0]);
        assert(forall|i: int| 0 <= i < 3 ==> local_names()[i][0] != '0');
    }
    let all = alt_names(bind, host);
    assert forall|i: int| 0 <= i < all.len() implies all[i] != ip_text(bind) by {
        if i < 3 {
            assert(all[i] == local_names()[i]);
        }
    }
}

/// Whether a certificate in DER form was issued for these names, in this order.
pub uninterp spec fn issued_for(der: Seq<u8>, names: Seq<Seq<char>>) -> bool;

/// Whether a private key in PEM form is the key of a certificate in DER form.
pub uninterp spec fn key_of(key_pem: Seq<char>, der: Seq<u8>) -> bool;

/// A certificate and its private key, fresh from the generator.
#[derive(Debug, Clone, PartialEq, Eq)]
pub struct GeneratedCert {
    pub cert_pem: String,
    pub cert_der: Vec<u8>,
    pub key_pem: String,
}

/// `generate_simple_self_signed` of the `rcgen` crate, with `Certificate::pem`,
/// `Certificate::der` and `KeyPair::serialize_pem`: a certificate for `names`,
/// the same certificate in PEM form, and the key that it was signed with and
/// holds. The key pair is drawn at random, so no more is stated of the bytes.
#[verifier::external_body]
fn generate_certificate(names: Vec<String>) -> (r: Result<GeneratedCert, rcgen::Error>)
    ensures
        r matches Ok(generated) ==> issued_for(generated.cert_der@, texts(names@)),
        r matches Ok(generated) ==> certificate_pem(generated.cert_pem@, generated.cert_der@),
        r matches Ok(generated) ==> key_of(generated.key_pem@, generated.cert_der@),
{
    let certified = rcgen::generate_simple_self_signed(names)?;
    Ok(
        GeneratedCert {
            cert_pem: certified.cert.pem(),
            cert_der: certified.cert.der().to_vec(),
            key_pem: certified.key_pair.serialize_pem(),
        },
    )
}

/// Outcome of making sure that there is a certificate.
#[derive(Debug, Clone, PartialEq, Eq)]
pub struct EnsuredCert {
    pub cert_path: LocalPath,
    pub key_path: LocalPath,
    /// Colon-separated upper-case hex SHA-256 of the certificate in DER form,
    /// the format that browsers and `openssl x509 -fingerprint -sha256` print.
    pub fingerprint_sha256: String,
    /// `true` if the certificate was generated on this call, `false` if it was
    /// already on disk from a previous run.
    pub was_new: bool,
}

/// Whether `cert` stands in `state_dir` under the two file names.
pub open spec fn kept_in(cert: EnsuredCert, state_dir: Seq<Seq<u8>>) -> bool {
    &&& cert.cert_path@ == entry_of(state_dir, CERT_FILENAME@)
    &&& cert.key_path@ == entry_of(state_dir, KEY_FILENAME@)
}

proof fn lemma_file_names()
    ensures
        entry_name(CERT_FILENAME@),
        entry_name(KEY_FILENAME@),
{
    reveal_strlit("self-signed.crt");
    reveal_strlit("self-signed.key");
    assert(CERT_FILENAME@.len() == 15);
    assert(KEY_FILENAME@.len() == 15);
    assert(forall|i: int| 0 <= i < 15 ==> CERT_FILENAME@[i] != '/' && CERT_FILENAME@[i] != '\\');
    assert(forall|i: int| 0 <= i < 15 ==> KEY_FILENAME@[i] != '/' && KEY_FILENAME@[i] != '\\');
}

/// The certificate's path in the state directory.
pub fn cert_path(state_dir: &LocalPath) -> (r: LocalPath)
    ensures
        r@ == entry_of(state_dir@, CERT_FILENAME@),
{
    proof {
        lemma_file_names();
    }
    state_dir.join(CERT_FILENAME)
}

/// The key's path in the state directory.
pub fn key_path(state_dir: &LocalPath) -> (r: LocalPath)
    ensures
        r@ == entry_of(state_dir@, KEY_FILENAME@),
{
    proof {
        lemma_file_names();
    }
    state_dir.join(KEY_FILENAME)
}

/// How the hub comes to its certificate.
#[derive(Debug, Clone, PartialEq, Eq)]
pub enum CertStep {
    /// Read the certificate at `path` and go on with [`reuse_certificate`].
    Reuse { path: LocalPath },
    /// Create the state directory and go on with [`issue_certificate`].
    Issue,
}

/// Decides whether the certificate in `state_dir` is reused: it is where both
/// the certificate and the key exist.
pub fn ensure_self_signed_cert(
    state_dir: &LocalPath,
    cert_exists: bool,
    key_exists: bool,
) -> (r: CertStep)
    ensures
        r is Reuse <==> cert_exists && key_exists,
        r matches CertStep::Reuse { path } ==> path@ == entry_of(state_dir@, CERT_FILENAME@),
{
    if cert_exists && key_exists {
        CertStep::Reuse { path: cert_path(state_dir) }
    } else {
        CertStep::Issue
    }
}

/// Takes the certificate in `state_dir`, whose file holds `cert_pem`, as it is.
pub fn reuse_certificate(state_dir: &LocalPath, cert_pem: &[u8]) -> (r: Result<
    EnsuredCert,
    PemError,
>)
    requires
        sha256_message(cert_pem@),
    ensures
        (match r {
            Ok(cert) => Ok(cert.fingerprint_sha256@),
            Err(e) => Err(e@),
        }) == pem_fingerprint(cert_pem@),
        r matches Ok(cert) ==> kept_in(cert, state_dir@) && !cert.was_new,
{
    match fingerprint_of_pem(cert_pem) {
        Ok(fingerprint_sha256) => Ok(
            EnsuredCert {
                cert_path: cert_path(state_dir),
                key_path: key_path(state_dir),
                fingerprint_sha256,
                was_new: false,
            },
        ),
        Err(e) => Err(e),
    }
}

/// A file to write, with its permission bits.
#[derive(Debug, Clone, PartialEq, Eq)]
pub struct NewFile {
    pub path: LocalPath,
    pub contents: Vec<u8>,
    pub mode: u32,
}

/// A certificate that was issued, and the two files that keep it.
#[derive(Debug, Clone, PartialEq, Eq)]
pub struct IssuedCert {
    pub cert: EnsuredCert,
    pub cert_file: NewFile,
    pub key_file: NewFile,
}

/// Permission bits of the certificate, which is public.
pub const CERT_MODE: u32 = 0o644;

/// Permission bits of the key, which is private to its owner.
pub const KEY_MODE: u32 = 0o600;

/// Whether `issued` keeps a generated certificate in `state_dir`: the
/// certificate readable by all, the key by its owner alone.
pub open spec fn keeps(issued: IssuedCert, state_dir: Seq<Seq<u8>>, generated: GeneratedCert) -> bool {
    &&& kept_in(issued.cert, state_dir)
    &&& issued.cert.fingerprint_sha256@ == fingerprint(sha256(generated.cert_der@))
    &&& issued.cert.was_new
    &&& issued.cert_file.path@ == issued.cert.cert_path@
    &&& issued.cert_file.contents@ == encode_utf8(generated.cert_pem@)
    &&& issued.cert_file.mode == CERT_MODE
    &&& issued.key_file.path@ == issued.cert.key_path@
    &&& issued.key_file.contents@ == encode_utf8(generated.key_pem@)
    &&& issued.key_file.mode == KEY_MODE
}

/// Keeps a generated certificate in `state_dir`.
pub fn keep_certificate(state_dir: &LocalPath, generated: &GeneratedCert) -> (r: IssuedCert)
    requires
        sha256_message(generated.cert_der@),
    ensures
        keeps(r, state_dir@, *generated),
{
    IssuedCert {
        cert: EnsuredCert {
            cert_path: cert_path(state_dir),
            key_path: key_path(state_dir),
            fingerprint_sha256: fingerprint_of_der(&generated.cert_der),
            was_new: true,
        },
        cert_file: NewFile {
            path: cert_path(state_dir),
            contents: generated.cert_pem.as_str().as_bytes_vec(),
            mode: CERT_MODE,
        },
        key_file: NewFile {
            path: key_path(state_dir),
            contents: generated.key_pem.as_str().as_bytes_vec(),
            mode: KEY_MODE,
        },
    }
}

/// Why no certificate was issued.
#[derive(Debug)]
pub enum IssueError {
    /// The generator failed.
    Generate(rcgen::Error),
    /// The certificate is too long to have a SHA-256 digest.
    Oversized,
}

/// Whether `r` is what becomes of the generator's outcome in `state_dir`: a
/// certificate is kept, unless it is too long to have a digest; a failure is
/// passed on.
pub open spec fn issue_outcome(
    state_dir: Seq<Seq<u8>>,
    outcome: Result<GeneratedCert, rcgen::Error>,
    r: Result<IssuedCert, IssueError>,
) -> bool {
    match outcome {
        Ok(generated) => if sha256_message(generated.cert_der@) {
            r matches Ok(issued) && keeps(issued, state_dir, generated)
        } else {
            r matches Err(IssueError::Oversized)
        },
        Err(e) => r == Err::<IssuedCert, IssueError>(IssueError::Generate(e)),
    }
}

/// Whether `outcome` can be the generator's for `names`: where it succeeds, the
/// certificate was issued for them, its PEM form is the certificate's, and the
/// key is its key.
pub open spec fn generator_outcome(
    names: Seq<Seq<char>>,
    outcome: Result<GeneratedCert, rcgen::Error>,
) -> bool {
    outcome matches Ok(generated) ==> {
        &&& issued_for(generated.cert_der@, names)
        &&& certificate_pem(generated.cert_pem@, generated.cert_der@)
        &&& key_of(generated.key_pem@, generated.cert_der@)
    }
}

/// Takes what the generator gave: keeps the certificate in `state_dir`, or
/// passes its failure on.
pub fn take_generated(
    state_dir: &LocalPath,
    outcome: Result<GeneratedCert, rcgen::Error>,
) -> (r: Result<IssuedCert, IssueError>)
    ensures
        issue_outcome(state_dir@, outcome, r),
{
    match outcome {
        Ok(generated) => {
            if generated.cert_der.len() as u64 >= 0x2000_0000_0000_0000 {
                return Err(IssueError::Oversized);
            }
            Ok(keep_certificate(state_dir, &generated))
        },
        Err(e) => Err(IssueError::Generate(e)),
    }
}

/// Issues a certificate for the hub that binds to `bind`, to be kept in
/// `state_dir`. Whether the generator succeeds, and which key it draws, is its
/// own; the certificate it gives covers the names for `bind`, its file reads
/// back with the same fingerprint, and the key that is kept beside it is its key.
pub fn issue_certificate(state_dir: &LocalPath, bind: &IpAddress) -> (r: Result<
    IssuedCert,
    IssueError,
>)
    ensures
        exists|outcome: Result<GeneratedCert, rcgen::Error>, host: Option<Seq<char>>|
            #![trigger generator_outcome(alt_names(*bind, host), outcome)]
            generator_outcome(alt_names(*bind, host), outcome) && issue_outcome(
                state_dir@,
                outcome,
                r,
            ),
        r matches Ok(issued) ==> pem_fingerprint(issued.cert_file.contents@) == Ok::<
            Seq<char>,
            PemProblem,
        >(issued.cert.fingerprint_sha256@),
{
    let names = subject_alt_names_for(bind);
    let outcome = generate_certificate(names);
    let r = take_generated(state_dir, outcome);
    proof {
        let host = choose|host: Option<Seq<char>>| texts(names@) == #[trigger] alt_names(
            *bind,
            host,
        );
        assert(generator_outcome(alt_names(*bind, host), outcome));
        if outcome is Ok {
            law_certificate_reads_back(outcome->Ok_0.cert_pem@, outcome->Ok_0.cert_der@);
        }
    }
    r
}

/// A certificate that was generated and kept is reused on the next start with
/// the same fingerprint.
pub proof fn law_fingerprint_survives_restart(
    issued: IssuedCert,
    state_dir: Seq<Seq<u8>>,
    generated: GeneratedCert,
)
    requires
        keeps(issued, state_dir, generated),
        certificate_pem(generated.cert_pem@, generated.cert_der@),
    ensures
        pem_fingerprint(issued.cert_file.contents@) == Ok::<
            Seq<char>,
            PemProblem,
        >(issued.cert.fingerprint_sha256@),
        issued.cert_file.path@ == entry_of(state_dir, CERT_FILENAME@),
{
    law_certificate_reads_back(generated.cert_pem@, generated.cert_der@);
}

/// The host name is covered wherever the machine has one, however long it is.
pub proof fn law_host_name_is_covered(bind: IpAddress, host: Seq<char>)
    requires
        trimmed(host).len() > 0,
    ensures
        alt_names(bind, Some(host)).contains(trimmed(host)),
{
    let names = address_names(bind);
    let all = alt_names(bind, Some(host));
    if names.contains(trimmed(host)) {
        let i = choose|i: int| 0 <= i < names.len() && names[i] == trimmed(host);
        assert(all[i] == trimmed(host));
    } else {
        assert(all.last() == trimmed(host));
    }
}

/// Nothing is covered but the local names, the bind address where it is
/// specific, and the host name.
pub proof fn law_nothing_else_is_covered(
    bind: IpAddress,
    host: Option<Seq<char>>,
    name: Seq<char>,
)
    requires
        alt_names(bind, host).contains(name),
    ensures
        ({
            ||| name == "localhost"@
            ||| name == "127.0.0.1"@
            ||| name == "::1"@
            ||| !unspecified(bind) && name == ip_text(bind)
            ||| host is Some && name == trimmed(host->0) && name.len() > 0
        }),
{
    let all = alt_names(bind, host);
    let names = address_names(bind);
    let i = choose|i: int| 0 <= i < all.len() && all[i] == name;
    if i < 3 {
        assert(all[i] == local_names()[i]);
    } else if i < names.len() {
        assert(all[i] == names[i]);
    }
}

/// The names for this machine itself come first, in one order.
pub proof fn law_local_names_come_first(bind: IpAddress, host: Option<Seq<char>>)
    ensures
        alt_names(bind, host).len() >= 3,
        alt_names(bind, host)[0] == "localhost"@,
        alt_names(bind, host)[1] == "127.0.0.1"@,
        alt_names(bind, host)[2] == "::1"@,
{
}

/// The names are the addresses' with the host name behind, where that is new.
pub proof fn law_host_name_comes_last(bind: IpAddress, host: Seq<char>)
    ensures
        alt_names(bind, Some(host)) == alt_names(bind, None) || alt_names(bind, Some(host))
            == alt_names(bind, None).push(trimmed(host)),
{
}

/// The address that stands for every address is the one of zeros alone.
pub proof fn law_unspecified_address_is_zero(bytes: [u8; 4], segments: [u16; 8], text: String)
    ensures
        unspecified(IpAddress::V4(bytes)) <==> bytes@[0] == 0 && bytes@[1] == 0 && bytes@[2] == 0
            && bytes@[3] == 0,
        unspecified(IpAddress::V6 { segments, text }) <==> segments@[0] == 0 && segments@[1] == 0
            && segments@[2] == 0 && segments@[3] == 0 && segments@[4] == 0 && segments@[5] == 0
            && segments@[6] == 0 && segments@[7] == 0,
{
    let b = bytes@;
    let s = segments@;
    let v4 = IpAddress::V4(bytes);
    let v6 = IpAddress::V6 { segments, text };
    if unspecified(v4) {
        assert(v4->V4_0@[0] == 0 && v4->V4_0@[1] == 0 && v4->V4_0@[2] == 0 && v4->V4_0@[3] == 0);
    }
    if unspecified(v6) {
        assert(v6->segments@[0] == 0 && v6->segments@[1] == 0 && v6->segments@[2] == 0
            && v6->segments@[3] == 0);
        assert(v6->segments@[4] == 0 && v6->segments@[5] == 0 && v6->segments@[6] == 0
            && v6->segments@[7] == 0);
    }
    if b[0] == 0 && b[1] == 0 && b[2] == 0 && b[3] == 0 {
        assert forall|i: int| 0 <= i < 4 implies bytes@[i] == 0 by {
            assert(i == 0 || i == 1 || i == 2 || i == 3);
        }
    }
    if s[0] == 0 && s[1] == 0 && s[2] == 0 && s[3] == 0 && s[4] == 0 && s[5] == 0 && s[6] == 0
        && s[7] == 0 {
        assert forall|i: int| 0 <= i < 8 implies segments@[i] == 0 by {
            assert(i == 0 || i == 1 || i == 2 || i == 3 || i == 4 || i == 5 || i == 6 || i == 7);
        }
    }
}

/// An IPv4 address is written as its four bytes in decimal between full stops,
/// an IPv6 address as the text that it comes with.
pub proof fn law_address_text(bytes: [u8; 4], segments: [u16; 8], text: String)
    ensures
        ip_text(IpAddress::V4(bytes)) == decimal(bytes@[0] as nat) + seq!['.'] + decimal(
            bytes@[1] as nat,
        ) + seq!['.'] + decimal(bytes@[2] as nat) + seq!['.'] + decimal(bytes@[3] as nat),
        ip_text(IpAddress::V6 { segments, text }) == text@,
{
    reveal_strlit(".");
    assert("."@ =~= seq!['.']);
}

/// A list of names is those names, in order.
pub proof fn law_list_is_its_names(names: Seq<String>)
    ensures
        texts(names).len() == names.len(),
        forall|i: int| 0 <= i < names.len() ==> #[trigger] texts(names)[i] == names[i]@,
{
}

/// A certificate that is kept stands with its key in the state directory under
/// the two file names. The certificate can be read by all and the key by its
/// owner alone, each file holds what the generator gave, and the fingerprint is
/// that of the certificate.
pub proof fn law_certificate_is_kept_with_its_key(
    issued: IssuedCert,
    state_dir: Seq<Seq<u8>>,
    generated: GeneratedCert,
)
    requires
        keeps(issued, state_dir, generated),
    ensures
        issued.cert.was_new,
        issued.cert.fingerprint_sha256@ == fingerprint(sha256(generated.cert_der@)),
        issued.cert.cert_path@ == entry_of(state_dir, "self-signed.crt"@),
        issued.cert.key_path@ == entry_of(state_dir, "self-signed.key"@),
        issued.cert_file.path@ == issued.cert.cert_path@,
        issued.key_file.path@ == issued.cert.key_path@,
        issued.cert_file.contents@ == encode_utf8(generated.cert_pem@),
        issued.key_file.contents@ == encode_utf8(generated.key_pem@),
        issued.cert_file.mode == 0o644,
        issued.key_file.mode == 0o600,
{
}

/// A certificate in the state directory stands there under its two file names.
pub proof fn law_certificate_paths(cert: EnsuredCert, state_dir: Seq<Seq<u8>>)
    ensures
        kept_in(cert, state_dir) <==> cert.cert_path@ == entry_of(state_dir, "self-signed.crt"@)
            && cert.key_path@ == entry_of(state_dir, "self-signed.key"@),
{
}

/// Every certificate that the generator gives is kept, unless it is too long to
/// have a digest, and its failure is passed on as it is.
pub proof fn law_generated_certificate_is_kept(
    state_dir: Seq<Seq<u8>>,
    outcome: Result<GeneratedCert, rcgen::Error>,
    r: Result<IssuedCert, IssueError>,
)
    requires
        issue_outcome(state_dir, outcome, r),
    ensures
        r is Ok <==> outcome is Ok && outcome->Ok_0.cert_der@.len() < 0x2000_0000_0000_0000,
        r is Ok ==> keeps(r->Ok_0, state_dir, outcome->Ok_0),
        outcome is Err <==> r is Err && r->Err_0 is Generate,
        outcome is Err ==> r->Err_0->Generate_0 == outcome->Err_0,
{
}

/// What the generator gives is a certificate for the names, its PEM form and its
/// key.
pub proof fn law_generator_gives_certificate_and_key(
    names: Seq<Seq<char>>,
    generated: GeneratedCert,
)
    requires
        generator_outcome(names, Ok(generated)),
    ensures
        issued_for(generated.cert_der@, names),
        certificate_pem(generated.cert_pem@, generated.cert_der@),
        key_of(generated.key_pem@, generated.cert_der@),
{
}

} // verus!
