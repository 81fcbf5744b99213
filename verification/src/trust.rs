//! Extra trust anchors: certificate files that the operator supplies beside
//! the system's own trust store.
//!
//! A file counts by its name: one that ends in `.pem` holds any number of
//! certificates in text form, one that ends in `.der` holds a single
//! certificate in binary form, and any other file is passed over. A file
//! that cannot be decoded contributes no certificate and stops nothing.

use vstd::prelude::*;
use vstd::string::StrSliceExecFns;

verus! {

/// How a certificate file is encoded.
#[derive(Clone, Copy, Debug, PartialEq, Eq, Structural)]
pub enum CertificateFormat {
    /// Text: base64 sections between `BEGIN` and `END` lines, any number of
    /// them one after the other.
    Pem,
    /// Binary: the file is one certificate.
    Der,
}

/// The format that a file of the given name is taken to have, if any.
pub open spec fn format_by_name(name: Seq<char>) -> Option<CertificateFormat> {
    if ".pem"@.is_suffix_of(name) {
        Some(CertificateFormat::Pem)
    } else if ".der"@.is_suffix_of(name) {
        Some(CertificateFormat::Der)
    } else {
        None
    }
}

/// A list of certificates as contracts see it: the bytes of each, in order.
pub open spec fn certificates_view(certificates: Vec<Vec<u8>>) -> Seq<Seq<u8>> {
    certificates@.map_values(|certificate: Vec<u8>| certificate@)
}

/// The result of a parse as contracts see it.
pub open spec fn parsed_view(parsed: Option<Vec<Vec<u8>>>) -> Option<Seq<Seq<u8>>> {
    match parsed {
        Some(certificates) => Some(certificates_view(certificates)),
        None => None,
    }
}

/// What `rustls_pemfile::certs` makes of a PEM file with the given bytes:
/// the contents of its certificate sections, in order, or `None` where it
/// reports the file as malformed.
pub uninterp spec fn pem_certificates(data: Seq<u8>) -> Option<Seq<Seq<u8>>>;

/// The certificates that a file in the given format with the given contents
/// contributes.
pub open spec fn certificates_of(format: CertificateFormat, contents: Seq<u8>) -> Seq<Seq<u8>> {
    match format {
        CertificateFormat::Der => seq![contents],
        CertificateFormat::Pem => match pem_certificates(contents) {
            Some(certificates) => certificates,
            None => Seq::empty(),
        },
    }
}

/// Whether `name` ends with `suffix`, character by character.
fn ends_with(name: &str, suffix: &str) -> (found: bool)
    ensures
        found == suffix@.is_suffix_of(name@),
{
    let n: usize = name.unicode_len();
    let m: usize = suffix.unicode_len();
    if m > n {
        return false;
    }
    let start: usize = n - m;
    let mut i: usize = 0;
    while i < m
        invariant
            n == name@.len(),
            m == suffix@.len(),
            start == n - m,
            i <= m,
            forall|j: int| 0 <= j < i ==> name@[start + j] == suffix@[j],
        decreases m - i,
    {
        if name.get_char(start + i) != suffix.get_char(i) {
            return false;
        }
        i += 1;
    }
    true
}

/// Tells from a file's name how its certificates are encoded, or that the
/// file is none of ours.
pub fn format_of(file_name: &str) -> (format: Option<CertificateFormat>)
    ensures
        format == format_by_name(file_name@),
{
    if ends_with(file_name, ".pem") {
        Some(CertificateFormat::Pem)
    } else if ends_with(file_name, ".der") {
        Some(CertificateFormat::Der)
    } else {
        None
    }
}

/// Calls `rustls_pemfile::certs` on an in-memory reader over `data`. The
/// contract gives its result a name and claims nothing else of it: that the
/// result depends on the bytes alone, with an error reported as `None`.
#[verifier::external_body]
fn parse_pem(data: &[u8]) -> (parsed: Option<Vec<Vec<u8>>>)
    ensures
        parsed_view(parsed) == pem_certificates(data@),
{
    let mut reader = data;
    rustls_pemfile::certs(&mut reader).ok()
}

/// The certificates that a parse gave, or none where it failed: a malformed
/// file is passed over.
pub fn parsed_or_none(parsed: Option<Vec<Vec<u8>>>) -> (certificates: Vec<Vec<u8>>)
    ensures
        certificates_view(certificates) == match parsed_view(parsed) {
            Some(found) => found,
            None => Seq::empty(),
        },
{
    match parsed {
        Some(found) => found,
        None => Vec::new(),
    }
}

/// Decodes the contents of one certificate file.
pub fn certificates_in(format: CertificateFormat, contents: Vec<u8>) -> (certificates: Vec<
    Vec<u8>,
>)
    ensures
        certificates_view(certificates) == certificates_of(format, contents@),
{
    match format {
        CertificateFormat::Der => {
            let mut one: Vec<Vec<u8>> = Vec::new();
            one.push(contents);
            one
        },
        CertificateFormat::Pem => parsed_or_none(parse_pem(contents.as_slice())),
    }
}

} // verus!
