use vstd::prelude::*;

use x509_parser::prelude::FromDer;

use crate::encoding::{hex_lower, hex_lower_encode, sha256, sha256_digest};
use crate::exchange::ClientId;
use crate::hostname::{Hostname, hostname_normal_form};
use crate::text::StringSet;

verus! {

/// Why the subject's common name could not be read from a certificate.
#[derive(Clone, Copy, Debug, PartialEq, Eq, Structural)]
pub enum CommonNameError {
    /// The bytes are no DER-encoded X.509 certificate.
    NotCertificate,
    /// The subject has no common name.
    Missing,
    /// The first common name is not held as text.
    BadEncoding,
}

/// The first common name of the subject of the DER-encoded certificate `der`, as
/// `x509-parser` reads it; on failure, which step failed and, when the certificate could
/// not be parsed, the parser's error text.
pub uninterp spec fn x509_subject_common_name(der: Seq<u8>) -> Result<
    Seq<char>,
    (CommonNameError, Seq<char>),
>;

/// `X509Certificate::from_der`, then the first of `subject().iter_common_name()`, then
/// its `as_str`: the first common name of the certificate's subject, or which of the
/// three steps failed, with the parser's error text when parsing failed. The value is
/// named, not spelled out.
#[verifier::external_body]
fn subject_common_name(der: &[u8]) -> (res: Result<String, (CommonNameError, String)>)
    ensures
        match res {
            Ok(s) => x509_subject_common_name(der@) == Ok::<
                Seq<char>,
                (CommonNameError, Seq<char>),
            >(s@),
            Err((e, detail)) => x509_subject_common_name(der@) == Err::<
                Seq<char>,
                (CommonNameError, Seq<char>),
            >((e, detail@)),
        },
{
    match x509_parser::certificate::X509Certificate::from_der(der) {
        Err(e) => Err((CommonNameError::NotCertificate, e.to_string())),
        Ok((_, certificate)) => match certificate.subject().iter_common_name().next() {
            None => Err((CommonNameError::Missing, String::new())),
            Some(name) => match name.as_str() {
                Ok(text) => Ok(text.to_string()),
                Err(_) => Err((CommonNameError::BadEncoding, String::new())),
            },
        },
    }
}

/// The fingerprint by which a device is known: the lower-case hexadecimal text of the
/// SHA-256 digest of its certificate.
pub open spec fn spec_fingerprint(der: Seq<u8>) -> Seq<char> {
    hex_lower(sha256(der))
}

/// The fingerprint of a DER-encoded certificate.
pub fn fingerprint(der: &[u8]) -> (res: String)
    ensures
        res@ == spec_fingerprint(der@),
{
    let digest = sha256_digest(der);
    hex_lower_encode(digest.as_slice())
}

/// Why a client certificate is refused.
#[derive(Debug)]
pub enum CertRejection {
    /// The certificate could not be parsed; the parser's error text.
    Malformed(String),
    /// The certificate's subject has no common name.
    MissingCommonName,
    /// The common name is not held as text.
    InvalidCommonName,
    /// The certificate is well formed but not trusted; the identity it claims is handed
    /// to the application so that the user may pair with it.
    NotPermitted(ClientId),
}

impl CertRejection {
    /// The message of the TLS error the refusal becomes: for a certificate that does not
    /// parse, the parser's error text.
    pub fn message(&self) -> (res: String)
        ensures
            match *self {
                CertRejection::Malformed(detail) => res@ == detail@,
                CertRejection::MissingCommonName => res@ == "Missing CommonName"@,
                CertRejection::InvalidCommonName => res@ == "Invalid CommonName encoding"@,
                CertRejection::NotPermitted(_) => res@ == "missing permission for connection"@,
            },
    {
        match self {
            CertRejection::Malformed(detail) => detail.clone(),
            CertRejection::MissingCommonName => String::from_str("Missing CommonName"),
            CertRejection::InvalidCommonName => String::from_str("Invalid CommonName encoding"),
            CertRejection::NotPermitted(_) => String::from_str("missing permission for connection"),
        }
    }
}

/// The verdict on a client certificate.
#[derive(Debug)]
pub enum CertVerdict {
    Trusted,
    Rejected(CertRejection),
}

/// Judges the end-entity certificate `end_entity` of a connecting client: it is trusted
/// when its fingerprint is among `trusted`; otherwise it is refused, and when its subject
/// names a host, that host and the fingerprint are reported as a pairing candidate.
pub fn verify_client_cert(trusted: &StringSet, end_entity: &[u8]) -> (res: CertVerdict)
    ensures
        trusted@.contains(spec_fingerprint(end_entity@)) ==> res is Trusted,
        !trusted@.contains(spec_fingerprint(end_entity@)) ==> match
            x509_subject_common_name(end_entity@) {
            Err((CommonNameError::NotCertificate, detail)) => res matches CertVerdict::Rejected(
                CertRejection::Malformed(m),
            ) && m@ == detail,
            Err((CommonNameError::Missing, _)) => res matches CertVerdict::Rejected(
                CertRejection::MissingCommonName,
            ),
            Err((CommonNameError::BadEncoding, _)) => res matches CertVerdict::Rejected(
                CertRejection::InvalidCommonName,
            ),
            Ok(name) => res matches CertVerdict::Rejected(CertRejection::NotPermitted(c))
                && c.hostname@ == hostname_normal_form(name) && c.id@ == spec_fingerprint(
                end_entity@,
            ),
        },
{
    let signature = fingerprint(end_entity);
    if trusted.contains(&signature) {
        return CertVerdict::Trusted;
    }
    match subject_common_name(end_entity) {
        Err((CommonNameError::NotCertificate, detail)) => CertVerdict::Rejected(
            CertRejection::Malformed(detail),
        ),
        Err((CommonNameError::Missing, _)) => CertVerdict::Rejected(
            CertRejection::MissingCommonName,
        ),
        Err((CommonNameError::BadEncoding, _)) => CertVerdict::Rejected(
            CertRejection::InvalidCommonName,
        ),
        Ok(common_name) => CertVerdict::Rejected(
            CertRejection::NotPermitted(
                ClientId { hostname: Hostname::new(common_name), id: signature },
            ),
        ),
    }
}

} // verus!
