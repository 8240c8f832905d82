//! The client's identity: its credentials, and the network id that its
//! certificate names.

use crate::ids::{parse_id, uuid_parsed};
use vstd::prelude::*;
use vstd::string::StringSliceAdditionalSpecFns;

verus! {

/// Why credentials were refused.
#[derive(Clone, Copy, Debug, PartialEq, Eq, Structural)]
pub enum CertsError {
    /// A PEM text is not a certificate or key that can be read.
    CertificateFormatError,
    /// The certificate's subject has no common name.
    IdentityNotFoundError,
    /// The common name is not a UUID.
    IdentityFormatError,
}

/// The credentials of a network: its id, taken from the certificate, and the
/// PEM texts of the root of trust, the certificate and the private key.
#[derive(Debug)]
pub struct Certs {
    pub id: u128,
    pub ca: String,
    pub certificate: String,
    pub private_key: String,
}

/// What `x509_parser` decodes from the first PEM block of `pem`: its
/// contents, or nothing when there is no readable block.
pub uninterp spec fn pem_contents(pem: Seq<u8>) -> Option<Seq<u8>>;

/// What `x509_parser` reads as the first common name of the subject of the
/// DER certificate `der`: nothing when the certificate cannot be read;
/// `Some(None)` when there is no common name; `Some(Some(None))` when it is
/// not text; else its text.
pub uninterp spec fn first_common_name(der: Seq<u8>) -> Option<Option<Option<Seq<char>>>>;

/// Whether `openssl` reads `der` as a DER certificate.
pub uninterp spec fn openssl_reads_der_certificate(der: Seq<u8>) -> bool;

/// Whether `openssl` reads `pem` as a PEM RSA private key that is not
/// encrypted (an encrypted one is tried with the empty passphrase).
pub uninterp spec fn openssl_reads_rsa_key(pem: Seq<u8>) -> bool;

/// The first common name of a certificate, as read by `x509_parser`.
enum CommonName {
    Unreadable,
    Missing,
    NotText,
    Text(String),
}

/// Relies on `x509_parser::pem::parse_x509_pem`: the decoded contents of
/// the first PEM block.
#[verifier::external_body]
fn pem_block(pem: &[u8]) -> (r: Option<Vec<u8>>)
    ensures
        match r {
            Some(b) => pem_contents(pem@) == Some(b@),
            None => pem_contents(pem@) is None,
        },
{
    match x509_parser::pem::parse_x509_pem(pem) {
        Ok((_, p)) => Some(p.contents),
        Err(_) => None,
    }
}

/// Relies on `x509_parser::parse_x509_certificate`,
/// `X509Name::iter_common_name` and `AttributeTypeAndValue::as_str`: the
/// first common name of the subject of the certificate.
#[verifier::external_body]
fn common_name(der: &[u8]) -> (r: CommonName)
    ensures
        match r {
            CommonName::Unreadable => first_common_name(der@) is None,
            CommonName::Missing => first_common_name(der@) == Some(None::<Option<Seq<char>>>),
            CommonName::NotText => first_common_name(der@) == Some(Some(None::<Seq<char>>)),
            CommonName::Text(t) => first_common_name(der@) == Some(Some(Some(t@))),
        },
{
    let parsed = match x509_parser::parse_x509_certificate(der) {
        Ok((_, c)) => c,
        Err(_) => return CommonName::Unreadable,
    };
    let first = parsed.subject().iter_common_name().next().map(|a| a.as_str().map(String::from));
    match first {
        None => CommonName::Missing,
        Some(Err(_)) => CommonName::NotText,
        Some(Ok(t)) => CommonName::Text(t),
    }
}

/// Relies on `openssl::x509::X509::from_der`: whether it reads a
/// certificate. DER carries no PEM headers, so no passphrase is asked for.
#[verifier::external_body]
fn reads_der_certificate(der: &[u8]) -> (r: bool)
    ensures
        r == openssl_reads_der_certificate(der@),
{
    openssl::x509::X509::from_der(der).is_ok()
}

/// Relies on `openssl::rsa::Rsa::private_key_from_pem_passphrase` with the
/// empty passphrase: whether it reads a key. Given a passphrase, OpenSSL does
/// not ask for one on the terminal.
#[verifier::external_body]
fn reads_rsa_key(pem: &[u8]) -> (r: bool)
    ensures
        r == openssl_reads_rsa_key(pem@),
{
    openssl::rsa::Rsa::private_key_from_pem_passphrase(pem, b"").is_ok()
}

/// Whether the PEM text `pem` holds a certificate that `openssl` reads.
pub open spec fn certificate_readable(pem: Seq<u8>) -> bool {
    match pem_contents(pem) {
        Some(der) => openssl_reads_der_certificate(der),
        None => false,
    }
}

/// Whether `pem` holds a certificate that `openssl` reads.
fn certificate_ok(pem: &[u8]) -> (r: bool)
    ensures
        r == certificate_readable(pem@),
{
    match pem_block(pem) {
        Some(der) => reads_der_certificate(der.as_slice()),
        None => false,
    }
}

/// The outcome of reading credentials: the id that the certificate's common
/// name holds, or the first thing wrong with them.
pub open spec fn certs_outcome(ca: Seq<u8>, certificate: Seq<u8>, key: Seq<u8>) -> Result<u128, CertsError> {
    match pem_contents(certificate) {
        None => Err(CertsError::CertificateFormatError),
        Some(der) => match first_common_name(der) {
            None => Err(CertsError::CertificateFormatError),
            Some(None) => Err(CertsError::IdentityNotFoundError),
            Some(Some(None)) => Err(CertsError::IdentityFormatError),
            Some(Some(Some(cn))) => match uuid_parsed(cn) {
                None => Err(CertsError::IdentityFormatError),
                Some(id) => if certificate_readable(ca) && openssl_reads_der_certificate(der)
                    && openssl_reads_rsa_key(key) {
                    Ok(id)
                } else {
                    Err(CertsError::CertificateFormatError)
                },
            },
        },
    }
}

impl Certs {
    /// Reads credentials from their PEM texts.
    pub fn new(ca: &str, certificate: &str, private_key: &str) -> (r: Result<Certs, CertsError>)
        ensures
            match certs_outcome(ca.spec_bytes(), certificate.spec_bytes(), private_key.spec_bytes()) {
                Ok(id) => r matches Ok(c) && c.id == id && c.ca@ == ca@ && c.certificate@ == certificate@
                    && c.private_key@ == private_key@,
                Err(e) => r == Err::<Certs, CertsError>(e),
            },
    {
        let der = match pem_block(certificate.as_bytes()) {
            Some(d) => d,
            None => return Err(CertsError::CertificateFormatError),
        };
        let id = match common_name(der.as_slice()) {
            CommonName::Unreadable => return Err(CertsError::CertificateFormatError),
            CommonName::Missing => return Err(CertsError::IdentityNotFoundError),
            CommonName::NotText => return Err(CertsError::IdentityFormatError),
            CommonName::Text(cn) => match parse_id(cn.as_str()) {
                Some(id) => id,
                None => return Err(CertsError::IdentityFormatError),
            },
        };
        if !certificate_ok(ca.as_bytes()) || !reads_der_certificate(der.as_slice())
            || !reads_rsa_key(private_key.as_bytes()) {
            return Err(CertsError::CertificateFormatError);
        }
        Ok(Certs {
            id,
            ca: ca.to_owned(),
            certificate: certificate.to_owned(),
            private_key: private_key.to_owned(),
        })
    }
}

} // verus!
