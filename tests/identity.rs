use openssl::asn1::Asn1Time;
use openssl::bn::BigNum;
use openssl::hash::MessageDigest;
use openssl::pkey::PKey;
use openssl::rsa::Rsa;
use openssl::symm::Cipher;
use openssl::x509::{X509Builder, X509NameBuilder};
use wappsto_iot_rs::certs::{Certs, CertsError};

/// A self-signed certificate whose subject has the common name `cn` (none:
/// only an organisation), with its RSA key, both in PEM.
fn certificate(cn: Option<&str>) -> (String, String) {
    let rsa = Rsa::generate(2048).unwrap();
    let key_pem = String::from_utf8(rsa.private_key_to_pem().unwrap()).unwrap();
    let pkey = PKey::from_rsa(rsa).unwrap();
    let mut name = X509NameBuilder::new().unwrap();
    match cn {
        Some(cn) => name.append_entry_by_text("CN", cn).unwrap(),
        None => name.append_entry_by_text("O", "test").unwrap(),
    }
    let name = name.build();
    let mut b = X509Builder::new().unwrap();
    b.set_version(2).unwrap();
    b.set_serial_number(&BigNum::from_u32(1).unwrap().to_asn1_integer().unwrap()).unwrap();
    b.set_subject_name(&name).unwrap();
    b.set_issuer_name(&name).unwrap();
    b.set_pubkey(&pkey).unwrap();
    b.set_not_before(&Asn1Time::days_from_now(0).unwrap()).unwrap();
    b.set_not_after(&Asn1Time::days_from_now(30).unwrap()).unwrap();
    b.sign(&pkey, MessageDigest::sha256()).unwrap();
    (String::from_utf8(b.build().to_pem().unwrap()).unwrap(), key_pem)
}

#[test]
fn nil_common_name_gives_nil_id() {
    let (cert, key) = certificate(Some("00000000-0000-0000-0000-000000000000"));
    let certs = Certs::new(&cert, &cert, &key).unwrap();
    assert_eq!(0, certs.id);
    assert_eq!(cert, certs.certificate);
}

#[test]
fn uuid_common_name_is_the_id() {
    let (cert, key) = certificate(Some("12345678-9abc-def0-1234-56789abcdef0"));
    let certs = Certs::new(&cert, &cert, &key).unwrap();
    assert_eq!(0x123456789abcdef0123456789abcdef0, certs.id);
}

#[test]
fn non_uuid_common_name_is_a_format_error() {
    let (cert, key) = certificate(Some("not-a-uuid"));
    assert_eq!(Some(CertsError::IdentityFormatError), Certs::new(&cert, &cert, &key).err());
}

#[test]
fn missing_common_name_is_not_found() {
    let (cert, key) = certificate(None);
    assert_eq!(Some(CertsError::IdentityNotFoundError), Certs::new(&cert, &cert, &key).err());
}

#[test]
fn malformed_pem_is_a_certificate_error() {
    let (cert, key) = certificate(Some("00000000-0000-0000-0000-000000000000"));
    assert_eq!(Some(CertsError::CertificateFormatError), Certs::new(&cert, "garbage", &key).err());
    assert_eq!(Some(CertsError::CertificateFormatError), Certs::new("garbage", &cert, &key).err());
    assert_eq!(Some(CertsError::CertificateFormatError), Certs::new(&cert, &cert, "garbage").err());
}

#[test]
fn encrypted_key_is_refused_without_asking() {
    let (cert, _) = certificate(Some("00000000-0000-0000-0000-000000000000"));
    let rsa = Rsa::generate(2048).unwrap();
    let locked = String::from_utf8(rsa.private_key_to_pem_passphrase(Cipher::aes_128_cbc(), b"secret").unwrap()).unwrap();
    assert_eq!(Some(CertsError::CertificateFormatError), Certs::new(&cert, &cert, &locked).err());
}
