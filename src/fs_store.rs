//! Where credentials and schema snapshots are kept on disk: the file names.

use crate::ids::{id_text, uuid_text};
use vstd::prelude::*;

verus! {

pub const CA_FILE: &'static str = "ca.crt";
pub const CERT_FILE: &'static str = "client.crt";
pub const KEY_FILE: &'static str = "client.key";

/// The directories that credentials and snapshots are kept in; each ends in
/// a separator.
#[derive(Debug)]
pub struct FsStore {
    pub certificates: String,
    pub network_schema: String,
}

impl FsStore {
    pub fn new(certificates: &str, network_schema: &str) -> (r: FsStore)
        ensures
            r.certificates@ == certificates@,
            r.network_schema@ == network_schema@,
    {
        FsStore { certificates: certificates.to_owned(), network_schema: network_schema.to_owned() }
    }

    fn in_certificates(&self, file: &str) -> (r: String)
        ensures
            r@ == self.certificates@ + file@,
    {
        let mut r = self.certificates.clone();
        r.append(file);
        r
    }

    /// The file of the root of trust.
    pub fn ca_path(&self) -> (r: String)
        ensures
            r@ == self.certificates@ + CA_FILE@,
    {
        self.in_certificates(CA_FILE)
    }

    /// The file of the certificate.
    pub fn certificate_path(&self) -> (r: String)
        ensures
            r@ == self.certificates@ + CERT_FILE@,
    {
        self.in_certificates(CERT_FILE)
    }

    /// The file of the private key.
    pub fn key_path(&self) -> (r: String)
        ensures
            r@ == self.certificates@ + KEY_FILE@,
    {
        self.in_certificates(KEY_FILE)
    }

    /// The file that the snapshot of network `id` is kept in.
    pub fn schema_path(&self, id: u128) -> (r: String)
        ensures
            r@ == self.network_schema@ + uuid_text(id) + ".json"@,
    {
        let mut r = self.network_schema.clone();
        r.append(id_text(id).as_str());
        r.append(".json");
        r
    }
}

impl Default for FsStore {
    fn default() -> (r: FsStore)
        ensures
            r.certificates@ == "certificates/"@,
            r.network_schema@ == "network_instance/"@,
    {
        FsStore::new("certificates/", "network_instance/")
    }
}

} // verus!
