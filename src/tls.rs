//! The error that stops startup when the certificate material cannot be loaded.
use vstd::prelude::*;
use vstd::string::*;

use crate::text::occurs_at;

verus! {

/// The certificate chain or its private key could not be read or parsed.
#[derive(Debug, Clone, PartialEq, Eq)]
pub struct CertificateLoadError {
    pub cert_path: String,
    pub key_path: String,
}

/// The text of a certificate load error for the two paths.
pub open spec fn certificate_error_text(cert_path: Seq<char>, key_path: Seq<char>) -> Seq<char> {
    "couldn't load PEM certificate from "@ + cert_path + " and private key from "@ + key_path
}

impl CertificateLoadError {
    pub fn new(cert_path: &str, key_path: &str) -> (r: Self)
        ensures
            r.cert_path@ == cert_path@,
            r.key_path@ == key_path@,
    {
        CertificateLoadError { cert_path: String::from_str(cert_path), key_path: String::from_str(key_path) }
    }

    /// The message shown to the operator; it names both paths.
    pub fn message(&self) -> (r: String)
        ensures
            r@ == certificate_error_text(self.cert_path@, self.key_path@),
    {
        let mut r = String::from_str("couldn't load PEM certificate from ");
        r.append(self.cert_path.as_str());
        r.append(" and private key from ");
        r.append(self.key_path.as_str());
        r
    }
}

/// A certificate load error's message names the certificate path and the
/// private key path, each in full.
pub proof fn lemma_certificate_error_names_paths(cert_path: Seq<char>, key_path: Seq<char>)
    ensures
        exists|i: int| occurs_at(certificate_error_text(cert_path, key_path), cert_path, i),
        exists|i: int| occurs_at(certificate_error_text(cert_path, key_path), key_path, i),
{
    let m = certificate_error_text(cert_path, key_path);
    let i = "couldn't load PEM certificate from "@.len() as int;
    let j = i + cert_path.len() + " and private key from "@.len();
    assert(m.subrange(i, i + cert_path.len()) =~= cert_path);
    assert(m.subrange(j, j + key_path.len()) =~= key_path);
    assert(occurs_at(m, cert_path, i));
    assert(occurs_at(m, key_path, j));
}

} // verus!
