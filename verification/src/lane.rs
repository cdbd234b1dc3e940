//! The ends of a lane over a network: what a client needs to connect, and
//! the certificate and key of a server.

use vstd::prelude::*;
use vstd::string::StringExecFns;
use vstd::string::StrSliceExecFns;
use crate::text::{concat2, decimal, u64_to_string};
use crate::wave::{Knock, KnockView};

verus! {

/// The file in the certificate directory that holds the certificate.
pub open spec fn cert_file(dir: Seq<char>) -> Seq<char> {
    dir + "/cert.der"@
}

/// The file in the certificate directory that holds the private key.
pub open spec fn key_file(dir: Seq<char>) -> Seq<char> {
    dir + "/key.der"@
}

/// The first colon of a text, or its length where it has none.
pub open spec fn first_colon(s: Seq<char>) -> int
    decreases s.len(),
{
    if s.len() == 0 || s[0] == ':' {
        0
    } else {
        1 + first_colon(s.drop_first())
    }
}

/// The first colon stands where no colon stands before it, and a colon or
/// the end of the text stands there.
pub proof fn lemma_first_colon(s: Seq<char>, i: int)
    requires
        0 <= i <= s.len(),
        forall|k: int| 0 <= k < i ==> s[k] != ':',
        i == s.len() || s[i] == ':',
    ensures
        first_colon(s) == i,
    decreases s.len(),
{
    if i > 0 {
        assert(s[0] != ':');
        assert forall|k: int| 0 <= k < i - 1 implies s.drop_first()[k] != ':' by {
            assert(s[k + 1] != ':');
        }
        lemma_first_colon(s.drop_first(), i - 1);
    }
}

/// What a client needs to connect to a server: the host with its port,
/// the directory with the certificate, and the knock with which it asks to
/// be let in.
#[derive(Debug)]
pub struct HyperlaneTcpClient {
    pub host: String,
    pub cert_dir: String,
    pub knock: Knock,
    pub verify: bool,
}

impl HyperlaneTcpClient {
    pub fn new(host: String, cert_dir: String, knock: Knock, verify: bool) -> (r:
        HyperlaneTcpClient)
        ensures
            r.host@ == host@,
            r.cert_dir@ == cert_dir@,
            r.knock@ == knock@,
            r.verify == verify,
    {
        HyperlaneTcpClient { host, cert_dir, knock, verify }
    }

    /// The file that holds the certificate of the server.
    pub fn ca_file(&self) -> (r: String)
        ensures
            r@ == cert_file(self.cert_dir@),
    {
        concat2(self.cert_dir.as_str(), "/cert.der")
    }

    /// The name of the server: the host without its port, that is, up to
    /// its first colon.
    pub fn server_name(&self) -> (r: String)
        ensures
            r@ == self.host@.subrange(0, first_colon(self.host@)),
    {
        let host = self.host.as_str();
        let n = host.unicode_len();
        let mut i: usize = 0;
        while i < n
            invariant
                i <= n,
                n == host@.len(),
                host@ == self.host@,
                forall|k: int| 0 <= k < i ==> host@[k] != ':',
            decreases n - i,
        {
            if host.get_char(i) == ':' {
                proof {
                    lemma_first_colon(host@, i as int);
                }
                return String::from_str(host.substring_char(0, i));
            }
            i += 1;
        }
        proof {
            lemma_first_colon(host@, n as int);
        }
        String::from_str(host.substring_char(0, n))
    }
}

#[verifier::external_type_specification]
#[verifier::external_body]
pub struct ExRcgenError(rcgen::RcgenError);

/// Why no certificate was made.
#[derive(Clone, Copy, Debug, PartialEq, Eq, Structural, Hash)]
pub enum CertError {
    /// The key could not be generated, or the certificate could not be
    /// signed or serialized.
    Generation,
    /// One of the names holds a character that is not ASCII.
    NotAscii,
}

/// Whether every one of the names is ASCII.
pub open spec fn all_ascii(names: Seq<String>) -> bool {
    forall|i: int| 0 <= i < names.len() ==> vstd::utf8::is_ascii_chars(#[trigger] names[i]@)
}

/// A new self-signed certificate for the names, and its private key, each
/// in DER: `rcgen::generate_simple_self_signed`, then `serialize_der` and
/// `serialize_private_key_der` of the certificate it made. The key is
/// random, so nothing is said of what comes back. A certificate that was
/// generated holds its own key, which is what the last call needs. Each
/// name is written into the certificate as a DNS name, an IA5 string,
/// which has to be ASCII: the outside code gives up on any other.
#[verifier::external_body]
fn self_signed_der(names: Vec<String>) -> (r: Result<(Vec<u8>, Vec<u8>), rcgen::RcgenError>)
    requires
        all_ascii(names@),
{
    let cert = rcgen::generate_simple_self_signed(names)?;
    let der = cert.serialize_der()?;
    Ok((der, cert.serialize_private_key_der()))
}

/// The certificate and the private key of a server, each in DER.
#[derive(Debug, PartialEq, Eq)]
pub struct CertGenerator {
    certs: Vec<u8>,
    key: Vec<u8>,
}

impl CertGenerator {
    /// The certificate of the generator.
    pub closed spec fn spec_certs(&self) -> Seq<u8> {
        self.certs@
    }

    /// The private key of the generator.
    pub closed spec fn spec_key(&self) -> Seq<u8> {
        self.key@
    }

    /// A generator with a new self-signed certificate for the names, and
    /// its key. Each call makes another key. Fails with `NotAscii`, and
    /// generates nothing, where a name holds a character that is not ASCII.
    pub fn gen(subject_alt_names: Vec<String>) -> (r: Result<CertGenerator, CertError>)
        ensures
            r == Err::<CertGenerator, CertError>(CertError::NotAscii) <==> !all_ascii(
                subject_alt_names@,
            ),
    {
        let mut i: usize = 0;
        while i < subject_alt_names.len()
            invariant
                i <= subject_alt_names.len(),
                forall|k: int|
                    0 <= k < i ==> vstd::utf8::is_ascii_chars(#[trigger] subject_alt_names@[k]@),
            decreases subject_alt_names.len() - i,
        {
            if !subject_alt_names[i].as_str().is_ascii() {
                return Err(CertError::NotAscii);
            }
            i += 1;
        }
        CertGenerator::generated(self_signed_der(subject_alt_names))
    }

    /// The generator for what the generation of a certificate gave: it
    /// holds the certificate and the key where there are any, and fails
    /// where the generation failed.
    pub fn generated(outcome: Result<(Vec<u8>, Vec<u8>), rcgen::RcgenError>) -> (r: Result<
        CertGenerator,
        CertError,
    >)
        ensures
            match outcome {
                Ok(pair) => r matches Ok(g) && g.spec_certs() == pair.0@ && g.spec_key()
                    == pair.1@,
                Err(_) => r == Err::<CertGenerator, CertError>(CertError::Generation),
            },
    {
        match outcome {
            Ok((certs, key)) => Ok(CertGenerator::from_der(certs, key)),
            Err(_) => Err(CertError::Generation),
        }
    }

    /// The generator that holds a certificate and a key that were made or
    /// read elsewhere.
    pub fn from_der(certs: Vec<u8>, key: Vec<u8>) -> (r: CertGenerator)
        ensures
            r.spec_certs() == certs@,
            r.spec_key() == key@,
    {
        CertGenerator { certs, key }
    }

    pub fn certs(&self) -> (r: Vec<u8>)
        ensures
            r@ == self.spec_certs(),
    {
        crate::wave::clone_bytes(&self.certs)
    }

    pub fn private_key(&self) -> (r: Vec<u8>)
        ensures
            r@ == self.spec_key(),
    {
        crate::wave::clone_bytes(&self.key)
    }

    /// The file in a directory to which the certificate is written.
    pub fn cert_path(dir: &str) -> (r: String)
        ensures
            r@ == cert_file(dir@),
    {
        concat2(dir, "/cert.der")
    }

    /// The file in a directory to which the private key is written.
    pub fn key_path(dir: &str) -> (r: String)
        ensures
            r@ == key_file(dir@),
    {
        concat2(dir, "/key.der")
    }
}

/// The handle of a server that runs.
#[derive(Debug)]
pub struct HyperlaneTcpServerApi {
}

impl HyperlaneTcpServerApi {
    pub fn new() -> (r: HyperlaneTcpServerApi) {
        HyperlaneTcpServerApi {  }
    }

    /// The address on which a server listens for the port: the local
    /// host, a colon, the port in decimal.
    pub fn listen_address(port: u16) -> (r: String)
        ensures
            r@ == "127.0.0.1:"@ + decimal(port as nat),
    {
        concat2("127.0.0.1:", u64_to_string(port as u64).as_str())
    }
}

} // verus!
