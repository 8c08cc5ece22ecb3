//! TLS termination: the pure side of building the server-side TLS
//! configuration.

use vstd::prelude::*;

use crate::config::{HttpsConfiguration, TlsVersion};

verus! {

/// The protocol entries the TLS stack distinguishes: configured versions
/// 1.0, 1.1 and 1.2 collapse to the TLS 1.2 entry; 1.3 stands alone.
#[derive(Debug, Clone, Copy, PartialEq, Eq, Structural)]
pub enum ProtocolVersion {
    Tls12,
    Tls13,
}

/// The protocol entry a configured version maps to.
pub open spec fn protocol_of(v: TlsVersion) -> ProtocolVersion {
    match v {
        TlsVersion::TLSv1_0 => ProtocolVersion::Tls12,
        TlsVersion::TLSv1_1 => ProtocolVersion::Tls12,
        TlsVersion::TLSv1_2 => ProtocolVersion::Tls12,
        TlsVersion::TLSv1_3 => ProtocolVersion::Tls13,
    }
}

/// Map every configured version to its protocol entry, keeping order and
/// duplicates.
pub fn get_protocol_versions(supported_tls_versions: &Vec<TlsVersion>) -> (r: Vec<ProtocolVersion>)
    ensures
        r@.len() == supported_tls_versions@.len(),
        forall|i: int|
            0 <= i < supported_tls_versions@.len() ==> (#[trigger] r@[i]) == protocol_of(
                supported_tls_versions@[i],
            ),
{
    let mut out: Vec<ProtocolVersion> = Vec::new();
    let mut i: usize = 0;
    while i < supported_tls_versions.len()
        invariant
            i <= supported_tls_versions@.len(),
            out@.len() == i,
            forall|j: int|
                0 <= j < i ==> (#[trigger] out@[j]) == protocol_of(supported_tls_versions@[j]),
        decreases supported_tls_versions@.len() - i,
    {
        let p = match supported_tls_versions[i] {
            TlsVersion::TLSv1_0 => ProtocolVersion::Tls12,
            TlsVersion::TLSv1_1 => ProtocolVersion::Tls12,
            TlsVersion::TLSv1_2 => ProtocolVersion::Tls12,
            TlsVersion::TLSv1_3 => ProtocolVersion::Tls13,
        };
        out.push(p);
        i = i + 1;
    }
    out
}

/// Whether the TLS side of a server demands a client certificate.
pub fn requires_client_auth(https_config: &HttpsConfiguration) -> (r: bool)
    ensures
        r == (https_config.client_certificate is Some),
{
    https_config.client_certificate.is_some()
}

} // verus!
