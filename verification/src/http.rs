//! The HTTP request/response shapes carried over a tunnel stream. One mux stream
//! carries one MCP request: a [`RequestHead`], then body chunks, then a
//! [`ResponseHead`] and its body chunks in reply.

use vstd::prelude::*;

verus! {

/// The address of a client, as its bytes in network order.
#[derive(Debug, Clone, Copy, PartialEq, Eq)]
pub enum ClientIp {
    V4([u8; 4]),
    V6([u8; 16]),
}

/// Metadata about the real client that the **relay attests**: it is derived from
/// the relay's own view of the public connection, never copied from
/// client-supplied headers. Trusting a client-forwarded value here would let a
/// client choose the origin that it is rate-limited and identified by.
#[derive(Debug, Clone, PartialEq, Eq)]
pub struct AttestedMeta {
    /// The public peer address as seen by the relay. If absent, the gateway must
    /// treat the request as un-attributable (limit or reject), never skip the
    /// per-address limiter.
    pub client_ip: Option<ClientIp>,
    pub tls: Option<TlsMeta>,
}

/// The essentials of the client's TLS session.
#[derive(Debug, Clone, PartialEq, Eq)]
pub struct TlsMeta {
    pub sni: Option<String>,
    pub client_cert_present: bool,
    /// SHA-256 (hex) of the presented client-cert chain, if any.
    pub client_cert_chain_sha256: Option<String>,
    /// SAN URIs from the client cert (e.g. SPIFFE ids), if any.
    pub san_uris: Vec<String>,
}

/// The head of a request forwarded down the tunnel.
#[derive(Debug, Clone, PartialEq, Eq)]
pub struct RequestHead {
    pub method: String,
    pub path: String,
    pub query: Option<String>,
    /// Header name/value pairs. The relay strips hop-by-hop identity and
    /// forwarding headers before populating this, re-attesting origin facts via
    /// [`AttestedMeta`] instead.
    pub headers: Vec<(String, String)>,
    pub attested: AttestedMeta,
}

/// The head of the response returned up the tunnel.
#[derive(Debug, Clone, PartialEq, Eq)]
pub struct ResponseHead {
    pub status: u16,
    pub headers: Vec<(String, String)>,
}

/// An [`AttestedMeta`] with its strings as sequences of characters.
pub struct AttestedMetaView {
    pub client_ip: Option<ClientIp>,
    pub tls: Option<TlsMetaView>,
}

/// A [`TlsMeta`] with its strings as sequences of characters.
pub struct TlsMetaView {
    pub sni: Option<Seq<char>>,
    pub client_cert_present: bool,
    pub client_cert_chain_sha256: Option<Seq<char>>,
    pub san_uris: Seq<Seq<char>>,
}

/// A [`RequestHead`] with its strings as sequences of characters.
pub struct RequestHeadView {
    pub method: Seq<char>,
    pub path: Seq<char>,
    pub query: Option<Seq<char>>,
    pub headers: Seq<(Seq<char>, Seq<char>)>,
    pub attested: AttestedMetaView,
}

/// A [`ResponseHead`] with its strings as sequences of characters.
pub struct ResponseHeadView {
    pub status: u16,
    pub headers: Seq<(Seq<char>, Seq<char>)>,
}

impl View for TlsMeta {
    type V = TlsMetaView;

    open spec fn view(&self) -> TlsMetaView {
        TlsMetaView {
            sni: self.sni.deep_view(),
            client_cert_present: self.client_cert_present,
            client_cert_chain_sha256: self.client_cert_chain_sha256.deep_view(),
            san_uris: self.san_uris.deep_view(),
        }
    }
}

impl View for AttestedMeta {
    type V = AttestedMetaView;

    open spec fn view(&self) -> AttestedMetaView {
        AttestedMetaView {
            client_ip: self.client_ip,
            tls: match self.tls {
                Some(tls) => Some(tls@),
                None => None,
            },
        }
    }
}

impl View for RequestHead {
    type V = RequestHeadView;

    open spec fn view(&self) -> RequestHeadView {
        RequestHeadView {
            method: self.method@,
            path: self.path@,
            query: self.query.deep_view(),
            headers: self.headers.deep_view(),
            attested: self.attested@,
        }
    }
}

impl View for ResponseHead {
    type V = ResponseHeadView;

    open spec fn view(&self) -> ResponseHeadView {
        ResponseHeadView { status: self.status, headers: self.headers.deep_view() }
    }
}

impl Default for AttestedMeta {
    /// Nothing attested.
    fn default() -> (meta: Self)
        ensures
            meta == (AttestedMeta { client_ip: None, tls: None }),
    {
        AttestedMeta { client_ip: None, tls: None }
    }
}

impl Default for TlsMeta {
    /// A session of which nothing is known and no certificate was presented.
    fn default() -> (meta: Self)
        ensures
            meta@ == (TlsMetaView {
                sni: None,
                client_cert_present: false,
                client_cert_chain_sha256: None,
                san_uris: Seq::empty(),
            }),
    {
        let meta = TlsMeta {
            sni: None,
            client_cert_present: false,
            client_cert_chain_sha256: None,
            san_uris: Vec::new(),
        };
        assert(meta@.san_uris =~= Seq::empty());
        meta
    }
}

} // verus!
