use vstd::prelude::*;

verus! {

/// The bytes of the ALPN identifier `h2`.
pub open spec fn alpn_h2() -> Seq<u8> {
    seq![0x68u8, 0x32u8]
}

/// The bytes of the ALPN identifier `http/1.1`.
pub open spec fn alpn_http11() -> Seq<u8> {
    seq![0x68u8, 0x74u8, 0x74u8, 0x70u8, 0x2fu8, 0x31u8, 0x2eu8, 0x31u8]
}

/// An application protocol negotiated by ALPN.
#[derive(Debug, Clone, Copy, PartialEq, Eq, Structural)]
pub enum HttpProtocol {
    Http2,
    Http11,
}

fn bytes_eq(a: &[u8], b: &[u8]) -> (r: bool)
    ensures
        r == (a@ == b@),
{
    if a.len() != b.len() {
        return false;
    }
    let mut i: usize = 0;
    while i < a.len()
        invariant
            a@.len() == b@.len(),
            i <= a@.len(),
            forall|j: int| 0 <= j < i ==> a@[j] == b@[j],
        decreases a@.len() - i,
    {
        if a[i] != b[i] {
            return false;
        }
        i = i + 1;
    }
    assert(a@ =~= b@);
    true
}

fn h2_bytes() -> (v: Vec<u8>)
    ensures
        v@ == alpn_h2(),
{
    let v = vec![0x68u8, 0x32u8];
    assert(v@ =~= alpn_h2());
    v
}

fn http11_bytes() -> (v: Vec<u8>)
    ensures
        v@ == alpn_http11(),
{
    let v = vec![0x68u8, 0x74u8, 0x74u8, 0x70u8, 0x2fu8, 0x31u8, 0x2eu8, 0x31u8];
    assert(v@ =~= alpn_http11());
    v
}

impl HttpProtocol {
    /// The protocol named by an ALPN identifier, if it is `h2` or `http/1.1`.
    pub fn from_bytes(protocol: &[u8]) -> (r: Option<Self>)
        ensures
            r == (if protocol@ == alpn_h2() {
                Some(HttpProtocol::Http2)
            } else if protocol@ == alpn_http11() {
                Some(HttpProtocol::Http11)
            } else {
                None
            }),
    {
        let h2 = h2_bytes();
        let h11 = http11_bytes();
        if bytes_eq(protocol, h2.as_slice()) {
            Some(HttpProtocol::Http2)
        } else if bytes_eq(protocol, h11.as_slice()) {
            Some(HttpProtocol::Http11)
        } else {
            None
        }
    }

    /// A human-readable name.
    pub fn as_str(&self) -> (r: &'static str)
        ensures
            r@ == (match *self {
                HttpProtocol::Http2 => "h2 (HTTP/2)"@,
                HttpProtocol::Http11 => "http/1.1 (HTTP/1.1)"@,
            }),
    {
        match self {
            HttpProtocol::Http2 => "h2 (HTTP/2)",
            HttpProtocol::Http11 => "http/1.1 (HTTP/1.1)",
        }
    }

    /// Whether this is HTTP/2.
    pub fn is_h2(&self) -> (r: bool)
        ensures
            r == (*self == HttpProtocol::Http2),
    {
        match self {
            HttpProtocol::Http2 => true,
            _ => false,
        }
    }

    /// Whether this is HTTP/1.1.
    pub fn is_http11(&self) -> (r: bool)
        ensures
            r == (*self == HttpProtocol::Http11),
    {
        match self {
            HttpProtocol::Http11 => true,
            _ => false,
        }
    }
}

/// The ALPN identifiers offered, in preference order: `h2`, then `http/1.1`.
pub fn alpn_protocols() -> (r: Vec<Vec<u8>>)
    ensures
        r@.len() == 2,
        r@[0]@ == alpn_h2(),
        r@[1]@ == alpn_http11(),
{
    let mut r: Vec<Vec<u8>> = Vec::new();
    r.push(h2_bytes());
    r.push(http11_bytes());
    r
}

/// Each offered identifier maps back to its protocol.
pub proof fn lemma_alpn_identifiers_distinct()
    ensures
        alpn_h2() != alpn_http11(),
{
    assert(alpn_h2().len() != alpn_http11().len());
}

} // verus!
