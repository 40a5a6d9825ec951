//! The envelope in which a client hands in a request with weights: a length
//! of four bytes, most significant first, then that many bytes of
//! description, then the weights.

use vstd::prelude::*;
use vstd::slice::slice_subrange;
use vstd::slice::slice_to_vec;
use byteorder::ByteOrder;

verus! {

/// What the description of an envelope asks for.
#[derive(Debug, Clone, Copy, PartialEq, Eq, Structural)]
pub enum RequestMethod {
    FetchWLast,
    NewWeights,
    NewEpoch,
}

impl RequestMethod {
    pub open spec fn spec_to_u8(self) -> u8 {
        match self {
            RequestMethod::FetchWLast => 0,
            RequestMethod::NewWeights => 1,
            RequestMethod::NewEpoch => 2,
        }
    }

    pub open spec fn spec_from_u8(value: u8) -> Option<RequestMethod> {
        if value == 0 {
            Some(RequestMethod::FetchWLast)
        } else if value == 1 {
            Some(RequestMethod::NewWeights)
        } else if value == 2 {
            Some(RequestMethod::NewEpoch)
        } else {
            None
        }
    }

    /// The number under which the method is written.
    pub fn to_u8(self) -> (r: u8)
        ensures
            r == self.spec_to_u8(),
            RequestMethod::spec_from_u8(r) == Some(self),
    {
        match self {
            RequestMethod::FetchWLast => 0,
            RequestMethod::NewWeights => 1,
            RequestMethod::NewEpoch => 2,
        }
    }

    /// The method written as `value`; none for a number above 2.
    pub fn from_u8(value: u8) -> (r: Option<RequestMethod>)
        ensures
            r == RequestMethod::spec_from_u8(value),
    {
        if value == 0 {
            Some(RequestMethod::FetchWLast)
        } else if value == 1 {
            Some(RequestMethod::NewWeights)
        } else if value == 2 {
            Some(RequestMethod::NewEpoch)
        } else {
            None
        }
    }
}

/// The description at the head of an envelope.
#[derive(Debug, PartialEq)]
pub struct MetaInfo {
    pub method: RequestMethod,
    pub listen_host: String,
    pub listen_port: u16,
    pub uuid: String,
    pub client_name: String,
    pub target_epoch_id: i64,
}

/// What an envelope holds.
#[derive(Debug)]
pub struct ClientRequest {
    pub meta: MetaInfo,
    pub weights: Vec<u8>,
}

/// The number that four bytes spell, most significant first.
pub open spec fn be32_value(b: Seq<u8>) -> u32
    recommends
        b.len() >= 4,
{
    (b[0] as int * 0x100_0000 + b[1] as int * 0x1_0000 + b[2] as int * 0x100 + b[3] as int) as u32
}

/// The four bytes that spell `n`, most significant first.
pub open spec fn be32_bytes(n: u32) -> Seq<u8> {
    seq![
        (n / 0x100_0000) as u8,
        (n / 0x1_0000 % 0x100) as u8,
        (n / 0x100 % 0x100) as u8,
        (n % 0x100) as u8,
    ]
}

/// The envelope around a description and weights. A length that does not
/// fit in four bytes is written without its upper part.
pub open spec fn framed(meta: Seq<u8>, weights: Seq<u8>) -> Seq<u8> {
    be32_bytes((meta.len() % 0x1_0000_0000) as u32) + meta + weights
}

/// The description and the weights in an envelope; `None` where it is
/// shorter than its head says.
pub open spec fn unframed(item: Seq<u8>) -> Option<(Seq<u8>, Seq<u8>)> {
    if item.len() < 4 || item.len() < 4 + be32_value(item) {
        None
    } else {
        Some(
            (
                item.subrange(4, 4 + be32_value(item)),
                item.subrange(4 + be32_value(item), item.len() as int),
            ),
        )
    }
}

/// Opening an envelope gives back what was put in, where the description
/// is short enough for its length to be written whole.
pub proof fn lemma_envelope_round_trip(meta: Seq<u8>, weights: Seq<u8>)
    requires
        meta.len() <= u32::MAX,
    ensures
        unframed(framed(meta, weights)) == Some((meta, weights)),
{
    let n = meta.len() as u32;
    let item = framed(meta, weights);
    assert(be32_value(item) == n) by {
        assert(item[0] == (n / 0x100_0000) as u8);
        assert(item[1] == (n / 0x1_0000 % 0x100) as u8);
        assert(item[2] == (n / 0x100 % 0x100) as u8);
        assert(item[3] == (n % 0x100) as u8);
    }
    assert(item.subrange(4, 4 + n) =~= meta);
    assert(item.subrange(4 + n, item.len() as int) =~= weights);
}

/// `BigEndian::read_u32` of byteorder: the number that the first four bytes
/// of `buf` spell, most significant first. It gives up on fewer than four
/// bytes.
#[verifier::external_body]
fn read_be_u32(buf: &[u8]) -> (r: u32)
    requires
        buf.len() >= 4,
    ensures
        r == be32_value(buf@),
{
    byteorder::BigEndian::read_u32(buf)
}

/// `BufMut::put_u32` of bytes, on a `Vec<u8>`: appends the four bytes that
/// spell `n`, most significant first.
#[verifier::external_body]
fn put_be_u32(buf: &mut Vec<u8>, n: u32)
    ensures
        final(buf)@ == old(buf)@ + be32_bytes(n),
{
    bytes::BufMut::put_u32(buf, n)
}

impl ClientRequest {
    /// Puts a description and weights into an envelope.
    pub fn frame(meta: &[u8], weights: &[u8]) -> (r: Vec<u8>)
        ensures
            r@ == framed(meta@, weights@),
    {
        let mut buf: Vec<u8> = Vec::new();
        let length: u32 = (meta.len() as u64 % 0x1_0000_0000) as u32;
        put_be_u32(&mut buf, length);
        buf.extend_from_slice(meta);
        buf.extend_from_slice(weights);
        assert(buf@ =~= framed(meta@, weights@));
        buf
    }

    /// Takes an envelope apart: the bytes of the description, then the
    /// weights.
    pub fn unframe(item: &[u8]) -> (r: Option<(Vec<u8>, Vec<u8>)>)
        ensures
            match r {
                Some((meta, weights)) => unframed(item@) == Some((meta@, weights@)),
                None => unframed(item@) is None,
            },
    {
        if item.len() < 4 {
            return None;
        }
        let length = read_be_u32(item);
        let room: u64 = (item.len() - 4) as u64;
        if room < (length as u64) {
            return None;
        }
        let end: usize = 4 + length as usize;
        let meta = slice_to_vec(slice_subrange(item, 4, end));
        let weights = slice_to_vec(slice_subrange(item, end, item.len()));
        Some((meta, weights))
    }
}

} // verus!
