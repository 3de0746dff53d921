//! A message as a delivery batch carries it, and its three wire revisions:
//! under protocol versions below 3 an id, an attempt number only when the
//! packet revision is 1, and the content; from protocol version 3 on an id,
//! an attempt number, the headers and the content.
use crate::common_deserializers::{
    holds_at, lemma_parse_byte_array, lemma_parse_i32, lemma_parse_i64, parse_byte_array, parse_i32,
    parse_i64, read_byte_array, read_i32, read_i64, Parsed,
};
use crate::common_serializers::{byte_array_bytes, i32_le, i64_le};
use crate::connection_attrs::PacketProtVer;
use crate::message_headers::{
    deserealize_message_headers, headers_bytes, headers_fit, headers_read_back, headers_view,
    keys_distinct, lemma_parse_headers, parse_headers, HeadersModel, MessageHeaders,
};
use crate::my_sb_socket_error::MySbSocketError;
use vstd::prelude::*;

verus! {

/// The model of a delivered message.
pub struct DeliveredModel {
    pub id: i64,
    pub attempt_no: i32,
    pub headers: Option<HeadersModel>,
    pub content: Seq<u8>,
}

/// A delivered message: its id, which delivery attempt this is, its optional
/// headers and its content.
#[derive(Clone, Debug)]
pub struct TcpContractMessage {
    pub id: i64,
    pub attempt_no: i32,
    pub headers: Option<MessageHeaders>,
    pub content: Vec<u8>,
}

impl View for TcpContractMessage {
    type V = DeliveredModel;

    open spec fn view(&self) -> DeliveredModel {
        DeliveredModel {
            id: self.id,
            attempt_no: self.attempt_no,
            headers: headers_view(self.headers),
            content: self.content@,
        }
    }
}

/// The wire form of a message with the given attempt number.
pub open spec fn envelope_bytes(m: DeliveredModel, attempt_no: i32, ver: PacketProtVer) -> Seq<u8> {
    if ver.protocol_version < 3 {
        if ver.packet_version == 1 {
            i64_le(m.id) + i32_le(attempt_no) + byte_array_bytes(m.content)
        } else {
            i64_le(m.id) + byte_array_bytes(m.content)
        }
    } else {
        i64_le(m.id) + i32_le(attempt_no) + headers_bytes(m.headers) + byte_array_bytes(m.content)
    }
}

/// What reading back the wire form of `m` gives: no headers and, without the
/// attempt number on the wire, attempt 0 under protocol versions below 3.
pub open spec fn envelope_read_back(m: DeliveredModel, attempt_no: i32, ver: PacketProtVer) -> DeliveredModel {
    if ver.protocol_version < 3 {
        DeliveredModel {
            id: m.id,
            attempt_no: if ver.packet_version == 1 {
                attempt_no
            } else {
                0
            },
            headers: None,
            content: m.content,
        }
    } else {
        DeliveredModel {
            id: m.id,
            attempt_no,
            headers: headers_read_back(m.headers),
            content: m.content,
        }
    }
}

/// The messages whose wire form reads back whole.
pub open spec fn envelope_fits(m: DeliveredModel) -> bool {
    &&& m.content.len() <= i32::MAX
    &&& m.headers matches Some(h) ==> keys_distinct(h) && headers_fit(h)
}

pub open spec fn parse_envelope_v2(s: Seq<u8>, pos: int, packet_version: i32) -> Parsed<
    DeliveredModel,
> {
    match parse_i64(s, pos) {
        Err(e) => Err(e),
        Ok((id, p1)) => match if packet_version == 1 {
            parse_i32(s, p1)
        } else {
            Ok((0i32, p1))
        } {
            Err(e) => Err(e),
            Ok((attempt_no, p2)) => match parse_byte_array(s, p2) {
                Err(e) => Err(e),
                Ok((content, p3)) => Ok(
                    (DeliveredModel { id, attempt_no, headers: None, content }, p3),
                ),
            },
        },
    }
}

pub open spec fn parse_envelope_v3(s: Seq<u8>, pos: int) -> Parsed<DeliveredModel> {
    match parse_i64(s, pos) {
        Err(e) => Err(e),
        Ok((id, p1)) => match parse_i32(s, p1) {
            Err(e) => Err(e),
            Ok((attempt_no, p2)) => match parse_headers(s, p2) {
                Err(e) => Err(e),
                Ok((headers, p3)) => match parse_byte_array(s, p3) {
                    Err(e) => Err(e),
                    Ok((content, p4)) => Ok(
                        (DeliveredModel { id, attempt_no, headers, content }, p4),
                    ),
                },
            },
        },
    }
}

pub open spec fn parse_envelope(s: Seq<u8>, pos: int, ver: PacketProtVer) -> Parsed<DeliveredModel> {
    if ver.protocol_version < 3 {
        parse_envelope_v2(s, pos, ver.packet_version)
    } else {
        parse_envelope_v3(s, pos)
    }
}

proof fn lemma_sub(s: Seq<u8>, pos: int, all: Seq<u8>, from: int, to: int)
    requires
        holds_at(s, pos, all),
        0 <= from <= to <= all.len(),
    ensures
        holds_at(s, pos + from, all.subrange(from, to)),
{
    assert(s.subrange(pos + from, pos + to) =~= s.subrange(pos, pos + all.len()).subrange(from, to));
}

/// Reading back the wire form of a message gives `envelope_read_back` of it.
pub proof fn lemma_parse_envelope(
    s: Seq<u8>,
    pos: int,
    m: DeliveredModel,
    attempt_no: i32,
    ver: PacketProtVer,
)
    requires
        envelope_fits(m),
        holds_at(s, pos, envelope_bytes(m, attempt_no, ver)),
    ensures
        parse_envelope(s, pos, ver) == Ok::<(DeliveredModel, int), MySbSocketError>(
            (
                envelope_read_back(m, attempt_no, ver),
                pos + envelope_bytes(m, attempt_no, ver).len(),
            ),
        ),
{
    let all = envelope_bytes(m, attempt_no, ver);
    let a = i64_le(m.id);
    let b = i32_le(attempt_no);
    let c = byte_array_bytes(m.content);
    lemma_sub(s, pos, all, 0, 8);
    assert(all.subrange(0, 8) =~= a);
    lemma_parse_i64(s, pos, m.id);
    if ver.protocol_version < 3 {
        if ver.packet_version == 1 {
            lemma_sub(s, pos, all, 8, 12);
            assert(all.subrange(8, 12) =~= b);
            lemma_parse_i32(s, pos + 8, attempt_no);
            lemma_sub(s, pos, all, 12, all.len() as int);
            assert(all.subrange(12, all.len() as int) =~= c);
            lemma_parse_byte_array(s, pos + 12, m.content);
        } else {
            lemma_sub(s, pos, all, 8, all.len() as int);
            assert(all.subrange(8, all.len() as int) =~= c);
            lemma_parse_byte_array(s, pos + 8, m.content);
        }
    } else {
        let h = headers_bytes(m.headers);
        let hl = 12 + h.len() as int;
        lemma_sub(s, pos, all, 8, 12);
        assert(all.subrange(8, 12) =~= b);
        lemma_parse_i32(s, pos + 8, attempt_no);
        lemma_sub(s, pos, all, 12, hl);
        assert(all.subrange(12, hl) =~= h);
        lemma_parse_headers(s, pos + 12, m.headers);
        lemma_sub(s, pos, all, hl, all.len() as int);
        assert(all.subrange(hl, all.len() as int) =~= c);
        lemma_parse_byte_array(s, pos + hl, m.content);
    }
}

impl TcpContractMessage {
    /// Reads a message in the revision of protocol versions below 3: no
    /// headers, and the attempt number only when `packet_version` is 1
    /// (else it reads as 0).
    pub fn deserialize(data: &[u8], pos: usize, packet_version: i32) -> (r: Result<
        (TcpContractMessage, usize),
        MySbSocketError,
    >)
        ensures
            match r {
                Ok((m, p)) => parse_envelope_v2(data@, pos as int, packet_version) == Ok::<
                    (DeliveredModel, int),
                    MySbSocketError,
                >((m@, p as int)),
                Err(e) => parse_envelope_v2(data@, pos as int, packet_version) == Err::<
                    (DeliveredModel, int),
                    MySbSocketError,
                >(e),
            },
    {
        let (id, p1) = read_i64(data, pos)?;
        let (attempt_no, p2) = if packet_version == 1 {
            read_i32(data, p1)?
        } else {
            (0, p1)
        };
        let (content, p3) = read_byte_array(data, p2)?;
        Ok((TcpContractMessage { id, attempt_no, headers: None, content }, p3))
    }

    /// Reads a message in the revision of protocol version 3: id, attempt
    /// number, headers, content.
    pub fn deserialize_v3(data: &[u8], pos: usize) -> (r: Result<
        (TcpContractMessage, usize),
        MySbSocketError,
    >)
        ensures
            match r {
                Ok((m, p)) => parse_envelope_v3(data@, pos as int) == Ok::<
                    (DeliveredModel, int),
                    MySbSocketError,
                >((m@, p as int)),
                Err(e) => parse_envelope_v3(data@, pos as int) == Err::<
                    (DeliveredModel, int),
                    MySbSocketError,
                >(e),
            },
    {
        let (id, p1) = read_i64(data, pos)?;
        let (attempt_no, p2) = read_i32(data, p1)?;
        let (headers, p3) = deserealize_message_headers(data, p2)?;
        let (content, p4) = read_byte_array(data, p3)?;
        Ok((TcpContractMessage { id, attempt_no, headers, content }, p4))
    }
}

} // verus!
