//! FastCGI record codec: headers, name/value pairs, record framing.
use vstd::prelude::*;
use crate::text::{ascii, ascii_bytes, decimal, decimal_of};

verus! {

pub const FASTCGI_VERSION: u8 = 1;
pub const FASTCGI_HEADER_LEN: usize = 8;
pub const FASTCGI_BEGIN_REQUEST_LEN: usize = 8;
pub const FASTCGI_MAX_REQUEST_LEN: usize = 65798;
pub const FASTCGI_MAX_CONTENT_LEN: usize = 65535;

pub const FASTCGI_BEGIN_REQUEST: u8 = 1;
pub const FASTCGI_ABORT_REQUEST: u8 = 2;
pub const FASTCGI_END_REQUEST: u8 = 3;
pub const FASTCGI_PARAMS: u8 = 4;
pub const FASTCGI_STDIN: u8 = 5;
pub const FASTCGI_STDOUT: u8 = 6;
pub const FASTCGI_STDERR: u8 = 7;
pub const FASTCGI_DATA: u8 = 8;
pub const FASTCGI_GET_VALUES: u8 = 9;
pub const FASTCGI_GET_VALUES_RESULT: u8 = 10;
pub const FASTCGI_UNKNOWN_TYPE: u8 = 11;

pub const FASTCGI_RESPONDER: u16 = 1;
pub const FASTCGI_AUTHORIZER: u16 = 2;
pub const FASTCGI_FILTER: u16 = 3;

pub const FASTCGI_REQUEST_COMPLETE: u8 = 0;

/// The type byte of a record.
#[derive(PartialEq, Eq, Structural, Clone, Copy, Debug)]
pub enum HeaderType {
    BeginRequest,
    AbortRequest,
    EndRequest,
    Params,
    Stdin,
    Stdout,
    Stderr,
    Data,
    GetValues,
    GetValuesResult,
    UnknownType,
    Error(u8),
}

/// The 8-byte record header.
#[derive(PartialEq, Eq, Structural, Clone, Copy, Debug)]
pub struct Header {
    pub version: u8,
    pub header_type: HeaderType,
    pub request_id: u16,
    pub content_length: u16,
    pub padding_length: u8,
    pub reserved: u8,
}

/// The role asked for in a BEGIN_REQUEST record.
#[derive(PartialEq, Eq, Structural, Clone, Copy, Debug)]
pub enum Role {
    Responder,
    Authorized,
    Filter,
    Error,
}

pub open spec fn type_of_byte(b: u8) -> HeaderType {
    if b == 1 {
        HeaderType::BeginRequest
    } else if b == 2 {
        HeaderType::AbortRequest
    } else if b == 3 {
        HeaderType::EndRequest
    } else if b == 4 {
        HeaderType::Params
    } else if b == 5 {
        HeaderType::Stdin
    } else if b == 6 {
        HeaderType::Stdout
    } else if b == 7 {
        HeaderType::Stderr
    } else if b == 8 {
        HeaderType::Data
    } else if b == 9 {
        HeaderType::GetValues
    } else if b == 10 {
        HeaderType::GetValuesResult
    } else if b == 11 {
        HeaderType::UnknownType
    } else {
        HeaderType::Error(b)
    }
}

/// The type byte written for a header type; an unknown type is written as 0.
pub open spec fn byte_of_type(t: HeaderType) -> u8 {
    match t {
        HeaderType::BeginRequest => 1,
        HeaderType::AbortRequest => 2,
        HeaderType::EndRequest => 3,
        HeaderType::Params => 4,
        HeaderType::Stdin => 5,
        HeaderType::Stdout => 6,
        HeaderType::Stderr => 7,
        HeaderType::Data => 8,
        HeaderType::GetValues => 9,
        HeaderType::GetValuesResult => 10,
        HeaderType::UnknownType => 11,
        HeaderType::Error(_) => 0,
    }
}

pub open spec fn role_of(r: u16) -> Role {
    if r == 1 {
        Role::Responder
    } else if r == 2 {
        Role::Authorized
    } else if r == 3 {
        Role::Filter
    } else {
        Role::Error
    }
}

pub open spec fn role_code(r: Role) -> u16 {
    match r {
        Role::Responder => 1,
        Role::Authorized => 2,
        Role::Filter => 3,
        Role::Error => 0,
    }
}

/// Big-endian value of two bytes.
pub open spec fn be16(b0: u8, b1: u8) -> u16 {
    (b0 as int * 256 + b1 as int) as u16
}

/// Big-endian bytes of a 16-bit value.
pub open spec fn be16_bytes(v: u16) -> Seq<u8> {
    seq![(v / 256) as u8, (v % 256) as u8]
}

/// Big-endian bytes of a 32-bit value.
pub open spec fn be32_bytes(v: u32) -> Seq<u8> {
    seq![
        (v / 0x100_0000) as u8,
        (v / 0x1_0000 % 256) as u8,
        (v / 256 % 256) as u8,
        (v % 256) as u8,
    ]
}

pub open spec fn header_of(b: Seq<u8>) -> Header
    recommends
        b.len() >= 8,
{
    Header {
        version: b[0],
        header_type: type_of_byte(b[1]),
        request_id: be16(b[2], b[3]),
        content_length: be16(b[4], b[5]),
        padding_length: b[6],
        reserved: b[7],
    }
}

pub open spec fn header_bytes(h: Header) -> Seq<u8> {
    seq![h.version, byte_of_type(h.header_type)] + be16_bytes(h.request_id) + be16_bytes(
        h.content_length,
    ) + seq![h.padding_length, h.reserved]
}

fn read_u16(b0: u8, b1: u8) -> (r: u16)
    ensures
        r == be16(b0, b1),
{
    (b0 as u16) * 256 + (b1 as u16)
}

fn push_u16(out: &mut Vec<u8>, v: u16)
    ensures
        final(out)@ == old(out)@ + be16_bytes(v),
{
    out.push((v / 256) as u8);
    out.push((v % 256) as u8);
}

fn push_u32(out: &mut Vec<u8>, v: u32)
    ensures
        final(out)@ == old(out)@ + be32_bytes(v),
{
    out.push((v / 0x100_0000) as u8);
    out.push((v / 0x1_0000 % 256) as u8);
    out.push((v / 256 % 256) as u8);
    out.push((v % 256) as u8);
}

impl FastCGI {
    /// Maps a type byte to its header type.
    pub fn get_header_type(header_type: u8) -> (r: HeaderType)
        ensures
            r == type_of_byte(header_type),
    {
        if header_type == FASTCGI_BEGIN_REQUEST {
            HeaderType::BeginRequest
        } else if header_type == FASTCGI_ABORT_REQUEST {
            HeaderType::AbortRequest
        } else if header_type == FASTCGI_END_REQUEST {
            HeaderType::EndRequest
        } else if header_type == FASTCGI_PARAMS {
            HeaderType::Params
        } else if header_type == FASTCGI_STDIN {
            HeaderType::Stdin
        } else if header_type == FASTCGI_STDOUT {
            HeaderType::Stdout
        } else if header_type == FASTCGI_STDERR {
            HeaderType::Stderr
        } else if header_type == FASTCGI_DATA {
            HeaderType::Data
        } else if header_type == FASTCGI_GET_VALUES {
            HeaderType::GetValues
        } else if header_type == FASTCGI_GET_VALUES_RESULT {
            HeaderType::GetValuesResult
        } else if header_type == FASTCGI_UNKNOWN_TYPE {
            HeaderType::UnknownType
        } else {
            HeaderType::Error(header_type)
        }
    }

    /// Maps a header type to its type byte (0 for an unknown type).
    pub fn set_header_type(header_type: HeaderType) -> (r: u8)
        ensures
            r == byte_of_type(header_type),
    {
        match header_type {
            HeaderType::BeginRequest => FASTCGI_BEGIN_REQUEST,
            HeaderType::AbortRequest => FASTCGI_ABORT_REQUEST,
            HeaderType::EndRequest => FASTCGI_END_REQUEST,
            HeaderType::Params => FASTCGI_PARAMS,
            HeaderType::Stdin => FASTCGI_STDIN,
            HeaderType::Stdout => FASTCGI_STDOUT,
            HeaderType::Stderr => FASTCGI_STDERR,
            HeaderType::Data => FASTCGI_DATA,
            HeaderType::GetValues => FASTCGI_GET_VALUES,
            HeaderType::GetValuesResult => FASTCGI_GET_VALUES_RESULT,
            HeaderType::UnknownType => FASTCGI_UNKNOWN_TYPE,
            HeaderType::Error(_) => 0,
        }
    }

    /// Maps a role code to its role.
    pub fn get_role(role: u16) -> (r: Role)
        ensures
            r == role_of(role),
    {
        if role == FASTCGI_RESPONDER {
            Role::Responder
        } else if role == FASTCGI_AUTHORIZER {
            Role::Authorized
        } else if role == FASTCGI_FILTER {
            Role::Filter
        } else {
            Role::Error
        }
    }

    /// Decodes the first eight bytes of `data` as a header; `None` when the
    /// version byte is not 1.
    pub fn read_header(data: &[u8]) -> (r: Option<Header>)
        requires
            data@.len() >= FASTCGI_HEADER_LEN,
        ensures
            r == (if data@[0] == FASTCGI_VERSION {
                Some(header_of(data@))
            } else {
                None
            }),
    {
        if data[0] != FASTCGI_VERSION {
            return None;
        }
        Some(
            Header {
                version: data[0],
                header_type: FastCGI::get_header_type(data[1]),
                request_id: read_u16(data[2], data[3]),
                content_length: read_u16(data[4], data[5]),
                padding_length: data[6],
                reserved: data[7],
            },
        )
    }

    /// Appends the eight bytes of a header.
    pub fn write_header(out: &mut Vec<u8>, h: &Header)
        ensures
            final(out)@ == old(out)@ + header_bytes(*h),
    {
        out.push(h.version);
        out.push(FastCGI::set_header_type(h.header_type));
        push_u16(out, h.request_id);
        push_u16(out, h.content_length);
        out.push(h.padding_length);
        out.push(h.reserved);
        assert(final(out)@ =~= old(out)@ + header_bytes(*h));
    }
}

/// The codec's namespace.
pub struct FastCGI {}

/// One name/value pair of a PARAMS record, as raw bytes.
pub type Param = (Vec<u8>, Vec<u8>);

pub open spec fn params_view(ps: Seq<Param>) -> Seq<(Seq<u8>, Seq<u8>)> {
    ps.map_values(|p: Param| (p.0@, p.1@))
}

/// The encoding of one pair length: one byte below 128, else four
/// big-endian bytes with the high bit set.
pub open spec fn length_bytes(n: nat) -> Seq<u8> {
    if n < 128 {
        seq![n as u8]
    } else {
        seq![
            (n / 0x100_0000 + 128) as u8,
            (n / 0x1_0000 % 256) as u8,
            (n / 256 % 256) as u8,
            (n % 256) as u8,
        ]
    }
}

pub open spec fn pair_bytes(p: (Seq<u8>, Seq<u8>)) -> Seq<u8> {
    length_bytes(p.0.len()) + length_bytes(p.1.len()) + p.0 + p.1
}

/// The payload of a PARAMS record holding the given pairs in order.
pub open spec fn pairs_bytes(ps: Seq<(Seq<u8>, Seq<u8>)>) -> Seq<u8>
    decreases ps.len(),
{
    if ps.len() == 0 {
        Seq::empty()
    } else {
        pair_bytes(ps[0]) + pairs_bytes(ps.skip(1))
    }
}

/// A pair length read at `pos`: its value and the position after it.
pub open spec fn length_at(d: Seq<u8>, pos: int) -> Option<(nat, int)> {
    if pos < 0 || pos >= d.len() {
        None
    } else if d[pos] < 128 {
        Some((d[pos] as nat, pos + 1))
    } else if pos + 4 > d.len() {
        None
    } else {
        Some(
            (
                ((d[pos] - 128) * 0x100_0000 + d[pos + 1] * 0x1_0000 + d[pos + 2] * 256 + d[pos
                    + 3]) as nat,
                pos + 4,
            ),
        )
    }
}

/// The pair that starts at `pos` and the position after it, when the
/// lengths are well formed, the name is not empty and both fit in `d`.
pub open spec fn pair_at(d: Seq<u8>, pos: int) -> Option<((Seq<u8>, Seq<u8>), int)> {
    match length_at(d, pos) {
        None => None,
        Some((kl, pos_v)) => if kl == 0 {
            None
        } else {
            match length_at(d, pos_v) {
                None => None,
                Some((vl, pos_k)) => if pos_k + kl + vl > d.len() {
                    None
                } else {
                    Some(
                        (
                            (d.subrange(pos_k, pos_k + kl), d.subrange(pos_k + kl, pos_k + kl + vl)),
                            pos_k + kl + vl,
                        ),
                    )
                },
            }
        },
    }
}

/// The pairs of a PARAMS payload from `pos` on; `None` when it is malformed.
pub open spec fn pairs_from(d: Seq<u8>, pos: int) -> Option<Seq<(Seq<u8>, Seq<u8>)>>
    decreases d.len() - pos,
{
    if pos >= d.len() {
        Some(Seq::empty())
    } else {
        match pair_at(d, pos) {
            None => None,
            Some((p, next)) => if next <= pos {
                None
            } else {
                match pairs_from(d, next) {
                    None => None,
                    Some(rest) => Some(seq![p] + rest),
                }
            },
        }
    }
}

/// The pairs of a non-empty PARAMS payload; `None` when it is empty or
/// malformed.
pub open spec fn params_of(d: Seq<u8>) -> Option<Seq<(Seq<u8>, Seq<u8>)>> {
    if d.len() == 0 {
        None
    } else {
        pairs_from(d, 0)
    }
}

/// Reads one pair length at `pos`.
fn read_length(data: &[u8], pos: usize) -> (r: Option<(usize, usize)>)
    ensures
        match length_at(data@, pos as int) {
            None => r.is_none(),
            Some((n, p)) => r == Some((n as usize, p as usize)) && n < 0x8000_0000,
        },
{
    let len = data.len();
    if pos >= len {
        return None;
    }
    let b0 = data[pos];
    if b0 < 128 {
        return Some((b0 as usize, pos + 1));
    }
    if len - pos < 4 {
        return None;
    }
    let hi = (b0 & 0x7f) as u32;
    assert(b0 & 0x7f == b0 - 128) by (bit_vector)
        requires
            b0 >= 128,
    ;
    let v: u32 = hi * 0x100_0000 + (data[pos + 1] as u32) * 0x1_0000 + (data[pos + 2] as u32)
        * 256 + (data[pos + 3] as u32);
    Some((v as usize, pos + 4))
}

impl FastCGI {
    /// Decodes the payload of a PARAMS record into its pairs, in order.
    /// `None` when the payload is empty, a length runs past its end, or a
    /// name is empty.
    pub fn read_param(data: &[u8]) -> (r: Option<Vec<Param>>)
        ensures
            match params_of(data@) {
                None => r.is_none(),
                Some(ps) => r.is_some() && params_view(r.unwrap()@) == ps,
            },
    {
        let len = data.len();
        if len == 0 {
            return None;
        }
        let mut out: Vec<Param> = Vec::new();
        let mut size: usize = 0;
        while size < len
            invariant
                len == data@.len(),
                size <= len,
                pairs_from(data@, 0) == (match pairs_from(data@, size as int) {
                    None => None,
                    Some(rest) => Some(params_view(out@) + rest),
                }),
            decreases len - size,
        {
            let (key_len, pos_v) = match read_length(data, size) {
                None => return None,
                Some(x) => x,
            };
            if key_len == 0 {
                return None;
            }
            let (value_len, pos_k) = match read_length(data, pos_v) {
                None => return None,
                Some(x) => x,
            };
            if key_len > len - pos_k || value_len > len - pos_k - key_len {
                return None;
            }
            let key = slice_to_vec(data, pos_k, pos_k + key_len);
            let value = slice_to_vec(data, pos_k + key_len, pos_k + key_len + value_len);
            let ghost old_out = out@;
            out.push((key, value));
            proof {
                assert(params_view(out@) =~= params_view(old_out) + seq![(key@, value@)]);
                let rest = pairs_from(data@, (pos_k + key_len + value_len) as int);
                if rest.is_some() {
                    assert(params_view(old_out) + (seq![(key@, value@)] + rest.unwrap())
                        =~= params_view(out@) + rest.unwrap());
                }
            }
            size = pos_k + key_len + value_len;
        }
        proof {
            assert(params_view(out@) + Seq::<(Seq<u8>, Seq<u8>)>::empty() =~= params_view(out@));
        }
        Some(out)
    }
}

/// Copies `data[from..to]`.
pub fn slice_to_vec(data: &[u8], from: usize, to: usize) -> (r: Vec<u8>)
    requires
        from <= to <= data@.len(),
    ensures
        r@ == data@.subrange(from as int, to as int),
{
    let mut r: Vec<u8> = Vec::with_capacity(to - from);
    let mut i = from;
    while i < to
        invariant
            from <= i <= to <= data@.len(),
            r@ == data@.subrange(from as int, i as int),
        decreases to - i,
    {
        r.push(data[i]);
        i += 1;
    }
    r
}

} // verus!

verus! {

/// Body of a BEGIN_REQUEST record.
#[derive(Clone, Copy, Debug)]
pub struct BeginRequest {
    pub role: Role,
    pub flags: u8,
    pub reserved: [u8; 5],
}

/// Body of an UNKNOWN_TYPE record.
#[derive(Clone, Copy, Debug)]
pub struct Unknown {
    pub unknown_type: u8,
    pub reserved: [u8; 7],
}

/// Body of an END_REQUEST record.
#[derive(Clone, Copy, Debug)]
pub struct End {
    pub code: u32,
    pub protocol: u8,
    pub reserved: [u8; 3],
}

/// What a record carries after its header.
#[derive(Clone, Debug)]
pub enum ContentData {
    Empty,
    BeginRequest(BeginRequest),
    Param(Vec<Param>),
    Stream(Vec<u8>),
    Unknown(Unknown),
    End(End),
}

/// One FastCGI record.
#[derive(Clone, Debug)]
pub struct Record {
    pub header: Header,
    pub data: ContentData,
}

/// What a record body holds, in mathematical terms.
pub enum Content {
    Empty,
    BeginRequest(Role, u8, Seq<u8>),
    Param(Seq<(Seq<u8>, Seq<u8>)>),
    Stream(Seq<u8>),
    Unknown(u8, Seq<u8>),
    End(u32, u8, Seq<u8>),
}

impl View for ContentData {
    type V = Content;

    open spec fn view(&self) -> Content {
        match self {
            ContentData::Empty => Content::Empty,
            ContentData::BeginRequest(b) => Content::BeginRequest(b.role, b.flags, b.reserved@),
            ContentData::Param(ps) => Content::Param(params_view(ps@)),
            ContentData::Stream(v) => Content::Stream(v@),
            ContentData::Unknown(u) => Content::Unknown(u.unknown_type, u.reserved@),
            ContentData::End(e) => Content::End(e.code, e.protocol, e.reserved@),
        }
    }
}

/// The bytes that follow the header for a given body.
pub open spec fn content_bytes(c: Content) -> Seq<u8> {
    match c {
        Content::Empty => Seq::empty(),
        Content::BeginRequest(role, flags, res) => be16_bytes(role_code(role)) + seq![flags] + res,
        Content::Param(ps) => pairs_bytes(ps),
        Content::Stream(v) => v,
        Content::Unknown(t, res) => seq![t] + res,
        Content::End(code, protocol, res) => be32_bytes(code) + seq![protocol] + res,
    }
}

/// Every pair length of a body fits the four-byte encoding.
pub open spec fn content_encodable(c: Content) -> bool {
    match c {
        Content::Param(ps) => pairs_encodable(ps),
        _ => true,
    }
}

pub open spec fn pairs_encodable(ps: Seq<(Seq<u8>, Seq<u8>)>) -> bool {
    forall|i: int|
        0 <= i < ps.len() ==> #[trigger] ps[i].0.len() < 0x8000_0000 && ps[i].1.len()
            < 0x8000_0000
}

/// The full encoding of a record: header, body, then `padding_length` zero bytes.
pub open spec fn record_bytes(h: Header, c: Content) -> Seq<u8> {
    header_bytes(h) + content_bytes(c) + Seq::new(h.padding_length as nat, |i: int| 0u8)
}

fn push_length(out: &mut Vec<u8>, n: usize)
    requires
        n < 0x8000_0000,
    ensures
        final(out)@ == old(out)@ + length_bytes(n as nat),
{
    if n < 128 {
        out.push(n as u8);
    } else {
        out.push((n / 0x100_0000 + 128) as u8);
        out.push((n / 0x1_0000 % 256) as u8);
        out.push((n / 256 % 256) as u8);
        out.push((n % 256) as u8);
    }
}

fn push_bytes(out: &mut Vec<u8>, b: &[u8])
    ensures
        final(out)@ == old(out)@ + b@,
{
    let mut i: usize = 0;
    while i < b.len()
        invariant
            i <= b@.len(),
            out@ == old(out)@ + b@.subrange(0, i as int),
        decreases b@.len() - i,
    {
        out.push(b[i]);
        i += 1;
        assert(out@ =~= old(out)@ + b@.subrange(0, i as int));
    }
    assert(b@.subrange(0, b@.len() as int) =~= b@);
}

proof fn lemma_pairs_bytes_push(ps: Seq<(Seq<u8>, Seq<u8>)>, i: int)
    requires
        0 <= i < ps.len(),
    ensures
        pairs_bytes(ps.take(i + 1)) == pairs_bytes(ps.take(i)) + pair_bytes(ps[i]),
    decreases i,
{
    if i == 0 {
        assert(ps.take(1).skip(1) =~= Seq::<(Seq<u8>, Seq<u8>)>::empty());
        assert(pairs_bytes(ps.take(0)) =~= Seq::<u8>::empty());
        assert(ps.take(1)[0] == ps[0]);
        assert(pairs_bytes(ps.take(1).skip(1)) =~= Seq::<u8>::empty());
        assert(pairs_bytes(ps.take(1)) =~= pair_bytes(ps[0]));
    } else {
        let t = ps.skip(1);
        lemma_pairs_bytes_push(t, i - 1);
        assert(ps.take(i + 1).skip(1) =~= t.take(i));
        assert(ps.take(i).skip(1) =~= t.take(i - 1));
        assert(ps.take(i + 1)[0] == ps[0]);
        assert(ps.take(i)[0] == ps[0]);
        assert(t[i - 1] == ps[i]);
        assert(pairs_bytes(ps.take(i + 1)) =~= pairs_bytes(ps.take(i)) + pair_bytes(ps[i]));
    }
}

impl FastCGI {
    /// Appends the PARAMS payload of the given pairs, in order.
    pub fn write_param(out: &mut Vec<u8>, params: &Vec<Param>)
        requires
            content_encodable(Content::Param(params_view(params@))),
        ensures
            final(out)@ == old(out)@ + pairs_bytes(params_view(params@)),
    {
        let ghost ps = params_view(params@);
        let mut i: usize = 0;
        while i < params.len()
            invariant
                i <= params@.len(),
                ps == params_view(params@),
                pairs_encodable(ps),
                out@ == old(out)@ + pairs_bytes(ps.take(i as int)),
            decreases params@.len() - i,
        {
            let ghost before = out@;
            let (k, v) = &params[i];
            assert(ps[i as int] == (k@, v@));
            assert(ps[i as int].0.len() < 0x8000_0000 && ps[i as int].1.len() < 0x8000_0000);
            push_length(out, k.len());
            push_length(out, v.len());
            push_bytes(out, k.as_slice());
            push_bytes(out, v.as_slice());
            proof {
                lemma_pairs_bytes_push(ps, i as int);
                assert(out@ =~= before + pair_bytes(ps[i as int]));
            }
            i += 1;
        }
        assert(ps.take(params@.len() as int) =~= ps);
    }

    /// Encodes a record: its header as given, its body, then
    /// `padding_length` zero bytes.
    pub fn record_array(record: &Record) -> (r: Vec<u8>)
        requires
            content_encodable(record.data@),
        ensures
            r@ == record_bytes(record.header, record.data@),
    {
        let mut data: Vec<u8> = Vec::new();
        FastCGI::write_header(&mut data, &record.header);
        let ghost h = data@;
        match &record.data {
            ContentData::Empty => {},
            ContentData::BeginRequest(b) => {
                push_u16(&mut data, FastCGI::role_code(b.role));
                data.push(b.flags);
                push_bytes(&mut data, &b.reserved);
            },
            ContentData::Param(ps) => {
                FastCGI::write_param(&mut data, ps);
            },
            ContentData::Stream(v) => {
                push_bytes(&mut data, v.as_slice());
            },
            ContentData::Unknown(u) => {
                data.push(u.unknown_type);
                push_bytes(&mut data, &u.reserved);
            },
            ContentData::End(e) => {
                push_u32(&mut data, e.code);
                data.push(e.protocol);
                push_bytes(&mut data, &e.reserved);
            },
        }
        assert(data@ =~= h + content_bytes(record.data@));
        let ghost c = data@;
        let mut i: u8 = 0;
        while i < record.header.padding_length
            invariant
                i <= record.header.padding_length,
                data@ == c + Seq::new(i as nat, |j: int| 0u8),
            decreases record.header.padding_length - i,
        {
            data.push(0);
            i += 1;
            assert(data@ =~= c + Seq::new(i as nat, |j: int| 0u8));
        }
        assert(data@ =~= record_bytes(record.header, record.data@));
        data
    }

    /// The code of a role (0 for an unknown role).
    pub fn role_code(role: Role) -> (r: u16)
        ensures
            r == role_code(role),
    {
        match role {
            Role::Responder => FASTCGI_RESPONDER,
            Role::Authorized => FASTCGI_AUTHORIZER,
            Role::Filter => FASTCGI_FILTER,
            Role::Error => 0,
        }
    }
}

} // verus!

verus! {

/// Outcome of decoding the bytes at the front of a connection buffer.
pub enum Decoded {
    /// The buffer does not yet hold a whole header or record.
    NeedMore,
    /// A protocol error: the connection is closed.
    Close,
    /// A record that is not acted upon; it is consumed.
    Skip,
    /// A record that needs no reply and carries nothing; it is consumed.
    Next,
    /// A request record.
    Record(Header, Content),
    /// A management record that is answered with these bytes.
    Reply(Seq<u8>),
}

/// Status of one decoding step.
#[derive(Debug)]
pub enum ReadStatus {
    Continue,
    Break,
    Next,
    Result(Record),
    Reply(Vec<u8>),
    ErrorStream,
}

impl View for ReadStatus {
    type V = Decoded;

    open spec fn view(&self) -> Decoded {
        match self {
            ReadStatus::Continue => Decoded::NeedMore,
            ReadStatus::Break => Decoded::Skip,
            ReadStatus::Next => Decoded::Next,
            ReadStatus::Result(r) => Decoded::Record(r.header, r.data@),
            ReadStatus::Reply(v) => Decoded::Reply(v@),
            ReadStatus::ErrorStream => Decoded::Close,
        }
    }
}

/// Types that the web server sends about a request.
pub open spec fn is_request_type(t: HeaderType) -> bool {
    t == HeaderType::BeginRequest || t == HeaderType::AbortRequest || t == HeaderType::Params
        || t == HeaderType::Stdin || t == HeaderType::Data
}

/// Types that only an application sends.
pub open spec fn is_reply_type(t: HeaderType) -> bool {
    t == HeaderType::EndRequest || t == HeaderType::Stdout || t == HeaderType::Stderr || t
        == HeaderType::GetValuesResult || t == HeaderType::UnknownType
}

/// Bytes taken by a record with this header.
pub open spec fn record_len(h: Header) -> nat {
    (8 + h.content_length + h.padding_length) as nat
}

pub open spec fn header_of_parts(t: HeaderType, rid: u16, len: nat) -> Header {
    Header {
        version: 1,
        header_type: t,
        request_id: rid,
        content_length: len as u16,
        padding_length: 0,
        reserved: 0,
    }
}

/// The GET_VALUES_RESULT pairs: each limit set to the worker count.
pub open spec fn values_pairs(max: nat) -> Seq<(Seq<u8>, Seq<u8>)> {
    seq![
        (ascii_bytes("FCGI_MAX_CONNS"@), decimal(max)),
        (ascii_bytes("FCGI_MAX_REQS"@), decimal(max)),
        (ascii_bytes("FCGI_MPXS_CONNS"@), decimal(max)),
    ]
}

/// The GET_VALUES_RESULT record for a worker count.
pub open spec fn values_bytes(max: nat) -> Seq<u8> {
    record_bytes(
        header_of_parts(
            HeaderType::GetValuesResult,
            0,
            pairs_bytes(values_pairs(max)).len(),
        ),
        Content::Param(values_pairs(max)),
    )
}

/// The UNKNOWN_TYPE record answering a record of type `t`.
pub open spec fn unknown_bytes(t: u8, rid: u16) -> Seq<u8> {
    record_bytes(
        header_of_parts(HeaderType::UnknownType, rid, 8),
        Content::Unknown(t, Seq::new(7, |i: int| 0u8)),
    )
}

/// Decoding of the bytes `d` at the front of a connection buffer.
pub open spec fn decode(d: Seq<u8>, max: nat) -> Decoded {
    if d.len() < 8 {
        Decoded::NeedMore
    } else if d[0] != 1 {
        Decoded::Close
    } else {
        let h = header_of(d);
        let cl = h.content_length as int;
        let body = d.subrange(8, 8 + cl);
        if d.len() < record_len(h) {
            Decoded::NeedMore
        } else if is_request_type(h.header_type) && h.request_id == 0 {
            Decoded::Skip
        } else if is_reply_type(h.header_type) {
            Decoded::Skip
        } else {
            match h.header_type {
                HeaderType::BeginRequest => {
                    let role = role_of(be16(body[0], body[1]));
                    if cl != 8 || role == Role::Error {
                        Decoded::Skip
                    } else {
                        Decoded::Record(
                            h,
                            Content::BeginRequest(role, body[2], body.subrange(3, 8)),
                        )
                    }
                },
                HeaderType::Params => if cl == 0 {
                    Decoded::Record(h, Content::Empty)
                } else {
                    match params_of(body) {
                        None => Decoded::Close,
                        Some(ps) => Decoded::Record(h, Content::Param(ps)),
                    }
                },
                HeaderType::AbortRequest | HeaderType::Stdin => if cl == 0 {
                    Decoded::Record(h, Content::Empty)
                } else {
                    Decoded::Record(h, Content::Stream(body))
                },
                HeaderType::Data => Decoded::Record(h, Content::Stream(body)),
                HeaderType::GetValues => if h.request_id > 0 {
                    Decoded::Next
                } else {
                    Decoded::Reply(values_bytes(max))
                },
                HeaderType::Error(t) => Decoded::Reply(unknown_bytes(t, h.request_id)),
                _ => Decoded::Skip,
            }
        }
    }
}

/// Bytes that a decoding step consumes.
pub open spec fn consumed(d: Seq<u8>, max: nat) -> nat {
    match decode(d, max) {
        Decoded::NeedMore | Decoded::Close => 0,
        _ => record_len(header_of(d)),
    }
}

impl FastCGI {
    /// Decodes the record at `buffer[seek..size]`: returns what it is and the
    /// new read position.
    pub fn read(buffer: &[u8], seek: usize, size: usize, max_connection: usize) -> (r: (
        ReadStatus,
        usize,
    ))
        requires
            seek <= size <= buffer@.len(),
            max_connection <= u64::MAX,
        ensures
            r.0@ == decode(buffer@.subrange(seek as int, size as int), max_connection as nat),
            r.1 == seek + consumed(buffer@.subrange(seek as int, size as int), max_connection as nat),
    {
        let ghost d = buffer@.subrange(seek as int, size as int);
        if size - seek < FASTCGI_HEADER_LEN {
            return (ReadStatus::Continue, seek);
        }
        let header = match FastCGI::read_header_at(buffer, seek) {
            None => return (ReadStatus::ErrorStream, seek),
            Some(h) => h,
        };
        assert(header == header_of(d));
        let cl = header.content_length as usize;
        let total = FASTCGI_HEADER_LEN + cl + header.padding_length as usize;
        if size - seek < total {
            return (ReadStatus::Continue, seek);
        }
        let next = seek + total;
        let hseek = seek + FASTCGI_HEADER_LEN;
        assert(d.subrange(8, 8 + cl) == buffer@.subrange(hseek as int, (hseek + cl) as int));
        let t = header.header_type;
        let request = match t {
            HeaderType::BeginRequest | HeaderType::AbortRequest | HeaderType::Params
            | HeaderType::Stdin | HeaderType::Data => true,
            _ => false,
        };
        if request && header.request_id == 0 {
            return (ReadStatus::Break, next);
        }
        match t {
            HeaderType::EndRequest | HeaderType::Stdout | HeaderType::Stderr
            | HeaderType::GetValuesResult | HeaderType::UnknownType => {
                return (ReadStatus::Break, next);
            },
            HeaderType::BeginRequest => {
                if cl != FASTCGI_BEGIN_REQUEST_LEN {
                    return (ReadStatus::Break, next);
                }
                assert(buffer@.subrange(hseek + 3, hseek + 8) =~= d.subrange(8, 8 + cl).subrange(
                    3,
                    8,
                ));
                match FastCGI::read_begin_request(buffer, hseek) {
                    None => (ReadStatus::Break, next),
                    Some(b) => (
                        ReadStatus::Result(Record { header, data: ContentData::BeginRequest(b) }),
                        next,
                    ),
                }
            },
            HeaderType::Params => {
                if cl == 0 {
                    return (ReadStatus::Result(Record { header, data: ContentData::Empty }), next);
                }
                let body = slice_to_vec(buffer, hseek, hseek + cl);
                match FastCGI::read_param(body.as_slice()) {
                    None => (ReadStatus::ErrorStream, seek),
                    Some(ps) => (
                        ReadStatus::Result(Record { header, data: ContentData::Param(ps) }),
                        next,
                    ),
                }
            },
            HeaderType::AbortRequest | HeaderType::Stdin => {
                if cl == 0 {
                    return (ReadStatus::Result(Record { header, data: ContentData::Empty }), next);
                }
                let body = slice_to_vec(buffer, hseek, hseek + cl);
                (ReadStatus::Result(Record { header, data: ContentData::Stream(body) }), next)
            },
            HeaderType::Data => {
                let body = slice_to_vec(buffer, hseek, hseek + cl);
                (ReadStatus::Result(Record { header, data: ContentData::Stream(body) }), next)
            },
            HeaderType::GetValues => {
                if header.request_id > 0 {
                    return (ReadStatus::Next, next);
                }
                (ReadStatus::Reply(FastCGI::get_values_result(max_connection as u64)), next)
            },
            HeaderType::Error(unknown) => {
                (ReadStatus::Reply(FastCGI::write_unknown(unknown, header.request_id)), next)
            },
        }
    }

    /// The header at `buffer[seek..seek + 8]`; `None` when its version is not 1.
    fn read_header_at(buffer: &[u8], seek: usize) -> (r: Option<Header>)
        requires
            seek + 8 <= buffer@.len(),
        ensures
            r == (if buffer@[seek as int] == FASTCGI_VERSION {
                Some(header_of(buffer@.subrange(seek as int, buffer@.len() as int)))
            } else {
                None
            }),
    {
        if buffer[seek] != FASTCGI_VERSION {
            return None;
        }
        Some(
            Header {
                version: buffer[seek],
                header_type: FastCGI::get_header_type(buffer[seek + 1]),
                request_id: read_u16(buffer[seek + 2], buffer[seek + 3]),
                content_length: read_u16(buffer[seek + 4], buffer[seek + 5]),
                padding_length: buffer[seek + 6],
                reserved: buffer[seek + 7],
            },
        )
    }

    /// Decodes the eight-byte body of a BEGIN_REQUEST record at
    /// `buffer[at..at + 8]`; `None` when the role is unknown.
    pub fn read_begin_request(buffer: &[u8], at: usize) -> (r: Option<BeginRequest>)
        requires
            at + 8 <= buffer@.len(),
        ensures
            ({
                let role = role_of(be16(buffer@[at as int], buffer@[at + 1]));
                match r {
                    None => role == Role::Error,
                    Some(b) => role != Role::Error && b.role == role && b.flags == buffer@[at
                        + 2] && b.reserved@ == buffer@.subrange(at + 3, at + 8),
                }
            }),
    {
        let role = FastCGI::get_role(read_u16(buffer[at], buffer[at + 1]));
        if let Role::Error = role {
            return None;
        }
        let reserved: [u8; 5] = [
            buffer[at + 3],
            buffer[at + 4],
            buffer[at + 5],
            buffer[at + 6],
            buffer[at + 7],
        ];
        assert(reserved@ =~= buffer@.subrange(at + 3, at + 8));
        Some(BeginRequest { role, flags: buffer[at + 2], reserved })
    }

    /// The GET_VALUES_RESULT record: FCGI_MAX_CONNS, FCGI_MAX_REQS and
    /// FCGI_MPXS_CONNS, each set to `max_connection`.
    pub fn get_values_result(max_connection: u64) -> (r: Vec<u8>)
        ensures
            r@ == values_bytes(max_connection as nat),
    {
        proof {
            reveal_strlit("FCGI_MAX_CONNS");
            reveal_strlit("FCGI_MAX_REQS");
            reveal_strlit("FCGI_MPXS_CONNS");
        }
        let mut params: Vec<Param> = Vec::new();
        params.push((ascii("FCGI_MAX_CONNS"), decimal_of(max_connection)));
        params.push((ascii("FCGI_MAX_REQS"), decimal_of(max_connection)));
        params.push((ascii("FCGI_MPXS_CONNS"), decimal_of(max_connection)));
        let ghost ps = params_view(params@);
        assert(ps =~= values_pairs(max_connection as nat));
        proof {
            lemma_decimal_len(max_connection as nat);
        }
        let mut payload: Vec<u8> = Vec::new();
        FastCGI::write_param(&mut payload, &params);
        let len = payload.len();
        proof {
            lemma_pairs_bytes_len3(ps);
        }
        let record = Record {
            header: Header {
                version: FASTCGI_VERSION,
                header_type: HeaderType::GetValuesResult,
                request_id: 0,
                content_length: len as u16,
                padding_length: 0,
                reserved: 0,
            },
            data: ContentData::Param(params),
        };
        FastCGI::record_array(&record)
    }

    /// The UNKNOWN_TYPE record answering a record of type `unknown`.
    pub fn write_unknown(unknown: u8, request_id: u16) -> (r: Vec<u8>)
        ensures
            r@ == unknown_bytes(unknown, request_id),
    {
        let reserved: [u8; 7] = [0, 0, 0, 0, 0, 0, 0];
        assert(reserved@ =~= Seq::new(7, |i: int| 0u8));
        let record = Record {
            header: Header {
                version: FASTCGI_VERSION,
                header_type: HeaderType::UnknownType,
                request_id,
                content_length: 8,
                padding_length: 0,
                reserved: 0,
            },
            data: ContentData::Unknown(Unknown { unknown_type: unknown, reserved }),
        };
        FastCGI::record_array(&record)
    }
}

/// The STDOUT records that carry `body`, in pieces of at most 65,535 bytes.
pub open spec fn stdout_records(rid: u16, body: Seq<u8>) -> Seq<u8>
    decreases body.len(),
{
    if body.len() == 0 {
        Seq::empty()
    } else if body.len() <= 65535 {
        record_bytes(header_of_parts(HeaderType::Stdout, rid, body.len()), Content::Stream(body))
    } else {
        record_bytes(
            header_of_parts(HeaderType::Stdout, rid, 65535),
            Content::Stream(body.take(65535)),
        ) + stdout_records(rid, body.skip(65535))
    }
}

/// The END_REQUEST record with application status 0 and REQUEST_COMPLETE.
pub open spec fn end_bytes(rid: u16) -> Seq<u8> {
    record_bytes(
        header_of_parts(HeaderType::EndRequest, rid, 8),
        Content::End(0, 0, seq![0u8, 0u8, 0u8]),
    )
}

/// The whole answer to a request: the body as STDOUT records, an empty
/// STDOUT record, then END_REQUEST.
pub open spec fn response_bytes(rid: u16, body: Seq<u8>) -> Seq<u8> {
    stdout_records(rid, body) + record_bytes(
        header_of_parts(HeaderType::Stdout, rid, 0),
        Content::Empty,
    ) + end_bytes(rid)
}

impl FastCGI {
    /// Frames `answer` as the response to the request of `header`.
    pub fn write_response(header: &Header, answer: &Vec<u8>) -> (r: Vec<u8>)
        ensures
            r@ == response_bytes(header.request_id, answer@),
    {
        let rid = header.request_id;
        let len = answer.len();
        let mut data: Vec<u8> = Vec::new();
        let mut seek: usize = 0;
        assert(answer@.skip(0) =~= answer@);
        assert(data@ + stdout_records(rid, answer@) =~= stdout_records(rid, answer@));
        while seek < len
            invariant
                seek <= len == answer@.len(),
                stdout_records(rid, answer@) == data@ + stdout_records(rid, answer@.skip(seek as int)),
            decreases len - seek,
        {
            let size: usize = if len - seek > FASTCGI_MAX_CONTENT_LEN {
                FASTCGI_MAX_CONTENT_LEN
            } else {
                len - seek
            };
            let ghost rest = answer@.skip(seek as int);
            let chunk = slice_to_vec(answer.as_slice(), seek, seek + size);
            assert(chunk@ =~= rest.take(size as int));
            let record = Record {
                header: Header {
                    version: FASTCGI_VERSION,
                    header_type: HeaderType::Stdout,
                    request_id: rid,
                    content_length: size as u16,
                    padding_length: 0,
                    reserved: 0,
                },
                data: ContentData::Stream(chunk),
            };
            let bytes = FastCGI::record_array(&record);
            let ghost before = data@;
            push_bytes(&mut data, bytes.as_slice());
            proof {
                assert(rest.skip(size as int) =~= answer@.skip(seek + size));
                if rest.len() <= 65535 {
                    assert(rest.take(size as int) =~= rest);
                    assert(answer@.skip(seek + size) =~= Seq::<u8>::empty());
                    assert(stdout_records(rid, answer@.skip(seek + size)) =~= Seq::<u8>::empty());
                }
                assert(stdout_records(rid, rest) == bytes@ + stdout_records(rid, answer@.skip(seek + size)));
                assert(data@ + stdout_records(rid, answer@.skip(seek + size)) =~= before + (bytes@ + stdout_records(rid, answer@.skip(seek + size))));
            }
            seek += size;
        }
        proof {
            assert(answer@.skip(seek as int) =~= Seq::<u8>::empty());
            assert(data@ + Seq::<u8>::empty() =~= data@);
        }
        let last = Record {
            header: Header {
                version: FASTCGI_VERSION,
                header_type: HeaderType::Stdout,
                request_id: rid,
                content_length: 0,
                padding_length: 0,
                reserved: 0,
            },
            data: ContentData::Empty,
        };
        let bytes = FastCGI::record_array(&last);
        push_bytes(&mut data, bytes.as_slice());
        let end = FastCGI::write_abort(header);
        push_bytes(&mut data, end.as_slice());
        assert(data@ =~= response_bytes(rid, answer@));
        data
    }

    /// The END_REQUEST record that closes the request of `header`.
    pub fn write_abort(header: &Header) -> (r: Vec<u8>)
        ensures
            r@ == end_bytes(header.request_id),
    {
        let reserved: [u8; 3] = [0, 0, 0];
        assert(reserved@ =~= seq![0u8, 0u8, 0u8]);
        let record = Record {
            header: Header {
                version: FASTCGI_VERSION,
                header_type: HeaderType::EndRequest,
                request_id: header.request_id,
                content_length: 8,
                padding_length: 0,
                reserved: 0,
            },
            data: ContentData::End(End { code: 0, protocol: FASTCGI_REQUEST_COMPLETE, reserved }),
        };
        FastCGI::record_array(&record)
    }
}

pub open spec fn pow10(k: nat) -> nat
    decreases k,
{
    if k == 0 {
        1
    } else {
        10 * pow10((k - 1) as nat)
    }
}

proof fn lemma_decimal_len_pow(n: nat, k: nat)
    requires
        k >= 1,
        n < pow10(k),
    ensures
        decimal(n).len() <= k,
    decreases k,
{
    if n >= 10 {
        if k == 1 {
            assert(pow10(1) == 10 * pow10(0));
        } else {
            assert(pow10(k) == 10 * pow10((k - 1) as nat));
            assert(n / 10 < pow10((k - 1) as nat)) by (nonlinear_arith)
                requires
                    n < 10 * pow10((k - 1) as nat),
            ;
            lemma_decimal_len_pow(n / 10, (k - 1) as nat);
        }
    }
}

proof fn lemma_decimal_len(n: nat)
    requires
        n <= u64::MAX,
    ensures
        decimal(n).len() <= 20,
{
    reveal_with_fuel(pow10, 21);
    assert(pow10(20) == 100_000_000_000_000_000_000);
    lemma_decimal_len_pow(n, 20);
}

proof fn lemma_pairs_bytes_len3(ps: Seq<(Seq<u8>, Seq<u8>)>)
    requires
        ps.len() == 3,
    ensures
        pairs_bytes(ps) == pair_bytes(ps[0]) + pair_bytes(ps[1]) + pair_bytes(ps[2]),
{
    reveal_with_fuel(pairs_bytes, 4);
    assert(ps.skip(1)[0] == ps[1]);
    assert(ps.skip(1).skip(1)[0] == ps[2]);
    assert(ps.skip(1).skip(1).skip(1) =~= Seq::<(Seq<u8>, Seq<u8>)>::empty());
    assert(pairs_bytes(ps) =~= pair_bytes(ps[0]) + pair_bytes(ps[1]) + pair_bytes(ps[2]));
}

} // verus!

verus! {

/// A request record that the web server may send: version 1, a request
/// id other than 0, a content length equal to the body's, and a body that
/// fits its type.
pub open spec fn well_formed(h: Header, c: Content) -> bool {
    &&& h.version == 1
    &&& h.request_id != 0
    &&& content_bytes(c).len() == h.content_length
    &&& match h.header_type {
        HeaderType::BeginRequest => match c {
            Content::BeginRequest(role, _, res) => role != Role::Error && res.len() == 5,
            _ => false,
        },
        HeaderType::Params => match c {
            Content::Empty => true,
            Content::Param(ps) => ps.len() > 0 && pairs_encodable(ps) && forall|i: int|
                0 <= i < ps.len() ==> #[trigger] ps[i].0.len() > 0,
            _ => false,
        },
        HeaderType::AbortRequest | HeaderType::Stdin => match c {
            Content::Empty => true,
            Content::Stream(v) => v.len() > 0,
            _ => false,
        },
        HeaderType::Data => c is Stream,
        _ => false,
    }
}

proof fn lemma_be16(v: u16)
    ensures
        be16(be16_bytes(v)[0], be16_bytes(v)[1]) == v,
{
}

proof fn lemma_length_at(d: Seq<u8>, pos: int, n: nat)
    requires
        n < 0x8000_0000,
        0 <= pos,
        pos + length_bytes(n).len() <= d.len(),
        d.subrange(pos, pos + length_bytes(n).len()) == length_bytes(n),
    ensures
        length_at(d, pos) == Some((n, pos + length_bytes(n).len())),
{
    let lb = length_bytes(n);
    assert(d[pos] == lb[0]);
    if n >= 128 {
        assert(d[pos + 1] == lb[1]);
        assert(d[pos + 2] == lb[2]);
        assert(d[pos + 3] == lb[3]);
        let a = n / 0x100_0000;
        let b = n / 0x1_0000 % 256;
        let c = n / 256 % 256;
        let e = n % 256;
        assert(a < 128);
        assert(a * 0x100_0000 + b * 0x1_0000 + c * 256 + e == n) by (nonlinear_arith)
            requires
                a == n / 0x100_0000,
                b == n / 0x1_0000 % 256,
                c == n / 256 % 256,
                e == n % 256,
        ;
    }
}

#[verifier::spinoff_prover]
#[verifier::rlimit(80)]
proof fn lemma_pairs_from(x: Seq<u8>, ps: Seq<(Seq<u8>, Seq<u8>)>)
    requires
        pairs_encodable(ps),
        forall|i: int| 0 <= i < ps.len() ==> #[trigger] ps[i].0.len() > 0,
    ensures
        pairs_from(x + pairs_bytes(ps), x.len() as int) == Some(ps),
    decreases ps.len(),
{
    let d = x + pairs_bytes(ps);
    if ps.len() == 0 {
        assert(ps =~= Seq::<(Seq<u8>, Seq<u8>)>::empty());
    } else {
        let p = ps[0];
        let rest = ps.skip(1);
        assert(ps[0].0.len() < 0x8000_0000 && ps[0].1.len() < 0x8000_0000);
        assert(ps[0].0.len() > 0);
        let lk = length_bytes(p.0.len());
        let lv = length_bytes(p.1.len());
        let pos = x.len() as int;
        assert(d =~= x + lk + lv + p.0 + p.1 + pairs_bytes(rest));
        assert(d.subrange(pos, pos + lk.len()) =~= lk);
        lemma_length_at(d, pos, p.0.len());
        let pos_v = pos + lk.len();
        assert(d.subrange(pos_v, pos_v + lv.len()) =~= lv);
        lemma_length_at(d, pos_v, p.1.len());
        let pos_k = pos_v + lv.len();
        assert(d.subrange(pos_k, pos_k + p.0.len()) =~= p.0);
        assert(d.subrange(pos_k + p.0.len(), pos_k + p.0.len() + p.1.len()) =~= p.1);
        let x2 = x + pair_bytes(p);
        assert(d =~= x2 + pairs_bytes(rest));
        assert forall|i: int| 0 <= i < rest.len() implies #[trigger] rest[i].0.len() > 0
            && rest[i].0.len() < 0x8000_0000 && rest[i].1.len() < 0x8000_0000 by {
            assert(rest[i] == ps[i + 1]);
        }
        lemma_pairs_from(x2, rest);
        assert(seq![p] + rest =~= ps);
    }
}

/// Encoding a well-formed request record and decoding the result gives the
/// record back, and the decoder consumes exactly the encoded bytes.
pub proof fn lemma_record_round_trip(h: Header, c: Content, max: nat)
    requires
        well_formed(h, c),
    ensures
        decode(record_bytes(h, c), max) == Decoded::Record(h, c),
        consumed(record_bytes(h, c), max) == record_bytes(h, c).len(),
{
    let d = record_bytes(h, c);
    let body = content_bytes(c);
    lemma_be16(h.request_id);
    lemma_be16(h.content_length);
    assert(d[0] == h.version);
    assert(d[1] == byte_of_type(h.header_type));
    assert(header_of(d) == h);
    assert(d.subrange(8, 8 + h.content_length) =~= body);
    match c {
        Content::BeginRequest(role, flags, res) => {
            lemma_be16(role_code(role));
            assert(body.subrange(3, 8) =~= res);
        },
        Content::Param(ps) => {
            lemma_pairs_from(Seq::empty(), ps);
            assert(Seq::<u8>::empty() + pairs_bytes(ps) =~= pairs_bytes(ps));
        },
        _ => {},
    }
}

} // verus!
