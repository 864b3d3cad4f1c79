//! FastCGI records: the frames in which a request is sent to a FastCGI server (such as
//! a PHP interpreter) and its answer comes back.

use vstd::prelude::*;
use vstd::utf8::encode_utf8;

use crate::text::extend_bytes;

verus! {

/// The FastCGI protocol version written into every record.
pub const FCGI_VERSION: u8 = 1;

/// The size of a record header in bytes.
pub const FCGI_HEADER_SIZE: usize = 8;

/// The type of a record.
#[derive(Clone, Copy, Debug, PartialEq, Eq, Structural)]
pub enum FcgiType {
    /// Begins a request.
    Begin,
    /// Aborts a request.
    Abort,
    /// Ends a request.
    End,
    /// Carries parameters.
    Params,
    /// Carries the request body.
    Stdin,
    /// Carries the answer.
    Stdout,
    /// Carries error output.
    Stderr,
    /// Carries extra data.
    Data,
    /// Asks for values.
    GetValues,
    /// Answers a request for values.
    GetValuesResult,
    /// Answers a record of an unknown type.
    UnknownType,
}

impl FcgiType {
    /// The number of the type in a record header, from 1 (`Begin`) to 11 (`UnknownType`).
    pub open spec fn spec_number(self) -> u8 {
        match self {
            FcgiType::Begin => 1,
            FcgiType::Abort => 2,
            FcgiType::End => 3,
            FcgiType::Params => 4,
            FcgiType::Stdin => 5,
            FcgiType::Stdout => 6,
            FcgiType::Stderr => 7,
            FcgiType::Data => 8,
            FcgiType::GetValues => 9,
            FcgiType::GetValuesResult => 10,
            FcgiType::UnknownType => 11,
        }
    }

    /// The type with the given number, if any.
    pub open spec fn spec_from_number(n: u8) -> Option<FcgiType> {
        if n == 1 {
            Some(FcgiType::Begin)
        } else if n == 2 {
            Some(FcgiType::Abort)
        } else if n == 3 {
            Some(FcgiType::End)
        } else if n == 4 {
            Some(FcgiType::Params)
        } else if n == 5 {
            Some(FcgiType::Stdin)
        } else if n == 6 {
            Some(FcgiType::Stdout)
        } else if n == 7 {
            Some(FcgiType::Stderr)
        } else if n == 8 {
            Some(FcgiType::Data)
        } else if n == 9 {
            Some(FcgiType::GetValues)
        } else if n == 10 {
            Some(FcgiType::GetValuesResult)
        } else if n == 11 {
            Some(FcgiType::UnknownType)
        } else {
            None
        }
    }

    /// The number of the type in a record header.
    pub fn number(self) -> (r: u8)
        ensures
            r == self.spec_number(),
    {
        match self {
            FcgiType::Begin => 1,
            FcgiType::Abort => 2,
            FcgiType::End => 3,
            FcgiType::Params => 4,
            FcgiType::Stdin => 5,
            FcgiType::Stdout => 6,
            FcgiType::Stderr => 7,
            FcgiType::Data => 8,
            FcgiType::GetValues => 9,
            FcgiType::GetValuesResult => 10,
            FcgiType::UnknownType => 11,
        }
    }

    /// The type with the given number; `Err` for numbers outside 1 to 11.
    pub fn from_number(n: u8) -> (r: Result<FcgiType, ()>)
        ensures
            match FcgiType::spec_from_number(n) {
                Some(t) => r == Ok::<FcgiType, ()>(t),
                None => r == Err::<FcgiType, ()>(()),
            },
    {
        match n {
            1 => Ok(FcgiType::Begin),
            2 => Ok(FcgiType::Abort),
            3 => Ok(FcgiType::End),
            4 => Ok(FcgiType::Params),
            5 => Ok(FcgiType::Stdin),
            6 => Ok(FcgiType::Stdout),
            7 => Ok(FcgiType::Stderr),
            8 => Ok(FcgiType::Data),
            9 => Ok(FcgiType::GetValues),
            10 => Ok(FcgiType::GetValuesResult),
            11 => Ok(FcgiType::UnknownType),
            _ => Err(()),
        }
    }
}

/// A type's number gives the type back.
pub proof fn lemma_type_number_roundtrip(t: FcgiType)
    ensures
        FcgiType::spec_from_number(t.spec_number()) == Some(t),
{
}

impl core::convert::TryFrom<u8> for FcgiType {
    type Error = ();

    fn try_from(value: u8) -> (r: Result<FcgiType, ()>) {
        FcgiType::from_number(value)
    }
}

impl vstd::std_specs::convert::TryFromSpecImpl<u8> for FcgiType {
    open spec fn obeys_try_from_spec() -> bool {
        true
    }

    open spec fn try_from_spec(value: u8) -> Result<FcgiType, ()> {
        match FcgiType::spec_from_number(value) {
            Some(t) => Ok(t),
            None => Err(()),
        }
    }
}

/// A record, a component of a transmission.
#[derive(Clone, Debug, PartialEq, Eq)]
pub struct FcgiRecord {
    /// The protocol version.
    pub version: u8,
    /// The type of the record.
    pub fcgi_type: FcgiType,
    /// The request the record belongs to.
    pub request_id: u16,
    /// The length of the content, as the header states it.
    pub content_length: u16,
    /// The length of the padding, as the header states it.
    pub padding_length: u8,
    /// A reserved byte.
    pub reserved: u8,
    /// The content.
    pub content_data: Vec<u8>,
    /// The padding.
    pub padding_data: Vec<u8>,
}

/// The fields of a record: version, type, request id, content length, padding length,
/// reserved byte, content and padding.
pub type RecordFields = (u8, FcgiType, u16, u16, u8, u8, Seq<u8>, Seq<u8>);

impl View for FcgiRecord {
    type V = RecordFields;

    open spec fn view(&self) -> RecordFields {
        (
            self.version,
            self.fcgi_type,
            self.request_id,
            self.content_length,
            self.padding_length,
            self.reserved,
            self.content_data@,
            self.padding_data@,
        )
    }
}

/// The two bytes of a number, most significant first.
pub open spec fn be16(v: u16) -> Seq<u8> {
    seq![(v / 256) as u8, (v % 256) as u8]
}

/// The four bytes of a number, most significant first.
pub open spec fn be32(v: u32) -> Seq<u8> {
    seq![(v / 0x100_0000) as u8, (v / 0x1_0000 % 256) as u8, (v / 256 % 256) as u8, (v % 256) as u8]
}

/// The bytes of a record: the eight header bytes, the content and the padding.
pub open spec fn record_bytes(r: RecordFields) -> Seq<u8> {
    seq![r.0, r.1.spec_number()] + be16(r.2) + be16(r.3) + seq![r.4, r.5] + r.6 + r.7
}

/// The record at the start of some bytes: `None` when the bytes end before the header,
/// when the header's type byte is not a known type, or when the bytes end before the
/// content and padding that the header announces.
pub open spec fn parse_record(b: Seq<u8>) -> Option<RecordFields> {
    if b.len() < 8 {
        None
    } else if FcgiType::spec_from_number(b[1]) is None {
        None
    } else {
        let cl = b[4] as int * 256 + b[5] as int;
        let pl = b[6] as int;
        if b.len() < 8 + cl + pl {
            None
        } else {
            Some(
                (
                    b[0],
                    FcgiType::spec_from_number(b[1]).unwrap(),
                    (b[2] as int * 256 + b[3] as int) as u16,
                    cl as u16,
                    b[6],
                    b[7],
                    b.subrange(8, 8 + cl),
                    b.subrange(8 + cl, 8 + cl + pl),
                ),
            )
        }
    }
}

/// Whether a record's stated lengths are those of its content and padding.
pub open spec fn lengths_agree(r: RecordFields) -> bool {
    r.3 as nat == r.6.len() && r.4 as nat == r.7.len()
}

/// Reading the bytes of a record whose stated lengths agree with its content and padding
/// gives the record back, whatever bytes follow it.
pub proof fn lemma_record_roundtrip(r: RecordFields, rest: Seq<u8>)
    requires
        lengths_agree(r),
    ensures
        parse_record(record_bytes(r) + rest) == Some(r),
{
    let b = record_bytes(r) + rest;
    let cl = r.3 as int;
    let pl = r.4 as int;
    assert(b[4] as int * 256 + b[5] as int == cl) by {
        assert(b[4] == (r.3 / 256) as u8);
        assert(b[5] == (r.3 % 256) as u8);
    }
    assert(b[2] as int * 256 + b[3] as int == r.2 as int) by {
        assert(b[2] == (r.2 / 256) as u8);
        assert(b[3] == (r.2 % 256) as u8);
    }
    assert(b[6] == r.4);
    lemma_type_number_roundtrip(r.1);
    assert(b.subrange(8, 8 + cl) =~= r.6);
    assert(b.subrange(8 + cl, 8 + cl + pl) =~= r.7);
}

/// An error while reading a record.
#[derive(Clone, Copy, Debug, PartialEq, Eq, Structural)]
pub enum RecordError {
    /// The bytes ended before the record did.
    UnexpectedEnd,
    /// The record's header names a type that is not known.
    UnknownType,
}

/// Why the bytes hold no record: a header whose type byte is not a known type, or else
/// too few bytes.
pub open spec fn record_error(b: Seq<u8>) -> RecordError {
    if b.len() >= 8 && FcgiType::spec_from_number(b[1]) is None {
        RecordError::UnknownType
    } else {
        RecordError::UnexpectedEnd
    }
}

/// Pushes the two bytes of a number, most significant first.
fn push_be16(v: &mut Vec<u8>, n: u16)
    ensures
        final(v)@ == old(v)@ + be16(n),
{
    v.push((n / 256) as u8);
    v.push((n % 256) as u8);
    assert(final(v)@ =~= old(v)@ + be16(n));
}

/// Pushes the four bytes of a number, most significant first.
fn push_be32(v: &mut Vec<u8>, n: u32)
    ensures
        final(v)@ == old(v)@ + be32(n),
{
    v.push((n / 0x100_0000) as u8);
    v.push((n / 0x1_0000 % 256) as u8);
    v.push((n / 256 % 256) as u8);
    v.push((n % 256) as u8);
    assert(final(v)@ =~= old(v)@ + be32(n));
}

/// A copy of a range of bytes.
fn copy_range(b: &[u8], from: usize, to: usize) -> (r: Vec<u8>)
    requires
        from <= to <= b@.len(),
    ensures
        r@ == b@.subrange(from as int, to as int),
{
    let mut v: Vec<u8> = Vec::new();
    let mut i = from;
    while i < to
        invariant
            from <= i <= to <= b@.len(),
            v@ == b@.subrange(from as int, i as int),
        decreases to - i,
    {
        v.push(b[i]);
        assert(b@.subrange(from as int, i + 1) =~= b@.subrange(from as int, i as int).push(b@[i as int]));
        i = i + 1;
    }
    v
}

impl FcgiRecord {
    /// Creates a record of the given type and request carrying the given content, with
    /// no padding. The stated content length is the content's length truncated to 16 bits.
    pub fn new(fcgi_type: FcgiType, content: &[u8], request_id: u16) -> (r: FcgiRecord)
        ensures
            r@ == (
                FCGI_VERSION,
                fcgi_type,
                request_id,
                (content@.len() % 0x1_0000) as u16,
                0u8,
                0u8,
                content@,
                Seq::<u8>::empty(),
            ),
    {
        let mut data: Vec<u8> = Vec::new();
        extend_bytes(&mut data, content);
        let r = FcgiRecord {
            version: FCGI_VERSION,
            fcgi_type,
            request_id,
            content_length: (content.len() % 0x1_0000) as u16,
            padding_length: 0,
            reserved: 0,
            content_data: data,
            padding_data: Vec::new(),
        };
        assert(r.content_data@ =~= content@);
        r
    }

    /// The record that begins a request for the responder role, asking the server to
    /// keep the connection open when `keep_alive` holds.
    pub fn begin_record(request_id: u16, keep_alive: bool) -> (r: FcgiRecord)
        ensures
            r@ == (
                FCGI_VERSION,
                FcgiType::Begin,
                request_id,
                8u16,
                0u8,
                0u8,
                seq![0u8, 1u8, if keep_alive { 1u8 } else { 0u8 }, 0u8, 0u8, 0u8, 0u8, 0u8],
                Seq::<u8>::empty(),
            ),
    {
        let flag: u8 = if keep_alive {
            1
        } else {
            0
        };
        let body: [u8; 8] = [0, 1, flag, 0, 0, 0, 0, 0];
        let r = FcgiRecord::new(FcgiType::Begin, &body, request_id);
        assert(body@ =~= seq![0u8, 1u8, flag, 0u8, 0u8, 0u8, 0u8, 0u8]);
        r
    }

    /// The number of bytes of the record that a header starts: the header, the content and
    /// the padding that it announces; `Err(UnknownType)` when the header's type byte is not
    /// a known type.
    pub fn record_length(header: &[u8]) -> (r: Result<usize, RecordError>)
        requires
            header@.len() >= 8,
        ensures
            match FcgiType::spec_from_number(header@[1]) {
                None => r == Err::<usize, RecordError>(RecordError::UnknownType),
                Some(_) => r == Ok::<usize, RecordError>(
                    (8 + header@[4] as int * 256 + header@[5] as int + header@[6] as int) as usize,
                ),
            },
    {
        match FcgiType::from_number(header[1]) {
            Err(_) => Err(RecordError::UnknownType),
            Ok(_) => {
                let content_length: usize = header[4] as usize * 256 + header[5] as usize;
                Ok(8 + content_length + header[6] as usize)
            },
        }
    }

    /// Reads a record from the start of some bytes: `Err(UnexpectedEnd)` when they end
    /// before the header or before the content and padding that it announces, and
    /// `Err(UnknownType)` when the header's type byte is not a known type.
    pub fn read_from(bytes: &[u8]) -> (r: Result<FcgiRecord, RecordError>)
        ensures
            match parse_record(bytes@) {
                Some(fields) => r matches Ok(rec) && rec@ == fields,
                None => r == Err::<FcgiRecord, RecordError>(record_error(bytes@)),
            },
    {
        if bytes.len() < FCGI_HEADER_SIZE {
            return Err(RecordError::UnexpectedEnd);
        }
        let version = bytes[0];
        let fcgi_type = match FcgiType::from_number(bytes[1]) {
            Ok(t) => t,
            Err(_) => return Err(RecordError::UnknownType),
        };
        let request_id: u16 = bytes[2] as u16 * 256 + bytes[3] as u16;
        let content_length: u16 = bytes[4] as u16 * 256 + bytes[5] as u16;
        let padding_length = bytes[6];
        let reserved = bytes[7];
        let content_end: usize = 8 + content_length as usize;
        if bytes.len() < content_end || bytes.len() - content_end < padding_length as usize {
            return Err(RecordError::UnexpectedEnd);
        }
        let padding_end: usize = content_end + padding_length as usize;
        let content = copy_range(bytes, 8, content_end);
        let padding = copy_range(bytes, content_end, padding_end);
        Ok(
            FcgiRecord {
                version,
                fcgi_type,
                request_id,
                content_length,
                padding_length,
                reserved,
                content_data: content,
                padding_data: padding,
            },
        )
    }

    /// Writes the record out as bytes.
    pub fn into_bytes(self) -> (r: Vec<u8>)
        ensures
            r@ == record_bytes(self@),
    {
        let mut result: Vec<u8> = Vec::new();
        result.push(self.version);
        result.push(self.fcgi_type.number());
        push_be16(&mut result, self.request_id);
        push_be16(&mut result, self.content_length);
        result.push(self.padding_length);
        result.push(self.reserved);
        extend_bytes(&mut result, self.content_data.as_slice());
        extend_bytes(&mut result, self.padding_data.as_slice());
        assert(result@ =~= record_bytes(self@));
        result
    }
}

/// The bytes that give the length of a name or value: one byte below 128, otherwise
/// four bytes of the length (truncated to 32 bits), most significant first.
pub open spec fn length_bytes(n: nat) -> Seq<u8> {
    if n < 128 {
        seq![n as u8]
    } else {
        be32((n % 0x1_0000_0000) as u32)
    }
}

/// The bytes of one name-value pair: the two lengths, then the name and the value.
pub open spec fn pair_bytes(name: Seq<u8>, value: Seq<u8>) -> Seq<u8> {
    length_bytes(name.len()) + length_bytes(value.len()) + name + value
}

/// The bytes of name-value pairs, in order.
pub open spec fn pairs_bytes(pairs: Seq<(Seq<char>, Seq<char>)>) -> Seq<u8>
    decreases pairs.len(),
{
    if pairs.len() == 0 {
        Seq::empty()
    } else {
        pairs_bytes(pairs.drop_last()) + pair_bytes(
            encode_utf8(pairs.last().0),
            encode_utf8(pairs.last().1),
        )
    }
}

/// Something that can be encoded into FastCGI parameters.
pub trait Params {
    /// The encoded parameters.
    spec fn encoded(&self) -> Seq<u8>;

    /// Encodes the parameters into bytes.
    fn encode(&self) -> (r: Vec<u8>)
        ensures
            r@ == self.encoded(),
    ;
}

/// The text view of name-value pairs.
pub open spec fn pairs_view(pairs: Seq<(String, String)>) -> Seq<(Seq<char>, Seq<char>)> {
    pairs.map_values(|p: (String, String)| (p.0@, p.1@))
}

/// Pushes the length of a name or value.
fn push_length(v: &mut Vec<u8>, n: usize)
    ensures
        final(v)@ == old(v)@ + length_bytes(n as nat),
{
    if n < 128 {
        v.push(n as u8);
        assert(final(v)@ =~= old(v)@ + length_bytes(n as nat));
    } else {
        push_be32(v, (n as u64 % 0x1_0000_0000) as u32);
    }
}

impl Params for Vec<(String, String)> {
    /// The pairs are encoded in order.
    open spec fn encoded(&self) -> Seq<u8> {
        pairs_bytes(pairs_view(self@))
    }

    fn encode(&self) -> (r: Vec<u8>) {
        let mut result: Vec<u8> = Vec::new();
        let mut i: usize = 0;
        while i < self.len()
            invariant
                i <= self@.len(),
                result@ == pairs_bytes(pairs_view(self@.take(i as int))),
            decreases self.len() - i,
        {
            let name = self[i].0.as_str().as_bytes();
            let value = self[i].1.as_str().as_bytes();
            proof {
                vstd::utf8::encode_utf8_decode_utf8(self@[i as int].0@);
            }
            push_length(&mut result, name.len());
            push_length(&mut result, value.len());
            extend_bytes(&mut result, name);
            extend_bytes(&mut result, value);
            proof {
                let t = pairs_view(self@.take(i + 1));
                assert(t.drop_last() =~= pairs_view(self@.take(i as int)));
                assert(t.last() == (self@[i as int].0@, self@[i as int].1@));
                assert(result@ =~= pairs_bytes(pairs_view(self@.take(i as int))) + pair_bytes(
                    encode_utf8(self@[i as int].0@),
                    encode_utf8(self@[i as int].1@),
                ));
            }
            i = i + 1;
        }
        assert(self@.take(self@.len() as int) =~= self@);
        result
    }
}

/// A request to a FastCGI server.
pub struct FcgiRequest<'a> {
    /// The parameters of the request, in the order they are sent.
    pub params: Vec<(String, String)>,
    /// The request body.
    pub content: &'a [u8],
    /// Whether the server is asked to keep the connection open.
    pub keep_alive: bool,
}

/// The fields of a record with no padding, request id 0 and the given type and content.
pub open spec fn simple_record(t: FcgiType, content: Seq<u8>) -> RecordFields {
    (FCGI_VERSION, t, 0u16, (content.len() % 0x1_0000) as u16, 0u8, 0u8, content, Seq::empty())
}

/// The bytes of a request: a begin record; the parameters record when there are
/// parameters, and an empty one; the body record when there is a body, and an empty one.
pub open spec fn request_records(params: Seq<u8>, content: Seq<u8>, keep_alive: bool) -> Seq<u8> {
    let begin = record_bytes(
        simple_record(
            FcgiType::Begin,
            seq![0u8, 1u8, if keep_alive { 1u8 } else { 0u8 }, 0u8, 0u8, 0u8, 0u8, 0u8],
        ),
    );
    let params_part = if params.len() > 0 {
        record_bytes(simple_record(FcgiType::Params, params))
    } else {
        Seq::empty()
    };
    let content_part = if content.len() > 0 {
        record_bytes(simple_record(FcgiType::Stdin, content))
    } else {
        Seq::empty()
    };
    begin + params_part + record_bytes(simple_record(FcgiType::Params, Seq::empty())) + content_part
        + record_bytes(simple_record(FcgiType::Stdin, Seq::empty()))
}

impl<'a> FcgiRequest<'a> {
    /// Creates a request with the given parameters and body.
    pub fn new(params: Vec<(String, String)>, content: &'a [u8], keep_alive: bool) -> (r: FcgiRequest<'a>)
        ensures
            r.params == params,
            r.content == content,
            r.keep_alive == keep_alive,
    {
        FcgiRequest { params, content, keep_alive }
    }

    /// Encodes the request into the bytes sent to the server.
    pub fn encode(&self) -> (r: Vec<u8>)
        ensures
            r@ == request_records(self.params.encoded(), self.content@, self.keep_alive),
    {
        let request_id: u16 = 0;
        let mut request: Vec<u8> = Vec::new();
        let begin = FcgiRecord::begin_record(request_id, self.keep_alive).into_bytes();
        extend_bytes(&mut request, begin.as_slice());
        let params = self.params.encode();
        if params.len() > 0 {
            let record = FcgiRecord::new(FcgiType::Params, params.as_slice(), request_id).into_bytes();
            extend_bytes(&mut request, record.as_slice());
        }
        let empty: [u8; 0] = [];
        let blank_params = FcgiRecord::new(FcgiType::Params, &empty, request_id).into_bytes();
        extend_bytes(&mut request, blank_params.as_slice());
        if self.content.len() > 0 {
            let record = FcgiRecord::new(FcgiType::Stdin, self.content, request_id).into_bytes();
            extend_bytes(&mut request, record.as_slice());
        }
        let blank_content = FcgiRecord::new(FcgiType::Stdin, &empty, request_id).into_bytes();
        extend_bytes(&mut request, blank_content.as_slice());
        assert(empty@ =~= Seq::<u8>::empty());
        assert(request@ =~= request_records(self.params.encoded(), self.content@, self.keep_alive));
        request
    }
}

/// Records, one after the other, as bytes.
pub open spec fn records_bytes(records: Seq<RecordFields>) -> Seq<u8>
    decreases records.len(),
{
    if records.len() == 0 {
        Seq::empty()
    } else {
        record_bytes(records[0]) + records_bytes(records.drop_first())
    }
}

/// The first `n` records read one after the other from the start of some bytes, each
/// after the content and padding of the one before it.
pub open spec fn read_records(bytes: Seq<u8>, n: nat) -> Option<Seq<RecordFields>>
    decreases n,
{
    if n == 0 {
        Some(Seq::empty())
    } else {
        match parse_record(bytes) {
            None => None,
            Some(r) => match read_records(bytes.skip(8 + r.3 as int + r.4 as int), (n - 1) as nat) {
                Some(rest) => Some(seq![r] + rest),
                None => None,
            },
        }
    }
}

/// Records whose stated lengths agree with their content and padding read back one after
/// the other, whatever bytes follow them.
#[verifier::rlimit(40)]
pub proof fn lemma_records_read_back(records: Seq<RecordFields>, rest: Seq<u8>)
    requires
        forall|i: int| 0 <= i < records.len() ==> lengths_agree(#[trigger] records[i]),
    ensures
        read_records(records_bytes(records) + rest, records.len()) == Some(records),
    decreases records.len(),
{
    if records.len() > 0 {
        let r = records[0];
        let tail = records.drop_first();
        assert(lengths_agree(records[0]));
        assert forall|i: int| 0 <= i < tail.len() implies lengths_agree(#[trigger] tail[i]) by {
            assert(tail[i] == records[i + 1]);
        }
        let after = records_bytes(tail) + rest;
        lemma_record_roundtrip(r, after);
        assert(records_bytes(records) + rest =~= record_bytes(r) + after);
        assert((record_bytes(r) + after).skip(8 + r.3 as int + r.4 as int) =~= after);
        lemma_records_read_back(tail, rest);
        assert(seq![r] + tail =~= records);
    } else {
        assert(records =~= Seq::<RecordFields>::empty());
    }
}

/// The records of a request: a begin record; the parameters record when there are
/// parameters, and an empty one; the body record when there is a body, and an empty one.
pub open spec fn request_record_list(params: Seq<u8>, content: Seq<u8>, keep_alive: bool) -> Seq<RecordFields> {
    seq![
        simple_record(
            FcgiType::Begin,
            seq![0u8, 1u8, if keep_alive { 1u8 } else { 0u8 }, 0u8, 0u8, 0u8, 0u8, 0u8],
        ),
    ] + (if params.len() > 0 {
        seq![simple_record(FcgiType::Params, params)]
    } else {
        Seq::empty()
    }) + seq![simple_record(FcgiType::Params, Seq::empty())] + (if content.len() > 0 {
        seq![simple_record(FcgiType::Stdin, content)]
    } else {
        Seq::empty()
    }) + seq![simple_record(FcgiType::Stdin, Seq::empty())]
}

/// The bytes of records joined in two parts are the bytes of each part.
proof fn lemma_records_bytes_concat(a: Seq<RecordFields>, b: Seq<RecordFields>)
    ensures
        records_bytes(a + b) == records_bytes(a) + records_bytes(b),
    decreases a.len(),
{
    if a.len() > 0 {
        lemma_records_bytes_concat(a.drop_first(), b);
        assert((a + b).drop_first() =~= a.drop_first() + b);
        assert((a + b)[0] == a[0]);
        assert(records_bytes(a + b) =~= records_bytes(a) + records_bytes(b));
    } else {
        assert(a + b =~= b);
        assert(records_bytes(a) + records_bytes(b) =~= records_bytes(b));
    }
}

/// The bytes of one record as a list of records.
proof fn lemma_records_bytes_single(r: RecordFields)
    ensures
        records_bytes(seq![r]) == record_bytes(r),
{
    let one = seq![r];
    assert(one[0] == r);
    assert(one.drop_first() =~= Seq::<RecordFields>::empty());
    assert(records_bytes(one.drop_first()) == Seq::<u8>::empty());
    assert(record_bytes(r) + Seq::<u8>::empty() =~= record_bytes(r));
}

/// An encoded request reads back as its records, one after the other, when its parameters
/// and body are each shorter than 65536 bytes (longer ones do not fit a record's stated
/// length).
pub proof fn lemma_request_records_read_back(params: Seq<u8>, content: Seq<u8>, keep_alive: bool)
    requires
        params.len() < 0x1_0000,
        content.len() < 0x1_0000,
    ensures
        read_records(
            request_records(params, content, keep_alive),
            request_record_list(params, content, keep_alive).len(),
        ) == Some(request_record_list(params, content, keep_alive)),
{
    let list = request_record_list(params, content, keep_alive);
    let begin = simple_record(
        FcgiType::Begin,
        seq![0u8, 1u8, if keep_alive { 1u8 } else { 0u8 }, 0u8, 0u8, 0u8, 0u8, 0u8],
    );
    let p_part: Seq<RecordFields> = if params.len() > 0 {
        seq![simple_record(FcgiType::Params, params)]
    } else {
        Seq::empty()
    };
    let c_part: Seq<RecordFields> = if content.len() > 0 {
        seq![simple_record(FcgiType::Stdin, content)]
    } else {
        Seq::empty()
    };
    let p_end = simple_record(FcgiType::Params, Seq::empty());
    let c_end = simple_record(FcgiType::Stdin, Seq::empty());
    lemma_records_bytes_single(begin);
    lemma_records_bytes_single(p_end);
    lemma_records_bytes_single(c_end);
    lemma_records_bytes_single(simple_record(FcgiType::Params, params));
    lemma_records_bytes_single(simple_record(FcgiType::Stdin, content));
    assert(records_bytes(Seq::<RecordFields>::empty()) == Seq::<u8>::empty());
    lemma_records_bytes_concat(seq![begin], p_part);
    lemma_records_bytes_concat(seq![begin] + p_part, seq![p_end]);
    lemma_records_bytes_concat(seq![begin] + p_part + seq![p_end], c_part);
    lemma_records_bytes_concat(seq![begin] + p_part + seq![p_end] + c_part, seq![c_end]);
    assert(list == seq![begin] + p_part + seq![p_end] + c_part + seq![c_end]);
    let pb = if params.len() > 0 {
        record_bytes(simple_record(FcgiType::Params, params))
    } else {
        Seq::<u8>::empty()
    };
    let cb = if content.len() > 0 {
        record_bytes(simple_record(FcgiType::Stdin, content))
    } else {
        Seq::<u8>::empty()
    };
    assert(records_bytes(p_part) == pb);
    assert(records_bytes(c_part) == cb);
    assert(request_records(params, content, keep_alive) == record_bytes(begin) + pb + record_bytes(
        p_end,
    ) + cb + record_bytes(c_end));
    assert(records_bytes(list) == request_records(params, content, keep_alive));
    assert forall|i: int| 0 <= i < list.len() implies lengths_agree(#[trigger] list[i]) by {
        assert(list[i] == begin || list[i] == p_end || list[i] == c_end || list[i] == simple_record(
            FcgiType::Params,
            params,
        ) || list[i] == simple_record(FcgiType::Stdin, content));
    }
    lemma_records_read_back(list, Seq::empty());
    assert(request_records(params, content, keep_alive) + Seq::<u8>::empty() =~= request_records(
        params,
        content,
        keep_alive,
    ));
}

} // verus!
