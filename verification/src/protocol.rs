use vstd::prelude::*;

use crate::exchange::ClientId;
use crate::net::{IpAddress, SocketAddress, SERVER_PORT};
use crate::storage::{join_path, join_path_exec};
use crate::text::StringSet;

verus! {

/// The size of the chunks in which a file's content is read and sent.
pub const EXCHANGE_FILE_CHUNK_SIZE: usize = 1048576;

/// The byte by which a peer tells the other side to go on.
pub const STREAM_PROCEED_BYTE: u8 = 0;

/// The byte by which a peer tells the other side that it closes the exchange.
pub const STREAM_CLOSE_BYTE: u8 = 1;

/// Connection close code: the exchange ended as it should.
pub const OK_STATUS: u32 = 0;

/// Connection close code: the user refused the pairing.
pub const PAIRING_DENIED_STATUS: u32 = 1;

/// Connection close code: the peer must pair first.
pub const PAIRING_REQUIRED_GOT_NO_ID_STATUS: u32 = 2;

// ---------------------------------------------------------------------------------------
// Flow and intent bytes

/// How a pairing proceeds, as the client announces it.
#[derive(Clone, Copy, Debug, PartialEq, Eq, Structural)]
pub enum ClientProtocolFlow {
    Pair,
    Denied,
}

/// A flow byte that names no flow.
#[derive(Clone, Copy, Debug, PartialEq, Eq, Structural)]
pub struct ClientProtocolFlowParseError;

impl ClientProtocolFlowParseError {
    /// The message of the error.
    pub fn message(&self) -> (res: &'static str)
        ensures
            res@ == "Received unknown flow value"@,
    {
        "Received unknown flow value"
    }
}

/// The byte of a flow.
pub open spec fn flow_byte(f: ClientProtocolFlow) -> u8 {
    match f {
        ClientProtocolFlow::Pair => 0,
        ClientProtocolFlow::Denied => 1,
    }
}

/// The flow a byte names, if any.
pub open spec fn flow_of_byte(b: u8) -> Option<ClientProtocolFlow> {
    if b == 0 {
        Some(ClientProtocolFlow::Pair)
    } else if b == 1 {
        Some(ClientProtocolFlow::Denied)
    } else {
        None
    }
}

impl ClientProtocolFlow {
    /// Reads a flow byte.
    pub fn try_from_byte(value: u8) -> (res: Result<Self, ClientProtocolFlowParseError>)
        ensures
            res == flow_result(value),
    {
        match value {
            0 => Ok(ClientProtocolFlow::Pair),
            1 => Ok(ClientProtocolFlow::Denied),
            _ => Err(ClientProtocolFlowParseError),
        }
    }

    /// The byte of the flow.
    pub fn to_byte(self) -> (res: u8)
        ensures
            res == flow_byte(self),
    {
        match self {
            ClientProtocolFlow::Pair => 0,
            ClientProtocolFlow::Denied => 1,
        }
    }
}

/// What a client comes for: to pair, or to send files.
#[derive(Clone, Copy, Debug, PartialEq, Eq, Structural)]
pub enum CommunicationIntent {
    Pair,
    Exchange,
}

/// An intent byte that names no intent.
#[derive(Clone, Copy, Debug, PartialEq, Eq, Structural)]
pub struct CommunicationIntentParseError;

impl CommunicationIntentParseError {
    /// The message of the error.
    pub fn message(&self) -> (res: &'static str)
        ensures
            res@ == "Received unknown communication intent"@,
    {
        "Received unknown communication intent"
    }
}

/// The byte of an intent.
pub open spec fn intent_byte(i: CommunicationIntent) -> u8 {
    match i {
        CommunicationIntent::Pair => 0,
        CommunicationIntent::Exchange => 1,
    }
}

/// The intent a byte names, if any.
pub open spec fn intent_of_byte(b: u8) -> Option<CommunicationIntent> {
    if b == 0 {
        Some(CommunicationIntent::Pair)
    } else if b == 1 {
        Some(CommunicationIntent::Exchange)
    } else {
        None
    }
}

impl CommunicationIntent {
    /// Reads an intent byte.
    pub fn try_from_byte(value: u8) -> (res: Result<Self, CommunicationIntentParseError>)
        ensures
            res == intent_result(value),
    {
        match value {
            0 => Ok(CommunicationIntent::Pair),
            1 => Ok(CommunicationIntent::Exchange),
            _ => Err(CommunicationIntentParseError),
        }
    }

    /// The byte of the intent.
    pub fn to_byte(self) -> (res: u8)
        ensures
            res == intent_byte(self),
    {
        match self {
            CommunicationIntent::Pair => 0,
            CommunicationIntent::Exchange => 1,
        }
    }
}

/// The result of reading an intent byte.
pub open spec fn intent_result(b: u8) -> Result<CommunicationIntent, CommunicationIntentParseError> {
    match intent_of_byte(b) {
        Some(i) => Ok(i),
        None => Err(CommunicationIntentParseError),
    }
}

impl TryFrom<u8> for CommunicationIntent {
    type Error = CommunicationIntentParseError;

    fn try_from(value: u8) -> (res: Result<Self, Self::Error>) {
        CommunicationIntent::try_from_byte(value)
    }
}

impl vstd::std_specs::convert::TryFromSpecImpl<u8> for CommunicationIntent {
    open spec fn obeys_try_from_spec() -> bool {
        true
    }

    open spec fn try_from_spec(v: u8) -> Result<Self, Self::Error> {
        intent_result(v)
    }
}

impl From<CommunicationIntent> for u8 {
    fn from(value: CommunicationIntent) -> (res: u8) {
        value.to_byte()
    }
}

impl vstd::std_specs::convert::FromSpecImpl<CommunicationIntent> for u8 {
    open spec fn obeys_from_spec() -> bool {
        true
    }

    open spec fn from_spec(v: CommunicationIntent) -> u8 {
        intent_byte(v)
    }
}

/// The result of reading a flow byte.
pub open spec fn flow_result(b: u8) -> Result<ClientProtocolFlow, ClientProtocolFlowParseError> {
    match flow_of_byte(b) {
        Some(f) => Ok(f),
        None => Err(ClientProtocolFlowParseError),
    }
}

impl TryFrom<u8> for ClientProtocolFlow {
    type Error = ClientProtocolFlowParseError;

    fn try_from(value: u8) -> (res: Result<Self, Self::Error>) {
        ClientProtocolFlow::try_from_byte(value)
    }
}

impl vstd::std_specs::convert::TryFromSpecImpl<u8> for ClientProtocolFlow {
    open spec fn obeys_try_from_spec() -> bool {
        true
    }

    open spec fn try_from_spec(v: u8) -> Result<Self, Self::Error> {
        flow_result(v)
    }
}

impl From<ClientProtocolFlow> for u8 {
    fn from(value: ClientProtocolFlow) -> (res: u8) {
        value.to_byte()
    }
}

impl vstd::std_specs::convert::FromSpecImpl<ClientProtocolFlow> for u8 {
    open spec fn obeys_from_spec() -> bool {
        true
    }

    open spec fn from_spec(v: ClientProtocolFlow) -> u8 {
        flow_byte(v)
    }
}

/// Every intent reads back from its byte, and a byte that reads as an intent is that
/// intent's byte.
pub proof fn law_intent_byte_round_trip(i: CommunicationIntent, b: u8)
    ensures
        intent_of_byte(intent_byte(i)) == Some(i),
        intent_of_byte(b) matches Some(j) ==> intent_byte(j) == b,
{
}

/// Every flow reads back from its byte, and a byte that reads as a flow is that flow's
/// byte.
pub proof fn law_flow_byte_round_trip(f: ClientProtocolFlow, b: u8)
    ensures
        flow_of_byte(flow_byte(f)) == Some(f),
        flow_of_byte(b) matches Some(g) ==> flow_byte(g) == b,
{
}

// ---------------------------------------------------------------------------------------
// Framing: unsigned 64-bit big-endian integers and length-prefixed byte strings

/// The eight bytes of `v`, most significant first.
pub open spec fn u64_be_bytes(v: u64) -> Seq<u8> {
    seq![
        (v >> 56u64) as u8,
        (v >> 48u64) as u8,
        (v >> 40u64) as u8,
        (v >> 32u64) as u8,
        (v >> 24u64) as u8,
        (v >> 16u64) as u8,
        (v >> 8u64) as u8,
        v as u8,
    ]
}

/// The number whose big-endian bytes are the first eight of `b`.
pub open spec fn u64_from_be(b: Seq<u8>) -> u64 {
    ((b[0] as u64) << 56u64) | ((b[1] as u64) << 48u64) | ((b[2] as u64) << 40u64) | ((
    b[3] as u64) << 32u64) | ((b[4] as u64) << 24u64) | ((b[5] as u64) << 16u64) | ((
    b[6] as u64) << 8u64) | (b[7] as u64)
}

/// The big-endian bytes of a number.
pub fn encode_u64_be(v: u64) -> (res: Vec<u8>)
    ensures
        res@ == u64_be_bytes(v),
{
    let mut res: Vec<u8> = Vec::new();
    res.push((v >> 56u64) as u8);
    res.push((v >> 48u64) as u8);
    res.push((v >> 40u64) as u8);
    res.push((v >> 32u64) as u8);
    res.push((v >> 24u64) as u8);
    res.push((v >> 16u64) as u8);
    res.push((v >> 8u64) as u8);
    res.push(v as u8);
    assert(res@ =~= u64_be_bytes(v));
    res
}

/// The number whose big-endian bytes open `b`.
pub fn decode_u64_be(b: &[u8]) -> (res: u64)
    requires
        b@.len() >= 8,
    ensures
        res == u64_from_be(b@),
{
    ((b[0] as u64) << 56u64) | ((b[1] as u64) << 48u64) | ((b[2] as u64) << 40u64) | ((
    b[3] as u64) << 32u64) | ((b[4] as u64) << 24u64) | ((b[5] as u64) << 16u64) | ((
    b[6] as u64) << 8u64) | (b[7] as u64)
}

/// Reading back the bytes of a number gives the number; writing the number that eight
/// bytes hold gives those bytes.
pub proof fn law_u64_be_round_trip(v: u64, b: Seq<u8>)
    ensures
        u64_from_be(u64_be_bytes(v)) == v,
        b.len() == 8 ==> u64_be_bytes(u64_from_be(b)) == b,
{
    let e = u64_be_bytes(v);
    let (e0, e1, e2, e3, e4, e5, e6, e7) = (e[0], e[1], e[2], e[3], e[4], e[5], e[6], e[7]);
    assert(e0 == (v >> 56u64) as u8 && e1 == (v >> 48u64) as u8 && e2 == (v >> 40u64) as u8
        && e3 == (v >> 32u64) as u8 && e4 == (v >> 24u64) as u8 && e5 == (v >> 16u64) as u8
        && e6 == (v >> 8u64) as u8 && e7 == v as u8);
    assert((((e0 as u64) << 56u64) | ((e1 as u64) << 48u64) | ((e2 as u64) << 40u64) | ((
    e3 as u64) << 32u64) | ((e4 as u64) << 24u64) | ((e5 as u64) << 16u64) | ((e6 as u64)
        << 8u64) | (e7 as u64)) == v) by (bit_vector)
        requires
            e0 == (v >> 56u64) as u8 && e1 == (v >> 48u64) as u8 && e2 == (v >> 40u64) as u8
                && e3 == (v >> 32u64) as u8 && e4 == (v >> 24u64) as u8 && e5 == (v
                >> 16u64) as u8 && e6 == (v >> 8u64) as u8 && e7 == v as u8,
    ;
    if b.len() == 8 {
        let (b0, b1, b2, b3, b4, b5, b6, b7) = (b[0], b[1], b[2], b[3], b[4], b[5], b[6], b[7]);
        let w = u64_from_be(b);
        assert(w == ((b0 as u64) << 56u64) | ((b1 as u64) << 48u64) | ((b2 as u64) << 40u64)
            | ((b3 as u64) << 32u64) | ((b4 as u64) << 24u64) | ((b5 as u64) << 16u64) | ((
        b6 as u64) << 8u64) | (b7 as u64));
        assert((w >> 56u64) as u8 == b0 && (w >> 48u64) as u8 == b1 && (w >> 40u64) as u8 == b2
            && (w >> 32u64) as u8 == b3 && (w >> 24u64) as u8 == b4 && (w >> 16u64) as u8
            == b5 && (w >> 8u64) as u8 == b6 && w as u8 == b7) by (bit_vector)
            requires
                w == ((b0 as u64) << 56u64) | ((b1 as u64) << 48u64) | ((b2 as u64) << 40u64)
                    | ((b3 as u64) << 32u64) | ((b4 as u64) << 24u64) | ((b5 as u64) << 16u64)
                    | ((b6 as u64) << 8u64) | (b7 as u64),
        ;
        assert(u64_be_bytes(w) =~= b);
    }
}

/// A length-prefixed frame: the payload's length as a big-endian 64-bit number, then the
/// payload.
pub open spec fn frame(payload: Seq<u8>) -> Seq<u8> {
    u64_be_bytes(payload.len() as u64) + payload
}

/// The payload of the frame that opens `b`, with the number of bytes the frame takes;
/// none when `b` is too short to hold the length or the payload it announces.
pub open spec fn parse_frame(b: Seq<u8>) -> Option<(Seq<u8>, int)> {
    if b.len() < 8 {
        None
    } else {
        let n = u64_from_be(b);
        if n > b.len() - 8 {
            None
        } else {
            Some((b.subrange(8, 8 + n), 8 + n))
        }
    }
}

fn copy_range(b: &[u8], from: usize, to: usize) -> (res: Vec<u8>)
    requires
        from <= to <= b@.len(),
    ensures
        res@ == b@.subrange(from as int, to as int),
{
    let mut res: Vec<u8> = Vec::new();
    let mut i = from;
    while i < to
        invariant
            from <= i <= to <= b@.len(),
            res@ == b@.subrange(from as int, i as int),
        decreases to - i,
    {
        res.push(b[i]);
        assert(b@.subrange(from as int, i + 1) =~= b@.subrange(from as int, i as int).push(b@[i as int]));
        i = i + 1;
    }
    res
}

/// Frames a payload.
pub fn encode_frame(payload: &[u8]) -> (res: Vec<u8>)
    ensures
        res@ == frame(payload@),
{
    let mut res = encode_u64_be(payload.len() as u64);
    let mut i: usize = 0;
    let ghost head = res@;
    while i < payload.len()
        invariant
            i <= payload@.len(),
            res@ == head + payload@.subrange(0, i as int),
        decreases payload@.len() - i,
    {
        res.push(payload[i]);
        assert(payload@.subrange(0, i + 1) =~= payload@.subrange(0, i as int).push(payload@[i as int]));
        i = i + 1;
    }
    assert(payload@.subrange(0, payload@.len() as int) =~= payload@);
    res
}

/// Reads the frame that opens `b`: its payload and the number of bytes it takes.
pub fn decode_frame(b: &[u8]) -> (res: Option<(Vec<u8>, usize)>)
    ensures
        match parse_frame(b@) {
            None => res is None,
            Some((p, n)) => res matches Some((q, m)) && q@ == p && m == n,
        },
{
    if b.len() < 8 {
        return None;
    }
    let n = decode_u64_be(b);
    if n > (b.len() - 8) as u64 {
        return None;
    }
    let end = 8 + n as usize;
    let payload = copy_range(b, 8, end);
    Some((payload, end))
}

/// A framed payload reads back whole, whatever follows it.
pub proof fn law_frame_round_trip(payload: Seq<u8>, rest: Seq<u8>)
    requires
        payload.len() <= u64::MAX,
    ensures
        parse_frame(frame(payload) + rest) == Some((payload, 8 + payload.len() as int)),
{
    let b = frame(payload) + rest;
    law_u64_be_round_trip(payload.len() as u64, Seq::<u8>::empty());
    assert(b.subrange(0, 8) =~= u64_be_bytes(payload.len() as u64));
    assert(u64_from_be(b) == u64_from_be(b.subrange(0, 8)));
    assert(b.subrange(8, 8 + payload.len() as int) =~= payload);
}

/// The frame that opens the files stream: the number of files announced.
pub fn file_count_frame(count: usize) -> (res: Vec<u8>)
    ensures
        res@ == u64_be_bytes(count as u64),
{
    encode_u64_be(count as u64)
}

// ---------------------------------------------------------------------------------------
// Decisions of the client side

/// A client with no files to send comes to pair; one with files comes to exchange them.
pub fn client_intent(file_count: usize) -> (res: CommunicationIntent)
    ensures
        res == (if file_count == 0 {
            CommunicationIntent::Pair
        } else {
            CommunicationIntent::Exchange
        }),
{
    if file_count == 0 {
        CommunicationIntent::Pair
    } else {
        CommunicationIntent::Exchange
    }
}

/// The server a client connects to: the peer's IPv4 address at the server port.
pub fn client_socket_address(addr: IpAddress) -> (res: SocketAddress)
    requires
        addr is V4,
    ensures
        res.ip == addr,
        res.port == SERVER_PORT,
{
    SocketAddress { ip: addr, port: SERVER_PORT }
}

/// Whether the byte the server sent lets the client go on.
pub fn server_signaled_proceed(byte: u8) -> (res: bool)
    ensures
        res == (byte == STREAM_PROCEED_BYTE),
{
    byte == STREAM_PROCEED_BYTE
}

/// Why the server stopped a client's run.
#[derive(Clone, Copy, Debug, PartialEq, Eq, Structural)]
pub enum ClientRunError {
    /// The server did not let the client go on after its intent.
    IntentRefused,
    /// The server did not acknowledge the files it was sent.
    FilesRefused,
}

impl ClientRunError {
    /// The text of the error the run fails with.
    pub fn message(&self) -> (res: &'static str)
        ensures
            match *self {
                ClientRunError::IntentRefused => res@ == "server indicated error during intent step"@,
                ClientRunError::FilesRefused => res@ == "server indicated error after files sending"@,
            },
    {
        match self {
            ClientRunError::IntentRefused => "server indicated error during intent step",
            ClientRunError::FilesRefused => "server indicated error after files sending",
        }
    }
}

/// The client's reading of the server's answer to its intent: it goes on only on the
/// proceed byte.
pub fn intent_answer(byte: u8) -> (res: Result<(), ClientRunError>)
    ensures
        res == (if byte == STREAM_PROCEED_BYTE {
            Ok(())
        } else {
            Err(ClientRunError::IntentRefused)
        }),
{
    if server_signaled_proceed(byte) {
        Ok(())
    } else {
        Err(ClientRunError::IntentRefused)
    }
}

/// The client's reading of the server's answer after the files: the exchange succeeded
/// only on the proceed byte.
pub fn files_answer(byte: u8) -> (res: Result<(), ClientRunError>)
    ensures
        res == (if byte == STREAM_PROCEED_BYTE {
            Ok(())
        } else {
            Err(ClientRunError::FilesRefused)
        }),
{
    if server_signaled_proceed(byte) {
        Ok(())
    } else {
        Err(ClientRunError::FilesRefused)
    }
}

/// What a client run that went through gives back: the identity the server presented
/// after pairing (no files), nothing after sending files.
pub fn client_run_result(file_count: usize, server: ClientId) -> (res: Option<ClientId>)
    ensures
        res == (if file_count == 0 {
            Some(server)
        } else {
            None
        }),
{
    if file_count == 0 {
        Some(server)
    } else {
        None
    }
}

/// The names of the files to send, as bytes: none for an entry that is no regular file or
/// has no file name.
pub open spec fn name_views(names: Seq<Option<Vec<u8>>>) -> Seq<Option<Seq<u8>>> {
    names.map_values(
        |o: Option<Vec<u8>>|
            match o {
                Some(v) => Some(v@),
                None => None,
            },
    )
}

/// The file streams a client opens, in order: for each entry that names a file, its
/// position in the list and the header frame (its framed name) that opens its stream.
pub open spec fn upload_headers(names: Seq<Option<Seq<u8>>>) -> Seq<(int, Seq<u8>)>
    decreases names.len(),
{
    if names.len() == 0 {
        Seq::empty()
    } else {
        let rest = upload_headers(names.drop_last());
        match names.last() {
            Some(n) => rest.push(((names.len() - 1) as int, frame(n))),
            None => rest,
        }
    }
}

proof fn lemma_upload_header_entry(names: Seq<Option<Seq<u8>>>, k: int)
    requires
        0 <= k < upload_headers(names).len(),
    ensures
        0 <= upload_headers(names)[k].0 < names.len(),
        names[upload_headers(names)[k].0] == Some(
            names[upload_headers(names)[k].0]->0,
        ),
        upload_headers(names)[k].1 == frame(names[upload_headers(names)[k].0]->0),
    decreases names.len(),
{
    let rest = upload_headers(names.drop_last());
    if k < rest.len() {
        lemma_upload_header_entry(names.drop_last(), k);
        match names.last() {
            Some(n) => assert(upload_headers(names)[k] == rest[k]),
            None => {},
        }
    }
}

/// Each file stream a client opens reads back, at the server, as the name of the file it
/// carries, and the bytes after that frame are the file's bytes whole.
pub proof fn law_upload_stream_reads_back(
    names: Seq<Option<Seq<u8>>>,
    k: int,
    content: Seq<u8>,
)
    requires
        0 <= k < upload_headers(names).len(),
        forall|j: int| 0 <= j < names.len() && names[j] is Some ==> #[trigger] names[j]->0.len()
            <= u64::MAX,
    ensures
        ({
            let (j, header) = upload_headers(names)[k];
            let name = names[j]->0;
            &&& 0 <= j < names.len()
            &&& names[j] == Some(name)
            &&& parse_frame(header + content) == Some((name, 8 + name.len() as int))
            &&& (header + content).subrange(8 + name.len() as int, (header + content).len() as int)
                == content
        }),
{
    lemma_upload_header_entry(names, k);
    let (j, header) = upload_headers(names)[k];
    let name = names[j]->0;
    assert(name.len() <= u64::MAX);
    law_frame_round_trip(name, content);
    let b = header + content;
    assert(b.subrange(8 + name.len() as int, b.len() as int) =~= content);
}

proof fn lemma_upload_headers_shape(v: Seq<Option<Seq<u8>>>)
    ensures
        forall|j: int|
            0 <= j < v.len() && v[j] is Some ==> exists|k: int|
                0 <= k < upload_headers(v).len() && #[trigger] upload_headers(v)[k] == (
                    j,
                    frame(v[j]->0),
                ),
        forall|k1: int, k2: int|
            0 <= k1 < k2 < upload_headers(v).len() ==> upload_headers(v)[k1].0
                < upload_headers(v)[k2].0,
        forall|k: int|
            0 <= k < upload_headers(v).len() ==> 0 <= #[trigger] upload_headers(v)[k].0 < v.len(),
    decreases v.len(),
{
    if v.len() > 0 {
        let p = v.drop_last();
        lemma_upload_headers_shape(p);
        let rest = upload_headers(p);
        let all = upload_headers(v);
        match v.last() {
            Some(n) => {
                assert(all == rest.push(((v.len() - 1) as int, frame(n))));
                assert forall|k: int| 0 <= k < rest.len() implies all[k] == rest[k] by {}
            },
            None => {
                assert(all == rest);
            },
        }
        assert forall|j: int| 0 <= j < v.len() && v[j] is Some implies exists|k: int|
            0 <= k < all.len() && #[trigger] all[k] == (j, frame(v[j]->0)) by {
            if j < v.len() - 1 {
                assert(p[j] == v[j]);
                let k = choose|k: int| 0 <= k < rest.len() && #[trigger] rest[k] == (j, frame(p[j]->0));
                assert(all[k] == rest[k]);
            } else {
                assert(all[rest.len() as int] == (j, frame(v[j]->0)));
            }
        }
        assert forall|k: int| 0 <= k < all.len() implies 0 <= #[trigger] all[k].0 < v.len() by {
            if k < rest.len() {
                assert(all[k] == rest[k]);
                assert(0 <= rest[k].0 < p.len());
            }
        }
        assert forall|k1: int, k2: int| 0 <= k1 < k2 < all.len() implies all[k1].0 < all[k2].0 by {
            assert(all[k1] == rest[k1]);
            if k2 < rest.len() {
                assert(all[k2] == rest[k2]);
            } else {
                assert(0 <= rest[k1].0 < p.len());
            }
        }
    }
}

/// The file streams of an upload are exactly the entries that name a file, in list order:
/// each entry naming a file gets a stream whose header is that entry's position and its
/// framed name, and each stream belongs to such an entry.
pub proof fn law_upload_sends_every_named_file(
    names: Seq<Option<Vec<u8>>>,
    headers: Seq<(usize, Vec<u8>)>,
)
    requires
        header_views(headers) == upload_headers(name_views(names)),
    ensures
        forall|j: int|
            0 <= j < names.len() && names[j] is Some ==> exists|k: int|
                0 <= k < headers.len() && #[trigger] headers[k].0 == j && headers[k].1@ == frame(
                    names[j]->0@,
                ),
        forall|k: int|
            0 <= k < headers.len() ==> 0 <= #[trigger] headers[k].0 < names.len() && names[headers[k].0 as int] is Some
                && headers[k].1@ == frame(names[headers[k].0 as int]->0@),
        forall|k1: int, k2: int| 0 <= k1 < k2 < headers.len() ==> headers[k1].0 < headers[k2].0,
{
    let v = name_views(names);
    lemma_upload_headers_shape(v);
    assert forall|j: int| 0 <= j < names.len() implies #[trigger] v[j] == (match names[j] {
        Some(x) => Some(x@),
        None => None,
    }) by {}
    assert forall|k: int| 0 <= k < headers.len() implies (#[trigger] headers[k]).0 as int
        == upload_headers(v)[k].0 && headers[k].1@ == upload_headers(v)[k].1 by {
        assert(header_views(headers)[k] == upload_headers(v)[k]);
    }
    assert forall|j: int| 0 <= j < names.len() && names[j] is Some implies exists|k: int|
        0 <= k < headers.len() && #[trigger] headers[k].0 == j && headers[k].1@ == frame(
            names[j]->0@,
        ) by {
        assert(v[j] == Some(names[j]->0@));
        let k = choose|k: int|
            0 <= k < upload_headers(v).len() && #[trigger] upload_headers(v)[k] == (j, frame(v[j]->0));
        assert(headers[k].0 == j);
    }
    assert forall|k: int| 0 <= k < headers.len() implies 0 <= #[trigger] headers[k].0 < names.len()
        && names[headers[k].0 as int] is Some && headers[k].1@ == frame(
        names[headers[k].0 as int]->0@,
    ) by {
        lemma_upload_header_entry(v, k);
        let j = upload_headers(v)[k].0;
        assert(v[j] == (match names[j] {
            Some(x) => Some(x@),
            None => None,
        }));
    }
    assert forall|k1: int, k2: int| 0 <= k1 < k2 < headers.len() implies headers[k1].0 < headers[k2].0 by {
        assert(headers[k1].0 as int == upload_headers(v)[k1].0);
        assert(headers[k2].0 as int == upload_headers(v)[k2].0);
    }
}

/// The view of planned headers.
pub open spec fn header_views(h: Seq<(usize, Vec<u8>)>) -> Seq<(int, Seq<u8>)> {
    h.map_values(|e: (usize, Vec<u8>)| (e.0 as int, e.1@))
}

/// What a client sends to transfer files: the count frame, which announces every entry
/// of the list (also those that are skipped), then one stream per named file.
#[derive(Debug)]
pub struct UploadPlan {
    pub count_frame: Vec<u8>,
    pub headers: Vec<(usize, Vec<u8>)>,
}

/// The upload of a list of files, given for each entry its name when it is a regular
/// file with a name.
pub fn upload_plan(names: &Vec<Option<Vec<u8>>>) -> (res: UploadPlan)
    ensures
        res.count_frame@ == u64_be_bytes(names@.len() as u64),
        header_views(res.headers@) == upload_headers(name_views(names@)),
        forall|j: int|
            0 <= j < names@.len() && names@[j] is Some ==> exists|k: int|
                0 <= k < res.headers@.len() && #[trigger] res.headers@[k].0 == j
                    && res.headers@[k].1@ == frame(names@[j]->0@),
        forall|k: int|
            0 <= k < res.headers@.len() ==> 0 <= #[trigger] res.headers@[k].0 < names@.len()
                && names@[res.headers@[k].0 as int] is Some && res.headers@[k].1@ == frame(
                names@[res.headers@[k].0 as int]->0@,
            ),
{
    let count_frame = file_count_frame(names.len());
    let mut headers: Vec<(usize, Vec<u8>)> = Vec::new();
    let mut i: usize = 0;
    while i < names.len()
        invariant
            i <= names@.len(),
            header_views(headers@) == upload_headers(name_views(names@).take(i as int)),
        decreases names@.len() - i,
    {
        let ghost before = headers@;
        let ghost prefix = name_views(names@).take(i as int + 1);
        assert(prefix.drop_last() =~= name_views(names@).take(i as int));
        match &names[i] {
            Some(name) => {
                let header = encode_frame(name.as_slice());
                headers.push((i, header));
                assert(header_views(headers@) =~= header_views(before).push((i as int, frame(name@))));
            },
            None => {},
        }
        i = i + 1;
    }
    assert(name_views(names@).take(names@.len() as int) =~= name_views(names@));
    proof {
        law_upload_sends_every_named_file(names@, headers@);
    }
    UploadPlan { count_frame, headers }
}

// ---------------------------------------------------------------------------------------
// Decisions of the server side

/// The byte the server answers the intent step with.
pub fn intent_reply_byte(accepted: bool) -> (res: u8)
    ensures
        res == (if accepted {
            STREAM_PROCEED_BYTE
        } else {
            STREAM_CLOSE_BYTE
        }),
{
    if accepted {
        STREAM_PROCEED_BYTE
    } else {
        STREAM_CLOSE_BYTE
    }
}

/// The identity the server keeps of a client after the intent step: none for a client
/// whose fingerprint is among the paired ones, the client's identity otherwise.
pub fn server_pairing_signature(
    intent: CommunicationIntent,
    client: ClientId,
    paired_ids: &StringSet,
) -> (res: Option<ClientId>)
    ensures
        res == (if paired_ids@.contains(client.id@) {
            None
        } else {
            Some(client)
        }),
{
    let is_paired = paired_ids.contains(&client.id);
    match intent {
        CommunicationIntent::Pair if is_paired => None,
        CommunicationIntent::Exchange if is_paired => None,
        _ => Some(client),
    }
}

/// Why the server closes a connection.
#[derive(Clone, Copy, Debug, PartialEq, Eq, Structural)]
pub enum CloseReason {
    Paired,
    PairingDenied,
    NeedPairing,
    ReceivedAllFiles,
}

impl CloseReason {
    /// The reason as the server writes it into the close frame.
    pub fn text(&self) -> (res: &'static str)
        ensures
            match *self {
                CloseReason::Paired => res@ == "paired"@,
                CloseReason::PairingDenied => res@ == "pairing denied"@,
                CloseReason::NeedPairing => res@ == "need pairing"@,
                CloseReason::ReceivedAllFiles => res@ == "received all files"@,
            },
    {
        match self {
            CloseReason::Paired => "paired",
            CloseReason::PairingDenied => "pairing denied",
            CloseReason::NeedPairing => "need pairing",
            CloseReason::ReceivedAllFiles => "received all files",
        }
    }
}

/// How the server closes a connection: the code and the reason.
#[derive(Clone, Copy, Debug, PartialEq, Eq, Structural)]
pub struct ConnectionClose {
    pub code: u32,
    pub reason: CloseReason,
}

/// What the server does after the intent step.
#[derive(Debug)]
pub enum ServerStep {
    /// Close the connection.
    Close(ConnectionClose),
    /// Ask the user whether to pair with this client, then close as
    /// `close_after_pairing_answer` says.
    AskPairing(ClientId),
    /// Receive the client's files, then close as `close_after_files` says.
    ReceiveFiles,
}

/// The server's step for an intent and the identity kept of the client.
pub fn server_step(intent: CommunicationIntent, signature: Option<ClientId>) -> (res: ServerStep)
    ensures
        match (intent, signature) {
            (CommunicationIntent::Pair, None) => res == ServerStep::Close(
                ConnectionClose { code: OK_STATUS, reason: CloseReason::Paired },
            ),
            (CommunicationIntent::Pair, Some(c)) => res == ServerStep::AskPairing(c),
            (CommunicationIntent::Exchange, None) => res == ServerStep::Close(
                ConnectionClose {
                    code: PAIRING_REQUIRED_GOT_NO_ID_STATUS,
                    reason: CloseReason::NeedPairing,
                },
            ),
            (CommunicationIntent::Exchange, Some(_)) => res == ServerStep::ReceiveFiles,
        },
{
    match (intent, signature) {
        (CommunicationIntent::Pair, None) => ServerStep::Close(
            ConnectionClose { code: OK_STATUS, reason: CloseReason::Paired },
        ),
        (CommunicationIntent::Pair, Some(signature)) => ServerStep::AskPairing(signature),
        (CommunicationIntent::Exchange, None) => ServerStep::Close(
            ConnectionClose {
                code: PAIRING_REQUIRED_GOT_NO_ID_STATUS,
                reason: CloseReason::NeedPairing,
            },
        ),
        (CommunicationIntent::Exchange, Some(_)) => ServerStep::ReceiveFiles,
    }
}

/// How the server closes a pairing connection once the user has answered.
pub fn close_after_pairing_answer(accepted: bool) -> (res: ConnectionClose)
    ensures
        res == (if accepted {
            ConnectionClose { code: OK_STATUS, reason: CloseReason::Paired }
        } else {
            ConnectionClose { code: PAIRING_DENIED_STATUS, reason: CloseReason::PairingDenied }
        }),
{
    if accepted {
        ConnectionClose { code: OK_STATUS, reason: CloseReason::Paired }
    } else {
        ConnectionClose { code: PAIRING_DENIED_STATUS, reason: CloseReason::PairingDenied }
    }
}

/// How the server closes a connection once it has received all files.
pub fn close_after_files() -> (res: ConnectionClose)
    ensures
        res == (ConnectionClose { code: OK_STATUS, reason: CloseReason::ReceivedAllFiles }),
{
    ConnectionClose { code: OK_STATUS, reason: CloseReason::ReceivedAllFiles }
}

/// The name of the directory, inside the user's download directory, that receives files.
pub const DOWNLOAD_SUBDIR: &'static str = "svudko";

/// Where a received file is written: the name the peer sent, joined to the download
/// directory as `Path::join` joins them.
pub fn received_file_path(download_dir: &str, filename: &str) -> (res: String)
    ensures
        res@ == join_path(download_dir@, filename@),
{
    join_path_exec(download_dir, filename)
}

/// The directory that receives files, inside the user's download directory.
pub fn download_directory(user_downloads: &str) -> (res: String)
    ensures
        res@ == join_path(user_downloads@, DOWNLOAD_SUBDIR@),
{
    join_path_exec(user_downloads, DOWNLOAD_SUBDIR)
}

} // verus!
