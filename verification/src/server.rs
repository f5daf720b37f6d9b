//! The address that the runtime serves on, the record of the events that
//! it has published, and what it answers to requests and to the frames of
//! the clients of its event stream.

use vstd::prelude::*;
use crate::config::FrameOSConfig;
use vstd::utf8::encode_utf8;
use crate::codec::{base64_standard, base64_text, sha1, sha1_digest};
use crate::calendar::optional_text;
use crate::json::{items_model, json_text, to_text, JsonModel, JsonNumber, JsonObject, JsonValue};
use crate::text::{chars_of, contains_sub, decimal_text, has_sub, is_blank, same_text, split_first,
    split_once, starts_with, str_is_blank, string_of, texts, trim, trimmed, u64_to_text};

verus! {

/// How many of the latest event names the record keeps.
pub const EVENT_HISTORY_LIMIT: usize = 256;

/// The path under which the event stream is served.
pub const WEBSOCKET_PATH: &'static str = "/ws/events";

/// The host and port that the runtime serves on.
#[derive(Debug, Clone)]
pub struct Server {
    host: String,
    port: u16,
}

/// What the health endpoint reports of the runtime's load.
#[derive(Debug, Clone)]
pub struct ServerHealthSnapshot {
    pub apps_loaded: usize,
    pub scenes_loaded: usize,
    pub metrics_interval_seconds: u64,
}

impl Server {
    /// The configured host; it may be empty.
    pub closed spec fn host(&self) -> Seq<char> {
        self.host@
    }

    /// The configured port.
    pub closed spec fn port(&self) -> u16 {
        self.port
    }

    /// Takes host and port from the configuration.
    pub fn from_config(config: &FrameOSConfig) -> (out: Self)
        ensures
            out.host() == config.server_host@,
            out.port() == config.server_port,
    {
        Self { host: config.server_host.clone(), port: config.server_port }
    }

    /// Host and port as configured, with a colon between them.
    pub fn endpoint(&self) -> (out: String)
        ensures
            out@ == self.host() + ":"@ + decimal_text(self.port() as nat),
    {
        let port = u64_to_text(self.port as u64);
        let mut out = self.host.clone();
        out.append(":");
        out.append(port.as_str());
        out
    }

    /// The address to listen on: as the endpoint, but on the loopback
    /// address where no host is configured.
    pub fn bind_addr(&self) -> (out: String)
        ensures
            out@ == (if is_blank(self.host()) {
                "127.0.0.1"@
            } else {
                self.host()
            }) + ":"@ + decimal_text(self.port() as nat),
    {
        let port = u64_to_text(self.port as u64);
        let mut out = if str_is_blank(self.host.as_str()) {
            "127.0.0.1".to_owned()
        } else {
            self.host.clone()
        };
        out.append(":");
        out.append(port.as_str());
        out
    }
}

/// The text that every WebSocket handshake adds to the key of the client.
pub const WEBSOCKET_MAGIC_GUID: &'static str = "258EAFA5-E914-47DA-95CA-C5AB0DC85B11";

/// The key with which a server accepts a WebSocket handshake: the SHA-1
/// digest of the client's key and the magic text, in base64.
pub open spec fn accept_key(key: Seq<char>) -> Seq<char> {
    base64_text(sha1_digest(encode_utf8(key + WEBSOCKET_MAGIC_GUID@)))
}

/// Answers the key of a WebSocket handshake.
pub fn websocket_accept_key(key: &str) -> (out: String)
    ensures
        out@ == accept_key(key@),
{
    let mut joined = key.to_owned();
    joined.append(WEBSOCKET_MAGIC_GUID);
    let digest = sha1(joined.as_str().as_bytes());
    base64_standard(digest.as_slice())
}

/// The record of what was published, and the clients that listen.
#[derive(Debug, Clone)]
pub struct EventFanout {
    published_total: u64,
    recent_events: Vec<String>,
    clients: Vec<bool>,
}

/// The history after one more event: the latest `EVENT_HISTORY_LIMIT` names.
pub open spec fn history_after(recent: Seq<Seq<char>>, name: Seq<char>) -> Seq<Seq<char>> {
    if recent.len() + 1 > EVENT_HISTORY_LIMIT {
        recent.push(name).drop_first()
    } else {
        recent.push(name)
    }
}

/// How many of the flags are set.
pub open spec fn count_set(flags: Seq<bool>) -> nat
    decreases flags.len(),
{
    if flags.len() == 0 {
        0
    } else {
        count_set(flags.drop_last()) + if flags.last() {
            1nat
        } else {
            0nat
        }
    }
}

/// The payload that is sent to the clients for one event.
pub open spec fn event_payload(name: Seq<char>, timestamp: JsonValue, fields: JsonValue) -> Seq<char> {
    json_text(
        JsonModel::Object(
            Map::<Seq<char>, JsonModel>::empty().insert("event"@, JsonModel::Str(name)).insert(
                "timestamp"@,
                timestamp@,
            ).insert("fields"@, fields@),
        ),
    )
}

impl EventFanout {
    /// How many events were published, as far as 64 bits count.
    pub closed spec fn total(&self) -> u64 {
        self.published_total
    }

    /// The names of the latest events, the oldest first.
    pub closed spec fn history(&self) -> Seq<Seq<char>> {
        texts(self.recent_events@)
    }

    /// For each client that ever registered, whether it still listens.
    pub closed spec fn listeners(&self) -> Seq<bool> {
        self.clients@
    }

    /// A record of nothing, without clients.
    pub fn new() -> (out: Self)
        ensures
            out.total() == 0,
            out.history().len() == 0,
            out.listeners().len() == 0,
    {
        Self { published_total: 0, recent_events: Vec::new(), clients: Vec::new() }
    }

    /// Records that an event was published.
    pub fn publish(&mut self, event_name: &str)
        ensures
            final(self).total() == (if old(self).total() == u64::MAX {
                u64::MAX
            } else {
                (old(self).total() + 1) as u64
            }),
            final(self).history() == history_after(old(self).history(), event_name@),
            final(self).listeners() == old(self).listeners(),
    {
        if self.published_total < u64::MAX {
            self.published_total = self.published_total + 1;
        }
        let owned = event_name.to_owned();
        self.recent_events.push(owned);
        if self.recent_events.len() > EVENT_HISTORY_LIMIT {
            let ghost before = self.recent_events@;
            self.recent_events.remove(0);
        }
    }

    /// Records that an event was published, and writes the payload that
    /// tells the clients of it. The time of the event is handed in.
    pub fn publish_with_fields(&mut self, event_name: &str, timestamp: JsonValue, fields: JsonValue) -> (out:
        String)
        ensures
            out@ == event_payload(event_name@, timestamp, fields),
            final(self).total() == (if old(self).total() == u64::MAX {
                u64::MAX
            } else {
                (old(self).total() + 1) as u64
            }),
            final(self).history() == history_after(old(self).history(), event_name@),
            final(self).listeners() == old(self).listeners(),
    {
        let mut payload = JsonObject::new();
        payload.insert("event".to_owned(), JsonValue::Str(event_name.to_owned()));
        payload.insert("timestamp".to_owned(), timestamp);
        payload.insert("fields".to_owned(), fields);
        self.publish(event_name);
        to_text(&JsonValue::Object(payload))
    }

    /// How many events were published.
    pub fn published_total(&self) -> (out: u64)
        ensures
            out == self.total(),
    {
        self.published_total
    }

    /// The names of the latest events, the oldest first.
    pub fn recent_events(&self) -> (out: Vec<String>)
        ensures
            texts(out@) == self.history(),
    {
        let mut out: Vec<String> = Vec::new();
        let mut i: usize = 0;
        while i < self.recent_events.len()
            invariant
                i <= self.recent_events.len(),
                texts(out@) == texts(self.recent_events@).take(i as int),
            decreases self.recent_events.len() - i,
        {
            let name = self.recent_events[i].clone();
            proof {
                let all = texts(self.recent_events@);
                assert(all.take(i + 1) == all.take(i as int).push(all[i as int]));
            }
            out.push(name);
            i += 1;
        }
        out
    }

    /// Takes in a client and says which place it has.
    pub fn register_websocket_client(&mut self) -> (place: usize)
        ensures
            place == old(self).listeners().len(),
            final(self).listeners() == old(self).listeners().push(true),
            final(self).total() == old(self).total(),
            final(self).history() == old(self).history(),
    {
        self.clients.push(true);
        self.clients.len() - 1
    }

    /// Notes that the client at a place listens no more.
    pub fn drop_websocket_client(&mut self, place: usize)
        ensures
            place < old(self).listeners().len() ==> final(self).listeners() == old(
                self,
            ).listeners().update(place as int, false),
            place >= old(self).listeners().len() ==> final(self).listeners() == old(
                self,
            ).listeners(),
            final(self).total() == old(self).total(),
            final(self).history() == old(self).history(),
    {
        if place < self.clients.len() {
            self.clients.set(place, false);
        }
    }

    /// How many clients listen.
    pub fn websocket_client_count(&self) -> (out: usize)
        ensures
            out == count_set(self.listeners()),
    {
        let mut count: usize = 0;
        let mut i: usize = 0;
        while i < self.clients.len()
            invariant
                i <= self.clients.len(),
                count <= i,
                count == count_set(self.clients@.take(i as int)),
            decreases self.clients.len() - i,
        {
            proof {
                assert(self.clients@.take(i + 1).drop_last() == self.clients@.take(i as int));
            }
            if self.clients[i] {
                count += 1;
            }
            i += 1;
        }
        assert(self.clients@.take(self.clients.len() as int) == self.clients@);
        count
    }
}

/// A frame that a WebSocket client sent.
#[derive(Debug, Clone, PartialEq, Eq)]
pub struct ClientFrame {
    pub fin: bool,
    pub opcode: u8,
    pub payload: Vec<u8>,
}

/// What the bytes at the front of a buffer are.
#[derive(Debug, Clone, PartialEq, Eq)]
pub enum FrameRead {
    /// A whole frame, and how many bytes it took.
    Frame(ClientFrame, usize),
    /// The beginning of a frame; more bytes are needed.
    Incomplete,
    /// No frame that is accepted.
    Invalid(&'static str),
}

/// The length of the payload that the header of a frame announces, and how
/// many bytes the header has before the mask; none where the header
/// announces a payload of more than 16 bits.
pub open spec fn announced(bytes: Seq<u8>) -> Option<(int, int)> {
    let short = (bytes[1] & 0x7F) as int;
    if short <= 125 {
        Some((short, 2int))
    } else if short == 126 {
        Some((bytes[2] as int * 256 + bytes[3] as int, 4int))
    } else {
        None
    }
}

/// The payload of a frame as the client meant it: byte `i` with byte
/// `i % 4` of the mask taken off.
pub open spec fn unmasked(masked: Seq<u8>, mask: Seq<u8>) -> Seq<u8> {
    Seq::new(masked.len(), |i: int| masked[i] ^ mask[i % 4])
}

/// What the bytes at the front of a buffer are: a frame of a client has
/// two bytes of header, two more for a payload of 126 bytes or more, four
/// bytes of mask, and the payload. A client has to mask its frames.
pub open spec fn frame_read(bytes: Seq<u8>) -> FrameReadModel {
    if bytes.len() < 2 {
        FrameReadModel::Incomplete
    } else if bytes[1] & 0x80 == 0 {
        FrameReadModel::Invalid("client frames must be masked"@)
    } else if (bytes[1] & 0x7F) as int == 126 && bytes.len() < 4 {
        FrameReadModel::Incomplete
    } else {
        match announced(bytes) {
            None => FrameReadModel::Invalid("unsupported websocket frame size"@),
            Some((length, header)) => if bytes.len() < header + 4 + length {
                FrameReadModel::Incomplete
            } else {
                FrameReadModel::Frame {
                    fin: bytes[0] & 0x80 != 0,
                    opcode: bytes[0] & 0x0F,
                    payload: unmasked(
                        bytes.subrange(header + 4, header + 4 + length),
                        bytes.subrange(header, header + 4),
                    ),
                    taken: header + 4 + length,
                }
            },
        }
    }
}

/// The model of a [`FrameRead`].
pub ghost enum FrameReadModel {
    Frame { fin: bool, opcode: u8, payload: Seq<u8>, taken: int },
    Incomplete,
    Invalid(Seq<char>),
}

impl View for FrameRead {
    type V = FrameReadModel;

    open spec fn view(&self) -> FrameReadModel {
        match self {
            FrameRead::Frame(frame, taken) => FrameReadModel::Frame {
                fin: frame.fin,
                opcode: frame.opcode,
                payload: frame.payload@,
                taken: *taken as int,
            },
            FrameRead::Incomplete => FrameReadModel::Incomplete,
            FrameRead::Invalid(why) => FrameReadModel::Invalid(why@),
        }
    }
}

/// Reads the frame of a client from the front of a buffer.
pub fn read_client_frame(bytes: &Vec<u8>) -> (out: FrameRead)
    ensures
        out@ == frame_read(bytes@),
{
    if bytes.len() < 2 {
        return FrameRead::Incomplete;
    }
    let fin = bytes[0] & 0x80 != 0;
    let opcode = bytes[0] & 0x0F;
    if bytes[1] & 0x80 == 0 {
        return FrameRead::Invalid("client frames must be masked");
    }
    let second = bytes[1];
    let short = second & 0x7F;
    let (length, header): (usize, usize) = if short <= 125 {
        (short as usize, 2)
    } else if short == 126 {
        if bytes.len() < 4 {
            return FrameRead::Incomplete;
        }
        ((bytes[2] as usize) * 256 + (bytes[3] as usize), 4)
    } else {
        return FrameRead::Invalid("unsupported websocket frame size");
    };
    if bytes.len() < header + 4 + length {
        return FrameRead::Incomplete;
    }
    let mut payload: Vec<u8> = Vec::new();
    let ghost masked = bytes@.subrange(header + 4, header + 4 + length);
    let ghost mask = bytes@.subrange(header as int, header + 4);
    let mut i: usize = 0;
    while i < length
        invariant
            i <= length,
            header + 4 + length <= bytes.len(),
            masked == bytes@.subrange(header + 4, header + 4 + length),
            mask == bytes@.subrange(header as int, header + 4),
            payload@.len() == i,
            forall|j: int| 0 <= j < i ==> payload@[j] == masked[j] ^ mask[j % 4],
        decreases length - i,
    {
        let byte = bytes[header + 4 + i] ^ bytes[header + (i % 4)];
        payload.push(byte);
        i += 1;
    }
    assert(payload@ =~= unmasked(masked, mask));
    FrameRead::Frame(ClientFrame { fin, opcode, payload }, header + 4 + length)
}

/// The frame that the server sends: it is final, not masked, and holds no
/// more than 125 bytes.
pub open spec fn server_frame(opcode: u8, payload: Seq<u8>) -> Option<Seq<u8>> {
    if payload.len() > 125 {
        None
    } else {
        Some(seq![0x80u8 | (opcode & 0x0F), payload.len() as u8] + payload)
    }
}

/// Writes a frame of the server.
pub fn write_ws_control_frame(opcode: u8, payload: &Vec<u8>) -> (out: Option<Vec<u8>>)
    ensures
        match out {
            Some(frame) => server_frame(opcode, payload@) == Some(frame@),
            None => server_frame(opcode, payload@) is None,
        },
{
    if payload.len() > 125 {
        return None;
    }
    let mut frame: Vec<u8> = Vec::new();
    frame.push(0x80u8 | (opcode & 0x0F));
    frame.push(payload.len() as u8);
    let mut i: usize = 0;
    while i < payload.len()
        invariant
            i <= payload.len(),
            frame@ == seq![0x80u8 | (opcode & 0x0F), payload.len() as u8] + payload@.take(i as int),
        decreases payload.len() - i,
    {
        frame.push(payload[i]);
        i += 1;
    }
    Some(frame)
}

/// Writes a frame that holds a text.
pub fn write_ws_text_frame(message: &str) -> (out: Option<Vec<u8>>)
    ensures
        match out {
            Some(frame) => server_frame(1, encode_utf8(message@)) == Some(frame@),
            None => server_frame(1, encode_utf8(message@)) is None,
        },
{
    let bytes = vstd::slice::slice_to_vec(message.as_bytes());
    write_ws_control_frame(1, &bytes)
}

/// A capital letter of ASCII in lower case; any other character as it is.
pub open spec fn lower_ascii(c: char) -> char {
    if 'A' <= c <= 'Z' {
        ((c as u8) + 32) as char
    } else {
        c
    }
}

/// A text with its capital letters of ASCII in lower case.
pub open spec fn lowered(text: Seq<char>) -> Seq<char> {
    Seq::new(text.len(), |i: int| lower_ascii(text[i]))
}

fn lower_text(text: &str) -> (out: String)
    ensures
        out@ == lowered(text@),
{
    let v = chars_of(text);
    let mut out: Vec<char> = Vec::new();
    let mut i: usize = 0;
    while i < v.len()
        invariant
            i <= v.len(),
            v@ == text@,
            out@.len() == i,
            forall|j: int| 0 <= j < i ==> out@[j] == lower_ascii(v@[j]),
        decreases v.len() - i,
    {
        let c = v[i];
        if 'A' <= c && c <= 'Z' {
            out.push(((c as u8) + 32) as char);
        } else {
            out.push(c);
        }
        i += 1;
    }
    string_of(&out)
}

/// The key of a WebSocket handshake that a header line carries: the
/// value, without the white space around it, of a header named
/// `Sec-WebSocket-Key` in whatever case.
pub open spec fn header_key(header: Seq<char>) -> Option<Seq<char>> {
    match split_first(header, ':') {
        Some(parts) => if lowered(parts.0) == "sec-websocket-key"@ {
            Some(trimmed(parts.1))
        } else {
            None
        },
        None => None,
    }
}

/// The key of the handshake among the first `n` header lines: that of
/// the last line that carries one.
pub open spec fn handshake_key(lines: Seq<Seq<char>>, n: int) -> Option<Seq<char>>
    decreases n,
{
    if n <= 0 {
        None
    } else {
        match header_key(trimmed(lines[n - 1])) {
            Some(key) => Some(key),
            None => handshake_key(lines, n - 1),
        }
    }
}

/// Whether one of the header lines asks for the WebSocket protocol.
pub open spec fn asks_upgrade(lines: Seq<Seq<char>>) -> bool {
    exists|i: int|
        0 <= i < lines.len() && has_sub(lowered(trimmed(#[trigger] lines[i])), "upgrade: websocket"@)
}

/// A response of HTTP that closes the connection.
pub open spec fn response_text(status: Seq<char>, content_type: Seq<char>, body: Seq<char>) -> Seq<
    char,
> {
    "HTTP/1.1 "@ + status + "\r\nContent-Type: "@ + content_type + "\r\nContent-Length: "@
        + decimal_text(encode_utf8(body).len()) + "\r\nConnection: close\r\n\r\n"@ + body
}

/// Writes a response of HTTP that closes the connection. The length that
/// it announces is that of the body in bytes.
pub fn http_response(status: &str, content_type: &str, body: &str) -> (out: String)
    ensures
        out@ == response_text(status@, content_type@, body@),
{
    let length = u64_to_text(body.as_bytes().len() as u64);
    let mut out = "HTTP/1.1 ".to_owned();
    out.append(status);
    out.append("\r\nContent-Type: ");
    out.append(content_type);
    out.append("\r\nContent-Length: ");
    out.append(length.as_str());
    out.append("\r\nConnection: close\r\n\r\n");
    out.append(body);
    out
}

/// The response that accepts a WebSocket handshake.
pub open spec fn upgrade_text(accept: Seq<char>) -> Seq<char> {
    "HTTP/1.1 101 Switching Protocols\r\nUpgrade: websocket\r\nConnection: Upgrade\r\nSec-WebSocket-Accept: "@
        + accept + "\r\n\r\n"@
}

/// What a request is answered with.
#[derive(Debug, Clone, PartialEq, Eq)]
pub enum RequestAnswer {
    /// This response, after which the connection is closed.
    Respond(String),
    /// This response, after which the connection is a client of the event stream.
    Upgrade(String),
    /// Nothing: the handshake lacks its key.
    MissingKey,
}

/// The model of a [`RequestAnswer`].
pub ghost enum AnswerModel {
    Respond(Seq<char>),
    Upgrade(Seq<char>),
    MissingKey,
}

impl View for RequestAnswer {
    type V = AnswerModel;

    open spec fn view(&self) -> AnswerModel {
        match self {
            RequestAnswer::Respond(text) => AnswerModel::Respond(text@),
            RequestAnswer::Upgrade(text) => AnswerModel::Upgrade(text@),
            RequestAnswer::MissingKey => AnswerModel::MissingKey,
        }
    }
}

/// The body of the response to a request that nothing serves.
pub open spec fn not_found_body() -> Seq<char> {
    json_text(
        JsonModel::Object(
            Map::<Seq<char>, JsonModel>::empty().insert("error"@, JsonModel::Str("not_found"@)),
        ),
    )
}

/// What a request is answered with. A `GET` of `/healthz` or `/health`
/// is answered with the report on the runtime. A `GET` of the path of
/// the event stream with a header that asks for the WebSocket protocol
/// is a handshake, which is accepted with the answer to its key. Any
/// other request finds nothing.
pub open spec fn answer_of(request_line: Seq<char>, lines: Seq<Seq<char>>, health: JsonModel) -> AnswerModel {
    if "GET /healthz "@.is_prefix_of(request_line) || "GET /health "@.is_prefix_of(request_line) {
        AnswerModel::Respond(response_text("200 OK"@, "application/json"@, json_text(health)))
    } else if ("GET "@ + WEBSOCKET_PATH@ + " "@).is_prefix_of(request_line) && asks_upgrade(lines) {
        match handshake_key(lines, lines.len() as int) {
            Some(key) => AnswerModel::Upgrade(upgrade_text(accept_key(key))),
            None => AnswerModel::MissingKey,
        }
    } else {
        AnswerModel::Respond(
            response_text("404 Not Found"@, "application/json"@, not_found_body()),
        )
    }
}

fn key_of_header(header: &str) -> (out: Option<String>)
    ensures
        optional_text(out) == header_key(header@),
{
    match split_once(header, ':') {
        Some((name, value)) => if same_text(lower_text(name.as_str()).as_str(), "sec-websocket-key") {
            Some(trim(value.as_str()))
        } else {
            None
        },
        None => None,
    }
}

/// Answers a request from its first line, the header lines as they were
/// read, and the report on the runtime.
pub fn answer_request(request_line: &str, lines: &Vec<String>, health: &JsonValue) -> (out:
    RequestAnswer)
    ensures
        out@ == answer_of(request_line@, texts(lines@), health@),
{
    if starts_with(request_line, "GET /healthz ") || starts_with(request_line, "GET /health ") {
        let body = to_text(health);
        return RequestAnswer::Respond(http_response("200 OK", "application/json", body.as_str()));
    }
    let mut start = "GET ".to_owned();
    start.append(WEBSOCKET_PATH);
    start.append(" ");
    let mut key: Option<String> = None;
    let mut upgrade = false;
    let mut i: usize = 0;
    let ghost all = texts(lines@);
    while i < lines.len()
        invariant
            i <= lines.len(),
            all == texts(lines@),
            optional_text(key) == handshake_key(all, i as int),
            upgrade == exists|j: int|
                0 <= j < i && has_sub(lowered(trimmed(#[trigger] all[j])), "upgrade: websocket"@),
        decreases lines.len() - i,
    {
        let header = trim(lines[i].as_str());
        match key_of_header(header.as_str()) {
            Some(found) => {
                key = Some(found);
            },
            None => {},
        }
        if contains_sub(lower_text(header.as_str()).as_str(), "upgrade: websocket") {
            upgrade = true;
        }
        i += 1;
    }
    if starts_with(request_line, start.as_str()) && upgrade {
        match key {
            Some(key) => {
                let mut response =
                    "HTTP/1.1 101 Switching Protocols\r\nUpgrade: websocket\r\nConnection: Upgrade\r\nSec-WebSocket-Accept: ".to_owned();
                response.append(websocket_accept_key(key.as_str()).as_str());
                response.append("\r\n\r\n");
                RequestAnswer::Upgrade(response)
            },
            None => RequestAnswer::MissingKey,
        }
    } else {
        let mut error = JsonObject::new();
        error.insert("error".to_owned(), JsonValue::Str("not_found".to_owned()));
        let body = to_text(&JsonValue::Object(error));
        RequestAnswer::Respond(http_response("404 Not Found", "application/json", body.as_str()))
    }
}

/// What the runtime says of itself when it is asked for its health.
#[derive(Debug, Clone)]
pub struct HealthState {
    pub running: bool,
    /// When the runtime was asked, and when it started, in seconds since the epoch.
    pub server_time: JsonValue,
    pub started_at: JsonValue,
    pub heartbeats: u64,
    pub metrics_ticks: u64,
    pub snapshot: ServerHealthSnapshot,
}

/// A count as a JSON number.
pub open spec fn count_model(n: int) -> JsonModel {
    JsonModel::Number(crate::json::NumberModel::PosInt(n))
}

/// The names of events as a JSON array.
pub open spec fn names_model(names: Seq<Seq<char>>) -> Seq<JsonModel> {
    Seq::new(names.len(), |i: int| JsonModel::Str(names[i]))
}

/// The report on the runtime: whether it runs, its times and counts, and
/// what the record of the event stream holds.
pub open spec fn health_model(state: HealthState, fanout: EventFanout) -> JsonModel {
    JsonModel::Object(
        Map::<Seq<char>, JsonModel>::empty().insert(
            "status"@,
            JsonModel::Str(
                if state.running {
                    "ok"@
                } else {
                    "stopping"@
                },
            ),
        ).insert("server_time"@, state.server_time@).insert("started_at"@, state.started_at@).insert("apps_loaded"@, count_model(state.snapshot.apps_loaded as int)).insert(
            "scenes_loaded"@,
            count_model(state.snapshot.scenes_loaded as int),
        ).insert(
            "metrics_interval_seconds"@,
            count_model(state.snapshot.metrics_interval_seconds as int),
        ).insert("heartbeats"@, count_model(state.heartbeats as int)).insert(
            "metrics_ticks"@,
            count_model(state.metrics_ticks as int),
        ).insert(
            "event_stream"@,
            JsonModel::Object(
                Map::<Seq<char>, JsonModel>::empty().insert(
                    "transport"@,
                    JsonModel::Str("websocket"@),
                ).insert("path"@, JsonModel::Str(WEBSOCKET_PATH@)).insert(
                    "connected_clients"@,
                    count_model(count_set(fanout.listeners()) as int),
                ).insert("published_total"@, count_model(fanout.total() as int)).insert(
                    "recent_events"@,
                    JsonModel::Array(names_model(fanout.history())),
                ),
            ),
        ),
    )
}

fn count_value(n: u64) -> (out: JsonValue)
    ensures
        out@ == count_model(n as int),
{
    JsonValue::Number(JsonNumber::PosInt(n))
}

/// Writes the report on the runtime.
pub fn health_payload(state: &HealthState, fanout: &EventFanout) -> (out: JsonValue)
    ensures
        out@ == health_model(*state, *fanout),
{
    let recent = fanout.recent_events();
    let mut names: Vec<JsonValue> = Vec::new();
    let mut i: usize = 0;
    while i < recent.len()
        invariant
            i <= recent.len(),
            names@.len() == i,
            forall|j: int| 0 <= j < i ==> (#[trigger] names@[j])@ == JsonModel::Str(recent@[j]@),
        decreases recent.len() - i,
    {
        names.push(JsonValue::Str(recent[i].clone()));
        i += 1;
    }
    proof {
        crate::json::lemma_items_model(names@);
        assert(items_model(names@) =~= names_model(fanout.history()));
    }
    let mut stream = JsonObject::new();
    stream.insert("transport".to_owned(), JsonValue::Str("websocket".to_owned()));
    stream.insert("path".to_owned(), JsonValue::Str(WEBSOCKET_PATH.to_owned()));
    stream.insert(
        "connected_clients".to_owned(),
        count_value(fanout.websocket_client_count() as u64),
    );
    stream.insert("published_total".to_owned(), count_value(fanout.published_total()));
    stream.insert("recent_events".to_owned(), JsonValue::Array(names));
    let mut report = JsonObject::new();
    let status = if state.running {
        "ok"
    } else {
        "stopping"
    };
    report.insert("status".to_owned(), JsonValue::Str(status.to_owned()));
    report.insert("server_time".to_owned(), state.server_time.clone());
    report.insert("started_at".to_owned(), state.started_at.clone());
    report.insert("apps_loaded".to_owned(), count_value(state.snapshot.apps_loaded as u64));
    report.insert("scenes_loaded".to_owned(), count_value(state.snapshot.scenes_loaded as u64));
    report.insert(
        "metrics_interval_seconds".to_owned(),
        count_value(state.snapshot.metrics_interval_seconds),
    );
    report.insert("heartbeats".to_owned(), count_value(state.heartbeats));
    report.insert("metrics_ticks".to_owned(), count_value(state.metrics_ticks));
    report.insert("event_stream".to_owned(), JsonValue::Object(stream));
    JsonValue::Object(report)
}

/// What the server does with a frame of a client.
#[derive(Debug, Clone, PartialEq, Eq)]
pub enum FrameAnswer {
    /// The client closes: the frame that says so is sent back, where it
    /// can be written, and the client is no longer served.
    Close(Option<Vec<u8>>),
    /// The client pings: the frame that answers with the same payload is
    /// sent back; a payload that is too long for it is an error.
    Pong(Option<Vec<u8>>),
    /// The frame is a part of a message, which is not taken: the client
    /// is no longer served.
    Fragmented,
    /// Nothing.
    Ignore,
}

/// The frame of an answer, as a model.
pub open spec fn frame_bytes(frame: Option<Vec<u8>>) -> Option<Seq<u8>> {
    match frame {
        Some(bytes) => Some(bytes@),
        None => None,
    }
}

/// The model of a [`FrameAnswer`].
pub ghost enum FrameAnswerModel {
    Close(Option<Seq<u8>>),
    Pong(Option<Seq<u8>>),
    Fragmented,
    Ignore,
}

impl View for FrameAnswer {
    type V = FrameAnswerModel;

    open spec fn view(&self) -> FrameAnswerModel {
        match self {
            FrameAnswer::Close(frame) => FrameAnswerModel::Close(frame_bytes(*frame)),
            FrameAnswer::Pong(frame) => FrameAnswerModel::Pong(frame_bytes(*frame)),
            FrameAnswer::Fragmented => FrameAnswerModel::Fragmented,
            FrameAnswer::Ignore => FrameAnswerModel::Ignore,
        }
    }
}

/// What the server does with a frame of a client: it answers a close
/// with a close and a ping with a pong of the same payload, turns down a
/// frame that is not final, and passes over everything else.
pub open spec fn frame_answer(fin: bool, opcode: u8, payload: Seq<u8>) -> FrameAnswerModel {
    if opcode == 0x8 {
        FrameAnswerModel::Close(server_frame(0x8, Seq::empty()))
    } else if opcode == 0x9 {
        FrameAnswerModel::Pong(server_frame(0xA, payload))
    } else if !fin {
        FrameAnswerModel::Fragmented
    } else {
        FrameAnswerModel::Ignore
    }
}

/// Decides what the server does with a frame of a client.
pub fn answer_frame(frame: &ClientFrame) -> (out: FrameAnswer)
    ensures
        out@ == frame_answer(frame.fin, frame.opcode, frame.payload@),
{
    if frame.opcode == 0x8 {
        let empty: Vec<u8> = Vec::new();
        FrameAnswer::Close(write_ws_control_frame(0x8, &empty))
    } else if frame.opcode == 0x9 {
        FrameAnswer::Pong(write_ws_control_frame(0xA, &frame.payload))
    } else if !frame.fin {
        FrameAnswer::Fragmented
    } else {
        FrameAnswer::Ignore
    }
}

} // verus!
