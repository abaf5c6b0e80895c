//! AMF0 commands: parsing the command messages a client sends and building
//! the payloads of the server's replies.

use vstd::prelude::*;
use vstd::slice::slice_subrange;
use crate::amf0::{
    is_scalar_marker, number_wire, read_amf0, read_scalar_spec, value_encodable, value_wire,
    write_amf0, Amf0Field, Amf0FieldView, Amf0Scalar, Amf0ScalarView, Amf0Value, Amf0ValueView,
    MAX_TEXT_CHARS,
};
use crate::bytes::{push_all, push_be64, read_be32};

verus! {

/// What a client asked for in a publish command.
#[derive(Clone, Copy, Debug, PartialEq, Eq, Structural)]
pub enum PublishingType {
    Live,
    Play,
}

/// The first two values of every command: its name and transaction id (the
/// bits of the double).
#[derive(Clone, Debug)]
pub struct AMFMessage {
    pub command_name: String,
    pub transaction_id: u64,
}

/// The two objects that follow the name and transaction id of a reply.
#[derive(Clone, Debug)]
pub struct AMFCall {
    pub command_object: Vec<(String, Amf0Field)>,
    pub additional_args: Vec<(String, Amf0Field)>,
}

/// The arguments of a play command; numbers are the bits of their doubles.
#[derive(Clone, Debug)]
pub struct PlayMessage {
    pub stream_name: String,
    pub start: u64,
    pub duration: u64,
    pub reset: bool,
}

/// A command this server acts on.
#[derive(Clone, Debug)]
pub enum Command {
    Connect,
    CreateStream { transaction_id: u64 },
    Publish { publishing_name: String, publishing_type: Option<PublishingType> },
    Play(PlayMessage),
    /// A well-formed command with a name this server does not handle.
    Unknown,
}

/// The view of a `Command`.
pub enum CommandView {
    Connect,
    CreateStream { transaction_id: u64 },
    Publish { publishing_name: Seq<char>, publishing_type: Option<PublishingType> },
    Play { stream_name: Seq<char>, start: u64 },
    Unknown,
}

impl View for Command {
    type V = CommandView;

    open spec fn view(&self) -> CommandView {
        match self {
            Command::Connect => CommandView::Connect,
            Command::CreateStream { transaction_id } => CommandView::CreateStream {
                transaction_id: *transaction_id,
            },
            Command::Publish { publishing_name, publishing_type } => CommandView::Publish {
                publishing_name: publishing_name@,
                publishing_type: *publishing_type,
            },
            Command::Play(m) => CommandView::Play { stream_name: m.stream_name@, start: m.start },
            Command::Unknown => CommandView::Unknown,
        }
    }
}

/// The lower-case form of `s` that `str::to_lowercase` gives.
pub uninterp spec fn lower_of(s: Seq<char>) -> Seq<char>;

/// Relies on str::to_lowercase: the result depends on the characters alone.
#[verifier::external_body]
fn lowercase(s: &str) -> (r: String)
    ensures
        r@ == lower_of(s@),
{
    s.to_lowercase()
}

/// The publishing type that a lower-cased type name selects.
pub open spec fn publishing_type_spec(lowered: Seq<char>) -> Option<PublishingType> {
    if lowered == "live"@ {
        Some(PublishingType::Live)
    } else if lowered == "play"@ {
        Some(PublishingType::Play)
    } else {
        None
    }
}

/// Maps a lower-cased publishing type name to the type it selects: "live"
/// to `Live`, "play" to `Play`, anything else to none.
pub fn publishing_type_of(lowered: &String) -> (r: Option<PublishingType>)
    ensures
        r == publishing_type_spec(lowered@),
{
    if *lowered == "live".to_owned() {
        Some(PublishingType::Live)
    } else if *lowered == "play".to_owned() {
        Some(PublishingType::Play)
    } else {
        None
    }
}

/// The scalar value that starts at `pos`, and the position after it; none
/// where there is no such value or it is not a number, string or null.
pub open spec fn scalar_at(b: Seq<u8>, pos: nat) -> Option<(Amf0ScalarView, nat)> {
    if pos >= b.len() || !is_scalar_marker(b[pos as int]) {
        None
    } else {
        match read_scalar_spec(b.subrange(pos as int, b.len() as int)) {
            Some((v, n)) => Some((v, pos + n)),
            None => None,
        }
    }
}

/// Reads the scalar value that starts at `pos`.
fn read_scalar(b: &[u8], pos: usize) -> (r: Option<(Amf0Scalar, usize)>)
    ensures
        match r {
            Some((v, p)) => scalar_at(b@, pos as nat) == Some((v@, p as nat)),
            None => scalar_at(b@, pos as nat) is None,
        },
{
    if pos >= b.len() || !(b[pos] == 0x00 || b[pos] == 0x02 || b[pos] == 0x05 || b[pos] == 0x0c) {
        return None;
    }
    let tail = slice_subrange(b, pos, b.len());
    if tail[0] == 0x0c && (tail.len() < 5 || read_be32(tail, 1) as usize > tail.len() - 5) {
        return None;
    }
    match read_amf0(tail) {
        Ok((v, rest)) => Some((v, b.len() - rest.len())),
        Err(_) => None,
    }
}

/// The command name and transaction id at the front of a payload, and the
/// position after them.
pub open spec fn header_spec(b: Seq<u8>) -> Option<(Seq<char>, u64, nat)> {
    match scalar_at(b, 0) {
        Some((Amf0ScalarView::Text(name), after_name)) => match scalar_at(b, after_name) {
            Some((Amf0ScalarView::Number(tx), after_id)) => Some((name, tx, after_id)),
            _ => None,
        },
        _ => None,
    }
}

/// The publish command whose arguments start at `pos`: null, the stream
/// name and the publishing type.
pub open spec fn publish_args_spec(b: Seq<u8>, pos: nat) -> Option<CommandView> {
    match scalar_at(b, pos) {
        Some((Amf0ScalarView::Null, after_null)) => match scalar_at(b, after_null) {
            Some((Amf0ScalarView::Text(pname), after_stream)) => match scalar_at(b, after_stream) {
                Some((Amf0ScalarView::Text(ptype), _)) => Some(
                    CommandView::Publish {
                        publishing_name: pname,
                        publishing_type: publishing_type_spec(lower_of(ptype)),
                    },
                ),
                _ => None,
            },
            _ => None,
        },
        _ => None,
    }
}

/// The play command whose arguments start at `pos`: null, the stream name and
/// the start.
pub open spec fn play_args_spec(b: Seq<u8>, pos: nat) -> Option<CommandView> {
    match scalar_at(b, pos) {
        Some((Amf0ScalarView::Null, after_null)) => match scalar_at(b, after_null) {
            Some((Amf0ScalarView::Text(stream), after_stream)) => match scalar_at(b, after_stream) {
                Some((Amf0ScalarView::Number(start), _)) => Some(
                    CommandView::Play { stream_name: stream, start },
                ),
                _ => None,
            },
            _ => None,
        },
        _ => None,
    }
}

/// The command that a command message's payload holds, or none where the
/// payload does not start with a string name and a number, or where the
/// arguments of publish or play are not the values those commands take.
/// Publish takes null, the stream name and the publishing type; play takes
/// null, the stream name and the start.
pub open spec fn command_spec(b: Seq<u8>) -> Option<CommandView> {
    match header_spec(b) {
        Some((name, tx, after_id)) => {
            if name == "connect"@ {
                Some(CommandView::Connect)
            } else if name == "createStream"@ {
                Some(CommandView::CreateStream { transaction_id: tx })
            } else if name == "publish"@ {
                publish_args_spec(b, after_id)
            } else if name == "play"@ {
                play_args_spec(b, after_id)
            } else {
                Some(CommandView::Unknown)
            }
        },
        None => None,
    }
}

impl AMFMessage {
    /// Reads the command name and transaction id from the front of a payload,
    /// with the position after them.
    pub fn deserialize(payload: &[u8]) -> (r: Option<(AMFMessage, usize)>)
        ensures
            match r {
                Some((m, n)) => header_spec(payload@) == Some(
                    (m.command_name@, m.transaction_id, n as nat),
                ),
                None => header_spec(payload@) is None,
            },
    {
        let (command_name, after_name) = match read_scalar(payload, 0) {
            Some((Amf0Scalar::Text(s), p)) => (s, p),
            _ => {
                return None;
            },
        };
        let (transaction_id, after_id) = match read_scalar(payload, after_name) {
            Some((Amf0Scalar::Number(n), p)) => (n, p),
            _ => {
                return None;
            },
        };
        Some((AMFMessage { command_name, transaction_id }, after_id))
    }
}

/// Parses the arguments of publish that start at `pos`.
fn parse_publish_args(payload: &[u8], pos: usize) -> (r: Option<Command>)
    ensures
        match r {
            Some(c) => publish_args_spec(payload@, pos as nat) == Some(c@),
            None => publish_args_spec(payload@, pos as nat) is None,
        },
{
    let after_null = match read_scalar(payload, pos) {
        Some((Amf0Scalar::Null, p)) => p,
        _ => {
            return None;
        },
    };
    let (pname, after_stream) = match read_scalar(payload, after_null) {
        Some((Amf0Scalar::Text(s), p)) => (s, p),
        _ => {
            return None;
        },
    };
    let ptype = match read_scalar(payload, after_stream) {
        Some((Amf0Scalar::Text(s), _)) => s,
        _ => {
            return None;
        },
    };
    let lowered = lowercase(ptype.as_str());
    Some(Command::Publish { publishing_name: pname, publishing_type: publishing_type_of(&lowered) })
}

impl PlayMessage {
    /// Reads the arguments of play that start at `pos`: null, the stream name
    /// and the start.
    pub fn deserialize(payload: &[u8], pos: usize) -> (r: Option<PlayMessage>)
        ensures
            match r {
                Some(m) => play_args_spec(payload@, pos as nat) == Some(
                    CommandView::Play { stream_name: m.stream_name@, start: m.start },
                ) && m.duration == 0 && !m.reset,
                None => play_args_spec(payload@, pos as nat) is None,
            },
    {
        let after_null = match read_scalar(payload, pos) {
            Some((Amf0Scalar::Null, p)) => p,
            _ => {
                return None;
            },
        };
        let (stream, after_stream) = match read_scalar(payload, after_null) {
            Some((Amf0Scalar::Text(s), p)) => (s, p),
            _ => {
                return None;
            },
        };
        let start = match read_scalar(payload, after_stream) {
            Some((Amf0Scalar::Number(n), _)) => n,
            _ => {
                return None;
            },
        };
        Some(PlayMessage { stream_name: stream, start, duration: 0, reset: false })
    }
}

/// Parses the payload of a command message.
pub fn parse_command(payload: &[u8]) -> (r: Option<Command>)
    ensures
        match r {
            Some(c) => command_spec(payload@) == Some(c@),
            None => command_spec(payload@) is None,
        },
{
    let (header, after_id) = match AMFMessage::deserialize(payload) {
        Some(v) => v,
        None => {
            return None;
        },
    };
    let name = header.command_name;
    if name == "connect".to_owned() {
        Some(Command::Connect)
    } else if name == "createStream".to_owned() {
        Some(Command::CreateStream { transaction_id: header.transaction_id })
    } else if name == "publish".to_owned() {
        parse_publish_args(payload, after_id)
    } else if name == "play".to_owned() {
        match PlayMessage::deserialize(payload, after_id) {
            Some(m) => Some(Command::Play(m)),
            None => None,
        }
    } else {
        Some(Command::Unknown)
    }
}

/// Transaction id of the reply to connect: the bits of the double 1.0.
pub const CONNECT_TRANSACTION_ID: u64 = 0x3ff0_0000_0000_0000;

/// Transaction id of a status notification: the bits of the double 0.0.
pub const STATUS_TRANSACTION_ID: u64 = 0;

impl AMFMessage {
    /// The command name as an AMF0 string, then the transaction id as an
    /// AMF0 number.
    pub open spec fn wire(&self) -> Seq<u8> {
        value_wire(Amf0ValueView::Field(Amf0FieldView::Text(self.command_name@))) + number_wire(
            self.transaction_id,
        )
    }

    pub fn serialize(&self) -> (r: Vec<u8>)
        requires
            self.command_name@.len() <= MAX_TEXT_CHARS,
        ensures
            r@ == self.wire(),
    {
        let name = Amf0Value::Field(Amf0Field::Text(self.command_name.clone()));
        let mut out = write_amf0(&name);
        out.push(0x00);
        push_be64(&mut out, self.transaction_id);
        assert(out@ =~= self.wire());
        out
    }
}

/// Whether every entry of an object can be encoded.
pub open spec fn entries_encodable(e: Seq<(String, Amf0Field)>) -> bool {
    value_encodable(Amf0ValueView::Object(crate::amf0::entries_view(e)))
}

impl AMFCall {
    /// The command object, then the additional arguments, as AMF0 objects.
    pub open spec fn wire(&self) -> Seq<u8> {
        value_wire(Amf0ValueView::Object(crate::amf0::entries_view(self.command_object@)))
            + value_wire(Amf0ValueView::Object(crate::amf0::entries_view(self.additional_args@)))
    }

    pub fn serialize(self) -> (r: Vec<u8>)
        requires
            entries_encodable(self.command_object@),
            entries_encodable(self.additional_args@),
        ensures
            r@ == self.wire(),
    {
        let first = Amf0Value::Object(self.command_object);
        let second = Amf0Value::Object(self.additional_args);
        let mut out = write_amf0(&first);
        let b = write_amf0(&second);
        push_all(&mut out, b.as_slice());
        out
    }
}

/// An object entry with key `key`.
fn entry(key: &str, value: Amf0Field) -> (r: (String, Amf0Field))
    ensures
        r.0@ == key@,
        r.1@ == value@,
{
    (key.to_owned(), value)
}

/// A text field holding `s`.
fn text(s: &str) -> (r: Amf0Field)
    ensures
        r@ == Amf0FieldView::Text(s@),
{
    Amf0Field::Text(s.to_owned())
}

/// An AMF0 object with these entries.
pub open spec fn object_wire(e: Seq<(Seq<char>, Amf0FieldView)>) -> Seq<u8> {
    value_wire(Amf0ValueView::Object(e))
}

/// An AMF0 string.
pub open spec fn text_wire(s: Seq<char>) -> Seq<u8> {
    value_wire(Amf0ValueView::Field(Amf0FieldView::Text(s)))
}

/// The reply to connect: "_result", 1.0, the server's properties and the
/// connection status.
pub open spec fn connect_result_spec() -> Seq<u8> {
    text_wire("_result"@) + number_wire(CONNECT_TRANSACTION_ID) + object_wire(
        seq![
            ("fmsVer"@, Amf0FieldView::Text("FMS/3,0,1,123"@)),
            ("capabilities"@, Amf0FieldView::Number(31)),
            ("mode"@, Amf0FieldView::Text("live"@)),
            ("objectEncoding"@, Amf0FieldView::Number(0)),
        ],
    ) + object_wire(
        seq![
            ("level"@, Amf0FieldView::Text("status"@)),
            ("code"@, Amf0FieldView::Text("NetConnection.Connect.Success"@)),
            ("description"@, Amf0FieldView::Text("Connection succeeded."@)),
            ("objectEncoding"@, Amf0FieldView::Number(0)),
        ],
    )
}

/// The reply to createStream: "_result", the request's transaction id and two
/// empty objects.
pub open spec fn create_stream_result_spec(transaction_id: u64) -> Seq<u8> {
    text_wire("_result"@) + number_wire(transaction_id) + object_wire(Seq::empty())
        + object_wire(Seq::empty())
}

/// The status sent when live publishing starts: "onStatus", 0.0, an empty
/// object and the status object.
pub open spec fn publish_start_spec() -> Seq<u8> {
    text_wire("onStatus"@) + number_wire(STATUS_TRANSACTION_ID) + object_wire(Seq::empty())
        + object_wire(
        seq![
            ("code"@, Amf0FieldView::Text("NetStream.Publish.Start"@)),
            ("level"@, Amf0FieldView::Text("status"@)),
            ("description"@, Amf0FieldView::Text("Started publishing stream."@)),
        ],
    )
}

/// Builds the payload of the reply to connect.
pub fn connect_result() -> (r: Vec<u8>)
    ensures
        r@ == connect_result_spec(),
{
    proof {
        reveal_strlit("_result");
        reveal_strlit("fmsVer");
        reveal_strlit("FMS/3,0,1,123");
        reveal_strlit("capabilities");
        reveal_strlit("mode");
        reveal_strlit("live");
        reveal_strlit("objectEncoding");
        reveal_strlit("level");
        reveal_strlit("status");
        reveal_strlit("code");
        reveal_strlit("NetConnection.Connect.Success");
        reveal_strlit("description");
        reveal_strlit("Connection succeeded.");
    }
    let header = AMFMessage {
        command_name: "_result".to_owned(),
        transaction_id: CONNECT_TRANSACTION_ID,
    };
    let mut properties: Vec<(String, Amf0Field)> = Vec::new();
    properties.push(entry("fmsVer", text("FMS/3,0,1,123")));
    properties.push(entry("capabilities", Amf0Field::Number(31)));
    properties.push(entry("mode", text("live")));
    properties.push(entry("objectEncoding", Amf0Field::Number(0)));
    let mut information: Vec<(String, Amf0Field)> = Vec::new();
    information.push(entry("level", text("status")));
    information.push(entry("code", text("NetConnection.Connect.Success")));
    information.push(entry("description", text("Connection succeeded.")));
    information.push(entry("objectEncoding", Amf0Field::Number(0)));
    let body = AMFCall { command_object: properties, additional_args: information };
    assert(crate::amf0::entries_view(body.command_object@) =~= seq![
        ("fmsVer"@, Amf0FieldView::Text("FMS/3,0,1,123"@)),
        ("capabilities"@, Amf0FieldView::Number(31)),
        ("mode"@, Amf0FieldView::Text("live"@)),
        ("objectEncoding"@, Amf0FieldView::Number(0)),
    ]);
    assert(crate::amf0::entries_view(body.additional_args@) =~= seq![
        ("level"@, Amf0FieldView::Text("status"@)),
        ("code"@, Amf0FieldView::Text("NetConnection.Connect.Success"@)),
        ("description"@, Amf0FieldView::Text("Connection succeeded."@)),
        ("objectEncoding"@, Amf0FieldView::Number(0)),
    ]);
    let mut out = header.serialize();
    let b = body.serialize();
    push_all(&mut out, b.as_slice());
    assert(out@ =~= connect_result_spec());
    out
}

/// Builds the payload of the reply to createStream.
pub fn create_stream_result(transaction_id: u64) -> (r: Vec<u8>)
    ensures
        r@ == create_stream_result_spec(transaction_id),
{
    proof {
        reveal_strlit("_result");
    }
    let header = AMFMessage { command_name: "_result".to_owned(), transaction_id };
    let body = AMFCall { command_object: Vec::new(), additional_args: Vec::new() };
    assert(crate::amf0::entries_view(body.command_object@) =~= Seq::empty());
    assert(crate::amf0::entries_view(body.additional_args@) =~= Seq::empty());
    let mut out = header.serialize();
    let b = body.serialize();
    push_all(&mut out, b.as_slice());
    assert(out@ =~= create_stream_result_spec(transaction_id));
    out
}

/// Builds the payload of the status that live publishing has started.
pub fn publish_start() -> (r: Vec<u8>)
    ensures
        r@ == publish_start_spec(),
{
    proof {
        reveal_strlit("onStatus");
        reveal_strlit("code");
        reveal_strlit("NetStream.Publish.Start");
        reveal_strlit("level");
        reveal_strlit("status");
        reveal_strlit("description");
        reveal_strlit("Started publishing stream.");
    }
    let header = AMFMessage {
        command_name: "onStatus".to_owned(),
        transaction_id: STATUS_TRANSACTION_ID,
    };
    let mut information: Vec<(String, Amf0Field)> = Vec::new();
    information.push(entry("code", text("NetStream.Publish.Start")));
    information.push(entry("level", text("status")));
    information.push(entry("description", text("Started publishing stream.")));
    let body = AMFCall { command_object: Vec::new(), additional_args: information };
    assert(crate::amf0::entries_view(body.command_object@) =~= Seq::empty());
    assert(crate::amf0::entries_view(body.additional_args@) =~= seq![
        ("code"@, Amf0FieldView::Text("NetStream.Publish.Start"@)),
        ("level"@, Amf0FieldView::Text("status"@)),
        ("description"@, Amf0FieldView::Text("Started publishing stream."@)),
    ]);
    let mut out = header.serialize();
    let b = body.serialize();
    push_all(&mut out, b.as_slice());
    assert(out@ =~= publish_start_spec());
    out
}

} // verus!
