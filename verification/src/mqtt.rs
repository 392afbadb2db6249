//! Messages: how the broker is reached, where subjects are published, and
//! what a message that came in is about.

use crate::scan::{contains, has_part};
use crate::state::{with_color, with_humidity, with_temperature, RenderState};
use vstd::prelude::*;
use vstd::string::{StringExecFns, StringSliceAdditionalSpecFns};

verus! {

/// Why the broker could not be reached.
#[derive(Debug)]
pub struct MqttError {
    pub msg: String,
}

/// What is needed to reach the broker.
#[derive(Debug)]
pub struct Settings {
    pub server_uri: String,
    pub username: String,
    pub password: String,
    pub topic_prefix: String,
}

/// What a message is about.
#[derive(Clone, Copy, Debug, PartialEq, Eq, Structural)]
pub enum Subject {
    Temperature,
    Humidity,
    Color,
}

/// The bytes of the word `temperature`.
pub open spec fn word_temperature() -> Seq<u8> {
    seq![
        0x74u8,
        0x65u8,
        0x6du8,
        0x70u8,
        0x65u8,
        0x72u8,
        0x61u8,
        0x74u8,
        0x75u8,
        0x72u8,
        0x65u8,
    ]
}

/// The bytes of the word `humidity`.
pub open spec fn word_humidity() -> Seq<u8> {
    seq![0x68u8, 0x75u8, 0x6du8, 0x69u8, 0x64u8, 0x69u8, 0x74u8, 0x79u8]
}

/// The bytes of the word `color`.
pub open spec fn word_color() -> Seq<u8> {
    seq![0x63u8, 0x6fu8, 0x6cu8, 0x6fu8, 0x72u8]
}

/// The subject of a topic: the first of temperature, humidity and colour
/// whose word stands in the topic.
pub open spec fn subject_of(topic: Seq<u8>) -> Option<Subject> {
    if contains(topic, word_temperature()) {
        Some(Subject::Temperature)
    } else if contains(topic, word_humidity()) {
        Some(Subject::Humidity)
    } else if contains(topic, word_color()) {
        Some(Subject::Color)
    } else {
        None
    }
}

/// The state after a message came in at `now`.
pub open spec fn delivered(s: RenderState, topic: Seq<u8>, payload: Seq<u8>, now: u64) -> RenderState {
    match subject_of(topic) {
        Some(Subject::Temperature) => with_temperature(s, payload, now),
        Some(Subject::Humidity) => with_humidity(s, payload, now),
        Some(Subject::Color) => with_color(s, payload),
        None => s,
    }
}

/// The address of a broker: `tcp://`, the host, a colon and the port.
pub open spec fn uri_of(host: Seq<char>, port: Seq<char>) -> Seq<char> {
    seq!['t', 'c', 'p', ':', '/', '/'] + host + seq![':'] + port
}

/// The message of the error for a setting that is not there.
pub open spec fn not_found() -> Seq<char> {
    "environment variable not found"@
}

/// The subject of a topic.
pub fn subject(topic: &str) -> (r: Option<Subject>)
    ensures
        r == subject_of(topic.spec_bytes()),
{
    let temperature: [u8; 11] = [0x74, 0x65, 0x6d, 0x70, 0x65, 0x72, 0x61, 0x74, 0x75, 0x72, 0x65];
    let humidity: [u8; 8] = [0x68, 0x75, 0x6d, 0x69, 0x64, 0x69, 0x74, 0x79];
    let color: [u8; 5] = [0x63, 0x6f, 0x6c, 0x6f, 0x72];
    assert(temperature@ =~= word_temperature());
    assert(humidity@ =~= word_humidity());
    assert(color@ =~= word_color());
    let bytes = topic.as_bytes();
    if has_part(bytes, temperature.as_slice()) {
        Some(Subject::Temperature)
    } else if has_part(bytes, humidity.as_slice()) {
        Some(Subject::Humidity)
    } else if has_part(bytes, color.as_slice()) {
        Some(Subject::Color)
    } else {
        None
    }
}

/// Hands a message that came in at `now` to the state. A message about
/// nothing the display knows changes nothing.
pub fn deliver(state: &mut RenderState, topic: &str, payload: &str, now: u64)
    ensures
        *final(state) == delivered(*old(state), topic.spec_bytes(), payload.spec_bytes(), now),
{
    match subject(topic) {
        Some(Subject::Temperature) => state.set_temperature(payload, now),
        Some(Subject::Humidity) => state.set_humidity(payload, now),
        Some(Subject::Color) => state.set_color(payload),
        None => {},
    }
}

/// The full topic of a subject: the prefix, a slash and the subject.
pub fn topic_path(prefix: &str, topic: &str) -> (path: String)
    ensures
        path@ == prefix@ + seq!['/'] + topic@,
{
    proof {
        reveal_strlit("/");
    }
    let mut path = String::from_str(prefix);
    path.append("/");
    path.append(topic);
    assert(path@ =~= prefix@ + seq!['/'] + topic@);
    path
}

/// The address of a broker.
pub fn server_uri(host: &str, port: &str) -> (uri: String)
    ensures
        uri@ == uri_of(host@, port@),
{
    proof {
        reveal_strlit("tcp://");
        reveal_strlit(":");
    }
    let mut uri = String::from_str("tcp://");
    uri.append(host);
    uri.append(":");
    uri.append(port);
    assert(uri@ =~= uri_of(host@, port@));
    uri
}

/// Puts the settings together from their five parts, each of which may be
/// missing. One missing part is enough for the whole to fail.
pub fn settings(
    host: Option<&str>,
    port: Option<&str>,
    username: Option<&str>,
    password: Option<&str>,
    topic_prefix: Option<&str>,
) -> (r: Result<Settings, MqttError>)
    ensures
        r is Ok <==> (host is Some && port is Some && username is Some && password is Some
            && topic_prefix is Some),
        r matches Ok(s) ==> {
            &&& s.server_uri@ == uri_of(host->0@, port->0@)
            &&& s.username@ == username->0@
            &&& s.password@ == password->0@
            &&& s.topic_prefix@ == topic_prefix->0@
        },
        r matches Err(e) ==> e.msg@ == not_found(),
{
    match (host, port, username, password, topic_prefix) {
        (Some(h), Some(p), Some(u), Some(w), Some(t)) => Ok(
            Settings {
                server_uri: server_uri(h, p),
                username: String::from_str(u),
                password: String::from_str(w),
                topic_prefix: String::from_str(t),
            },
        ),
        _ => Err(MqttError { msg: String::from_str("environment variable not found") }),
    }
}

} // verus!
