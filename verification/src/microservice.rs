//! The line protocol of the music service: one JSON request per line, one
//! JSON answer per line. The socket is driven elsewhere; this module builds
//! the requests and reads the answers.

use std::sync::Arc;
use vstd::prelude::*;
use crate::config::Config;
use crate::errors::MicroserviceError;
use crate::model::Track;
use crate::text::{join, nat_text, push_u64};

verus! {

/// The texts of key and value pairs.
pub open spec fn pair_texts(pairs: Seq<(&str, &str)>) -> Seq<(Seq<char>, Seq<char>)> {
    pairs.map_values(|p: (&str, &str)| (p.0@, p.1@))
}

/// A lower-case hexadecimal digit.
pub open spec fn hex_digit(d: int) -> char {
    if d < 10 {
        ((d + 48) as u32) as char
    } else {
        ((d + 87) as u32) as char
    }
}

/// How a character stands inside a JSON string: a quote and a backslash
/// behind a backslash, the usual short escapes for backspace, tab, line
/// feed, form feed and carriage return, `\u00XX` for the other control
/// characters below U+0020, and every other character as itself.
pub open spec fn json_escaped_char(c: char) -> Seq<char> {
    if c == '"' {
        seq!['\\', '"']
    } else if c == '\\' {
        seq!['\\', '\\']
    } else if c == '\u{8}' {
        seq!['\\', 'b']
    } else if c == '\t' {
        seq!['\\', 't']
    } else if c == '\n' {
        seq!['\\', 'n']
    } else if c == '\u{c}' {
        seq!['\\', 'f']
    } else if c == '\r' {
        seq!['\\', 'r']
    } else if (c as u32) < 0x20 {
        seq!['\\', 'u', '0', '0', hex_digit((c as int) / 16), hex_digit((c as int) % 16)]
    } else {
        seq![c]
    }
}

/// The characters of `s`, each as it stands inside a JSON string.
pub open spec fn json_escaped(s: Seq<char>) -> Seq<char>
    decreases s.len(),
{
    if s.len() == 0 {
        seq![]
    } else {
        json_escaped(s.drop_last()) + json_escaped_char(s.last())
    }
}

/// `s` as a JSON string, in double quotes.
pub open spec fn json_string(s: Seq<char>) -> Seq<char> {
    seq!['"'] + json_escaped(s) + seq!['"']
}

/// The members of an object, each `"key":"value"`.
pub open spec fn json_members(pairs: Seq<(Seq<char>, Seq<char>)>) -> Seq<Seq<char>> {
    pairs.map_values(|p: (Seq<char>, Seq<char>)| json_string(p.0) + seq![':'] + json_string(p.1))
}

/// A compact JSON object of string members, in the order given.
pub open spec fn json_object_compact(pairs: Seq<(Seq<char>, Seq<char>)>) -> Seq<char> {
    seq!['{'] + join(json_members(pairs), seq![',']) + seq!['}']
}

/// `a` comes before `b` in the order of strings: character by character,
/// a proper prefix first.
pub open spec fn text_before(a: Seq<char>, b: Seq<char>) -> bool
    decreases a.len(),
{
    if a.len() == 0 {
        b.len() > 0
    } else if b.len() == 0 {
        false
    } else if a[0] != b[0] {
        (a[0] as u32) < (b[0] as u32)
    } else {
        text_before(a.drop_first(), b.drop_first())
    }
}

/// The members of an object filled with `pairs` in order: each key with the
/// value it was given last.
pub open spec fn pairs_map(pairs: Seq<(Seq<char>, Seq<char>)>) -> Map<Seq<char>, Seq<char>>
    decreases pairs.len(),
{
    if pairs.len() == 0 {
        Map::empty()
    } else {
        pairs_map(pairs.drop_last()).insert(pairs.last().0, pairs.last().1)
    }
}

/// Whether `text` is the compact object of the members `m`, written in
/// ascending order of their keys.
pub open spec fn object_text_of(text: Seq<char>, m: Map<Seq<char>, Seq<char>>) -> bool {
    exists|members: Seq<(Seq<char>, Seq<char>)>|
        #![trigger json_object_compact(members)]
        text == json_object_compact(members) && keys_ascending(members) && pairs_map(members) == m
}

/// Each key comes strictly before the next.
pub open spec fn keys_ascending(pairs: Seq<(Seq<char>, Seq<char>)>) -> bool {
    forall|i: int| 0 <= i < pairs.len() - 1 ==> text_before(#[trigger] pairs[i].0, pairs[i + 1].0)
}

/// Prints, with `serde_json`, the object that has each key of `pairs` with
/// its value as a JSON string (a `Map` of `Value::String`s, printed compactly
/// by `Value`'s `Display`). The map keeps the value inserted last for a key
/// and walks its keys in ascending order, so the text is
/// [`json_object_compact`] of its members in that order, and of `pairs`
/// itself when the keys come in that order already; the escaping is that of
/// the string writer, which leaves no line feed in the text.
#[verifier::external_body]
fn json_object(pairs: &[(&str, &str)]) -> (r: String)
    ensures
        object_text_of(r@, pairs_map(pair_texts(pairs@))),
        keys_ascending(pair_texts(pairs@)) ==> r@ == json_object_compact(pair_texts(pairs@)),
        !r@.contains('\n'),
{
    let mut m = serde_json::Map::new();
    for (k, v) in pairs {
        m.insert(k.to_string(), serde_json::Value::String(v.to_string()));
    }
    serde_json::Value::Object(m).to_string()
}

/// One request line: the object `{"action":...,"query":...}`, then a
/// newline.
pub open spec fn request_line(action: Seq<char>, query: Seq<char>) -> Seq<char> {
    json_object_compact(seq![("action"@, action), ("query"@, query)]) + "\n"@
}

fn request(action: &str, query: &str) -> (r: String)
    ensures
        r@ == request_line(action@, query@),
        r@.last() == '\n',
        forall|i: int| 0 <= i < r@.len() - 1 ==> r@[i] != '\n',
{
    let pairs: Vec<(&str, &str)> = vec![("action", action), ("query", query)];
    let ghost texts = seq![("action"@, action@), ("query"@, query@)];
    assert(pair_texts(pairs@) =~= texts);
    proof {
        reveal_strlit("action");
        reveal_strlit("query");
        assert("action"@[0] == 'a' && "query"@[0] == 'q');
        assert(text_before("action"@, "query"@));
        assert(keys_ascending(texts));
    }
    let mut r = json_object(pairs.as_slice());
    let ghost body = r@;
    r.append("\n");
    proof {
        reveal_strlit("\n");
        assert forall|i: int| 0 <= i < r@.len() - 1 implies r@[i] != '\n' by {
            assert(r@[i] == body[i]);
            if body[i] == '\n' {
                assert(body.contains('\n'));
            }
        }
    }
    r
}

/// The answer of the service: a status, the data on success, a message on
/// failure.
#[derive(Debug)]
pub struct ApiResponse<T> {
    pub status: String,
    pub data: Option<T>,
    pub message: Option<String>,
}

/// Talks to the music service at `host:port`.
#[derive(Debug)]
pub struct MicroserviceClient {
    addr: String,
}

impl MicroserviceClient {
    /// A client for the service named in the settings.
    pub fn new(config: &Arc<Config>) -> (c: Self)
        ensures
            c.addr()@ == config.microservice.host@ + ":"@ + nat_text(config.microservice.port as nat),
    {
        let mut addr = config.microservice.host.clone();
        addr.append(":");
        push_u64(&mut addr, config.microservice.port as u64);
        MicroserviceClient { addr }
    }

    /// The address to connect to, `host:port`.
    pub closed spec fn addr(&self) -> String {
        self.addr
    }

    /// The address to connect to, `host:port`.
    pub fn address(&self) -> (r: &str)
        ensures
            r@ == self.addr()@,
    {
        self.addr.as_str()
    }

    /// The request line that resolves `query` to one track.
    pub fn resolve_request(&self, query: &str) -> (r: String)
        ensures
            r@ == request_line("resolve"@, query@),
            r@.last() == '\n',
            forall|i: int| 0 <= i < r@.len() - 1 ==> r@[i] != '\n',
    {
        request("resolve", query)
    }

    /// The request line that asks for a radio station seeded by a track id.
    pub fn radio_request(&self, query: &str) -> (r: String)
        ensures
            r@ == request_line("radio"@, query@),
            r@.last() == '\n',
            forall|i: int| 0 <= i < r@.len() - 1 ==> r@[i] != '\n',
    {
        request("radio", query)
    }

    /// The request line that counts one play of a track.
    pub fn played_request(&self, track_id: &str) -> (r: String)
        ensures
            r@ == request_line("played"@, track_id@),
            r@.last() == '\n',
            forall|i: int| 0 <= i < r@.len() - 1 ==> r@[i] != '\n',
    {
        request("played", track_id)
    }
}

/// The text of a service error for a `status` other than `"ok"`: the
/// service's message, or `default` when it sent none.
pub open spec fn service_message(message: Option<String>, default: Seq<char>) -> Seq<char> {
    match message {
        Some(m) => m@,
        None => default,
    }
}

fn read_answer<T>(resp: ApiResponse<T>, default: &str) -> (r: Result<T, MicroserviceError>)
    ensures
        resp.status@ == "ok"@ ==> match resp.data {
            Some(d) => r == Ok::<T, MicroserviceError>(d),
            None => r matches Err(MicroserviceError::ServiceError(m))
                && m@ == "El microservicio devolvió ok pero 'data' es null"@,
        },
        resp.status@ != "ok"@ ==> (r matches Err(MicroserviceError::ServiceError(m))
            && m@ == service_message(resp.message, default@)),
{
    let ok = String::from_str("ok");
    if resp.status == ok {
        match resp.data {
            Some(d) => Ok(d),
            None => Err(MicroserviceError::ServiceError(
                String::from_str("El microservicio devolvió ok pero 'data' es null"),
            )),
        }
    } else {
        match resp.message {
            Some(m) => Err(MicroserviceError::ServiceError(m)),
            None => Err(MicroserviceError::ServiceError(String::from_str(default))),
        }
    }
}

fn parse_failure(prefix: &str, error: &str, raw: Option<&str>) -> (r: MicroserviceError)
    ensures
        r matches MicroserviceError::InvalidResponse(m) && m@ == match raw {
            Some(w) => prefix@ + error@ + ". Raw: "@ + w@,
            None => prefix@ + error@,
        },
{
    let mut m = String::from_str(prefix);
    m.append(error);
    if let Some(w) = raw {
        m.append(". Raw: ");
        m.append(w);
    }
    MicroserviceError::InvalidResponse(m)
}

/// Reads the answer to a resolve request. `parsed` is the answer line read
/// as JSON, or the parser's error text; `raw` is the line.
pub fn resolve_outcome(parsed: Result<ApiResponse<Track>, String>, raw: &str) -> (r: Result<Track, MicroserviceError>)
    ensures
        match parsed {
            Err(e) => r matches Err(MicroserviceError::InvalidResponse(m))
                && m@ == "Fallo parseo resolve: "@ + e@ + ". Raw: "@ + raw@,
            Ok(resp) => if resp.status@ == "ok"@ {
                match resp.data {
                    Some(t) => r == Ok::<Track, MicroserviceError>(t),
                    None => r matches Err(MicroserviceError::ServiceError(m))
                        && m@ == "El microservicio devolvió ok pero 'data' es null"@,
                }
            } else {
                r matches Err(MicroserviceError::ServiceError(m))
                    && m@ == service_message(resp.message, "Error desconocido del microservicio"@)
            },
        },
{
    match parsed {
        Err(e) => Err(parse_failure("Fallo parseo resolve: ", e.as_str(), Some(raw))),
        Ok(resp) => read_answer(resp, "Error desconocido del microservicio"),
    }
}

/// Reads the answer to a radio request, as [`resolve_outcome`] does for one
/// track.
pub fn radio_outcome(parsed: Result<ApiResponse<Vec<Track>>, String>, raw: &str) -> (r: Result<Vec<Track>, MicroserviceError>)
    ensures
        match parsed {
            Err(e) => r matches Err(MicroserviceError::InvalidResponse(m))
                && m@ == "Fallo parseo radio: "@ + e@ + ". Raw: "@ + raw@,
            Ok(resp) => if resp.status@ == "ok"@ {
                match resp.data {
                    Some(t) => r == Ok::<Vec<Track>, MicroserviceError>(t),
                    None => r matches Err(MicroserviceError::ServiceError(m))
                        && m@ == "El microservicio devolvió ok pero 'data' es null"@,
                }
            } else {
                r matches Err(MicroserviceError::ServiceError(m))
                    && m@ == service_message(
                    resp.message,
                    "Error al generar la radio desde el microservicio"@,
                )
            },
        },
{
    match parsed {
        Err(e) => Err(parse_failure("Fallo parseo radio: ", e.as_str(), Some(raw))),
        Ok(resp) => read_answer(resp, "Error al generar la radio desde el microservicio"),
    }
}

/// Reads the answer to a played request: only the status counts.
pub fn played_outcome(parsed: Result<ApiResponse<()>, String>) -> (r: Result<(), MicroserviceError>)
    ensures
        match parsed {
            Err(e) => r matches Err(MicroserviceError::InvalidResponse(m))
                && m@ == "Fallo parseo en mark_as_played: "@ + e@,
            Ok(resp) => if resp.status@ == "ok"@ {
                r is Ok
            } else {
                r matches Err(MicroserviceError::ServiceError(m))
                    && m@ == service_message(
                    resp.message,
                    "Error al registrar el play en el microservicio"@,
                )
            },
        },
{
    match parsed {
        Err(e) => Err(parse_failure("Fallo parseo en mark_as_played: ", e.as_str(), None)),
        Ok(resp) => {
            let ok = String::from_str("ok");
            if resp.status == ok {
                Ok(())
            } else {
                match resp.message {
                    Some(m) => Err(MicroserviceError::ServiceError(m)),
                    None => Err(MicroserviceError::ServiceError(
                        String::from_str("Error al registrar el play en el microservicio"),
                    )),
                }
            }
        },
    }
}

} // verus!
