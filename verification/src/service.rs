//! Request routing and response details of the HTTP services.

use vstd::prelude::*;
use vstd::string::StringExecFns;
use vstd::utf8::encode_utf8;
use crate::imaging::{grayscale_text, grayscale_text_result, ImageFailure};
use crate::text::str_eq;

verus! {

/// The request methods the services tell apart.
#[derive(Debug, PartialEq, Eq)]
pub enum HttpMethod {
    Get,
    Post,
    Options,
    Other,
}

/// What the event recorder does with a request.
#[derive(Debug, PartialEq, Eq)]
pub enum EventsRoute {
    /// `GET /`: list the endpoints.
    Endpoints,
    /// `GET /init`: create the events table afresh.
    Init,
    /// `POST /create_event`: record the event in the body.
    CreateEvent,
    /// `GET /events`: list the recorded events.
    ListEvents,
    NotFound,
}

pub open spec fn events_route_spec(method: HttpMethod, path: Seq<char>) -> EventsRoute {
    match method {
        HttpMethod::Get => if path == "/"@ {
            EventsRoute::Endpoints
        } else if path == "/init"@ {
            EventsRoute::Init
        } else if path == "/events"@ {
            EventsRoute::ListEvents
        } else {
            EventsRoute::NotFound
        },
        HttpMethod::Post => if path == "/create_event"@ {
            EventsRoute::CreateEvent
        } else {
            EventsRoute::NotFound
        },
        _ => EventsRoute::NotFound,
    }
}

/// Routes a request to the event recorder.
pub fn events_route(method: HttpMethod, path: &str) -> (r: EventsRoute)
    ensures
        r == events_route_spec(method, path@),
{
    match method {
        HttpMethod::Get => if str_eq(path, "/") {
            EventsRoute::Endpoints
        } else if str_eq(path, "/init") {
            EventsRoute::Init
        } else if str_eq(path, "/events") {
            EventsRoute::ListEvents
        } else {
            EventsRoute::NotFound
        },
        HttpMethod::Post => if str_eq(path, "/create_event") {
            EventsRoute::CreateEvent
        } else {
            EventsRoute::NotFound
        },
        _ => EventsRoute::NotFound,
    }
}

/// What the grayscale service does with a request.
#[derive(Debug, PartialEq, Eq)]
pub enum GrayscaleRoute {
    /// `GET /`: explain how to use the service.
    Instructions,
    /// `OPTIONS /grayscale`: answer a CORS preflight.
    Preflight,
    /// `POST /grayscale`: turn the image in the body into grayscale.
    Grayscale,
    NotFound,
}

pub open spec fn grayscale_route_spec(method: HttpMethod, path: Seq<char>) -> GrayscaleRoute {
    match method {
        HttpMethod::Get => if path == "/"@ {
            GrayscaleRoute::Instructions
        } else {
            GrayscaleRoute::NotFound
        },
        HttpMethod::Options => if path == "/grayscale"@ {
            GrayscaleRoute::Preflight
        } else {
            GrayscaleRoute::NotFound
        },
        HttpMethod::Post => if path == "/grayscale"@ {
            GrayscaleRoute::Grayscale
        } else {
            GrayscaleRoute::NotFound
        },
        HttpMethod::Other => GrayscaleRoute::NotFound,
    }
}

/// Routes a request to the grayscale service.
pub fn grayscale_route(method: HttpMethod, path: &str) -> (r: GrayscaleRoute)
    ensures
        r == grayscale_route_spec(method, path@),
{
    match method {
        HttpMethod::Get => if str_eq(path, "/") {
            GrayscaleRoute::Instructions
        } else {
            GrayscaleRoute::NotFound
        },
        HttpMethod::Options => if str_eq(path, "/grayscale") {
            GrayscaleRoute::Preflight
        } else {
            GrayscaleRoute::NotFound
        },
        HttpMethod::Post => if str_eq(path, "/grayscale") {
            GrayscaleRoute::Grayscale
        } else {
            GrayscaleRoute::NotFound
        },
        HttpMethod::Other => GrayscaleRoute::NotFound,
    }
}

/// What the classification service does with a request.
#[derive(Debug, PartialEq, Eq)]
pub enum ClassifyRoute {
    /// `GET /`: explain how to use the service.
    Instructions,
    /// `POST /classify`: classify the image in the body.
    Classify,
    NotFound,
}

pub open spec fn classify_route_spec(method: HttpMethod, path: Seq<char>) -> ClassifyRoute {
    match method {
        HttpMethod::Get => if path == "/"@ {
            ClassifyRoute::Instructions
        } else {
            ClassifyRoute::NotFound
        },
        HttpMethod::Post => if path == "/classify"@ {
            ClassifyRoute::Classify
        } else {
            ClassifyRoute::NotFound
        },
        _ => ClassifyRoute::NotFound,
    }
}

/// Routes a request to the classification service.
pub fn classify_route(method: HttpMethod, path: &str) -> (r: ClassifyRoute)
    ensures
        r == classify_route_spec(method, path@),
{
    match method {
        HttpMethod::Get => if str_eq(path, "/") {
            ClassifyRoute::Instructions
        } else {
            ClassifyRoute::NotFound
        },
        HttpMethod::Post => if str_eq(path, "/classify") {
            ClassifyRoute::Classify
        } else {
            ClassifyRoute::NotFound
        },
        _ => ClassifyRoute::NotFound,
    }
}

/// What the grayscale service with a state store does with a request.
#[derive(Debug, PartialEq, Eq)]
pub enum StateRoute {
    /// `GET /`: explain how to use the grayscale endpoint.
    Instructions,
    /// `POST /`: turn the image in the body into grayscale.
    Grayscale,
    /// `GET /v1.0/state/statestore`: explain how to save state.
    StateInstructions,
    /// `POST /v1.0/state/statestore`: pass the body on to the state store.
    SaveState,
    NotFound,
}

pub open spec fn state_route_spec(method: HttpMethod, path: Seq<char>) -> StateRoute {
    match method {
        HttpMethod::Get => if path == "/"@ {
            StateRoute::Instructions
        } else if path == "/v1.0/state/statestore"@ {
            StateRoute::StateInstructions
        } else {
            StateRoute::NotFound
        },
        HttpMethod::Post => if path == "/"@ {
            StateRoute::Grayscale
        } else if path == "/v1.0/state/statestore"@ {
            StateRoute::SaveState
        } else {
            StateRoute::NotFound
        },
        _ => StateRoute::NotFound,
    }
}

/// Routes a request to the grayscale service with a state store.
pub fn state_route(method: HttpMethod, path: &str) -> (r: StateRoute)
    ensures
        r == state_route_spec(method, path@),
{
    match method {
        HttpMethod::Get => if str_eq(path, "/") {
            StateRoute::Instructions
        } else if str_eq(path, "/v1.0/state/statestore") {
            StateRoute::StateInstructions
        } else {
            StateRoute::NotFound
        },
        HttpMethod::Post => if str_eq(path, "/") {
            StateRoute::Grayscale
        } else if str_eq(path, "/v1.0/state/statestore") {
            StateRoute::SaveState
        } else {
            StateRoute::NotFound
        },
        _ => StateRoute::NotFound,
    }
}

/// The address under which a client's last request is recorded: the address of the
/// peer the request came from, or `0.0.0.0` when it is not known.
pub fn client_ip<'a>(peer: Option<&'a str>) -> (r: &'a str)
    ensures
        r@ == (match peer {
            Some(x) => x@,
            None => "0.0.0.0"@,
        }),
{
    match peer {
        Some(x) => x,
        None => "0.0.0.0",
    }
}

/// The grayscale service's answer to a posted image.
#[derive(Debug, PartialEq, Eq)]
pub enum GrayscaleReply {
    /// The grayscale image, as Base64 text.
    Grayscale(String),
    /// The image's format is not known.
    UnknownFormat,
}

/// `r` read as [`grayscale_text_result`] reads an outcome.
pub open spec fn reply_result(r: Result<GrayscaleReply, ImageFailure>) -> Result<Seq<u8>, ImageFailure> {
    match r {
        Ok(GrayscaleReply::Grayscale(t)) => Ok(encode_utf8(t@)),
        Ok(GrayscaleReply::UnknownFormat) => Err(ImageFailure::UnknownFormat),
        Err(e) => Err(e),
    }
}

/// What the grayscale service answers for the posted image `image`: the grayscale
/// image as Base64 text, or that the format is not known; or the failure (decoding
/// or encoding) for which it has no answer.
pub fn grayscale_reply(image: &[u8]) -> (r: Result<GrayscaleReply, ImageFailure>)
    ensures
        reply_result(r) == grayscale_text_result(image@),
        !(r matches Err(ImageFailure::UnknownFormat)),
{
    match grayscale_text(image) {
        Ok(t) => Ok(GrayscaleReply::Grayscale(t)),
        Err(ImageFailure::UnknownFormat) => Ok(GrayscaleReply::UnknownFormat),
        Err(e) => Err(e),
    }
}

impl GrayscaleReply {
    /// The body of the response that carries this answer.
    pub fn body(&self) -> (s: String)
        ensures
            s@ == (match self {
                GrayscaleReply::Grayscale(t) => t@,
                GrayscaleReply::UnknownFormat => "Unknown image format"@,
            }),
    {
        match self {
            GrayscaleReply::Grayscale(t) => t.clone(),
            GrayscaleReply::UnknownFormat => String::from_str("Unknown image format"),
        }
    }
}

/// The headers of a grayscale response with content type `content_type`, open to
/// every origin (CORS).
pub fn cors_headers(content_type: &str) -> (r: Vec<(String, String)>)
    ensures
        r.len() == 4,
        r@[0].0@ == "Content-Type"@,
        r@[0].1@ == content_type@,
        r@[1].0@ == "Access-Control-Allow-Origin"@,
        r@[1].1@ == "*"@,
        r@[2].0@ == "Access-Control-Allow-Methods"@,
        r@[2].1@ == "GET, POST, OPTIONS"@,
        r@[3].0@ == "Access-Control-Allow-Headers"@,
        r@[3].1@ == "api,Keep-Alive,User-Agent,Content-Type"@,
{
    let mut r: Vec<(String, String)> = Vec::new();
    r.push((String::from_str("Content-Type"), String::from_str(content_type)));
    r.push((String::from_str("Access-Control-Allow-Origin"), String::from_str("*")));
    r.push((String::from_str("Access-Control-Allow-Methods"), String::from_str("GET, POST, OPTIONS")));
    r.push(
        (
            String::from_str("Access-Control-Allow-Headers"),
            String::from_str("api,Keep-Alive,User-Agent,Content-Type"),
        ),
    );
    r
}

/// A recorded request: its row id, timestamp, kind of operation (1: grayscale,
/// 2: classify) and input size in bytes.
#[derive(Debug, PartialEq, Eq)]
pub struct Event {
    pub id: i32,
    pub ts: String,
    pub op_type: i32,
    pub input_size: i32,
}

impl Event {
    pub fn new(id: i32, ts: String, op_type: i32, input_size: i32) -> (e: Self)
        ensures
            e.id == id,
            e.ts@ == ts@,
            e.op_type == op_type,
            e.input_size == input_size,
    {
        Self { id, ts, op_type, input_size }
    }
}

} // verus!
