use dapr_wasm::service::{
    classify_route, client_ip, cors_headers, events_route, grayscale_route, state_route, ClassifyRoute,
    Event, EventsRoute, GrayscaleRoute, HttpMethod, StateRoute, grayscale_reply, GrayscaleReply,
};
use dapr_wasm::imaging::{grayscale_internal, ImageFailure};
use image::{DynamicImage, ImageOutputFormat, RgbImage};
use std::io::Cursor;

#[test]
fn routes_event_requests() {
    assert_eq!(events_route(HttpMethod::Get, "/"), EventsRoute::Endpoints);
    assert_eq!(events_route(HttpMethod::Get, "/init"), EventsRoute::Init);
    assert_eq!(events_route(HttpMethod::Post, "/create_event"), EventsRoute::CreateEvent);
    assert_eq!(events_route(HttpMethod::Get, "/events"), EventsRoute::ListEvents);
    assert_eq!(events_route(HttpMethod::Post, "/events"), EventsRoute::NotFound);
    assert_eq!(events_route(HttpMethod::Get, "/create_event"), EventsRoute::NotFound);
    assert_eq!(events_route(HttpMethod::Options, "/"), EventsRoute::NotFound);
    assert_eq!(events_route(HttpMethod::Get, "/init/"), EventsRoute::NotFound);
}

#[test]
fn routes_grayscale_requests() {
    assert_eq!(grayscale_route(HttpMethod::Get, "/"), GrayscaleRoute::Instructions);
    assert_eq!(grayscale_route(HttpMethod::Options, "/grayscale"), GrayscaleRoute::Preflight);
    assert_eq!(grayscale_route(HttpMethod::Post, "/grayscale"), GrayscaleRoute::Grayscale);
    assert_eq!(grayscale_route(HttpMethod::Get, "/grayscale"), GrayscaleRoute::NotFound);
    assert_eq!(grayscale_route(HttpMethod::Other, "/"), GrayscaleRoute::NotFound);
}

#[test]
fn routes_classify_requests() {
    assert_eq!(classify_route(HttpMethod::Get, "/"), ClassifyRoute::Instructions);
    assert_eq!(classify_route(HttpMethod::Post, "/classify"), ClassifyRoute::Classify);
    assert_eq!(classify_route(HttpMethod::Post, "/"), ClassifyRoute::NotFound);
}

#[test]
fn routes_state_store_requests() {
    assert_eq!(state_route(HttpMethod::Get, "/"), StateRoute::Instructions);
    assert_eq!(state_route(HttpMethod::Post, "/"), StateRoute::Grayscale);
    assert_eq!(state_route(HttpMethod::Get, "/v1.0/state/statestore"), StateRoute::StateInstructions);
    assert_eq!(state_route(HttpMethod::Post, "/v1.0/state/statestore"), StateRoute::SaveState);
    assert_eq!(state_route(HttpMethod::Post, "/v1.0/state"), StateRoute::NotFound);
}

#[test]
fn picks_the_client_address() {
    assert_eq!(client_ip(Some("10.0.0.1")), "10.0.0.1");
    assert_eq!(client_ip(Some("192.168.1.20")), "192.168.1.20");
    assert_eq!(client_ip(None), "0.0.0.0");
}

#[test]
fn builds_cors_headers() {
    let h = cors_headers("image/png");
    let expected: Vec<(String, String)> = vec![
        ("Content-Type", "image/png"),
        ("Access-Control-Allow-Origin", "*"),
        ("Access-Control-Allow-Methods", "GET, POST, OPTIONS"),
        ("Access-Control-Allow-Headers", "api,Keep-Alive,User-Agent,Content-Type"),
    ]
    .into_iter()
    .map(|(a, b)| (a.to_string(), b.to_string()))
    .collect();
    assert_eq!(h, expected);
}

#[test]
fn makes_events() {
    let e = Event::new(1, "2022-10-09 23:40:52".to_string(), 2, 68016);
    assert_eq!((e.id, e.ts.as_str(), e.op_type, e.input_size), (1, "2022-10-09 23:40:52", 2, 68016));
}

#[test]
fn answers_posted_images() {
    let mut out = Cursor::new(Vec::new());
    DynamicImage::ImageRgb8(RgbImage::new(2, 2)).write_to(&mut out, ImageOutputFormat::Png).unwrap();
    let png = out.into_inner();
    let reply = grayscale_reply(&png).unwrap();
    assert_eq!(reply, GrayscaleReply::Grayscale(grayscale_internal(&png)));
    assert_eq!(reply.body(), grayscale_internal(&png));
    let unknown = grayscale_reply(b"hello").unwrap();
    assert_eq!(unknown, GrayscaleReply::UnknownFormat);
    assert_eq!(unknown.body(), "Unknown image format");
    assert_eq!(grayscale_reply(b"BM"), Err(ImageFailure::Decode));
}
