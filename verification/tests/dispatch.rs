use framework::dispatch::{Decision, Format, FrameworkBuilder, FrameworkMiddleware, Response};
use framework::error::Error;
use framework::page::PageDescriptor;

const HEADER: &str = "<!DOCTYPE html>\n<html>\n    <head>\n        <script type='text/javascript' src='https://cdnjs.cloudflare.com/ajax/libs/knockout/3.5.0/knockout-min.js'></script>\n        <script type='text/javascript' src='/static/script.js'></script>\n    </head>\n    <body>\n";
const FOOTER: &str = "    </body>\n        </html>";

fn page(url: &str, mark: &str) -> PageDescriptor {
    PageDescriptor {
        url: url.to_string(),
        head: format!("<{}>load(", mark),
        tail: format!(");</{}>", mark),
        refresh: None,
    }
}

fn middleware() -> FrameworkMiddleware {
    let builder = FrameworkBuilder::default()
        .add_page(page("/uptime", "u"))
        .add_page(page("/vms", "v"))
        .add_page(page("/vms", "w"))
        .add_page(page("/vms.json", "x"));
    builder.into_middleware().1
}

fn document(body: &str) -> String {
    format!("{}{}{}", HEADER, body, FOOTER)
}

fn io_failure() -> std::io::Error {
    std::io::Error::new(std::io::ErrorKind::NotFound, "virsh is missing")
}

#[test]
fn builder_keeps_state_and_order() {
    let builder = FrameworkBuilder::with_state(7u32);
    assert_eq!(builder.state, 7);
    assert!(builder.pages.is_empty());
    let (state, served) = builder.add_page(page("/a", "a")).add_page(page("/b", "b")).into_middleware();
    assert_eq!(state, 7);
    assert_eq!(served.pages, vec![page("/a", "a"), page("/b", "b")]);
    assert!(FrameworkBuilder::default().pages.is_empty());
}

#[test]
fn static_assets_are_passed_on() {
    let served = middleware();
    assert_eq!(served.handle("/static/script.js"), Decision::Forward);
    assert_eq!(served.handle("/static"), Decision::Forward);
    assert_eq!(served.handle("/static.json"), Decision::Forward);
    assert_eq!(served.handle("/staticky"), Decision::Forward);
}

#[test]
fn a_registered_route_is_constructed() {
    let served = middleware();
    assert_eq!(served.handle("/uptime"), Decision::Construct { page: 0, format: Format::Html });
    assert_eq!(served.handle("/uptime.json"), Decision::Construct { page: 0, format: Format::Json });
}

#[test]
fn the_first_page_of_a_route_is_served() {
    let served = middleware();
    assert_eq!(served.handle("/vms"), Decision::Construct { page: 1, format: Format::Html });
    assert_eq!(served.handle("/vms.json"), Decision::Construct { page: 1, format: Format::Json });
    assert_eq!(served.handle("/vms.json.json"), Decision::Construct { page: 3, format: Format::Json });
}

#[test]
fn routes_match_exactly() {
    let served = middleware();
    let miss = Decision::Respond(Response {
        status: 404,
        content_type: Format::Html,
        body: document("Not found"),
    });
    assert_eq!(served.handle("/uptime/"), miss);
    assert_eq!(served.handle("/upt"), miss);
    assert_eq!(served.handle("/"), miss);
    assert_eq!(served.handle(""), miss);
    assert_eq!(served.handle("/Uptime"), miss);
    assert_eq!(served.handle("x/static"), miss);
}

#[test]
fn an_unregistered_route_is_not_found() {
    let served = middleware();
    match served.handle("/missing") {
        Decision::Respond(response) => {
            assert_eq!(response.status, 404);
            assert_eq!(response.content_type, Format::Html);
            assert_eq!(response.body, document("Not found"));
        }
        other => panic!("unexpected {:?}", other),
    }
    match served.handle("/missing.json") {
        Decision::Respond(response) => {
            assert_eq!(response.status, 404);
            assert_eq!(response.content_type, Format::Json);
            assert_eq!(response.body, "{\"error\":\"not found\"}");
            let value: serde_json::Value = serde_json::from_str(&response.body).expect("JSON");
            assert!(value.get("error").is_some());
        }
        other => panic!("unexpected {:?}", other),
    }
}

#[test]
fn no_pages_no_routes() {
    let served = FrameworkBuilder::default().into_middleware().1;
    assert_eq!(served.handle("/static/x"), Decision::Forward);
    assert!(matches!(served.handle("/"), Decision::Respond(_)));
    assert!(matches!(served.handle("/.json"), Decision::Respond(_)));
}

#[test]
fn a_constructed_page_is_rendered() {
    let served = middleware();
    let html = served.complete(0, Format::Html, Ok("{\"uptime\":\"42s\"}".to_string()));
    assert_eq!(html.status, 200);
    assert_eq!(html.content_type, Format::Html);
    assert_eq!(html.body, document("<u>load({\"uptime\":\"42s\"});</u>"));
    let json = served.complete(0, Format::Json, Ok("{\"uptime\":\"42s\"}".to_string()));
    assert_eq!(json.status, 200);
    assert_eq!(json.content_type, Format::Json);
    assert_eq!(json.body, "{\"uptime\":\"42s\"}");
}

#[test]
fn a_failed_construction_is_reported() {
    let served = middleware();
    let failure = || Error::String("virsh \"list\" failed".to_string());
    let html = served.complete(1, Format::Html, Err(failure()));
    assert_eq!(html.status, 500);
    assert_eq!(html.content_type, Format::Html);
    assert_eq!(
        html.body,
        document("<h1>Internal server error</h1>String(\"virsh \\\"list\\\" failed\")")
    );
    assert!(html.body.contains(&format!("{:?}", failure())));
    let json = served.complete(1, Format::Json, Err(failure()));
    assert_eq!(json.status, 500);
    assert_eq!(json.content_type, Format::Json);
    let value: serde_json::Value = serde_json::from_str(&json.body).expect("JSON");
    assert_eq!(
        value.get("error").and_then(|detail| detail.as_str()),
        Some("String(\"virsh \\\"list\\\" failed\")")
    );
    assert_eq!(json.body, "{\"error\":\"String(\\\"virsh \\\\\\\"list\\\\\\\" failed\\\")\"}");
}

#[test]
fn an_io_failure_is_reported() {
    let served = middleware();
    let expected = format!("{:?}", Error::Io(io_failure()));
    let html = served.complete(0, Format::Html, Err(Error::from(io_failure())));
    assert_eq!(html.status, 500);
    assert_eq!(html.body, document(&format!("<h1>Internal server error</h1>{}", expected)));
    let json = served.complete(0, Format::Json, Err(Error::from(io_failure())));
    assert_eq!(json.status, 500);
    let value: serde_json::Value = serde_json::from_str(&json.body).expect("JSON");
    assert_eq!(value.get("error").and_then(|detail| detail.as_str()), Some(expected.as_str()));
}

#[test]
fn render_takes_the_detail_as_it_is() {
    let served = middleware();
    let html = served.render(2, Format::Html, Err("out of luck".to_string()));
    assert_eq!(html.status, 500);
    assert_eq!(html.body, document("<h1>Internal server error</h1>out of luck"));
    let json = served.render(2, Format::Json, Err("out of \"luck\"".to_string()));
    assert_eq!(json.status, 500);
    assert_eq!(json.body, "{\"error\":\"out of \\\"luck\\\"\"}");
    let page = served.render(2, Format::Html, Ok("{}".to_string()));
    assert_eq!(page.status, 200);
    assert_eq!(page.body, document("<w>load({});</w>"));
}

#[test]
fn a_page_index_that_names_no_page() {
    let served = middleware();
    let html = served.complete(4, Format::Html, Ok("{}".to_string()));
    assert_eq!(html.status, 404);
    assert_eq!(html.body, document("Not found"));
    let json = served.render(99, Format::Json, Err("x".to_string()));
    assert_eq!(json.status, 404);
    assert_eq!(json.body, "{\"error\":\"not found\"}");
}

#[test]
fn documents_and_data() {
    let served = middleware();
    let html = served.generate_html(418, "<p>tea</p>");
    assert_eq!(html, Response {
        status: 418,
        content_type: Format::Html,
        body: document("<p>tea</p>"),
    });
    assert!(html.body.starts_with("<!DOCTYPE html>"));
    assert!(html.body.ends_with("</html>"));
    let json = served.generate_json(201, "[1,2]".to_string());
    assert_eq!(json, Response { status: 201, content_type: Format::Json, body: "[1,2]".to_string() });
}

#[test]
fn errors_are_described_as_they_are_debugged() {
    let words = Error::from("a\tb \"c\" \u{e9}\n".to_string());
    assert_eq!(words.detail(), format!("{:?}", words));
    let io = Error::from(io_failure());
    assert_eq!(io.detail(), format!("{:?}", io));
    assert!(matches!(io, Error::Io(_)));
    let tide = Error::Tide(io_failure());
    assert_eq!(tide.detail(), format!("{:?}", tide));
    assert!(tide.detail().starts_with("Tide("));
}

#[test]
fn the_variant_frames_the_detail() {
    assert_eq!(Error::framed("Io", "gone"), "Io(gone)");
    assert_eq!(Error::framed("String", "\"x\""), "String(\"x\")");
    assert_eq!(Error::framed("", ""), "()");
}

#[test]
fn the_detail_is_escaped_as_a_json_string() {
    let served = middleware();
    let cases = vec![
        ("plain", "plain"),
        ("", ""),
        ("say \"hi\"", "say \\\"hi\\\""),
        ("a\\b", "a\\\\b"),
        ("\u{8}\t\n\u{c}\r", "\\b\\t\\n\\f\\r"),
        ("\u{0}\u{1}\u{b}\u{e}\u{1f}", "\\u0000\\u0001\\u000b\\u000e\\u001f"),
        (" /'<>&\u{7f}", " /'<>&\u{7f}"),
        ("\u{e9}\u{2028}\u{1f600}", "\u{e9}\u{2028}\u{1f600}"),
    ];
    for (detail, escaped) in cases {
        let response = served.render(0, Format::Json, Err(detail.to_string()));
        assert_eq!(response.status, 500);
        assert_eq!(response.body, format!("{{\"error\":\"{}\"}}", escaped));
    }
}
