use url_bot::classify::{Classifier, Decision, Extractor, Features, CHUNK_BYTES, CHUNKS_MAX};
use url_bot::resolve::{resolve_url, ResolveConfig};
use url_bot::session::{ResolveError, Session, Step, USER_AGENT};

/// One scripted response: status, Set-Cookie values, Location.
struct Hop {
    status: u16,
    set_cookies: Vec<String>,
    location: Option<String>,
}

/// One scripted body: declared type and length, the body, and what the
/// title and image sources give for it.
struct Body {
    content_type: Option<&'static str>,
    content_length: Option<u64>,
    bytes: Vec<u8>,
    title: Option<&'static str>,
    image: Option<&'static str>,
}

fn classify(body: &Body, features: Features) -> Result<String, ResolveError> {
    let mut c = Classifier::new(body.content_type, body.content_length, features);
    let mut offset = 0usize;
    while let Some(n) = c.next_read() {
        let end = std::cmp::min(offset + n as usize, body.bytes.len());
        c.push_chunk(&body.bytes[offset..end]);
        offset = end;
        match c.decide(body.title.map(String::from), body.image.map(String::from)) {
            Decision::Found(t) => return Ok(t),
            Decision::GiveUp => return Err(ResolveError::TitleParseFailed),
            Decision::ReadMore => {}
        }
    }
    Err(ResolveError::TitleParseFailed)
}

fn run(url: &str, conf: &ResolveConfig, hops: Vec<Hop>, body: &Body) -> Result<String, ResolveError> {
    let (mut session, first) = resolve_url(url, conf);
    assert_eq!(first.url, url);
    for hop in hops {
        match session.on_response(hop.status, &hop.set_cookies, hop.location) {
            Step::Follow(_) => {}
            Step::Done => return classify(body, conf.features),
            Step::Fail(e) => return Err(e),
        }
    }
    panic!("script ended before the session did");
}

fn html(title: &'static str) -> Body {
    Body {
        content_type: Some("text/html; charset=utf-8"),
        content_length: None,
        bytes: format!("<html><head><title>{}</title></head></html>", title).into_bytes(),
        title: Some(title),
        image: None,
    }
}

fn hop(status: u16, cookies: &[&str], location: Option<&str>) -> Hop {
    Hop {
        status,
        set_cookies: cookies.iter().map(|s| s.to_string()).collect(),
        location: location.map(String::from),
    }
}

#[test]
fn resolve_urls() {
    let rtd = ResolveConfig::default();
    run(
        "https://youtube.com",
        &rtd,
        vec![
            hop(301, &["VISITOR=abc; Path=/"], Some("https://www.youtube.com/")),
            hop(200, &[], None),
        ],
        &html("YouTube"),
    )
    .unwrap();
    run(
        "https://google.co.uk",
        &rtd,
        vec![
            hop(301, &[], Some("https://www.google.co.uk/")),
            hop(302, &["NID=1; Path=/"], Some("https://www.google.co.uk/?gws_rd=ssl")),
            hop(200, &[], None),
        ],
        &html("Google"),
    )
    .unwrap();
}

fn served(path: &str) -> Body {
    match path {
        "./test/img/test.png" => Body {
            content_type: Some("image/png"),
            content_length: Some(4096),
            bytes: vec![0x89u8; 4096],
            title: None,
            image: Some("image/png 800×400"),
        },
        "./test/img/test.jpg" => Body {
            content_type: Some("image/jpeg"),
            content_length: Some(2048),
            bytes: vec![0xffu8; 2048],
            title: None,
            image: Some("image/jpeg 400×200"),
        },
        "./test/img/test.gif" => Body {
            content_type: Some("image/gif"),
            content_length: Some(1024),
            bytes: vec![0x47u8; 1024],
            title: None,
            image: Some("image/gif 1920×1080"),
        },
        "./test/html/basic.html" => Body {
            content_type: Some("text/html; charset=utf8"),
            content_length: None,
            bytes: b"<html><title>basic</title></html>".to_vec(),
            title: Some("basic"),
            image: None,
        },
        "./test/other/test.txt" => Body {
            content_type: Some("text/plain; charset=utf8"),
            content_length: Some(16),
            bytes: b"some plain text\n".to_vec(),
            title: None,
            image: None,
        },
        "./test/other/test.pdf" => Body {
            content_type: Some("application/pdf"),
            content_length: Some(1341),
            bytes: vec![0x25u8; 1341],
            title: None,
            image: None,
        },
        _ => panic!("no such file"),
    }
}

fn serve_resolve(path: &str, rtd: &ResolveConfig) -> Result<String, ResolveError> {
    run("http://0.0.0.0:28482/test", rtd, vec![hop(200, &[], None)], &served(path))
}

#[test]
fn resolve_locally_served_files() {
    let mut rtd = ResolveConfig::default();

    // metadata and mime disabled
    rtd.features.report_metadata = false;
    rtd.features.report_mime = false;

    for t in vec!["./test/img/test.gif", "./test/other/test.txt", "./test/other/test.pdf"] {
        assert!(serve_resolve(t, &rtd).is_err());
    }

    // metadata and mime enabled
    rtd.features.report_metadata = true;
    rtd.features.report_mime = true;

    for t in vec![
        ("./test/img/test.png", "image/png 800×400"),
        ("./test/img/test.jpg", "image/jpeg 400×200"),
        ("./test/img/test.gif", "image/gif 1920×1080"),
        ("./test/html/basic.html", "basic"),
        ("./test/other/test.txt", "text/plain; charset=utf8 16B"),
        ("./test/other/test.pdf", "application/pdf 1.31KB"),
    ] {
        assert_eq!(serve_resolve(t.0, &rtd).unwrap(), String::from(t.1))
    }
}

#[test]
fn verify_request_headers() {
    let (_, rq) = resolve_url("http://0.0.0.0:28282/test", &ResolveConfig::default());
    assert_eq!(rq.user_agent, format!("Mozilla/5.0 url-bot-rs/{}", "0.1.0"));
    assert_eq!(rq.user_agent, USER_AGENT);
    assert_eq!(rq.cookie, "");
    assert_eq!(rq.accept_lang, "en");
    assert_eq!(rq.accept_encoding, "identity");
    assert_eq!(rq.url, "http://0.0.0.0:28282/test");
}

#[test]
fn html_title_wins_over_declared_type() {
    let mut body = served("./test/html/basic.html");
    body.content_type = Some("application/octet-stream");
    assert_eq!(classify(&body, Features { report_metadata: true, report_mime: true }).unwrap(), "basic");
    body.content_type = None;
    assert_eq!(classify(&body, Features { report_metadata: true, report_mime: true }).unwrap(), "basic");
}

#[test]
fn title_in_first_chunk_reads_one_chunk() {
    let mut c = Classifier::new(Some("text/html"), Some(50_000_000), Features { report_metadata: true, report_mime: true });
    assert_eq!(c.next_read(), Some(CHUNK_BYTES));
    c.push_chunk(&vec![b'a'; CHUNK_BYTES as usize]);
    assert_eq!(c.decide(Some("t".to_string()), None), Decision::Found("t".to_string()));
    assert_eq!(c.chunks, 1);
    assert_eq!(c.next_read(), None);
}

#[test]
fn reading_stops_at_the_ceiling() {
    let mut c = Classifier::new(Some("text/html"), None, Features { report_metadata: true, report_mime: true });
    let chunk = vec![b'x'; CHUNK_BYTES as usize];
    let mut reads = 0u64;
    loop {
        match c.next_read() {
            Some(n) => {
                assert_eq!(n, CHUNK_BYTES);
                c.push_chunk(&chunk);
                reads += 1;
                if c.decide(None, None) == Decision::GiveUp {
                    break;
                }
            }
            None => break,
        }
    }
    assert_eq!(reads, CHUNKS_MAX);
    assert_eq!(c.body.len() as u64, CHUNKS_MAX * CHUNK_BYTES);
    assert_eq!(c.next_read(), None);
}

#[test]
fn short_body_without_title_gives_up_after_one_chunk() {
    let mut c = Classifier::new(None, None, Features { report_metadata: true, report_mime: true });
    c.push_chunk(b"no title here");
    assert_eq!(c.decide(None, Some("image/png 1×1".to_string())), Decision::GiveUp);
    assert_eq!(c.next_read(), None);
}

#[test]
fn undeclared_type_tries_only_the_title() {
    let c = Classifier::new(None, Some(10), Features { report_metadata: true, report_mime: true });
    assert_eq!(c.plan(), vec![Extractor::Title]);
    let c = Classifier::new(Some("not a mime type"), Some(10), Features { report_metadata: true, report_mime: true });
    assert_eq!(c.plan(), vec![Extractor::Title]);
}

#[test]
fn image_plan_has_every_fallback() {
    let c = Classifier::new(Some("image/png"), Some(10), Features { report_metadata: true, report_mime: true });
    assert_eq!(c.plan(), vec![Extractor::Title, Extractor::ImageMeta, Extractor::MimeSummary]);
    let c = Classifier::new(Some("application/pdf"), Some(10), Features { report_metadata: true, report_mime: true });
    assert_eq!(c.plan(), vec![Extractor::Title, Extractor::MimeSummary]);
}

#[test]
fn mime_summary_of_an_image_without_dimensions() {
    let mut c = Classifier::new(Some("image/png"), Some(2048), Features { report_metadata: true, report_mime: true });
    c.push_chunk(&[1u8; 10]);
    assert_eq!(c.decide(None, None), Decision::Found("image/png 2KB".to_string()));
}

#[test]
fn text_decodes_lossily() {
    let mut c = Classifier::new(None, None, Features { report_metadata: false, report_mime: false });
    c.push_chunk(&[b'a', 0xff, b'b']);
    assert_eq!(c.text(), "a\u{FFFD}b");
}

#[test]
fn new_session_defaults() {
    let s = Session::new();
    assert_eq!(s.params.timeout_s, 10);
    assert_eq!(s.params.redirect_limit, 10);
    assert_eq!(s.params.accept_lang, "en");
    assert!(s.cookies.is_empty());
    assert_eq!(s.request_count, 0);
}

#[test]
fn accept_lang_is_chained() {
    let mut s = Session::new();
    s.accept_lang("de").accept_lang("fr");
    assert_eq!(s.params.accept_lang, "fr");
}

#[test]
fn image_source_asked_only_when_planned_and_untitled() {
    let on = Features { report_metadata: true, report_mime: true };
    let c = Classifier::new(Some("image/gif"), None, on);
    assert!(c.wants_image(&None));
    assert!(c.wants_image(&Some(String::new())));
    assert!(!c.wants_image(&Some("t".to_string())));
    let c = Classifier::new(None, None, on);
    assert!(!c.wants_image(&None));
    let c = Classifier::new(Some("image/gif"), None, Features { report_metadata: false, report_mime: true });
    assert!(!c.wants_image(&None));
}
