use url_bot::classify::Features;
use url_bot::cli::Args;
use url_bot::message::{format_reply, is_url_candidate, mask_name, token_action, PreviousPost, TokenAction, REPLY_BYTES};
use url_bot::resolve::{failure_record, ErrorInfo, ResolveConfig};

fn headers(v: &[(&str, Option<&str>)]) -> Vec<(String, Option<String>)> {
    v.iter().map(|(k, v)| (k.to_string(), v.map(String::from))).collect()
}

#[test]
fn error_info_keeps_last_value_per_header() {
    let hs = headers(&[
        ("content-type", Some("text/html")),
        ("set-cookie", Some("a=1")),
        ("x-bin", None),
        ("set-cookie", Some("b=2")),
    ]);
    let e = ErrorInfo::new("TitleParseFailed".to_string(), 200, Some("OK".to_string()), &hs);
    assert_eq!(e.error, "TitleParseFailed");
    assert_eq!(e.status, 200);
    assert_eq!(e.reason, "OK");
    let mut got = e.headers.clone();
    got.sort();
    assert_eq!(
        got,
        vec![
            ("content-type".to_string(), "text/html".to_string()),
            ("set-cookie".to_string(), "b=2".to_string()),
            ("x-bin".to_string(), "ERROR".to_string()),
        ]
    );
}

#[test]
fn error_info_without_reason_is_unknown() {
    let e = ErrorInfo::new("x".to_string(), 599, None, &vec![]);
    assert_eq!(e.reason, "UNKNOWN");
    assert!(e.headers.is_empty());
}

#[test]
fn failure_recorded_only_with_history() {
    let mut conf = ResolveConfig::default();
    assert!(failure_record(&conf, "e".to_string(), 500, None, &vec![]).is_some());
    conf.history = false;
    assert!(failure_record(&conf, "e".to_string(), 500, None, &vec![]).is_none());
}

#[test]
fn url_candidates() {
    assert!(is_url_candidate("http://example.com/"));
    assert!(is_url_candidate("https://example.com/a?b=c"));
    assert!(!is_url_candidate("ftp://example.com/"));
    assert!(!is_url_candidate("example.com"));
    assert!(!is_url_candidate("hello"));
    assert!(!is_url_candidate("http://z.zzz/{"));
}

#[test]
fn reply_for_a_new_url() {
    assert_eq!(format_reply("A title", &None, true), "\u{2937} A title");
}

#[test]
fn reply_for_a_repost() {
    let prev = Some(PreviousPost {
        user: "bob".to_string(),
        time_created: "2018-01-01 12:00:00".to_string(),
        channel: "#rust".to_string(),
    });
    assert_eq!(
        format_reply("A title", &prev, true),
        "\u{2937} A title \u{2192} 2018-01-01 12:00:00 b\u{200C}ob (#rust)"
    );
    assert_eq!(
        format_reply("A title", &prev, false),
        "\u{2937} A title \u{2192} 2018-01-01 12:00:00 bob (#rust)"
    );
}

#[test]
fn reply_is_cut_to_the_byte_budget() {
    let long = "\u{2665}".repeat(400);
    let r = format_reply(&long, &None, false);
    assert!(r.len() <= REPLY_BYTES);
    assert!(r.len() > REPLY_BYTES - 3);
    assert!(r.starts_with("\u{2937} \u{2665}"));
}

#[test]
fn mask_name_after_head() {
    assert_eq!(mask_name("alice", "a"), "a\u{200C}lice");
    assert_eq!(mask_name("", ""), "\u{200C}");
}

#[test]
fn args_give_the_config() {
    let args = Args {
        flag_verbose: 0,
        flag_quiet: false,
        flag_debug: false,
        arg_url: "http://a/".to_string(),
        flag_user_agent: None,
        flag_accept_lang: Some("de".to_string()),
        flag_metadata: false,
        flag_mime: true,
        flag_db: None,
        flag_conf: None,
    };
    let conf = args.config();
    assert_eq!(conf.accept_lang, "de");
    assert_eq!(conf.features, Features { report_metadata: false, report_mime: true });
    assert!(!conf.history);
    let args = Args { flag_accept_lang: None, ..args };
    assert_eq!(args.config().accept_lang, "en");
}

#[test]
fn token_actions() {
    assert_eq!(token_action(0, 3, "https://a.b/"), TokenAction::Resolve);
    assert_eq!(token_action(1, 3, "word"), TokenAction::Skip);
    assert_eq!(token_action(3, 3, "https://a.b/"), TokenAction::Stop);
}
