use turl::address::{address_error_message, address_parser};
use turl::content::{choose_content_source, content_file_missing_message, content_prompt, ContentSource};
use turl::http::{build_http_request, http_method_validity_check, invalid_method_message};
use turl::response::{
    connection_error_message, invalid_utf8_message, render_response, save_conflict_prompt,
    save_decision, ConnectFailure, RenderOutcome, SaveAction,
};
use turl::text::normalize_text;

#[test]
fn address_without_scheme() {
    let p = address_parser("example.com/api/v1").unwrap();
    assert_eq!(p.scheme, None);
    assert_eq!(p.address, "example.com");
    assert_eq!(p.path, "/api/v1");
}

#[test]
fn address_with_scheme_is_lowercased() {
    let p = address_parser("HTTP://example.com").unwrap();
    assert_eq!(p.scheme, Some("http".to_string()));
    assert_eq!(p.address, "example.com");
    assert_eq!(p.path, "/");
}

#[test]
fn address_with_port_and_empty_segments() {
    let p = address_parser("http://example.com:8080/x//y").unwrap();
    assert_eq!(p.scheme, Some("http".to_string()));
    assert_eq!(p.address, "example.com:8080");
    assert_eq!(p.path, "/x//y");
}

#[test]
fn address_trailing_slash_keeps_empty_segment() {
    let p = address_parser("host/a/").unwrap();
    assert_eq!(p.address, "host");
    assert_eq!(p.path, "/a/");
}

#[test]
fn address_bare_slash_gives_root_path() {
    let p = address_parser("host/").unwrap();
    assert_eq!(p.address, "host");
    assert_eq!(p.path, "/");
}

#[test]
fn address_scheme_host_port_and_path_together() {
    let p = address_parser("https://h:1/p/q").unwrap();
    assert_eq!(p.scheme, Some("https".to_string()));
    assert_eq!(p.address, "h:1");
    assert_eq!(p.path, "/p/q");
}

#[test]
fn empty_address_still_parses() {
    let p = address_parser("").unwrap();
    assert_eq!(p.scheme, None);
    assert_eq!(p.address, "");
    assert_eq!(p.path, "/");
}

#[test]
fn address_with_two_scheme_separators_is_rejected() {
    assert!(address_parser("a://b://c").is_err());
    assert_eq!(
        address_error_message("a://b://c"),
        "Error: Couldn't parse address: a://b://c"
    );
}

#[test]
fn normalize_leaves_plain_text_alone() {
    assert_eq!(normalize_text("plain text, no escapes".to_string()), "plain text, no escapes");
    assert_eq!(normalize_text(String::new()), "");
}

#[test]
fn normalize_rewrites_the_six_escapes() {
    assert_eq!(normalize_text("\\n".to_string()), "\n");
    assert_eq!(normalize_text("\\\\".to_string()), "\\");
    assert_eq!(normalize_text("\\r\\t\\\"\\'".to_string()), "\r\t\"'");
    assert_eq!(normalize_text("a\\nb".to_string()), "a\nb");
}

#[test]
fn normalize_passes_run_in_fixed_order() {
    // The backslash-n pass runs before the double-backslash pass, so the
    // middle backslash of `\\n` is consumed by the earlier pass.
    assert_eq!(normalize_text("\\\\n".to_string()), "\\\n");
    // Unknown escapes pass through untouched.
    assert_eq!(normalize_text("\\x41".to_string()), "\\x41");
}

#[test]
fn inline_content_wins_over_content_file() {
    let r = choose_content_source(Some("abc".to_string()), Some("ignored.txt".to_string()));
    match r {
        ContentSource::Inline(t) => assert_eq!(t, "abc"),
        _ => panic!("inline content must win"),
    }
}

#[test]
fn content_file_wins_over_interactive() {
    let r = choose_content_source(None, Some("body.txt".to_string()));
    match r {
        ContentSource::FromFile(p) => assert_eq!(p, "body.txt"),
        _ => panic!("content file must come before interactive input"),
    }
    assert!(matches!(choose_content_source(None, None), ContentSource::Interactive));
}

#[test]
fn content_messages_are_verbatim() {
    assert_eq!(content_prompt(), "Enter Request Content (Ctrl+D to finish):");
    assert_eq!(content_file_missing_message(), "Error: Request content file not found");
}

#[test]
fn lowercase_method_is_accepted() {
    assert!(http_method_validity_check("get", false));
    assert!(http_method_validity_check("Options", false));
    let req = build_http_request("get", "/", "h", "", false).unwrap();
    assert!(req.starts_with("GET / HTTP/1.1\r\n"));
}

#[test]
fn unknown_method_is_rejected_without_force() {
    assert!(!http_method_validity_check("FOO", false));
    assert!(build_http_request("FOO", "/", "h", "", false).is_err());
    assert_eq!(
        invalid_method_message(),
        "Error: Invalid HTTP Method, use a valid HTTP method or use --force to ignore this check"
    );
}

#[test]
fn unknown_method_is_accepted_with_force() {
    assert!(http_method_validity_check("FOO", true));
    let req = build_http_request("foo", "/", "h", "", true).unwrap();
    assert!(req.starts_with("FOO / HTTP/1.1\r\n"));
}

#[test]
fn http_framing_is_exact() {
    let req = build_http_request("POST", "/x", "h", "abc", false).unwrap();
    assert_eq!(
        req,
        "POST /x HTTP/1.1\r\nHost: h\r\nUser-Agent: turl\r\nAccept: */*\r\nContent-Length: 3\r\n\r\nabc"
    );
}

#[test]
fn content_length_counts_bytes_not_chars() {
    let req = build_http_request("POST", "/", "h", "é", false).unwrap();
    assert!(req.contains("Content-Length: 2\r\n"));
    let req = build_http_request("POST", "/", "h", "", false).unwrap();
    assert!(req.contains("Content-Length: 0\r\n"));
}

#[test]
fn valid_utf8_response_renders_as_text() {
    let r = render_response(b"hello world".to_vec(), false);
    match r {
        RenderOutcome::Text(t) => assert_eq!(t, "hello world"),
        RenderOutcome::NotUtf8 => panic!("valid text must render"),
    }
}

#[test]
fn invalid_utf8_response_without_force_gives_warning() {
    let r = render_response(vec![0xff, 0xfe, 0x61], false);
    assert!(matches!(r, RenderOutcome::NotUtf8));
    assert_eq!(
        invalid_utf8_message(),
        "Response is not valid UTF-8. Use --force to print it anyway or save it to a file."
    );
}

#[test]
fn invalid_utf8_response_with_force_renders_lossily() {
    let r = render_response(vec![0xff, 0x61], true);
    match r {
        RenderOutcome::Text(t) => assert_eq!(t, "\u{fffd}a"),
        RenderOutcome::NotUtf8 => panic!("force must always render"),
    }
}

#[test]
fn save_to_new_path_creates() {
    let r = save_decision("out.bin", false, false, "");
    assert!(matches!(r.action, SaveAction::Create));
    assert_eq!(r.message, "Request content created at out.bin");
}

#[test]
fn save_to_existing_path_with_force_creates() {
    let r = save_decision("out.bin", true, true, "");
    assert!(matches!(r.action, SaveAction::Create));
    assert_eq!(r.message, "Request content created at out.bin");
}

#[test]
fn save_answer_o_overwrites() {
    let r = save_decision("out.bin", true, false, " o\n");
    assert!(matches!(r.action, SaveAction::Create));
    assert_eq!(r.message, "Request content saved to out.bin");
}

#[test]
fn save_answer_a_appends() {
    let r = save_decision("out.bin", true, false, "a\n");
    assert!(matches!(r.action, SaveAction::Append));
    assert_eq!(r.message, "Request content appended into out.bin");
}

#[test]
fn save_other_answers_cancel() {
    let r = save_decision("out.bin", true, false, "C");
    assert!(matches!(r.action, SaveAction::Cancel));
    assert_eq!(r.message, "Cancelled");
    let r = save_decision("out.bin", true, false, "");
    assert!(matches!(r.action, SaveAction::Cancel));
    assert_eq!(r.message, "Cancelled");
    assert_eq!(save_conflict_prompt(), "File already exists! (O)verride/(A)ppend/(C)ancel");
}

#[test]
fn connection_errors_classify_to_verbatim_messages() {
    assert_eq!(connection_error_message(&ConnectFailure::Refused), "Error: Connection refused");
    assert_eq!(
        connection_error_message(&ConnectFailure::TimedOut),
        "Error: Connection timed out"
    );
    assert_eq!(
        connection_error_message(&ConnectFailure::Other("boom".to_string())),
        "Error: boom"
    );
}
