use live_reload::path_guard::{confine, index_path, target_path, within_root};
use live_reload::reply::{is_html_path, render, Payload};
use live_reload::rewrite::{inject_reload, CLOSE_BODY, RELOAD_MARKUP};

fn html_of(p: Payload) -> String {
    match p {
        Payload::Html(t) => t,
        Payload::Raw { .. } => panic!("expected an HTML page"),
    }
}

#[test]
fn root_request_serves_index_with_reload_script() {
    let root = "/srv/site";
    let target = target_path(root, "");
    assert_eq!(target, "/srv/site/index.html");
    let resolved = confine(root, Some(target.clone())).expect("index page is served");
    let page = html_of(render(&resolved, b"<html><body>Hi</body></html>".to_vec()));
    assert!(page.contains("Hi"));
    let expected = format!("<html><body>Hi{}</body></html>", RELOAD_MARKUP);
    assert_eq!(page, expected);
}

#[test]
fn slash_request_targets_index() {
    assert_eq!(target_path("/srv/site", "/"), "/srv/site/index.html");
    assert_eq!(target_path("/", ""), "/index.html");
}

#[test]
fn traversal_outside_root_is_not_found() {
    let root = "/srv/site";
    let target = target_path(root, "../../etc/passwd");
    assert_eq!(target, "/srv/site/../../etc/passwd");
    assert_eq!(confine(root, Some("/etc/passwd".to_string())), None);
}

#[test]
fn leading_slashes_are_stripped() {
    assert_eq!(target_path("/srv/site", "//css/app.css"), "/srv/site/css/app.css");
    assert_eq!(target_path("/srv/site/", "a/b.js"), "/srv/site/a/b.js");
}

#[test]
fn sibling_with_same_name_prefix_is_outside() {
    assert!(!within_root("/srv/site", "/srv/site-evil/index.html"));
    assert_eq!(confine("/srv/site", Some("/srv/site-evil/index.html".to_string())), None);
}

#[test]
fn paths_beneath_root_are_within() {
    assert!(within_root("/srv/site", "/srv/site"));
    assert!(within_root("/srv/site", "/srv/site/a/b.html"));
    assert!(within_root("/", "/etc/passwd"));
    assert!(!within_root("/srv/site", "/srv"));
    assert_eq!(
        confine("/srv/site", Some("/srv/site/a.css".to_string())),
        Some("/srv/site/a.css".to_string())
    );
}

#[test]
fn failed_canonicalization_is_not_found() {
    assert_eq!(confine("/srv/site", None), None);
}

#[test]
fn directory_fallback_names_its_index() {
    assert_eq!(index_path("/srv/site/docs"), "/srv/site/docs/index.html");
    assert_eq!(index_path("/srv/site/docs/"), "/srv/site/docs/index.html");
}

#[test]
fn html_detection_ignores_case() {
    assert!(is_html_path("/srv/site/index.html"));
    assert!(is_html_path("/srv/site/PAGE.HTM"));
    assert!(is_html_path("/srv/site/a.HtMl"));
    assert!(!is_html_path("/srv/site/.html"));
    assert!(!is_html_path("/srv/site/a.htmlx"));
    assert!(!is_html_path("/srv/site/style.css"));
    assert!(!is_html_path("html"));
}

#[test]
fn single_tag_gets_script_before_it() {
    let out = inject_reload("<body>x</body>\n");
    assert_eq!(out, format!("<body>x{}</body>\n", RELOAD_MARKUP));
    assert_eq!(out.matches(CLOSE_BODY).count(), 1);
}

#[test]
fn page_without_tag_gets_script_appended() {
    let out = inject_reload("<p>plain</p>");
    assert_eq!(out, format!("<p>plain</p>{}", RELOAD_MARKUP));
    assert!(!out.contains(CLOSE_BODY));
    assert_eq!(inject_reload(""), RELOAD_MARKUP);
}

#[test]
fn only_first_tag_is_rewritten() {
    let out = inject_reload("a</body>b</body>");
    assert_eq!(out, format!("a{}</body>b</body>", RELOAD_MARKUP));
}

#[test]
fn tag_split_across_markup_is_not_matched() {
    assert_eq!(inject_reload("</bod"), format!("</bod{}", RELOAD_MARKUP));
    assert_eq!(inject_reload("</BODY>"), format!("</BODY>{}", RELOAD_MARKUP));
}

#[test]
fn non_html_bytes_pass_through_unchanged() {
    let bytes: Vec<u8> = vec![0xff, 0x00, b'<', b'/', b'b', b'o', b'd', b'y', b'>', 0xc3];
    match render("/srv/site/blob.png", bytes.clone()) {
        Payload::Raw { content_type, body } => {
            assert_eq!(body, bytes);
            assert_eq!(content_type, "image/png");
        }
        Payload::Html(_) => panic!("expected raw bytes"),
    }
}

#[test]
fn unknown_extension_is_octet_stream() {
    match render("/srv/site/data.unknownext", vec![1, 2, 3]) {
        Payload::Raw { content_type, body } => {
            assert_eq!(content_type, "application/octet-stream");
            assert_eq!(body, vec![1, 2, 3]);
        }
        Payload::Html(_) => panic!("expected raw bytes"),
    }
}

#[test]
fn invalid_utf8_in_html_is_replaced() {
    let page = html_of(render("/srv/site/x.htm", vec![b'a', 0xff, b'b']));
    assert_eq!(page, format!("a\u{fffd}b{}", RELOAD_MARKUP));
}

#[test]
fn script_reloads_on_message_and_close() {
    assert!(RELOAD_MARKUP.contains("ws://localhost:3030/livereload"));
    assert!(RELOAD_MARKUP.contains("onmessage"));
    assert!(RELOAD_MARKUP.contains("setTimeout"));
    assert!(!RELOAD_MARKUP.contains(CLOSE_BODY));
}
