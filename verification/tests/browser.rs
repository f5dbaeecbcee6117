//! Pages, links, forms and what is asked of them.

use vmux::browser::evaluate::{evaluate_page, evaluate_static_expression, EvalError, PageValue};
use vmux::browser::forms::{
    fill_in, form_default_fields, form_submission_target, html_forms, read_forms,
};
use vmux::browser::html::{html_title, html_to_text, html_unescape};
use vmux::browser::network::{
    fetched_body, fetched_network, parse_curl_network_output, FetchError, FETCH_BODY_CAP,
};
use vmux::browser::open::{open_url, open_url_link, page_snapshot, submit_form, LinkError, SubmitError};
use vmux::browser::page::{
    html_console_calls, html_elements_text, html_links, html_noscript_blocks, html_scripts,
};
use vmux::browser::url::{
    absolutize_url, compact_url_title, terminal_browsers, url_encode, url_open_command,
    url_with_query, validate_url, UrlError,
};

fn text_of(value: PageValue) -> String {
    match value {
        PageValue::Text(t) => t,
        other => panic!("no text: {other:?}"),
    }
}

fn value_of<'a>(pairs: &'a Vec<(String, String)>, key: &str) -> Option<&'a str> {
    pairs.iter().find(|p| p.0 == key).map(|p| p.1.as_str())
}

#[test]
fn validates_supported_url_schemes() {
    assert!(validate_url("https://example.com").is_ok());
    assert!(validate_url("http://example.com").is_ok());
    assert!(validate_url("file:///etc/passwd").is_err());
    // Hosts of one's own are fine.
    assert!(validate_url("http://localhost:3000/preview").is_ok());
    assert!(validate_url("http://127.0.0.1:8080").is_ok());
    assert!(validate_url("http://user@example.com:8443/x").is_ok());
    // What is not written well is refused.
    assert!(validate_url("").is_err());
    assert!(validate_url("http://").is_err());
    assert!(validate_url("https:// example.com").is_err());
    assert!(validate_url("http://exa\nmple.com").is_err());
    assert!(validate_url("http://:8080/path").is_err());
}

#[test]
fn each_url_error_has_its_cause() {
    assert_eq!(validate_url(""), Err(UrlError::Empty));
    assert_eq!(validate_url("http://a b"), Err(UrlError::BadCharacter));
    assert_eq!(validate_url("ftp://host"), Err(UrlError::BadScheme));
    assert_eq!(validate_url("http://:80"), Err(UrlError::NoHost));
}

#[test]
fn compact_url_title_uses_host() {
    assert_eq!(compact_url_title("https://example.com/path"), "example.com");
}

#[test]
fn urls_are_made_absolute() {
    let base = "https://example.test/docs/index.html";
    assert_eq!(absolutize_url(base, "/guide"), "https://example.test/guide");
    assert_eq!(absolutize_url(base, "https://other.test/x"), "https://other.test/x");
    assert_eq!(absolutize_url("https://example.test", "a"), "https://example.test/a");
    assert_eq!(absolutize_url("no scheme", "a"), "a");
    assert_eq!(absolutize_url(base, "next.html"), "https://example.test/docs/next.html");
}

#[test]
fn only_safe_characters_are_left_as_they_are() {
    assert_eq!(url_encode("a b/ü~-_."), "a+b%2F%C3%BC~-_.");
    let one = vec![("q".to_string(), "a b".to_string())];
    assert_eq!(url_with_query("http://x/y", &one), "http://x/y?q=a+b");
    assert_eq!(url_with_query("http://x/y?z=1", &one), "http://x/y?z=1&q=a+b");
    assert_eq!(url_with_query("http://x/y", &Vec::new()), "http://x/y");
}

#[test]
fn a_page_is_opened_with_what_is_installed() {
    let browsers = terminal_browsers();
    assert!(!browsers.is_empty());
    let first = url_open_command("http://x/", &vec![browsers[0].clone()]);
    assert!(first.starts_with(browsers[0].as_str()), "{first}");
    assert!(first.contains("http://x/"));
    let none = url_open_command("http://x/", &Vec::new());
    assert!(none.contains("curl"), "{none}");
    let plan = open_url("https://example.com/a", None, &Vec::new()).unwrap();
    assert_eq!(plan.command, url_open_command("https://example.com/a", &Vec::new()));
    assert_eq!(plan.title, "url:example.com");
    let plan = open_url("https://example.com/a", Some("docs".to_string()), &Vec::new()).unwrap();
    assert_eq!(plan.title, "docs");
    assert!(open_url("nope", None, &Vec::new()).is_err());
}

#[test]
fn extracts_text_title_and_links_from_html() {
    let html = r#"
        <html><head><title>Docs &amp; API</title></head>
        <body><h1>Hello</h1><p>Read <a href="/guide">the guide</a>
        or <a href="https://example.com?q=1&x=2">external</a>.</p></body></html>
    "#;

    assert_eq!(html_title(html).as_deref(), Some("Docs & API"));
    assert_eq!(
        html_to_text(html),
        "Docs & API Hello Read the guide or external ."
    );
    let links = html_links(html, "https://docs.example.test/index.html");
    assert_eq!(links.len(), 2);
    assert_eq!(links[0].href, "https://docs.example.test/guide");
    assert_eq!(links[0].text, "the guide");
    assert_eq!(links[1].href, "https://example.com?q=1&x=2");
}

#[test]
fn entities_are_read() {
    assert_eq!(html_unescape("a &lt;b&gt; &amp; &quot;c&quot;"), "a <b> & \"c\"");
    assert_eq!(html_unescape("plain"), "plain");
    assert_eq!(html_unescape("&unknown;"), "&unknown;");
}

#[test]
fn extracts_forms_and_builds_submission_targets() {
    let html = r#"
        <form method="POST" action="/search" aria-label="Search">
          <input type="text" name="q" value="vmux">
          <input type="hidden" name="token" value="abc">
          <textarea name="notes">hello &amp; bye</textarea>
          <select name="kind"><option value="all">All</option><option value="code" selected>Code</option></select>
          <input type="submit" value="Go">
        </form>
    "#;
    let forms = html_forms(html, "https://example.test/docs/index.html");
    assert_eq!(forms.len(), 1);
    assert_eq!(forms[0].method, "post");
    assert_eq!(forms[0].action, "https://example.test/search");
    assert_eq!(forms[0].label.as_deref(), Some("Search"));
    assert_eq!(forms[0].fields.len(), 4);

    let values = form_default_fields(&forms[0]);
    assert_eq!(value_of(&values, "q"), Some("vmux"));
    assert_eq!(value_of(&values, "notes"), Some("hello & bye"));
    assert_eq!(value_of(&values, "kind"), Some("code"));
    assert_eq!(
        form_submission_target("https://example.test/search", "post", &values).unwrap(),
        "curl -L -X POST --data-urlencode 'kind=code' --data-urlencode 'notes=hello & bye' --data-urlencode 'q=vmux' --data-urlencode 'token=abc' https://example.test/search"
    );
}

#[test]
fn get_form_submission_encodes_query_values() {
    let values = vec![
        ("q".to_string(), "vmux terminal".to_string()),
        ("tag".to_string(), "rust/pty".to_string()),
    ];
    assert_eq!(
        form_submission_target("https://example.test/search", "get", &values).unwrap(),
        "https://example.test/search?q=vmux+terminal&tag=rust%2Fpty"
    );
}

#[test]
fn a_form_is_read_with_what_it_leaves_out() {
    assert!(read_forms("<form></form>", "http://x/").is_some());
    let forms = read_forms("<form action=\"/go\"><input name=\"a\"></form>", "http://x/").unwrap();
    assert_eq!(forms.len(), 1);
    assert_eq!(forms[0].index, 1);
    assert_eq!(forms[0].method, "get");
}

#[test]
fn given_values_take_the_place_of_defaults() {
    let mut pairs = vec![("a".to_string(), "1".to_string())];
    let given = vec![("b".to_string(), "2".to_string()), ("a".to_string(), "3".to_string())];
    fill_in(&mut pairs, &given);
    assert_eq!(value_of(&pairs, "a"), Some("3"));
    assert_eq!(value_of(&pairs, "b"), Some("2"));
    assert_eq!(pairs.len(), 2);
}

#[test]
fn links_and_forms_are_counted_from_one() {
    let html = "<a href=\"/one\">One</a><form method=\"put\" action=\"/f\"><input name=\"x\" value=\"1\"></form>";
    let base = "https://h.test/";
    let links = html_links(html, base);
    assert!(matches!(open_url_link(&links, 0, None, &Vec::new()), Err(LinkError::ZeroIndex)));
    assert!(matches!(open_url_link(&links, 2, None, &Vec::new()), Err(LinkError::OutOfRange(2))));
    let (target, plan) = open_url_link(&links, 1, None, &Vec::new()).unwrap();
    assert_eq!(target, "https://h.test/one");
    assert!(plan.command.contains("https://h.test/one"));
    let bad = html_links("<a href=\"/a b\">m</a>", base);
    assert!(matches!(open_url_link(&bad, 1, None, &Vec::new()), Err(LinkError::Url(UrlError::BadCharacter))));

    let forms = html_forms(html, base);
    let none: Vec<(String, String)> = Vec::new();
    assert!(matches!(submit_form(&forms, 0, &none, None, &Vec::new()), Err(SubmitError::ZeroIndex)));
    assert!(matches!(submit_form(&forms, 9, &none, None, &Vec::new()), Err(SubmitError::OutOfRange(9))));
    assert!(matches!(submit_form(&forms, 1, &none, None, &Vec::new()), Err(SubmitError::UnknownMethod(_))));
    let forms = html_forms("<form action=\"/f\"><input name=\"x\" value=\"1\"></form>", base);
    let given = vec![("x".to_string(), "2 3".to_string())];
    let sent = submit_form(&forms, 1, &given, Some("t".to_string()), &Vec::new()).unwrap();
    assert_eq!(sent.method, "get");
    assert_eq!(sent.target, "https://h.test/f?x=2+3");
    assert_eq!(sent.plan.title, "t");
}

#[test]
fn evaluates_static_browser_expressions() {
    let html = r#"
        <html><head><title>Docs</title></head>
        <body>
          <h1>Welcome</h1>
          <p>Terminal native browser controls.</p>
          <a href="/guide">Guide</a>
          <form action="/search"><input name="q" value="vmux"></form>
        </body></html>
    "#;
    let links = html_links(html, "https://example.test/docs/");
    let forms = html_forms(html, "https://example.test/docs/");

    assert_eq!(
        text_of(evaluate_static_expression("title", html, &links, &forms).unwrap()),
        "Docs"
    );
    assert_eq!(
        text_of(evaluate_static_expression("links[1].href", html, &links, &forms).unwrap()),
        "https://example.test/guide"
    );
    assert_eq!(
        text_of(evaluate_static_expression("text:h1", html, &links, &forms).unwrap()),
        "Welcome"
    );
    assert!(evaluate_static_expression("window.location", html, &links, &forms).is_err());
}

#[test]
fn each_expression_has_its_value_or_its_error() {
    let html = "<title>T</title><p>a</p><p>b</p><a href=\"/l\">L</a><form action=\"/f\" aria-label='F'></form>";
    let url = "http://h.test/";
    let at = |e: &str| evaluate_page(url, e, html);
    assert!(matches!(at("  "), Err(EvalError::Empty)));
    assert!(matches!(at("links[0]"), Err(EvalError::Unsupported(e)) if e == "links[0]"));
    assert!(matches!(at("links[7]"), Err(EvalError::LinkOutOfRange(7))));
    assert!(matches!(at("links[7].href"), Err(EvalError::LinkHasNoField(7, f)) if f == "href"));
    assert!(matches!(at("forms[7]"), Err(EvalError::FormOutOfRange(7))));
    assert!(matches!(at("links[1].size"), Err(EvalError::LinkHasNoField(1, f)) if f == "size"));
    assert!(matches!(at("forms[1].size"), Err(EvalError::FormHasNoField(1, f)) if f == "size"));
    assert!(matches!(at("1 + 1"), Err(EvalError::Unsupported(_))));
    assert!(matches!(at("forms[1].index"), Ok(PageValue::Number(1))));
    assert!(matches!(at("forms[1].label"), Ok(PageValue::Text(t)) if t == "F"));
    assert!(matches!(at("forms"), Ok(PageValue::Forms(f)) if f.len() == 1));
    assert!(matches!(at("links"), Ok(PageValue::Links(l)) if l.len() == 1));
    assert!(matches!(at("links[1]"), Ok(PageValue::Link(l)) if l.href == "http://h.test/l"));
    assert_eq!(text_of(at("document.title").unwrap()), "T");
    assert_eq!(html_elements_text(html, "p"), ["a", "b"]);
    assert!(html_elements_text(html, "p q").is_empty());
    let page = page_snapshot(url, html);
    assert_eq!(page.title.as_deref(), Some("T"));
    assert_eq!(page.links.len(), 1);
    assert!(page.text.starts_with("T a b L"), "{}", page.text);
}

#[test]
fn extracts_console_script_metadata() {
    let html = r#"
        <script src="/app.js"></script>
        <script>
          console.log("ready");
          console.error("bad");
        </script>
        <noscript>JavaScript is disabled</noscript>
    "#;

    let scripts = html_scripts(html, "https://example.test/index.html");
    assert_eq!(scripts.len(), 2);
    assert_eq!(scripts[0].src.as_deref(), Some("https://example.test/app.js"));
    assert!(scripts[1].src.is_none());

    let calls = html_console_calls(html);
    assert_eq!(calls.len(), 2);
    assert_eq!(calls[0].method, "log");
    assert_eq!(calls[1].method, "error");
    assert_eq!(
        html_noscript_blocks(html),
        vec!["JavaScript is disabled".to_string()]
    );
}

#[test]
fn parses_curl_network_output() {
    let output = "HTTP/2 200\r\ncontent-type: text/html; charset=UTF-8\r\ncache-control: max-age=60\r\n\nVMUX_CURL_META\t200\thttps://example.test/\ttext/html; charset=UTF-8\t1234\t0.052\t1\n";
    let (headers, meta) = parse_curl_network_output(output);

    assert_eq!(headers.len(), 2);
    assert_eq!(headers[0].name, "content-type");
    assert_eq!(headers[0].value, "text/html; charset=UTF-8");
    assert_eq!(meta.status, Some(200));
    assert_eq!(meta.effective_url.as_deref(), Some("https://example.test/"));
    assert_eq!(
        meta.content_type.as_deref(),
        Some("text/html; charset=UTF-8")
    );
    assert_eq!(meta.bytes, Some(1234));
    assert_eq!(meta.time_total.as_deref(), Some("0.052"));
    assert_eq!(meta.redirects, Some(1));
}

#[test]
fn what_was_fetched_is_decoded_or_refused() {
    assert_eq!(fetched_body(true, &b"a\xffb".to_vec(), &Vec::new()).unwrap(), "a\u{fffd}b");
    assert!(matches!(
        fetched_body(false, &Vec::new(), &b" no host \n".to_vec()),
        Err(FetchError::Failed(m)) if m == "no host"
    ));
    assert!(matches!(
        fetched_body(false, &Vec::new(), &Vec::new()),
        Err(FetchError::Failed(m)) if m == "curl failed"
    ));
    let big = vec![b'x'; FETCH_BODY_CAP + 1];
    assert!(matches!(fetched_body(true, &big, &Vec::new()), Err(FetchError::TooLarge(n)) if n == FETCH_BODY_CAP + 1));
    let (headers, meta) = fetched_network(true, &b"HTTP/1.1 404\r\na: b\r\n\nVMUX_CURL_META\t404\t\t\t\t\t\n".to_vec(), &Vec::new()).unwrap();
    assert_eq!(headers.len(), 1);
    assert_eq!(meta.status, Some(404));
    assert!(fetched_network(false, &Vec::new(), &b"down".to_vec()).unwrap_err().contains("down"));
}
