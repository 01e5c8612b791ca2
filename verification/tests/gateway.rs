use trillium_cli::gateway::{
    find_closing_tag, inject, is_html, route, script_tag_bytes, Injector, Route, GATEWAY_PORT,
    SCRIPT_CONTENT_TYPE, SCRIPT_PATH, STREAM_PATH, UPSTREAM_URL,
};

const TAG: &[u8] = b"<script src=\"/_dev_server.js\"></script>";

fn count(haystack: &[u8], needle: &[u8]) -> usize {
    haystack.windows(needle.len()).filter(|w| *w == needle).count()
}

fn stream(chunks: &[&[u8]]) -> Vec<u8> {
    let mut injector = Injector::new();
    let mut out = Vec::new();
    for chunk in chunks {
        out.extend(injector.feed(chunk));
    }
    out.extend(injector.finish());
    out
}

#[test]
fn the_script_tag_is_what_a_page_loads() {
    assert_eq!(script_tag_bytes(), TAG.to_vec());
    assert_eq!(script_tag_bytes().len(), 39);
}

#[test]
fn the_gateway_listens_on_its_own_port() {
    assert_eq!(GATEWAY_PORT, 8082);
    assert_eq!(UPSTREAM_URL, "http://localhost:8080");
    assert_eq!(SCRIPT_PATH, "/_dev_server.js");
    assert_eq!(STREAM_PATH, "/_dev_server.ws");
    assert_eq!(SCRIPT_CONTENT_TYPE, "application/javascript");
    assert_eq!(route(true, SCRIPT_PATH), Route::Script);
    assert_eq!(route(true, STREAM_PATH), Route::EventStream);
    let tag = String::from_utf8(script_tag_bytes()).unwrap();
    assert_eq!(tag, format!("<script src=\"{}\"></script>", SCRIPT_PATH));
}

#[test]
fn the_script_goes_before_the_closing_body_tag() {
    let page = b"<html><body><h1>hi</h1></body></html>";
    let out = inject(page);
    assert_eq!(
        out,
        b"<html><body><h1>hi</h1><script src=\"/_dev_server.js\"></script></body></html>".to_vec()
    );
    assert_eq!(count(&out, TAG), 1);
    assert_eq!(out.len(), page.len() + TAG.len());
}

#[test]
fn all_other_bytes_stay_in_place() {
    let page = b"\x00\xff<p>caf\xc3\xa9</p>\r\n</BODY>\n<!-- tail -->";
    let at = find_closing_tag(page).unwrap();
    assert_eq!(at, 16);
    let out = inject(page);
    assert_eq!(&out[..at], &page[..at]);
    assert_eq!(&out[at..at + TAG.len()], TAG);
    assert_eq!(&out[at + TAG.len()..], &page[at..]);
    assert_eq!(find_closing_tag(&out), Some(at + TAG.len()));
}

#[test]
fn the_closing_tag_may_be_in_capitals() {
    assert_eq!(inject(b"a</BODY>b"), [b"a".as_slice(), TAG, b"</BODY>b"].concat());
    assert_eq!(inject(b"a</Body>b"), [b"a".as_slice(), TAG, b"</Body>b"].concat());
    assert_eq!(find_closing_tag(b"</bOdY>"), Some(0));
}

#[test]
fn only_the_first_closing_tag_counts() {
    let out = inject(b"x</body>y</body>z");
    assert_eq!(out, [b"x".as_slice(), TAG, b"</body>y</body>z"].concat());
    assert_eq!(count(&out, TAG), 1);
}

#[test]
fn a_page_without_closing_tag_is_unchanged() {
    assert_eq!(inject(b""), Vec::<u8>::new());
    assert_eq!(inject(b"<body>"), b"<body>".to_vec());
    assert_eq!(inject(b"</body"), b"</body".to_vec());
    assert_eq!(inject(b"</bodx>"), b"</bodx>".to_vec());
    assert_eq!(inject(b"< /body>"), b"< /body>".to_vec());
    assert_eq!(inject(b"</ body>"), b"</ body>".to_vec());
    assert_eq!(find_closing_tag(b"<html></html>"), None);
    assert_eq!(find_closing_tag(b"</body"), None);
}

#[test]
fn a_page_that_is_only_the_tag() {
    assert_eq!(inject(b"</body>"), [TAG, b"</body>".as_slice()].concat());
}

fn with_tag_at(page: &[u8], at: usize) -> Vec<u8> {
    [&page[..at], TAG, &page[at..]].concat()
}

const PAGES: [&[u8]; 18] = [
    b"<head><title></body></title></head><body><textarea></body></textarea></body>",
    b"<textarea>never closed</body>",
    b"<body><a title=\"x>y</body>\">z</a></body>",
    b"<body><p data-x = 'it\"s > here'>text</p></BODY\t>",
    b"<html><body><p>one</p></body></html>",
    b"<body><!--</body>--></body>",
    b"<body>x</body >",
    b"<body>x</BODY\n\t>tail",
    b"<body><script>var s = \"</body>\";</script></body>",
    b"<body><STYLE>a::after { content: '</body>' }</style ></body>",
    b"<body><a title=\"</body>\">x</a></body>",
    b"<body><!--></body>",
    b"<body>a < b</body>",
    b"<body><!-- never closed </body>",
    b"<body><script>never closed </body>",
    b"<body></bodyx></body/>",
    b"<body></body",
    b"no markup at all",
];

#[test]
fn a_closing_tag_in_a_comment_is_none() {
    let page = b"<body><!--</body>--></body>";
    assert_eq!(find_closing_tag(page), Some(20));
    assert_eq!(inject(page), with_tag_at(page, 20));
    assert_eq!(inject(b"<!-- </body> -->"), b"<!-- </body> -->".to_vec());
    assert_eq!(inject(b"<body><!-- never closed </body>"), b"<body><!-- never closed </body>".to_vec());
}

#[test]
fn a_short_comment_ends_at_once() {
    assert_eq!(find_closing_tag(b"<!--></body>"), Some(5));
    assert_eq!(find_closing_tag(b"<!---></body>"), Some(6));
    assert_eq!(find_closing_tag(b"<!-- - -- > --></body>"), Some(15));
}

#[test]
fn white_space_may_stand_before_the_end_of_the_tag() {
    let page = b"<body>x</body >";
    assert_eq!(find_closing_tag(page), Some(7));
    assert_eq!(inject(page), with_tag_at(page, 7));
    assert_eq!(count(&inject(page), TAG), 1);
    assert_eq!(find_closing_tag(b"</body\n\r\t\x0c >"), Some(0));
    assert_eq!(find_closing_tag(b"</body/>"), Some(0));
    assert_eq!(find_closing_tag(b"</body class=x>"), Some(0));
}

#[test]
fn the_name_has_to_end() {
    assert_eq!(find_closing_tag(b"</bodyx>"), None);
    assert_eq!(find_closing_tag(b"</body-x>"), None);
    assert_eq!(find_closing_tag(b"</bodyx></body>"), Some(8));
    assert_eq!(find_closing_tag(b"</body"), None);
    assert_eq!(find_closing_tag(b"</body "), None);
}

#[test]
fn script_and_style_hold_no_markup() {
    let page = b"<script>var s = \"</body>\";</script></body>";
    assert_eq!(find_closing_tag(page), Some(35));
    assert_eq!(inject(page), with_tag_at(page, 35));
    let page = b"<style>p::after { content: \"</body>\" }</style></body>";
    assert_eq!(find_closing_tag(page), Some(46));
    let page = b"<SCRIPT type=\"module\"></body></scripts></body></Script\n></body>";
    assert_eq!(find_closing_tag(page), Some(56));
    assert_eq!(find_closing_tag(b"<script></body>"), None);
    assert_eq!(find_closing_tag(b"<scripted></body>"), Some(10));
}

#[test]
fn text_area_and_title_hold_no_markup() {
    let page = b"<title>about </body></title><body>x</body>";
    assert_eq!(find_closing_tag(page), Some(35));
    assert_eq!(inject(page), with_tag_at(page, 35));
    let page = b"<TextArea rows=2></body></textarea\n></body>";
    assert_eq!(find_closing_tag(page), Some(36));
    assert_eq!(find_closing_tag(b"<textarea></body>"), None);
    assert_eq!(find_closing_tag(b"<titles></body>"), Some(8));
}

#[test]
fn what_stands_inside_a_tag_is_no_tag() {
    let page = b"<a title=\"</body>\">x</a></body>";
    assert_eq!(find_closing_tag(page), Some(24));
    assert_eq!(inject(page), with_tag_at(page, 24));
    assert_eq!(find_closing_tag(b"<p </body>"), None);
}

#[test]
fn a_quoted_value_may_hold_an_angle_bracket() {
    let page = b"<a title=\"x>y</body>\">z</a></body>";
    assert_eq!(find_closing_tag(page), Some(27));
    assert_eq!(inject(page), with_tag_at(page, 27));
    assert_eq!(find_closing_tag(b"<a href = 'a>b\"c'></body>"), Some(18));
    assert_eq!(find_closing_tag(b"<a b=\"'>'\" c='\">\"'></body>"), Some(19));
    assert_eq!(find_closing_tag(b"</body class=\">\">"), Some(0));
    assert_eq!(inject(b"</body class=\">\">"), [TAG, b"</body class=\">\">".as_slice()].concat());
}

#[test]
fn a_mark_that_opens_no_value_is_an_ordinary_byte() {
    assert_eq!(find_closing_tag(b"<p title=don't></body>"), Some(15));
    assert_eq!(find_closing_tag(b"<p \"></body>"), Some(5));
    assert_eq!(find_closing_tag(b"<p a=b \"></body>"), Some(9));
    assert_eq!(find_closing_tag(b"<p a=\"never closed></body>"), None);
}

#[test]
fn a_lone_angle_bracket_is_text() {
    assert_eq!(find_closing_tag(b"a < b</body>"), Some(5));
    assert_eq!(find_closing_tag(b"<</body>"), Some(1));
    assert_eq!(find_closing_tag(b"<!</body>"), Some(2));
    assert_eq!(find_closing_tag(b"<!-</body>"), Some(3));
    assert_eq!(find_closing_tag(b"</ </body>"), Some(3));
    assert_eq!(find_closing_tag(b"<1></body>"), Some(3));
}

#[test]
fn the_rewritten_page_still_has_its_closing_tag_behind_the_reference() {
    for page in PAGES {
        let out = inject(page);
        match find_closing_tag(page) {
            Some(at) => {
                assert_eq!(out, with_tag_at(page, at));
                assert_eq!(find_closing_tag(&out), Some(at + TAG.len()));
                assert_eq!(count(&out, TAG), 1);
            }
            None => assert_eq!(out, page.to_vec()),
        }
    }
}

#[test]
fn streaming_gives_the_same_page_at_every_cut() {
    for page in PAGES {
        let whole = inject(page);
        for first in 0..=page.len() {
            assert_eq!(stream(&[&page[..first], &page[first..]]), whole);
            for second in first..=page.len() {
                assert_eq!(
                    stream(&[&page[..first], &page[first..second], &page[second..]]),
                    whole
                );
            }
        }
    }
}

#[test]
fn streaming_byte_by_byte() {
    for page in PAGES {
        let chunks: Vec<&[u8]> = page.chunks(1).collect();
        assert_eq!(stream(&chunks), inject(page));
        let chunks: Vec<&[u8]> = page.chunks(3).collect();
        assert_eq!(stream(&chunks), inject(page));
    }
}

#[test]
fn streaming_passes_text_on_at_once() {
    let mut injector = Injector::new();
    assert!(!injector.is_done());
    assert_eq!(injector.feed(b"0123456789"), b"0123456789".to_vec());
    assert_eq!(injector.held(), 0);
    assert_eq!(injector.feed(b""), Vec::<u8>::new());
    assert_eq!(injector.feed(b"<p>some text, long enough"), b"<p>some text, long enough".to_vec());
    assert_eq!(injector.held(), 0);
}

#[test]
fn streaming_holds_back_what_it_cannot_tell_yet() {
    let mut injector = Injector::new();
    assert_eq!(injector.feed(b"ab</bo"), b"ab".to_vec());
    assert_eq!(injector.held(), 4);
    assert!(!injector.is_done());
    assert_eq!(injector.feed(b"dy"), Vec::<u8>::new());
    assert_eq!(injector.feed(b"  \n"), Vec::<u8>::new());
    assert_eq!(injector.held(), 9);
    assert_eq!(injector.feed(b">rest"), [TAG, b"</body  \n>rest".as_slice()].concat());
    assert!(injector.is_done());
    assert_eq!(injector.held(), 0);
    assert_eq!(injector.feed(b"</body>"), b"</body>".to_vec());
    assert_eq!(injector.finish(), Vec::<u8>::new());
}

#[test]
fn streaming_holds_a_comment_until_it_ends() {
    let mut injector = Injector::new();
    assert_eq!(injector.feed(b"x<!-- a comment that is long"), b"x".to_vec());
    assert_eq!(injector.feed(b" </body> still inside"), Vec::<u8>::new());
    assert_eq!(
        injector.feed(b" -->after the comment"),
        b"<!-- a comment that is long </body> still inside -->after the comment".to_vec()
    );
    assert!(!injector.is_done());
    assert_eq!(injector.finish(), Vec::<u8>::new());
}

#[test]
fn a_short_stream_is_flushed_at_the_end() {
    let mut injector = Injector::new();
    assert_eq!(injector.feed(b"<b"), Vec::<u8>::new());
    assert_eq!(injector.finish(), b"<b".to_vec());
    let mut injector = Injector::new();
    assert_eq!(injector.feed(b"</body>"), Vec::<u8>::new());
    assert_eq!(injector.finish(), [TAG, b"</body>".as_slice()].concat());
    assert_eq!(stream(&[]), Vec::<u8>::new());
}

#[test]
fn routes_of_the_gateway() {
    assert_eq!(route(true, "/_dev_server.js"), Route::Script);
    assert_eq!(route(true, "/_dev_server.ws"), Route::EventStream);
    assert_eq!(route(false, "/_dev_server.js"), Route::Upstream);
    assert_eq!(route(false, "/_dev_server.ws"), Route::Upstream);
    assert_eq!(route(true, "/"), Route::Upstream);
    assert_eq!(route(true, "/_dev_server.js/"), Route::Upstream);
    assert_eq!(route(true, "/index.html"), Route::Upstream);
}

#[test]
fn html_is_told_by_the_subtype() {
    assert!(is_html(Some("text/html")));
    assert!(is_html(Some("text/html; charset=utf-8")));
    assert!(is_html(Some("Text/HTML; Charset=UTF-8")));
    assert!(!is_html(Some("application/xhtml+xml")));
    assert!(!is_html(Some("application/json")));
    assert!(!is_html(Some("text/plain")));
    assert!(!is_html(Some("html")));
    assert!(!is_html(Some("")));
    assert!(!is_html(None));
}
