//! The notification gateway: which request goes where, and the rewriting of
//! proxied HTML so that pages load the reload script.

use crate::foreign::{media_type_parsed, parse_media_type, MediaType};
use crate::text::{same_text, slice_text_of};
use crate::html::{
    closes_at, hit, hit_moves, lowered, lower, next, next_advances, opens_tag, pattern_of, read,
    scan, scan_agrees, scan_found, scan_found_extends, scan_moves, scan_resumes, tag_end,
    tag_end_extends, Outcome, Pattern, Scan, Step,
};
use vstd::prelude::*;
use vstd::slice::slice_to_vec;
use vstd::string::StringSliceAdditionalSpecFns;
use vstd::string::is_ascii_spec_bytes;

verus! {

/// The port of the gateway's local listener.
pub const GATEWAY_PORT: u16 = 8082;

/// The path under which the gateway serves the reload script.
pub const SCRIPT_PATH: &'static str = "/_dev_server.js";

/// The path under which the gateway serves the event stream.
pub const STREAM_PATH: &'static str = "/_dev_server.ws";

/// The content type of the reload script.
pub const SCRIPT_CONTENT_TYPE: &'static str = "application/javascript";

/// The address of the supervised application.
pub const UPSTREAM_URL: &'static str = "http://localhost:8080";

/// What the gateway does with a request.
#[derive(Debug, Clone, Copy, PartialEq, Eq, Structural)]
pub enum Route {
    /// It answers with the reload script.
    Script,
    /// It turns the connection into an event stream.
    EventStream,
    /// It passes the request on to the supervised application.
    Upstream,
}

/// Where a request goes: a `GET` for one of the gateway's two paths is
/// answered by the gateway, everything else is passed on.
pub open spec fn route_spec(get: bool, path: Seq<char>) -> Route {
    if get && path == SCRIPT_PATH@ {
        Route::Script
    } else if get && path == STREAM_PATH@ {
        Route::EventStream
    } else {
        Route::Upstream
    }
}

/// Where a request goes. `get` says whether its method is `GET`.
pub fn route(get: bool, path: &str) -> (r: Route)
    ensures
        r == route_spec(get, path@),
{
    if get && same_text(path, SCRIPT_PATH) {
        Route::Script
    } else if get && same_text(path, STREAM_PATH) {
        Route::EventStream
    } else {
        Route::Upstream
    }
}

/// Whether a content type indicates HTML: it parses as a media type whose
/// subtype is `html`.
pub open spec fn indicates_html(content_type: Option<Seq<char>>) -> bool {
    match content_type {
        Some(text) => match media_type_parsed(text) {
            Some((_, subtype, _)) => subtype == "html"@,
            None => false,
        },
        None => false,
    }
}

/// Whether a media type is HTML: its subtype is `html`.
pub fn is_html_media(media: &MediaType) -> (r: bool)
    ensures
        r == (media.subtype@ == "html"@),
{
    same_text(media.subtype.as_str(), "html")
}

/// Whether a response is rewritten. `content_type` is the value of its
/// content type header, if it has one.
pub fn is_html(content_type: Option<&str>) -> (r: bool)
    ensures
        r == indicates_html(slice_text_of(content_type)),
{
    match content_type {
        Some(text) => match parse_media_type(text) {
            Some(media) => is_html_media(&media),
            None => false,
        },
        None => false,
    }
}

/// The reference to the reload script that is put into HTML pages:
/// `<script src="/_dev_server.js"></script>`.
pub open spec fn script_tag() -> Seq<u8> {
    seq!['<' as u8, 's' as u8, 'c' as u8, 'r' as u8, 'i' as u8, 'p' as u8, 't' as u8, ' ' as u8, 's' as u8, 'r' as u8, 'c' as u8, '=' as u8, '"' as u8, '/' as u8, '_' as u8, 'd' as u8, 'e' as u8, 'v' as u8, '_' as u8, 's' as u8, 'e' as u8, 'r' as u8, 'v' as u8, 'e' as u8, 'r' as u8, '.' as u8, 'j' as u8, 's' as u8, '"' as u8, '>' as u8, '<' as u8, '/' as u8, 's' as u8, 'c' as u8, 'r' as u8, 'i' as u8, 'p' as u8, 't' as u8, '>' as u8]
}

/// The first closing body tag of `body`, read as HTML, begins at `at`.
pub open spec fn first_closing_tag(body: Seq<u8>, at: int) -> bool {
    scan(body, 0, true) == Scan::Found(at)
}

/// `body`, read as HTML, holds no closing body tag.
pub open spec fn no_closing_tag(body: Seq<u8>) -> bool {
    !(scan(body, 0, true) is Found)
}

/// `body` with the script reference put in at the position `at`.
pub open spec fn spliced(body: Seq<u8>, at: int) -> Seq<u8> {
    body.take(at) + script_tag() + body.skip(at)
}

/// The rewritten page: the script reference stands just before the first
/// closing body tag. A body without such a tag is left as it is.
pub open spec fn injected(body: Seq<u8>) -> Seq<u8> {
    match scan(body, 0, true) {
        Scan::Found(at) => spliced(body, at),
        _ => body,
    }
}

/// `pattern` stands at position `j` of `text`.
pub open spec fn occurs_at(text: Seq<u8>, pattern: Seq<u8>, j: int) -> bool {
    0 <= j && j + pattern.len() <= text.len() && text.subrange(j, j + pattern.len()) == pattern
}

/// The script reference as bytes.
pub fn script_tag_bytes() -> (r: Vec<u8>)
    ensures
        r@ == script_tag(),
{
    let text = "<script src=\"/_dev_server.js\"></script>";
    proof {
        reveal_strlit("<script src=\"/_dev_server.js\"></script>");
        is_ascii_spec_bytes(text);
        assert(vstd::string::is_ascii(text));
        assert(text.spec_bytes() =~= script_tag());
    }
    slice_to_vec(text.as_bytes())
}

/// Appends the bytes of `source` from position `from` up to `to`.
fn append_range(out: &mut Vec<u8>, source: &[u8], from: usize, to: usize)
    requires
        from <= to <= source@.len(),
    ensures
        final(out)@ == old(out)@ + source@.subrange(from as int, to as int),
{
    let mut i: usize = from;
    while i < to
        invariant
            from <= i <= to <= source@.len(),
            out@ == old(out)@ + source@.subrange(from as int, i as int),
        decreases to - i,
    {
        out.push(source[i]);
        proof {
            assert(source@.subrange(from as int, i + 1) =~= source@.subrange(
                from as int,
                i as int,
            ).push(source@[i as int]));
        }
        i += 1;
    }
}

/// `body` with the script reference put in at position `at`.
fn splice(body: &[u8], at: usize) -> (r: Vec<u8>)
    requires
        at <= body@.len(),
    ensures
        r@ == spliced(body@, at as int),
{
    let mut out: Vec<u8> = Vec::new();
    let tag = script_tag_bytes();
    append_range(&mut out, body, 0, at);
    append_range(&mut out, tag.as_slice(), 0, tag.len());
    append_range(&mut out, body, at, body.len());
    proof {
        assert(tag@.subrange(0, tag@.len() as int) =~= tag@);
        assert(out@ =~= body@.take(at as int) + script_tag() + body@.skip(at as int));
    }
    out
}

/// A copy of `body`.
fn copy(body: &[u8]) -> (r: Vec<u8>)
    ensures
        r@ == body@,
{
    let mut out: Vec<u8> = Vec::new();
    append_range(&mut out, body, 0, body.len());
    assert(out@ =~= body@);
    out
}

/// The position of the first closing body tag of `body`, if there is one.
pub fn find_closing_tag(body: &[u8]) -> (r: Option<usize>)
    ensures
        match r {
            Some(at) => first_closing_tag(body@, at as int),
            None => no_closing_tag(body@),
        },
{
    match read(body, true) {
        Outcome::Found(at) => Some(at),
        _ => None,
    }
}

/// Rewrites an HTML page: puts the script reference just before the first
/// closing body tag. A page without a closing body tag comes back unchanged.
pub fn inject(body: &[u8]) -> (r: Vec<u8>)
    ensures
        r@ == injected(body@),
{
    match read(body, true) {
        Outcome::Found(at) => splice(body, at),
        _ => copy(body),
    }
}

/// What the laws below need to know of the reference: its length and where
/// it has its angle brackets.
spec fn shaped_like_script_tag(tag: Seq<u8>) -> bool {
    &&& tag.len() == 39
    &&& forall|k: int| 0 <= k < 39 && tag[k] == '<' as u8 ==> k == 0 || k == 30
    &&& tag[0] == '<' as u8
    &&& tag[1] == 's' as u8
    &&& tag[30] == '<' as u8
    &&& tag[31] == '/' as u8
    &&& tag[32] == 's' as u8
}

/// Where the script reference has its angle brackets: it opens a tag at its
/// start and at the start of its closing tag, and nowhere else.
proof fn script_tag_shape()
    ensures
        shaped_like_script_tag(script_tag()),
{
}

/// A page with `tag` put in at `at`, byte by byte.
proof fn spliced_bytes(body: Seq<u8>, tag: Seq<u8>, at: int)
    requires
        0 <= at <= body.len(),
    ensures
        ({
            let out = body.take(at) + tag + body.skip(at);
            let n = tag.len() as int;
            &&& out.len() == body.len() + n
            &&& forall|k: int| 0 <= k < at ==> out[k] == body[k]
            &&& forall|k: int| at <= k < at + n ==> out[k] == tag[k - at]
            &&& forall|k: int| at + n <= k < out.len() ==> out[k] == body[k - n]
            &&& out.take(at) == body.take(at)
            &&& out.subrange(at, at + n) == tag
            &&& out.skip(at + n) == body.skip(at)
        }),
{
    let out = body.take(at) + tag + body.skip(at);
    let n = tag.len() as int;
    assert(out.take(at) =~= body.take(at));
    assert(out.subrange(at, at + n) =~= tag);
    assert(out.skip(at + n) =~= body.skip(at));
}

/// Where the reference occurs after it was put in at `at`.
proof fn reference_occurs(body: Seq<u8>, tag: Seq<u8>, at: int, j: int)
    requires
        0 <= at <= body.len(),
        shaped_like_script_tag(tag),
    ensures
        occurs_at(body.take(at) + tag + body.skip(at), tag, j) <==> (j == at || (j + tag.len()
            <= at && occurs_at(body, tag, j)) || (at + tag.len() <= j && occurs_at(
            body,
            tag,
            j - tag.len(),
        ))),
{
    let out = body.take(at) + tag + body.skip(at);
    let n = tag.len() as int;
    spliced_bytes(body, tag, at);
    if j + n <= at && occurs_at(body, tag, j) {
        assert(out.subrange(j, j + n) =~= body.subrange(j, j + n));
    }
    if at + n <= j && occurs_at(body, tag, j - n) {
        assert(out.subrange(j, j + n) =~= body.subrange(j - n, j));
    }
    if occurs_at(out, tag, j) {
        let found = out.subrange(j, j + n);
        if j + n <= at {
            assert(body.subrange(j, j + n) =~= found);
        } else if at + n <= j {
            assert(body.subrange(j - n, j) =~= found);
        } else if j < at {
            // The occurrence would run into the reference.
            assert(found[at - j] == out[at]);
            assert(tag[at - j] == '<' as u8);
            assert(found[31] == out[at + 1]);
        } else if at < j {
            // The occurrence would start inside the reference.
            assert(found[0] == out[j]);
            assert(tag[j - at] == '<' as u8);
            assert(found[1] == out[j + 1]);
        }
    }
}

/// The rewriting adds one script reference and nothing else. For a page
/// whose first closing body tag begins at `at`: what stands at `at` is an
/// end tag named `body`; the rewritten page is longer by the reference; the
/// reference stands at `at`, and the closing body tag, unchanged, begins
/// where the reference ends; every byte before and after the reference is
/// the byte of the page, in the same order; and the reference occurs in the
/// rewritten page where it occurred in the page, and at `at`, and nowhere
/// else.
pub proof fn injection_round_trip(body: Seq<u8>, at: int)
    requires
        first_closing_tag(body, at),
    ensures
        ({
            let out = injected(body);
            let n = script_tag().len() as int;
            &&& 0 <= at < body.len()
            &&& hit(body, at, pattern_of(Pattern::BodyEnd), true)
            &&& closes_at(body, at) is Some
            &&& out.len() == body.len() + n
            &&& out.take(at) == body.take(at)
            &&& out.subrange(at, at + n) == script_tag()
            &&& out.skip(at + n) == body.skip(at)
            &&& hit(out, at + n, pattern_of(Pattern::BodyEnd), true)
            &&& forall|j: int|
                occurs_at(out, script_tag(), j) <==> (j == at || (j + n <= at && occurs_at(
                    body,
                    script_tag(),
                    j,
                )) || (at + n <= j && occurs_at(body, script_tag(), j - n)))
        }),
{
    let tag = script_tag();
    let out = injected(body);
    scan_found(body, 0, true);
    script_tag_shape();
    spliced_bytes(body, tag, at);
    let prefix = body.take(at) + tag;
    assert(out =~= prefix + body.skip(at));
    assert(body =~= body.take(at) + body.skip(at));
    hit_moves(body.take(at), body.skip(at), 0, pattern_of(Pattern::BodyEnd), true);
    hit_moves(prefix, body.skip(at), 0, pattern_of(Pattern::BodyEnd), true);
    assert forall|j: int| occurs_at(out, tag, j) <==> (j == at || (j + tag.len() <= at
        && occurs_at(body, tag, j)) || (at + tag.len() <= j && occurs_at(
        body,
        tag,
        j - tag.len(),
    ))) by {
        reference_occurs(body, tag, at, j);
    }
}

/// Where the two tags of the reference end.
#[verifier::rlimit(40)]
proof fn reference_tags_end()
    ensures
        tag_end(script_tag(), 1, 0, false) == Some(29int),
        tag_end(script_tag(), 31, 0, false) == Some(38int),
{
    reveal_with_fuel(tag_end, 40);
}

/// The reference at the start of a page is read as what it is: a script
/// element without content, behind which text goes on.
#[verifier::rlimit(40)]
proof fn reference_is_read_as_script(rest: Seq<u8>)
    ensures
        next(script_tag() + rest, 0, true) == Step::Skip(30),
        next(script_tag() + rest, 30, true) == Step::Skip(39),
{
    let tag = script_tag();
    let page = tag + rest;
    reference_tags_end();
    assert(forall|k: int| 0 <= k < 39 ==> page[k] == tag[k]);
    tag_end_extends(tag, rest, 1, 0, false);
    tag_end_extends(tag, rest, 31, 0, false);
    // The start tag.
    assert(!hit(page, 0, pattern_of(Pattern::CommentOpen), false)) by {
        assert(lowered(page.subrange(0, 4))[1] == lower(page[1]));
    }
    assert(!hit(page, 0, pattern_of(Pattern::BodyEnd), true)) by {
        assert(lowered(page.subrange(0, 6))[1] == lower(page[1]));
    }
    assert(hit(page, 0, pattern_of(Pattern::ScriptOpen), true)) by {
        assert(lowered(page.subrange(0, 7)) =~= pattern_of(Pattern::ScriptOpen));
    }
    assert(hit(page, 30, pattern_of(Pattern::ScriptEnd), true)) by {
        assert(lowered(page.subrange(30, 38)) =~= pattern_of(Pattern::ScriptEnd));
    }
    // The end tag.
    assert(!hit(page, 30, pattern_of(Pattern::CommentOpen), false)) by {
        assert(lowered(page.subrange(30, 34))[1] == lower(page[31]));
    }
    assert(!hit(page, 30, pattern_of(Pattern::BodyEnd), true)) by {
        assert(lowered(page.subrange(30, 36))[2] == lower(page[32]));
    }
    assert(!hit(page, 30, pattern_of(Pattern::ScriptOpen), true)) by {
        assert(lowered(page.subrange(30, 37))[1] == lower(page[31]));
    }
    assert(!hit(page, 30, pattern_of(Pattern::StyleOpen), true)) by {
        assert(lowered(page.subrange(30, 36))[1] == lower(page[31]));
    }
    assert(!hit(page, 30, pattern_of(Pattern::TextareaOpen), true)) by {
        if 30 + 9 <= page.len() {
            assert(lowered(page.subrange(30, 39))[1] == lower(page[31]));
        }
    }
    assert(!hit(page, 30, pattern_of(Pattern::TitleOpen), true)) by {
        assert(lowered(page.subrange(30, 36))[1] == lower(page[31]));
    }
    assert(opens_tag(page, 30));
}

/// The rewritten page keeps its closing body tag: read as HTML, its first
/// closing body tag is the one of the page, and it begins where the
/// reference ends.
#[verifier::rlimit(40)]
pub proof fn rewritten_page_keeps_its_closing_tag(body: Seq<u8>, at: int)
    requires
        first_closing_tag(body, at),
    ensures
        first_closing_tag(injected(body), at + script_tag().len()),
{
    let tag = script_tag();
    let out = injected(body);
    let front = body.take(at);
    let back = body.skip(at);
    scan_found(body, 0, true);
    script_tag_shape();
    assert(body =~= front + back);
    assert(out =~= front + (tag + back));
    // Up to the closing tag the two pages are read alike.
    assert(out.take(at + 1) =~= body.take(at + 1));
    hit_is_at_an_angle(body, at);
    scan_agrees(body, out, at, 0);
    assert(scan(out, 0, true) == scan(out, at, true));
    // The page has its closing tag at the start of its back.
    assert(scan(body, at, true) == Scan::Found(at));
    scan_moves(front, back, 0, true);
    assert(scan(back, 0, true) == Scan::Found(0));
    // Behind the front stands the reference, and behind the reference the back.
    let rest = tag + back;
    reference_is_read_as_script(back);
    scan_moves(tag, back, 0, true);
    assert(scan(rest, 39, true) == Scan::Found(39));
    assert(scan(rest, 30, true) == scan(rest, 39, true));
    assert(scan(rest, 0, true) == scan(rest, 30, true));
    scan_moves(front, rest, 0, true);
    assert(scan(out, at, true) == Scan::Found(at + 39));
}

/// A closing body tag begins with a `<`.
proof fn hit_is_at_an_angle(body: Seq<u8>, at: int)
    requires
        hit(body, at, pattern_of(Pattern::BodyEnd), true),
    ensures
        body[at] == '<' as u8,
{
    assert(lowered(body.subrange(at, at + 6))[0] == lower(body[at]));
}

/// In a page that does not hold the script reference, the rewritten page
/// holds it exactly once.
pub proof fn injected_exactly_once(body: Seq<u8>, at: int)
    requires
        first_closing_tag(body, at),
        forall|j: int| !occurs_at(body, script_tag(), j),
    ensures
        forall|j: int| occurs_at(injected(body), script_tag(), j) <==> j == at,
{
    injection_round_trip(body, at);
}

/// The state of a streaming rewrite as a mathematical value.
pub ghost struct InjectorView {
    /// The end of the input so far, held back because what begins in it
    /// cannot be told before more of the page is known.
    pub held: Seq<u8>,
    /// The script reference has been put in.
    pub done: bool,
}

/// The state after one more chunk, and what is passed on for it.
///
/// Once the reference is in, chunks pass unchanged. Before that the chunk is
/// joined to what was held back and read as the beginning of a page: where
/// that holds the closing body tag, all of it is passed on, rewritten;
/// where it does not, it is passed on up to the first thing that cannot be
/// told yet, and the rest is held back.
pub open spec fn feed_spec(s: InjectorView, chunk: Seq<u8>) -> (InjectorView, Seq<u8>) {
    if s.done {
        (s, chunk)
    } else {
        let buffer = s.held + chunk;
        match scan(buffer, 0, false) {
            Scan::Found(at) => (InjectorView { held: seq![], done: true }, spliced(buffer, at)),
            Scan::Stuck(p) => (
                InjectorView { held: buffer.skip(p), done: false },
                buffer.take(p),
            ),
            Scan::End => (InjectorView { held: seq![], done: false }, buffer),
        }
    }
}

/// What is passed on when the page has ended: what was held back, read as
/// the end of the page and rewritten.
pub open spec fn finish_spec(s: InjectorView) -> Seq<u8> {
    if s.done {
        seq![]
    } else {
        injected(s.held)
    }
}

/// The state after a sequence of chunks, and all that was passed on for
/// them.
pub open spec fn feed_all_spec(s: InjectorView, chunks: Seq<Seq<u8>>) -> (InjectorView, Seq<u8>)
    decreases chunks.len(),
{
    if chunks.len() == 0 {
        (s, seq![])
    } else {
        let before = feed_all_spec(s, chunks.drop_last());
        let last = feed_spec(before.0, chunks.last());
        (last.0, before.1 + last.1)
    }
}

/// The chunks joined into one body.
pub open spec fn joined(chunks: Seq<Seq<u8>>) -> Seq<u8>
    decreases chunks.len(),
{
    if chunks.len() == 0 {
        seq![]
    } else {
        joined(chunks.drop_last()) + chunks.last()
    }
}

/// A rewrite of a body that arrives in chunks. It passes on what it can and
/// holds back only what it cannot tell yet: the beginning of a comment, of a
/// tag, or of a script or style sheet whose end has not arrived.
#[derive(Debug)]
pub struct Injector {
    held: Vec<u8>,
    done: bool,
}

impl View for Injector {
    type V = InjectorView;

    closed spec fn view(&self) -> InjectorView {
        InjectorView { held: self.held@, done: self.done }
    }
}

impl Injector {
    #[verifier::type_invariant]
    spec fn inv(self) -> bool {
        self.done ==> self.held@.len() == 0
    }

    /// A rewrite that has seen nothing yet.
    pub fn new() -> (r: Injector)
        ensures
            r@ == (InjectorView { held: seq![], done: false }),
    {
        Injector { held: Vec::new(), done: false }
    }

    /// Whether the script reference has been put in.
    pub fn is_done(&self) -> (r: bool)
        ensures
            r == self@.done,
    {
        self.done
    }

    /// How many bytes are held back.
    pub fn held(&self) -> (r: usize)
        ensures
            r == self@.held.len(),
    {
        self.held.len()
    }

    /// Takes the next chunk of the body and returns what can be passed on.
    pub fn feed(&mut self, chunk: &[u8]) -> (out: Vec<u8>)
        ensures
            final(self)@ == feed_spec(old(self)@, chunk@).0,
            out@ == feed_spec(old(self)@, chunk@).1,
    {
        proof {
            use_type_invariant(&*self);
        }
        if self.done {
            return copy(chunk);
        }
        let mut buffer: Vec<u8> = Vec::new();
        core::mem::swap(&mut self.held, &mut buffer);
        append_range(&mut buffer, chunk, 0, chunk.len());
        assert(buffer@ =~= old(self)@.held + chunk@);
        match read(buffer.as_slice(), false) {
            Outcome::Found(at) => {
                self.done = true;
                splice(buffer.as_slice(), at)
            },
            Outcome::Stuck(p) => {
                let mut out: Vec<u8> = Vec::new();
                append_range(&mut out, buffer.as_slice(), 0, p);
                let mut held: Vec<u8> = Vec::new();
                append_range(&mut held, buffer.as_slice(), p, buffer.len());
                proof {
                    assert(out@ =~= buffer@.take(p as int));
                    assert(held@ =~= buffer@.skip(p as int));
                }
                self.held = held;
                out
            },
            Outcome::End => buffer,
        }
    }

    /// Ends the rewrite and returns what is still to be passed on.
    pub fn finish(self) -> (out: Vec<u8>)
        ensures
            out@ == finish_spec(self@),
    {
        proof {
            use_type_invariant(&self);
        }
        if self.done {
            self.held
        } else {
            inject(self.held.as_slice())
        }
    }
}

/// Reading the page `input + more` comes by the position `p`.
spec fn comes_by(input: Seq<u8>, p: int, more: Seq<u8>, complete: bool) -> bool {
    scan(input + more, 0, complete) == scan(input + more, p, complete)
}

/// Reading any page that begins with `input` comes by the position `p`.
spec fn came_by(input: Seq<u8>, p: int) -> bool {
    &&& 0 <= p <= input.len()
    &&& forall|more: Seq<u8>, complete: bool| #[trigger] comes_by(input, p, more, complete)
}

/// `output` is what a rewrite in state `s` has passed on for `input`.
spec fn tracks(s: InjectorView, input: Seq<u8>, output: Seq<u8>) -> bool {
    if s.done {
        &&& s.held.len() == 0
        &&& scan(input, 0, false) is Found
        &&& output == spliced(input, scan(input, 0, false)->Found_0)
    } else {
        &&& output + s.held == input
        &&& came_by(input, output.len() as int)
    }
}

/// Bytes that follow a page follow the rewritten page unchanged.
proof fn splice_then_extend(input: Seq<u8>, chunk: Seq<u8>, tag: Seq<u8>, at: int)
    requires
        0 <= at <= input.len(),
    ensures
        (input + chunk).take(at) + tag + (input + chunk).skip(at) == (input.take(at) + tag
            + input.skip(at)) + chunk,
{
    let longer = input + chunk;
    assert(longer.take(at) =~= input.take(at));
    assert(longer.skip(at) =~= input.skip(at) + chunk);
    assert(longer.take(at) + tag + longer.skip(at) =~= (input.take(at) + tag + input.skip(at))
        + chunk);
}

/// A splice into the buffer is a splice into the whole.
proof fn splice_after_output(output: Seq<u8>, buffer: Seq<u8>, tag: Seq<u8>, i: int)
    requires
        0 <= i <= buffer.len(),
    ensures
        (output + buffer).take(output.len() + i) + tag + (output + buffer).skip(output.len() + i)
            == output + (buffer.take(i) + tag + buffer.skip(i)),
{
    let longer = output + buffer;
    let base = output.len() as int;
    assert(longer.take(base + i) =~= output + buffer.take(i));
    assert(longer.skip(base + i) =~= buffer.skip(i));
    assert(longer.take(base + i) + tag + longer.skip(base + i) =~= output + (buffer.take(i) + tag
        + buffer.skip(i)));
}

/// Reading the beginning of a page never comes to the end of the page.
proof fn beginning_never_ends(body: Seq<u8>, i: int)
    requires
        0 <= i,
    ensures
        !(scan(body, i, false) is End),
    decreases body.len() - i,
{
    if i < body.len() {
        next_advances(body, i, false);
        match next(body, i, false) {
            Step::Skip(j) => {
                beginning_never_ends(body, j);
            },
            _ => {},
        }
    }
}

/// Where the buffer holds the closing body tag, the input does, at the
/// same place behind what was passed on.
#[verifier::rlimit(40)]
proof fn found_in_buffer(input: Seq<u8>, output: Seq<u8>, held: Seq<u8>, chunk: Seq<u8>)
    requires
        output + held == input,
        came_by(input, output.len() as int),
        scan(held + chunk, 0, false) is Found,
    ensures
        scan(input + chunk, 0, false) == Scan::Found(
            output.len() + scan(held + chunk, 0, false)->Found_0,
        ),
        output + spliced(held + chunk, scan(held + chunk, 0, false)->Found_0) == spliced(
            input + chunk,
            output.len() + scan(held + chunk, 0, false)->Found_0,
        ),
{
    let buffer = held + chunk;
    let base = output.len() as int;
    let at = scan(buffer, 0, false)->Found_0;
    assert(input + chunk =~= output + buffer);
    assert(comes_by(input, base, chunk, false));
    scan_moves(output, buffer, 0, false);
    scan_found(buffer, 0, false);
    splice_after_output(output, buffer, script_tag(), at);
}

/// Where the reading of the buffer waits at `p`, the reading of every page
/// that begins with the input comes by `p`, behind what was passed on.
#[verifier::rlimit(40)]
proof fn stuck_in_buffer(
    input: Seq<u8>,
    output: Seq<u8>,
    held: Seq<u8>,
    chunk: Seq<u8>,
    more: Seq<u8>,
    complete: bool,
)
    requires
        output + held == input,
        came_by(input, output.len() as int),
        scan(held + chunk, 0, false) is Stuck,
    ensures
        comes_by(
            input + chunk,
            output.len() + scan(held + chunk, 0, false)->Stuck_0,
            more,
            complete,
        ),
{
    let buffer = held + chunk;
    let base = output.len() as int;
    let p = scan(buffer, 0, false)->Stuck_0;
    let page = (input + chunk) + more;
    assert(page =~= input + (chunk + more));
    assert(page =~= output + (buffer + more));
    assert(comes_by(input, base, chunk + more, complete));
    scan_moves(output, buffer + more, 0, complete);
    scan_resumes(buffer, more, 0, complete);
    scan_moves(output, buffer + more, p, complete);
}

/// One more chunk keeps the rewrite on track.
#[verifier::rlimit(40)]
proof fn feed_keeps_track(s: InjectorView, input: Seq<u8>, output: Seq<u8>, chunk: Seq<u8>)
    requires
        tracks(s, input, output),
    ensures
        tracks(feed_spec(s, chunk).0, input + chunk, output + feed_spec(s, chunk).1),
{
    let longer = input + chunk;
    if s.done {
        let at = scan(input, 0, false)->Found_0;
        scan_found(input, 0, false);
        scan_found_extends(input, chunk, 0, false);
        splice_then_extend(input, chunk, script_tag(), at);
    } else {
        let buffer = s.held + chunk;
        let base = output.len() as int;
        beginning_never_ends(buffer, 0);
        match scan(buffer, 0, false) {
            Scan::Found(at) => {
                found_in_buffer(input, output, s.held, chunk);
            },
            Scan::Stuck(p) => {
                scan_resumes(buffer, Seq::<u8>::empty(), 0, false);
                assert((output + buffer.take(p)) + buffer.skip(p) =~= longer);
                assert forall|more: Seq<u8>, complete: bool| #[trigger]
                    comes_by(longer, base + p, more, complete) by {
                    stuck_in_buffer(input, output, s.held, chunk, more, complete);
                }
            },
            Scan::End => {},
        }
    }
}

/// Every sequence of chunks keeps a new rewrite on track.
proof fn feed_all_keeps_track(chunks: Seq<Seq<u8>>)
    ensures
        tracks(
            feed_all_spec(InjectorView { held: seq![], done: false }, chunks).0,
            joined(chunks),
            feed_all_spec(InjectorView { held: seq![], done: false }, chunks).1,
        ),
    decreases chunks.len(),
{
    let start = InjectorView { held: seq![], done: false };
    if chunks.len() == 0 {
        assert(Seq::<u8>::empty() + start.held =~= joined(chunks));
    } else {
        feed_all_keeps_track(chunks.drop_last());
        let before = feed_all_spec(start, chunks.drop_last());
        feed_keeps_track(before.0, joined(chunks.drop_last()), before.1, chunks.last());
    }
}

/// A page rewritten chunk by chunk is the page rewritten as a whole: however
/// a body is cut into chunks, what a new rewrite passes on for them, followed
/// by what it passes on at the end, is the rewritten body.
pub proof fn streaming_rewrite_is_whole_rewrite(chunks: Seq<Seq<u8>>)
    ensures
        ({
            let end = feed_all_spec(InjectorView { held: seq![], done: false }, chunks);
            end.1 + finish_spec(end.0) == injected(joined(chunks))
        }),
{
    feed_all_keeps_track(chunks);
    let end = feed_all_spec(InjectorView { held: seq![], done: false }, chunks);
    let input = joined(chunks);
    let none = Seq::<u8>::empty();
    assert(input + none =~= input);
    if end.0.done {
        scan_found_extends(input, none, 0, true);
        assert(end.1 + none =~= end.1);
    } else {
        let base = end.1.len() as int;
        assert(comes_by(input, base, none, true));
        assert(input =~= end.1 + end.0.held);
        scan_moves(end.1, end.0.held, 0, true);
        match scan(end.0.held, 0, true) {
            Scan::Found(at) => {
                scan_found(end.0.held, 0, true);
                splice_after_output(end.1, end.0.held, script_tag(), at);
            },
            _ => {},
        }
    }
}

} // verus!
