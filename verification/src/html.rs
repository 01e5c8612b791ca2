//! How a page is read as HTML, as far as the search for the closing body tag
//! needs it. A page is text and tokens. A token begins at a `<` in text:
//!
//! - `<!--` begins a comment, which ends behind the next `-->`;
//! - `<` before a letter, and `</` before a letter, begin a tag, which ends
//!   at the next `>` that does not stand in a quoted attribute value; such a
//!   value begins at a quotation mark or an apostrophe behind an equals
//!   sign, and ends at the next mark of the same kind;
//! - the tags `<script`, `<style`, `<textarea` and `<title`, each followed
//!   by white space, `/` or `>`, begin an element whose content is not
//!   markup: it ends at the next end tag of the same name;
//! - any other `<` is text.
//!
//! Names are read in small and capital letters alike. The closing body tag
//! is a tag that begins with `</body` followed by white space, `/` or `>`.
//! What stands inside a comment, inside a tag or inside the content of a
//! script, a style sheet, a text area or a title is no tag.

use vstd::prelude::*;

verus! {

/// An ASCII capital letter becomes its small letter; other bytes stay.
pub open spec fn lower(byte: u8) -> u8 {
    if 'A' as u8 <= byte <= 'Z' as u8 {
        (byte + 32) as u8
    } else {
        byte
    }
}

/// Tab, line feed, form feed, carriage return and space.
pub open spec fn is_space(byte: u8) -> bool {
    byte == 9 || byte == 10 || byte == 12 || byte == 13 || byte == 32
}

/// An ASCII letter.
pub open spec fn is_letter(byte: u8) -> bool {
    'a' as u8 <= lower(byte) <= 'z' as u8
}

/// What ends a tag's name: white space, `/` or `>`.
pub open spec fn ends_name(byte: u8) -> bool {
    is_space(byte) || byte == '/' as u8 || byte == '>' as u8
}

/// The fixed texts that the reading looks for.
#[derive(Debug, Clone, Copy, PartialEq, Eq, Structural)]
pub enum Pattern {
    /// `<!--`
    CommentOpen,
    /// `-->`
    CommentEnd,
    /// `</body` before the end of the name
    BodyEnd,
    /// `<script` before the end of the name
    ScriptOpen,
    /// `</script` before the end of the name
    ScriptEnd,
    /// `<style` before the end of the name
    StyleOpen,
    /// `</style` before the end of the name
    StyleEnd,
    /// `<textarea` before the end of the name
    TextareaOpen,
    /// `</textarea` before the end of the name
    TextareaEnd,
    /// `<title` before the end of the name
    TitleOpen,
    /// `</title` before the end of the name
    TitleEnd,
}

/// The bytes of a pattern, in small letters.
pub open spec fn pattern_of(pattern: Pattern) -> Seq<u8> {
    match pattern {
        Pattern::CommentOpen => seq!['<' as u8, '!' as u8, '-' as u8, '-' as u8],
        Pattern::CommentEnd => seq!['-' as u8, '-' as u8, '>' as u8],
        Pattern::BodyEnd => seq!['<' as u8, '/' as u8, 'b' as u8, 'o' as u8, 'd' as u8, 'y' as u8],
        Pattern::ScriptOpen => seq![
            '<' as u8,
            's' as u8,
            'c' as u8,
            'r' as u8,
            'i' as u8,
            'p' as u8,
            't' as u8,
        ],
        Pattern::ScriptEnd => seq![
            '<' as u8,
            '/' as u8,
            's' as u8,
            'c' as u8,
            'r' as u8,
            'i' as u8,
            'p' as u8,
            't' as u8,
        ],
        Pattern::StyleOpen => seq!['<' as u8, 's' as u8, 't' as u8, 'y' as u8, 'l' as u8, 'e' as u8],
        Pattern::StyleEnd => seq![
            '<' as u8,
            '/' as u8,
            's' as u8,
            't' as u8,
            'y' as u8,
            'l' as u8,
            'e' as u8,
        ],
        Pattern::TextareaOpen => seq!['<' as u8, 't' as u8, 'e' as u8, 'x' as u8, 't' as u8, 'a' as u8, 'r' as u8, 'e' as u8, 'a' as u8],
        Pattern::TextareaEnd => seq!['<' as u8, '/' as u8, 't' as u8, 'e' as u8, 'x' as u8, 't' as u8, 'a' as u8, 'r' as u8, 'e' as u8, 'a' as u8],
        Pattern::TitleOpen => seq!['<' as u8, 't' as u8, 'i' as u8, 't' as u8, 'l' as u8, 'e' as u8],
        Pattern::TitleEnd => seq!['<' as u8, '/' as u8, 't' as u8, 'i' as u8, 't' as u8, 'l' as u8, 'e' as u8],
    }
}

/// Whether a pattern is the beginning of a tag with a name, so that the
/// name has to end behind it.
pub open spec fn is_named(pattern: Pattern) -> bool {
    pattern != Pattern::CommentOpen && pattern != Pattern::CommentEnd
}

/// How far ahead the reading looks at most to tell what begins at a `<`.
pub const LOOKAHEAD: usize = 10;

/// A stretch of bytes in small letters.
pub open spec fn lowered(bytes: Seq<u8>) -> Seq<u8> {
    bytes.map_values(|b: u8| lower(b))
}

/// The bytes `pattern` stand at position `q` of `body`, in small or capital
/// letters; where `named`, the byte behind them ends a name.
pub open spec fn hit(body: Seq<u8>, q: int, pattern: Seq<u8>, named: bool) -> bool {
    &&& 0 <= q
    &&& q + pattern.len() + (if named {
        1int
    } else {
        0int
    }) <= body.len()
    &&& lowered(body.subrange(q, q + pattern.len())) == pattern
    &&& named ==> ends_name(body[q + pattern.len()])
}

/// The first position at or behind `from` where the pattern stands.
pub open spec fn find(body: Seq<u8>, from: int, pattern: Seq<u8>, named: bool) -> Option<int>
    decreases body.len() - from,
{
    if from < 0 || from >= body.len() {
        None
    } else if hit(body, from, pattern, named) {
        Some(from)
    } else {
        find(body, from + 1, pattern, named)
    }
}

/// The end of a tag: the position of the first `>` at or behind `from` that
/// does not stand in a quoted attribute value. `quote` is the mark that
/// opened the value in which `from` stands, or zero; `valued` says that an
/// equals sign, and nothing but white space since, stands before `from`.
pub open spec fn tag_end(body: Seq<u8>, from: int, quote: u8, valued: bool) -> Option<int>
    decreases body.len() - from,
{
    if from < 0 || from >= body.len() {
        None
    } else if quote != 0 {
        tag_end(
            body,
            from + 1,
            if body[from] == quote {
                0u8
            } else {
                quote
            },
            false,
        )
    } else if body[from] == '>' as u8 {
        Some(from)
    } else if valued && (body[from] == '"' as u8 || body[from] == '\'' as u8) {
        tag_end(body, from + 1, body[from], false)
    } else {
        tag_end(body, from + 1, 0, body[from] == '=' as u8 || (valued && is_space(body[from])))
    }
}

/// The end of the tag that begins at the `<` at position `i`.
pub open spec fn closes_at(body: Seq<u8>, i: int) -> Option<int> {
    tag_end(body, i + 1, 0, false)
}

/// A tag begins at the `<` at position `i`: a letter follows, or `/` and a
/// letter.
pub open spec fn opens_tag(body: Seq<u8>, i: int) -> bool {
    &&& i + 1 < body.len()
    &&& (is_letter(body[i + 1]) || (body[i + 1] == '/' as u8 && i + 2 < body.len() && is_letter(
        body[i + 2],
    )))
}

/// What the reading finds at a position in text.
pub ghost enum Step {
    /// The closing body tag begins here.
    Found,
    /// Text continues at this later position.
    Skip(int),
    /// What begins here cannot be told before more of the page is known.
    Stuck,
    /// What begins here runs to the end of the page.
    End,
}

/// What comes of a token that does not end: it runs to the end of a page
/// that is complete, and waits for more of a page that is not.
pub open spec fn open_end(complete: bool) -> Step {
    if complete {
        Step::End
    } else {
        Step::Stuck
    }
}

/// Text continues `width` bytes behind the position that was searched for.
pub open spec fn behind(found: Option<int>, width: int, complete: bool) -> Step {
    match found {
        Some(q) => Step::Skip(q + width),
        None => open_end(complete),
    }
}

/// The element that begins at `i` holds no markup: text continues at the
/// end tag `end` that follows its start tag.
pub open spec fn raw(body: Seq<u8>, i: int, end: Pattern, complete: bool) -> Step {
    match closes_at(body, i) {
        Some(q) => match find(body, q + 1, pattern_of(end), true) {
            Some(r) => Step::Skip(r),
            None => open_end(complete),
        },
        None => open_end(complete),
    }
}

/// What the reading finds at the position `i` in text. `complete` says
/// whether `body` is the whole page or only its beginning.
pub open spec fn next(body: Seq<u8>, i: int, complete: bool) -> Step {
    if body[i] != '<' as u8 {
        Step::Skip(i + 1)
    } else if !complete && i + LOOKAHEAD > body.len() {
        Step::Stuck
    } else if hit(body, i, pattern_of(Pattern::CommentOpen), false) {
        behind(find(body, i + 2, pattern_of(Pattern::CommentEnd), false), 3, complete)
    } else if hit(body, i, pattern_of(Pattern::BodyEnd), true) {
        match closes_at(body, i) {
            Some(_) => Step::Found,
            None => open_end(complete),
        }
    } else if hit(body, i, pattern_of(Pattern::ScriptOpen), true) {
        raw(body, i, Pattern::ScriptEnd, complete)
    } else if hit(body, i, pattern_of(Pattern::StyleOpen), true) {
        raw(body, i, Pattern::StyleEnd, complete)
    } else if hit(body, i, pattern_of(Pattern::TextareaOpen), true) {
        raw(body, i, Pattern::TextareaEnd, complete)
    } else if hit(body, i, pattern_of(Pattern::TitleOpen), true) {
        raw(body, i, Pattern::TitleEnd, complete)
    } else if opens_tag(body, i) {
        behind(closes_at(body, i), 1, complete)
    } else {
        Step::Skip(i + 1)
    }
}

/// What reading a page comes to.
pub ghost enum Scan {
    /// The closing body tag begins at this position.
    Found(int),
    /// The page is known up to its end and no closing body tag was found;
    /// what begins at this position cannot be told yet.
    Stuck(int),
    /// The page holds no closing body tag.
    End,
}

/// What reading `body` from the position `i` in text comes to.
pub open spec fn scan(body: Seq<u8>, i: int, complete: bool) -> Scan
    decreases body.len() - i,
{
    if i < 0 || i >= body.len() {
        if complete {
            Scan::End
        } else {
            Scan::Stuck(body.len() as int)
        }
    } else {
        match next(body, i, complete) {
            Step::Found => Scan::Found(i),
            Step::Skip(j) => if i < j <= body.len() {
                scan(body, j, complete)
            } else {
                Scan::End
            },
            Step::Stuck => Scan::Stuck(i),
            Step::End => Scan::End,
        }
    }
}

/// A result of reading, moved `by` positions to the right.
pub open spec fn moved(result: Scan, by: int) -> Scan {
    match result {
        Scan::Found(at) => Scan::Found(at + by),
        Scan::Stuck(p) => Scan::Stuck(p + by),
        Scan::End => Scan::End,
    }
}

/// A step, moved `by` positions to the right.
pub open spec fn moved_step(step: Step, by: int) -> Step {
    match step {
        Step::Skip(j) => Step::Skip(j + by),
        other => other,
    }
}

/// What the reading looks for at a `<`, with its name's end, is no longer
/// than the reading looks ahead.
pub proof fn patterns_are_short(pattern: Pattern)
    ensures
        1 <= pattern_of(pattern).len() <= LOOKAHEAD,
        pattern == Pattern::CommentOpen || pattern == Pattern::BodyEnd || pattern
            == Pattern::ScriptOpen || pattern == Pattern::StyleOpen || pattern
            == Pattern::TextareaOpen || pattern == Pattern::TitleOpen ==> pattern_of(
            pattern,
        ).len() + 1 <= LOOKAHEAD,
{
}

/// Where a pattern is found, it stands, at or behind where the search
/// began, and it stands nowhere between.
pub proof fn find_is_first(body: Seq<u8>, from: int, pattern: Seq<u8>, named: bool)
    requires
        0 <= from,
        pattern.len() >= 1,
    ensures
        match find(body, from, pattern, named) {
            Some(q) => from <= q < body.len() && hit(body, q, pattern, named) && forall|j: int|
                from <= j < q ==> !hit(body, j, pattern, named),
            None => forall|j: int| from <= j ==> !hit(body, j, pattern, named),
        },
    decreases body.len() - from,
{
    if from < body.len() && !hit(body, from, pattern, named) {
        find_is_first(body, from + 1, pattern, named);
    }
}

/// A pattern that stands in the beginning of a page stands in the page,
/// and the reverse, where the beginning is long enough to hold it.
pub proof fn hit_extends(beginning: Seq<u8>, more: Seq<u8>, q: int, pattern: Seq<u8>, named: bool)
    requires
        0 <= q,
        q + pattern.len() + (if named {
            1int
        } else {
            0int
        }) <= beginning.len(),
    ensures
        hit(beginning + more, q, pattern, named) == hit(beginning, q, pattern, named),
{
    let longer = beginning + more;
    assert(longer.subrange(q, q + pattern.len()) =~= beginning.subrange(q, q + pattern.len()));
}

/// A pattern stands in what follows a prefix where it stands in the whole,
/// moved by the length of the prefix.
pub proof fn hit_moves(prefix: Seq<u8>, body: Seq<u8>, q: int, pattern: Seq<u8>, named: bool)
    requires
        0 <= q,
    ensures
        hit(prefix + body, prefix.len() + q, pattern, named) == hit(body, q, pattern, named),
{
    let whole = prefix + body;
    let at = prefix.len() + q;
    if q + pattern.len() <= body.len() {
        assert(whole.subrange(at, at + pattern.len()) =~= body.subrange(q, q + pattern.len()));
    }
}

/// A pattern that is found in the beginning of a page is found at the same
/// place in the page.
pub proof fn find_extends(
    beginning: Seq<u8>,
    more: Seq<u8>,
    from: int,
    pattern: Seq<u8>,
    named: bool,
)
    requires
        0 <= from,
        pattern.len() >= 1,
        find(beginning, from, pattern, named) is Some,
    ensures
        find(beginning + more, from, pattern, named) == find(beginning, from, pattern, named),
    decreases beginning.len() - from,
{
    find_is_first(beginning, from, pattern, named);
    let q = find(beginning, from, pattern, named)->0;
    hit_extends(beginning, more, from, pattern, named);
    if !hit(beginning, from, pattern, named) {
        find_extends(beginning, more, from + 1, pattern, named);
    }
}

/// Searching what follows a prefix is searching the whole, moved by the
/// length of the prefix.
pub proof fn find_moves(prefix: Seq<u8>, body: Seq<u8>, from: int, pattern: Seq<u8>, named: bool)
    requires
        0 <= from,
    ensures
        find(prefix + body, prefix.len() + from, pattern, named) == (match find(
            body,
            from,
            pattern,
            named,
        ) {
            Some(q) => Some(q + prefix.len()),
            None => None,
        }),
    decreases body.len() - from,
{
    hit_moves(prefix, body, from, pattern, named);
    if from < body.len() && !hit(body, from, pattern, named) {
        find_moves(prefix, body, from + 1, pattern, named);
    }
}

/// The end of a tag lies in the page, at or behind where it was looked for,
/// and a `>` stands there.
pub proof fn tag_end_is_in_page(body: Seq<u8>, from: int, quote: u8, valued: bool)
    requires
        0 <= from,
    ensures
        tag_end(body, from, quote, valued) matches Some(q) ==> from <= q < body.len() && body[q]
            == '>' as u8,
    decreases body.len() - from,
{
    if from < body.len() {
        let b = body[from];
        if quote != 0 {
            tag_end_is_in_page(
                body,
                from + 1,
                if b == quote {
                    0u8
                } else {
                    quote
                },
                false,
            );
        } else if b == '>' as u8 {
        } else if valued && (b == '"' as u8 || b == '\'' as u8) {
            tag_end_is_in_page(body, from + 1, b, false);
        } else {
            tag_end_is_in_page(body, from + 1, 0, b == '=' as u8 || (valued && is_space(b)));
        }
    }
}

/// A tag that ends in the beginning of a page ends at the same place in the
/// page.
pub proof fn tag_end_extends(
    beginning: Seq<u8>,
    more: Seq<u8>,
    from: int,
    quote: u8,
    valued: bool,
)
    requires
        0 <= from,
        tag_end(beginning, from, quote, valued) is Some,
    ensures
        tag_end(beginning + more, from, quote, valued) == tag_end(beginning, from, quote, valued),
    decreases beginning.len() - from,
{
    if from < beginning.len() {
        let b = beginning[from];
        assert((beginning + more)[from] == b);
        if quote != 0 {
            tag_end_extends(
                beginning,
                more,
                from + 1,
                if b == quote {
                    0u8
                } else {
                    quote
                },
                false,
            );
        } else if b == '>' as u8 {
        } else if valued && (b == '"' as u8 || b == '\'' as u8) {
            tag_end_extends(beginning, more, from + 1, b, false);
        } else {
            tag_end_extends(
                beginning,
                more,
                from + 1,
                0,
                b == '=' as u8 || (valued && is_space(b)),
            );
        }
    }
}

/// The end of a tag in what follows a prefix is its end in the whole, moved
/// by the length of the prefix.
pub proof fn tag_end_moves(prefix: Seq<u8>, body: Seq<u8>, from: int, quote: u8, valued: bool)
    requires
        0 <= from,
    ensures
        tag_end(prefix + body, prefix.len() + from, quote, valued) == (match tag_end(
            body,
            from,
            quote,
            valued,
        ) {
            Some(q) => Some(q + prefix.len()),
            None => None,
        }),
    decreases body.len() - from,
{
    if from < body.len() {
        let b = body[from];
        assert((prefix + body)[prefix.len() + from] == b);
        if quote != 0 {
            tag_end_moves(
                prefix,
                body,
                from + 1,
                if b == quote {
                    0u8
                } else {
                    quote
                },
                false,
            );
        } else if b == '>' as u8 {
        } else if valued && (b == '"' as u8 || b == '\'' as u8) {
            tag_end_moves(prefix, body, from + 1, b, false);
        } else {
            tag_end_moves(prefix, body, from + 1, 0, b == '=' as u8 || (valued && is_space(b)));
        }
    }
}

/// A step to later text leads forward and not beyond the page.
#[verifier::rlimit(40)]
pub proof fn next_advances(body: Seq<u8>, i: int, complete: bool)
    requires
        0 <= i < body.len(),
    ensures
        next(body, i, complete) matches Step::Skip(j) ==> i < j <= body.len(),
{
    find_is_first(body, i + 2, pattern_of(Pattern::CommentEnd), false);
    tag_end_is_in_page(body, i + 1, 0, false);
    match closes_at(body, i) {
        Some(q) => {
            find_is_first(body, q + 1, pattern_of(Pattern::ScriptEnd), true);
            find_is_first(body, q + 1, pattern_of(Pattern::StyleEnd), true);
            find_is_first(body, q + 1, pattern_of(Pattern::TextareaEnd), true);
            find_is_first(body, q + 1, pattern_of(Pattern::TitleEnd), true);
        },
        None => {},
    }
}

/// What was told of the beginning of a page holds of the page: a step that
/// did not wait for more is the same step whatever follows, and whether or
/// not the page ends there.
#[verifier::rlimit(40)]
pub proof fn next_extends(beginning: Seq<u8>, more: Seq<u8>, i: int, complete: bool)
    requires
        0 <= i < beginning.len(),
        next(beginning, i, false) != Step::Stuck,
    ensures
        next(beginning + more, i, complete) == next(beginning, i, false),
{
    let page = beginning + more;
    assert(page[i] == beginning[i]);
    if beginning[i] == '<' as u8 {
        patterns_are_short(Pattern::CommentOpen);
        patterns_are_short(Pattern::BodyEnd);
        patterns_are_short(Pattern::ScriptOpen);
        patterns_are_short(Pattern::StyleOpen);
        patterns_are_short(Pattern::TextareaOpen);
        patterns_are_short(Pattern::TitleOpen);
        patterns_are_short(Pattern::CommentEnd);
        patterns_are_short(Pattern::ScriptEnd);
        patterns_are_short(Pattern::StyleEnd);
        patterns_are_short(Pattern::TextareaEnd);
        patterns_are_short(Pattern::TitleEnd);
        hit_extends(beginning, more, i, pattern_of(Pattern::CommentOpen), false);
        hit_extends(beginning, more, i, pattern_of(Pattern::BodyEnd), true);
        hit_extends(beginning, more, i, pattern_of(Pattern::ScriptOpen), true);
        hit_extends(beginning, more, i, pattern_of(Pattern::StyleOpen), true);
        hit_extends(beginning, more, i, pattern_of(Pattern::TextareaOpen), true);
        hit_extends(beginning, more, i, pattern_of(Pattern::TitleOpen), true);
        assert(page[i + 1] == beginning[i + 1]);
        assert(page[i + 2] == beginning[i + 2]);
        assert(opens_tag(page, i) == opens_tag(beginning, i));
        if find(beginning, i + 2, pattern_of(Pattern::CommentEnd), false) is Some {
            find_extends(beginning, more, i + 2, pattern_of(Pattern::CommentEnd), false);
        }
        if closes_at(beginning, i) is Some {
            tag_end_extends(beginning, more, i + 1, 0, false);
            let q = closes_at(beginning, i)->0;
            tag_end_is_in_page(beginning, i + 1, 0, false);
            if find(beginning, q + 1, pattern_of(Pattern::ScriptEnd), true) is Some {
                find_extends(beginning, more, q + 1, pattern_of(Pattern::ScriptEnd), true);
            }
            if find(beginning, q + 1, pattern_of(Pattern::StyleEnd), true) is Some {
                find_extends(beginning, more, q + 1, pattern_of(Pattern::StyleEnd), true);
            }
            if find(beginning, q + 1, pattern_of(Pattern::TextareaEnd), true) is Some {
                find_extends(beginning, more, q + 1, pattern_of(Pattern::TextareaEnd), true);
            }
            if find(beginning, q + 1, pattern_of(Pattern::TitleEnd), true) is Some {
                find_extends(beginning, more, q + 1, pattern_of(Pattern::TitleEnd), true);
            }
        }
    }
}

/// A step in what follows a prefix is the step in the whole, moved by the
/// length of the prefix.
#[verifier::rlimit(40)]
pub proof fn next_moves(prefix: Seq<u8>, body: Seq<u8>, i: int, complete: bool)
    requires
        0 <= i < body.len(),
    ensures
        next(prefix + body, prefix.len() + i, complete) == moved_step(
            next(body, i, complete),
            prefix.len() as int,
        ),
{
    let whole = prefix + body;
    let n = prefix.len() as int;
    assert(whole[n + i] == body[i]);
    if body[i] == '<' as u8 {
        hit_moves(prefix, body, i, pattern_of(Pattern::CommentOpen), false);
        hit_moves(prefix, body, i, pattern_of(Pattern::BodyEnd), true);
        hit_moves(prefix, body, i, pattern_of(Pattern::ScriptOpen), true);
        hit_moves(prefix, body, i, pattern_of(Pattern::StyleOpen), true);
        hit_moves(prefix, body, i, pattern_of(Pattern::TextareaOpen), true);
        hit_moves(prefix, body, i, pattern_of(Pattern::TitleOpen), true);
        if i + 1 < body.len() {
            assert(whole[n + i + 1] == body[i + 1]);
        }
        if i + 2 < body.len() {
            assert(whole[n + i + 2] == body[i + 2]);
        }
        assert(opens_tag(whole, n + i) == opens_tag(body, i));
        find_moves(prefix, body, i + 2, pattern_of(Pattern::CommentEnd), false);
        tag_end_moves(prefix, body, i + 1, 0, false);
        match closes_at(body, i) {
            Some(q) => {
                tag_end_is_in_page(body, i + 1, 0, false);
                find_moves(prefix, body, q + 1, pattern_of(Pattern::ScriptEnd), true);
                find_moves(prefix, body, q + 1, pattern_of(Pattern::StyleEnd), true);
                find_moves(prefix, body, q + 1, pattern_of(Pattern::TextareaEnd), true);
                find_moves(prefix, body, q + 1, pattern_of(Pattern::TitleEnd), true);
            },
            None => {},
        }
    }
}

/// Reading what follows a prefix is reading the whole from the end of the
/// prefix, moved by its length.
pub proof fn scan_moves(prefix: Seq<u8>, body: Seq<u8>, i: int, complete: bool)
    requires
        0 <= i <= body.len(),
    ensures
        scan(prefix + body, prefix.len() + i, complete) == moved(
            scan(body, i, complete),
            prefix.len() as int,
        ),
    decreases body.len() - i,
{
    if i < body.len() {
        next_moves(prefix, body, i, complete);
        next_advances(body, i, complete);
        match next(body, i, complete) {
            Step::Skip(j) => {
                scan_moves(prefix, body, j, complete);
            },
            _ => {},
        }
    }
}

/// Where the reading finds the closing body tag, what stands there is one:
/// `</body`, in small or capital letters, before the end of the name, in a
/// tag that ends.
pub proof fn scan_found(body: Seq<u8>, i: int, complete: bool)
    requires
        0 <= i,
        scan(body, i, complete) is Found,
    ensures
        i <= scan(body, i, complete)->Found_0 < body.len(),
        next(body, scan(body, i, complete)->Found_0, complete) == Step::Found,
        hit(body, scan(body, i, complete)->Found_0, pattern_of(Pattern::BodyEnd), true),
        closes_at(body, scan(body, i, complete)->Found_0) is Some,
    decreases body.len() - i,
{
    if i < body.len() {
        next_advances(body, i, complete);
        match next(body, i, complete) {
            Step::Skip(j) => {
                scan_found(body, j, complete);
            },
            _ => {},
        }
    }
}

/// A reading that waits for more of the page goes on where it stopped: of
/// the page, however it continues, it comes by that position.
pub proof fn scan_resumes(beginning: Seq<u8>, more: Seq<u8>, i: int, complete: bool)
    requires
        0 <= i <= beginning.len(),
        scan(beginning, i, false) is Stuck,
    ensures
        i <= scan(beginning, i, false)->Stuck_0 <= beginning.len(),
        scan(beginning + more, i, complete) == scan(
            beginning + more,
            scan(beginning, i, false)->Stuck_0,
            complete,
        ),
    decreases beginning.len() - i,
{
    if i < beginning.len() {
        next_advances(beginning, i, false);
        match next(beginning, i, false) {
            Step::Skip(j) => {
                next_extends(beginning, more, i, complete);
                scan_resumes(beginning, more, j, complete);
            },
            _ => {},
        }
    }
}

/// A closing body tag that was found in the beginning of a page is the one
/// of the page, however it continues.
pub proof fn scan_found_extends(beginning: Seq<u8>, more: Seq<u8>, i: int, complete: bool)
    requires
        0 <= i,
        scan(beginning, i, false) is Found,
    ensures
        scan(beginning + more, i, complete) == scan(beginning, i, false),
    decreases beginning.len() - i,
{
    if i < beginning.len() {
        next_advances(beginning, i, false);
        next_extends(beginning, more, i, complete);
        match next(beginning, i, false) {
            Step::Skip(j) => {
                scan_found_extends(beginning, more, j, complete);
            },
            _ => {},
        }
    }
}

/// Two pages have the same bytes up to and including the position `at`,
/// where a `<` stands.
pub open spec fn agree_to(body: Seq<u8>, other: Seq<u8>, at: int) -> bool {
    &&& 0 <= at < body.len()
    &&& at < other.len()
    &&& body.take(at + 1) == other.take(at + 1)
    &&& body[at] == '<' as u8
}

/// A pattern holds no `<` behind its first byte, and the end of a comment
/// holds none at all.
proof fn angle_only_in_front(pattern: Pattern)
    ensures
        forall|k: int|
            1 <= k < pattern_of(pattern).len() ==> pattern_of(pattern)[k] != '<' as u8,
        forall|k: int|
            0 <= k < pattern_of(pattern).len() ==> lower(pattern_of(pattern)[k]) == pattern_of(
                pattern,
            )[k],
        pattern == Pattern::CommentEnd ==> pattern_of(pattern)[0] != '<' as u8,
{
}

/// A pattern that stands in a page does not reach over a later `<`.
proof fn hit_ends_before_angle(body: Seq<u8>, at: int, q: int, pattern: Pattern, named: bool)
    requires
        0 <= q < at < body.len(),
        body[at] == '<' as u8,
        hit(body, q, pattern_of(pattern), named),
    ensures
        q + pattern_of(pattern).len() + (if named {
            1int
        } else {
            0int
        }) <= at,
{
    let p = pattern_of(pattern);
    angle_only_in_front(pattern);
    let k = at - q;
    if k < p.len() {
        let found = lowered(body.subrange(q, q + p.len()));
        assert(found[k] == lower(body[q + k]));
    }
}

/// Before a `<` that two pages share, a pattern stands in the one where it
/// stands in the other.
proof fn hit_agrees(body: Seq<u8>, other: Seq<u8>, at: int, q: int, pattern: Pattern, named: bool)
    requires
        agree_to(body, other, at),
        0 <= q < at,
    ensures
        hit(body, q, pattern_of(pattern), named) == hit(other, q, pattern_of(pattern), named),
{
    let p = pattern_of(pattern);
    let width = p.len() + (if named {
        1int
    } else {
        0int
    });
    assert(forall|k: int| 0 <= k <= at ==> body[k] == body.take(at + 1)[k]);
    assert(forall|k: int| 0 <= k <= at ==> other[k] == other.take(at + 1)[k]);
    assert(other[at] == '<' as u8);
    if q + width <= at + 1 {
        assert(body.subrange(q, q + p.len()) =~= other.subrange(q, q + p.len()));
    } else {
        if hit(body, q, p, named) {
            hit_ends_before_angle(body, at, q, pattern, named);
        }
        if hit(other, q, p, named) {
            hit_ends_before_angle(other, at, q, pattern, named);
        }
    }
}

/// Before a `<` that two pages share, a search that ends in the one ends at
/// the same place in the other.
proof fn find_agrees(
    body: Seq<u8>,
    other: Seq<u8>,
    at: int,
    from: int,
    pattern: Pattern,
    named: bool,
)
    requires
        agree_to(body, other, at),
        0 <= from,
        find(body, from, pattern_of(pattern), named) matches Some(q) && q < at,
    ensures
        find(other, from, pattern_of(pattern), named) == find(
            body,
            from,
            pattern_of(pattern),
            named,
        ),
    decreases body.len() - from,
{
    let p = pattern_of(pattern);
    angle_only_in_front(pattern);
    assert(1 <= p.len()) by {
        patterns_are_short(pattern);
    }
    find_is_first(body, from, p, named);
    hit_agrees(body, other, at, from, pattern, named);
    if !hit(body, from, p, named) {
        find_agrees(body, other, at, from + 1, pattern, named);
    }
}

/// Before a `<` that two pages share, a tag that ends in the one ends at
/// the same place in the other.
proof fn tag_end_agrees(body: Seq<u8>, other: Seq<u8>, at: int, from: int, quote: u8, valued: bool)
    requires
        agree_to(body, other, at),
        0 <= from,
        tag_end(body, from, quote, valued) matches Some(q) && q < at,
    ensures
        tag_end(other, from, quote, valued) == tag_end(body, from, quote, valued),
    decreases body.len() - from,
{
    tag_end_is_in_page(body, from, quote, valued);
    assert(body[from] == body.take(at + 1)[from]);
    assert(other[from] == other.take(at + 1)[from]);
    let b = body[from];
    if quote != 0 {
        tag_end_agrees(
            body,
            other,
            at,
            from + 1,
            if b == quote {
                0u8
            } else {
                quote
            },
            false,
        );
    } else if b == '>' as u8 {
    } else if valued && (b == '"' as u8 || b == '\'' as u8) {
        tag_end_agrees(body, other, at, from + 1, b, false);
    } else {
        tag_end_agrees(body, other, at, from + 1, 0, b == '=' as u8 || (valued && is_space(b)));
    }
}

/// A closing body tag is the end tag of nothing else.
proof fn body_end_is_no_other_end(body: Seq<u8>, at: int)
    requires
        hit(body, at, pattern_of(Pattern::BodyEnd), true),
    ensures
        !hit(body, at, pattern_of(Pattern::ScriptEnd), true),
        !hit(body, at, pattern_of(Pattern::StyleEnd), true),
        !hit(body, at, pattern_of(Pattern::TextareaEnd), true),
        !hit(body, at, pattern_of(Pattern::TitleEnd), true),
{
    let found = lowered(body.subrange(at, at + 6));
    assert(found[2] == lower(body[at + 2]));
    assert(found[2] == 'b' as u8);
    if hit(body, at, pattern_of(Pattern::ScriptEnd), true) {
        assert(lowered(body.subrange(at, at + 8))[2] == lower(body[at + 2]));
    }
    if hit(body, at, pattern_of(Pattern::StyleEnd), true) {
        assert(lowered(body.subrange(at, at + 7))[2] == lower(body[at + 2]));
    }
    if hit(body, at, pattern_of(Pattern::TextareaEnd), true) {
        assert(lowered(body.subrange(at, at + 10))[2] == lower(body[at + 2]));
    }
    if hit(body, at, pattern_of(Pattern::TitleEnd), true) {
        assert(lowered(body.subrange(at, at + 7))[2] == lower(body[at + 2]));
    }
}

/// The content of an element without markup, where it ends at or before a
/// closing body tag that two pages share, ends at the same place in both.
proof fn raw_agrees(body: Seq<u8>, other: Seq<u8>, at: int, i: int, end: Pattern)
    requires
        agree_to(body, other, at),
        0 <= i < at,
        is_named(end),
        !hit(body, at, pattern_of(end), true),
        raw(body, i, end, true) matches Step::Skip(j) && j <= at,
    ensures
        raw(other, i, end, true) == raw(body, i, end, true),
{
    tag_end_is_in_page(body, i + 1, 0, false);
    let q = closes_at(body, i)->0;
    patterns_are_short(end);
    find_is_first(body, q + 1, pattern_of(end), true);
    tag_end_agrees(body, other, at, i + 1, 0, false);
    find_agrees(body, other, at, q + 1, end, true);
}

/// Before a closing body tag that two pages share, the reading takes the
/// same steps in both.
#[verifier::rlimit(40)]
proof fn next_agrees(body: Seq<u8>, other: Seq<u8>, at: int, i: int)
    requires
        agree_to(body, other, at),
        hit(body, at, pattern_of(Pattern::BodyEnd), true),
        0 <= i < at,
        next(body, i, true) matches Step::Skip(j) && j <= at,
    ensures
        next(other, i, true) == next(body, i, true),
{
    assert(body[i] == body.take(at + 1)[i]);
    assert(other[i] == other.take(at + 1)[i]);
    if body[i] == '<' as u8 {
        hit_agrees(body, other, at, i, Pattern::CommentOpen, false);
        hit_agrees(body, other, at, i, Pattern::BodyEnd, true);
        hit_agrees(body, other, at, i, Pattern::ScriptOpen, true);
        hit_agrees(body, other, at, i, Pattern::StyleOpen, true);
        hit_agrees(body, other, at, i, Pattern::TextareaOpen, true);
        hit_agrees(body, other, at, i, Pattern::TitleOpen, true);
        body_end_is_no_other_end(body, at);
        assert(body[i + 1] == body.take(at + 1)[i + 1]);
        assert(other[i + 1] == other.take(at + 1)[i + 1]);
        if i + 2 <= at {
            assert(body[i + 2] == body.take(at + 1)[i + 2]);
            assert(other[i + 2] == other.take(at + 1)[i + 2]);
        }
        assert(opens_tag(other, i) == opens_tag(body, i));
        if hit(body, i, pattern_of(Pattern::CommentOpen), false) {
            patterns_are_short(Pattern::CommentEnd);
            find_is_first(body, i + 2, pattern_of(Pattern::CommentEnd), false);
            find_agrees(body, other, at, i + 2, Pattern::CommentEnd, false);
        } else if hit(body, i, pattern_of(Pattern::BodyEnd), true) {
        } else if hit(body, i, pattern_of(Pattern::ScriptOpen), true) {
            raw_agrees(body, other, at, i, Pattern::ScriptEnd);
        } else if hit(body, i, pattern_of(Pattern::StyleOpen), true) {
            raw_agrees(body, other, at, i, Pattern::StyleEnd);
        } else if hit(body, i, pattern_of(Pattern::TextareaOpen), true) {
            raw_agrees(body, other, at, i, Pattern::TextareaEnd);
        } else if hit(body, i, pattern_of(Pattern::TitleOpen), true) {
            raw_agrees(body, other, at, i, Pattern::TitleEnd);
        } else if opens_tag(body, i) {
            tag_end_is_in_page(body, i + 1, 0, false);
            tag_end_agrees(body, other, at, i + 1, 0, false);
        }
    }
}

/// Two pages that are the same up to the `<` of the first closing body tag
/// of the one are read alike up to there: the reading of the other comes by
/// that position.
pub proof fn scan_agrees(body: Seq<u8>, other: Seq<u8>, at: int, i: int)
    requires
        agree_to(body, other, at),
        0 <= i <= at,
        scan(body, i, true) == Scan::Found(at),
    ensures
        scan(other, i, true) == scan(other, at, true),
    decreases at - i,
{
    if i < at {
        scan_found(body, i, true);
        next_advances(body, i, true);
        match next(body, i, true) {
            Step::Skip(j) => {
                scan_found(body, j, true);
                next_agrees(body, other, at, i);
                scan_agrees(body, other, at, j);
            },
            _ => {},
        }
    }
}

/// What reading a page comes to.
#[derive(Debug, Clone, Copy, PartialEq, Eq)]
pub enum Outcome {
    /// The closing body tag begins at this position.
    Found(usize),
    /// No closing body tag was found so far; what begins at this position
    /// cannot be told before more of the page is known.
    Stuck(usize),
    /// The page holds no closing body tag.
    End,
}

impl View for Outcome {
    type V = Scan;

    open spec fn view(&self) -> Scan {
        match self {
            Outcome::Found(at) => Scan::Found(*at as int),
            Outcome::Stuck(p) => Scan::Stuck(*p as int),
            Outcome::End => Scan::End,
        }
    }
}

/// What the reading finds at a position.
enum Token {
    Found,
    Skip(usize),
    Stuck,
    End,
}

impl View for Token {
    type V = Step;

    closed spec fn view(&self) -> Step {
        match self {
            Token::Found => Step::Found,
            Token::Skip(j) => Step::Skip(*j as int),
            Token::Stuck => Step::Stuck,
            Token::End => Step::End,
        }
    }
}

fn lower_byte(byte: u8) -> (r: u8)
    ensures
        r == lower(byte),
{
    if ('A' as u8) <= byte && byte <= ('Z' as u8) {
        byte + 32
    } else {
        byte
    }
}

fn is_letter_byte(byte: u8) -> (r: bool)
    ensures
        r == is_letter(byte),
{
    let small = lower_byte(byte);
    ('a' as u8) <= small && small <= ('z' as u8)
}

fn ends_name_byte(byte: u8) -> (r: bool)
    ensures
        r == ends_name(byte),
{
    byte == 9 || byte == 10 || byte == 12 || byte == 13 || byte == 32 || byte == ('/' as u8)
        || byte == ('>' as u8)
}

/// The bytes of a pattern.
fn bytes(pattern: Pattern) -> (r: Vec<u8>)
    ensures
        r@ == pattern_of(pattern),
        1 <= r.len() <= LOOKAHEAD,
{
    let out = match pattern {
        Pattern::CommentOpen => vec!['<' as u8, '!' as u8, '-' as u8, '-' as u8],
        Pattern::CommentEnd => vec!['-' as u8, '-' as u8, '>' as u8],
        Pattern::BodyEnd => vec!['<' as u8, '/' as u8, 'b' as u8, 'o' as u8, 'd' as u8, 'y' as u8],
        Pattern::ScriptOpen => vec![
            '<' as u8,
            's' as u8,
            'c' as u8,
            'r' as u8,
            'i' as u8,
            'p' as u8,
            't' as u8,
        ],
        Pattern::ScriptEnd => vec![
            '<' as u8,
            '/' as u8,
            's' as u8,
            'c' as u8,
            'r' as u8,
            'i' as u8,
            'p' as u8,
            't' as u8,
        ],
        Pattern::StyleOpen => vec!['<' as u8, 's' as u8, 't' as u8, 'y' as u8, 'l' as u8, 'e' as u8],
        Pattern::StyleEnd => vec![
            '<' as u8,
            '/' as u8,
            's' as u8,
            't' as u8,
            'y' as u8,
            'l' as u8,
            'e' as u8,
        ],
        Pattern::TextareaOpen => vec!['<' as u8, 't' as u8, 'e' as u8, 'x' as u8, 't' as u8, 'a' as u8, 'r' as u8, 'e' as u8, 'a' as u8],
        Pattern::TextareaEnd => vec!['<' as u8, '/' as u8, 't' as u8, 'e' as u8, 'x' as u8, 't' as u8, 'a' as u8, 'r' as u8, 'e' as u8, 'a' as u8],
        Pattern::TitleOpen => vec!['<' as u8, 't' as u8, 'i' as u8, 't' as u8, 'l' as u8, 'e' as u8],
        Pattern::TitleEnd => vec!['<' as u8, '/' as u8, 't' as u8, 'i' as u8, 't' as u8, 'l' as u8, 'e' as u8],
    };
    assert(out@ =~= pattern_of(pattern));
    out
}

/// Whether the pattern stands at `q`.
fn stands(body: &[u8], q: usize, pattern: &Vec<u8>, named: bool) -> (r: bool)
    requires
        pattern.len() <= LOOKAHEAD,
    ensures
        r == hit(body@, q as int, pattern@, named),
{
    let n = body.len();
    let width = if named {
        pattern.len() + 1
    } else {
        pattern.len()
    };
    if q > n || n - q < width {
        return false;
    }
    let mut k: usize = 0;
    while k < pattern.len()
        invariant
            k <= pattern.len() <= LOOKAHEAD,
            n == body@.len(),
            q + width <= n,
            pattern.len() <= width,
            forall|j: int| 0 <= j < k ==> lower(body@[q + j]) == pattern@[j],
        decreases pattern.len() - k,
    {
        if lower_byte(body[q + k]) != pattern[k] {
            proof {
                let found = lowered(body@.subrange(q as int, q + pattern@.len()));
                assert(found[k as int] == lower(body@[q + k]));
            }
            return false;
        }
        k += 1;
    }
    assert(lowered(body@.subrange(q as int, q + pattern@.len())) =~= pattern@);
    if named {
        ends_name_byte(body[q + pattern.len()])
    } else {
        true
    }
}

/// The first position at or behind `from` where the pattern stands.
fn search(body: &[u8], from: usize, pattern: &Vec<u8>, named: bool) -> (r: Option<usize>)
    requires
        1 <= pattern.len() <= LOOKAHEAD,
    ensures
        match r {
            Some(q) => find(body@, from as int, pattern@, named) == Some(q as int) && from <= q
                < body@.len() && hit(body@, q as int, pattern@, named),
            None => find(body@, from as int, pattern@, named) is None,
        },
{
    let mut q: usize = from;
    while q < body.len()
        invariant
            from <= q,
            1 <= pattern.len() <= LOOKAHEAD,
            find(body@, from as int, pattern@, named) == find(body@, q as int, pattern@, named),
        decreases body.len() - q,
    {
        if stands(body, q, pattern, named) {
            return Some(q);
        }
        q += 1;
    }
    None
}

/// The end of the tag that begins at the `<` at position `i`.
fn close_of(body: &[u8], i: usize) -> (r: Option<usize>)
    requires
        i < body@.len(),
    ensures
        match r {
            Some(q) => closes_at(body@, i as int) == Some(q as int) && i < q < body@.len(),
            None => closes_at(body@, i as int) is None,
        },
{
    proof {
        tag_end_is_in_page(body@, i + 1, 0, false);
    }
    let n = body.len();
    let mut q: usize = i + 1;
    let mut quote: u8 = 0;
    let mut valued = false;
    while q < n
        invariant
            i < q,
            n == body@.len(),
            closes_at(body@, i as int) == tag_end(body@, q as int, quote, valued),
        decreases n - q,
    {
        let b = body[q];
        if quote != 0 {
            if b == quote {
                quote = 0;
            }
            valued = false;
        } else if b == ('>' as u8) {
            return Some(q);
        } else if valued && (b == ('"' as u8) || b == ('\'' as u8)) {
            quote = b;
            valued = false;
        } else {
            valued = b == ('=' as u8) || (valued && (b == 9 || b == 10 || b == 12 || b == 13 || b
                == 32));
        }
        q += 1;
    }
    None
}

/// What the reading finds at the position `i`.
fn token(body: &[u8], i: usize, complete: bool) -> (r: Token)
    requires
        i < body@.len(),
    ensures
        r@ == next(body@, i as int, complete),
        r matches Token::Skip(j) ==> i < j <= body@.len(),
{
    proof {
        next_advances(body@, i as int, complete);
    }
    let n = body.len();
    if body[i] != ('<' as u8) {
        return Token::Skip(i + 1);
    }
    if !complete && n - i < LOOKAHEAD {
        return Token::Stuck;
    }
    let open = if complete {
        Token::End
    } else {
        Token::Stuck
    };
    if stands(body, i, &bytes(Pattern::CommentOpen), false) {
        return match search(body, i + 2, &bytes(Pattern::CommentEnd), false) {
            Some(q) => Token::Skip(q + 3),
            None => open,
        };
    }
    if stands(body, i, &bytes(Pattern::BodyEnd), true) {
        return match close_of(body, i) {
            Some(_) => Token::Found,
            None => open,
        };
    }
    let end = if stands(body, i, &bytes(Pattern::ScriptOpen), true) {
        Some(Pattern::ScriptEnd)
    } else if stands(body, i, &bytes(Pattern::StyleOpen), true) {
        Some(Pattern::StyleEnd)
    } else if stands(body, i, &bytes(Pattern::TextareaOpen), true) {
        Some(Pattern::TextareaEnd)
    } else if stands(body, i, &bytes(Pattern::TitleOpen), true) {
        Some(Pattern::TitleEnd)
    } else {
        None
    };
    match end {
        Some(end) => {
            return match close_of(body, i) {
                Some(q) => match search(body, q + 1, &bytes(end), true) {
                    Some(r) => Token::Skip(r),
                    None => open,
                },
                None => open,
            };
        },
        None => {},
    }
    let tag = n - i > 1 && (is_letter_byte(body[i + 1]) || (body[i + 1] == ('/' as u8) && n - i > 2
        && is_letter_byte(body[i + 2])));
    if tag {
        match close_of(body, i) {
            Some(q) => Token::Skip(q + 1),
            None => open,
        }
    } else {
        Token::Skip(i + 1)
    }
}

/// Reads `body` as HTML from its start and says where its closing body tag
/// begins. `complete` says whether `body` is the whole page or only its
/// beginning.
pub fn read(body: &[u8], complete: bool) -> (r: Outcome)
    ensures
        r@ == scan(body@, 0, complete),
        r matches Outcome::Found(at) ==> at < body@.len(),
        r matches Outcome::Stuck(p) ==> p <= body@.len(),
{
    let mut i: usize = 0;
    while i < body.len()
        invariant
            i <= body@.len(),
            scan(body@, 0, complete) == scan(body@, i as int, complete),
        decreases body.len() - i,
    {
        match token(body, i, complete) {
            Token::Found => {
                return Outcome::Found(i);
            },
            Token::Skip(j) => {
                i = j;
            },
            Token::Stuck => {
                return Outcome::Stuck(i);
            },
            Token::End => {
                return Outcome::End;
            },
        }
    }
    if complete {
        Outcome::End
    } else {
        Outcome::Stuck(i)
    }
}

} // verus!
