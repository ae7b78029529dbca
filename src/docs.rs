//! The documentation structural parser: decoration stripping, then a walk
//! over the markup of the stripped text.
use vstd::prelude::*;
use crate::diagnostics::{diag_spec, diags_view, emit, Applicability, Diagnostic, DiagnosticView, Finding, Span};
use crate::tree::{attrs_wf, Attribute};
use crate::markup::{coalesce_texts, doc_events, events_view, markdown_events, Located, LocatedView, MarkupEvent, MarkupEventView};
use crate::text::{
    byte_len, chars_eq, chars_of, is_whitespace, lemma_byte_len_range,
    lemma_byte_len_take, push_range, string_from_chars, utf8_width, white_space,
};

verus! {

/// The style of a doc comment.
#[derive(Clone, Copy, Debug, PartialEq, Eq, Structural)]
pub enum CommentKind {
    /// `///` or `//!` comments, one per line.
    Line,
    /// `/** ... */` or `/*! ... */` comments.
    Block,
}

/// Where the text of the line that starts at `start` ends, when the line's
/// terminator (or the end of `s`) is at `p`: a `\r` before a `\n` is not
/// part of it.
pub open spec fn text_end(s: Seq<char>, start: int, p: int) -> int {
    if p < s.len() && p > start && s[p - 1] == '\r' {
        p - 1
    } else {
        p
    }
}

/// The text of the line from `start` to the terminator at `p`.
pub open spec fn line_at(s: Seq<char>, start: int, p: int) -> Seq<char> {
    s.subrange(start, text_end(s, start, p))
}

/// The breakpoint entry of that line: its size in the stripped buffer (text
/// and newline) and the span where its text starts, after the three
/// delimiter bytes.
pub open spec fn line_entry(s: Seq<char>, start: int, p: int, span: Span) -> (usize, Span) {
    (
        (byte_len(line_at(s, start, p)) + 1) as usize,
        Span { lo: (span.lo + 3 + byte_len(s.take(start))) as usize, hi: span.hi },
    )
}

/// The index of the first character of `line` at or after `i` that is not
/// whitespace, or the length of `line`.
pub open spec fn first_text_from(line: Seq<char>, i: int) -> int
    decreases line.len() - i,
{
    if i >= line.len() {
        line.len() as int
    } else if !white_space(line[i]) {
        i
    } else {
        first_text_from(line, i + 1)
    }
}

/// Whether the first non-whitespace character of `line` is `*`.
pub open spec fn starred(line: Seq<char>) -> bool {
    let k = first_text_from(line, 0);
    k < line.len() && line[k] == '*'
}

/// `line` with its leading `*`, if any, replaced by a space.
pub open spec fn destar(line: Seq<char>) -> Seq<char> {
    if starred(line) {
        line.update(first_text_from(line, 0), ' ')
    } else {
        line
    }
}

/// The breakpoints of the lines of `s` from position `p`, where the current
/// line began at `start`.
pub open spec fn block_sizes(s: Seq<char>, p: int, start: int, span: Span) -> Seq<(usize, Span)>
    decreases s.len() - p,
{
    if p >= s.len() {
        if start < s.len() {
            seq![line_entry(s, start, s.len() as int, span)]
        } else {
            seq![]
        }
    } else if s[p] == '\n' {
        seq![line_entry(s, start, p, span)] + block_sizes(s, p + 1, p + 1, span)
    } else {
        block_sizes(s, p + 1, start, span)
    }
}

/// The lines of `s` from position `p`, each with its leading star removed
/// and a newline after it.
pub open spec fn destarred(s: Seq<char>, p: int, start: int) -> Seq<char>
    decreases s.len() - p,
{
    if p >= s.len() {
        if start < s.len() {
            destar(line_at(s, start, s.len() as int)).push('\n')
        } else {
            seq![]
        }
    } else if s[p] == '\n' {
        destar(line_at(s, start, p)).push('\n') + destarred(s, p + 1, p + 1)
    } else {
        destarred(s, p + 1, start)
    }
}

/// Whether some line of `s` from position `p` starts with a star.
pub open spec fn has_starred_line(s: Seq<char>, p: int, start: int) -> bool
    decreases s.len() - p,
{
    if p >= s.len() {
        start < s.len() && starred(line_at(s, start, s.len() as int))
    } else if s[p] == '\n' {
        starred(line_at(s, start, p)) || has_starred_line(s, p + 1, p + 1)
    } else {
        has_starred_line(s, p + 1, start)
    }
}

/// The normalized text of a doc comment.
pub open spec fn stripped_text(doc: Seq<char>, kind: CommentKind) -> Seq<char> {
    match kind {
        CommentKind::Line => doc.push('\n'),
        CommentKind::Block => if has_starred_line(doc, 0, 0) {
            destarred(doc, 0, 0)
        } else {
            doc
        },
    }
}

/// The breakpoints of a doc comment: for each piece of the normalized text,
/// its size and the span where it starts.
pub open spec fn stripped_sizes(doc: Seq<char>, kind: CommentKind, span: Span) -> Seq<(usize, Span)> {
    match kind {
        CommentKind::Line => seq![
            ((byte_len(doc) + 1) as usize, Span { lo: (span.lo + 3) as usize, hi: span.hi }),
        ],
        CommentKind::Block => block_sizes(doc, 0, 0, span),
    }
}

/// Closes the line from `start` to the terminator at `p`: appends its
/// destarred text and a newline to `no_stars`, and returns its breakpoint
/// and whether it starts with a star.
fn finish_line(
    chars: &Vec<char>,
    start: usize,
    p: usize,
    startb: usize,
    pb: usize,
    span: Span,
    no_stars: &mut Vec<char>,
) -> (r: ((usize, Span), bool))
    requires
        start <= p <= chars@.len(),
        startb == byte_len(chars@.take(start as int)),
        pb == byte_len(chars@.take(p as int)),
        span.lo + 3 + byte_len(chars@) <= span.hi,
    ensures
        r.0 == line_entry(chars@, start as int, p as int, span),
        r.1 == starred(line_at(chars@, start as int, p as int)),
        final(no_stars)@ == old(no_stars)@ + destar(line_at(chars@, start as int, p as int)).push('\n'),
{
    let ghost s = chars@;
    let te: usize = if p < chars.len() && p > start && chars[p - 1] == '\r' {
        p - 1
    } else {
        p
    };
    proof {
        lemma_byte_len_range(s, start as int, p as int);
        if te < p {
            lemma_byte_len_take(s, te as int);
            lemma_byte_len_range(s, start as int, te as int);
        } else {
            lemma_byte_len_range(s, start as int, te as int);
        }
    }
    let tb: usize = if te < p {
        utf8_width(chars[te]);
        pb - 1
    } else {
        pb
    };
    let ghost line = line_at(s, start as int, p as int);
    assert(line =~= s.subrange(start as int, te as int));
    let entry = (tb - startb + 1, Span { lo: span.lo + 3 + startb, hi: span.hi });
    let mut k: usize = start;
    while k < te && is_whitespace(chars[k])
        invariant
            start <= k <= te <= p <= s.len(),
            s == chars@,
            line == s.subrange(start as int, te as int),
            first_text_from(line, 0) == first_text_from(line, k - start),
        decreases te - k,
    {
        k += 1;
    }
    let flag = k < te && chars[k] == '*';
    if flag {
        push_range(no_stars, chars, start, k);
        no_stars.push(' ');
        push_range(no_stars, chars, k + 1, te);
        assert(destar(line) =~= s.subrange(start as int, k as int) + seq![' '] + s.subrange(k + 1, te as int));
    } else {
        push_range(no_stars, chars, start, te);
    }
    no_stars.push('\n');
    (entry, flag)
}

/// Removes comment decoration from the text of one doc comment.
///
/// Returns the normalized text and its breakpoints: for each piece of the
/// text, its size in bytes and the span of the source where it starts. Line
/// comments become their text and a newline. In block comments, if any line
/// starts with `*` after whitespace, every such leading `*` becomes a space,
/// which keeps the columns; each line counts as one piece.
pub fn strip_doc_comment_decoration(doc: &str, comment_kind: CommentKind, span: Span) -> (r: (
    String,
    Vec<(usize, Span)>,
))
    requires
        span.lo + 3 + byte_len(doc@) <= span.hi,
    ensures
        r.0@ == stripped_text(doc@, comment_kind),
        r.1@ == stripped_sizes(doc@, comment_kind, span),
{
    let mut chars = chars_of(doc);
    let ghost s = chars@;
    if comment_kind == CommentKind::Line {
        chars.push('\n');
        let len = doc.len() + 1;
        let v = vec![(len, Span { lo: span.lo + 3, hi: span.hi })];
        assert(v@ =~= stripped_sizes(doc@, comment_kind, span));
        return (string_from_chars(&chars), v);
    }
    let n = chars.len();
    let mut sizes: Vec<(usize, Span)> = Vec::new();
    let mut no_stars: Vec<char> = Vec::new();
    let mut stars = false;
    let mut start: usize = 0;
    let mut startb: usize = 0;
    let mut p: usize = 0;
    let mut pb: usize = 0;
    proof {
        assert(s.take(0) =~= Seq::<char>::empty());
    }
    while p < n
        invariant
            s == chars@,
            n == s.len(),
            start <= p <= n,
            startb == byte_len(s.take(start as int)),
            pb == byte_len(s.take(p as int)),
            span.lo + 3 + byte_len(s) <= span.hi,
            block_sizes(s, 0, 0, span) == sizes@ + block_sizes(s, p as int, start as int, span),
            destarred(s, 0, 0) == no_stars@ + destarred(s, p as int, start as int),
            has_starred_line(s, 0, 0) == (stars || has_starred_line(s, p as int, start as int)),
        decreases n - p,
    {
        proof {
            lemma_byte_len_take(s, p as int);
            lemma_byte_len_range(s, p + 1, n as int);
        }
        let w = utf8_width(chars[p]);
        if chars[p] == '\n' {
            let (entry, flag) = finish_line(&chars, start, p, startb, pb, span, &mut no_stars);
            sizes.push(entry);
            stars = stars || flag;
            start = p + 1;
            startb = pb + w;
        }
        pb = pb + w;
        p += 1;
    }
    if start < n {
        let (entry, flag) = finish_line(&chars, start, n, startb, pb, span, &mut no_stars);
        sizes.push(entry);
        stars = stars || flag;
    }
    assert(sizes@ =~= block_sizes(s, 0, 0, span));
    assert(no_stars@ =~= destarred(s, 0, 0));
    if stars {
        (string_from_chars(&no_stars), sizes)
    } else {
        (doc.to_owned(), sizes)
    }
}

/// Which required sections a doc comment holds.
#[derive(Clone, Copy, Debug, PartialEq, Eq, Structural)]
pub struct DocHeaders {
    /// A heading reads exactly `Security`.
    pub security: bool,
}

/// The state of the walk over the markup.
pub struct DocWalk {
    pub in_code: bool,
    pub in_link: Option<Seq<char>>,
    pub in_heading: bool,
    /// Whether the current block has so far held an odd number of
    /// backticks outside code blocks.
    pub ticks_unbalanced: bool,
    pub paragraph_span: Span,
    pub security: bool,
}

/// Breakpoints with their offsets as integers.
pub open spec fn int_view(spans: Seq<(usize, Span)>) -> Seq<(int, Span)> {
    spans.map_values(|e: (usize, Span)| (e.0 as int, e.1))
}

/// The breakpoint that covers offset `idx`: the last one starting at or before it.
pub open spec fn entry_at(spans: Seq<(usize, Span)>, idx: int) -> (usize, Span) {
    spans[last_at_or_before(int_view(spans), idx, spans.len() as int)]
}

/// The index just past the last character of `s` among the first `n` that
/// is not whitespace, or 0.
pub open spec fn last_text_to(s: Seq<char>, n: int) -> int
    decreases n,
{
    if n <= 0 {
        0
    } else if !white_space(s[n - 1]) {
        n
    } else {
        last_text_to(s, n - 1)
    }
}

/// `s` without leading and trailing whitespace.
pub open spec fn trim(s: Seq<char>) -> Seq<char> {
    let a = first_text_from(s, 0);
    let e = last_text_to(s, s.len() as int);
    if a < e {
        s.subrange(a, e)
    } else {
        seq![]
    }
}

/// The heading text that marks the required section.
pub open spec fn security_word() -> Seq<char> {
    "Security"@
}

/// The walk's state before the first event.
pub open spec fn walk_init(spans: Seq<(usize, Span)>) -> DocWalk {
    DocWalk {
        in_code: false,
        in_link: None,
        in_heading: false,
        ticks_unbalanced: false,
        paragraph_span: spans[0].1,
        security: false,
    }
}

/// The walk's state after the event `e`.
pub open spec fn walk_step(w: DocWalk, e: LocatedView, spans: Seq<(usize, Span)>) -> DocWalk {
    match e.0 {
        MarkupEventView::CodeStart => DocWalk { in_code: true, ..w },
        MarkupEventView::CodeEnd => DocWalk { in_code: false, ..w },
        MarkupEventView::LinkStart(u) => DocWalk { in_link: Some(u), ..w },
        MarkupEventView::LinkEnd => DocWalk { in_link: None, ..w },
        MarkupEventView::HeadingStart => DocWalk {
            in_heading: true,
            ticks_unbalanced: false,
            paragraph_span: entry_at(spans, e.1 as int).1,
            ..w
        },
        MarkupEventView::BlockStart => DocWalk {
            ticks_unbalanced: false,
            paragraph_span: entry_at(spans, e.1 as int).1,
            ..w
        },
        MarkupEventView::HeadingEnd => DocWalk { in_heading: false, ..w },
        MarkupEventView::BlockEnd => w,
        MarkupEventView::Text(t) => {
            let ticks = if w.in_code {
                w.ticks_unbalanced
            } else {
                w.ticks_unbalanced != (tick_count(t) % 2 == 1)
            };
            let skip = w.in_link == Some(t) || ticks;
            DocWalk {
                paragraph_span: Span { lo: w.paragraph_span.lo, hi: entry_at(spans, e.1 as int).1.hi },
                ticks_unbalanced: ticks,
                security: w.security || (!skip && w.in_heading && trim(t) == security_word()),
                ..w
            }
        },
        MarkupEventView::Other => w,
    }
}

/// The number of backticks in `t`.
pub open spec fn tick_count(t: Seq<char>) -> nat
    decreases t.len(),
{
    if t.len() == 0 {
        0
    } else {
        tick_count(t.drop_last()) + if t.last() == '`' {
            1nat
        } else {
            0nat
        }
    }
}

/// Whether `t` holds an odd number of backticks.
pub fn odd_ticks(t: &Vec<char>) -> (r: bool)
    ensures
        r == (tick_count(t@) % 2 == 1),
{
    let mut odd = false;
    let mut i: usize = 0;
    while i < t.len()
        invariant
            i <= t@.len(),
            odd == (tick_count(t@.take(i as int)) % 2 == 1),
        decreases t@.len() - i,
    {
        assert(t@.take(i + 1).drop_last() =~= t@.take(i as int));
        if t[i] == '`' {
            odd = !odd;
        }
        i += 1;
    }
    assert(t@.take(i as int) =~= t@);
    odd
}

/// Whether the event `e` closes a paragraph, list item or heading whose
/// backticks are unbalanced.
pub open spec fn closes_unbalanced(w: DocWalk, e: LocatedView) -> bool {
    w.ticks_unbalanced && (e.0 == MarkupEventView::HeadingEnd || e.0
        == MarkupEventView::BlockEnd)
}

/// The diagnostic for unbalanced backticks in the paragraph at `span`.
pub open spec fn backtick_diag(span: Span) -> DiagnosticView {
    diag_spec(Finding::UnbalancedBackticks, span, None, Applicability::Unspecified)
}

/// The walk's state after the events `es`.
pub open spec fn walk(w: DocWalk, es: Seq<LocatedView>, spans: Seq<(usize, Span)>) -> DocWalk
    decreases es.len(),
{
    if es.len() == 0 {
        w
    } else {
        walk_step(walk(w, es.drop_last(), spans), es.last(), spans)
    }
}

/// The diagnostics reported during the walk over `es`.
pub open spec fn walk_diags(w: DocWalk, es: Seq<LocatedView>, spans: Seq<(usize, Span)>) -> Seq<DiagnosticView>
    decreases es.len(),
{
    if es.len() == 0 {
        seq![]
    } else {
        let before = walk(w, es.drop_last(), spans);
        let ds = walk_diags(w, es.drop_last(), spans);
        if closes_unbalanced(before, es.last()) {
            ds.push(backtick_diag(before.paragraph_span))
        } else {
            ds
        }
    }
}

/// The breakpoint that covers offset `idx` of the normalized buffer: the
/// last one that starts at or before it.
pub fn get_current_span(spans: &Vec<(usize, Span)>, idx: usize) -> (r: (usize, Span))
    requires
        spans@.len() > 0,
        spans@[0].0 <= idx,
    ensures
        r == entry_at(spans@, idx as int),
{
    let ghost iv = int_view(spans@);
    let mut n: usize = spans.len();
    while n > 1 && spans[n - 1].0 > idx
        invariant
            1 <= n <= spans@.len(),
            iv == int_view(spans@),
            last_at_or_before(iv, idx as int, spans@.len() as int) == last_at_or_before(iv, idx as int, n as int),
        decreases n,
    {
        n -= 1;
    }
    spans[n - 1]
}

/// `t` without leading and trailing whitespace.
pub fn trim_chars(t: &Vec<char>) -> (r: Vec<char>)
    ensures
        r@ == trim(t@),
{
    let ghost s = t@;
    let mut a: usize = 0;
    while a < t.len() && is_whitespace(t[a])
        invariant
            a <= s.len(),
            s == t@,
            first_text_from(s, 0) == first_text_from(s, a as int),
        decreases s.len() - a,
    {
        a += 1;
    }
    let mut e: usize = t.len();
    while e > 0 && is_whitespace(t[e - 1])
        invariant
            e <= s.len(),
            s == t@,
            last_text_to(s, s.len() as int) == last_text_to(s, e as int),
        decreases e,
    {
        e -= 1;
    }
    let mut r: Vec<char> = Vec::new();
    if a < e {
        push_range(&mut r, t, a, e);
    }
    assert(r@ =~= trim(s));
    r
}

/// Walks the markup events of a normalized doc buffer.
///
/// Reports each paragraph, list item or heading that holds an odd count of
/// backticks outside code blocks, at the paragraph's span, and returns
/// whether some heading reads exactly `Security` after trimming.
pub fn check_doc(events: &Vec<Located>, spans: &Vec<(usize, Span)>, out: &mut Vec<Diagnostic>) -> (r: DocHeaders)
    requires
        spans@.len() > 0,
        spans@[0].0 == 0,
    ensures
        r.security == walk(walk_init(spans@), events_view(events@), spans@).security,
        diags_view(final(out)@) == diags_view(old(out)@) + walk_diags(
            walk_init(spans@),
            events_view(events@),
            spans@,
        ),
{
    let ghost es = events_view(events@);
    let ghost w0 = walk_init(spans@);
    let ghost d0 = diags_view(old(out)@);
    let keyword = chars_of("Security");
    let mut in_code = false;
    let mut in_link: Option<Vec<char>> = None;
    let mut in_heading = false;
    let mut ticks_unbalanced = false;
    let mut paragraph_span = spans[0].1;
    let mut security = false;
    let mut i: usize = 0;
    while i < events.len()
        invariant
            i <= events@.len(),
            es == events_view(events@),
            spans@.len() > 0,
            spans@[0].0 == 0,
            keyword@ == security_word(),
            ({
                let w = walk(w0, es.take(i as int), spans@);
                &&& w.in_code == in_code
                &&& w.in_link == match in_link {
                    Some(u) => Some(u@),
                    None => None,
                }
                &&& w.in_heading == in_heading
                &&& w.ticks_unbalanced == ticks_unbalanced
                &&& w.paragraph_span == paragraph_span
                &&& w.security == security
            }),
            diags_view(out@) == d0 + walk_diags(w0, es.take(i as int), spans@),
        decreases events@.len() - i,
    {
        let ghost before = es.take(i as int);
        assert(es.take(i + 1).drop_last() =~= before);
        assert(es.take(i + 1).last() == es[i as int]);
        let ev = &events[i];
        let start = ev.1;
        let ghost out_before = out@;
        assert(es[i as int] == (ev.0@, ev.1, ev.2));
        match &ev.0 {
            MarkupEvent::CodeStart => {
                in_code = true;
            },
            MarkupEvent::CodeEnd => {
                in_code = false;
            },
            MarkupEvent::LinkStart(u) => {
                in_link = Some(chars_of(u.as_str()));
            },
            MarkupEvent::LinkEnd => {
                in_link = None;
            },
            MarkupEvent::HeadingStart | MarkupEvent::BlockStart => {
                if let MarkupEvent::HeadingStart = &ev.0 {
                    in_heading = true;
                }
                ticks_unbalanced = false;
                let (_, span) = get_current_span(spans, start);
                paragraph_span = span;
            },
            MarkupEvent::HeadingEnd | MarkupEvent::BlockEnd => {
                if let MarkupEvent::HeadingEnd = &ev.0 {
                    in_heading = false;
                }
                if ticks_unbalanced {
                    let d = emit(Finding::UnbalancedBackticks, paragraph_span, None, Applicability::Unspecified);
                    out.push(d);
                    assert(diags_view(out@) =~= diags_view(out_before).push(d@));
                }
            },
            MarkupEvent::Text(t) => {
                let text = chars_of(t.as_str());
                let (_, span) = get_current_span(spans, start);
                paragraph_span = Span { lo: paragraph_span.lo, hi: span.hi };
                if !in_code && odd_ticks(&text) {
                    ticks_unbalanced = !ticks_unbalanced;
                }
                let same_as_link = match &in_link {
                    Some(u) => chars_eq(u, &text),
                    None => false,
                };
                if !(same_as_link || ticks_unbalanced) {
                    if in_heading && chars_eq(&trim_chars(&text), &keyword) {
                        security = true;
                    }
                }
            },
            MarkupEvent::Other => {},
        }
        assert(diags_view(out@) =~= d0 + walk_diags(w0, es.take(i + 1), spans@));
        i += 1;
    }
    assert(es.take(events@.len() as int) =~= es);
    DocHeaders { security }
}

/// The normalized text of the doc comments among `attrs`, in order.
pub open spec fn doc_text(attrs: Seq<Attribute>) -> Seq<char>
    decreases attrs.len(),
{
    if attrs.len() == 0 {
        seq![]
    } else {
        match attrs.last() {
            Attribute::DocComment { kind, text, span } => doc_text(attrs.drop_last()) + stripped_text(text@, kind),
            _ => doc_text(attrs.drop_last()),
        }
    }
}

/// The breakpoint sizes of the doc comments among `attrs`, in order.
pub open spec fn doc_sizes(attrs: Seq<Attribute>) -> Seq<(usize, Span)>
    decreases attrs.len(),
{
    if attrs.len() == 0 {
        seq![]
    } else {
        match attrs.last() {
            Attribute::DocComment { kind, text, span } => doc_sizes(attrs.drop_last()) + stripped_sizes(text@, kind, span),
            _ => doc_sizes(attrs.drop_last()),
        }
    }
}

/// Whether some attribute is a written-out `#[doc]`.
pub open spec fn has_raw_doc(attrs: Seq<Attribute>) -> bool {
    exists|i: int| 0 <= i < attrs.len() && attrs[i] is RawDoc
}

/// The sum of the sizes.
pub open spec fn total(sizes: Seq<(usize, Span)>) -> int
    decreases sizes.len(),
{
    if sizes.len() == 0 {
        0
    } else {
        sizes[0].0 + total(sizes.drop_first())
    }
}

/// The breakpoints with absolute offsets, as the walk takes them.
pub open spec fn absolute(sizes: Seq<(usize, Span)>) -> Seq<(usize, Span)> {
    cumulative(sizes, 0).map_values(|e: (int, Span)| (e.0 as usize, e.1))
}

/// Whether the documentation of an item is analysed: there is no written-out
/// `#[doc]`, some text, and the offsets fit in a `usize`.
pub open spec fn analysed(attrs: Seq<Attribute>) -> bool {
    &&& !has_raw_doc(attrs)
    &&& doc_text(attrs).len() > 0
    &&& doc_sizes(attrs).len() > 0
    &&& total(doc_sizes(attrs)) <= usize::MAX
}

/// The walk's final state over the documentation of `attrs`.
pub open spec fn attrs_walk(attrs: Seq<Attribute>) -> DocWalk {
    let spans = absolute(doc_sizes(attrs));
    walk(walk_init(spans), coalesce_texts(markdown_events(doc_text(attrs))), spans)
}

/// The diagnostics of the walk over the documentation of `attrs`.
pub open spec fn attrs_diags(attrs: Seq<Attribute>) -> Seq<DiagnosticView> {
    let spans = absolute(doc_sizes(attrs));
    walk_diags(walk_init(spans), coalesce_texts(markdown_events(doc_text(attrs))), spans)
}

/// Whether the documentation of `attrs` counts as holding the required section.
pub open spec fn has_security_section(attrs: Seq<Attribute>) -> bool {
    if has_raw_doc(attrs) {
        true
    } else if doc_text(attrs).len() == 0 || doc_sizes(attrs).len() == 0 {
        false
    } else if total(doc_sizes(attrs)) > usize::MAX {
        true
    } else {
        attrs_walk(attrs).security
    }
}

proof fn lemma_cumulative_skip(sizes: Seq<(usize, Span)>, k: int, base: int)
    requires
        0 <= k < sizes.len(),
    ensures
        cumulative(sizes.skip(k), base) == seq![(base, sizes[k].1)] + cumulative(sizes.skip(k + 1), base + sizes[k].0),
        total(sizes.skip(k)) == sizes[k].0 + total(sizes.skip(k + 1)),
{
    assert(sizes.skip(k).drop_first() =~= sizes.skip(k + 1));
}

proof fn lemma_total_nonneg(sizes: Seq<(usize, Span)>)
    ensures
        total(sizes) >= 0,
    decreases sizes.len(),
{
    if sizes.len() > 0 {
        lemma_total_nonneg(sizes.drop_first());
    }
}

/// Makes the breakpoint offsets absolute: each piece starts where the ones
/// before it end. `None` when they do not fit in a `usize`.
pub fn make_absolute(sizes: &Vec<(usize, Span)>) -> (r: Option<Vec<(usize, Span)>>)
    ensures
        r is Some <==> total(sizes@) <= usize::MAX,
        r is Some ==> r->0@ == absolute(sizes@),
{
    let ghost sz = sizes@;
    let mut out: Vec<(usize, Span)> = Vec::new();
    let mut current: usize = 0;
    let mut k: usize = 0;
    assert(sz.skip(0) =~= sz);
    while k < sizes.len()
        invariant
            k <= sz.len(),
            sz == sizes@,
            int_view(out@) + cumulative(sz.skip(k as int), current as int) == cumulative(sz, 0),
            current + total(sz.skip(k as int)) == total(sz),
        decreases sz.len() - k,
    {
        proof {
            lemma_cumulative_skip(sz, k as int, current as int);
            lemma_total_nonneg(sz.skip(k + 1));
        }
        let ghost prev = out@;
        out.push((current, sizes[k].1));
        assert(int_view(out@) =~= int_view(prev) + seq![(current as int, sz[k as int].1)]);
        match current.checked_add(sizes[k].0) {
            Some(c) => {
                assert(int_view(out@) + cumulative(sz.skip(k + 1), c as int) =~= int_view(prev) + cumulative(sz.skip(k as int), current as int));
                current = c;
            },
            None => {
                return None;
            },
        }
        k += 1;
    }
    proof {
        assert(sz.skip(k as int) =~= Seq::<(usize, Span)>::empty());
        assert(int_view(out@) =~= cumulative(sz, 0));
        assert(out@ =~= absolute(sz));
    }
    Some(out)
}

/// Analyses the documentation of an item: its doc comments are stripped and
/// joined in order, then walked as markup.
///
/// Returns whether the documentation holds the required `# Security`
/// section. Documentation that cannot be analysed with confidence (a
/// written-out `#[doc]` among the comments, or offsets past `usize`) counts
/// as holding it; no documentation at all does not.
pub fn check_attrs(attrs: &Vec<Attribute>, out: &mut Vec<Diagnostic>) -> (r: DocHeaders)
    requires
        attrs_wf(attrs@),
    ensures
        r.security == has_security_section(attrs@),
        analysed(attrs@) ==> diags_view(final(out)@) == diags_view(old(out)@) + attrs_diags(attrs@),
        !analysed(attrs@) ==> final(out)@ == old(out)@,
{
    let ghost a = attrs@;
    let mut doc: Vec<char> = Vec::new();
    let mut sizes: Vec<(usize, Span)> = Vec::new();
    let mut i: usize = 0;
    while i < attrs.len()
        invariant
            i <= a.len(),
            a == attrs@,
            attrs_wf(a),
            doc@ == doc_text(a.take(i as int)),
            sizes@ == doc_sizes(a.take(i as int)),
            forall|k: int| 0 <= k < i ==> !(a[k] is RawDoc),
        decreases a.len() - i,
    {
        assert(a.take(i + 1).drop_last() =~= a.take(i as int));
        assert(a.take(i + 1).last() == a[i as int]);
        match &attrs[i] {
            Attribute::DocComment { kind, text, span } => {
                let (comment, current) = strip_doc_comment_decoration(text.as_str(), *kind, *span);
                let c = chars_of(comment.as_str());
                push_range(&mut doc, &c, 0, c.len());
                let mut j: usize = 0;
                let ghost prev = sizes@;
                while j < current.len()
                    invariant
                        j <= current@.len(),
                        sizes@ == prev + current@.take(j as int),
                    decreases current@.len() - j,
                {
                    sizes.push(current[j]);
                    assert(current@.take(j + 1) =~= current@.take(j as int).push(current@[j as int]));
                    j += 1;
                }
                assert(current@.take(j as int) =~= current@);
                assert(c@.subrange(0, c@.len() as int) =~= c@);
            },
            Attribute::RawDoc => {
                assert(has_raw_doc(a));
                return DocHeaders { security: true };
            },
            Attribute::Other => {},
        }
        i += 1;
    }
    assert(a.take(a.len() as int) =~= a);
    assert(!has_raw_doc(a));
    if doc.len() == 0 || sizes.len() == 0 {
        return DocHeaders { security: false };
    }
    match make_absolute(&sizes) {
        Some(spans) => {
            let text = string_from_chars(&doc);
            let events = doc_events(text.as_str());
            check_doc(&events, &spans, out)
        },
        None => DocHeaders { security: true },
    }
}

/// Breakpoints with absolute offsets: the sizes of `sizes` summed up, the
/// first piece starting at `base`.
pub open spec fn cumulative(sizes: Seq<(usize, Span)>, base: int) -> Seq<(int, Span)>
    decreases sizes.len(),
{
    if sizes.len() == 0 {
        seq![]
    } else {
        seq![(base, sizes[0].1)] + cumulative(sizes.drop_first(), base + sizes[0].0)
    }
}

/// The index of the last breakpoint among the first `n` that starts at or
/// before `idx`, or -1.
pub open spec fn last_at_or_before(bps: Seq<(int, Span)>, idx: int, n: int) -> int
    decreases n,
{
    if n <= 0 {
        -1
    } else if bps[n - 1].0 <= idx {
        n - 1
    } else {
        last_at_or_before(bps, idx, n - 1)
    }
}

/// The source position that offset `idx` of the normalized text maps to.
pub open spec fn mapped_pos(bps: Seq<(int, Span)>, idx: int) -> int {
    let k = last_at_or_before(bps, idx, bps.len() as int);
    bps[k].1.lo + (idx - bps[k].0)
}

/// Whether the normalized character `a` shows the author's character `b`.
pub open spec fn shows(a: char, b: char) -> bool {
    a == b || (b == '*' && a == ' ')
}

proof fn lemma_last_at_or_before_bounds(bps: Seq<(int, Span)>, idx: int, n: int)
    requires
        0 < n <= bps.len(),
        bps[0].0 <= idx,
    ensures
        0 <= last_at_or_before(bps, idx, n) < n,
        bps[last_at_or_before(bps, idx, n)].0 <= idx,
    decreases n,
{
    if n > 1 && bps[n - 1].0 > idx {
        lemma_last_at_or_before_bounds(bps, idx, n - 1);
    }
}

proof fn lemma_first_text_bounds(line: Seq<char>, i: int)
    requires
        0 <= i <= line.len(),
    ensures
        i <= first_text_from(line, i) <= line.len(),
    decreases line.len() - i,
{
    if i < line.len() && white_space(line[i]) {
        lemma_first_text_bounds(line, i + 1);
    }
}

proof fn lemma_destar_shows(line: Seq<char>)
    ensures
        destar(line).len() == line.len(),
        forall|i: int| 0 <= i < line.len() ==> shows(#[trigger] destar(line)[i], line[i]),
{
    lemma_first_text_bounds(line, 0);
}

proof fn lemma_destarred_shows(s: Seq<char>, p: int, start: int)
    requires
        0 <= start <= p <= s.len(),
        !s.contains('\r'),
    ensures
        destarred(s, p, start).len() >= s.len() - start,
        forall|i: int| 0 <= i < s.len() - start ==> shows(#[trigger] destarred(s, p, start)[i], s[start + i]),
    decreases s.len() - p,
{
    let d = destarred(s, p, start);
    if p >= s.len() {
        if start < s.len() {
            let line = line_at(s, start, s.len() as int);
            assert(line =~= s.subrange(start, s.len() as int));
            lemma_destar_shows(line);
        }
    } else if s[p] == '\n' {
        let line = line_at(s, start, p);
        assert(line =~= s.subrange(start, p)) by {
            if p > start {
                assert(s[p - 1] != '\r');
            }
        }
        lemma_destar_shows(line);
        lemma_destarred_shows(s, p + 1, p + 1);
        let rest = destarred(s, p + 1, p + 1);
        assert forall|i: int| 0 <= i < s.len() - start implies shows(#[trigger] d[i], s[start + i]) by {
            if i < p - start {
                assert(d[i] == destar(line)[i]);
            } else if i == p - start {
                assert(d[i] == '\n');
            } else {
                assert(d[i] == rest[i - (p - start) - 1]);
                assert(s[start + i] == s[(p + 1) + (i - (p - start) - 1)]);
            }
        }
    } else {
        lemma_destarred_shows(s, p + 1, start);
    }
}

proof fn lemma_shows_same_bytes(a: Seq<char>, b: Seq<char>, j: int)
    requires
        0 <= j <= a.len(),
        j <= b.len(),
        forall|i: int| 0 <= i < j ==> shows(#[trigger] a[i], b[i]),
    ensures
        byte_len(a.take(j)) == byte_len(b.take(j)),
    decreases j,
{
    if j == 0 {
        assert(a.take(0) =~= b.take(0));
    } else {
        lemma_shows_same_bytes(a, b, j - 1);
        lemma_byte_len_take(a, j - 1);
        lemma_byte_len_take(b, j - 1);
        assert(shows(a[j - 1], b[j - 1]));
    }
}

/// Each breakpoint of the lines from `p` (the current line began at
/// `start`) starts where its text starts in the source, when offsets are
/// counted from the start of that line.
proof fn lemma_block_positions(s: Seq<char>, p: int, start: int, span: Span)
    requires
        0 <= start <= p <= s.len(),
        !s.contains('\r'),
        span.lo + 3 + byte_len(s) <= span.hi,
        forall|i: int| start <= i < p ==> s[i] != '\n',
    ensures
        forall|k: int| 0 <= k < cumulative(block_sizes(s, p, start, span), byte_len(s.take(start)) as int).len()
            ==> #[trigger] cumulative(block_sizes(s, p, start, span), byte_len(s.take(start)) as int)[k].1.lo
                == span.lo + 3 + cumulative(block_sizes(s, p, start, span), byte_len(s.take(start)) as int)[k].0,
        cumulative(block_sizes(s, p, start, span), byte_len(s.take(start)) as int).len() > 0
            ==> cumulative(block_sizes(s, p, start, span), byte_len(s.take(start)) as int)[0].0
                == byte_len(s.take(start)),
    decreases s.len() - p,
{
    let base = byte_len(s.take(start)) as int;
    let c = cumulative(block_sizes(s, p, start, span), base);
    lemma_byte_len_range(s, start, p);
    if p >= s.len() {
        if start < s.len() {
            let sz = block_sizes(s, p, start, span);
            assert(sz.drop_first() =~= Seq::<(usize, Span)>::empty());
            assert(cumulative(sz.drop_first(), base + sz[0].0) =~= Seq::<(int, Span)>::empty());
            assert(c =~= seq![(base, sz[0].1)]);
        }
    } else if s[p] == '\n' {
        let sz = block_sizes(s, p, start, span);
        assert(c[0] == (base, sz[0].1));
        let line = line_at(s, start, p);
        assert(line =~= s.subrange(start, p)) by {
            if p > start {
                assert(s[p - 1] != '\r');
            }
        }
        lemma_byte_len_take(s, p);
        lemma_byte_len_range(s, start, p);
        lemma_byte_len_range(s, p + 1, s.len() as int);
        assert(sz.drop_first() =~= block_sizes(s, p + 1, p + 1, span));
        assert(base + sz[0].0 == byte_len(s.take(p + 1)));
        lemma_block_positions(s, p + 1, p + 1, span);
        let rest = cumulative(block_sizes(s, p + 1, p + 1, span), byte_len(s.take(p + 1)) as int);
        assert forall|k: int| 0 <= k < c.len() implies #[trigger] c[k].1.lo == span.lo + 3 + c[k].0 by {
            if k > 0 {
                assert(c[k] == rest[k - 1]);
            }
        }
    } else {
        lemma_block_positions(s, p + 1, start, span);
        assert(block_sizes(s, p, start, span) == block_sizes(s, p + 1, start, span));
    }
}

/// Decoration stripping preserves positions: every character of a doc
/// comment shows up at the same index of the normalized text (a leading
/// `*` as a space), at the same byte offset, and the breakpoints map that
/// offset back to the character's own position in the source, just after
/// the three delimiter bytes. Block comments are taken without `\r`.
pub proof fn lemma_strip_preserves_positions(doc: Seq<char>, kind: CommentKind, span: Span, j: int)
    requires
        span.lo + 3 + byte_len(doc) <= span.hi,
        0 <= j < doc.len(),
        kind == CommentKind::Block ==> !doc.contains('\r'),
    ensures
        j < stripped_text(doc, kind).len(),
        shows(stripped_text(doc, kind)[j], doc[j]),
        byte_len(stripped_text(doc, kind).take(j)) == byte_len(doc.take(j)),
        mapped_pos(cumulative(stripped_sizes(doc, kind, span), 0), byte_len(doc.take(j)) as int)
            == span.lo + 3 + byte_len(doc.take(j)),
{
    let text = stripped_text(doc, kind);
    let bps = cumulative(stripped_sizes(doc, kind, span), 0);
    let b = byte_len(doc.take(j)) as int;
    match kind {
        CommentKind::Line => {
            assert forall|i: int| 0 <= i < j implies shows(#[trigger] text[i], doc[i]) by {}
            lemma_shows_same_bytes(text, doc, j);
            let sz = stripped_sizes(doc, kind, span);
            assert(sz.drop_first() =~= Seq::<(usize, Span)>::empty());
            assert(cumulative(sz.drop_first(), sz[0].0 as int) =~= Seq::<(int, Span)>::empty());
            assert(bps =~= seq![(0int, sz[0].1)]);
            assert(bps.len() == 1);
            assert(bps[0].0 == 0);
        },
        CommentKind::Block => {
            if has_starred_line(doc, 0, 0) {
                lemma_destarred_shows(doc, 0, 0);
                assert forall|i: int| 0 <= i < j implies shows(#[trigger] text[i], doc[i]) by {
                    assert(doc[0 + i] == doc[i]);
                }
                assert(shows(text[j], doc[0 + j]));
                lemma_shows_same_bytes(text, doc, j);
            }
            assert(doc.take(0) =~= Seq::<char>::empty());
            lemma_block_positions(doc, 0, 0, span);
            assert(bps.len() > 0) by {
                lemma_block_nonempty(doc, 0, 0, span);
            }
            lemma_last_at_or_before_bounds(bps, b, bps.len() as int);
        },
    }
}

proof fn lemma_block_nonempty(s: Seq<char>, p: int, start: int, span: Span)
    requires
        0 <= start <= p <= s.len(),
        start < s.len(),
    ensures
        block_sizes(s, p, start, span).len() > 0,
    decreases s.len() - p,
{
    if p < s.len() && s[p] != '\n' {
        lemma_block_nonempty(s, p + 1, start, span);
    }
}

} // verus!
