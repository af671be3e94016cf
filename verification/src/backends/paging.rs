//! Pages from lines: how the file and object-store sources cut a stream of
//! lines into pages.
//!
//! A source reads one line at a time and hands it to a [`PageBuilder`],
//! which strips the line end, joins the lines with newlines and says when
//! the page is full. Reading is the source's business; everything else is
//! decided here.

use crate::backends::common_config::CommonSourceConfig;
use crate::collectors::{lemma_ndjson_concat, ndjson};
use crate::text::{
    byte_len, joined_lines, push_char, str_byte_len, texts, trim_trailing, without_trailing,
};
use vstd::prelude::*;
use vstd::string::StringExecFns;

verus! {

/// A line as read, without its line end: trailing newlines go first, then
/// trailing carriage returns.
pub open spec fn strip_line_end(raw: Seq<char>) -> Seq<char> {
    without_trailing(without_trailing(raw, '\n'), '\r')
}

/// A page under construction.
pub struct PageState {
    /// The stripped non-empty lines so far, joined by newlines.
    pub page: Seq<char>,
    /// The bytes read for this page, line ends included.
    pub bytes_read: nat,
    /// The lines that went into the page.
    pub line_count: nat,
    /// The lines read for this page, empty ones included.
    pub reads: nat,
}

/// The state before the first line of a page is read.
pub open spec fn empty_page() -> PageState {
    PageState { page: Seq::empty(), bytes_read: 0, line_count: 0, reads: 0 }
}

/// Whether another line is to be read for the page.
///
/// The first line is always read. After that reading stops once the bytes
/// read exceed the byte limit, once the page holds as many lines as the
/// document limit allows, or once one line more than that limit has been
/// read.
pub open spec fn wants_line(state: PageState, limits: CommonSourceConfig) -> bool {
    state.reads == 0 || (state.reads <= limits.max_batch_size_docs && state.bytes_read
        <= limits.max_batch_size_bytes && state.line_count < limits.max_batch_size_docs)
}

/// The state after one more line has been read.
///
/// A line that is empty once its end is stripped counts as read and leaves
/// the page as it is.
pub open spec fn after_line(state: PageState, raw: Seq<char>) -> PageState {
    let line = strip_line_end(raw);
    PageState {
        page: if line.len() == 0 {
            state.page
        } else if state.page.len() == 0 {
            line
        } else {
            state.page + seq!['\n'] + line
        },
        bytes_read: state.bytes_read + byte_len(raw),
        line_count: if line.len() == 0 {
            state.line_count
        } else {
            state.line_count + 1
        },
        reads: state.reads + 1,
    }
}

/// Strips the line end from a line as read.
pub fn trim_line_end(raw: &str) -> (line: &str)
    ensures
        line@ == strip_line_end(raw@),
{
    trim_trailing(trim_trailing(raw, '\n'), '\r')
}

/// One page under construction, with the limits it is built under.
pub struct PageBuilder {
    page: String,
    total_bytes_read: usize,
    bytes_overflowed: bool,
    exact_bytes_read: Ghost<nat>,
    line_count: usize,
    reads: u128,
    limits: CommonSourceConfig,
}

impl PageBuilder {
    /// The page as it stands.
    pub closed spec fn state(&self) -> PageState {
        PageState {
            page: self.page@,
            bytes_read: self.exact_bytes_read@,
            line_count: self.line_count as nat,
            reads: self.reads as nat,
        }
    }

    /// The limits that the page is built under.
    pub closed spec fn limits(&self) -> CommonSourceConfig {
        self.limits
    }

    /// The counters kept beside the page agree with what was read.
    pub closed spec fn wf(&self) -> bool {
        &&& self.bytes_overflowed == (self.exact_bytes_read@ > usize::MAX)
        &&& self.total_bytes_read as nat == if self.exact_bytes_read@ <= usize::MAX {
            self.exact_bytes_read@
        } else {
            usize::MAX as nat
        }
        &&& self.line_count <= self.reads
        &&& self.reads <= self.limits.max_batch_size_docs + 1
    }

    /// A builder for a fresh page.
    pub fn new(limits: CommonSourceConfig) -> (builder: Self)
        ensures
            builder.wf(),
            builder.state() == empty_page(),
            builder.limits() == limits,
    {
        PageBuilder {
            page: String::new(),
            total_bytes_read: 0,
            bytes_overflowed: false,
            exact_bytes_read: Ghost(0),
            line_count: 0,
            reads: 0,
            limits,
        }
    }

    /// Whether the source is to read another line for this page.
    pub fn wants_line(&self) -> (more: bool)
        requires
            self.wf(),
        ensures
            more == wants_line(self.state(), self.limits()),
    {
        self.reads == 0 || (self.reads <= self.limits.max_batch_size_docs as u128
            && !self.bytes_overflowed && self.total_bytes_read
            <= self.limits.max_batch_size_bytes && self.line_count
            < self.limits.max_batch_size_docs)
    }

    /// Takes one line as read, line end included.
    pub fn push_line(&mut self, raw: &str)
        requires
            old(self).wf(),
            wants_line(old(self).state(), old(self).limits()),
        ensures
            final(self).wf(),
            final(self).limits() == old(self).limits(),
            final(self).state() == after_line(old(self).state(), raw@),
    {
        let bytes_read = str_byte_len(raw);
        match self.total_bytes_read.checked_add(bytes_read) {
            Some(total) => {
                self.total_bytes_read = total;
            },
            None => {
                self.total_bytes_read = usize::MAX;
                self.bytes_overflowed = true;
            },
        }
        self.exact_bytes_read = Ghost(self.exact_bytes_read@ + byte_len(raw@));
        let trimmed = trim_line_end(raw);
        if !trimmed.is_empty() {
            if !self.page.as_str().is_empty() {
                push_char(&mut self.page, '\n');
            }
            self.page.append(trimmed);
            self.line_count += 1;
        }
        self.reads += 1;
        assert(self.state().page =~= after_line(old(self).state(), raw@).page);
    }

    /// Bytes read for this page so far, line ends included; at most
    /// `usize::MAX`.
    pub fn bytes_read(&self) -> (n: usize)
        requires
            self.wf(),
        ensures
            n as nat == if self.state().bytes_read <= usize::MAX {
                self.state().bytes_read
            } else {
                usize::MAX as nat
            },
    {
        self.total_bytes_read
    }

    /// Lines that went into the page so far.
    pub fn line_count(&self) -> (n: usize)
        ensures
            n == self.state().line_count,
    {
        self.line_count
    }

    /// The finished page, or none where no line went into it: an empty page
    /// ends the stream.
    pub fn into_page(self) -> (page: Option<String>)
        ensures
            match page {
                Some(page) => page@ == self.state().page && page@.len() > 0,
                None => self.state().page.len() == 0,
            },
    {
        if self.page.as_str().is_empty() {
            None
        } else {
            Some(self.page)
        }
    }
}

/// A page filled from the lines of a stream, starting at position `at`:
/// lines are taken while the page wants them and the stream has them. The
/// result is the page and the position of the first line not taken.
pub open spec fn fill_page(
    state: PageState,
    lines: Seq<Seq<char>>,
    at: int,
    limits: CommonSourceConfig,
) -> (PageState, int)
    decreases lines.len() - at,
{
    if 0 <= at < lines.len() && wants_line(state, limits) {
        fill_page(after_line(state, lines[at]), lines, at + 1, limits)
    } else {
        (state, at)
    }
}

/// The pages that a source yields for a stream of lines, from position `at`
/// on. The stream ends with the first page that comes out empty.
pub open spec fn pages_from(lines: Seq<Seq<char>>, at: int, limits: CommonSourceConfig) -> Seq<
    Seq<char>,
>
    decreases lines.len() - at,
{
    let (state, next) = fill_page(empty_page(), lines, at, limits);
    if state.page.len() == 0 || !(at < next <= lines.len()) {
        Seq::empty()
    } else {
        seq![state.page] + pages_from(lines, next, limits)
    }
}

/// The lines of a stream without their line ends.
pub open spec fn stripped(lines: Seq<Seq<char>>) -> Seq<Seq<char>> {
    Seq::new(lines.len(), |i: int| strip_line_end(lines[i]))
}

/// Builds one page from lines already read, starting at `start`; hands back
/// the page, or none at the end of the stream, and the position of the
/// first line not taken.
pub fn next_page_from(lines: &[String], start: usize, limits: CommonSourceConfig) -> (r: (
    Option<String>,
    usize,
))
    requires
        start <= lines.len(),
    ensures
        r.1 == fill_page(empty_page(), texts(lines@), start as int, limits).1,
        start <= r.1 <= lines.len(),
        match r.0 {
            Some(page) => page@ == fill_page(
                empty_page(),
                texts(lines@),
                start as int,
                limits,
            ).0.page && page@.len() > 0,
            None => fill_page(empty_page(), texts(lines@), start as int, limits).0.page.len()
                == 0,
        },
{
    let mut builder = PageBuilder::new(limits);
    let mut at = start;
    while at < lines.len() && builder.wants_line()
        invariant
            start <= at <= lines.len(),
            builder.wf(),
            builder.limits() == limits,
            fill_page(empty_page(), texts(lines@), start as int, limits) == fill_page(
                builder.state(),
                texts(lines@),
                at as int,
                limits,
            ),
        decreases lines.len() - at,
    {
        builder.push_line(lines[at].as_str());
        at += 1;
    }
    (builder.into_page(), at)
}

/// Cuts a whole stream of lines into the pages that a source yields for it.
pub fn pages_of_lines(lines: &[String], limits: CommonSourceConfig) -> (pages: Vec<String>)
    ensures
        texts(pages@) == pages_from(texts(lines@), 0, limits),
{
    let mut pages: Vec<String> = Vec::new();
    let mut at: usize = 0;
    loop
        invariant
            at <= lines.len(),
            pages_from(texts(lines@), 0, limits) == texts(pages@) + pages_from(
                texts(lines@),
                at as int,
                limits,
            ),
        decreases lines.len() - at,
    {
        let (page, next) = next_page_from(lines, at, limits);
        match page {
            Some(page) => {
                if next <= at {
                    assert(texts(pages@) + Seq::<Seq<char>>::empty() =~= texts(pages@));
                    return pages;
                }
                let ghost before = texts(pages@);
                pages.push(page);
                proof {
                    assert(texts(pages@) =~= before.push(page@));
                    assert(before + (seq![page@] + pages_from(texts(lines@), next as int, limits))
                        =~= before.push(page@) + pages_from(texts(lines@), next as int, limits));
                }
                at = next;
            },
            None => {
                assert(texts(pages@) + Seq::<Seq<char>>::empty() =~= texts(pages@));
                return pages;
            },
        }
    }
}

/// What a page under construction contributes to a newline-delimited
/// payload: nothing while it is empty, else itself and a newline.
pub open spec fn page_line(state: PageState) -> Seq<char> {
    if state.page.len() == 0 {
        Seq::empty()
    } else {
        state.page + seq!['\n']
    }
}

proof fn lemma_fill_page_keeps_lines(
    state: PageState,
    lines: Seq<Seq<char>>,
    at: int,
    limits: CommonSourceConfig,
)
    requires
        0 <= at <= lines.len(),
        forall|i: int| 0 <= i < lines.len() ==> (#[trigger] strip_line_end(lines[i])).len() > 0,
    ensures
        at <= fill_page(state, lines, at, limits).1 <= lines.len(),
        at < lines.len() && wants_line(state, limits) ==> at < fill_page(
            state,
            lines,
            at,
            limits,
        ).1 && fill_page(state, lines, at, limits).0.page.len() > 0,
        page_line(fill_page(state, lines, at, limits).0) == page_line(state) + ndjson(
            stripped(lines).subrange(at, fill_page(state, lines, at, limits).1),
        ),
    decreases lines.len() - at,
{
    if at < lines.len() && wants_line(state, limits) {
        let line = strip_line_end(lines[at]);
        let next_state = after_line(state, lines[at]);
        lemma_fill_page_keeps_lines(next_state, lines, at + 1, limits);
        let end = fill_page(state, lines, at, limits).1;
        let rest = stripped(lines).subrange(at + 1, end);
        assert(stripped(lines).subrange(at, end) =~= seq![line] + rest);
        lemma_ndjson_concat(seq![line], rest);
        assert(seq![line].drop_last() =~= Seq::<Seq<char>>::empty());
        assert(ndjson(seq![line]) =~= line + seq!['\n']) by {
            assert(ndjson(seq![line].drop_last()) =~= Seq::<char>::empty());
        }
        assert(page_line(next_state) =~= page_line(state) + line + seq!['\n']);
        assert(page_line(state) + ndjson(seq![line] + rest) =~= page_line(next_state) + ndjson(
            rest,
        ));
        lemma_page_never_shrinks(next_state, lines, at + 1, limits);
    } else {
        assert(stripped(lines).subrange(at, at) =~= Seq::<Seq<char>>::empty());
        assert(page_line(state) + Seq::<char>::empty() =~= page_line(state));
    }
}

proof fn lemma_page_never_shrinks(
    state: PageState,
    lines: Seq<Seq<char>>,
    at: int,
    limits: CommonSourceConfig,
)
    requires
        0 <= at <= lines.len(),
    ensures
        fill_page(state, lines, at, limits).0.page.len() >= state.page.len(),
    decreases lines.len() - at,
{
    if at < lines.len() && wants_line(state, limits) {
        lemma_page_never_shrinks(after_line(state, lines[at]), lines, at + 1, limits);
    }
}

/// Every line of a stream without empty lines is in the pages, once and in
/// order: framed as newline-delimited text, the pages of the stream read
/// the same as its lines, each without its line end and followed by one
/// newline.
pub proof fn lemma_pages_keep_every_line(lines: Seq<Seq<char>>, at: int, limits: CommonSourceConfig)
    requires
        0 <= at <= lines.len(),
        forall|i: int| 0 <= i < lines.len() ==> (#[trigger] strip_line_end(lines[i])).len() > 0,
    ensures
        ndjson(pages_from(lines, at, limits)) == ndjson(
            stripped(lines).subrange(at, lines.len() as int),
        ),
    decreases lines.len() - at,
{
    let (state, next) = fill_page(empty_page(), lines, at, limits);
    lemma_fill_page_keeps_lines(empty_page(), lines, at, limits);
    if at == lines.len() {
        assert(stripped(lines).subrange(at, lines.len() as int) =~= Seq::<Seq<char>>::empty());
    } else {
        lemma_pages_keep_every_line(lines, next, limits);
        let rest = pages_from(lines, next, limits);
        lemma_ndjson_concat(seq![state.page], rest);
        assert(seq![state.page].drop_last() =~= Seq::<Seq<char>>::empty());
        assert(ndjson(seq![state.page]) =~= state.page + seq!['\n']) by {
            assert(ndjson(seq![state.page].drop_last()) =~= Seq::<char>::empty());
        }
        lemma_ndjson_concat(
            stripped(lines).subrange(at, next),
            stripped(lines).subrange(next, lines.len() as int),
        );
        assert(stripped(lines).subrange(at, next) + stripped(lines).subrange(
            next,
            lines.len() as int,
        ) =~= stripped(lines).subrange(at, lines.len() as int));
        assert(page_line(empty_page()) + ndjson(stripped(lines).subrange(at, next)) =~= ndjson(
            stripped(lines).subrange(at, next),
        ));
    }
}

/// A page never holds more lines than the document limit allows, but for
/// the one line that every page may take; and never more than one line
/// beyond the limit is read for it.
pub proof fn lemma_page_within_document_limit(
    state: PageState,
    lines: Seq<Seq<char>>,
    at: int,
    limits: CommonSourceConfig,
)
    requires
        0 <= at <= lines.len(),
        state.line_count <= state.reads,
        state.reads <= limits.max_batch_size_docs + 1,
        state.line_count <= limits.max_batch_size_docs || state.line_count <= 1,
    ensures
        fill_page(state, lines, at, limits).0.line_count <= fill_page(
            state,
            lines,
            at,
            limits,
        ).0.reads,
        fill_page(state, lines, at, limits).0.reads <= limits.max_batch_size_docs + 1,
        fill_page(state, lines, at, limits).0.line_count <= limits.max_batch_size_docs
            || fill_page(state, lines, at, limits).0.line_count <= 1,
    decreases lines.len() - at,
{
    if at < lines.len() && wants_line(state, limits) {
        lemma_page_within_document_limit(after_line(state, lines[at]), lines, at + 1, limits);
    }
}

/// Whether a line is as a reader hands it out: no newline but, at most, at
/// its end.
pub open spec fn ends_at_newline(raw: Seq<char>) -> bool {
    forall|j: int| 0 <= j < raw.len() - 1 ==> raw[j] != '\n'
}

/// A stripped line of a reader holds no newline at all.
pub proof fn lemma_stripped_line_has_no_newline(raw: Seq<char>)
    requires
        ends_at_newline(raw),
    ensures
        forall|j: int| 0 <= j < strip_line_end(raw).len() ==> strip_line_end(raw)[j] != '\n',
{
    let inner = without_trailing(raw, '\n');
    let line = strip_line_end(raw);
    crate::text::lemma_without_trailing_is_prefix(raw, '\n');
    crate::text::lemma_without_trailing_is_prefix(inner, '\r');
    crate::text::lemma_without_trailing_end(raw, '\n');
    assert forall|j: int| 0 <= j < line.len() implies line[j] != '\n' by {
        assert(line[j] == inner[j]);
        assert(inner[j] == raw[j]);
        if j == raw.len() - 1 {
            assert(inner.len() == raw.len());
            assert(inner.last() != '\n');
        }
    }
}

/// A page neither begins nor ends with a newline, whatever lines of a
/// reader went into it.
pub proof fn lemma_page_has_no_outer_newline(
    state: PageState,
    lines: Seq<Seq<char>>,
    at: int,
    limits: CommonSourceConfig,
)
    requires
        0 <= at <= lines.len(),
        forall|i: int| 0 <= i < lines.len() ==> ends_at_newline(#[trigger] lines[i]),
        state.page.len() == 0 || (state.page.first() != '\n' && state.page.last() != '\n'),
    ensures
        fill_page(state, lines, at, limits).0.page.len() == 0 || (fill_page(
            state,
            lines,
            at,
            limits,
        ).0.page.first() != '\n' && fill_page(state, lines, at, limits).0.page.last() != '\n'),
    decreases lines.len() - at,
{
    if at < lines.len() && wants_line(state, limits) {
        lemma_stripped_line_has_no_newline(lines[at]);
        lemma_page_has_no_outer_newline(after_line(state, lines[at]), lines, at + 1, limits);
    }
}

proof fn lemma_joined_lines_not_empty(lines: Seq<Seq<char>>)
    requires
        lines.len() > 0,
        forall|i: int| 0 <= i < lines.len() ==> (#[trigger] lines[i]).len() > 0,
    ensures
        joined_lines(lines).len() > 0,
{
}

/// A page is its lines joined by newlines: where no line of the stream is
/// empty, a page that began as the join of some lines ends as the join of
/// those and the stripped lines taken for it.
pub proof fn lemma_page_is_joined_lines(
    state: PageState,
    kept: Seq<Seq<char>>,
    lines: Seq<Seq<char>>,
    at: int,
    limits: CommonSourceConfig,
)
    requires
        0 <= at <= lines.len(),
        forall|i: int| 0 <= i < lines.len() ==> (#[trigger] strip_line_end(lines[i])).len() > 0,
        forall|i: int| 0 <= i < kept.len() ==> (#[trigger] kept[i]).len() > 0,
        state.page == joined_lines(kept),
    ensures
        at <= fill_page(state, lines, at, limits).1 <= lines.len(),
        fill_page(state, lines, at, limits).0.page == joined_lines(
            kept + stripped(lines).subrange(at, fill_page(state, lines, at, limits).1),
        ),
    decreases lines.len() - at,
{
    if at < lines.len() && wants_line(state, limits) {
        let line = strip_line_end(lines[at]);
        let next_state = after_line(state, lines[at]);
        let next_kept = kept.push(line);
        assert(next_kept.drop_last() =~= kept);
        if kept.len() > 0 {
            lemma_joined_lines_not_empty(kept);
        }
        assert(next_state.page == joined_lines(next_kept));
        lemma_page_is_joined_lines(next_state, next_kept, lines, at + 1, limits);
        let end = fill_page(state, lines, at, limits).1;
        assert(next_kept + stripped(lines).subrange(at + 1, end) =~= kept + stripped(
            lines,
        ).subrange(at, end));
    } else {
        assert(kept + stripped(lines).subrange(at, at) =~= kept);
    }
}

} // verus!
