//! One sink worker over a whole stream of pages: which pages leave
//! together, what is sent for them, and in what order.

use crate::collectors::{lemma_ndjson_concat, lemma_ndjson_shape, ndjson};
use crate::composers::{
    all_items, each_transforms, lemma_all_items_concat, lemma_all_items_ok, Composer,
    ComposerBackend, NdjsonComposer,
};
use crate::supervisors::workers::sink_worker::{
    flush_due, flushed, nothing_to_send, total_bytes, Closing, SinkWorker,
};
use crate::backends::common_config::CommonSourceConfig;
use crate::backends::paging::{
    ends_at_newline, lemma_pages_keep_every_line, pages_from, strip_line_end, stripped,
};
use crate::text::{
    byte_len, concat, lemma_without_trailing_end, lemma_without_trailing_is_prefix,
    lemma_without_trailing_same, texts, without_trailing,
};
use crate::transforms::passthrough::Passthrough;
use crate::transforms::{DocumentTransformer, Transform, TransformError};
use vstd::prelude::*;

verus! {

/// A worker between two pages: the batches of pages it has flushed, and
/// the pages that wait in its buffer.
pub struct Batches {
    /// The buffers flushed so far, oldest first.
    pub flushed: Seq<Seq<Seq<char>>>,
    /// The pages that wait in the buffer, oldest first.
    pub buffer: Seq<Seq<char>>,
}

/// The worker after it has received the given pages, starting with nothing:
/// every page joins the buffer, and the buffer is flushed as soon as it has
/// come within the headroom of the limit.
pub open spec fn batches_after(headroom: nat, limit: nat, pages: Seq<Seq<char>>) -> Batches
    decreases pages.len(),
{
    if pages.len() == 0 {
        Batches { flushed: Seq::empty(), buffer: Seq::empty() }
    } else {
        let before = batches_after(headroom, limit, pages.drop_last());
        let buffer = before.buffer.push(pages.last());
        if flush_due(total_bytes(buffer), headroom, limit) {
            Batches { flushed: before.flushed.push(buffer), buffer: Seq::empty() }
        } else {
            Batches { flushed: before.flushed, buffer }
        }
    }
}

/// All batches of a run: those flushed while pages came in and, where pages
/// were left in the buffer when the channel closed, one more.
pub open spec fn run_batches(headroom: nat, limit: nat, pages: Seq<Seq<char>>) -> Seq<
    Seq<Seq<char>>,
> {
    let state = batches_after(headroom, limit, pages);
    if state.buffer.len() == 0 {
        state.flushed
    } else {
        state.flushed.push(state.buffer)
    }
}

/// The strategy and limits of a worker.
pub struct Setup {
    pub composer: ComposerBackend,
    pub transformer: DocumentTransformer,
    pub headroom: nat,
    pub limit: nat,
}

/// `sent` with the payload of a flush after it, where the flush had
/// anything to send.
pub open spec fn with_payload(sent: Seq<Seq<char>>, payload: Option<Seq<char>>) -> Seq<Seq<char>> {
    match payload {
        Some(payload) => sent.push(payload),
        None => sent,
    }
}

/// What is sent for a sequence of batches, in order; the first batch that
/// cannot be transformed decides the error.
pub open spec fn payloads(
    composer: ComposerBackend,
    transformer: DocumentTransformer,
    batches: Seq<Seq<Seq<char>>>,
) -> Result<Seq<Seq<char>>, TransformError>
    decreases batches.len(),
{
    if batches.len() == 0 {
        Ok(Seq::empty())
    } else {
        match payloads(composer, transformer, batches.drop_last()) {
            Ok(sent) => match flushed(composer, transformer, batches.last()) {
                Ok(payload) => Ok(with_payload(sent, payload)),
                Err(e) => Err(e),
            },
            Err(e) => Err(e),
        }
    }
}

/// Everything a worker sends that receives the given pages and then finds
/// the channel closed; or the failure that stopped it.
pub open spec fn run_payloads(setup: Setup, pages: Seq<Seq<char>>) -> Result<
    Seq<Seq<char>>,
    TransformError,
> {
    payloads(setup.composer, setup.transformer, run_batches(setup.headroom, setup.limit, pages))
}

/// All pages of a sequence of batches, batch after batch.
pub open spec fn flatten(batches: Seq<Seq<Seq<char>>>) -> Seq<Seq<char>>
    decreases batches.len(),
{
    if batches.len() == 0 {
        Seq::empty()
    } else {
        flatten(batches.drop_last()) + batches.last()
    }
}

/// A failure among the first batches is the failure of the whole.
pub proof fn lemma_payloads_first_error(
    composer: ComposerBackend,
    transformer: DocumentTransformer,
    batches: Seq<Seq<Seq<char>>>,
    k: int,
)
    requires
        0 <= k <= batches.len(),
        payloads(composer, transformer, batches.take(k)) is Err,
    ensures
        payloads(composer, transformer, batches) == payloads(
            composer,
            transformer,
            batches.take(k),
        ),
    decreases batches.len() - k,
{
    if k < batches.len() {
        assert(batches.take(k + 1).drop_last() == batches.take(k));
        lemma_payloads_first_error(composer, transformer, batches, k + 1);
    } else {
        assert(batches.take(k) == batches);
    }
}

/// What has been flushed after some pages stays flushed, in the same
/// order, whatever pages follow.
pub proof fn lemma_flushed_grows(headroom: nat, limit: nat, pages: Seq<Seq<char>>, k: int)
    requires
        0 <= k <= pages.len(),
    ensures
        batches_after(headroom, limit, pages.take(k)).flushed.len() <= run_batches(
            headroom,
            limit,
            pages,
        ).len(),
        batches_after(headroom, limit, pages.take(k)).flushed == run_batches(
            headroom,
            limit,
            pages,
        ).take(batches_after(headroom, limit, pages.take(k)).flushed.len() as int),
    decreases pages.len() - k,
{
    let here = batches_after(headroom, limit, pages.take(k));
    let all = run_batches(headroom, limit, pages);
    if k < pages.len() {
        assert(pages.take(k + 1).drop_last() == pages.take(k));
        lemma_flushed_grows(headroom, limit, pages, k + 1);
        let next = batches_after(headroom, limit, pages.take(k + 1));
        assert(here.flushed =~= next.flushed.take(here.flushed.len() as int));
        assert(here.flushed =~= all.take(here.flushed.len() as int));
    } else {
        assert(pages.take(k) == pages);
        assert(here.flushed =~= all.take(here.flushed.len() as int));
    }
}

/// The setup of a worker.
pub open spec fn setup_of(worker: SinkWorker) -> Setup {
    Setup {
        composer: worker.composer(),
        transformer: worker.transformer(),
        headroom: worker.headroom() as nat,
        limit: worker.limit() as nat,
    }
}

/// Runs one fresh worker over the pages of a closed channel and collects
/// what it would send, in order.
pub fn run_worker(worker: SinkWorker, pages: Vec<String>) -> (r: Result<
    Vec<String>,
    TransformError,
>)
    requires
        worker.wf(),
        worker.pages().len() == 0,
    ensures
        match r {
            Ok(sent) => run_payloads(setup_of(worker), texts(pages@)) == Ok::<
                Seq<Seq<char>>,
                TransformError,
            >(texts(sent@)),
            Err(e) => run_payloads(setup_of(worker), texts(pages@)) == Err::<
                Seq<Seq<char>>,
                TransformError,
            >(e),
        },
{
    let ghost setup = setup_of(worker);
    let ghost all = texts(pages@);
    let mut current = worker;
    let mut sent: Vec<String> = Vec::new();
    proof {
        assert(all.take(0) =~= Seq::empty());
        assert(current.pages() =~= Seq::empty());
        assert(texts(sent@) =~= Seq::empty());
    }
    for page in it: pages
        invariant
            it.seq() == pages@,
            all == texts(pages@),
            current.wf(),
            setup == setup_of(worker),
            setup_of(current) == setup,
            batches_after(setup.headroom, setup.limit, all.take(it.index() as int)).buffer
                == current.pages(),
            payloads(
                setup.composer,
                setup.transformer,
                batches_after(setup.headroom, setup.limit, all.take(it.index() as int)).flushed,
            ) == Ok::<Seq<Seq<char>>, TransformError>(texts(sent@)),
    {
        let ghost before = batches_after(setup.headroom, setup.limit, all.take(it.index() as int));
        let ghost after = batches_after(setup.headroom, setup.limit, all.take(it.index() + 1));
        proof {
            assert(all.take(it.index() + 1).drop_last() == all.take(it.index() as int));
            assert(all.take(it.index() + 1).last() == page@);
            if flush_due(
                total_bytes(before.buffer.push(page@)),
                setup.headroom,
                setup.limit,
            ) {
                assert(after.flushed.drop_last() == before.flushed);
                assert(after.flushed.last() == before.buffer.push(page@));
            }
        }
        let ghost sent_before = texts(sent@);
        match current.receive(page) {
            Err(e) => {
                proof {
                    let n = after.flushed.len() as int;
                    lemma_flushed_grows(setup.headroom, setup.limit, all, it.index() + 1);
                    let whole = run_batches(setup.headroom, setup.limit, all);
                    assert(payloads(setup.composer, setup.transformer, whole.take(n)) == Err::<
                        Seq<Seq<char>>,
                        TransformError,
                    >(e));
                    lemma_payloads_first_error(setup.composer, setup.transformer, whole, n);
                }
                return Err(e);
            },
            Ok(Some(payload)) => {
                sent.push(payload);
                assert(texts(sent@) =~= sent_before.push(payload@));
            },
            Ok(None) => {},
        }
    }
    assert(all.take(pages@.len() as int) == all);
    let ghost state = batches_after(setup.headroom, setup.limit, all);
    let ghost sent_before = texts(sent@);
    proof {
        if state.buffer.len() > 0 {
            assert(state.flushed.push(state.buffer).drop_last() == state.flushed);
        }
    }
    match current.finish() {
        Err(e) => Err(e),
        Ok(Closing::SendThenClose(payload)) => {
            sent.push(payload);
            assert(texts(sent@) =~= sent_before.push(payload@));
            Ok(sent)
        },
        Ok(Closing::Close) => Ok(sent),
    }
}

/// Nothing is dropped and nothing is reordered: the batches of a run,
/// taken together, are the pages that the worker received, in the order in
/// which it received them; and no batch is empty.
pub proof fn lemma_batches_hold_every_page(headroom: nat, limit: nat, pages: Seq<Seq<char>>)
    ensures
        flatten(run_batches(headroom, limit, pages)) == pages,
        forall|i: int|
            0 <= i < run_batches(headroom, limit, pages).len() ==> (#[trigger] run_batches(
                headroom,
                limit,
                pages,
            )[i]).len() > 0,
{
    lemma_batches_after(headroom, limit, pages);
    let state = batches_after(headroom, limit, pages);
    if state.buffer.len() > 0 {
        assert(state.flushed.push(state.buffer).drop_last() == state.flushed);
    } else {
        assert(flatten(state.flushed) + state.buffer =~= flatten(state.flushed));
    }
}

proof fn lemma_batches_after(headroom: nat, limit: nat, pages: Seq<Seq<char>>)
    ensures
        flatten(batches_after(headroom, limit, pages).flushed) + batches_after(
            headroom,
            limit,
            pages,
        ).buffer == pages,
        forall|i: int|
            0 <= i < batches_after(headroom, limit, pages).flushed.len() ==> (
            #[trigger] batches_after(headroom, limit, pages).flushed[i]).len() > 0,
    decreases pages.len(),
{
    if pages.len() == 0 {
        assert(flatten(Seq::<Seq<Seq<char>>>::empty()) + Seq::<Seq<char>>::empty() =~= pages);
    } else {
        lemma_batches_after(headroom, limit, pages.drop_last());
        let before = batches_after(headroom, limit, pages.drop_last());
        let buffer = before.buffer.push(pages.last());
        let after = batches_after(headroom, limit, pages);
        assert(flatten(before.flushed) + buffer =~= pages) by {
            assert(flatten(before.flushed) + before.buffer == pages.drop_last());
            assert(pages =~= pages.drop_last().push(pages.last()));
        }
        if flush_due(total_bytes(buffer), headroom, limit) {
            assert(after.flushed.drop_last() == before.flushed);
            assert(flatten(after.flushed) + after.buffer =~= flatten(before.flushed) + buffer);
        }
    }
}

/// A closed channel ends the worker in one step: after the last page the
/// run has at most one batch more, the one flushed on closing, and none
/// where the buffer was already empty.
pub proof fn lemma_closing_is_one_step(headroom: nat, limit: nat, pages: Seq<Seq<char>>)
    ensures
        run_batches(headroom, limit, pages).len() <= batches_after(
            headroom,
            limit,
            pages,
        ).flushed.len() + 1,
        batches_after(headroom, limit, pages).buffer.len() == 0 ==> run_batches(
            headroom,
            limit,
            pages,
        ) == batches_after(headroom, limit, pages).flushed,
{
}

/// The bytes of a sequence of pages are at least the bytes of any of its
/// beginnings.
pub proof fn lemma_total_bytes_grows(pages: Seq<Seq<char>>, k: int)
    requires
        0 <= k <= pages.len(),
    ensures
        total_bytes(pages.take(k)) <= total_bytes(pages),
        k < pages.len() ==> total_bytes(pages.take(k)) + byte_len(pages.last()) <= total_bytes(
            pages,
        ),
    decreases pages.len() - k,
{
    if k < pages.len() {
        assert(pages.take(k + 1).drop_last() == pages.take(k));
        lemma_total_bytes_grows(pages, k + 1);
        if k + 1 == pages.len() {
            assert(pages.take(k + 1) == pages);
        }
    } else {
        assert(pages.take(k) == pages);
    }
}

/// A stream that fits below the limit with the headroom to spare leaves in
/// one batch: where the pages are not empty and their bytes together stay
/// at or below the limit less the headroom, the run has exactly one batch,
/// and it holds all pages.
pub proof fn lemma_small_stream_is_one_batch(headroom: nat, limit: nat, pages: Seq<Seq<char>>)
    requires
        pages.len() > 0,
        forall|i: int| 0 <= i < pages.len() ==> byte_len(#[trigger] pages[i]) > 0,
        total_bytes(pages) + headroom <= limit,
    ensures
        run_batches(headroom, limit, pages) == seq![pages],
{
    lemma_nothing_flushed_early(headroom, limit, pages, pages.len() - 1);
    assert(pages.take(pages.len() - 1) == pages.drop_last());
    let before = batches_after(headroom, limit, pages.drop_last());
    assert(before.buffer.push(pages.last()) =~= pages);
    assert(run_batches(headroom, limit, pages) =~= seq![pages]);
}

proof fn lemma_nothing_flushed_early(headroom: nat, limit: nat, pages: Seq<Seq<char>>, k: int)
    requires
        0 <= k < pages.len(),
        byte_len(pages.last()) > 0,
        total_bytes(pages) + headroom <= limit,
    ensures
        batches_after(headroom, limit, pages.take(k)) == (Batches {
            flushed: Seq::empty(),
            buffer: pages.take(k),
        }),
    decreases k,
{
    if k == 0 {
        assert(pages.take(0) =~= Seq::empty());
    } else {
        lemma_nothing_flushed_early(headroom, limit, pages, k - 1);
        assert(pages.take(k).drop_last() == pages.take(k - 1));
        assert(pages.take(k - 1).push(pages.take(k).last()) =~= pages.take(k));
        lemma_total_bytes_grows(pages, k);
    }
}

/// What a stream that fits below the limit sends: the one payload composed
/// of all its pages, or nothing where that payload holds nothing.
pub proof fn lemma_small_stream_is_one_send(setup: Setup, pages: Seq<Seq<char>>)
    requires
        pages.len() > 0,
        forall|i: int| 0 <= i < pages.len() ==> byte_len(#[trigger] pages[i]) > 0,
        total_bytes(pages) + setup.headroom <= setup.limit,
    ensures
        run_payloads(setup, pages) == match flushed(setup.composer, setup.transformer, pages) {
            Ok(payload) => Ok::<Seq<Seq<char>>, TransformError>(
                with_payload(Seq::empty(), payload),
            ),
            Err(e) => Err::<Seq<Seq<char>>, TransformError>(e),
        },
        flushed(setup.composer, setup.transformer, pages) is Ok && flushed(
            setup.composer,
            setup.transformer,
            pages,
        ).unwrap() is Some ==> run_payloads(setup, pages).unwrap().len() == 1,
{
    lemma_small_stream_is_one_batch(setup.headroom, setup.limit, pages);
    let batches = seq![pages];
    assert(batches.drop_last() =~= Seq::<Seq<Seq<char>>>::empty());
    assert(batches.last() == pages);
    assert(payloads(setup.composer, setup.transformer, batches.drop_last()) == Ok::<
        Seq<Seq<char>>,
        TransformError,
    >(Seq::empty()));
    assert(run_payloads(setup, pages) == payloads(setup.composer, setup.transformer, batches));
}

/// With newline-delimited framing, what a single worker sends, taken
/// together, is the framing of the items of all pages in source order,
/// wherever the flushes fall.
pub proof fn lemma_ndjson_run_in_source_order(setup: Setup, pages: Seq<Seq<char>>)
    requires
        setup.composer == ComposerBackend::Ndjson(NdjsonComposer),
        all_items(setup.transformer, pages) is Ok,
    ensures
        run_payloads(setup, pages) is Ok,
        concat(run_payloads(setup, pages).unwrap()) == ndjson(
            all_items(setup.transformer, pages).unwrap(),
        ),
{
    let batches = run_batches(setup.headroom, setup.limit, pages);
    lemma_batches_hold_every_page(setup.headroom, setup.limit, pages);
    lemma_ndjson_payloads(setup.transformer, batches);
}

proof fn lemma_ndjson_payloads(transformer: DocumentTransformer, batches: Seq<Seq<Seq<char>>>)
    requires
        all_items(transformer, flatten(batches)) is Ok,
    ensures
        payloads(ComposerBackend::Ndjson(NdjsonComposer), transformer, batches) is Ok,
        concat(payloads(ComposerBackend::Ndjson(NdjsonComposer), transformer, batches).unwrap())
            == ndjson(all_items(transformer, flatten(batches)).unwrap()),
    decreases batches.len(),
{
    let composer = ComposerBackend::Ndjson(NdjsonComposer);
    if batches.len() == 0 {
    } else {
        let first = flatten(batches.drop_last());
        let last = batches.last();
        lemma_all_items_ok(transformer, first + last);
        lemma_all_items_ok(transformer, first);
        lemma_all_items_ok(transformer, last);
        assert(each_transforms(transformer, first)) by {
            assert forall|i: int| 0 <= i < first.len() implies (#[trigger] transformer.items_of(
                first[i],
            )) is Ok by {
                assert((first + last)[i] == first[i]);
            }
        }
        assert(each_transforms(transformer, last)) by {
            assert forall|i: int| 0 <= i < last.len() implies (#[trigger] transformer.items_of(
                last[i],
            )) is Ok by {
                assert((first + last)[first.len() + i] == last[i]);
            }
        }
        lemma_ndjson_payloads(transformer, batches.drop_last());
        lemma_all_items_concat(transformer, first, last);
        let items_first = all_items(transformer, first).unwrap();
        let items_last = all_items(transformer, last).unwrap();
        lemma_ndjson_concat(items_first, items_last);
        lemma_ndjson_shape(items_last);
        let sent = payloads(composer, transformer, batches.drop_last()).unwrap();
        let payload = ndjson(items_last);
        assert(composer.framed(items_last) == payload);
        if nothing_to_send(payload) {
            reveal_strlit("[]");
            assert("[]"@.len() == 2);
            assert("[]"@[1] == ']');
            assert(payload.len() == 0);
            assert(concat(sent) + payload =~= concat(sent));
        } else {
            assert(sent.push(payload).drop_last() == sent);
        }
    }
}

/// The identity transform turns a buffer of pages into the same pages.
pub proof fn lemma_passthrough_items(pages: Seq<Seq<char>>)
    ensures
        all_items(DocumentTransformer::Passthrough(Passthrough), pages) == Ok::<
            Seq<Seq<char>>,
            TransformError,
        >(pages),
    decreases pages.len(),
{
    let transformer = DocumentTransformer::Passthrough(Passthrough);
    if pages.len() > 0 {
        lemma_passthrough_items(pages.drop_last());
        assert(transformer.items_of(pages.last()) == Ok::<Seq<Seq<char>>, TransformError>(
            seq![pages.last()],
        ));
        assert(pages.drop_last() + seq![pages.last()] =~= pages);
    } else {
        assert(pages =~= Seq::empty());
    }
}

/// The setup of a worker that copies a file to a file.
pub open spec fn file_to_file(headroom: nat, limit: nat) -> Setup {
    Setup {
        composer: ComposerBackend::Ndjson(NdjsonComposer),
        transformer: DocumentTransformer::Passthrough(Passthrough),
        headroom,
        limit,
    }
}

/// Everything written by one worker that copies a stream of lines to a
/// file, whatever the page and request limits.
pub open spec fn file_copy(
    lines: Seq<Seq<char>>,
    limits: CommonSourceConfig,
    headroom: nat,
    limit: nat,
) -> Seq<char> {
    concat(run_payloads(file_to_file(headroom, limit), pages_from(lines, 0, limits)).unwrap())
}

/// File to file with one worker: the sink holds every line of the source,
/// in the order of the source, without its line end and followed by one
/// newline. This holds of a source without empty lines; an empty line is
/// not copied.
pub proof fn lemma_file_to_file_keeps_every_line(
    lines: Seq<Seq<char>>,
    limits: CommonSourceConfig,
    headroom: nat,
    limit: nat,
)
    requires
        forall|i: int| 0 <= i < lines.len() ==> (#[trigger] strip_line_end(lines[i])).len() > 0,
    ensures
        run_payloads(file_to_file(headroom, limit), pages_from(lines, 0, limits)) is Ok,
        file_copy(lines, limits, headroom, limit) == ndjson(stripped(lines)),
        stripped(lines).len() == lines.len(),
{
    let pages = pages_from(lines, 0, limits);
    lemma_passthrough_items(pages);
    lemma_ndjson_run_in_source_order(file_to_file(headroom, limit), pages);
    lemma_pages_keep_every_line(lines, 0, limits);
    assert(stripped(lines).subrange(0, lines.len() as int) =~= stripped(lines));
}

/// The lines that a reader finds in what a copy wrote: the stripped lines,
/// each with its newline.
pub open spec fn lines_of_copy(lines: Seq<Seq<char>>) -> Seq<Seq<char>> {
    Seq::new(lines.len(), |i: int| strip_line_end(lines[i]).push('\n'))
}

proof fn lemma_strip_is_stable(raw: Seq<char>)
    requires
        ends_at_newline(raw),
        strip_line_end(raw).len() > 0,
    ensures
        strip_line_end(strip_line_end(raw).push('\n')) == strip_line_end(raw),
{
    let inner = without_trailing(raw, '\n');
    let line = strip_line_end(raw);
    lemma_without_trailing_is_prefix(raw, '\n');
    lemma_without_trailing_is_prefix(inner, '\r');
    lemma_without_trailing_end(raw, '\n');
    lemma_without_trailing_end(inner, '\r');
    assert(line.last() != '\n') by {
        if line.len() == raw.len() {
            assert(inner.len() == raw.len());
            assert(inner.take(inner.len() as int) == inner);
            assert(raw.take(raw.len() as int) == raw);
        } else {
            assert(line.last() == raw[line.len() - 1]);
        }
    }
    assert(line.push('\n').drop_last() == line);
    lemma_without_trailing_same(line, '\n');
    lemma_without_trailing_same(line, '\r');
}

/// Copying a copy changes nothing: a second run that reads what the first
/// wrote writes the same bytes again, whatever the limits of either run.
pub proof fn lemma_file_copy_is_stable(
    lines: Seq<Seq<char>>,
    limits: CommonSourceConfig,
    headroom: nat,
    limit: nat,
    limits_again: CommonSourceConfig,
    headroom_again: nat,
    limit_again: nat,
)
    requires
        forall|i: int| 0 <= i < lines.len() ==> ends_at_newline(#[trigger] lines[i]),
        forall|i: int| 0 <= i < lines.len() ==> (#[trigger] strip_line_end(lines[i])).len() > 0,
    ensures
        file_copy(lines_of_copy(lines), limits_again, headroom_again, limit_again) == file_copy(
            lines,
            limits,
            headroom,
            limit,
        ),
{
    let again = lines_of_copy(lines);
    assert forall|i: int| 0 <= i < again.len() implies (#[trigger] strip_line_end(again[i]))
        == strip_line_end(lines[i]) by {
        lemma_strip_is_stable(lines[i]);
    }
    assert(stripped(again) =~= stripped(lines));
    lemma_file_to_file_keeps_every_line(lines, limits, headroom, limit);
    lemma_file_to_file_keeps_every_line(again, limits_again, headroom_again, limit_again);
}

} // verus!
