//! Runs of a bridge over a sequence of events, and what holds of every run.
use vstd::prelude::*;
use vstd::utf8::{valid_utf8, decode_utf8};
use crate::bridge::{
    BridgeView,
    Directive,
    ErrorView,
    EventView,
    PhaseView,
    decode_lines,
    has_child,
    is_terminal,
    next,
};
use crate::framing::{frame_from, is_plain_line, lemma_frame_concat, lemma_frame_no_newline,
    lemma_frame_terminated, stream_lines, terminated};

verus! {

/// The bridge after `events`, every line forwarded on the way, in order,
/// and the directive given for each event.
pub open spec fn run(b: BridgeView, events: Seq<EventView>) -> (
    BridgeView,
    Seq<Seq<char>>,
    Seq<Directive>,
)
    decreases events.len(),
{
    if events.len() == 0 {
        (b, Seq::empty(), Seq::empty())
    } else {
        let (m, out, ds) = run(b, events.drop_last());
        let (m2, lines, d) = next(m, events.last());
        (m2, out + lines, ds.push(d))
    }
}

/// The bytes of a stream that arrived in `chunks`.
pub open spec fn concat_chunks(chunks: Seq<Seq<u8>>) -> Seq<u8>
    decreases chunks.len(),
{
    if chunks.len() == 0 {
        Seq::empty()
    } else {
        concat_chunks(chunks.drop_last()) + chunks.last()
    }
}

/// One chunk event for each chunk.
pub open spec fn chunk_events(chunks: Seq<Seq<u8>>) -> Seq<EventView> {
    chunks.map_values(|c: Seq<u8>| EventView::Chunk(c))
}

/// An invocation that goes through without a fault: started, spawned with
/// its output captured, the output in `chunks`, its end, and an exit with
/// status zero.
pub open spec fn clean_invocation(chunks: Seq<Seq<u8>>) -> Seq<EventView> {
    seq![EventView::Start, EventView::Spawned(true)] + chunk_events(chunks) + seq![
        EventView::EndOfStream,
        EventView::Exited(Some(0i32)),
    ]
}

/// How many spawns the directives ask for.
pub open spec fn spawn_count(ds: Seq<Directive>) -> nat
    decreases ds.len(),
{
    if ds.len() == 0 {
        0
    } else {
        spawn_count(ds.drop_last()) + if ds.last() == Directive::Spawn {
            1nat
        } else {
            0nat
        }
    }
}

/// Whether every line is valid UTF-8.
pub open spec fn all_utf8(lines: Seq<Seq<u8>>) -> bool {
    forall|i: int| 0 <= i < lines.len() ==> valid_utf8(#[trigger] lines[i])
}

/// The text of each line.
pub open spec fn decode_each(lines: Seq<Seq<u8>>) -> Seq<Seq<char>> {
    lines.map_values(|l: Seq<u8>| decode_utf8(l))
}

/// Running `a` and then `b` is running `a + b`.
pub proof fn lemma_run_append(b: BridgeView, e1: Seq<EventView>, e2: Seq<EventView>)
    ensures
        run(b, e1 + e2) == ({
            let (m, o1, d1) = run(b, e1);
            let (m2, o2, d2) = run(m, e2);
            (m2, o1 + o2, d1 + d2)
        }),
    decreases e2.len(),
{
    let (m, o1, d1) = run(b, e1);
    if e2.len() == 0 {
        assert(e1 + e2 =~= e1);
        assert(o1 + Seq::<Seq<char>>::empty() =~= o1);
        assert(d1 + Seq::<Directive>::empty() =~= d1);
    } else {
        lemma_run_append(b, e1, e2.drop_last());
        assert((e1 + e2).drop_last() =~= e1 + e2.drop_last());
        let (m2, o2, d2) = run(m, e2.drop_last());
        let (m3, ls, d) = next(m2, e2.last());
        assert((o1 + o2) + ls =~= o1 + (o2 + ls));
        assert((d1 + d2).push(d) =~= d1 + d2.push(d));
    }
}

/// One directive for each event.
pub proof fn lemma_run_len(b: BridgeView, events: Seq<EventView>)
    ensures
        run(b, events).2.len() == events.len(),
    decreases events.len(),
{
    if events.len() > 0 {
        lemma_run_len(b, events.drop_last());
    }
}

/// An invocation that has ended stays as it ended: it forwards no line and
/// asks for nothing more, whatever is reported afterwards.
pub proof fn lemma_ended_stays_ended(b: BridgeView, events: Seq<EventView>)
    requires
        is_terminal(b.phase),
    ensures
        run(b, events).0.phase == b.phase,
        run(b, events).1.len() == 0,
        forall|i: int| 0 <= i < events.len() ==> run(b, events).2[i] == Directive::Nothing,
    decreases events.len(),
{
    lemma_run_len(b, events);
    if events.len() > 0 {
        lemma_ended_stays_ended(b, events.drop_last());
        lemma_run_len(b, events.drop_last());
        assert forall|i: int| 0 <= i < events.len() implies run(b, events).2[i]
            == Directive::Nothing by {
            if i < events.len() - 1 {
                assert(run(b, events).2[i] == run(b, events.drop_last()).2[i]);
            }
        }
    }
}

/// Running one event is taking one step.
pub proof fn lemma_run_single(b: BridgeView, e: EventView)
    ensures
        run(b, seq![e]) == (next(b, e).0, next(b, e).1, seq![next(b, e).2]),
{
    assert(seq![e].drop_last() =~= Seq::<EventView>::empty());
    assert(seq![e].last() == e);
    assert(run(b, Seq::<EventView>::empty()) == (
        b,
        Seq::<Seq<char>>::empty(),
        Seq::<Directive>::empty(),
    ));
    assert(Seq::<Seq<char>>::empty() + next(b, e).1 =~= next(b, e).1);
    assert(Seq::<Directive>::empty().push(next(b, e).2) =~= seq![next(b, e).2]);
}

/// Running two events is taking two steps.
pub proof fn lemma_run_pair(b: BridgeView, e1: EventView, e2: EventView)
    ensures
        run(b, seq![e1, e2]) == ({
            let (m1, o1, d1) = next(b, e1);
            let (m2, o2, d2) = next(m1, e2);
            (m2, o1 + o2, seq![d1, d2])
        }),
{
    lemma_run_single(b, e1);
    lemma_run_single(next(b, e1).0, e2);
    lemma_run_append(b, seq![e1], seq![e2]);
    assert(seq![e1] + seq![e2] =~= seq![e1, e2]);
    assert(seq![next(b, e1).2] + seq![next(next(b, e1).0, e2).2] =~= seq![
        next(b, e1).2,
        next(next(b, e1).0, e2).2,
    ]);
}

/// A lines' decoding succeeds exactly when every line is UTF-8, and then it
/// is the text of each line.
pub proof fn lemma_decode_lines_valid(lines: Seq<Seq<u8>>)
    ensures
        decode_lines(lines).1 <==> all_utf8(lines),
        all_utf8(lines) ==> decode_lines(lines).0 == decode_each(lines),
    decreases lines.len(),
{
    if lines.len() > 0 {
        let init = lines.drop_last();
        lemma_decode_lines_valid(init);
        if all_utf8(lines) {
            assert(valid_utf8(lines[lines.len() - 1]));
            assert(decode_each(lines) =~= decode_each(init).push(decode_utf8(lines.last())));
        }
        if decode_lines(lines).1 {
            assert forall|i: int| 0 <= i < lines.len() implies valid_utf8(#[trigger] lines[i]) by {
                if i < lines.len() - 1 {
                    assert(init[i] == lines[i]);
                }
            }
        }
    }
}

/// Streaming chunks whose lines are all UTF-8: the bridge keeps streaming,
/// holds what follows the last newline, and forwards every completed line.
pub proof fn lemma_stream_chunks(b: BridgeView, chunks: Seq<Seq<u8>>)
    requires
        (b.phase is Streaming),
        all_utf8(frame_from(b.pending, concat_chunks(chunks)).0),
    ensures
        run(b, chunk_events(chunks)).0 == (BridgeView {
            pending: frame_from(b.pending, concat_chunks(chunks)).1,
            ..b
        }),
        run(b, chunk_events(chunks)).1 == decode_each(
            frame_from(b.pending, concat_chunks(chunks)).0,
        ),
    decreases chunks.len(),
{
    if chunks.len() == 0 {
        assert(decode_each(Seq::empty()) =~= Seq::<Seq<char>>::empty());
        assert(b == BridgeView { pending: b.pending, ..b });
    } else {
        let pre = chunks.drop_last();
        let c = chunks.last();
        let (l1, q) = frame_from(b.pending, concat_chunks(pre));
        let (l2, r) = frame_from(q, c);
        lemma_frame_concat(b.pending, concat_chunks(pre), c);
        assert(l1 + l2 == frame_from(b.pending, concat_chunks(chunks)).0);
        assert forall|i: int| 0 <= i < l1.len() implies valid_utf8(#[trigger] l1[i]) by {
            assert((l1 + l2)[i] == l1[i]);
        }
        assert forall|i: int| 0 <= i < l2.len() implies valid_utf8(#[trigger] l2[i]) by {
            assert((l1 + l2)[l1.len() + i] == l2[i]);
        }
        lemma_stream_chunks(b, pre);
        assert(chunk_events(chunks).drop_last() =~= chunk_events(pre));
        let m = BridgeView { pending: q, ..b };
        lemma_decode_lines_valid(l2);
        assert(next(m, EventView::Chunk(c)).1 == decode_each(l2));
        assert(decode_each(l1) + decode_each(l2) =~= decode_each(l1 + l2));
    }
}

/// A stream that ends well: every line of it, terminated or not, reaches
/// the sink exactly once and in the order written, and the invocation
/// completes, whatever the chunks the output arrived in.
pub proof fn lemma_clean_invocation(check_exit_status: bool, chunks: Seq<Seq<u8>>)
    requires
        all_utf8(stream_lines(concat_chunks(chunks))),
    ensures
        run(BridgeView::initial(check_exit_status), clean_invocation(chunks)).0.phase
            == PhaseView::Completed,
        run(BridgeView::initial(check_exit_status), clean_invocation(chunks)).1 == decode_each(
            stream_lines(concat_chunks(chunks)),
        ),
{
    let b0 = BridgeView::initial(check_exit_status);
    let head = seq![EventView::Start, EventView::Spawned(true)];
    let tail = seq![EventView::EndOfStream, EventView::Exited(Some(0i32))];
    let bytes = concat_chunks(chunks);
    let (lines, rest) = frame_from(Seq::empty(), bytes);
    let streaming = b0.with_phase(PhaseView::Streaming);
    lemma_run_pair(b0, EventView::Start, EventView::Spawned(true));
    assert(run(b0, head).0 == streaming);
    assert(run(b0, head).1 =~= Seq::<Seq<char>>::empty());
    assert forall|i: int| 0 <= i < lines.len() implies valid_utf8(#[trigger] lines[i]) by {
        if rest.len() > 0 {
            assert(stream_lines(bytes)[i] == lines[i]);
        }
    }
    lemma_stream_chunks(streaming, chunks);
    lemma_run_append(b0, head, chunk_events(chunks));
    lemma_run_append(b0, head + chunk_events(chunks), tail);
    let m = BridgeView { pending: rest, ..streaming };
    lemma_run_pair(m, EventView::EndOfStream, EventView::Exited(Some(0i32)));
    if rest.len() > 0 {
        assert(stream_lines(bytes)[lines.len() as int] == rest);
        assert(decode_each(lines) + seq![decode_utf8(rest)] =~= decode_each(stream_lines(bytes)));
    } else {
        assert(decode_each(lines) + Seq::<Seq<char>>::empty() =~= decode_each(
            stream_lines(bytes),
        ));
    }
    assert(Seq::<Seq<char>>::empty() + decode_each(lines) =~= decode_each(lines));
}

/// Plain lines, each written with its newline and read in any chunks: the
/// sink gets exactly those lines, in order, and the invocation completes.
pub proof fn lemma_terminated_lines_forwarded(
    check_exit_status: bool,
    lines: Seq<Seq<u8>>,
    chunks: Seq<Seq<u8>>,
)
    requires
        forall|i: int| 0 <= i < lines.len() ==> is_plain_line(#[trigger] lines[i]),
        all_utf8(lines),
        concat_chunks(chunks) == terminated(lines),
    ensures
        run(BridgeView::initial(check_exit_status), clean_invocation(chunks)).0.phase
            == PhaseView::Completed,
        run(BridgeView::initial(check_exit_status), clean_invocation(chunks)).1 == decode_each(
            lines,
        ),
{
    lemma_frame_terminated(lines);
    lemma_clean_invocation(check_exit_status, chunks);
}

/// Plain lines written with their newlines, then a last line without one:
/// that last line still reaches the sink, once, after the others.
pub proof fn lemma_unterminated_line_forwarded(
    check_exit_status: bool,
    lines: Seq<Seq<u8>>,
    last: Seq<u8>,
    chunks: Seq<Seq<u8>>,
)
    requires
        forall|i: int| 0 <= i < lines.len() ==> is_plain_line(#[trigger] lines[i]),
        all_utf8(lines),
        last.len() > 0,
        is_plain_line(last),
        valid_utf8(last),
        concat_chunks(chunks) == terminated(lines) + last,
    ensures
        run(BridgeView::initial(check_exit_status), clean_invocation(chunks)).0.phase
            == PhaseView::Completed,
        run(BridgeView::initial(check_exit_status), clean_invocation(chunks)).1 == decode_each(
            lines,
        ).push(decode_utf8(last)),
{
    lemma_frame_terminated(lines);
    lemma_frame_concat(Seq::empty(), terminated(lines), last);
    lemma_frame_no_newline(Seq::empty(), last);
    assert(Seq::<u8>::empty() + last =~= last);
    assert(lines + Seq::<Seq<u8>>::empty() =~= lines);
    let all = lines.push(last);
    assert(stream_lines(concat_chunks(chunks)) == all);
    assert forall|i: int| 0 <= i < all.len() implies valid_utf8(#[trigger] all[i]) by {
        if i < lines.len() {
            assert(all[i] == lines[i]);
        }
    }
    lemma_clean_invocation(check_exit_status, chunks);
    assert(decode_each(all) =~= decode_each(lines).push(decode_utf8(last)));
}

/// An executable that cannot be spawned: the invocation fails with the
/// system's message and no line reaches the sink, whatever follows.
pub proof fn lemma_spawn_failure(check_exit_status: bool, message: Seq<char>, rest: Seq<EventView>)
    ensures
        ({
            let r = run(
                BridgeView::initial(check_exit_status),
                seq![EventView::Start, EventView::SpawnFailed(message)] + rest,
            );
            &&& r.0.phase == PhaseView::Failed(ErrorView::SpawnFailed(message))
            &&& r.1.len() == 0
        }),
{
    let b0 = BridgeView::initial(check_exit_status);
    let head = seq![EventView::Start, EventView::SpawnFailed(message)];
    lemma_run_pair(b0, EventView::Start, EventView::SpawnFailed(message));
    let m = run(b0, head).0;
    assert(m.phase == PhaseView::Failed(ErrorView::SpawnFailed(message)));
    assert(run(b0, head).1.len() == 0);
    lemma_ended_stays_ended(m, rest);
    lemma_run_append(b0, head, rest);
}

/// Cancelling while a child exists asks for it to be killed and ends the
/// invocation: no line is forwarded afterwards and nothing more is asked,
/// whatever is reported.
pub proof fn lemma_cancel_kills_child(b: BridgeView, rest: Seq<EventView>)
    requires
        has_child(b.phase),
    ensures
        next(b, EventView::Cancel).0.phase == PhaseView::Failed(ErrorView::Cancelled),
        next(b, EventView::Cancel).1.len() == 0,
        next(b, EventView::Cancel).2 == (Directive::Finish { kill_child: true }),
        run(next(b, EventView::Cancel).0, rest).0.phase == PhaseView::Failed(
            ErrorView::Cancelled,
        ),
        run(next(b, EventView::Cancel).0, rest).1.len() == 0,
        forall|i: int|
            0 <= i < rest.len() ==> run(next(b, EventView::Cancel).0, rest).2[i]
                == Directive::Nothing,
{
    lemma_ended_stays_ended(next(b, EventView::Cancel).0, rest);
}

/// Two bridges that differ at most in their count of failed deliveries.
pub open spec fn same_but_deliveries(x: BridgeView, y: BridgeView) -> bool {
    &&& x.phase == y.phase
    &&& x.pending == y.pending
    &&& x.check_exit_status == y.check_exit_status
}

proof fn lemma_run_ignores_deliveries(x: BridgeView, y: BridgeView, events: Seq<EventView>)
    requires
        same_but_deliveries(x, y),
    ensures
        same_but_deliveries(run(x, events).0, run(y, events).0),
        run(x, events).1 == run(y, events).1,
        run(x, events).2 == run(y, events).2,
    decreases events.len(),
{
    if events.len() > 0 {
        lemma_run_ignores_deliveries(x, y, events.drop_last());
    }
}

/// A sink that fails to take a line changes nothing else: the lines that
/// follow are forwarded exactly as if the delivery had succeeded, and the
/// invocation ends the same way.
pub proof fn lemma_failed_delivery_harmless(
    b: BridgeView,
    before: Seq<EventView>,
    after: Seq<EventView>,
)
    ensures
        ({
            let failed = run(b, before + seq![EventView::DeliveryFailed] + after);
            let clean = run(b, before + after);
            &&& failed.0.phase == clean.0.phase
            &&& failed.1 == clean.1
        }),
{
    let one = seq![EventView::DeliveryFailed];
    let (m, o1, d1) = run(b, before);
    lemma_run_single(m, EventView::DeliveryFailed);
    let m2 = run(m, one).0;
    assert(run(m, one).1 =~= Seq::<Seq<char>>::empty());
    lemma_run_append(b, before, one);
    lemma_run_append(b, before + one, after);
    lemma_run_append(b, before, after);
    lemma_run_ignores_deliveries(m2, m, after);
    assert(o1 + Seq::<Seq<char>>::empty() =~= o1);
}

/// At most one process is spawned per invocation, whatever is reported.
pub proof fn lemma_single_spawn(check_exit_status: bool, events: Seq<EventView>)
    ensures
        spawn_count(run(BridgeView::initial(check_exit_status), events).2) <= 1,
        (run(BridgeView::initial(check_exit_status), events).0.phase is Idle) ==> spawn_count(
            run(BridgeView::initial(check_exit_status), events).2,
        ) == 0,
    decreases events.len(),
{
    if events.len() > 0 {
        lemma_single_spawn(check_exit_status, events.drop_last());
        let ds = run(BridgeView::initial(check_exit_status), events).2;
        assert(ds.drop_last() =~= run(BridgeView::initial(check_exit_status), events.drop_last()).2);
    }
}

} // verus!
