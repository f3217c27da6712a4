//! Routing of sample batches: build the record lines once per batch, then
//! attempt each line, in order, on the destination's writer.

use vstd::prelude::*;
use crate::record::SampleBatch;
use crate::record::build_lines;
use crate::record::lines_of;
use crate::record::opt_chars;
use crate::sink::MetricSink;
use crate::sink::SinkWriter;

verus! {

/// `s` is a subsequence of `l`: what remains of `l` after deleting zero
/// or more elements, order kept.
pub open spec fn subseq_of<T>(s: Seq<T>, l: Seq<T>) -> bool
    decreases s.len() + l.len(),
{
    if s.len() == 0 {
        true
    } else if l.len() == 0 {
        false
    } else {
        (s.last() == l.last() && subseq_of(s.drop_last(), l.drop_last())) || subseq_of(
            s,
            l.drop_last(),
        )
    }
}

/// Nothing but whole lines: every element of a subsequence of the record
/// lines is itself one of the record lines.  Hence whatever a dispatch
/// appends to a sink is a complete record line of the batch — never a
/// torn, interleaved or invented one.
pub proof fn lemma_subseq_elements<T>(s: Seq<T>, l: Seq<T>)
    requires
        subseq_of(s, l),
    ensures
        forall|i: int| 0 <= i < s.len() ==> l.contains(#[trigger] s[i]),
    decreases s.len() + l.len(),
{
    if s.len() == 0 {
    } else if l.len() == 0 {
    } else if s.last() == l.last() && subseq_of(s.drop_last(), l.drop_last()) {
        lemma_subseq_elements(s.drop_last(), l.drop_last());
        assert forall|i: int| 0 <= i < s.len() implies l.contains(#[trigger] s[i]) by {
            if i < s.len() - 1 {
                assert(l.drop_last().contains(s.drop_last()[i]));
                let j = choose|j: int|
                    0 <= j < l.drop_last().len() && l.drop_last()[j] == s.drop_last()[i];
                assert(l[j] == s[i]);
            } else {
                assert(l[l.len() - 1] == s[i]);
            }
        }
    } else {
        lemma_subseq_elements(s, l.drop_last());
        assert forall|i: int| 0 <= i < s.len() implies l.contains(#[trigger] s[i]) by {
            assert(l.drop_last().contains(s[i]));
            let j = choose|j: int| 0 <= j < l.drop_last().len() && l.drop_last()[j] == s[i];
            assert(l[j] == s[i]);
        }
    }
}

/// One configured destination: an optional identifier prefix and the
/// writer that owns the destination's exclusive output channel.
pub struct Router<S> {
    pub prefix: Option<String>,
    pub writer: SinkWriter<S>,
}

/// What one dispatch of `batch` guarantees of a destination: the prefix
/// and the sink's health are unchanged, everything delivered before is
/// still there, and what was appended is a subsequence of the batch's
/// record lines — each one whole, in order, none invented — and all of
/// them when the sink is reliable.
pub open spec fn dispatched<S: MetricSink>(
    pre: Router<S>,
    post: Router<S>,
    batch: SampleBatch,
) -> bool {
    &&& post.prefix == pre.prefix
    &&& post.writer.sink.reliable() == pre.writer.sink.reliable()
    &&& exists|sent: Seq<Seq<char>>|
        {
            &&& post.writer.sink.delivered() == pre.writer.sink.delivered() + sent
            &&& subseq_of(sent, lines_of(batch, opt_chars(pre.prefix)))
        }
    &&& pre.writer.sink.reliable() ==> post.writer.sink.delivered() == pre.writer.sink.delivered()
        + lines_of(batch, opt_chars(pre.prefix))
}

/// A dispatch only ever adds to a sink, and everything it adds is a
/// complete record line of the dispatched batch: concurrent batches may
/// interleave at line granularity, but no line is ever torn or invented.
pub proof fn lemma_dispatch_only_whole_lines<S: MetricSink>(
    pre: Router<S>,
    post: Router<S>,
    batch: SampleBatch,
)
    requires
        dispatched(pre, post, batch),
    ensures
        pre.writer.sink.delivered().len() <= post.writer.sink.delivered().len(),
        pre.writer.sink.delivered() == post.writer.sink.delivered().take(
            pre.writer.sink.delivered().len() as int,
        ),
        forall|i: int|
            pre.writer.sink.delivered().len() <= i < post.writer.sink.delivered().len()
                ==> lines_of(batch, opt_chars(pre.prefix)).contains(
                #[trigger] post.writer.sink.delivered()[i],
            ),
{
    let before = pre.writer.sink.delivered();
    let after = post.writer.sink.delivered();
    let lines = lines_of(batch, opt_chars(pre.prefix));
    let sent = choose|sent: Seq<Seq<char>>|
        {
            &&& after == before + sent
            &&& subseq_of(sent, lines)
        };
    lemma_subseq_elements(sent, lines);
    assert(before =~= after.take(before.len() as int));
    assert forall|i: int| before.len() <= i < after.len() implies lines.contains(
        #[trigger] after[i],
    ) by {
        assert(after[i] == sent[i - before.len()]);
    }
}

impl<S: MetricSink> Router<S> {
    /// Pair a destination prefix with a writer over its sink.
    pub fn new(prefix: Option<String>, sink: S) -> (r: Router<S>)
        ensures
            r.prefix == prefix,
            r.writer.sink == sink,
    {
        Router { prefix, writer: SinkWriter::new(sink) }
    }

    /// Build one line per value of the batch and attempt each, in order,
    /// on this destination.  A failed write loses only its own line:
    /// later values are still attempted.
    pub fn write_values(&mut self, batch: &SampleBatch)
        ensures
            dispatched(*old(self), *final(self), *batch),
    {
        let ghost pre_prefix = self.prefix;
        let ghost pre_reliable = self.writer.sink.reliable();
        let ghost base = self.writer.sink.delivered();
        let lines = build_lines(batch, &self.prefix);
        let ghost all = lines_of(*batch, opt_chars(pre_prefix));
        proof {
            assert(subseq_of(Seq::<Seq<char>>::empty(), all.take(0)));
            assert(base + Seq::<Seq<char>>::empty() =~= base);
        }
        let mut i: usize = 0;
        while i < lines.len()
            invariant
                i <= lines.len(),
                lines@.map_values(|s: String| s@) == all,
                self.prefix == pre_prefix,
                self.writer.sink.reliable() == pre_reliable,
                exists|sent: Seq<Seq<char>>|
                    {
                        &&& self.writer.sink.delivered() == base + sent
                        &&& subseq_of(sent, all.take(i as int))
                    },
                pre_reliable ==> self.writer.sink.delivered() == base + all.take(i as int),
            decreases lines.len() - i,
        {
            let ghost prevd = self.writer.sink.delivered();
            let ghost sent_prev = choose|sent: Seq<Seq<char>>|
                {
                    &&& prevd == base + sent
                    &&& subseq_of(sent, all.take(i as int))
                };
            self.writer.write_line(lines[i].as_str());
            proof {
                let lv = all[i as int];
                assert(lines@.map_values(|s: String| s@)[i as int] == lv);
                assert(all.take(i as int + 1).drop_last() =~= all.take(i as int));
                assert(all.take(i as int + 1).last() == lv);
                if self.writer.sink.delivered() == prevd.push(lv) {
                    let sent_new = sent_prev.push(lv);
                    assert(self.writer.sink.delivered() =~= base + sent_new);
                    assert(sent_new.drop_last() =~= sent_prev);
                    assert(subseq_of(sent_new, all.take(i as int + 1)));
                } else {
                    assert(self.writer.sink.delivered() == base + sent_prev);
                    assert(subseq_of(sent_prev, all.take(i as int + 1)));
                }
                if pre_reliable {
                    assert(self.writer.sink.delivered() =~= base + all.take(i as int + 1));
                }
            }
            i = i + 1;
        }
        proof {
            assert(all.take(lines@.len() as int) =~= all);
        }
    }
}

/// Hand one batch to every configured destination in turn.  Destinations
/// are independent: a write failure at one never prevents the delivery
/// attempt at another.
pub fn dispatch_batch<S: MetricSink>(routers: &mut Vec<Router<S>>, batch: &SampleBatch)
    ensures
        final(routers)@.len() == old(routers)@.len(),
        forall|k: int|
            0 <= k < old(routers)@.len() ==> dispatched(
                old(routers)@[k],
                #[trigger] final(routers)@[k],
                *batch,
            ),
{
    let ghost orig = routers@;
    let mut done: Vec<Router<S>> = Vec::new();
    while routers.len() > 0
        invariant
            done@.len() + routers@.len() == orig.len(),
            forall|k: int|
                0 <= k < done@.len() ==> dispatched(orig[k], #[trigger] done@[k], *batch),
            forall|k: int|
                0 <= k < routers@.len() ==> #[trigger] routers@[k] == orig[done@.len() + k],
        decreases routers@.len(),
    {
        let mut r = routers.remove(0);
        r.write_values(batch);
        done.push(r);
    }
    *routers = done;
}

} // verus!
