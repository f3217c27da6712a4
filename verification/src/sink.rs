//! Delivery of finished record lines to one exclusive output channel.

use vstd::prelude::*;

verus! {

/// The error a sink reports for one failed write.  Such failures are
/// transient: the writer swallows them and later lines are still
/// attempted.
#[derive(Debug, Clone, Copy, PartialEq, Eq, Structural)]
pub struct SinkError;

/// One output destination for finished record lines.  The dispatch logic
/// is generic over this capability so that test doubles and real network
/// streams interchange.  `delivered` is the sequence of complete lines
/// the sink has accepted; `reliable` marks sinks whose writes cannot
/// fail.
pub trait MetricSink: Sized {
    /// The complete lines accepted so far, in order of acceptance.  The
    /// default says a sink of which nothing is known delivered nothing;
    /// verified sinks override it.
    open spec fn delivered(&self) -> Seq<Seq<char>> {
        Seq::empty()
    }

    /// Whether writes on this sink always succeed; unknown sinks are
    /// conservatively unreliable.
    open spec fn reliable(&self) -> bool {
        false
    }

    /// Write one line.  On success exactly that whole line is appended to
    /// the delivered sequence; on failure the delivered sequence is
    /// unchanged.  A line is never torn or interleaved.
    fn send_line(&mut self, line: &str) -> (r: Result<(), SinkError>)
        ensures
            match r {
                Ok(()) => final(self).delivered() == old(self).delivered().push(line@),
                Err(_) => final(self).delivered() == old(self).delivered(),
            },
            final(self).reliable() == old(self).reliable(),
            old(self).reliable() ==> r is Ok,
    ;
}

/// An in-memory sink that records every line and never fails.
pub struct MemSink {
    pub lines: Vec<String>,
}

impl MemSink {
    /// An empty in-memory sink.
    pub fn new() -> (r: MemSink)
        ensures
            r.delivered() == Seq::<Seq<char>>::empty(),
            r.reliable(),
    {
        let r = MemSink { lines: Vec::new() };
        proof {
            assert(r.delivered() =~= Seq::<Seq<char>>::empty());
        }
        r
    }
}

impl MetricSink for MemSink {
    open spec fn delivered(&self) -> Seq<Seq<char>> {
        self.lines@.map_values(|s: String| s@)
    }

    open spec fn reliable(&self) -> bool {
        true
    }

    fn send_line(&mut self, line: &str) -> (r: Result<(), SinkError>) {
        self.lines.push(line.to_owned());
        proof {
            assert(self.lines@.map_values(|s: String| s@) =~= old(self).lines@.map_values(
                |s: String| s@,
            ).push(line@));
        }
        Ok(())
    }
}

/// A sink double whose health is scripted: while `healthy` it records
/// lines like `MemSink`; otherwise every write fails and nothing is
/// recorded.
pub struct FaultySink {
    pub healthy: bool,
    pub lines: Vec<String>,
}

impl FaultySink {
    /// An empty scripted sink in the given state of health.
    pub fn new(healthy: bool) -> (r: FaultySink)
        ensures
            r.delivered() == Seq::<Seq<char>>::empty(),
            r.reliable() == healthy,
    {
        let r = FaultySink { healthy, lines: Vec::new() };
        proof {
            assert(r.delivered() =~= Seq::<Seq<char>>::empty());
        }
        r
    }
}

impl MetricSink for FaultySink {
    open spec fn delivered(&self) -> Seq<Seq<char>> {
        self.lines@.map_values(|s: String| s@)
    }

    open spec fn reliable(&self) -> bool {
        self.healthy
    }

    fn send_line(&mut self, line: &str) -> (r: Result<(), SinkError>) {
        if self.healthy {
            self.lines.push(line.to_owned());
            proof {
                assert(self.lines@.map_values(|s: String| s@) =~= old(self).lines@.map_values(
                    |s: String| s@,
                ).push(line@));
            }
            Ok(())
        } else {
            Err(SinkError)
        }
    }
}

/// Owns one exclusive, non-concurrent-safe sink.  Exclusive access is
/// Rust ownership itself: whoever holds the writer mutably is the only
/// writer, so writes are fully serialized and no line is torn.
pub struct SinkWriter<S> {
    pub sink: S,
}

impl<S: MetricSink> SinkWriter<S> {
    /// Take ownership of a sink.
    pub fn new(sink: S) -> (r: SinkWriter<S>)
        ensures
            r.sink == sink,
    {
        SinkWriter { sink }
    }

    /// Attempt a single write of the line.  Either the whole line is
    /// delivered, or on a transient failure nothing is: the error is not
    /// propagated and not retried, so the caller proceeds to its next
    /// line.  A reliable sink always delivers.
    pub fn write_line(&mut self, line: &str)
        ensures
            final(self).sink.delivered() == old(self).sink.delivered().push(line@)
                || final(self).sink.delivered() == old(self).sink.delivered(),
            final(self).sink.reliable() == old(self).sink.reliable(),
            old(self).sink.reliable() ==> final(self).sink.delivered() == old(
                self,
            ).sink.delivered().push(line@),
    {
        match self.sink.send_line(line) {
            Ok(()) => {},
            Err(_) => {},
        }
    }
}

} // verus!
