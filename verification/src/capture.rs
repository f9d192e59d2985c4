//! What one attempt keeps of its child's output: the high-demand verdict per
//! stream and the bounded tail of normalized text.
use crate::output::{
    contains_bytes, framed_view, marker_bytes, push_spec, tail_taken_in, ByteMarkerScanner, FramedLine,
    FramedSpec, LineFramer, OutputTail,
};
use crate::text::{decimal, owned, push_decimal, push_str, string_from_chars};
use vstd::prelude::*;

verus! {

/// Which pipe of the child a chunk came from.
#[derive(Debug, Clone, Copy, PartialEq, Eq, Structural, Hash)]
pub enum StreamSource {
    Stdout,
    Stderr,
}

impl StreamSource {
    /// The pipe's name as it appears in log records.
    pub fn label(self) -> (r: &'static str)
        ensures
            r@ == stream_label(self),
    {
        proof {
            reveal_strlit("stdout");
            reveal_strlit("stderr");
        }
        match self {
            StreamSource::Stdout => "stdout",
            StreamSource::Stderr => "stderr",
        }
    }
}

/// Name of a pipe.
pub open spec fn stream_label(s: StreamSource) -> Seq<char> {
    match s {
        StreamSource::Stdout => seq!['s', 't', 'd', 'o', 'u', 't'],
        StreamSource::Stderr => seq!['s', 't', 'd', 'e', 'r', 'r'],
    }
}

/// A decoded logical line, or a fragment of an oversized one.
#[derive(Debug)]
pub struct NormalizedFragment {
    pub text: String,
    pub continuation: bool,
}

/// The texts a tail has taken in after a run of fragments: each fragment's
/// text, then a newline unless its logical line continues.
pub open spec fn fragments_taken_in(
    all: Seq<Seq<char>>,
    fs: Seq<NormalizedFragment>,
) -> Seq<Seq<char>>
    decreases fs.len(),
{
    if fs.len() == 0 {
        all
    } else {
        let f = fs.last();
        let with_text = tail_taken_in(fragments_taken_in(all, fs.drop_last()), f.text@);
        if f.continuation {
            with_text
        } else {
            tail_taken_in(with_text, seq!['\n'])
        }
    }
}

/// What one attempt learned from its output.
pub struct AttemptCapture {
    pub tail: OutputTail,
    pub stdout_scanner: ByteMarkerScanner,
    pub stderr_scanner: ByteMarkerScanner,
    pub high_demand: bool,
}

impl AttemptCapture {
    /// Every part is well formed, and `high_demand` tells whether either
    /// stream has shown the marker.
    pub open spec fn wf(&self) -> bool {
        &&& self.tail.wf()
        &&& self.stdout_scanner.wf()
        &&& self.stderr_scanner.wf()
        &&& self.high_demand == (contains_bytes(self.stdout_scanner.seen(), marker_bytes())
            || contains_bytes(self.stderr_scanner.seen(), marker_bytes()))
    }

    /// Nothing captured yet (std's `Default`).
    pub fn default() -> (c: AttemptCapture)
        ensures
            c.wf(),
            !c.high_demand,
            c.stdout_scanner.seen() == Seq::<u8>::empty(),
            c.stderr_scanner.seen() == Seq::<u8>::empty(),
            c.tail.chunks_view() == Seq::<Seq<char>>::empty(),
            c.tail.pushed() == Seq::<Seq<char>>::empty(),
    {
        AttemptCapture {
            tail: OutputTail::default(),
            stdout_scanner: ByteMarkerScanner::default(),
            stderr_scanner: ByteMarkerScanner::default(),
            high_demand: false,
        }
    }

    /// Feeds raw bytes of one stream to that stream's scanner; the verdict
    /// covers everything either stream produced so far.
    pub fn push_raw(&mut self, source: StreamSource, bytes: &[u8])
        requires
            old(self).wf(),
        ensures
            final(self).wf(),
            final(self).tail == old(self).tail,
            source == StreamSource::Stdout ==> final(self).stdout_scanner.seen() == old(
                self,
            ).stdout_scanner.seen() + bytes@ && final(self).stderr_scanner.seen() == old(
                self,
            ).stderr_scanner.seen(),
            source == StreamSource::Stderr ==> final(self).stderr_scanner.seen() == old(
                self,
            ).stderr_scanner.seen() + bytes@ && final(self).stdout_scanner.seen() == old(
                self,
            ).stdout_scanner.seen(),
            final(self).high_demand == (contains_bytes(
                final(self).stdout_scanner.seen(),
                marker_bytes(),
            ) || contains_bytes(final(self).stderr_scanner.seen(), marker_bytes())),
    {
        match source {
            StreamSource::Stdout => self.stdout_scanner.push(bytes),
            StreamSource::Stderr => self.stderr_scanner.push(bytes),
        }
        self.high_demand = self.stdout_scanner.found() || self.stderr_scanner.found();
    }

    /// Appends each fragment's text to the tail, with a newline after each
    /// fragment that ends its logical line.
    pub fn push_normalized(&mut self, fragments: &[NormalizedFragment])
        requires
            old(self).wf(),
        ensures
            final(self).wf(),
            final(self).stdout_scanner == old(self).stdout_scanner,
            final(self).stderr_scanner == old(self).stderr_scanner,
            final(self).high_demand == old(self).high_demand,
            final(self).tail.pushed() == fragments_taken_in(old(self).tail.pushed(), fragments@),
    {
        let mut i: usize = 0;
        while i < fragments.len()
            invariant
                i <= fragments.len(),
                self.wf(),
                self.stdout_scanner == old(self).stdout_scanner,
                self.stderr_scanner == old(self).stderr_scanner,
                self.high_demand == old(self).high_demand,
                self.tail.pushed() == fragments_taken_in(
                    old(self).tail.pushed(),
                    fragments@.take(i as int),
                ),
            decreases fragments.len() - i,
        {
            let ghost prev = self.tail.pushed();
            assert(fragments@.take(i + 1).drop_last() =~= fragments@.take(i as int));
            assert(fragments@.take(i + 1).last() == fragments@[i as int]);
            self.tail.push(fragments[i].text.as_str());
            assert(self.tail.pushed() == tail_taken_in(prev, fragments@[i as int].text@));
            if !fragments[i].continuation {
                let newline = "\n";
                proof {
                    reveal_strlit("\n");
                }
                assert(newline@ =~= seq!['\n']);
                self.tail.push(newline);
            }
            assert(self.tail.pushed() == fragments_taken_in(
                old(self).tail.pushed(),
                fragments@.take(i + 1),
            ));
            i = i + 1;
        }
        assert(fragments@.take(fragments.len() as int) =~= fragments@);
    }
}

} // verus!

verus! {

// ---------------------------------------------------------------------------
// Framing per worker and stream, and the records of the run log.
// ---------------------------------------------------------------------------

/// The line framers of a run: one per (worker, stream) pair, so that the
/// half lines of concurrent workers never mix.
pub struct OutputFramers {
    keys: Vec<(usize, StreamSource)>,
    framers: Vec<LineFramer>,
}

impl OutputFramers {
    /// One framer per key, each well formed.
    pub closed spec fn wf(&self) -> bool {
        &&& self.keys@.len() == self.framers@.len()
        &&& forall|i: int| 0 <= i < self.framers@.len() ==> (#[trigger] self.framers@[i]).wf()
        &&& forall|i: int, j: int|
            0 <= i < j < self.keys@.len() ==> self.keys@[i] != self.keys@[j]
    }

    /// The unfinished line of one stream of one worker (empty before its
    /// first byte).
    pub closed spec fn pending(&self, worker_id: usize, source: StreamSource) -> Seq<u8> {
        if exists|i: int| 0 <= i < self.keys@.len() && self.keys@[i] == (worker_id, source) {
            let i = choose|i: int| 0 <= i < self.keys@.len() && self.keys@[i] == (worker_id, source);
            self.framers@[i].pending_view()
        } else {
            Seq::<u8>::empty()
        }
    }

    /// No output seen yet.
    pub fn new() -> (f: OutputFramers)
        ensures
            f.wf(),
            forall|w: usize, s: StreamSource| #[trigger] f.pending(w, s) == Seq::<u8>::empty(),
    {
        OutputFramers { keys: Vec::new(), framers: Vec::new() }
    }

    fn index_of(&self, worker_id: usize, source: StreamSource) -> (r: Option<usize>)
        requires
            self.wf(),
        ensures
            match r {
                Some(i) => i < self.keys@.len() && self.keys@[i as int] == (worker_id, source),
                None => forall|i: int|
                    0 <= i < self.keys@.len() ==> self.keys@[i] != (worker_id, source),
            },
    {
        let mut i: usize = 0;
        while i < self.keys.len()
            invariant
                i <= self.keys@.len(),
                forall|j: int| 0 <= j < i ==> self.keys@[j] != (worker_id, source),
            decreases self.keys@.len() - i,
        {
            let (w, s) = self.keys[i];
            if w == worker_id && s == source {
                return Some(i);
            }
            i = i + 1;
        }
        None
    }

    /// The index of the framer of (`worker_id`, `source`), added when the
    /// pair has none yet.
    fn slot(&mut self, worker_id: usize, source: StreamSource) -> (i: usize)
        requires
            old(self).wf(),
        ensures
            final(self).wf(),
            i < final(self).keys@.len(),
            final(self).keys@[i as int] == (worker_id, source),
            final(self).framers@[i as int].pending_view() == old(self).pending(worker_id, source),
            forall|w: usize, s: StreamSource| #[trigger] final(self).pending(w, s) == old(self).pending(w, s),
            forall|j: int| 0 <= j < old(self).keys@.len() ==> final(self).keys@[j] == old(self).keys@[j]
                && final(self).framers@[j] == old(self).framers@[j],
    {
        match self.index_of(worker_id, source) {
            Some(i) => i,
            None => {
                let ghost before = *self;
                self.keys.push((worker_id, source));
                self.framers.push(LineFramer::default());
                let i = self.keys.len() - 1;
                assert forall|w: usize, s: StreamSource| #[trigger] self.pending(w, s) == before.pending(w, s) by {
                    if exists|k: int| 0 <= k < before.keys@.len() && before.keys@[k] == (w, s) {
                        let k = choose|k: int| 0 <= k < before.keys@.len() && before.keys@[k] == (w, s);
                        assert(self.keys@[k] == (w, s));
                        let m = choose|m: int| 0 <= m < self.keys@.len() && self.keys@[m] == (w, s);
                        assert(m == k);
                    } else if (w, s) == (worker_id, source) {
                        assert(self.keys@[i as int] == (w, s));
                        let m = choose|m: int| 0 <= m < self.keys@.len() && self.keys@[m] == (w, s);
                        assert(m == i);
                    } else {
                        assert(!exists|m: int| 0 <= m < self.keys@.len() && self.keys@[m] == (w, s));
                    }
                }
                i
            },
        }
    }

    /// Frames a chunk of one stream of one worker with that pair's own
    /// framer; every other pair's unfinished line is untouched.
    pub fn push(&mut self, worker_id: usize, source: StreamSource, bytes: &[u8]) -> (framed: Vec<FramedLine>)
        requires
            old(self).wf(),
        ensures
            final(self).wf(),
            framed_view(framed@) == push_spec(old(self).pending(worker_id, source), bytes@).0,
            final(self).pending(worker_id, source) == push_spec(
                old(self).pending(worker_id, source),
                bytes@,
            ).1,
            forall|w: usize, s: StreamSource|
                (w, s) != (worker_id, source) ==> #[trigger] final(self).pending(w, s) == old(
                    self,
                ).pending(w, s),
    {
        let i = self.slot(worker_id, source);
        let ghost mid = *self;
        let mut f = self.framers.remove(i);
        let framed = f.push(bytes);
        self.framers.insert(i, f);
        proof {
            assert(self.framers@ =~= mid.framers@.update(i as int, f));
            self.lemma_pending_after_update(mid, i as int);
        }
        framed
    }

    /// Ends one stream of one worker: its unfinished line, if any, as the
    /// last line.
    pub fn finish(&mut self, worker_id: usize, source: StreamSource) -> (framed: Vec<FramedLine>)
        requires
            old(self).wf(),
        ensures
            final(self).wf(),
            old(self).pending(worker_id, source).len() == 0 ==> framed@.len() == 0,
            old(self).pending(worker_id, source).len() > 0 ==> framed@.len() == 1
                && framed@[0]@ == (FramedSpec {
                bytes: old(self).pending(worker_id, source),
                continuation: false,
            }),
            final(self).pending(worker_id, source) == Seq::<u8>::empty(),
            forall|w: usize, s: StreamSource|
                (w, s) != (worker_id, source) ==> #[trigger] final(self).pending(w, s) == old(
                    self,
                ).pending(w, s),
    {
        let i = self.slot(worker_id, source);
        let ghost mid = *self;
        let mut f = self.framers.remove(i);
        let last = f.finish();
        self.framers.insert(i, f);
        proof {
            assert(self.framers@ =~= mid.framers@.update(i as int, f));
            self.lemma_pending_after_update(mid, i as int);
        }
        let mut framed: Vec<FramedLine> = Vec::new();
        match last {
            Some(line) => framed.push(line),
            None => {},
        }
        framed
    }

    proof fn lemma_pending_after_update(&self, before: OutputFramers, i: int)
        requires
            before.wf(),
            0 <= i < before.keys@.len(),
            self.keys@ == before.keys@,
            self.framers@.len() == before.framers@.len(),
            self.framers@[i].wf(),
            forall|j: int| 0 <= j < self.framers@.len() && j != i ==> self.framers@[j] == before.framers@[j],
        ensures
            self.wf(),
            self.pending(before.keys@[i].0, before.keys@[i].1) == self.framers@[i].pending_view(),
            forall|w: usize, s: StreamSource|
                (w, s) != before.keys@[i] ==> #[trigger] self.pending(w, s) == before.pending(w, s),
    {
        assert forall|k: int| 0 <= k < self.framers@.len() implies (#[trigger] self.framers@[k]).wf() by {
            if k != i {
                assert(self.framers@[k] == before.framers@[k]);
            }
        }
        let key = before.keys@[i];
        let m = choose|m: int| 0 <= m < self.keys@.len() && self.keys@[m] == (key.0, key.1);
        assert(self.keys@[i] == (key.0, key.1));
        assert(m == i);
        assert forall|w: usize, s: StreamSource| (w, s) != key implies #[trigger] self.pending(w, s) == before.pending(w, s) by {
            if exists|k: int| 0 <= k < self.keys@.len() && self.keys@[k] == (w, s) {
                let k = choose|k: int| 0 <= k < self.keys@.len() && self.keys@[k] == (w, s);
                assert(k != i);
            }
        }
    }
}

/// Marker appended to a record whose logical line continues in the next one.
pub open spec fn continuation_marker() -> Seq<char> {
    " … [logical line continues]"@
}

/// The worker tag of a record: `"[wN] "` when the run labels its workers
/// (a concurrent run), else nothing.
pub open spec fn worker_prefix_spec(worker_id: Option<usize>, label_workers: bool) -> Seq<char> {
    match worker_id {
        Some(id) => if label_workers {
            "[w"@ + decimal(id as nat) + "] "@
        } else {
            Seq::<char>::empty()
        },
        None => Seq::<char>::empty(),
    }
}

fn push_worker_prefix(out: &mut Vec<char>, worker_id: Option<usize>, label_workers: bool)
    ensures
        final(out)@ == old(out)@ + worker_prefix_spec(worker_id, label_workers),
{
    match worker_id {
        Some(id) => {
            if label_workers {
                push_str(out, "[w");
                push_decimal(out, id as u64);
                push_str(out, "] ");
            }
        },
        None => {},
    }
    assert(out@ =~= old(out)@ + worker_prefix_spec(worker_id, label_workers));
}

/// A record of the launcher itself: `"[time] [wN] [launcher] message\n"`.
pub open spec fn system_record_spec(
    timestamp: Seq<char>,
    worker_id: Option<usize>,
    label_workers: bool,
    message: Seq<char>,
) -> Seq<char> {
    "["@ + timestamp + "] "@ + worker_prefix_spec(worker_id, label_workers) + "[launcher] "@
        + message + "\n"@
}

/// Formats a record of the launcher for the run log.
pub fn system_record(timestamp: &str, worker_id: Option<usize>, label_workers: bool, message: &str) -> (r: String)
    ensures
        r@ == system_record_spec(timestamp@, worker_id, label_workers, message@),
{
    let mut v: Vec<char> = Vec::new();
    push_str(&mut v, "[");
    push_str(&mut v, timestamp);
    push_str(&mut v, "] ");
    push_worker_prefix(&mut v, worker_id, label_workers);
    push_str(&mut v, "[launcher] ");
    push_str(&mut v, message);
    push_str(&mut v, "\n");
    assert(v@ =~= system_record_spec(timestamp@, worker_id, label_workers, message@));
    string_from_chars(&v)
}

/// A record of the child's output: `"[time] [wN] [stream] text\n"`, the
/// text followed by the continuation marker when its line continues.
pub open spec fn output_record_spec(
    timestamp: Seq<char>,
    worker_id: usize,
    label_workers: bool,
    source: StreamSource,
    text: Seq<char>,
    continuation: bool,
) -> Seq<char> {
    "["@ + timestamp + "] "@ + worker_prefix_spec(Some(worker_id), label_workers) + "["@
        + stream_label(source) + "] "@ + text + (if continuation {
        continuation_marker()
    } else {
        Seq::<char>::empty()
    }) + "\n"@
}

/// Formats a record of the child's output for the run log.
pub fn output_record(
    timestamp: &str,
    worker_id: usize,
    label_workers: bool,
    source: StreamSource,
    text: &str,
    continuation: bool,
) -> (r: String)
    ensures
        r@ == output_record_spec(timestamp@, worker_id, label_workers, source, text@, continuation),
{
    let mut v: Vec<char> = Vec::new();
    push_str(&mut v, "[");
    push_str(&mut v, timestamp);
    push_str(&mut v, "] ");
    push_worker_prefix(&mut v, Some(worker_id), label_workers);
    push_str(&mut v, "[");
    push_str(&mut v, source.label());
    push_str(&mut v, "] ");
    push_str(&mut v, text);
    if continuation {
        push_str(&mut v, " … [logical line continues]");
    }
    push_str(&mut v, "\n");
    assert(v@ =~= output_record_spec(timestamp@, worker_id, label_workers, source, text@, continuation));
    string_from_chars(&v)
}

} // verus!
