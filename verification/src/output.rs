//! Framing of child-process output into logical lines, detection of the
//! high-demand marker across read chunks, and the bounded output tail.
use crate::text::{copy_range, join, join_chars, owned, push_str, split_whitespace, split_ws, str_chars, string_from_chars};
use vstd::prelude::*;
use vstd::utf8::{decode_utf8, encode_utf8, is_char_boundary, valid_utf8};
use vstd::string::StringSliceAdditionalSpecFns;

verus! {

/// Largest logical line, in bytes; longer lines are split into
/// continuation fragments.
pub const MAX_LOGICAL_LINE_BYTES: usize = 262144;

/// A logical line (or a fragment of an oversized one).
#[derive(Debug, Clone, PartialEq, Eq)]
pub struct FramedLine {
    pub bytes: Vec<u8>,
    pub continuation: bool,
}

/// Model of a [`FramedLine`].
pub struct FramedSpec {
    pub bytes: Seq<u8>,
    pub continuation: bool,
}

impl View for FramedLine {
    type V = FramedSpec;

    open spec fn view(&self) -> FramedSpec {
        FramedSpec { bytes: self.bytes@, continuation: self.continuation }
    }
}

/// Model of a sequence of framed lines.
pub open spec fn framed_view(v: Seq<FramedLine>) -> Seq<FramedSpec> {
    v.map_values(|l: FramedLine| l@)
}

/// Appending `bytes` to the pending line: whenever a byte arrives while the
/// pending line is full, the full line is emitted as a continuation fragment.
/// Returns the emitted fragments and the new pending line.
pub open spec fn extend_spec(pending: Seq<u8>, bytes: Seq<u8>) -> (Seq<FramedSpec>, Seq<u8>)
    decreases bytes.len(), pending.len(),
{
    if pending.len() > MAX_LOGICAL_LINE_BYTES {
        (seq![], pending)
    } else {
        let avail = MAX_LOGICAL_LINE_BYTES - pending.len();
        if bytes.len() <= avail {
            (seq![], pending + bytes)
        } else {
            let r = extend_spec(seq![], bytes.skip(avail));
            (seq![FramedSpec { bytes: pending + bytes.take(avail), continuation: true }] + r.0, r.1)
        }
    }
}

/// Index of the first byte `b` in `s`.
pub open spec fn first_byte_index(s: Seq<u8>, b: u8) -> Option<int>
    decreases s.len(),
{
    if s.len() == 0 {
        None
    } else if s[0] == b {
        Some(0)
    } else {
        match first_byte_index(s.drop_first(), b) {
            Some(i) => Some(i + 1),
            None => None,
        }
    }
}

/// The segment before a newline and the pending line, after dropping one
/// carriage return that precedes the newline (in this segment, or at the end
/// of the pending line when the segment is empty).
pub open spec fn strip_cr(pending: Seq<u8>, seg: Seq<u8>) -> (Seq<u8>, Seq<u8>) {
    if seg.len() > 0 && seg.last() == 13u8 {
        (seg.drop_last(), pending)
    } else if seg.len() == 0 && pending.len() > 0 && pending.last() == 13u8 {
        (seg, pending.drop_last())
    } else {
        (seg, pending)
    }
}

/// Framing one read chunk: every newline completes the pending line (CRLF
/// and LF both end a line), oversized lines are split into continuation
/// fragments. Returns the emitted lines and the new pending line.
pub open spec fn push_spec(pending: Seq<u8>, input: Seq<u8>) -> (Seq<FramedSpec>, Seq<u8>)
    decreases input.len(),
{
    match first_byte_index(input, 10u8) {
        None => extend_spec(pending, input),
        Some(nl) => {
            if 0 <= nl < input.len() {
                let (seg, p) = strip_cr(pending, input.take(nl));
                let e = extend_spec(p, seg);
                let r = push_spec(seq![], input.skip(nl + 1));
                (e.0.push(FramedSpec { bytes: e.1, continuation: false }) + r.0, r.1)
            } else {
                (seq![], pending)
            }
        },
    }
}

proof fn lemma_first_byte_index(s: Seq<u8>, b: u8, i: int)
    requires
        0 <= i <= s.len(),
        forall|k: int| 0 <= k < i ==> s[k] != b,
    ensures
        i < s.len() && s[i] == b ==> first_byte_index(s, b) == Some(i),
        i == s.len() ==> first_byte_index(s, b) is None,
    decreases i,
{
    if i > 0 {
        let t = s.drop_first();
        assert forall|k: int| 0 <= k < i - 1 implies t[k] != b by {
            assert(t[k] == s[k + 1]);
        }
        lemma_first_byte_index(t, b, i - 1);
        if i < s.len() {
            assert(t[i - 1] == s[i]);
        }
    }
}

proof fn lemma_extend_bounds(pending: Seq<u8>, bytes: Seq<u8>)
    requires
        pending.len() <= MAX_LOGICAL_LINE_BYTES,
    ensures
        extend_spec(pending, bytes).1.len() <= MAX_LOGICAL_LINE_BYTES,
        forall|k: int|
            0 <= k < extend_spec(pending, bytes).0.len() ==> (#[trigger] extend_spec(
                pending,
                bytes,
            ).0[k]).bytes.len() == MAX_LOGICAL_LINE_BYTES && extend_spec(pending, bytes).0[k].continuation,
    decreases bytes.len(), pending.len(),
{
    let avail = MAX_LOGICAL_LINE_BYTES - pending.len();
    if bytes.len() > avail {
        lemma_extend_bounds(seq![], bytes.skip(avail));
        let r = extend_spec(seq![], bytes.skip(avail));
        let head = FramedSpec { bytes: pending + bytes.take(avail), continuation: true };
        assert forall|k: int| 0 <= k < extend_spec(pending, bytes).0.len() implies (
        #[trigger] extend_spec(pending, bytes).0[k]).bytes.len() == MAX_LOGICAL_LINE_BYTES
            && extend_spec(pending, bytes).0[k].continuation by {
            if k > 0 {
                assert(extend_spec(pending, bytes).0[k] == r.0[k - 1]);
            }
        }
    }
}

/// Splits a byte stream into logical lines; holds the unfinished line.
pub struct LineFramer {
    pending: Vec<u8>,
}

impl LineFramer {
    /// The unfinished line.
    pub closed spec fn pending_view(&self) -> Seq<u8> {
        self.pending@
    }

    /// The unfinished line never exceeds [`MAX_LOGICAL_LINE_BYTES`].
    pub closed spec fn wf(&self) -> bool {
        self.pending@.len() <= MAX_LOGICAL_LINE_BYTES
    }

    /// A framer with nothing pending (std's `Default`).
    pub fn default() -> (f: LineFramer)
        ensures
            f.wf(),
            f.pending_view() == Seq::<u8>::empty(),
    {
        LineFramer { pending: Vec::new() }
    }

    fn take_pending(&mut self) -> (line: Vec<u8>)
        ensures
            line@ == old(self).pending@,
            final(self).pending@ == Seq::<u8>::empty(),
    {
        let mut line: Vec<u8> = Vec::new();
        std::mem::swap(&mut line, &mut self.pending);
        line
    }

    /// Appends `input[from..to]` to the pending line, emitting a continuation
    /// fragment whenever a byte arrives while the pending line is full.
    fn extend_bounded(&mut self, input: &[u8], from: usize, to: usize, framed: &mut Vec<FramedLine>)
        requires
            old(self).wf(),
            from <= to <= input@.len(),
        ensures
            final(self).wf(),
            framed_view(final(framed)@) == framed_view(old(framed)@) + extend_spec(
                old(self).pending@,
                input@.subrange(from as int, to as int),
            ).0,
            final(self).pending@ == extend_spec(
                old(self).pending@,
                input@.subrange(from as int, to as int),
            ).1,
    {
        let ghost total = extend_spec(self.pending@, input@.subrange(from as int, to as int));
        let ghost start = framed_view(framed@);
        let mut i = from;
        loop
            invariant_except_break
                from <= i <= to <= input@.len(),
                self.wf(),
                framed_view(framed@) + extend_spec(self.pending@, input@.subrange(i as int, to as int)).0
                    == start + total.0,
                extend_spec(self.pending@, input@.subrange(i as int, to as int)).1 == total.1,
            ensures
                self.wf(),
                framed_view(framed@) == start + total.0,
                self.pending@ == total.1,
            decreases to - i, self.pending@.len(),
        {
            let avail = MAX_LOGICAL_LINE_BYTES - self.pending.len();
            let ghost rest = input@.subrange(i as int, to as int);
            if to - i <= avail {
                let ghost p0 = self.pending@;
                let mut k = i;
                while k < to
                    invariant
                        i <= k <= to <= input@.len(),
                        self.pending@ == p0 + input@.subrange(i as int, k as int),
                    decreases to - k,
                {
                    self.pending.push(input[k]);
                    k = k + 1;
                    assert(self.pending@ =~= p0 + input@.subrange(i as int, k as int));
                }
                assert(framed_view(framed@) + seq![] =~= framed_view(framed@));
                break;
            }
            let ghost p0 = self.pending@;
            let mut k = i;
            while k < i + avail
                invariant
                    i <= k <= i + avail < to <= input@.len(),
                    self.pending@ == p0 + input@.subrange(i as int, k as int),
                decreases i + avail - k,
            {
                self.pending.push(input[k]);
                k = k + 1;
                assert(self.pending@ =~= p0 + input@.subrange(i as int, k as int));
            }
            let line = self.take_pending();
            let ghost before = framed@;
            framed.push(FramedLine { bytes: line, continuation: true });
            proof {
                assert(rest.take(avail as int) =~= input@.subrange(i as int, i + avail));
                assert(rest.skip(avail as int) =~= input@.subrange(i + avail, to as int));
                let r = extend_spec(seq![], rest.skip(avail as int));
                assert(extend_spec(p0, rest).0 == seq![
                    FramedSpec { bytes: p0 + rest.take(avail as int), continuation: true },
                ] + r.0);
                assert(framed_view(framed@) =~= framed_view(before).push(
                    FramedSpec { bytes: p0 + rest.take(avail as int), continuation: true },
                ));
                assert(framed_view(framed@) + r.0 =~= framed_view(before) + extend_spec(p0, rest).0);
            }
            i = i + avail;
        }
    }

    /// Frames one chunk of output and returns the lines it completed.
    pub fn push(&mut self, bytes: &[u8]) -> (framed: Vec<FramedLine>)
        requires
            old(self).wf(),
        ensures
            final(self).wf(),
            framed_view(framed@) == push_spec(old(self).pending_view(), bytes@).0,
            final(self).pending_view() == push_spec(old(self).pending_view(), bytes@).1,
    {
        let ghost total = push_spec(self.pending@, bytes@);
        let mut framed: Vec<FramedLine> = Vec::new();
        let mut start: usize = 0;
        assert(bytes@.skip(0) =~= bytes@);
        loop
            invariant_except_break
                start <= bytes@.len(),
                self.wf(),
                framed_view(framed@) + push_spec(self.pending@, bytes@.skip(start as int)).0
                    == total.0,
                push_spec(self.pending@, bytes@.skip(start as int)).1 == total.1,
            ensures
                self.wf(),
                framed_view(framed@) == total.0,
                self.pending@ == total.1,
            decreases bytes@.len() - start,
        {
            let ghost rest = bytes@.skip(start as int);
            let mut j = start;
            while j < bytes.len() && bytes[j] != 10u8
                invariant
                    start <= j <= bytes@.len(),
                    forall|k: int| start <= k < j ==> bytes@[k] != 10u8,
                decreases bytes@.len() - j,
            {
                j = j + 1;
            }
            proof {
                assert forall|k: int| 0 <= k < j - start implies rest[k] != 10u8 by {
                    assert(rest[k] == bytes@[start + k]);
                }
                if j < bytes.len() {
                    assert(rest[j - start] == bytes@[j as int]);
                }
                lemma_first_byte_index(rest, 10u8, j - start);
            }
            if j == bytes.len() {
                let ghost before = framed_view(framed@);
                self.extend_bounded(bytes, start, j, &mut framed);
                assert(bytes@.subrange(start as int, j as int) =~= rest);
                break;
            }
            let ghost p0 = self.pending@;
            let ghost seg = rest.take(j - start);
            assert(seg =~= bytes@.subrange(start as int, j as int));
            let mut seg_end = j;
            if j > start && bytes[j - 1] == 13u8 {
                seg_end = j - 1;
                assert(seg.last() == bytes@[j - 1]);
                assert(seg.drop_last() =~= bytes@.subrange(start as int, seg_end as int));
            } else if j == start && self.pending.len() > 0 && self.pending[self.pending.len() - 1]
                == 13u8 {
                self.pending.pop();
                assert(self.pending@ =~= p0.drop_last());
            }
            proof {
                let (s2, pp) = strip_cr(p0, seg);
                assert(s2 =~= bytes@.subrange(start as int, seg_end as int));
                assert(pp == self.pending@);
            }
            let ghost before = framed_view(framed@);
            let ghost e = extend_spec(self.pending@, bytes@.subrange(start as int, seg_end as int));
            self.extend_bounded(bytes, start, seg_end, &mut framed);
            let line = self.take_pending();
            let ghost mid = framed@;
            framed.push(FramedLine { bytes: line, continuation: false });
            proof {
                assert(framed_view(framed@) =~= framed_view(mid).push(
                    FramedSpec { bytes: e.1, continuation: false },
                ));
                assert(rest.skip(j - start + 1) =~= bytes@.skip(j + 1));
                let r = push_spec(seq![], rest.skip(j - start + 1));
                assert(push_spec(p0, rest).0 == e.0.push(FramedSpec { bytes: e.1, continuation: false })
                    + r.0);
                assert(framed_view(framed@) + r.0 =~= before + push_spec(p0, rest).0);
            }
            start = j + 1;
        }
        framed
    }

    /// The unfinished line, if any, as a final line.
    pub fn finish(&mut self) -> (r: Option<FramedLine>)
        requires
            old(self).wf(),
        ensures
            final(self).wf(),
            final(self).pending_view() == Seq::<u8>::empty(),
            old(self).pending_view().len() == 0 ==> r is None,
            old(self).pending_view().len() > 0 ==> r == Some(
                FramedLine { bytes: r->Some_0.bytes, continuation: false },
            ) && r->Some_0.bytes@ == old(self).pending_view(),
    {
        if self.pending.len() == 0 {
            None
        } else {
            let line = self.take_pending();
            Some(FramedLine { bytes: line, continuation: false })
        }
    }
}

} // verus!

verus! {

// ---------------------------------------------------------------------------
// High-demand marker detection.
// ---------------------------------------------------------------------------

/// The message the command prints when the service is overloaded.
pub const HIGH_DEMAND_MSG: &'static str = "We're currently experiencing high demand, which may cause temporary errors.";

/// The bytes of [`HIGH_DEMAND_MSG`].
pub open spec fn marker_bytes() -> Seq<u8> {
    vstd::utf8::encode_utf8(HIGH_DEMAND_MSG@)
}

/// Whether `m` occurs in `s` at position `i`.
pub open spec fn bytes_occur_at(s: Seq<u8>, m: Seq<u8>, i: int) -> bool {
    0 <= i && i + m.len() <= s.len() && s.subrange(i, i + m.len()) == m
}

/// Whether `m` occurs anywhere in `s`.
pub open spec fn contains_bytes(s: Seq<u8>, m: Seq<u8>) -> bool {
    exists|i: int| bytes_occur_at(s, m, i)
}

/// The last `min(n, s.len())` bytes of `s`.
pub open spec fn last_bytes(s: Seq<u8>, n: nat) -> Seq<u8> {
    if s.len() <= n {
        s
    } else {
        s.skip(s.len() - n)
    }
}

proof fn lemma_marker_len()
    ensures
        marker_bytes().len() == 75,
{
    reveal_strlit("We're currently experiencing high demand, which may cause temporary errors.");
    let cs = HIGH_DEMAND_MSG@;
    assert(cs =~= "We're currently experiencing high demand, which may cause temporary errors."@);
    assert(cs.len() == 75);
    assert(vstd::utf8::is_ascii_chars(cs));
    vstd::utf8::is_ascii_chars_encode_utf8(cs);
}

/// Finds the high-demand marker in a byte stream that arrives in chunks.
pub struct ByteMarkerScanner {
    suffix: Vec<u8>,
    found: bool,
    seen: Ghost<Seq<u8>>,
}

impl ByteMarkerScanner {
    /// Whether the marker has been seen.
    pub closed spec fn found_flag(&self) -> bool {
        self.found
    }

    /// Whether the marker occurs in the stream pushed so far.
    pub fn found(&self) -> (r: bool)
        requires
            self.wf(),
        ensures
            r == self.found_flag(),
            r == contains_bytes(self.seen(), marker_bytes()),
    {
        self.found
    }

    /// All bytes pushed so far.
    pub closed spec fn seen(&self) -> Seq<u8> {
        self.seen@
    }

    /// `found` tells whether the marker occurs in everything pushed so far,
    /// and the kept suffix is the stream's tail one byte shorter than the
    /// marker.
    pub closed spec fn wf(&self) -> bool {
        &&& self.found == contains_bytes(self.seen@, marker_bytes())
        &&& !self.found ==> self.suffix@ == last_bytes(
            self.seen@,
            (marker_bytes().len() - 1) as nat,
        )
    }

    /// A scanner that has seen nothing (std's `Default`).
    pub fn default() -> (s: ByteMarkerScanner)
        ensures
            s.wf(),
            s.seen() == Seq::<u8>::empty(),
            !s.found_flag(),
            !contains_bytes(s.seen(), marker_bytes()),
    {
        proof {
            lemma_marker_len();
            assert forall|i: int| !bytes_occur_at(Seq::<u8>::empty(), marker_bytes(), i) by {}
        }
        ByteMarkerScanner { suffix: Vec::new(), found: false, seen: Ghost(Seq::empty()) }
    }

    /// Scans one chunk. `found` then tells whether the marker occurs in the
    /// concatenation of every chunk pushed so far, however it was split.
    pub fn push(&mut self, bytes: &[u8])
        requires
            old(self).wf(),
        ensures
            final(self).wf(),
            final(self).seen() == old(self).seen() + bytes@,
            final(self).found_flag() == contains_bytes(old(self).seen() + bytes@, marker_bytes()),
    {
        proof {
            lemma_marker_len();
        }
        let ghost seen0 = self.seen@;
        let ghost total = seen0 + bytes@;
        if self.found {
            self.seen = Ghost(total);
            proof {
                let i = choose|i: int| bytes_occur_at(seen0, marker_bytes(), i);
                assert(total.subrange(i, i + 75) =~= seen0.subrange(i, i + 75));
                assert(bytes_occur_at(total, marker_bytes(), i));
            }
            return;
        }
        let marker: &[u8] = HIGH_DEMAND_MSG.as_bytes();
        let m = marker.len();
        let mut window: Vec<u8> = Vec::new();
        let mut k: usize = 0;
        while k < self.suffix.len()
            invariant
                k <= self.suffix.len(),
                window@ == self.suffix@.take(k as int),
            decreases self.suffix.len() - k,
        {
            window.push(self.suffix[k]);
            k = k + 1;
            assert(window@ =~= self.suffix@.take(k as int));
        }
        let mut k: usize = 0;
        while k < bytes.len()
            invariant
                k <= bytes.len(),
                window@ == self.suffix@ + bytes@.take(k as int),
            decreases bytes.len() - k,
        {
            window.push(bytes[k]);
            k = k + 1;
            assert(window@ =~= self.suffix@ + bytes@.take(k as int));
        }
        assert(bytes@.take(bytes.len() as int) =~= bytes@);
        let ghost w = window@;
        let ghost offset = seen0.len() - self.suffix@.len();
        assert(w =~= total.skip(offset)) by {
            if seen0.len() > 74 {
                assert(self.suffix@ =~= seen0.skip(seen0.len() - 74));
            } else {
                assert(self.suffix@ =~= seen0);
            }
        }
        let mut found = false;
        if window.len() >= m {
            let last = window.len() - m;
            let mut i: usize = 0;
            while i <= last && !found
                invariant
                    m == 75,
                    marker@ == marker_bytes(),
                    marker@.len() == m,
                    last + m == window.len(),
                    i <= last + 1,
                    !found ==> forall|j: int| 0 <= j < i ==> !bytes_occur_at(w, marker_bytes(), j),
                    found ==> contains_bytes(w, marker_bytes()),
                    w == window@,
                decreases last + 1 - i + (if found { 0int } else { 1int }),
            {
                let mut same = true;
                let mut t: usize = 0;
                while t < m
                    invariant
                        m == 75,
                        marker@.len() == m,
                        i + m <= window.len(),
                        marker@ == marker_bytes(),
                        t <= m,
                        same == (forall|q: int| 0 <= q < t ==> window@[i + q] == marker@[q]),
                    decreases m - t,
                {
                    if window[i + t] != marker[t] {
                        same = false;
                    }
                    t = t + 1;
                }
                if same {
                    assert(w.subrange(i as int, i + 75) =~= marker_bytes());
                    assert(bytes_occur_at(w, marker_bytes(), i as int));
                    found = true;
                } else {
                    proof {
                        let q = choose|q: int| 0 <= q < 75 && window@[i + q] != marker@[q];
                        assert(w.subrange(i as int, i + 75)[q] != marker_bytes()[q]);
                        assert(!(w.subrange(i as int, i + 75) =~= marker_bytes()));
                    }
                    i = i + 1;
                }
            }
        } else {
            assert forall|j: int| !bytes_occur_at(w, marker_bytes(), j) by {}
        }
        proof {
            // An occurrence in the whole stream lies within the window: the
            // stream before the window does not hold the marker.
            if found {
                let j = choose|j: int| bytes_occur_at(w, marker_bytes(), j);
                assert(total.subrange(j + offset, j + offset + 75) =~= w.subrange(j, j + 75));
                assert(bytes_occur_at(total, marker_bytes(), j + offset));
            } else {
                assert forall|j: int| !bytes_occur_at(total, marker_bytes(), j) by {
                    if bytes_occur_at(total, marker_bytes(), j) {
                        if j + 75 <= seen0.len() {
                            assert(seen0.subrange(j, j + 75) =~= total.subrange(j, j + 75));
                            assert(bytes_occur_at(seen0, marker_bytes(), j));
                        } else {
                            assert(j >= offset);
                            assert(w.subrange(j - offset, j - offset + 75) =~= total.subrange(
                                j,
                                j + 75,
                            ));
                            assert(bytes_occur_at(w, marker_bytes(), j - offset));
                        }
                    }
                }
            }
        }
        let keep = if window.len() < m - 1 {
            window.len()
        } else {
            m - 1
        };
        let mut suffix: Vec<u8> = Vec::new();
        let mut k = window.len() - keep;
        while k < window.len()
            invariant
                keep <= window.len(),
                window.len() - keep <= k <= window.len(),
                suffix@ == window@.subrange(window.len() - keep, k as int),
            decreases window.len() - k,
        {
            suffix.push(window[k]);
            k = k + 1;
            assert(suffix@ =~= window@.subrange(window.len() - keep, k as int));
        }
        proof {
            if !found {
                if total.len() > 74 {
                    assert(suffix@ =~= total.skip(total.len() - 74));
                } else {
                    assert(suffix@ =~= total);
                }
            }
        }
        self.suffix = suffix;
        self.found = found;
        self.seen = Ghost(total);
    }
}

} // verus!

verus! {

// ---------------------------------------------------------------------------
// Snippets and the bounded output tail.
// ---------------------------------------------------------------------------

/// The words of `text` joined by single spaces, cut to `max_len` characters
/// with `...` appended when longer.
pub open spec fn snippet_spec(text: Seq<char>, max_len: nat) -> Seq<char> {
    let clean = join(split_ws(text), " "@);
    if clean.len() <= max_len {
        clean
    } else {
        clean.take(max_len as int) + "..."@
    }
}

/// [`snippet_spec`] of a character vector.
pub fn snippet_chars(text: &Vec<char>, max_len: usize) -> (r: String)
    ensures
        r@ == snippet_spec(text@, max_len as nat),
{
    let words = split_whitespace(text);
    let clean = join_chars(&words, " ");
    if clean.len() <= max_len {
        string_from_chars(&clean)
    } else {
        let mut cut = copy_range(&clean, 0, max_len);
        push_str(&mut cut, "...");
        assert(cut@ =~= clean@.take(max_len as int) + "..."@);
        string_from_chars(&cut)
    }
}

/// Collapses whitespace runs (line breaks included) into single spaces and
/// bounds the result to `max_len` characters plus an ellipsis.
pub fn get_snippet(text: &str, max_len: usize) -> (r: String)
    ensures
        r@ == snippet_spec(text@, max_len as nat),
{
    let v = str_chars(text);
    snippet_chars(&v, max_len)
}

/// A snippet has at most `max_len` characters plus the three-character
/// ellipsis.
pub proof fn lemma_snippet_bounded(text: Seq<char>, max_len: nat)
    ensures
        snippet_spec(text, max_len).len() <= max_len + 3,
{
    reveal_strlit("...");
}

/// Largest character boundary of `value` at or before `index` (clamped to
/// the byte length).
pub fn floor_char_boundary(value: &str, index: usize) -> (r: usize)
    ensures
        r <= index,
        r <= value.spec_bytes().len(),
        is_char_boundary(value.spec_bytes(), r as int),
        forall|j: int|
            r < j <= index && j <= value.spec_bytes().len() ==> !is_char_boundary(
                value.spec_bytes(),
                j,
            ),
{
    broadcast use vstd::utf8::group_utf8_lib;

    let len = value.as_bytes().len();
    let mut i = if index < len {
        index
    } else {
        len
    };
    while i > 0 && !value.is_char_boundary(i)
        invariant
            i <= index,
            i <= len == value.spec_bytes().len(),
            forall|j: int|
                i < j <= index && j <= value.spec_bytes().len() ==> !is_char_boundary(
                    value.spec_bytes(),
                    j,
                ),
        decreases i,
    {
        i = i - 1;
    }
    i
}

/// Bytes an output tail keeps at most.
pub const OUTPUT_TAIL_MAX_BYTES: usize = 65536;

/// Chunks an output tail keeps at most.
pub const OUTPUT_TAIL_MAX_CHUNKS: usize = 512;

/// Total UTF-8 byte length of `chunks`.
pub open spec fn total_bytes(chunks: Seq<Seq<char>>) -> nat
    decreases chunks.len(),
{
    if chunks.len() == 0 {
        0
    } else {
        total_bytes(chunks.drop_last()) + encode_utf8(chunks.last()).len()
    }
}

proof fn lemma_total_bytes_drop_first(chunks: Seq<Seq<char>>)
    requires
        chunks.len() > 0,
    ensures
        total_bytes(chunks) == encode_utf8(chunks[0]).len() + total_bytes(chunks.drop_first()),
    decreases chunks.len(),
{
    if chunks.len() > 1 {
        lemma_total_bytes_drop_first(chunks.drop_last());
        assert(chunks.drop_last().drop_first() =~= chunks.drop_first().drop_last());
        assert(chunks.drop_first().last() == chunks.last());
        assert(chunks.drop_last()[0] == chunks[0]);
    } else {
        assert(chunks.drop_first() =~= Seq::<Seq<char>>::empty());
        assert(chunks.drop_last() =~= Seq::<Seq<char>>::empty());
    }
}

/// The most recent output, bounded in bytes and in chunks.
pub struct OutputTail {
    chunks: Vec<String>,
    bytes: usize,
    pushed: Ghost<Seq<Seq<char>>>,
}

impl OutputTail {
    /// The kept chunks.
    pub closed spec fn chunks_view(&self) -> Seq<Seq<char>> {
        self.chunks.deep_view()
    }

    /// Every text the tail has taken in, oldest first, as it was kept.
    pub closed spec fn pushed(&self) -> Seq<Seq<char>> {
        self.pushed@
    }

    /// The byte counter matches the chunks, which stay within both bounds
    /// and are the most recent of the texts taken in.
    pub closed spec fn wf(&self) -> bool {
        &&& self.bytes == total_bytes(self.chunks.deep_view())
        &&& self.bytes <= OUTPUT_TAIL_MAX_BYTES
        &&& self.chunks.len() <= OUTPUT_TAIL_MAX_CHUNKS
        &&& is_recent_suffix(self.chunks.deep_view(), self.pushed@)
    }

    /// An empty tail (std's `Default`).
    pub fn default() -> (t: OutputTail)
        ensures
            t.wf(),
            t.chunks_view() == Seq::<Seq<char>>::empty(),
            t.pushed() == Seq::<Seq<char>>::empty(),
    {
        let t = OutputTail { chunks: Vec::new(), bytes: 0, pushed: Ghost(Seq::empty()) };
        assert(t.chunks.deep_view() =~= Seq::<Seq<char>>::empty());
        assert(t.pushed@.skip(0) =~= t.pushed@);
        t
    }

    /// Bytes currently kept.
    pub fn byte_len(&self) -> (r: usize)
        requires
            self.wf(),
        ensures
            r == total_bytes(self.chunks_view()),
            r <= OUTPUT_TAIL_MAX_BYTES,
            is_recent_suffix(self.chunks_view(), self.pushed()),
    {
        self.bytes
    }

    /// Chunks currently kept.
    pub fn chunk_count(&self) -> (r: usize)
        requires
            self.wf(),
        ensures
            r == self.chunks_view().len(),
            r <= OUTPUT_TAIL_MAX_CHUNKS,
    {
        self.chunks.len()
    }

    /// Appends `text` (its last 64 KiB when longer, cut forward to a
    /// character boundary) and then drops the oldest chunks until both
    /// bounds hold again, and no more. The kept chunks are always the most
    /// recent ones.
    pub fn push(&mut self, text: &str)
        requires
            old(self).wf(),
        ensures
            final(self).wf(),
            final(self).pushed() == tail_taken_in(old(self).pushed(), text@),
            text@.len() == 0 ==> final(self).chunks_view() == old(self).chunks_view(),
            text@.len() > 0 ==> exists|k: int|
                0 <= k <= old(self).chunks_view().len() + 1 && final(self).chunks_view() == old(
                    self,
                ).chunks_view().push(tail_kept_text(text@)).skip(k) && forall|j: int|
                    0 <= j < k ==> !tail_within_bounds(
                        #[trigger] old(self).chunks_view().push(tail_kept_text(text@)).skip(j),
                    ),
    {
        broadcast use vstd::utf8::group_utf8_lib;

        if text.is_empty() {
            return;
        }
        let len = text.as_bytes().len();
        let owned: String = if len > OUTPUT_TAIL_MAX_BYTES {
            let start = floor_char_boundary(text, len - OUTPUT_TAIL_MAX_BYTES);
            proof {
                lemma_floor_boundary_spec(
                    text.spec_bytes(),
                    (len - OUTPUT_TAIL_MAX_BYTES) as int,
                    start as int,
                );
                let near = lemma_boundary_near(
                    text.spec_bytes(),
                    (len - OUTPUT_TAIL_MAX_BYTES) as int,
                );
                assert(start + 3 >= len - OUTPUT_TAIL_MAX_BYTES);
            }
            let (_, rest) = text.split_at(start);
            let o = rest.to_owned();
            proof {
                assert(rest.spec_bytes() =~= text.spec_bytes().skip(start as int));
                assert(decode_utf8(encode_utf8(rest@)) == rest@);
            }
            o
        } else {
            owned(text)
        };
        let o_len = owned.as_str().as_bytes().len();
        assert(owned@ == tail_kept_text(text@));
        assert(o_len <= OUTPUT_TAIL_MAX_BYTES + 3);
        let ghost before = self.chunks.deep_view();
        let ghost history = before.push(owned@);
        let ghost all = self.pushed@.push(owned@);
        proof {
            lemma_recent_suffix_push(before, self.pushed@, owned@);
        }
        self.bytes = self.bytes + o_len;
        self.chunks.push(owned);
        self.pushed = Ghost(all);
        assert(self.chunks.deep_view() =~= history);
        assert(history.drop_last() =~= before);
        assert(history.skip(0) =~= history);
        let ghost mut k: int = 0;
        while self.bytes > OUTPUT_TAIL_MAX_BYTES || self.chunks.len() > OUTPUT_TAIL_MAX_CHUNKS
            invariant
                self.bytes == total_bytes(self.chunks.deep_view()),
                0 <= k <= history.len(),
                self.chunks.deep_view() == history.skip(k),
                self.pushed@ == all,
                is_recent_suffix(self.chunks.deep_view(), all),
                self.chunks.len() <= OUTPUT_TAIL_MAX_CHUNKS + 1,
                self.bytes <= 3 * OUTPUT_TAIL_MAX_BYTES,
                forall|j: int| 0 <= j < k ==> !tail_within_bounds(#[trigger] history.skip(j)),
            decreases self.chunks.len(),
        {
            let ghost dv = self.chunks.deep_view();
            proof {
                if self.chunks.len() == 0 {
                    assert(dv =~= Seq::<Seq<char>>::empty());
                }
                lemma_total_bytes_drop_first(dv);
                assert(!tail_within_bounds(history.skip(k)));
            }
            let removed = self.chunks.remove(0);
            let r_len = removed.as_str().as_bytes().len();
            assert(self.chunks.deep_view() =~= dv.drop_first());
            assert(dv.drop_first() =~= history.skip(k + 1));
            proof {
                lemma_recent_suffix_drop(dv, all);
            }
            self.bytes = self.bytes - r_len;
            proof {
                k = k + 1;
            }
        }
        assert(history =~= old(self).chunks_view().push(tail_kept_text(text@)));
        assert(self.chunks_view() == history.skip(k));
    }

    /// A one-line preview of the kept output.
    pub fn preview(&self) -> (r: String)
        ensures
            r@ == snippet_spec(flatten_chars(self.chunks_view()), 280),
    {
        let ghost dv = self.chunks.deep_view();
        let mut all: Vec<char> = Vec::new();
        let mut i: usize = 0;
        while i < self.chunks.len()
            invariant
                i <= self.chunks.len(),
                dv == self.chunks.deep_view(),
                all@ == flatten_chars(dv.take(i as int)),
            decreases self.chunks.len() - i,
        {
            assert(dv.take(i + 1).drop_last() =~= dv.take(i as int));
            push_str(&mut all, self.chunks[i].as_str());
            i = i + 1;
        }
        assert(dv.take(self.chunks.len() as int) =~= dv);
        snippet_chars(&all, 280)
    }
}

/// Whether kept chunks are within both bounds of an output tail.
pub open spec fn tail_within_bounds(chunks: Seq<Seq<char>>) -> bool {
    total_bytes(chunks) <= OUTPUT_TAIL_MAX_BYTES && chunks.len() <= OUTPUT_TAIL_MAX_CHUNKS
}

/// `chunks` are the last `chunks.len()` entries of `all`.
pub open spec fn is_recent_suffix(chunks: Seq<Seq<char>>, all: Seq<Seq<char>>) -> bool {
    chunks.len() <= all.len() && chunks == all.skip(all.len() - chunks.len())
}

/// The texts a tail has taken in after one more push: an empty text is
/// ignored, any other is recorded as kept.
pub open spec fn tail_taken_in(all: Seq<Seq<char>>, text: Seq<char>) -> Seq<Seq<char>> {
    if text.len() == 0 {
        all
    } else {
        all.push(tail_kept_text(text))
    }
}

proof fn lemma_recent_suffix_push(chunks: Seq<Seq<char>>, all: Seq<Seq<char>>, x: Seq<char>)
    requires
        is_recent_suffix(chunks, all),
    ensures
        is_recent_suffix(chunks.push(x), all.push(x)),
{
    assert(chunks.push(x) =~= all.push(x).skip(all.push(x).len() - chunks.push(x).len()));
}

proof fn lemma_recent_suffix_drop(chunks: Seq<Seq<char>>, all: Seq<Seq<char>>)
    requires
        is_recent_suffix(chunks, all),
        chunks.len() > 0,
    ensures
        is_recent_suffix(chunks.drop_first(), all),
{
    assert(chunks.drop_first() =~= all.skip(all.len() - chunks.drop_first().len()));
}

/// What an output tail keeps of a pushed text: the text itself, or its last
/// 64 KiB cut forward to a character boundary.
pub open spec fn tail_kept_text(text: Seq<char>) -> Seq<char> {
    let bytes = encode_utf8(text);
    if bytes.len() > OUTPUT_TAIL_MAX_BYTES {
        decode_utf8(bytes.skip(floor_boundary_spec(bytes, bytes.len() - OUTPUT_TAIL_MAX_BYTES)))
    } else {
        text
    }
}

/// Concatenation of character sequences.
pub open spec fn flatten_chars(parts: Seq<Seq<char>>) -> Seq<char>
    decreases parts.len(),
{
    if parts.len() == 0 {
        seq![]
    } else {
        flatten_chars(parts.drop_last()) + parts.last()
    }
}

/// Largest character boundary of `bytes` at or before `index`.
pub open spec fn floor_boundary_spec(bytes: Seq<u8>, index: int) -> int
    decreases index,
{
    if index <= 0 {
        0
    } else if index <= bytes.len() && is_char_boundary(bytes, index) {
        index
    } else {
        floor_boundary_spec(bytes, index - 1)
    }
}

/// In valid UTF-8, a character boundary lies at most three bytes before
/// any position.
proof fn lemma_boundary_near(b: Seq<u8>, i: int) -> (j: int)
    requires
        valid_utf8(b),
        0 <= i <= b.len(),
    ensures
        i - 3 <= j <= i,
        0 <= j,
        is_char_boundary(b, j),
    decreases b.len(),
{
    if i <= 3 {
        0
    } else {
        let l = vstd::utf8::length_of_first_scalar(b);
        let t = vstd::utf8::pop_first_scalar(b);
        assert(1 <= l <= 4);
        assert(t.len() == b.len() - l);
        let j2 = lemma_boundary_near(t, i - l);
        assert(is_char_boundary(b, j2 + l) == is_char_boundary(t, j2));
        j2 + l
    }
}

proof fn lemma_floor_boundary_spec(bytes: Seq<u8>, index: int, r: int)
    requires
        0 <= r <= index <= bytes.len(),
        is_char_boundary(bytes, r),
        forall|j: int| r < j <= index && j <= bytes.len() ==> !is_char_boundary(bytes, j),
    ensures
        floor_boundary_spec(bytes, index) == r,
    decreases index,
{
    if index > r {
        lemma_floor_boundary_spec(bytes, index - 1, r);
    }
}

} // verus!
