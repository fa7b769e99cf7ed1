use vstd::prelude::*;

verus! {

/// The line feed byte.
pub const LF: u8 = 10;

/// The carriage return byte.
pub const CR: u8 = 13;

/// The space byte.
pub const SPACE: u8 = 32;

/// The field name that marks a data line: `data:`.
pub open spec fn data_prefix() -> Seq<u8> {
    seq![100u8, 97u8, 116u8, 97u8, 58u8]
}

/// The stream `s` with its line breaks made uniform: each carriage return
/// becomes a line feed, and a line feed right after a carriage return is
/// dropped, so that CRLF, CR and LF each end one line. `after_cr` says whether
/// the byte before `s` was a carriage return.
pub open spec fn normalize(s: Seq<u8>, after_cr: bool) -> Seq<u8>
    decreases s.len(),
{
    if s.len() == 0 {
        Seq::empty()
    } else {
        let before = normalize(s.drop_last(), after_cr);
        let b = s.last();
        if b == LF && ends_with_cr(s.drop_last(), after_cr) {
            before
        } else if b == CR {
            before.push(LF)
        } else {
            before.push(b)
        }
    }
}

/// Whether the last byte seen, after `s`, is a carriage return.
pub open spec fn ends_with_cr(s: Seq<u8>, after_cr: bool) -> bool {
    if s.len() == 0 {
        after_cr
    } else {
        s.last() == CR
    }
}

/// A double line break starts at `i` in `s`.
pub open spec fn delim_at(s: Seq<u8>, i: int) -> bool {
    0 <= i && i + 1 < s.len() && s[i] == LF && s[i + 1] == LF
}

/// Splits `s` into complete frames, scanning from `i` with the current frame
/// starting at `start`. A frame ends at a double line break, which is not part
/// of any frame. Returns the complete frames and where the unfinished rest starts.
pub open spec fn split_frames(s: Seq<u8>, start: int, i: int) -> (Seq<Seq<u8>>, int)
    decreases s.len() - i,
{
    if i < 0 || i + 1 >= s.len() {
        (Seq::empty(), start)
    } else if delim_at(s, i) {
        let rest = split_frames(s, i + 2, i + 2);
        (seq![s.subrange(start, i)] + rest.0, rest.1)
    } else {
        split_frames(s, start, i + 1)
    }
}

/// The complete frames in `s`.
pub open spec fn frames_of(s: Seq<u8>) -> Seq<Seq<u8>> {
    split_frames(s, 0, 0).0
}

/// What is left of `s` after its complete frames: the start of the next frame.
pub open spec fn remainder_of(s: Seq<u8>) -> Seq<u8> {
    s.subrange(split_frames(s, 0, 0).1, s.len() as int)
}

/// The payload of one line, if it is a data line: what follows `data:`,
/// without one leading space.
pub open spec fn line_data(line: Seq<u8>) -> Option<Seq<u8>> {
    if line.len() >= 5 && line.subrange(0, 5) == data_prefix() {
        let v = line.subrange(5, line.len() as int);
        if v.len() > 0 && v[0] == SPACE {
            Some(v.subrange(1, v.len() as int))
        } else {
            Some(v)
        }
    } else {
        None
    }
}

/// The payload of the first data line of `f` at or after the line that starts at
/// `ls`, scanning from `i`.
pub open spec fn first_data_from(f: Seq<u8>, ls: int, i: int) -> Option<Seq<u8>>
    decreases f.len() - i,
{
    if i < 0 || i >= f.len() {
        line_data(f.subrange(ls, f.len() as int))
    } else if f[i] == LF {
        match line_data(f.subrange(ls, i)) {
            Some(p) => Some(p),
            None => first_data_from(f, i + 1, i + 1),
        }
    } else {
        first_data_from(f, ls, i + 1)
    }
}

/// The payload of a frame: that of its first data line, if it has one.
pub open spec fn frame_data(f: Seq<u8>) -> Option<Seq<u8>> {
    first_data_from(f, 0, 0)
}

/// The payloads of a sequence of frames, in order; frames without a data line
/// give none.
pub open spec fn payloads(fs: Seq<Seq<u8>>) -> Seq<Seq<u8>>
    decreases fs.len(),
{
    if fs.len() == 0 {
        Seq::empty()
    } else {
        let before = payloads(fs.drop_last());
        match frame_data(fs.last()) {
            Some(p) => before.push(p),
            None => before,
        }
    }
}

/// A frame that has no double line break inside and does not end in a line
/// feed, so that it ends exactly where the next double line break starts.
pub open spec fn plain_frame(f: Seq<u8>) -> bool {
    &&& forall|k: int| !delim_at(f, k)
    &&& (f.len() == 0 || f.last() != LF)
}

proof fn lemma_scan_to_delim(s: Seq<u8>, start: int, i: int, j: int)
    requires
        0 <= start <= i <= j,
        delim_at(s, j),
        forall|k: int| i <= k < j ==> !delim_at(s, k),
    ensures
        split_frames(s, start, i) == (seq![s.subrange(start, j)] + split_frames(s, j + 2, j + 2).0,
            split_frames(s, j + 2, j + 2).1),
    decreases j - i,
{
    if i < j {
        lemma_scan_to_delim(s, start, i + 1, j);
    }
}

proof fn lemma_scan_to_end(s: Seq<u8>, start: int, i: int)
    requires
        0 <= i,
        forall|k: int| i <= k ==> !delim_at(s, k),
    ensures
        split_frames(s, start, i) == (Seq::<Seq<u8>>::empty(), start),
    decreases s.len() - i,
{
    if i + 1 < s.len() {
        lemma_scan_to_end(s, start, i + 1);
    }
}

/// Two frames that come in one chunk, each closed by a double line break, are
/// parsed as two frames, nothing is left buffered, and each frame with a data
/// line gives its own payload.
pub proof fn lemma_two_frames_in_one_chunk(f1: Seq<u8>, f2: Seq<u8>)
    requires
        plain_frame(f1),
        plain_frame(f2),
    ensures
        frames_of(f1 + seq![LF, LF] + f2 + seq![LF, LF]) == seq![f1, f2],
        remainder_of(f1 + seq![LF, LF] + f2 + seq![LF, LF]) == Seq::<u8>::empty(),
        frame_data(f1) is Some && frame_data(f2) is Some ==> payloads(
            frames_of(f1 + seq![LF, LF] + f2 + seq![LF, LF]),
        ) == seq![frame_data(f1)->0, frame_data(f2)->0],
{
    let s = f1 + seq![LF, LF] + f2 + seq![LF, LF];
    let a = f1.len() as int;
    let b = a + 2 + f2.len();
    assert(s.len() == b + 2);
    assert(delim_at(s, a));
    assert(delim_at(s, b));
    assert forall|k: int| 0 <= k < a implies !delim_at(s, k) by {
        assert(s[k] == f1[k]);
        if k + 1 < a {
            assert(s[k + 1] == f1[k + 1]);
            assert(!delim_at(f1, k));
        } else {
            assert(f1.last() == f1[k]);
        }
    }
    assert forall|k: int| a + 2 <= k < b implies !delim_at(s, k) by {
        assert(s[k] == f2[k - a - 2]);
        if k + 1 < b {
            assert(s[k + 1] == f2[k + 1 - a - 2]);
            assert(!delim_at(f2, k - a - 2));
        } else {
            assert(f2.last() == f2[k - a - 2]);
        }
    }
    lemma_scan_to_delim(s, 0, 0, a);
    lemma_scan_to_delim(s, a + 2, a + 2, b);
    lemma_scan_to_end(s, b + 2, b + 2);
    assert(s.subrange(0, a) =~= f1);
    assert(s.subrange(a + 2, b) =~= f2);
    assert(frames_of(s) =~= seq![f1, f2]);
    assert(remainder_of(s) =~= Seq::<u8>::empty());
    let fs = seq![f1, f2];
    assert(fs.drop_last() =~= seq![f1]);
    assert(seq![f1].drop_last() =~= Seq::<Seq<u8>>::empty());
    if frame_data(f1) is Some && frame_data(f2) is Some {
        assert(seq![f1].last() == f1);
        assert(payloads(Seq::<Seq<u8>>::empty()) == Seq::<Seq<u8>>::empty());
        assert(payloads(seq![f1]) =~= seq![frame_data(f1)->0]);
        assert(fs.last() == f2);
        assert(payloads(fs) =~= seq![frame_data(f1)->0, frame_data(f2)->0]);
    }
}

/// The views of a vector of byte vectors.
pub open spec fn views(v: Seq<Vec<u8>>) -> Seq<Seq<u8>> {
    v.map_values(|b: Vec<u8>| b@)
}

/// The bytes `v[from..to]` in a new vector.
fn copy_range(v: &Vec<u8>, from: usize, to: usize) -> (r: Vec<u8>)
    requires
        from <= to <= v@.len(),
    ensures
        r@ == v@.subrange(from as int, to as int),
{
    let mut r: Vec<u8> = Vec::new();
    let mut k: usize = from;
    while k < to
        invariant
            from <= k <= to <= v@.len(),
            r@ == v@.subrange(from as int, k as int),
        decreases to - k,
    {
        r.push(v[k]);
        assert(r@ =~= v@.subrange(from as int, k + 1));
        k = k + 1;
    }
    r
}

/// The payload of one line `v[from..to]`, if it is a data line.
fn line_payload(v: &Vec<u8>, from: usize, to: usize) -> (r: Option<Vec<u8>>)
    requires
        from <= to <= v@.len(),
    ensures
        r matches Some(p) ==> line_data(v@.subrange(from as int, to as int)) == Some(p@),
        r is None ==> line_data(v@.subrange(from as int, to as int)) is None,
{
    let ghost line = v@.subrange(from as int, to as int);
    if to - from < 5 {
        return None;
    }
    let is_data = v[from] == 100u8 && v[from + 1] == 97u8 && v[from + 2] == 116u8 && v[from
        + 3] == 97u8 && v[from + 4] == 58u8;
    if !is_data {
        assert(line.subrange(0, 5)[0] == line[0]);
        assert(line.subrange(0, 5)[1] == line[1]);
        assert(line.subrange(0, 5)[2] == line[2]);
        assert(line.subrange(0, 5)[3] == line[3]);
        assert(line.subrange(0, 5)[4] == line[4]);
        assert(line.subrange(0, 5) != data_prefix()) by {
            if line.subrange(0, 5) == data_prefix() {
                assert(data_prefix()[0] == 100u8);
            }
        }
        return None;
    }
    assert(line.subrange(0, 5) =~= data_prefix());
    let ghost rest = line.subrange(5, line.len() as int);
    if from + 5 < to && v[from + 5] == SPACE {
        let p = copy_range(v, from + 6, to);
        assert(p@ =~= rest.subrange(1, rest.len() as int));
        Some(p)
    } else {
        let p = copy_range(v, from + 5, to);
        assert(p@ =~= rest);
        Some(p)
    }
}

/// The payload of the frame `v[from..to]`: that of its first data line.
fn frame_payload(v: &Vec<u8>, from: usize, to: usize) -> (r: Option<Vec<u8>>)
    requires
        from <= to <= v@.len(),
    ensures
        r matches Some(p) ==> frame_data(v@.subrange(from as int, to as int)) == Some(p@),
        r is None ==> frame_data(v@.subrange(from as int, to as int)) is None,
{
    let ghost f = v@.subrange(from as int, to as int);
    let mut ls: usize = from;
    let mut i: usize = from;
    while i < to
        invariant
            from <= ls <= i <= to <= v@.len(),
            f == v@.subrange(from as int, to as int),
            frame_data(f) == first_data_from(f, ls - from, i - from),
        decreases to - i,
    {
        if v[i] == LF {
            let got = line_payload(v, ls, i);
            assert(f.subrange(ls - from, i - from) =~= v@.subrange(ls as int, i as int));
            if got.is_some() {
                return got;
            }
            ls = i + 1;
        }
        i = i + 1;
    }
    assert(f.subrange(ls - from, f.len() as int) =~= v@.subrange(ls as int, to as int));
    line_payload(v, ls, to)
}

/// An incremental parser of a server-sent-event stream. It buffers what has come
/// in and not yet formed a complete frame, with line breaks made uniform.
pub struct SseParser {
    pub buffer: Vec<u8>,
    /// The last byte taken in was a carriage return, so a line feed that comes
    /// next belongs to the same line break.
    pub after_cr: bool,
}

impl SseParser {
    /// A parser for a fresh connection, with nothing buffered.
    pub fn new() -> (r: SseParser)
        ensures
            r.buffer@ == Seq::<u8>::empty(),
            !r.after_cr,
    {
        SseParser { buffer: Vec::new(), after_cr: false }
    }

    /// Takes the next chunk of the stream and returns the payloads of the frames
    /// that it completes, in order; keeps the start of the next frame buffered.
    /// CRLF, CR and LF each end a line, also where a CRLF is split between chunks.
    pub fn feed(&mut self, chunk: &[u8]) -> (r: Vec<Vec<u8>>)
        requires
            old(self).buffer@.len() + chunk@.len() <= usize::MAX,
        ensures
            views(r@) == payloads(
                frames_of(old(self).buffer@ + normalize(chunk@, old(self).after_cr)),
            ),
            final(self).buffer@ == remainder_of(
                old(self).buffer@ + normalize(chunk@, old(self).after_cr),
            ),
            final(self).after_cr == ends_with_cr(chunk@, old(self).after_cr),
    {
        let ghost all = self.buffer@ + normalize(chunk@, self.after_cr);
        let ghost cr0 = self.after_cr;
        let mut j: usize = 0;
        while j < chunk.len()
            invariant
                j <= chunk@.len(),
                self.buffer@ == old(self).buffer@ + normalize(chunk@.subrange(0, j as int), cr0),
                self.after_cr == ends_with_cr(chunk@.subrange(0, j as int), cr0),
                self.buffer@.len() <= old(self).buffer@.len() + j,
                old(self).buffer@.len() + chunk@.len() <= usize::MAX,
            decreases chunk@.len() - j,
        {
            let b = chunk[j];
            let ghost pre = chunk@.subrange(0, j as int);
            let ghost cur = chunk@.subrange(0, j + 1);
            assert(cur.drop_last() =~= pre);
            assert(cur.last() == b);
            if b == LF && self.after_cr {
            } else if b == CR {
                self.buffer.push(LF);
            } else {
                self.buffer.push(b);
            }
            assert(self.buffer@ =~= old(self).buffer@ + normalize(cur, cr0));
            self.after_cr = b == CR;
            j = j + 1;
        }
        assert(chunk@.subrange(0, chunk@.len() as int) =~= chunk@);
        let n = self.buffer.len();
        let mut out: Vec<Vec<u8>> = Vec::new();
        let ghost mut done: Seq<Seq<u8>> = Seq::empty();
        let mut start: usize = 0;
        let mut i: usize = 0;
        while n - i >= 2
            invariant
                self.buffer@ == all,
                n == all.len(),
                start <= i <= n,
                split_frames(all, 0, 0) == (done + split_frames(all, start as int, i as int).0,
                    split_frames(all, start as int, i as int).1),
                views(out@) == payloads(done),
            decreases n - i,
        {
            if self.buffer[i] == LF && self.buffer[i + 1] == LF {
                let got = frame_payload(&self.buffer, start, i);
                let ghost f = all.subrange(start as int, i as int);
                assert(payloads(done.push(f)) == match frame_data(f) {
                    Some(p) => payloads(done).push(p),
                    None => payloads(done),
                }) by {
                    assert(done.push(f).drop_last() =~= done);
                }
                match got {
                    Some(p) => {
                        out.push(p);
                        assert(views(out@) =~= payloads(done).push(frame_data(f)->0));
                    },
                    None => {},
                }
                assert(done + split_frames(all, start as int, i as int).0 =~= done.push(f)
                    + split_frames(all, i + 2, i + 2).0);
                proof {
                    done = done.push(f);
                }
                start = i + 2;
                i = i + 2;
            } else {
                i = i + 1;
            }
        }
        self.buffer = copy_range(&self.buffer, start, n);
        assert(done + Seq::<Seq<u8>>::empty() =~= done);
        out
    }
}

} // verus!
