use vstd::prelude::*;

verus! {

/// Largest number of bytes the accumulator holds without a delimiter.
pub const MAX_ACCUMULATOR: usize = 4096;

/// Why bytes were dropped by the accumulator.
#[derive(Clone, Copy, Debug, PartialEq, Eq, Structural)]
pub enum FrameError {
    /// The buffer grew past its ceiling with no delimiter in it and was cleared.
    Overflow,
}

/// `s[i..i + 2]` is the delimiter `\r\n`.
pub open spec fn delim_at(s: Seq<u8>, i: int) -> bool {
    0 <= i && i + 1 < s.len() && s[i] == 0x0d && s[i + 1] == 0x0a
}

/// The first delimiter position at or after `i`.
pub open spec fn first_delim_from(s: Seq<u8>, i: nat) -> Option<int>
    decreases s.len() - i,
{
    if i + 1 >= s.len() {
        None
    } else if delim_at(s, i as int) {
        Some(i as int)
    } else {
        first_delim_from(s, i + 1)
    }
}

/// The position of the first delimiter in `s`, if any.
pub open spec fn first_delim(s: Seq<u8>) -> Option<int> {
    first_delim_from(s, 0)
}

/// All complete frames of `s`, oldest first, and the bytes left after the
/// last delimiter.
pub open spec fn drain_all(s: Seq<u8>) -> (Seq<Seq<u8>>, Seq<u8>)
    decreases s.len(),
{
    match first_delim(s) {
        Some(p) => if 0 <= p && p + 2 <= s.len() {
            let rest = drain_all(s.subrange(p + 2, s.len() as int));
            (seq![s.subrange(0, p)] + rest.0, rest.1)
        } else {
            (seq![], s)
        },
        None => (seq![], s),
    }
}

/// Appending `bytes` to `buf` passes the ceiling with no delimiter present.
pub open spec fn overflows(buf: Seq<u8>, bytes: Seq<u8>) -> bool {
    (buf + bytes).len() > MAX_ACCUMULATOR && first_delim(buf + bytes) is None
}

/// The buffer after feeding `bytes`: cleared on overflow, appended otherwise.
pub open spec fn after_feed(buf: Seq<u8>, bytes: Seq<u8>) -> Seq<u8> {
    if overflows(buf, bytes) {
        Seq::empty()
    } else {
        buf + bytes
    }
}

/// Frames produced, and the buffer left, when each chunk is fed in turn and
/// every complete frame is taken out after each feed.
pub open spec fn run_chunks(buf: Seq<u8>, chunks: Seq<Seq<u8>>) -> (Seq<Seq<u8>>, Seq<u8>)
    decreases chunks.len(),
{
    if chunks.len() == 0 {
        (seq![], buf)
    } else {
        let first = drain_all(after_feed(buf, chunks[0]));
        let rest = run_chunks(first.1, chunks.drop_first());
        (first.0 + rest.0, rest.1)
    }
}

proof fn lemma_first_delim_from(s: Seq<u8>, i: nat)
    ensures
        match first_delim_from(s, i) {
            Some(p) => i <= p && delim_at(s, p) && forall|j: int| i <= j < p ==> !delim_at(s, j),
            None => forall|j: int| i <= j ==> !delim_at(s, j),
        },
    decreases s.len() - i,
{
    if i + 1 >= s.len() {
    } else if delim_at(s, i as int) {
    } else {
        lemma_first_delim_from(s, i + 1);
    }
}

/// What `first_delim` returns: the least delimiter position.
pub proof fn lemma_first_delim(s: Seq<u8>)
    ensures
        match first_delim(s) {
            Some(p) => delim_at(s, p) && forall|j: int| 0 <= j < p ==> !delim_at(s, j),
            None => forall|j: int| !delim_at(s, j),
        },
{
    lemma_first_delim_from(s, 0);
}

proof fn lemma_first_delim_is(s: Seq<u8>, p: int)
    requires
        delim_at(s, p),
        forall|j: int| 0 <= j < p ==> !delim_at(s, j),
    ensures
        first_delim(s) == Some(p),
{
    lemma_first_delim(s);
    match first_delim(s) {
        Some(q) => {
            if q < p {
                assert(!delim_at(s, q));
            } else if q > p {
                assert(!delim_at(s, p));
            }
        },
        None => {
            assert(!delim_at(s, p));
        },
    }
}

proof fn lemma_first_delim_prefix(x: Seq<u8>, y: Seq<u8>)
    requires
        first_delim(x) is Some,
    ensures
        first_delim(x + y) == first_delim(x),
{
    lemma_first_delim(x);
    let p = first_delim(x)->0;
    let s = x + y;
    assert(delim_at(s, p));
    assert forall|j: int| 0 <= j < p implies !delim_at(s, j) by {
        assert(!delim_at(x, j));
    }
    lemma_first_delim_is(s, p);
}

/// Taking frames out of `x`, then out of what is left followed by `y`, gives
/// the same frames and leftover as taking them out of `x + y` at once.
pub proof fn lemma_drain_concat(x: Seq<u8>, y: Seq<u8>)
    ensures
        drain_all(x).0 + drain_all(drain_all(x).1 + y).0 == drain_all(x + y).0,
        drain_all(drain_all(x).1 + y).1 == drain_all(x + y).1,
    decreases x.len(),
{
    lemma_first_delim(x);
    match first_delim(x) {
        Some(p) => {
            lemma_first_delim_prefix(x, y);
            let xt = x.subrange(p + 2, x.len() as int);
            let s = x + y;
            assert(s.subrange(0, p) =~= x.subrange(0, p));
            assert(s.subrange(p + 2, s.len() as int) =~= xt + y);
            lemma_drain_concat(xt, y);
            let f1 = drain_all(xt).0;
            let f2 = drain_all(drain_all(xt).1 + y).0;
            assert(seq![x.subrange(0, p)] + f1 + f2 =~= seq![x.subrange(0, p)] + (f1 + f2));
        },
        None => {
            assert(drain_all(x).0 + drain_all(x + y).0 =~= drain_all(x + y).0);
        },
    }
}

proof fn lemma_drain_all_rest(s: Seq<u8>)
    ensures
        drain_all(s).1.len() <= s.len(),
        first_delim(drain_all(s).1) is None,
    decreases s.len(),
{
    lemma_first_delim(s);
    match first_delim(s) {
        Some(p) => {
            lemma_drain_all_rest(s.subrange(p + 2, s.len() as int));
        },
        None => {},
    }
}

proof fn lemma_run_chunks(buf: Seq<u8>, chunks: Seq<Seq<u8>>)
    requires
        first_delim(buf) is None,
        buf.len() + chunks.flatten().len() <= MAX_ACCUMULATOR,
    ensures
        run_chunks(buf, chunks) == drain_all(buf + chunks.flatten()),
    decreases chunks.len(),
{
    if chunks.len() == 0 {
        assert(buf + chunks.flatten() =~= buf);
        assert(run_chunks(buf, chunks).0 =~= drain_all(buf).0);
    } else {
        let c0 = chunks[0];
        let tail = chunks.drop_first();
        assert(chunks.flatten() == c0 + tail.flatten());
        assert(!overflows(buf, c0));
        assert(after_feed(buf, c0) == buf + c0);
        let first = drain_all(buf + c0);
        lemma_drain_all_rest(buf + c0);
        lemma_run_chunks(first.1, tail);
        lemma_drain_concat(buf + c0, tail.flatten());
        assert(buf + chunks.flatten() =~= (buf + c0) + tail.flatten());
    }
}

/// However the input is cut into chunks, feeding them one by one into an
/// empty accumulator and taking out every complete frame after each feed
/// yields exactly the frames of the whole input, in order, as long as the
/// ceiling is never reached.
pub proof fn lemma_chunking_invariant(chunks: Seq<Seq<u8>>)
    requires
        chunks.flatten().len() <= MAX_ACCUMULATOR,
    ensures
        run_chunks(Seq::empty(), chunks) == drain_all(chunks.flatten()),
{
    lemma_run_chunks(Seq::empty(), chunks);
    assert(Seq::<u8>::empty() + chunks.flatten() =~= chunks.flatten());
}

/// Feeding past the ceiling with no delimiter anywhere empties the buffer,
/// and the next extraction finds no frame.
pub proof fn lemma_overflow_resets(buf: Seq<u8>, bytes: Seq<u8>)
    requires
        (buf + bytes).len() > MAX_ACCUMULATOR,
        forall|j: int| !delim_at(buf + bytes, j),
    ensures
        overflows(buf, bytes),
        after_feed(buf, bytes).len() == 0,
        first_delim(after_feed(buf, bytes)) is None,
        drain_all(after_feed(buf, bytes)).0.len() == 0,
{
    lemma_first_delim(buf + bytes);
}

/// A byte buffer that collects transport bytes and hands out the
/// `\r\n`-terminated frames in it.
pub struct FrameAccumulator {
    buf: Vec<u8>,
}

impl View for FrameAccumulator {
    type V = Seq<u8>;

    closed spec fn view(&self) -> Seq<u8> {
        self.buf@
    }
}

fn find_delimiter(buf: &Vec<u8>) -> (r: Option<usize>)
    ensures
        match r {
            Some(p) => first_delim(buf@) == Some(p as int) && p + 2 <= buf@.len(),
            None => first_delim(buf@) is None,
        },
{
    let mut i: usize = 0;
    while buf.len() > 1 && i < buf.len() - 1
        invariant
            i <= buf@.len(),
            first_delim(buf@) == first_delim_from(buf@, i as nat),
        decreases buf@.len() - i,
    {
        if buf[i] == 0x0d && buf[i + 1] == 0x0a {
            return Some(i);
        }
        i += 1;
    }
    None
}

impl FrameAccumulator {
    /// An empty accumulator.
    pub fn new() -> (r: FrameAccumulator)
        ensures
            r@ == Seq::<u8>::empty(),
    {
        FrameAccumulator { buf: Vec::new() }
    }

    /// Number of bytes held.
    pub fn len(&self) -> (r: usize)
        ensures
            r == self@.len(),
    {
        self.buf.len()
    }

    /// A copy of the bytes held.
    pub fn contents(&self) -> (r: Vec<u8>)
        ensures
            r@ == self@,
    {
        let mut r: Vec<u8> = Vec::new();
        let mut i: usize = 0;
        while i < self.buf.len()
            invariant
                i <= self.buf@.len(),
                r@ == self.buf@.subrange(0, i as int),
            decreases self.buf@.len() - i,
        {
            r.push(self.buf[i]);
            i += 1;
        }
        assert(r@ =~= self@);
        r
    }

    /// Drops everything held.
    pub fn clear(&mut self)
        ensures
            final(self)@ == Seq::<u8>::empty(),
    {
        self.buf.clear();
    }

    /// Appends `bytes`. When the result is over the ceiling and holds no
    /// delimiter, the buffer is cleared instead and `Overflow` returned.
    pub fn feed(&mut self, bytes: &[u8]) -> (r: Result<(), FrameError>)
        ensures
            final(self)@ == after_feed(old(self)@, bytes@),
            r is Err <==> overflows(old(self)@, bytes@),
    {
        let ghost old_buf = self.buf@;
        let mut i: usize = 0;
        while i < bytes.len()
            invariant
                i <= bytes@.len(),
                self.buf@ == old_buf + bytes@.subrange(0, i as int),
            decreases bytes@.len() - i,
        {
            self.buf.push(bytes[i]);
            i += 1;
            assert(self.buf@ =~= old_buf + bytes@.subrange(0, i as int));
        }
        assert(bytes@.subrange(0, bytes@.len() as int) =~= bytes@);
        if self.buf.len() > MAX_ACCUMULATOR {
            match find_delimiter(&self.buf) {
                Some(_) => Ok(()),
                None => {
                    self.buf.clear();
                    Err(FrameError::Overflow)
                },
            }
        } else {
            Ok(())
        }
    }

    /// Removes the oldest complete frame and its delimiter, and returns the
    /// frame; returns `None`, leaving the buffer as it was, when there is none.
    pub fn next_frame(&mut self) -> (r: Option<Vec<u8>>)
        ensures
            match first_delim(old(self)@) {
                Some(p) => {
                    &&& p + 2 <= old(self)@.len()
                    &&& r is Some
                    &&& r->0@ == old(self)@.subrange(0, p)
                    &&& final(self)@ == old(self)@.subrange(p + 2, old(self)@.len() as int)
                },
                None => r is None && final(self)@ == old(self)@,
            },
    {
        match find_delimiter(&self.buf) {
            Some(p) => {
                let mut tail = self.buf.split_off(p);
                let mut rest = tail.split_off(2);
                std::mem::swap(&mut self.buf, &mut rest);
                Some(rest)
            },
            None => None,
        }
    }

    /// Removes and returns every complete frame, oldest first.
    pub fn extract_frames(&mut self) -> (r: Vec<Vec<u8>>)
        ensures
            r@.len() == drain_all(old(self)@).0.len(),
            forall|i: int| 0 <= i < r@.len() ==> r@[i]@ == drain_all(old(self)@).0[i],
            final(self)@ == drain_all(old(self)@).1,
    {
        let ghost start = self@;
        let mut out: Vec<Vec<u8>> = Vec::new();
        let ghost mut taken: Seq<Seq<u8>> = seq![];
        loop
            invariant
                taken.len() == out@.len(),
                forall|i: int| 0 <= i < out@.len() ==> out@[i]@ == taken[i],
                taken + drain_all(self@).0 == drain_all(start).0,
                drain_all(self@).1 == drain_all(start).1,
            ensures
                out@.len() == drain_all(start).0.len(),
                forall|i: int| 0 <= i < out@.len() ==> out@[i]@ == drain_all(start).0[i],
                self@ == drain_all(start).1,
            decreases self@.len(),
        {
            let ghost before = self@;
            match self.next_frame() {
                Some(f) => {
                    proof {
                        lemma_first_delim(before);
                        assert(first_delim(before) is Some);
                        let p = first_delim(before)->0;
                        let rest = before.subrange(p + 2, before.len() as int);
                        assert(drain_all(before).0 == seq![before.subrange(0, p)] + drain_all(
                            rest,
                        ).0);
                        assert(taken.push(f@) + drain_all(self@).0 =~= taken + drain_all(
                            before,
                        ).0);
                        taken = taken.push(f@);
                    }
                    out.push(f);
                },
                None => {
                    assert(drain_all(self@).0 =~= seq![]);
                    assert(taken + drain_all(self@).0 =~= taken);
                    assert(taken == drain_all(start).0);
                    assert(self@ == drain_all(start).1);
                    break ;
                },
            }
        }
        out
    }
}

} // verus!
