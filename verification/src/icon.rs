//! Bounded reading of a camera's preview icon: the icon is read chunk by
//! chunk, and a stream that yields more than the limit is refused, even when
//! the device gave no size beforehand.

use vstd::prelude::*;

verus! {

/// The largest chunk asked of the stream at once.
pub const ICON_CHUNK: usize = 8192;

/// The largest preview icon accepted, in bytes.
pub const MAX_ICON_BYTES: usize = 1024 * 1024;

/// The bytes read so far and the limit on their number. The bytes kept
/// never exceed the limit, and the limit leaves room to ask for one byte
/// more than fits.
pub struct IconReader {
    output: Vec<u8>,
    limit: usize,
}

/// What the reader made of a chunk.
#[derive(Clone, Copy, Debug, PartialEq, Eq)]
pub enum IconStep {
    /// The chunk was kept; read on.
    More,
    /// The stream has ended (an empty chunk): the icon is complete.
    Complete,
    /// The chunk would take the icon past its limit: the icon is refused.
    TooLarge,
}

/// The mathematical value of an `IconReader`.
pub struct IconReaderView {
    pub output: Seq<u8>,
    pub limit: usize,
}

impl View for IconReader {
    type V = IconReaderView;

    closed spec fn view(&self) -> IconReaderView {
        IconReaderView { output: self.output@, limit: self.limit }
    }
}

impl IconReaderView {
    /// The bytes kept never exceed the limit, and one more byte than the room
    /// left can always be asked for.
    pub open spec fn wf(self) -> bool {
        self.output.len() <= self.limit < usize::MAX
    }

    /// How many more bytes fit below the limit.
    pub open spec fn remaining(self) -> int {
        self.limit - self.output.len()
    }

    /// The size of the next read: one byte more than the room left, so that
    /// an oversized icon shows itself, but never more than a chunk.
    pub open spec fn next_read_size_spec(self) -> int {
        if ICON_CHUNK < self.remaining() + 1 {
            ICON_CHUNK as int
        } else {
            self.remaining() + 1
        }
    }
}

/// The reader's state after the chunk `bytes`, and its verdict.
pub open spec fn accept_spec(old: IconReaderView, bytes: Seq<u8>) -> (IconReaderView, IconStep) {
    if bytes.len() == 0 {
        (old, IconStep::Complete)
    } else if bytes.len() > old.remaining() {
        (old, IconStep::TooLarge)
    } else {
        (IconReaderView { output: old.output + bytes, ..old }, IconStep::More)
    }
}

impl IconReader {
    #[verifier::type_invariant]
    spec fn inv(self) -> bool {
        self.output@.len() <= self.limit < usize::MAX
    }

    /// A reader with nothing read yet that accepts at most `limit` bytes.
    pub fn new(limit: usize) -> (r: Self)
        requires
            limit < usize::MAX,
        ensures
            r@.output == Seq::<u8>::empty(),
            r@.limit == limit,
            r@.wf(),
    {
        IconReader { output: Vec::new(), limit }
    }

    /// How many bytes to ask of the stream next.
    pub fn next_read_size(&self) -> (n: usize)
        ensures
            n == self@.next_read_size_spec(),
            self@.wf(),
    {
        proof {
            use_type_invariant(self);
        }
        let remaining = self.limit - self.output.len();
        if ICON_CHUNK < remaining + 1 {
            ICON_CHUNK
        } else {
            remaining + 1
        }
    }

    /// Takes the chunk `bytes` that the stream gave.
    pub fn accept(&mut self, bytes: &[u8]) -> (step: IconStep)
        ensures
            (final(self)@, step) == accept_spec(old(self)@, bytes@),
            final(self)@.wf(),
    {
        proof {
            use_type_invariant(&*self);
        }
        if bytes.len() == 0 {
            return IconStep::Complete;
        }
        if bytes.len() > self.limit - self.output.len() {
            return IconStep::TooLarge;
        }
        let mut out: Vec<u8> = Vec::new();
        std::mem::swap(&mut out, &mut self.output);
        let ghost before = out@;
        let mut i: usize = 0;
        while i < bytes.len()
            invariant
                i <= bytes@.len(),
                out@ == before + bytes@.take(i as int),
            decreases bytes.len() - i,
        {
            out.push(bytes[i]);
            assert(bytes@.take(i + 1) =~= bytes@.take(i as int).push(bytes@[i as int]));
            i = i + 1;
        }
        assert(bytes@.take(bytes@.len() as int) =~= bytes@);
        self.output = out;
        IconStep::More
    }

    /// The bytes read so far.
    pub fn into_bytes(self) -> (v: Vec<u8>)
        ensures
            v@ == self@.output,
            v@.len() <= self@.limit,
    {
        proof {
            use_type_invariant(&self);
        }
        self.output
    }
}

/// Each read asks for one byte more than the room left, so that an
/// oversized icon always shows itself, unless the room left is a whole
/// chunk or more, when a chunk is asked for.
pub proof fn law_reads_ask_one_past_the_room_left(r: IconReaderView)
    requires
        r.wf(),
    ensures
        1 <= r.next_read_size_spec() <= ICON_CHUNK,
        r.remaining() < ICON_CHUNK ==> r.next_read_size_spec() == r.remaining() + 1,
        r.remaining() >= ICON_CHUNK ==> r.next_read_size_spec() == ICON_CHUNK,
        r.next_read_size_spec() > r.remaining() || r.next_read_size_spec() == ICON_CHUNK,
{
}

/// Reading a stream chunk by chunk never keeps more than the limit, whatever
/// the stream yields: every step keeps the reader's bound.
pub proof fn law_reader_stays_within_limit(old: IconReaderView, bytes: Seq<u8>)
    requires
        old.wf(),
    ensures
        accept_spec(old, bytes).0.wf(),
        accept_spec(old, bytes).0.output.len() <= old.limit,
{
}

/// The bytes kept are exactly the chunks accepted, in order: a kept chunk is
/// appended whole and a refused or final one changes nothing.
pub proof fn law_reader_keeps_chunks_in_order(old: IconReaderView, bytes: Seq<u8>)
    ensures
        accept_spec(old, bytes).1 == IconStep::More ==> accept_spec(old, bytes).0.output
            == old.output + bytes,
        accept_spec(old, bytes).1 != IconStep::More ==> accept_spec(old, bytes).0 == old,
{
}

/// A stream that yields at most the size asked for is refused exactly when
/// it yields one byte more than the room left.
pub proof fn law_oversized_read_is_refused(old: IconReaderView, bytes: Seq<u8>)
    requires
        old.wf(),
        0 < bytes.len() <= old.next_read_size_spec(),
    ensures
        accept_spec(old, bytes).1 == IconStep::TooLarge <==> bytes.len() == old.remaining() + 1,
{
}

/// The chunks of `chunks` joined in order.
pub open spec fn flatten(chunks: Seq<Seq<u8>>) -> Seq<u8>
    decreases chunks.len(),
{
    if chunks.len() == 0 {
        Seq::empty()
    } else {
        chunks[0] + flatten(chunks.drop_first())
    }
}

/// Reading the chunks of a whole stream in order: the reader's state and
/// its last verdict, reading stopping at the first chunk that is not kept
/// (`More` when every chunk was kept).
pub open spec fn read_stream(r: IconReaderView, chunks: Seq<Seq<u8>>) -> (IconReaderView, IconStep)
    decreases chunks.len(),
{
    if chunks.len() == 0 {
        (r, IconStep::More)
    } else {
        let (next, step) = accept_spec(r, chunks[0]);
        if step == IconStep::More {
            read_stream(next, chunks.drop_first())
        } else {
            (next, step)
        }
    }
}

/// Over a whole stream, whatever its chunks, the reader never keeps more
/// than its limit, and what it keeps is what it had followed by a prefix of
/// the stream's bytes.
pub proof fn law_stream_stays_within_limit(r: IconReaderView, chunks: Seq<Seq<u8>>)
    requires
        r.wf(),
    ensures
        read_stream(r, chunks).0.wf(),
        read_stream(r, chunks).0.limit == r.limit,
        r.output.is_prefix_of(read_stream(r, chunks).0.output),
    decreases chunks.len(),
{
    if chunks.len() > 0 {
        let (next, step) = accept_spec(r, chunks[0]);
        if step == IconStep::More {
            law_stream_stays_within_limit(next, chunks.drop_first());
            let out = read_stream(next, chunks.drop_first()).0.output;
            assert(out.subrange(0, next.output.len() as int) =~= next.output);
            assert(out.subrange(0, r.output.len() as int) =~= r.output) by {
                assert(next.output.subrange(0, r.output.len() as int) =~= r.output);
                assert forall|k: int| 0 <= k < r.output.len() implies out[k] == r.output[k] by {
                    assert(out.subrange(0, next.output.len() as int)[k] == next.output[k]);
                }
            }
        } else {
            assert(next.output.subrange(0, r.output.len() as int) =~= r.output);
        }
    } else {
        assert(r.output.subrange(0, r.output.len() as int) =~= r.output);
    }
}

/// A stream whose non-empty chunks fit within the room left, followed by
/// its end, is read completely: every byte is kept, in order.
pub proof fn law_stream_within_limit_is_read_whole(r: IconReaderView, chunks: Seq<Seq<u8>>)
    requires
        r.wf(),
        forall|i: int| 0 <= i < chunks.len() ==> (#[trigger] chunks[i]).len() > 0,
        flatten(chunks).len() <= r.remaining(),
    ensures
        read_stream(r, chunks.push(Seq::empty())) == (
            IconReaderView { output: r.output + flatten(chunks), ..r },
            IconStep::Complete,
        ),
    decreases chunks.len(),
{
    let all = chunks.push(Seq::<u8>::empty());
    if chunks.len() == 0 {
        assert(all[0] == Seq::<u8>::empty());
        assert(r.output + flatten(chunks) =~= r.output);
    } else {
        let rest = chunks.drop_first();
        assert(flatten(chunks) == chunks[0] + flatten(rest));
        assert(all[0] == chunks[0]);
        assert(all.drop_first() =~= rest.push(Seq::empty()));
        let next = IconReaderView { output: r.output + chunks[0], ..r };
        assert(accept_spec(r, chunks[0]) == (next, IconStep::More));
        assert forall|i: int| 0 <= i < rest.len() implies (#[trigger] rest[i]).len() > 0 by {
            assert(rest[i] == chunks[i + 1]);
        }
        law_stream_within_limit_is_read_whole(next, rest);
        assert(next.output + flatten(rest) =~= r.output + flatten(chunks));
    }
}

/// A stream with more bytes than the room left is never read whole: the
/// reader refuses it, or stops before its end.
pub proof fn law_oversized_stream_is_never_complete(r: IconReaderView, chunks: Seq<Seq<u8>>)
    requires
        r.wf(),
        forall|i: int| 0 <= i < chunks.len() ==> (#[trigger] chunks[i]).len() > 0,
        flatten(chunks).len() > r.remaining(),
    ensures
        read_stream(r, chunks.push(Seq::empty())).1 != IconStep::Complete,
    decreases chunks.len(),
{
    let all = chunks.push(Seq::<u8>::empty());
    if chunks.len() > 0 {
        let rest = chunks.drop_first();
        assert(flatten(chunks) == chunks[0] + flatten(rest));
        assert(all[0] == chunks[0]);
        assert(all.drop_first() =~= rest.push(Seq::empty()));
        let (next, step) = accept_spec(r, chunks[0]);
        if step == IconStep::More {
            assert forall|i: int| 0 <= i < rest.len() implies (#[trigger] rest[i]).len() > 0 by {
                assert(rest[i] == chunks[i + 1]);
            }
            law_oversized_stream_is_never_complete(next, rest);
        }
    }
}

} // verus!
