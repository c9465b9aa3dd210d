//! Line buffering of a guest's output stream: bytes are collected until a newline,
//! and each complete line is handed on as text. A flush also hands on the
//! unfinished last line.

use vstd::prelude::*;
use vstd::slice::slice_subrange;
use vstd::utf8::{
    decode_utf8, decode_utf8_encode_utf8, encode_utf8, is_char_boundary_iff_not_is_continuation_byte,
    pop_first_scalar, valid_utf8, valid_utf8_split,
};

verus! {

/// The newline byte that ends a line.
pub open spec fn newline() -> u8 {
    10u8
}

/// Splits a byte stream into its complete lines (without their newline) and the
/// unfinished rest after the last newline.
pub open spec fn split_lines(b: Seq<u8>) -> (Seq<Seq<u8>>, Seq<u8>)
    decreases b.len(),
{
    if b.len() == 0 {
        (Seq::empty(), Seq::empty())
    } else {
        let (lines, rest) = split_lines(b.drop_last());
        if b.last() == newline() {
            (lines.push(rest), Seq::empty())
        } else {
            (lines, rest.push(b.last()))
        }
    }
}

/// The lines a flush hands on: the complete lines, and with `include_incomplete`
/// also a non-empty unfinished rest.
pub open spec fn flushed_lines(b: Seq<u8>, include_incomplete: bool) -> Seq<Seq<u8>> {
    let (lines, rest) = split_lines(b);
    if include_incomplete && rest.len() > 0 {
        lines.push(rest)
    } else {
        lines
    }
}

/// The bytes a flush keeps buffered.
pub open spec fn kept_bytes(b: Seq<u8>, include_incomplete: bool) -> Seq<u8> {
    if include_incomplete {
        Seq::empty()
    } else {
        split_lines(b).1
    }
}

/// Concatenates lines, each followed by a newline.
pub open spec fn join_lines(lines: Seq<Seq<u8>>) -> Seq<u8>
    decreases lines.len(),
{
    if lines.len() == 0 {
        Seq::empty()
    } else {
        join_lines(lines.drop_last()) + lines.last().push(newline())
    }
}

/// The text `String::from_utf8_lossy` makes of a byte sequence.
pub uninterp spec fn spec_utf8_lossy(bytes: Seq<u8>) -> Seq<char>;

/// Calls `String::from_utf8_lossy` and takes the text as an owned `String`. The
/// result is named `spec_utf8_lossy`; as the function's documentation states, bytes
/// that are valid UTF-8 are decoded unchanged. How invalid sequences are replaced
/// is left unsaid.
#[verifier::external_body]
fn utf8_lossy(bytes: &[u8]) -> (res: String)
    ensures
        res@ == spec_utf8_lossy(bytes@),
        valid_utf8(bytes@) ==> res@ == decode_utf8(bytes@),
{
    String::from_utf8_lossy(bytes).into_owned()
}

/// Whether `lines` is the text of the byte lines `bytes`, line by line; a line that is
/// valid UTF-8 is its decoding.
pub open spec fn texts_of(lines: Seq<String>, bytes: Seq<Seq<u8>>) -> bool {
    &&& lines.len() == bytes.len()
    &&& forall|i: int| 0 <= i < lines.len() ==> #[trigger] lines[i]@ == spec_utf8_lossy(bytes[i])
    &&& forall|i: int| 0 <= i < lines.len() && valid_utf8(bytes[i]) ==> #[trigger] lines[i]@ == decode_utf8(bytes[i])
}

/// The bytes written by a guest that have not yet formed a complete line.
pub struct LineBuffer {
    buffer: Vec<u8>,
}

impl View for LineBuffer {
    type V = Seq<u8>;

    closed spec fn view(&self) -> Seq<u8> {
        self.buffer@
    }
}

impl LineBuffer {
    /// An empty buffer.
    pub fn new() -> (res: LineBuffer)
        ensures
            res@ == Seq::<u8>::empty(),
            !res@.contains(newline()),
    {
        let res = LineBuffer { buffer: Vec::new() };
        assert(!res@.contains(newline()));
        res
    }

    /// Hands on every complete line in the buffer, and with `include_incomplete`
    /// also the unfinished last line; what was handed on leaves the buffer.
    pub fn flush_lines(&mut self, include_incomplete: bool) -> (lines: Vec<String>)
        ensures
            texts_of(lines@, flushed_lines(old(self)@, include_incomplete)),
            final(self)@ == kept_bytes(old(self)@, include_incomplete),
            !final(self)@.contains(newline()),
    {
        let ghost b = self.buffer@;
        let n = self.buffer.len();
        let mut out: Vec<String> = Vec::new();
        let ghost mut emitted: Seq<Seq<u8>> = Seq::empty();
        let mut start: usize = 0;
        let mut j: usize = 0;
        while j < n
            invariant
                b == self.buffer@,
                n == b.len(),
                start <= j <= n,
                split_lines(b.take(j as int)).0 == emitted,
                split_lines(b.take(j as int)).1 == b.subrange(start as int, j as int),
                texts_of(out@, emitted),
            decreases n - j,
        {
            assert(b.take(j + 1).drop_last() =~= b.take(j as int));
            assert(b.take(j + 1).last() == b[j as int]);
            if self.buffer[j] == 10u8 {
                let line = utf8_lossy(slice_subrange(self.buffer.as_slice(), start, j));
                out.push(line);
                proof {
                    emitted = emitted.push(b.subrange(start as int, j as int));
                }
                start = j + 1;
            } else {
                assert(b.subrange(start as int, j + 1) =~= b.subrange(start as int, j as int).push(b[j as int]));
            }
            j = j + 1;
        }
        assert(b.take(n as int) =~= b);
        if include_incomplete && start < n {
            let line = utf8_lossy(slice_subrange(self.buffer.as_slice(), start, n));
            out.push(line);
            proof {
                emitted = emitted.push(b.subrange(start as int, n as int));
            }
            start = n;
        }
        if start > 0 {
            let rest = self.buffer.split_off(start);
            self.buffer = rest;
        }
        proof {
            if include_incomplete {
                assert(self.buffer@ =~= Seq::<u8>::empty());
            } else {
                law_no_newline_inside(b);
            }
        }
        out
    }

    /// Takes the bytes a guest writes, hands on the lines they complete, and
    /// reports the whole of `buf` as written.
    pub fn write(&mut self, buf: &[u8]) -> (res: (usize, Vec<String>))
        ensures
            res.0 == buf@.len(),
            texts_of(res.1@, split_lines(old(self)@ + buf@).0),
            final(self)@ == split_lines(old(self)@ + buf@).1,
            !final(self)@.contains(newline()),
    {
        let ghost start = self.buffer@;
        let mut i: usize = 0;
        while i < buf.len()
            invariant
                i <= buf@.len(),
                self.buffer@ == start + buf@.take(i as int),
            decreases buf@.len() - i,
        {
            self.buffer.push(buf[i]);
            assert(buf@.take(i + 1) =~= buf@.take(i as int).push(buf@[i as int]));
            i = i + 1;
        }
        assert(buf@.take(buf@.len() as int) =~= buf@);
        let lines = self.flush_lines(false);
        (buf.len(), lines)
    }

    /// Hands on everything buffered, the unfinished last line included.
    pub fn flush(&mut self) -> (lines: Vec<String>)
        ensures
            texts_of(lines@, flushed_lines(old(self)@, true)),
            final(self)@ == Seq::<u8>::empty(),
            !final(self)@.contains(newline()),
    {
        self.flush_lines(true)
    }
}

/// Nothing is lost or reordered: the complete lines, each with its newline put
/// back, followed by the buffered rest, are exactly the bytes written.
pub proof fn law_lines_reassemble(b: Seq<u8>)
    ensures
        join_lines(split_lines(b).0) + split_lines(b).1 == b,
    decreases b.len(),
{
    if b.len() > 0 {
        let prefix = b.drop_last();
        law_lines_reassemble(prefix);
        let (lines, rest) = split_lines(prefix);
        if b.last() == newline() {
            assert(lines.push(rest).drop_last() =~= lines);
            assert(join_lines(lines.push(rest)) + Seq::<u8>::empty() =~= join_lines(lines) + rest.push(newline()));
            assert(b =~= prefix.push(b.last()));
        } else {
            assert(join_lines(lines) + rest.push(b.last()) =~= (join_lines(lines) + rest).push(b.last()));
            assert(b =~= prefix.push(b.last()));
        }
    }
}

/// No handed-on line and no buffered rest holds a newline.
pub proof fn law_no_newline_inside(b: Seq<u8>)
    ensures
        !split_lines(b).1.contains(newline()),
        forall|i: int| 0 <= i < split_lines(b).0.len() ==> !(#[trigger] split_lines(b).0[i]).contains(newline()),
    decreases b.len(),
{
    if b.len() > 0 {
        let prefix = b.drop_last();
        law_no_newline_inside(prefix);
        let (lines, rest) = split_lines(prefix);
        if b.last() != newline() {
            assert forall|k: int| 0 <= k < rest.push(b.last()).len() implies rest.push(b.last())[k] != newline() by {
                if k < rest.len() {
                    assert(rest[k] != newline()) by {
                        if rest[k] == newline() {
                            assert(rest.contains(newline()));
                        }
                    }
                }
            }
        } else {
            assert forall|i: int| 0 <= i < lines.push(rest).len() implies !(#[trigger] lines.push(rest)[i]).contains(newline()) by {
                if i < lines.len() {
                    assert(lines.push(rest)[i] == lines[i]);
                }
            }
        }
    }
}

proof fn lemma_split_without_newline(s: Seq<u8>)
    requires
        !s.contains(newline()),
    ensures
        split_lines(s).0 == Seq::<Seq<u8>>::empty(),
        split_lines(s).1 == s,
    decreases s.len(),
{
    if s.len() > 0 {
        let prefix = s.drop_last();
        assert(!prefix.contains(newline())) by {
            if prefix.contains(newline()) {
                let k = choose|k: int| 0 <= k < prefix.len() && prefix[k] == newline();
                assert(s[k] == newline());
            }
        }
        lemma_split_without_newline(prefix);
        assert(s[s.len() - 1] != newline()) by {
            if s[s.len() - 1] == newline() {
                assert(s.contains(newline()));
            }
        }
        assert(prefix.push(s.last()) =~= s);
    }
}

/// How the written bytes are cut into separate writes does not change the lines:
/// writing `a` and then `c` hands on the lines of `a`, then the lines that the rest
/// of `a` followed by `c` completes, and keeps the same rest as writing `a + c` at once.
pub proof fn law_chunking(a: Seq<u8>, c: Seq<u8>)
    ensures
        split_lines(a + c).0 == split_lines(a).0 + split_lines(split_lines(a).1 + c).0,
        split_lines(a + c).1 == split_lines(split_lines(a).1 + c).1,
    decreases c.len(),
{
    let (la, ra) = split_lines(a);
    if c.len() == 0 {
        law_no_newline_inside(a);
        lemma_split_without_newline(ra);
        assert(a + c =~= a);
        assert(ra + c =~= ra);
        assert(la + Seq::<Seq<u8>>::empty() =~= la);
    } else {
        let c1 = c.drop_last();
        law_chunking(a, c1);
        assert((a + c).drop_last() =~= a + c1);
        assert((a + c).last() == c.last());
        assert((ra + c).drop_last() =~= ra + c1);
        assert((ra + c).last() == c.last());
        let (l2, r2) = split_lines(ra + c1);
        if c.last() == newline() {
            assert(la + l2.push(r2) =~= (la + l2).push(r2));
        }
    }
}

/// Concatenates the bytes of successive writes.
pub open spec fn concat_writes(chunks: Seq<Seq<u8>>) -> Seq<u8>
    decreases chunks.len(),
{
    if chunks.len() == 0 {
        Seq::empty()
    } else {
        chunks[0] + concat_writes(chunks.drop_first())
    }
}

/// The lines that successive writes of `chunks` hand on, starting from the buffered
/// bytes `buffered`, and the bytes buffered afterwards (each write hands on
/// `split_lines(buffered + chunk).0` and keeps the rest, as `LineBuffer::write` does).
pub open spec fn lines_of_writes(buffered: Seq<u8>, chunks: Seq<Seq<u8>>) -> (Seq<Seq<u8>>, Seq<u8>)
    decreases chunks.len(),
{
    if chunks.len() == 0 {
        (Seq::empty(), buffered)
    } else {
        let (first, rest) = split_lines(buffered + chunks[0]);
        let (later, kept) = lines_of_writes(rest, chunks.drop_first());
        (first + later, kept)
    }
}

/// However the bytes are cut into writes, any number of them, the lines handed on and
/// the bytes kept are those of writing everything at once; with a final flush, the
/// texts handed on are the same too. (The buffer of a `LineBuffer` never holds a newline.)
pub proof fn law_chunking_many(buffered: Seq<u8>, chunks: Seq<Seq<u8>>)
    requires
        !buffered.contains(newline()),
    ensures
        lines_of_writes(buffered, chunks) == split_lines(buffered + concat_writes(chunks)),
        lines_of_writes(buffered, chunks).0 + flushed_lines(lines_of_writes(buffered, chunks).1, true)
            == flushed_lines(buffered + concat_writes(chunks), true),
        (lines_of_writes(buffered, chunks).0 + flushed_lines(lines_of_writes(buffered, chunks).1, true)).map_values(
            |l: Seq<u8>| spec_utf8_lossy(l),
        ) == flushed_lines(buffered + concat_writes(chunks), true).map_values(|l: Seq<u8>| spec_utf8_lossy(l)),
    decreases chunks.len(),
{
    let all = buffered + concat_writes(chunks);
    if chunks.len() == 0 {
        lemma_split_without_newline(buffered);
        assert(all =~= buffered);
    } else {
        let c0 = chunks[0];
        let cs = chunks.drop_first();
        let (l1, r1) = split_lines(buffered + c0);
        law_no_newline_inside(buffered + c0);
        law_chunking_many(r1, cs);
        law_chunking(buffered + c0, concat_writes(cs));
        assert(all =~= (buffered + c0) + concat_writes(cs));
        let (l2, r2) = split_lines(r1 + concat_writes(cs));
        assert(lines_of_writes(buffered, chunks).0 =~= l1 + l2);
        assert(split_lines(all).0 =~= l1 + l2);
    }
    let (ls, kept) = lines_of_writes(buffered, chunks);
    law_no_newline_inside(all);
    lemma_split_without_newline(kept);
    if kept.len() > 0 {
        assert(ls + seq![kept] =~= ls.push(kept));
    } else {
        assert(ls + Seq::<Seq<u8>>::empty() =~= ls);
    }
}

/// The lines handed on by successive writes, in the order the writes came.
pub open spec fn all_delivered(delivered: Seq<Seq<Seq<u8>>>) -> Seq<Seq<u8>>
    decreases delivered.len(),
{
    if delivered.len() == 0 {
        Seq::empty()
    } else {
        delivered[0] + all_delivered(delivered.drop_first())
    }
}

/// A run of successive `LineBuffer::write` calls as their contract describes them:
/// `states[i]` is the buffer before the write of `chunks[i]`, `delivered[i]` the lines that
/// write hands on, and `states[i + 1]` the buffer it leaves.
pub open spec fn successive_writes(chunks: Seq<Seq<u8>>, states: Seq<Seq<u8>>, delivered: Seq<Seq<Seq<u8>>>) -> bool {
    &&& states.len() == chunks.len() + 1
    &&& delivered.len() == chunks.len()
    &&& forall|i: int| 0 <= i < chunks.len() ==>
        (#[trigger] delivered[i], states[i + 1]) == split_lines(states[i] + chunks[i])
}

/// Whatever number of writes a buffer takes, one after the other, the lines they hand on
/// together and the bytes left buffered are those of `lines_of_writes`, and so those of
/// writing all the bytes at once; with a final flush, the lines handed on are the lines
/// of all the bytes.
pub proof fn law_successive_writes(chunks: Seq<Seq<u8>>, states: Seq<Seq<u8>>, delivered: Seq<Seq<Seq<u8>>>)
    requires
        successive_writes(chunks, states, delivered),
    ensures
        (all_delivered(delivered), states.last()) == lines_of_writes(states[0], chunks),
        !states[0].contains(newline()) ==> (all_delivered(delivered), states.last()) == split_lines(
            states[0] + concat_writes(chunks),
        ),
        !states[0].contains(newline()) ==> all_delivered(delivered) + flushed_lines(states.last(), true)
            == flushed_lines(states[0] + concat_writes(chunks), true),
    decreases chunks.len(),
{
    if chunks.len() > 0 {
        let cs = chunks.drop_first();
        let ss = states.drop_first();
        let ds = delivered.drop_first();
        assert forall|i: int| 0 <= i < cs.len() implies
            (#[trigger] ds[i], ss[i + 1]) == split_lines(ss[i] + cs[i]) by {
            assert(delivered[i + 1] == ds[i]);
        }
        assert((delivered[0], states[1]) == split_lines(states[0] + chunks[0]));
        law_successive_writes(cs, ss, ds);
        assert(ss.last() == states.last());
    }
    if !states[0].contains(newline()) {
        law_chunking_many(states[0], chunks);
    }
}

/// Concatenates the UTF-8 encodings of texts, each followed by a newline.
pub open spec fn join_texts(texts: Seq<Seq<char>>) -> Seq<u8>
    decreases texts.len(),
{
    if texts.len() == 0 {
        Seq::empty()
    } else {
        join_texts(texts.drop_last()) + encode_utf8(texts.last()).push(newline())
    }
}

proof fn lemma_valid_around_newline(a: Seq<u8>, b: Seq<u8>)
    requires
        valid_utf8(a + seq![newline()] + b),
    ensures
        valid_utf8(a),
        valid_utf8(b),
{
    let s = a + seq![newline()] + b;
    let p = a.len() as int;
    assert(s[p] == newline());
    is_char_boundary_iff_not_is_continuation_byte(s, p);
    valid_utf8_split(s, p);
    assert(s.subrange(0, p) =~= a);
    let t = s.subrange(p, s.len() as int);
    assert(t =~= seq![newline()] + b);
    assert(pop_first_scalar(t) =~= b);
}

proof fn lemma_pieces_valid(lines: Seq<Seq<u8>>, rest: Seq<u8>)
    requires
        valid_utf8(join_lines(lines) + rest),
    ensures
        forall|i: int| 0 <= i < lines.len() ==> valid_utf8(#[trigger] lines[i]),
        valid_utf8(rest),
    decreases lines.len(),
{
    if lines.len() == 0 {
        assert(join_lines(lines) + rest =~= rest);
    } else {
        let init = lines.drop_last();
        let last = lines.last();
        assert(join_lines(lines) + rest =~= (join_lines(init) + last) + seq![newline()] + rest);
        lemma_valid_around_newline(join_lines(init) + last, rest);
        lemma_pieces_valid(init, last);
        assert forall|i: int| 0 <= i < lines.len() implies valid_utf8(#[trigger] lines[i]) by {
            if i < lines.len() - 1 {
                assert(lines[i] == init[i]);
            }
        }
    }
}

proof fn lemma_join_texts_of_valid(lines: Seq<Seq<u8>>)
    requires
        forall|i: int| 0 <= i < lines.len() ==> valid_utf8(#[trigger] lines[i]),
    ensures
        join_texts(lines.map_values(|l: Seq<u8>| decode_utf8(l))) == join_lines(lines),
    decreases lines.len(),
{
    if lines.len() > 0 {
        let init = lines.drop_last();
        assert forall|i: int| 0 <= i < init.len() implies valid_utf8(#[trigger] init[i]) by {
            assert(init[i] == lines[i]);
        }
        lemma_join_texts_of_valid(init);
        let texts = lines.map_values(|l: Seq<u8>| decode_utf8(l));
        assert(texts.drop_last() =~= init.map_values(|l: Seq<u8>| decode_utf8(l)));
        decode_utf8_encode_utf8(lines.last());
    }
}

/// For valid UTF-8 input, the texts handed on (which are the decodings of their lines)
/// re-encoded, each followed by a newline, and then the buffered rest, are exactly
/// the bytes written; every line and the rest are themselves valid UTF-8.
pub proof fn law_text_lines_reassemble(b: Seq<u8>)
    requires
        valid_utf8(b),
    ensures
        forall|i: int| 0 <= i < split_lines(b).0.len() ==> valid_utf8(#[trigger] split_lines(b).0[i]),
        valid_utf8(split_lines(b).1),
        join_texts(split_lines(b).0.map_values(|l: Seq<u8>| decode_utf8(l))) + split_lines(b).1 == b,
{
    law_lines_reassemble(b);
    lemma_pieces_valid(split_lines(b).0, split_lines(b).1);
    lemma_join_texts_of_valid(split_lines(b).0);
}

} // verus!
