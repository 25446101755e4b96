//! Incremental decoding of a byte stream into well-formed UTF-8 chunks.
//!
//! Bytes arrive in reads of arbitrary size. A sequence split across two reads
//! is held back until it is complete; a sequence that can no longer be
//! completed is replaced by U+FFFD, one replacement for each maximal invalid
//! part, as `String::from_utf8_lossy` does.

use vstd::prelude::*;
use vstd::utf8::{
    codepoint_width_2, codepoint_width_3, codepoint_width_4, decode_utf8, encode_utf8,
    decode_utf8_encode_utf8, length_of_first_scalar, pop_first_scalar, valid_first_scalar,
    valid_utf8,
};

verus! {

/// The UTF-8 encoding of U+FFFD, the replacement character.
pub open spec fn replacement() -> Seq<u8> {
    seq![0xEFu8, 0xBFu8, 0xBDu8]
}

/// The length of the well-formed sequence that a lead byte announces, or 0 where
/// the byte can start no sequence.
pub open spec fn lead_width(b: u8) -> nat {
    if b <= 0x7F {
        1
    } else if 0xC2 <= b && b <= 0xDF {
        2
    } else if 0xE0 <= b && b <= 0xEF {
        3
    } else if 0xF0 <= b && b <= 0xF4 {
        4
    } else {
        0
    }
}

/// Whether `b` may stand at position `i` (1, 2 or 3) after the lead byte `lead`.
pub open spec fn continues(lead: u8, i: int, b: u8) -> bool {
    if i == 1 && lead == 0xE0 {
        0xA0 <= b && b <= 0xBF
    } else if i == 1 && lead == 0xED {
        0x80 <= b && b <= 0x9F
    } else if i == 1 && lead == 0xF0 {
        0x90 <= b && b <= 0xBF
    } else if i == 1 && lead == 0xF4 {
        0x80 <= b && b <= 0x8F
    } else {
        0x80 <= b && b <= 0xBF
    }
}

/// How many leading bytes of `s` begin a well-formed sequence (at least 1,
/// at most the lead byte's width); `s` is not empty.
pub open spec fn fit_len(s: Seq<u8>) -> nat {
    let w = lead_width(s[0]);
    if w <= 1 {
        1
    } else if s.len() < 2 || !continues(s[0], 1, s[1]) {
        1
    } else if w == 2 {
        2
    } else if s.len() < 3 || !continues(s[0], 2, s[2]) {
        2
    } else if w == 3 {
        3
    } else if s.len() < 4 || !continues(s[0], 3, s[3]) {
        3
    } else {
        4
    }
}

/// What a decoder finds at the start of a non-empty byte sequence.
pub enum Step {
    /// A complete, well-formed character of this many bytes.
    Char(nat),
    /// A maximal invalid part of this many bytes, followed by a byte that ends it.
    Invalid(nat),
    /// The whole sequence is the beginning of a character that has not ended yet.
    Incomplete,
}

pub open spec fn step(s: Seq<u8>) -> Step {
    let w = lead_width(s[0]);
    let k = fit_len(s);
    if w == 0 {
        Step::Invalid(1)
    } else if k == w {
        Step::Char(w)
    } else if k < s.len() {
        Step::Invalid(k)
    } else {
        Step::Incomplete
    }
}

/// The lossy rendering of a whole byte stream: each well-formed character kept,
/// each maximal invalid part (a truncated tail included) replaced by U+FFFD.
pub open spec fn lossy(s: Seq<u8>) -> Seq<u8>
    decreases s.len(),
{
    if s.len() == 0 {
        seq![]
    } else {
        match step(s) {
            Step::Char(n) => if 0 < n <= s.len() {
                s.subrange(0, n as int) + lossy(s.subrange(n as int, s.len() as int))
            } else {
                seq![]
            },
            Step::Invalid(k) => if 0 < k <= s.len() {
                replacement() + lossy(s.subrange(k as int, s.len() as int))
            } else {
                seq![]
            },
            Step::Incomplete => replacement(),
        }
    }
}

/// Well-formed UTF-8: a sequence of complete characters.
pub open spec fn well_formed(s: Seq<u8>) -> bool
    decreases s.len(),
{
    s.len() == 0 || match step(s) {
        Step::Char(n) => 0 < n <= s.len() && well_formed(s.subrange(n as int, s.len() as int)),
        _ => false,
    }
}

/// Whether `s` is a held-back tail: empty, or the start of a character that
/// more bytes could still complete.
pub open spec fn is_pending_tail(s: Seq<u8>) -> bool {
    s.len() == 0 || step(s) is Incomplete
}

/// What can be emitted from `s` now, without knowing the bytes that follow,
/// and the tail that must wait for them.
pub open spec fn drain(s: Seq<u8>) -> (Seq<u8>, Seq<u8>)
    decreases s.len(),
{
    if s.len() == 0 {
        (seq![], seq![])
    } else {
        match step(s) {
            Step::Char(n) => if 0 < n <= s.len() {
                let d = drain(s.subrange(n as int, s.len() as int));
                (s.subrange(0, n as int) + d.0, d.1)
            } else {
                (seq![], s)
            },
            Step::Invalid(k) => if 0 < k <= s.len() {
                let d = drain(s.subrange(k as int, s.len() as int));
                (replacement() + d.0, d.1)
            } else {
                (seq![], s)
            },
            Step::Incomplete => (seq![], s),
        }
    }
}

/// The concatenation of a sequence of chunks.
pub open spec fn concat(c: Seq<Seq<u8>>) -> Seq<u8>
    decreases c.len(),
{
    if c.len() == 0 {
        seq![]
    } else {
        concat(c.drop_last()) + c.last()
    }
}

proof fn lemma_step_facts(s: Seq<u8>)
    requires
        s.len() > 0,
    ensures
        match step(s) {
            Step::Char(n) => 1 <= n <= 4 && n <= s.len(),
            Step::Invalid(k) => 1 <= k < s.len() || (k == 1 && lead_width(s[0]) == 0),
            Step::Incomplete => 1 <= s.len() <= 3,
        },
{
}

/// The decision at the start of `s` does not depend on what follows it, unless
/// `s` is an unfinished character.
proof fn lemma_step_extend(s: Seq<u8>, r: Seq<u8>)
    requires
        s.len() > 0,
        !(step(s) is Incomplete),
    ensures
        step(s + r) == step(s),
{
    let t = s + r;
    assert(t[0] == s[0]);
    if s.len() >= 2 {
        assert(t[1] == s[1]);
    }
    if s.len() >= 3 {
        assert(t[2] == s[2]);
    }
    if s.len() >= 4 {
        assert(t[3] == s[3]);
    }
}

proof fn lemma_drain_lossy(s: Seq<u8>, r: Seq<u8>)
    ensures
        drain(s).0 + lossy(drain(s).1 + r) == lossy(s + r),
    decreases s.len(),
{
    if s.len() == 0 {
        assert(s + r =~= r);
        assert(drain(s).1 + r =~= r);
        assert(drain(s).0 + lossy(r) =~= lossy(r));
    } else {
        lemma_step_facts(s);
        let t = s + r;
        match step(s) {
            Step::Char(n) => {
                lemma_step_extend(s, r);
                let rest = s.subrange(n as int, s.len() as int);
                lemma_drain_lossy(rest, r);
                assert(t.subrange(n as int, t.len() as int) =~= rest + r);
                assert(t.subrange(0, n as int) =~= s.subrange(0, n as int));
                assert(drain(s).0 + lossy(drain(s).1 + r) =~= s.subrange(0, n as int) + (drain(
                    rest,
                ).0 + lossy(drain(rest).1 + r)));
            },
            Step::Invalid(k) => {
                lemma_step_extend(s, r);
                let rest = s.subrange(k as int, s.len() as int);
                lemma_drain_lossy(rest, r);
                assert(t.subrange(k as int, t.len() as int) =~= rest + r);
                assert(drain(s).0 + lossy(drain(s).1 + r) =~= replacement() + (drain(rest).0
                    + lossy(drain(rest).1 + r)));
            },
            Step::Incomplete => {
                assert(drain(s).0 + lossy(drain(s).1 + r) =~= lossy(s + r));
            },
        }
    }
}


proof fn lemma_concat_push(c: Seq<Seq<u8>>, x: Seq<u8>)
    ensures
        concat(c.push(x)) == concat(c) + x,
{
    assert(c.push(x).drop_last() =~= c);
}

proof fn lemma_well_formed_concat(a: Seq<u8>, b: Seq<u8>)
    requires
        well_formed(a),
        well_formed(b),
    ensures
        well_formed(a + b),
    decreases a.len(),
{
    if a.len() == 0 {
        assert(a + b =~= b);
    } else {
        lemma_step_facts(a);
        if let Step::Char(n) = step(a) {
            lemma_step_extend(a, b);
            let rest = a.subrange(n as int, a.len() as int);
            lemma_well_formed_concat(rest, b);
            assert((a + b).subrange(n as int, (a + b).len() as int) =~= rest + b);
        }
    }
}

proof fn lemma_replacement_well_formed()
    ensures
        well_formed(replacement()),
{
    let r = replacement();
    assert(step(r) == Step::Char(3));
    assert(r.subrange(3, 3).len() == 0);
    assert(well_formed(r.subrange(3, 3)));
}

proof fn lemma_char_well_formed(s: Seq<u8>, n: nat)
    requires
        s.len() > 0,
        step(s) == Step::Char(n),
    ensures
        well_formed(s.subrange(0, n as int)),
{
    lemma_step_facts(s);
    let c = s.subrange(0, n as int);
    assert(c[0] == s[0]);
    if n >= 2 {
        assert(c[1] == s[1]);
    }
    if n >= 3 {
        assert(c[2] == s[2]);
    }
    if n >= 4 {
        assert(c[3] == s[3]);
    }
    assert(step(c) == Step::Char(n));
    assert(c.subrange(n as int, n as int).len() == 0);
    assert(well_formed(c.subrange(n as int, n as int)));
}

/// Each chunk viewed as its bytes.
pub open spec fn chunk_bytes(c: Seq<Vec<u8>>) -> Seq<Seq<u8>> {
    c.map_values(|v: Vec<u8>| v@)
}

/// Chunks as the decoder hands them out: none empty, each well-formed.
pub open spec fn chunks_ok(c: Seq<Vec<u8>>) -> bool {
    forall|i: int| 0 <= i < c.len() ==> (#[trigger] c[i])@.len() > 0 && well_formed(c[i]@)
}

fn push_chunk(chunks: &mut Vec<Vec<u8>>, chunk: Vec<u8>)
    requires
        chunks_ok(old(chunks)@),
        chunk@.len() > 0,
        well_formed(chunk@),
    ensures
        chunks_ok(final(chunks)@),
        concat(chunk_bytes(final(chunks)@)) == concat(chunk_bytes(old(chunks)@)) + chunk@,
{
    let ghost before = chunks@;
    let ghost x = chunk@;
    chunks.push(chunk);
    proof {
        assert(chunk_bytes(chunks@) =~= chunk_bytes(before).push(x));
        lemma_concat_push(chunk_bytes(before), x);
    }
}

fn replacement_chunk() -> (r: Vec<u8>)
    ensures
        r@ == replacement(),
{
    let r: Vec<u8> = vec![0xEFu8, 0xBFu8, 0xBDu8];
    assert(r@ =~= replacement());
    r
}

/// Whether `b` may stand at position `i` after the lead byte `lead`.
fn byte_continues(lead: u8, i: usize, b: u8) -> (r: bool)
    ensures
        r == continues(lead, i as int, b),
{
    if i == 1 && lead == 0xE0 {
        0xA0 <= b && b <= 0xBF
    } else if i == 1 && lead == 0xED {
        0x80 <= b && b <= 0x9F
    } else if i == 1 && lead == 0xF0 {
        0x90 <= b && b <= 0xBF
    } else if i == 1 && lead == 0xF4 {
        0x80 <= b && b <= 0x8F
    } else {
        0x80 <= b && b <= 0xBF
    }
}

/// The decoder's finding at position `i` of `buf`: 0 for a character, 1 for an
/// invalid part, 2 for an unfinished tail, with the number of bytes it covers.
fn step_at(buf: &Vec<u8>, i: usize) -> (r: (u8, usize))
    requires
        i < buf@.len(),
    ensures
        ({
            let s = buf@.subrange(i as int, buf@.len() as int);
            match step(s) {
                Step::Char(n) => r.0 == 0 && r.1 == n,
                Step::Invalid(k) => r.0 == 1 && r.1 == k,
                Step::Incomplete => r.0 == 2 && r.1 == buf@.len() - i,
            }
        }),
{
    let ghost s = buf@.subrange(i as int, buf@.len() as int);
    let len = buf.len() - i;
    let b0 = buf[i];
    assert(s[0] == b0);
    let w: usize = if b0 <= 0x7F {
        1
    } else if 0xC2 <= b0 && b0 <= 0xDF {
        2
    } else if 0xE0 <= b0 && b0 <= 0xEF {
        3
    } else if 0xF0 <= b0 && b0 <= 0xF4 {
        4
    } else {
        0
    };
    if w == 0 {
        return (1, 1);
    }
    let k: usize = if w <= 1 {
        1
    } else if len < 2 || !byte_continues(b0, 1, buf[i + 1]) {
        1
    } else if w == 2 {
        2
    } else if len < 3 || !byte_continues(b0, 2, buf[i + 2]) {
        2
    } else if w == 3 {
        3
    } else if len < 4 || !byte_continues(b0, 3, buf[i + 3]) {
        3
    } else {
        4
    };
    proof {
        if len >= 2 {
            assert(s[1] == buf@[i + 1]);
        }
        if len >= 3 {
            assert(s[2] == buf@[i + 2]);
        }
        if len >= 4 {
            assert(s[3] == buf@[i + 3]);
        }
        assert(k == fit_len(s));
    }
    if k == w {
        (0, w)
    } else if k < len {
        (1, k)
    } else {
        (2, len)
    }
}

/// Decodes a byte stream that arrives in pieces. Between reads it holds at most
/// the beginning of one character.
pub struct Utf8Reassembler {
    pending: Vec<u8>,
}

impl Utf8Reassembler {
    /// The bytes held back, waiting for the rest of their character.
    pub closed spec fn pending_bytes(&self) -> Seq<u8> {
        self.pending@
    }

    pub closed spec fn wf(&self) -> bool {
        is_pending_tail(self.pending@)
    }

    pub fn new() -> (r: Self)
        ensures
            r.wf(),
            r.pending_bytes() == Seq::<u8>::empty(),
    {
        Utf8Reassembler { pending: Vec::new() }
    }

    fn push_bytes(&mut self, data: &[u8]) -> (chunks: Vec<Vec<u8>>)
        requires
            old(self).wf(),
        ensures
            final(self).wf(),
            chunks_ok(chunks@),
            concat(chunk_bytes(chunks@)) == drain(old(self).pending_bytes() + data@).0,
            final(self).pending_bytes() == drain(old(self).pending_bytes() + data@).1,
    {
        let mut buf: Vec<u8> = Vec::new();
        std::mem::swap(&mut buf, &mut self.pending);
        let ghost start = buf@;
        let mut j: usize = 0;
        while j < data.len()
            invariant
                j <= data@.len(),
                buf@ == start + data@.subrange(0, j as int),
            decreases data@.len() - j,
        {
            buf.push(data[j]);
            j = j + 1;
            assert(buf@ =~= start + data@.subrange(0, j as int));
        }
        assert(data@.subrange(0, data@.len() as int) =~= data@);
        let ghost all = buf@;
        let mut chunks: Vec<Vec<u8>> = Vec::new();
        let mut run: Vec<u8> = Vec::new();
        let mut i: usize = 0;
        let mut kind: u8 = 0;
        proof {
            assert(all.subrange(0, all.len() as int) =~= all);
            assert(chunk_bytes(chunks@) =~= Seq::<Seq<u8>>::empty());
            assert(concat(chunk_bytes(chunks@)) + run@ + drain(all).0 =~= drain(all).0);
        }
        while i < buf.len() && kind != 2
            invariant
                buf@ == all,
                i <= all.len(),
                chunks_ok(chunks@),
                well_formed(run@),
                drain(all).0 == concat(chunk_bytes(chunks@)) + run@ + drain(
                    all.subrange(i as int, all.len() as int),
                ).0,
                drain(all).1 == if kind == 2 {
                    all.subrange(i as int, all.len() as int)
                } else {
                    drain(all.subrange(i as int, all.len() as int)).1
                },
                kind == 2 ==> i < all.len() && step(all.subrange(i as int, all.len() as int))
                    is Incomplete,
            decreases all.len() - i, (if kind == 2 { 0int } else { 1int }),
        {
            let ghost s = all.subrange(i as int, all.len() as int);
            let found = step_at(&buf, i);
            proof {
                lemma_step_facts(s);
            }
            if found.0 == 0 {
                let n = found.1;
                let ghost old_run = run@;
                let mut m: usize = 0;
                while m < n
                    invariant
                        buf@ == all,
                        all.len() <= usize::MAX,
                        i + n <= all.len(),
                        m <= n,
                        run@ == old_run + all.subrange(i as int, i + m),
                    decreases n - m,
                {
                    run.push(buf[i + m]);
                    m = m + 1;
                    assert(run@ =~= old_run + all.subrange(i as int, i + m));
                }
                proof {
                    lemma_char_well_formed(s, n as nat);
                    assert(s.subrange(0, n as int) =~= all.subrange(i as int, i + n));
                    lemma_well_formed_concat(old_run, s.subrange(0, n as int));
                    assert(s.subrange(n as int, s.len() as int) =~= all.subrange(
                        i + n,
                        all.len() as int,
                    ));
                }
                i = i + n;
            } else if found.0 == 1 {
                let k = found.1;
                if run.len() > 0 {
                    let mut done: Vec<u8> = Vec::new();
                    std::mem::swap(&mut done, &mut run);
                    push_chunk(&mut chunks, done);
                }
                proof {
                    lemma_replacement_well_formed();
                    assert(s.subrange(k as int, s.len() as int) =~= all.subrange(
                        i + k,
                        all.len() as int,
                    ));
                    assert(run@ =~= Seq::<u8>::empty());
                }
                push_chunk(&mut chunks, replacement_chunk());
                i = i + k;
            } else {
                kind = 2;
            }
        }
        if run.len() > 0 {
            push_chunk(&mut chunks, run);
        }
        let mut rest: Vec<u8> = Vec::new();
        let mut m: usize = i;
        while m < buf.len()
            invariant
                buf@ == all,
                i <= m <= all.len(),
                rest@ == all.subrange(i as int, m as int),
            decreases all.len() - m,
        {
            rest.push(buf[m]);
            m = m + 1;
            assert(rest@ =~= all.subrange(i as int, m as int));
        }
        proof {
            let s = all.subrange(i as int, all.len() as int);
            if kind != 2 {
                assert(s.len() == 0);
            }
            assert(rest@ =~= drain(all).1);
            assert(concat(chunk_bytes(chunks@)) =~= drain(all).0);
        }
        self.pending = rest;
        chunks
    }

    fn finish_bytes(&mut self) -> (chunks: Vec<Vec<u8>>)
        requires
            old(self).wf(),
        ensures
            final(self).wf(),
            final(self).pending_bytes() == Seq::<u8>::empty(),
            chunks_ok(chunks@),
            concat(chunk_bytes(chunks@)) == lossy(old(self).pending_bytes()),
    {
        let mut chunks: Vec<Vec<u8>> = Vec::new();
        proof {
            assert(chunk_bytes(chunks@) =~= Seq::<Seq<u8>>::empty());
        }
        if self.pending.len() > 0 {
            proof {
                lemma_replacement_well_formed();
            }
            push_chunk(&mut chunks, replacement_chunk());
            proof {
                assert(Seq::<u8>::empty() + replacement() =~= replacement());
            }
        }
        self.pending = Vec::new();
        chunks
    }

    /// Takes one read of bytes, and returns the chunks of text that can be
    /// emitted now: all that `drain` decides of the held-back bytes followed
    /// by `data`. No chunk is empty.
    pub fn push(&mut self, data: &[u8]) -> (chunks: Vec<String>)
        requires
            old(self).wf(),
        ensures
            final(self).wf(),
            texts_ok(chunks@),
            concat(text_bytes(chunks@)) == drain(old(self).pending_bytes() + data@).0,
            final(self).pending_bytes() == drain(old(self).pending_bytes() + data@).1,
    {
        let raw = self.push_bytes(data);
        texts_of(&raw)
    }

    /// Ends the stream: the held-back bytes, which no further read can
    /// complete, are rendered as `lossy` renders them.
    pub fn finish(&mut self) -> (chunks: Vec<String>)
        requires
            old(self).wf(),
        ensures
            final(self).wf(),
            final(self).pending_bytes() == Seq::<u8>::empty(),
            texts_ok(chunks@),
            concat(text_bytes(chunks@)) == lossy(old(self).pending_bytes()),
    {
        let raw = self.finish_bytes();
        texts_of(&raw)
    }
}

/// Each chunk of text viewed as its UTF-8 bytes.
pub open spec fn text_bytes(c: Seq<String>) -> Seq<Seq<u8>> {
    c.map_values(|t: String| encode_utf8(t@))
}

/// Chunks of text as the decoder hands them out: none empty.
pub open spec fn texts_ok(c: Seq<String>) -> bool {
    forall|i: int| 0 <= i < c.len() ==> (#[trigger] c[i])@.len() > 0
}

/// Relies on `String::from_utf8`: valid UTF-8 bytes become the string of the
/// characters they encode.
#[verifier::external_body]
fn text_of(bytes: &Vec<u8>) -> (r: String)
    requires
        valid_utf8(bytes@),
    ensures
        r@ == decode_utf8(bytes@),
{
    String::from_utf8(bytes.clone()).unwrap_or_default()
}

fn texts_of(chunks: &Vec<Vec<u8>>) -> (r: Vec<String>)
    requires
        chunks_ok(chunks@),
    ensures
        texts_ok(r@),
        text_bytes(r@) == chunk_bytes(chunks@),
{
    let mut r: Vec<String> = Vec::new();
    let mut i: usize = 0;
    while i < chunks.len()
        invariant
            i <= chunks@.len(),
            chunks_ok(chunks@),
            r@.len() == i,
            texts_ok(r@),
            forall|j: int| 0 <= j < i ==> encode_utf8((#[trigger] r@[j])@) == chunks@[j]@,
        decreases chunks@.len() - i,
    {
        let c = &chunks[i];
        proof {
            lemma_well_formed_valid(c@);
            decode_utf8_encode_utf8(c@);
        }
        let t = text_of(c);
        proof {
            if t@.len() == 0 {
                assert(encode_utf8(t@) =~= Seq::<u8>::empty());
            }
        }
        r.push(t);
        i = i + 1;
    }
    assert(text_bytes(r@) =~= chunk_bytes(chunks@));
    r
}

/// The bytes emitted and the bytes held back after feeding `reads` one after
/// another to a decoder that held `held` before them.
pub open spec fn feed_all(held: Seq<u8>, reads: Seq<Seq<u8>>) -> (Seq<u8>, Seq<u8>)
    decreases reads.len(),
{
    if reads.len() == 0 {
        (seq![], held)
    } else {
        let prev = feed_all(held, reads.drop_last());
        let d = drain(prev.1 + reads.last());
        (prev.0 + d.0, d.1)
    }
}

proof fn lemma_feed_all_lossy(held: Seq<u8>, reads: Seq<Seq<u8>>, r: Seq<u8>)
    ensures
        feed_all(held, reads).0 + lossy(feed_all(held, reads).1 + r) == lossy(
            held + concat(reads) + r,
        ),
    decreases reads.len(),
{
    if reads.len() == 0 {
        assert(held + concat(reads) + r =~= held + r);
        assert(feed_all(held, reads).0 + lossy(feed_all(held, reads).1 + r) =~= lossy(held + r));
    } else {
        let prev = feed_all(held, reads.drop_last());
        let last = reads.last();
        lemma_feed_all_lossy(held, reads.drop_last(), last + r);
        lemma_drain_lossy(prev.1 + last, r);
        assert(prev.1 + (last + r) =~= prev.1 + last + r);
        assert(held + concat(reads.drop_last()) + (last + r) =~= held + concat(reads) + r);
        let d = drain(prev.1 + last);
        assert(feed_all(held, reads).0 + lossy(feed_all(held, reads).1 + r) =~= prev.0 + (d.0
            + lossy(d.1 + r)));
    }
}

/// The lossy rendering of any byte sequence is well-formed UTF-8.
pub proof fn lemma_lossy_well_formed(s: Seq<u8>)
    ensures
        well_formed(lossy(s)),
    decreases s.len(),
{
    if s.len() > 0 {
        lemma_step_facts(s);
        lemma_replacement_well_formed();
        match step(s) {
            Step::Char(n) => {
                let rest = s.subrange(n as int, s.len() as int);
                lemma_lossy_well_formed(rest);
                lemma_char_well_formed(s, n);
                lemma_well_formed_concat(s.subrange(0, n as int), lossy(rest));
            },
            Step::Invalid(k) => {
                let rest = s.subrange(k as int, s.len() as int);
                lemma_lossy_well_formed(rest);
                lemma_well_formed_concat(replacement(), lossy(rest));
            },
            Step::Incomplete => {},
        }
    }
}

/// However a byte stream is cut into reads, what a fresh decoder emits for the
/// reads, followed by what it emits at the end of the stream, is the lossy
/// rendering of the whole stream; that rendering is well-formed UTF-8, so no
/// character is ever split between chunks.
pub proof fn lemma_reassembly_is_lossy(reads: Seq<Seq<u8>>)
    ensures
        feed_all(seq![], reads).0 + lossy(feed_all(seq![], reads).1) == lossy(concat(reads)),
        well_formed(lossy(concat(reads))),
{
    let e = Seq::<u8>::empty();
    lemma_feed_all_lossy(e, reads, e);
    assert(e + concat(reads) + e =~= concat(reads));
    assert(feed_all(e, reads).1 + e =~= feed_all(e, reads).1);
    lemma_lossy_well_formed(concat(reads));
}

/// Two ways of cutting the same stream into reads give the same output.
pub proof fn lemma_reassembly_ignores_cuts(a: Seq<Seq<u8>>, b: Seq<Seq<u8>>)
    requires
        concat(a) == concat(b),
    ensures
        feed_all(seq![], a).0 + lossy(feed_all(seq![], a).1) == feed_all(seq![], b).0 + lossy(
            feed_all(seq![], b).1,
        ),
{
    lemma_reassembly_is_lossy(a);
    lemma_reassembly_is_lossy(b);
}

proof fn lemma_width_2_scalar(b0: u8, b1: u8)
    requires
        0xC2 <= b0 <= 0xDF,
        0x80 <= b1 <= 0xBF,
    ensures
        0x80 <= codepoint_width_2(b0, b1) <= 0x7FF,
{
    assert(0x80 <= ((((b0 & 0x1F) as u32) << 6) | ((b1 & 0x3F) as u32)) <= 0x7FF) by (bit_vector)
        requires
            0xC2 <= b0 <= 0xDF,
            0x80 <= b1 <= 0xBF,
    ;
}

proof fn lemma_width_3_scalar(b0: u8, b1: u8, b2: u8)
    requires
        0xE0 <= b0 <= 0xEF,
        continues(b0, 1, b1),
        0x80 <= b2 <= 0xBF,
    ensures
        0x800 <= codepoint_width_3(b0, b1, b2) <= 0xFFFF,
        !(0xD800 <= codepoint_width_3(b0, b1, b2) <= 0xDFFF),
{
    let c = codepoint_width_3(b0, b1, b2);
    assert(c == ((((b0 & 0x0F) as u32) << 12) | (((b1 & 0x3F) as u32) << 6) | ((b2
        & 0x3F) as u32)));
    if b0 == 0xE0 {
        assert(0x800 <= ((((b0 & 0x0F) as u32) << 12) | (((b1 & 0x3F) as u32) << 6) | ((b2
            & 0x3F) as u32)) <= 0xFFF) by (bit_vector)
            requires
                b0 == 0xE0,
                0xA0 <= b1 <= 0xBF,
                0x80 <= b2 <= 0xBF,
        ;
    } else if b0 == 0xED {
        assert(0xD000 <= ((((b0 & 0x0F) as u32) << 12) | (((b1 & 0x3F) as u32) << 6) | ((b2
            & 0x3F) as u32)) <= 0xD7FF) by (bit_vector)
            requires
                b0 == 0xED,
                0x80 <= b1 <= 0x9F,
                0x80 <= b2 <= 0xBF,
        ;
    } else {
        assert({
            let x = (((b0 & 0x0F) as u32) << 12) | (((b1 & 0x3F) as u32) << 6) | ((b2
                & 0x3F) as u32);
            0x1000 <= x <= 0xFFFF && !(0xD800 <= x <= 0xDFFF)
        }) by (bit_vector)
            requires
                0xE1 <= b0 <= 0xEF,
                b0 != 0xED,
                0x80 <= b1 <= 0xBF,
                0x80 <= b2 <= 0xBF,
        ;
    }
}

proof fn lemma_width_4_scalar(b0: u8, b1: u8, b2: u8, b3: u8)
    requires
        0xF0 <= b0 <= 0xF4,
        continues(b0, 1, b1),
        0x80 <= b2 <= 0xBF,
        0x80 <= b3 <= 0xBF,
    ensures
        0x10000 <= codepoint_width_4(b0, b1, b2, b3) <= 0x10FFFF,
{
    let c = codepoint_width_4(b0, b1, b2, b3);
    assert(c == ((((b0 & 0x07) as u32) << 18) | (((b1 & 0x3F) as u32) << 12) | (((b2
        & 0x3F) as u32) << 6) | ((b3 & 0x3F) as u32)));
    assert(0x10000 <= ((((b0 & 0x07) as u32) << 18) | (((b1 & 0x3F) as u32) << 12) | (((b2
        & 0x3F) as u32) << 6) | ((b3 & 0x3F) as u32)) <= 0x10FFFF) by (bit_vector)
        requires
            0xF0 <= b0 <= 0xF4,
            b0 == 0xF0 ==> 0x90 <= b1 <= 0xBF,
            b0 == 0xF4 ==> 0x80 <= b1 <= 0x8F,
            0x80 <= b1 <= 0xBF,
            0x80 <= b2 <= 0xBF,
            0x80 <= b3 <= 0xBF,
    ;
}

proof fn lemma_char_is_scalar(s: Seq<u8>, n: nat)
    requires
        s.len() > 0,
        step(s) == Step::Char(n),
    ensures
        valid_first_scalar(s),
        length_of_first_scalar(s) == n,
{
    lemma_step_facts(s);
    if n == 2 {
        lemma_width_2_scalar(s[0], s[1]);
    } else if n == 3 {
        lemma_width_3_scalar(s[0], s[1], s[2]);
    } else if n == 4 {
        lemma_width_4_scalar(s[0], s[1], s[2], s[3]);
    }
}

/// Bytes that are well-formed here are valid UTF-8 in vstd's sense.
proof fn lemma_well_formed_valid(s: Seq<u8>)
    requires
        well_formed(s),
    ensures
        valid_utf8(s),
    decreases s.len(),
{
    if s.len() > 0 {
        if let Step::Char(n) = step(s) {
            lemma_char_is_scalar(s, n);
            lemma_well_formed_valid(s.subrange(n as int, s.len() as int));
            assert(pop_first_scalar(s) == s.subrange(n as int, s.len() as int));
        }
    }
}

} // verus!
