//! The stream layer: the byte-channel trait, the line framer and the line
//! writer.

use vstd::prelude::*;

verus! {

/// Whether positions `i`, `i + 1` of `s` hold the two-byte terminator CR LF.
pub open spec fn is_crlf_at(s: Seq<u8>, i: int) -> bool {
    0 <= i && i + 2 <= s.len() && s[i] == 13u8 && s[i + 1] == 10u8
}

/// Whether `s` contains the terminator anywhere.
pub open spec fn has_crlf(s: Seq<u8>) -> bool {
    exists|i: int| is_crlf_at(s, i)
}

/// Whether `p` is the first position of the terminator in `s`.
pub open spec fn is_first_crlf(s: Seq<u8>, p: int) -> bool {
    is_crlf_at(s, p) && forall|q: int| 0 <= q < p ==> !is_crlf_at(s, q)
}

/// A frame split: `line` is the prefix of `pending` up to and including its
/// first terminator, `rest` is everything after.
pub open spec fn framed(pending: Seq<u8>, line: Seq<u8>, rest: Seq<u8>) -> bool {
    exists|p: int|
        is_first_crlf(pending, p) && line == pending.subrange(0, p + 2) && rest == pending.skip(
            p + 2,
        )
}

/// A duplex byte channel: the minimal capability the framer and writer
/// depend on. `incoming` models the bytes the source will still deliver,
/// `accepted` the bytes the sink has accepted so far. Implementations live
/// outside the library (a TCP socket, an in-memory channel); the framer
/// and the writer are verified against these contracts for every
/// implementation that honors them.
pub trait Stream {
    /// The bytes this channel's source will still deliver, in order.
    /// Implementations outside the library keep the default.
    open spec fn incoming(&self) -> Seq<u8> {
        Seq::empty()
    }

    /// The bytes this channel's sink has accepted so far, in order.
    /// Implementations outside the library keep the default.
    open spec fn accepted(&self) -> Seq<u8> {
        Seq::empty()
    }

    /// Pulls at most `max` bytes from the source and appends them to
    /// `buf`. `Some(0)` means the source is exhausted; `None` is a hard
    /// failure, after which nothing is lost from the channel.
    fn read(&mut self, buf: &mut Vec<u8>, max: usize) -> (r: Option<usize>)
        requires
            max >= 1,
        ensures
            match r {
                Some(n) => n <= max && n <= old(self).incoming().len() && (n == 0
                    ==> old(self).incoming().len() == 0) && final(buf)@ == old(buf)@ + old(
                    self,
                ).incoming().subrange(0, n as int) && final(self).incoming() == old(
                    self,
                ).incoming().skip(n as int) && final(self).accepted() == old(self).accepted(),
                None => final(buf)@ == old(buf)@ && final(self).incoming() == old(self).incoming()
                    && final(self).accepted() == old(self).accepted(),
            },
    ;

    /// Hands a prefix of `data` to the sink; returns how much was
    /// accepted, or `None` on a hard failure.
    fn write(&mut self, data: &[u8]) -> (r: Option<usize>)
        ensures
            match r {
                Some(n) => n <= data@.len() && final(self).accepted() == old(self).accepted()
                    + data@.subrange(0, n as int) && final(self).incoming() == old(
                    self,
                ).incoming(),
                None => final(self).accepted() == old(self).accepted() && final(self).incoming()
                    == old(self).incoming(),
            },
    ;

    /// Pushes buffered bytes toward the peer; changes neither side of the
    /// model.
    fn flush(&mut self) -> (r: bool)
        ensures
            final(self).accepted() == old(self).accepted(),
            final(self).incoming() == old(self).incoming(),
    ;
}

/// Finds the first terminator that starts at or after `from`.
fn find_crlf(buf: &Vec<u8>, from: usize) -> (r: Option<usize>)
    requires
        from <= buf@.len(),
    ensures
        match r {
            Some(p) => from <= p && is_crlf_at(buf@, p as int) && forall|q: int|
                from <= q < p ==> !is_crlf_at(buf@, q),
            None => forall|q: int| from <= q ==> !is_crlf_at(buf@, q),
        },
{
    let n = buf.len();
    if n < 2 {
        return None;
    }
    let mut p = from;
    while p < n - 1
        invariant
            from <= p,
            n == buf@.len(),
            2 <= n,
            p <= n,
            forall|q: int| from <= q < p ==> !is_crlf_at(buf@, q),
        decreases n - p,
    {
        if buf[p] == 13u8 && buf[p + 1] == 10u8 {
            return Some(p);
        }
        p = p + 1;
    }
    None
}

/// A terminator-free sequence stays terminator-free in any prefix role:
/// when `shorter` is a prefix of `longer` and `longer` holds no terminator,
/// neither does `shorter`.
proof fn lemma_no_crlf_in_prefix(shorter: Seq<u8>, longer: Seq<u8>)
    requires
        shorter.is_prefix_of(longer),
        forall|q: int| !is_crlf_at(longer, q),
    ensures
        !has_crlf(shorter),
{
    assert forall|q: int| !is_crlf_at(shorter, q) by {
        if 0 <= q && q + 2 <= shorter.len() {
            assert(shorter[q] == longer[q]);
            assert(shorter[q + 1] == longer[q + 1]);
            assert(!is_crlf_at(longer, q));
        }
    }
}

/// The line framer: owns a byte buffer that persists across calls and cuts
/// the stream pulled from its channel into terminator-delimited frames.
pub struct StreamParser<T: Stream> {
    stream: T,
    buffer: Vec<u8>,
}

impl<T: Stream> StreamParser<T> {
    /// The bytes buffered but not yet returned as part of a frame.
    pub closed spec fn buffered(&self) -> Seq<u8> {
        self.buffer@
    }

    /// Everything this framer has not yet delivered: its buffered bytes
    /// followed by whatever the channel will still deliver.
    pub closed spec fn pending(&self) -> Seq<u8> {
        self.buffer@ + self.stream.incoming()
    }

    pub fn new(stream: T) -> (r: Self)
        ensures
            r.buffered().len() == 0,
            r.pending() == stream.incoming(),
    {
        let r = StreamParser { stream, buffer: Vec::with_capacity(512) };
        proof {
            assert(r.pending() =~= r.stream.incoming());
        }
        r
    }

    /// Returns the next frame: the pending bytes up to and including the
    /// first terminator, however the underlying reads were chunked.
    /// `Some` of an empty vector signals a clean end of stream (the source
    /// was exhausted with nothing pending). `None` is a hard failure: an
    /// exhausted source with undelimited bytes pending, or a failed read;
    /// nothing pending is lost either way.
    pub fn read_line(&mut self) -> (r: Option<Vec<u8>>)
        ensures
            match r {
                Some(line) => if line@.len() == 0 {
                    old(self).pending().len() == 0 && final(self).pending().len() == 0
                } else {
                    line@.len() >= 2 && is_first_crlf(line@, line@.len() - 2) && has_crlf(
                        old(self).pending(),
                    ) && framed(old(self).pending(), line@, final(self).pending()) && forall|p: int|
                        is_first_crlf(old(self).pending(), p) ==> line@ == old(
                            self,
                        ).pending().subrange(0, p + 2) && final(self).pending() == old(
                            self,
                        ).pending().skip(p + 2)
                },
                None => final(self).pending() == old(self).pending(),
            },
            has_crlf(old(self).buffered()) ==> r is Some,
    {
        let mut from: usize = 0;
        loop
            invariant
                from <= self.buffer@.len(),
                forall|q: int| 0 <= q < from ==> !is_crlf_at(self.buffer@, q),
                self.pending() == old(self).pending(),
                old(self).buffer@.is_prefix_of(self.buffer@),
                self.buffer@ == old(self).pending().subrange(0, self.buffer@.len() as int),
                has_crlf(old(self).buffer@) ==> has_crlf(self.buffer@),
            decreases self.stream.incoming().len(),
        {
            match find_crlf(&self.buffer, from) {
                Some(p) => {
                    let ghost pend = old(self).pending();
                    let ghost buf = self.buffer@;
                    let buffer_len = self.buffer.len();
                    proof {
                        assert(p + 2 <= buffer_len);
                    }
                    let mut line = self.buffer.split_off(p + 2);
                    core::mem::swap(&mut self.buffer, &mut line);
                    proof {
                        assert(is_crlf_at(pend, p as int)) by {
                            assert(pend[p as int] == buf[p as int]);
                            assert(pend[p as int + 1] == buf[p as int + 1]);
                        }
                        assert forall|q: int| 0 <= q < p implies !is_crlf_at(pend, q) by {
                            assert(!is_crlf_at(buf, q));
                            assert(pend[q] == buf[q]);
                            assert(pend[q + 1] == buf[q + 1]);
                        }
                        assert(is_first_crlf(pend, p as int));
                        assert(line@ == pend.subrange(0, p + 2)) by {
                            assert(line@ =~= pend.subrange(0, p + 2));
                        }
                        assert(self.pending() =~= pend.skip(p + 2));
                        assert(is_first_crlf(line@, line@.len() - 2)) by {
                            assert forall|q: int| 0 <= q < p implies !is_crlf_at(line@, q) by {
                                assert(!is_crlf_at(pend, q));
                                assert(line@[q] == pend[q]);
                                assert(line@[q + 1] == pend[q + 1]);
                            }
                        }
                        assert forall|p2: int| is_first_crlf(pend, p2) implies p2 == p by {
                            if p2 < p {
                                assert(!is_crlf_at(pend, p2));
                            } else if p2 > p {
                                assert(!is_crlf_at(pend, p as int));
                            }
                        }
                    }
                    return Some(line);
                },
                None => {
                    let blen = self.buffer.len();
                    from = if blen >= 1 {
                        blen - 1
                    } else {
                        0
                    };
                    let ghost pre = self.buffer@;
                    let ghost inc = self.stream.incoming();
                    let r = self.stream.read(&mut self.buffer, 512);
                    proof {
                        assert forall|q: int| 0 <= q < from implies !is_crlf_at(
                            self.buffer@,
                            q,
                        ) by {
                            assert(!is_crlf_at(pre, q));
                            assert(self.buffer@[q] == pre[q]);
                            assert(self.buffer@[q + 1] == pre[q + 1]);
                        }
                        if r is Some {
                            assert(self.buffer@ + self.stream.incoming() =~= pre + inc);
                            assert(self.buffer@ =~= old(self).pending().subrange(
                                0,
                                self.buffer@.len() as int,
                            ));
                            assert(old(self).buffer@.is_prefix_of(self.buffer@));
                        }
                    }
                    match r {
                        None => {
                            proof {
                                lemma_no_crlf_in_prefix(old(self).buffer@, pre);
                            }
                            return None;
                        },
                        Some(k) => {
                            if k == 0 {
                                if blen == 0 {
                                    proof {
                                        assert(old(self).pending().len() == 0);
                                    }
                                    return Some(Vec::new());
                                }
                                proof {
                                    lemma_no_crlf_in_prefix(old(self).buffer@, pre);
                                }
                                return None;
                            }
                        },
                    }
                },
            }
        }
    }
}

/// Hands all of `data` to the sink, looping over partial writes. `true`
/// only when everything was accepted; a sink that accepts nothing on some
/// call fails the write.
fn write_all<T: Stream>(stream: &mut T, data: &[u8]) -> (r: bool)
    ensures
        r ==> final(stream).accepted() == old(stream).accepted() + data@,
        exists|k: int|
            0 <= k <= data@.len() && final(stream).accepted() == old(stream).accepted()
                + data@.subrange(0, k),
        final(stream).incoming() == old(stream).incoming(),
{
    let len = data.len();
    let mut i: usize = 0;
    while i < len
        invariant
            i <= len,
            len == data@.len(),
            stream.accepted() == old(stream).accepted() + data@.subrange(0, i as int),
            stream.incoming() == old(stream).incoming(),
        decreases len - i,
    {
        let chunk = vstd::slice::slice_subrange(data, i, len);
        let ghost acc = stream.accepted();
        match stream.write(chunk) {
            Some(n) => {
                if n == 0 {
                    return false;
                }
                proof {
                    assert(acc + chunk@.subrange(0, n as int) =~= old(stream).accepted()
                        + data@.subrange(0, i + n));
                }
                i = i + n;
            },
            None => {
                return false;
            },
        }
    }
    proof {
        assert(data@.subrange(0, len as int) =~= data@);
    }
    true
}

/// The line writer: serializes one payload and the terminator to its
/// channel per call; no state is kept across calls.
pub struct StreamWriter<T: Stream> {
    stream: T,
}

impl<T: Stream> StreamWriter<T> {
    /// The bytes this writer's sink has accepted so far.
    pub closed spec fn accepted(&self) -> Seq<u8> {
        self.stream.accepted()
    }

    pub fn new(stream: T) -> (r: Self)
        ensures
            r.accepted() == stream.accepted(),
    {
        StreamWriter { stream }
    }

    /// Writes the payload followed by the terminator. `true` only when the
    /// sink accepted all of both; on failure nothing is promised about how
    /// much of the line reached the peer.
    pub fn write_line(&mut self, data: &Vec<u8>) -> (r: bool)
        ensures
            r ==> final(self).accepted() == old(self).accepted() + data@ + seq![13u8, 10u8],
            exists|k: int|
                0 <= k <= data@.len() + 2 && final(self).accepted() == old(self).accepted() + (
                data@ + seq![13u8, 10u8]).subrange(0, k),
    {
        let ghost line = data@ + seq![13u8, 10u8];
        if !write_all(&mut self.stream, data.as_slice()) {
            proof {
                let k = choose|k: int|
                    0 <= k <= data@.len() && self.stream.accepted() == old(self).accepted()
                        + data@.subrange(0, k);
                assert(data@.subrange(0, k) =~= line.subrange(0, k));
            }
            return false;
        }
        let crlf: Vec<u8> = vec![13u8, 10u8];
        proof {
            assert(crlf@ =~= seq![13u8, 10u8]);
        }
        let ghost mid = self.stream.accepted();
        let ok = write_all(&mut self.stream, crlf.as_slice());
        proof {
            let k = choose|k: int|
                0 <= k <= crlf@.len() && self.stream.accepted() == mid + crlf@.subrange(0, k);
            assert(mid + crlf@.subrange(0, k) =~= old(self).accepted() + line.subrange(
                0,
                data@.len() + k,
            ));
            if ok {
                assert(old(self).accepted() + data@ + seq![13u8, 10u8] =~= old(self).accepted() + (
                data@ + seq![13u8, 10u8]));
            }
        }
        ok
    }
}

// ---------------------------------------------------------------------------
// Laws of the framing layer.
// ---------------------------------------------------------------------------

/// Framing correctness: a pending byte sequence has at most one first
/// terminator position, so the frame and the retained remainder promised
/// by `read_line` — the bytes up to and including the terminator, and
/// everything after — are determined by the concatenation of the arriving
/// bytes alone, no matter how the underlying reads were chunked.
pub proof fn lemma_framing(pending: Seq<u8>, line1: Seq<u8>, rest1: Seq<u8>, line2: Seq<u8>, rest2: Seq<u8>)
    requires
        framed(pending, line1, rest1),
        framed(pending, line2, rest2),
    ensures
        line1 == line2,
        rest1 == rest2,
{
    let p1 = choose|p: int|
        is_first_crlf(pending, p) && line1 == pending.subrange(0, p + 2) && rest1 == pending.skip(
            p + 2,
        );
    let p2 = choose|p: int|
        is_first_crlf(pending, p) && line2 == pending.subrange(0, p + 2) && rest2 == pending.skip(
            p + 2,
        );
    if p1 < p2 {
        assert(!is_crlf_at(pending, p1));
    } else if p2 < p1 {
        assert(!is_crlf_at(pending, p2));
    }
}

/// Round-trip: a payload that contains no terminator, written as one line
/// (payload then terminator, as `write_line` sends it) and framed back,
/// yields exactly one frame — the whole written line, whose terminator-
/// stripped content is the payload that was written — with nothing left
/// over.
pub proof fn lemma_round_trip(payload: Seq<u8>)
    requires
        forall|i: int| !is_crlf_at(payload, i),
    ensures
        is_first_crlf(payload + seq![13u8, 10u8], payload.len() as int),
        framed(payload + seq![13u8, 10u8], payload + seq![13u8, 10u8], Seq::<u8>::empty()),
        (payload + seq![13u8, 10u8]).subrange(0, payload.len() as int) == payload,
{
    let w = payload + seq![13u8, 10u8];
    let n = payload.len() as int;
    assert(is_crlf_at(w, n));
    assert forall|q: int| 0 <= q < n implies !is_crlf_at(w, q) by {
        if q + 2 <= n {
            assert(!is_crlf_at(payload, q));
            assert(w[q] == payload[q]);
            assert(w[q + 1] == payload[q + 1]);
        } else {
            assert(w[q + 1] == 13u8);
        }
    }
    assert(w.subrange(0, n + 2) =~= w);
    assert(w.skip(n + 2) =~= Seq::<u8>::empty());
    assert(w.subrange(0, n) =~= payload);
}

} // verus!
