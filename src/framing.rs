//! Line framing: a frame is a run of bytes terminated by a newline (0x0A).
use vstd::prelude::*;

verus! {

/// The byte that ends every frame.
pub const NEWLINE: u8 = 10;

/// Scans `s` from the left: the frames completed so far, and the bytes of
/// the frame still open (not yet terminated by a newline).
pub open spec fn scan(s: Seq<u8>) -> (Seq<Seq<u8>>, Seq<u8>)
    decreases s.len(),
{
    if s.len() == 0 {
        (Seq::empty(), Seq::empty())
    } else {
        let (done, open) = scan(s.drop_last());
        if s.last() == NEWLINE {
            (done.push(open), Seq::empty())
        } else {
            (done, open.push(s.last()))
        }
    }
}

/// The complete frames of `s`, each without its newline.
pub open spec fn complete_frames(s: Seq<u8>) -> Seq<Seq<u8>> {
    scan(s).0
}

/// The bytes after the last newline of `s`: an unterminated frame.
pub open spec fn unterminated_tail(s: Seq<u8>) -> Seq<u8> {
    scan(s).1
}

pub open spec fn has_newline(s: Seq<u8>) -> bool {
    exists|i: int| 0 <= i < s.len() && s[i] == NEWLINE
}

pub open spec fn frames_view(v: Seq<Vec<u8>>) -> Seq<Seq<u8>> {
    v.map_values(|f: Vec<u8>| f@)
}

/// Splits a byte buffer into its complete frames, each without its
/// newline. Bytes after the last newline are not a frame and are dropped.
pub fn split_frames(data: &Vec<u8>) -> (frames: Vec<Vec<u8>>)
    ensures
        frames_view(frames@) == complete_frames(data@),
{
    let mut frames: Vec<Vec<u8>> = Vec::new();
    let mut open: Vec<u8> = Vec::new();
    let mut i: usize = 0;
    while i < data.len()
        invariant
            i <= data@.len(),
            frames_view(frames@) == scan(data@.subrange(0, i as int)).0,
            open@ == scan(data@.subrange(0, i as int)).1,
        decreases data@.len() - i,
    {
        let b = data[i];
        proof {
            let pre = data@.subrange(0, i as int);
            let next = data@.subrange(0, i + 1);
            assert(next.drop_last() =~= pre);
            assert(next.last() == b);
        }
        if b == NEWLINE {
            let done = open;
            open = Vec::new();
            let ghost old_frames = frames@;
            frames.push(done);
            proof {
                assert(frames_view(frames@) =~= frames_view(old_frames).push(done@));
            }
        } else {
            open.push(b);
        }
        i = i + 1;
    }
    proof {
        assert(data@.subrange(0, data@.len() as int) =~= data@);
    }
    frames
}

/// The reading side of a connection: bytes arrive in arbitrary chunks and
/// leave as complete frames. The unterminated end of the stream is held
/// until its newline arrives, and dropped if the stream ends first.
pub struct LineBuffer {
    open: Vec<u8>,
}

impl LineBuffer {
    /// The bytes received after the last newline.
    pub closed spec fn spec_open(&self) -> Seq<u8> {
        self.open@
    }

    pub open spec fn wf(&self) -> bool {
        !has_newline(self.spec_open())
    }

    pub fn new() -> (b: LineBuffer)
        ensures
            b.wf(),
            b.spec_open() == Seq::<u8>::empty(),
    {
        LineBuffer { open: Vec::new() }
    }

    /// Takes in the next chunk of the stream and returns the frames it
    /// completes: the frames of everything held so far followed by `chunk`.
    pub fn feed(&mut self, chunk: &Vec<u8>) -> (frames: Vec<Vec<u8>>)
        requires
            old(self).wf(),
        ensures
            final(self).wf(),
            frames_view(frames@) == complete_frames(old(self).spec_open() + chunk@),
            final(self).spec_open() == unterminated_tail(old(self).spec_open() + chunk@),
    {
        let ghost start = self.open@;
        proof {
            lemma_scan_append_plain(Seq::empty(), start);
            assert(Seq::<u8>::empty() + start =~= start);
            assert(scan(Seq::<u8>::empty()).1 + start =~= start);
            assert(start + chunk@.subrange(0, 0) =~= start);
        }
        let mut frames: Vec<Vec<u8>> = Vec::new();
        let mut i: usize = 0;
        while i < chunk.len()
            invariant
                i <= chunk@.len(),
                frames_view(frames@) == scan(start + chunk@.subrange(0, i as int)).0,
                self.open@ == scan(start + chunk@.subrange(0, i as int)).1,
            decreases chunk@.len() - i,
        {
            let b = chunk[i];
            proof {
                let pre = start + chunk@.subrange(0, i as int);
                let next = start + chunk@.subrange(0, i + 1);
                assert(next.drop_last() =~= pre);
                assert(next.last() == b);
            }
            if b == NEWLINE {
                let ghost held = self.open@;
                let done = self.open.split_off(0);
                let ghost old_frames = frames@;
                frames.push(done);
                proof {
                    assert(done@ =~= held);
                    assert(self.open@ =~= Seq::<u8>::empty());
                    assert(frames_view(frames@) =~= frames_view(old_frames).push(done@));
                }
            } else {
                self.open.push(b);
            }
            i = i + 1;
        }
        proof {
            assert(chunk@.subrange(0, chunk@.len() as int) =~= chunk@);
            lemma_scan_open_has_no_newline(start + chunk@);
        }
        frames
    }

    /// The stream has ended: what is held lacks its newline and is dropped.
    /// Returns how many bytes were dropped.
    pub fn finish(self) -> (dropped: usize)
        ensures
            dropped == self.spec_open().len(),
    {
        self.open.len()
    }
}

/// Encodes one frame: the payload followed by a newline.
pub fn encode_frame(payload: &Vec<u8>) -> (line: Vec<u8>)
    ensures
        line@ == payload@.push(NEWLINE),
{
    let mut line = payload.clone();
    line.push(NEWLINE);
    line
}

/// Scanning never yields a newline inside an open frame.
proof fn lemma_scan_open_has_no_newline(s: Seq<u8>)
    ensures
        !has_newline(scan(s).1),
    decreases s.len(),
{
    if s.len() > 0 {
        lemma_scan_open_has_no_newline(s.drop_last());
    }
}

/// Appending bytes with no newline only extends the open frame.
proof fn lemma_scan_append_plain(s: Seq<u8>, t: Seq<u8>)
    requires
        !has_newline(t),
    ensures
        scan(s + t).0 == scan(s).0,
        scan(s + t).1 == scan(s).1 + t,
    decreases t.len(),
{
    if t.len() == 0 {
        assert(s + t =~= s);
        assert(scan(s).1 + t =~= scan(s).1);
    } else {
        let t0 = t.drop_last();
        assert(!has_newline(t0)) by {
            if has_newline(t0) {
                let i = choose|i: int| 0 <= i < t0.len() && t0[i] == NEWLINE;
                assert(t[i] == NEWLINE);
            }
        }
        lemma_scan_append_plain(s, t0);
        assert((s + t).drop_last() =~= s + t0);
        assert(t.last() == t[t.len() - 1]);
        assert((s + t).last() == t.last());
        assert(scan(s).1 + t =~= (scan(s).1 + t0).push(t.last()));
    }
}

/// A last line that lacks its newline when the stream ends is discarded:
/// appending bytes without a newline adds no frame.
pub proof fn lemma_unterminated_line_discarded(s: Seq<u8>, t: Seq<u8>)
    requires
        !has_newline(t),
    ensures
        complete_frames(s + t) == complete_frames(s),
{
    lemma_scan_append_plain(s, t);
}

/// Encoding a payload with no newline and splitting it again gives back
/// exactly that one payload.
pub proof fn lemma_frame_round_trip(payload: Seq<u8>)
    requires
        !has_newline(payload),
    ensures
        complete_frames(payload.push(NEWLINE)) == seq![payload],
        unterminated_tail(payload.push(NEWLINE)) == Seq::<u8>::empty(),
{
    lemma_scan_append_plain(Seq::empty(), payload);
    assert(Seq::<u8>::empty() + payload =~= payload);
    assert(payload.push(NEWLINE).drop_last() =~= payload);
    assert(scan(Seq::<u8>::empty()).1 + payload =~= payload);
    assert(seq![payload] =~= Seq::<Seq<u8>>::empty().push(payload));
}

} // verus!
