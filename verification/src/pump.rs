use vstd::prelude::*;
use vstd::string::StringExecFns;
use vstd::utf8::{
    decode_utf8, decode_utf8_split, is_char_boundary, is_char_boundary_iff_not_is_continuation_byte,
    is_char_boundary_start_end_of_seq, valid_utf8, valid_utf8_concat,
};

verus! {

/// What one bounded read on an output channel produced, as handed in by the
/// runner that owns the channel's handle.
pub enum ReadEvent {
    /// The read returned one or more bytes.
    Data { bytes: Vec<u8> },
    /// The read returned zero bytes: end of stream for this channel.
    Eof,
    /// The read failed; the OS error rendered as text.
    Failed { os_error: String },
}

/// A unit of decoded text pushed to the subscriber as soon as it is
/// available; not aligned to lines.
#[derive(Debug)]
pub struct OutputChunk {
    pub text: String,
}

/// Decoded text of `bytes` under std's replacement-lossy UTF-8 decoding: a
/// function of the bytes alone.
pub uninterp spec fn lossy_text(bytes: Seq<u8>) -> Seq<char>;

/// Relies on String::from_utf8_lossy: the result depends on the bytes
/// alone; valid UTF-8 passes through unchanged and invalid sequences are
/// replaced with a placeholder, never an error.
#[verifier::external_body]
fn decode_lossy(bytes: &Vec<u8>) -> (r: String)
    ensures
        r@ == lossy_text(bytes@),
        valid_utf8(bytes@) ==> r@ == decode_utf8(bytes@),
        bytes@.len() == 0 ==> r@.len() == 0,
{
    String::from_utf8_lossy(bytes.as_slice()).into_owned()
}

/// Concatenation, in delivery order, of the byte payloads of a pump's
/// chunks.
pub open spec fn flatten_bytes(chunks: Seq<Seq<u8>>) -> Seq<u8>
    decreases chunks.len(),
{
    if chunks.len() == 0 {
        Seq::empty()
    } else {
        flatten_bytes(chunks.drop_last()) + chunks.last()
    }
}

/// One output-channel pump: it decodes each read and forwards the chunk at
/// once, keeping (as ghost history) the bytes the channel yielded and the
/// chunks forwarded, so that delivery order and content can be related to
/// the channel's byte stream.
pub struct Pump {
    finished: bool,
    bytes_seen: Ghost<Seq<u8>>,
    chunk_bytes: Ghost<Seq<Seq<u8>>>,
    chunk_texts: Ghost<Seq<Seq<char>>>,
}

impl Pump {
    /// Has this pump stopped (end of stream or read error)?
    pub closed spec fn finished(self) -> bool {
        self.finished
    }

    /// Every byte the channel has yielded, in arrival order.
    pub closed spec fn bytes_seen(self) -> Seq<u8> {
        self.bytes_seen@
    }

    /// Byte payload of each forwarded chunk, in delivery order.
    pub closed spec fn chunks(self) -> Seq<Seq<u8>> {
        self.chunk_bytes@
    }

    /// Text of each forwarded chunk, in delivery order.
    pub closed spec fn texts(self) -> Seq<Seq<char>> {
        self.chunk_texts@
    }

    /// The pump's history is consistent: the chunks partition the channel's
    /// byte stream, and each chunk's text is the decoding of its bytes.
    pub open spec fn wf(self) -> bool {
        &&& flatten_bytes(self.chunks()) == self.bytes_seen()
        &&& self.texts().len() == self.chunks().len()
        &&& forall|i: int|
            0 <= i < self.chunks().len() ==> self.texts()[i] == lossy_text(#[trigger] self.chunks()[i])
    }

    /// A fresh pump has seen nothing and forwarded nothing.
    pub fn new() -> (p: Pump)
        ensures
            p.wf(),
            !p.finished(),
            p.bytes_seen() == Seq::<u8>::empty(),
            p.chunks() == Seq::<Seq<u8>>::empty(),
    {
        Pump {
            finished: false,
            bytes_seen: Ghost(Seq::empty()),
            chunk_bytes: Ghost(Seq::empty()),
            chunk_texts: Ghost(Seq::empty()),
        }
    }

    /// One pump iteration. Data is decoded tolerantly and forwarded at once
    /// as a chunk; a zero-length read ends the pump without error and
    /// without a chunk; a read error ends the pump with a final report
    /// chunk that carries the OS error. Only data chunks enter the
    /// delivered history.
    pub fn step(&mut self, event: ReadEvent) -> (out: Option<OutputChunk>)
        requires
            !old(self).finished(),
            old(self).wf(),
        ensures
            final(self).wf(),
            match event {
                ReadEvent::Data { bytes } => {
                    &&& out matches Some(c) && c.text@ == lossy_text(bytes@)
                    &&& (valid_utf8(bytes@) ==> (out matches Some(c) && c.text@ == decode_utf8(
                        bytes@,
                    )))
                    &&& final(self).chunks() == old(self).chunks().push(bytes@)
                    &&& final(self).bytes_seen() == old(self).bytes_seen() + bytes@
                    &&& !final(self).finished()
                },
                ReadEvent::Eof => {
                    &&& out is None
                    &&& final(self).finished()
                    &&& final(self).chunks() == old(self).chunks()
                    &&& final(self).bytes_seen() == old(self).bytes_seen()
                },
                ReadEvent::Failed { os_error } => {
                    &&& out matches Some(c) && c.text@ == "read error: "@ + os_error@
                    &&& final(self).finished()
                    &&& final(self).chunks() == old(self).chunks()
                    &&& final(self).bytes_seen() == old(self).bytes_seen()
                },
            },
    {
        match event {
            ReadEvent::Data { bytes } => {
                let text = decode_lossy(&bytes);
                proof {
                    let prev = self.chunk_bytes@;
                    let now = prev.push(bytes@);
                    assert(now.drop_last() =~= prev);
                    assert(flatten_bytes(now) == flatten_bytes(prev) + bytes@);
                }
                self.bytes_seen = Ghost(self.bytes_seen@ + bytes@);
                self.chunk_bytes = Ghost(self.chunk_bytes@.push(bytes@));
                self.chunk_texts = Ghost(self.chunk_texts@.push(text@));
                Some(OutputChunk { text })
            },
            ReadEvent::Eof => {
                self.finished = true;
                None
            },
            ReadEvent::Failed { os_error } => {
                self.finished = true;
                let report = "read error: ".to_owned().concat(os_error.as_str());
                Some(OutputChunk { text: report })
            },
        }
    }
}

/// Per-channel round trip: for any byte sequence a channel yielded, the
/// concatenation of the chunks the pump forwarded for that channel, in
/// delivery order, is exactly that byte sequence, and each chunk was
/// delivered as its bytes' decoded text.
pub proof fn lemma_channel_round_trip(p: Pump)
    requires
        p.wf(),
    ensures
        flatten_bytes(p.chunks()) == p.bytes_seen(),
        forall|i: int| 0 <= i < p.chunks().len() ==> p.texts()[i] == lossy_text(#[trigger] p.chunks()[i]),
{
}

/// Concatenation, in delivery order, of the texts of a pump's chunks.
pub open spec fn flatten_texts(texts: Seq<Seq<char>>) -> Seq<char>
    decreases texts.len(),
{
    if texts.len() == 0 {
        Seq::empty()
    } else {
        flatten_texts(texts.drop_last()) + texts.last()
    }
}

proof fn lemma_concat_boundary(a: Seq<u8>, b: Seq<u8>)
    requires
        valid_utf8(a),
        valid_utf8(b),
    ensures
        is_char_boundary(a + b, a.len() as int),
{
    valid_utf8_concat(a, b);
    if b.len() == 0 {
        assert(a + b =~= a);
        is_char_boundary_start_end_of_seq(a);
    } else {
        assert(is_char_boundary(b, 0));
        is_char_boundary_iff_not_is_continuation_byte(b, 0);
        assert((a + b)[a.len() as int] == b[0]);
        is_char_boundary_iff_not_is_continuation_byte(a + b, a.len() as int);
    }
}

/// The round trip in terms of text: when every read taken from a channel
/// splits its byte stream at character boundaries (each chunk is valid
/// UTF-8 on its own), the concatenation of the delivered texts, in delivery
/// order, is exactly the whole byte stream decoded as text.
pub proof fn lemma_text_round_trip(chunks: Seq<Seq<u8>>, texts: Seq<Seq<char>>)
    requires
        texts.len() == chunks.len(),
        forall|i: int| 0 <= i < chunks.len() ==> valid_utf8(#[trigger] chunks[i]),
        forall|i: int| 0 <= i < chunks.len() ==> texts[i] == decode_utf8(#[trigger] chunks[i]),
    ensures
        valid_utf8(flatten_bytes(chunks)),
        flatten_texts(texts) == decode_utf8(flatten_bytes(chunks)),
    decreases chunks.len(),
{
    if chunks.len() == 0 {
        assert(flatten_bytes(chunks) =~= Seq::<u8>::empty());
        assert(valid_utf8(Seq::<u8>::empty()));
        assert(decode_utf8(Seq::<u8>::empty()) =~= Seq::<char>::empty());
    } else {
        let pre = chunks.drop_last();
        let pret = texts.drop_last();
        lemma_text_round_trip(pre, pret);
        let a = flatten_bytes(pre);
        let b = chunks.last();
        valid_utf8_concat(a, b);
        assert(flatten_bytes(chunks) == a + b);
        lemma_concat_boundary(a, b);
        decode_utf8_split(a + b, a.len() as int);
        assert((a + b).subrange(0, a.len() as int) =~= a);
        assert((a + b).subrange(a.len() as int, (a + b).len() as int) =~= b);
        assert(flatten_texts(texts) == flatten_texts(pret) + texts.last());
    }
}

} // verus!
