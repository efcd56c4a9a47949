//! Reassembly of one telegram from an arbitrarily chunked character stream.
//!
//! A chunk beginning with the start marker `/` opens a new telegram and
//! discards whatever the buffer held; any other chunk extends the buffer.
//! An extraction pass runs over the buffer after every assembled chunk, so
//! a telegram still being received is re-extracted at every chunk boundary
//! until the next start marker arrives. A closed stream ends the cycle and
//! an undecodable chunk is skipped; neither touches the buffer.

use vstd::prelude::*;

verus! {

/// Whether a chunk opens a new telegram.
pub open spec fn starts_with_marker(c: Seq<char>) -> bool {
    c.len() > 0 && c[0] == '/'
}

/// The buffer after one chunk: reseeded by a start marker, extended
/// otherwise.
pub open spec fn chunk_step(buffer: Seq<char>, chunk: Seq<char>) -> Seq<char> {
    if starts_with_marker(chunk) {
        chunk
    } else {
        buffer + chunk
    }
}

/// The buffer after a whole sequence of chunks, oldest first.
pub open spec fn run_chunks(init: Seq<char>, chunks: Seq<Seq<char>>) -> Seq<char>
    decreases chunks.len(),
{
    if chunks.len() == 0 {
        init
    } else {
        chunk_step(run_chunks(init, chunks.drop_last()), chunks.last())
    }
}

/// The concatenation of the chunks from position `i` on.
pub open spec fn concat_from(chunks: Seq<Seq<char>>, i: int) -> Seq<char>
    decreases chunks.len() - i,
{
    if i < 0 || i >= chunks.len() {
        Seq::empty()
    } else {
        chunks[i] + concat_from(chunks, i + 1)
    }
}

/// Position of the last chunk that begins with the start marker.
pub open spec fn last_marker(chunks: Seq<Seq<char>>) -> int
    decreases chunks.len(),
{
    if chunks.len() == 0 {
        -1
    } else if starts_with_marker(chunks.last()) {
        chunks.len() - 1
    } else {
        last_marker(chunks.drop_last())
    }
}

proof fn lemma_concat_drop_last(chunks: Seq<Seq<char>>, i: int)
    requires
        chunks.len() > 0,
        0 <= i <= chunks.len() - 1,
    ensures
        concat_from(chunks, i) == concat_from(chunks.drop_last(), i) + chunks.last(),
    decreases chunks.len() - i,
{
    let pre = chunks.drop_last();
    if i == chunks.len() - 1 {
        assert(concat_from(chunks, i) == chunks[i] + concat_from(chunks, i + 1));
        assert(chunks[i] + Seq::<char>::empty() =~= chunks[i]);
        assert(Seq::<char>::empty() + chunks.last() =~= chunks.last());
    } else {
        lemma_concat_drop_last(chunks, i + 1);
        assert(pre[i] == chunks[i]);
        assert(chunks[i] + (concat_from(pre, i + 1) + chunks.last()) =~= (chunks[i] + concat_from(
            pre,
            i + 1,
        )) + chunks.last());
    }
}

/// After a chunk sequence whose first chunk begins with the start marker,
/// the assembler's buffer holds exactly the concatenation of the chunks
/// since (and including) the last start marker, whatever the buffer held
/// before the sequence.
pub proof fn lemma_buffer_holds_current_telegram(init: Seq<char>, chunks: Seq<Seq<char>>)
    requires
        chunks.len() > 0,
        starts_with_marker(chunks[0]),
    ensures
        0 <= last_marker(chunks) < chunks.len(),
        run_chunks(init, chunks) == concat_from(chunks, last_marker(chunks)),
    decreases chunks.len(),
{
    let pre = chunks.drop_last();
    let c = chunks.last();
    if chunks.len() == 1 {
        assert(c == chunks[0]);
        assert(concat_from(chunks, 0) == chunks[0] + concat_from(chunks, 1));
        assert(chunks[0] + Seq::<char>::empty() =~= chunks[0]);
    } else {
        assert(pre[0] == chunks[0]);
        lemma_buffer_holds_current_telegram(init, pre);
        if starts_with_marker(c) {
            assert(concat_from(chunks, chunks.len() - 1) == c + concat_from(
                chunks,
                chunks.len() as int,
            ));
            assert(c + Seq::<char>::empty() =~= c);
        } else {
            lemma_concat_drop_last(chunks, last_marker(pre));
        }
    }
}

/// Removes carriage-return/line-feed pairs, left to right.
pub open spec fn strip_crlf(s: Seq<char>) -> Seq<char>
    decreases s.len(),
{
    if s.len() == 0 {
        s
    } else if s.len() >= 2 && s[0] == '\r' && s[1] == '\n' {
        strip_crlf(s.skip(2))
    } else {
        seq![s[0]] + strip_crlf(s.skip(1))
    }
}

/// The text with carriage-return/line-feed pairs removed, as handed to an
/// extraction pass.
pub fn strip_crlf_text(s: &str) -> (r: String)
    ensures
        r@ == strip_crlf(s@),
{
    let len = s.unicode_len();
    let mut out = String::new();
    let mut i: usize = 0;
    proof {
        assert(s@.skip(0) =~= s@);
        assert(out@ + s@ =~= s@);
    }
    while i < len
        invariant
            i <= len,
            len == s@.len(),
            out@ + strip_crlf(s@.skip(i as int)) == strip_crlf(s@),
        decreases len - i,
    {
        let c = s.get_char(i);
        if c == '\r' && i + 1 < len && s.get_char(i + 1) == '\n' {
            proof {
                assert(s@.skip(i as int)[0] == s@[i as int]);
                assert(s@.skip(i as int)[1] == s@[i as int + 1]);
                assert(s@.skip(i as int).skip(2) =~= s@.skip(i as int + 2));
            }
            i = i + 2;
        } else {
            let ghost out_pre = out@;
            let piece = s.substring_char(i, i + 1);
            out.append(piece);
            proof {
                assert(s@.skip(i as int)[0] == s@[i as int]);
                assert(s@.skip(i as int).skip(1) =~= s@.skip(i as int + 1));
                assert(s@.subrange(i as int, i as int + 1) =~= seq![s@[i as int]]);
                assert(out@ + strip_crlf(s@.skip(i as int + 1)) =~= out_pre + strip_crlf(
                    s@.skip(i as int),
                ));
            }
            i = i + 1;
        }
    }
    proof {
        assert(s@.skip(len as int) =~= Seq::<char>::empty());
        assert(out@ + strip_crlf(s@.skip(len as int)) =~= out@);
    }
    out
}

/// What one read from the stream delivered.
pub enum ChunkEvent {
    /// A zero-length read: the connection closed.
    Closed,
    /// Bytes that did not decode as text: the chunk is skipped.
    Undecodable,
    /// A decoded text chunk.
    Text(String),
}

/// What the connection cycle does next.
#[derive(Debug, Clone, Copy, PartialEq, Eq, Structural)]
pub enum ChunkAction {
    /// End the current telegram cycle; no further pass runs for the buffer.
    EndCycle,
    /// Ignore the chunk and read on.
    SkipChunk,
    /// Run an extraction pass over the assembled buffer.
    RunPass,
}

/// The accumulation buffer for the telegram currently being reassembled on
/// one connection.
pub struct TelegramAssembler {
    buffer: String,
}

impl View for TelegramAssembler {
    type V = Seq<char>;

    closed spec fn view(&self) -> Seq<char> {
        self.buffer@
    }
}

impl TelegramAssembler {
    /// A fresh assembler with an empty buffer.
    pub fn new() -> (r: TelegramAssembler)
        ensures
            r@ == Seq::<char>::empty(),
    {
        TelegramAssembler { buffer: String::new() }
    }

    /// Folds one text chunk into the buffer: a start marker reseeds it,
    /// anything else extends it.
    pub fn process_chunk(&mut self, chunk: &str)
        ensures
            final(self)@ == chunk_step(old(self)@, chunk@),
    {
        let clen = chunk.unicode_len();
        if clen > 0 && chunk.get_char(0) == '/' {
            self.buffer = String::from_str(chunk);
        } else {
            self.buffer.append(chunk);
        }
    }

    /// The per-read decision of a connection cycle: a closed stream ends
    /// the cycle, an undecodable chunk is skipped, and a text chunk is
    /// assembled and followed by an extraction pass. Only a text chunk
    /// touches the buffer.
    pub fn handle_event(&mut self, event: ChunkEvent) -> (a: ChunkAction)
        ensures
            event is Closed ==> a == ChunkAction::EndCycle && final(self)@ == old(self)@,
            event is Undecodable ==> a == ChunkAction::SkipChunk && final(self)@ == old(self)@,
            event matches ChunkEvent::Text(c) ==> a == ChunkAction::RunPass && final(self)@
                == chunk_step(old(self)@, c@),
    {
        match event {
            ChunkEvent::Closed => ChunkAction::EndCycle,
            ChunkEvent::Undecodable => ChunkAction::SkipChunk,
            ChunkEvent::Text(c) => {
                self.process_chunk(c.as_str());
                ChunkAction::RunPass
            },
        }
    }

    /// The raw buffer content.
    pub fn text(&self) -> (r: String)
        ensures
            r@ == self@,
    {
        self.buffer.clone()
    }

    /// The buffer content as extraction input: carriage-return/line-feed
    /// pairs removed.
    pub fn extraction_text(&self) -> (r: String)
        ensures
            r@ == strip_crlf(self@),
    {
        strip_crlf_text(self.buffer.as_str())
    }
}

} // verus!
