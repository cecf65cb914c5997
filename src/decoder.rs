//! The wire decoder: turns the bytes of an event stream into frames, each a
//! recognised event kind with its payload text.
//!
//! Two vocabularies share the block format: the message-generation stream and
//! the daemon event stream. A fresh decoder is made for each connection.

use vstd::prelude::*;
use vstd::utf8::{decode_utf8, valid_utf8};
use crate::block::{block_data, block_label, equals_lit, parse_block};
use crate::framing::{blocks, delim_at, lemma_blocks_split, lemma_no_delim, rest, split_blocks};
use crate::text::{chars_of, string_from_chars, utf8_string};

verus! {

// ---------------------------------------------------------------------------
// Block buffering
// ---------------------------------------------------------------------------

/// Collects bytes and hands out each block once its closing blank line has
/// arrived.
pub struct BlockDecoder {
    buffer: Vec<u8>,
}

/// `rest` leaves nothing that `blocks` could still cut.
pub proof fn lemma_rest_is_final(s: Seq<u8>)
    ensures
        blocks(rest(s)) == Seq::<Seq<u8>>::empty(),
        rest(rest(s)) == rest(s),
    decreases s.len(),
{
    let p = crate::framing::delim_index(s, 0);
    if p < 0 || p + 2 > s.len() {
        lemma_rest_holds_no_delim(s);
        lemma_no_delim(s);
    } else {
        lemma_rest_is_final(s.subrange(p + 2, s.len() as int));
    }
}

proof fn lemma_rest_holds_no_delim(s: Seq<u8>)
    requires
        crate::framing::delim_index(s, 0) < 0 || crate::framing::delim_index(s, 0) + 2 > s.len(),
    ensures
        forall|j: int| !delim_at(s, j),
{
    assert forall|j: int| !delim_at(s, j) by {
        if delim_at(s, j) {
            lemma_first_delim_exists(s, j);
        }
    }
}

proof fn lemma_first_delim_exists(s: Seq<u8>, j: int)
    requires
        delim_at(s, j),
    ensures
        0 <= crate::framing::delim_index(s, 0) <= j,
        crate::framing::delim_index(s, 0) + 2 <= s.len(),
{
    lemma_delim_index_from(s, 0, j);
}

proof fn lemma_delim_index_from(s: Seq<u8>, i: int, j: int)
    requires
        0 <= i <= j,
        delim_at(s, j),
    ensures
        i <= crate::framing::delim_index(s, i) <= j,
        crate::framing::delim_index(s, i) + 2 <= s.len(),
    decreases j - i,
{
    if !delim_at(s, i) {
        lemma_delim_index_from(s, i + 1, j);
    }
}

impl BlockDecoder {
    /// The bytes received and not yet handed out.
    pub closed spec fn pending(self) -> Seq<u8> {
        self.buffer@
    }

    /// What is pending holds no complete block.
    pub open spec fn wf(self) -> bool {
        blocks(self.pending()) == Seq::<Seq<u8>>::empty() && rest(self.pending()) == self.pending()
    }

    /// A decoder with nothing pending.
    pub fn new() -> (r: BlockDecoder)
        ensures
            r.wf(),
            r.pending() == Seq::<u8>::empty(),
    {
        proof {
            lemma_no_delim(Seq::<u8>::empty());
        }
        BlockDecoder { buffer: Vec::new() }
    }

    /// Appends `chunk` and returns the blocks that it completes, in order.
    pub fn push(&mut self, chunk: &[u8]) -> (r: Vec<Vec<u8>>)
        requires
            old(self).wf(),
        ensures
            final(self).wf(),
            r@.map_values(|b: Vec<u8>| b@) == blocks(old(self).pending() + chunk@),
            final(self).pending() == rest(old(self).pending() + chunk@),
    {
        let mut buf: Vec<u8> = Vec::new();
        std::mem::swap(&mut buf, &mut self.buffer);
        let ghost start = buf@;
        let mut i: usize = 0;
        while i < chunk.len()
            invariant
                i <= chunk@.len(),
                buf@ == start + chunk@.subrange(0, i as int),
            decreases chunk@.len() - i,
        {
            buf.push(chunk[i]);
            assert(buf@ =~= start + chunk@.subrange(0, i + 1));
            i = i + 1;
        }
        assert(chunk@.subrange(0, chunk@.len() as int) =~= chunk@);
        let (bs, left) = split_blocks(buf);
        proof {
            lemma_rest_is_final(start + chunk@);
        }
        self.buffer = left;
        bs
    }

    /// Ends the input: returns what is pending, which no blank line closed.
    pub fn into_rest(self) -> (r: Vec<u8>)
        ensures
            r@ == self.pending(),
    {
        self.buffer
    }
}

/// What a decoder hands out when fed `chunks` one after another, starting
/// with `pending` bytes.
pub open spec fn fed_blocks(pending: Seq<u8>, chunks: Seq<Seq<u8>>) -> Seq<Seq<u8>>
    decreases chunks.len(),
{
    if chunks.len() == 0 {
        Seq::empty()
    } else {
        blocks(pending + chunks[0]) + fed_blocks(rest(pending + chunks[0]), chunks.drop_first())
    }
}

/// All chunks joined.
pub open spec fn concat(chunks: Seq<Seq<u8>>) -> Seq<u8>
    decreases chunks.len(),
{
    if chunks.len() == 0 {
        Seq::empty()
    } else {
        chunks[0] + concat(chunks.drop_first())
    }
}

/// However the input is cut into chunks, feeding them one by one hands out
/// exactly the blocks of the whole input, in order.
pub proof fn lemma_chunking_independent(pending: Seq<u8>, chunks: Seq<Seq<u8>>)
    requires
        blocks(pending) == Seq::<Seq<u8>>::empty(),
        rest(pending) == pending,
    ensures
        fed_blocks(pending, chunks) == blocks(pending + concat(chunks)),
    decreases chunks.len(),
{
    if chunks.len() == 0 {
        assert(pending + concat(chunks) =~= pending);
    } else {
        let x = pending + chunks[0];
        let tail = chunks.drop_first();
        assert(pending + concat(chunks) =~= x + concat(tail));
        lemma_blocks_split(x, concat(tail));
        lemma_rest_is_final(x);
        lemma_chunking_independent(rest(x), tail);
    }
}

// ---------------------------------------------------------------------------
// Well-formed input
// ---------------------------------------------------------------------------

/// A block as a sender writes it: no blank line inside, not ending in `\n`.
pub open spec fn plain_block(b: Seq<u8>) -> bool {
    &&& forall|j: int| !delim_at(b, j)
    &&& b.len() > 0
    &&& b.last() != 10u8
}

/// The blocks, each followed by its closing blank line.
pub open spec fn join_blocks(bs: Seq<Seq<u8>>) -> Seq<u8>
    decreases bs.len(),
{
    if bs.len() == 0 {
        Seq::empty()
    } else {
        bs[0] + seq![10u8, 10u8] + join_blocks(bs.drop_first())
    }
}

/// Joined blocks come back out as they went in, with nothing left over.
pub proof fn lemma_join_blocks(bs: Seq<Seq<u8>>)
    requires
        forall|i: int| 0 <= i < bs.len() ==> plain_block(#[trigger] bs[i]),
    ensures
        blocks(join_blocks(bs)) == bs,
        rest(join_blocks(bs)) == Seq::<u8>::empty(),
    decreases bs.len(),
{
    if bs.len() == 0 {
        lemma_no_delim(Seq::<u8>::empty());
        assert(bs =~= Seq::<Seq<u8>>::empty());
    } else {
        let b = bs[0];
        assert(plain_block(b));
        let tail = bs.drop_first();
        assert forall|i: int| 0 <= i < tail.len() implies plain_block(#[trigger] tail[i]) by {
            assert(tail[i] == bs[i + 1]);
        }
        let s = join_blocks(bs);
        let n = b.len() as int;
        assert(s =~= b + seq![10u8, 10u8] + join_blocks(tail));
        assert(delim_at(s, n));
        assert forall|j: int| 0 <= j < n implies !delim_at(s, j) by {
            if j + 1 < n {
                assert(s[j] == b[j] && s[j + 1] == b[j + 1]);
                assert(!delim_at(b, j));
            } else {
                assert(s[j] == b.last());
            }
        }
        crate::framing::lemma_delim_first(s, n);
        assert(s.subrange(0, n) =~= b);
        assert(s.subrange(n + 2, s.len() as int) =~= join_blocks(tail));
        lemma_join_blocks(tail);
        assert(blocks(s) == seq![b] + tail);
        assert(seq![b] + tail =~= bs);
    }
}

} // verus!

verus! {

// ---------------------------------------------------------------------------
// Message-generation stream
// ---------------------------------------------------------------------------

/// The kinds of event of the message-generation stream.
#[derive(Clone, Copy, Debug, PartialEq, Eq, Structural)]
pub enum StreamKind {
    Content,
    ToolCallStart,
    ToolCallEnd,
    Reasoning,
    Done,
    Error,
}

/// The kind a label selects; an unknown label counts as content.
pub open spec fn stream_kind_of(label: Seq<char>) -> StreamKind {
    if label == "content"@ || label == "text"@ {
        StreamKind::Content
    } else if label == "tool_call_start"@ {
        StreamKind::ToolCallStart
    } else if label == "tool_call_end"@ {
        StreamKind::ToolCallEnd
    } else if label == "reasoning"@ {
        StreamKind::Reasoning
    } else if label == "done"@ || label == "end"@ {
        StreamKind::Done
    } else if label == "error"@ {
        StreamKind::Error
    } else {
        StreamKind::Content
    }
}

/// The kind that `label` selects on the message-generation stream.
pub fn stream_kind(label: &Vec<char>) -> (r: StreamKind)
    ensures
        r == stream_kind_of(label@),
{
    if equals_lit(label, "content") || equals_lit(label, "text") {
        StreamKind::Content
    } else if equals_lit(label, "tool_call_start") {
        StreamKind::ToolCallStart
    } else if equals_lit(label, "tool_call_end") {
        StreamKind::ToolCallEnd
    } else if equals_lit(label, "reasoning") {
        StreamKind::Reasoning
    } else if equals_lit(label, "done") || equals_lit(label, "end") {
        StreamKind::Done
    } else if equals_lit(label, "error") {
        StreamKind::Error
    } else {
        StreamKind::Content
    }
}

/// One decoded block of the message-generation stream.
#[derive(Clone, Debug)]
pub struct StreamFrame {
    pub kind: StreamKind,
    /// The payload, trimmed.
    pub data: String,
}

impl View for StreamFrame {
    type V = (StreamKind, Seq<char>);

    open spec fn view(&self) -> (StreamKind, Seq<char>) {
        (self.kind, self.data@)
    }
}

/// The frame a block gives on the message-generation stream: none where the
/// block is not UTF-8 or has no `data:` line; a block without a label is
/// content (its label defaults to `message`, which no rule names).
pub open spec fn stream_frame_of(b: Seq<u8>) -> Option<(StreamKind, Seq<char>)> {
    if !valid_utf8(b) {
        None
    } else {
        let s = decode_utf8(b);
        match block_data(s) {
            None => None,
            Some(d) => match block_label(s) {
                Some(l) => Some((stream_kind_of(l), d)),
                None => Some((StreamKind::Content, d)),
            },
        }
    }
}

/// The frames that blocks give on the message-generation stream, in order.
pub open spec fn stream_frames(bs: Seq<Seq<u8>>) -> Seq<(StreamKind, Seq<char>)>
    decreases bs.len(),
{
    if bs.len() == 0 {
        Seq::empty()
    } else {
        stream_frames(bs.drop_last()) + match stream_frame_of(bs.last()) {
            Some(f) => seq![f],
            None => Seq::empty(),
        }
    }
}

/// Decodes one block of the message-generation stream.
pub fn decode_stream_block(b: Vec<u8>) -> (r: Option<StreamFrame>)
    ensures
        match r {
            Some(f) => stream_frame_of(b@) == Some(f@),
            None => stream_frame_of(b@) is None,
        },
{
    let ghost bv = b@;
    match utf8_string(b) {
        None => None,
        Some(s) => {
            let cs = chars_of(s.as_str());
            let (label, data) = parse_block(cs);
            match data {
                None => None,
                Some(d) => {
                    let kind = match label {
                        Some(l) => stream_kind(&l),
                        None => StreamKind::Content,
                    };
                    Some(StreamFrame { kind, data: string_from_chars(&d) })
                },
            }
        },
    }
}

/// The decoder of the message-generation stream.
pub struct MessageStreamDecoder {
    pub blocks: BlockDecoder,
}

impl MessageStreamDecoder {
    /// A decoder for a new connection.
    pub fn new() -> (r: MessageStreamDecoder)
        ensures
            r.blocks.wf(),
            r.blocks.pending() == Seq::<u8>::empty(),
    {
        MessageStreamDecoder { blocks: BlockDecoder::new() }
    }

    /// Feeds `chunk`; returns the frames of the blocks it completes, in order.
    pub fn push(&mut self, chunk: &[u8]) -> (r: Vec<StreamFrame>)
        requires
            old(self).blocks.wf(),
        ensures
            final(self).blocks.wf(),
            final(self).blocks.pending() == rest(old(self).blocks.pending() + chunk@),
            r@.map_values(|f: StreamFrame| f@) == stream_frames(
                blocks(old(self).blocks.pending() + chunk@),
            ),
    {
        let bs = self.blocks.push(chunk);
        let ghost bv = bs@.map_values(|b: Vec<u8>| b@);
        let mut out: Vec<StreamFrame> = Vec::new();
        let mut bs = bs;
        let n = bs.len();
        let mut k: usize = 0;
        assert(bv.subrange(0, 0) =~= Seq::<Seq<u8>>::empty());
        while k < n
            invariant
                n == bv.len(),
                k <= n,
                bs@.len() == n - k,
                forall|i: int| 0 <= i < n - k ==> (#[trigger] bs@[i])@ == bv[i + k],
                out@.map_values(|f: StreamFrame| f@) == stream_frames(bv.subrange(0, k as int)),
            decreases n - k,
        {
            let b = bs.remove(0);
            assert(b@ == bv[k as int]);
            assert(bv.subrange(0, k + 1).drop_last() =~= bv.subrange(0, k as int));
            assert(bv.subrange(0, k + 1).last() == bv[k as int]);
            let ghost before = out@.map_values(|f: StreamFrame| f@);
            match decode_stream_block(b) {
                Some(f) => {
                    out.push(f);
                    assert(out@.map_values(|f: StreamFrame| f@) =~= before.push(f@));
                },
                None => {
                    assert(out@.map_values(|f: StreamFrame| f@) =~= before);
                },
            }
            assert(out@.map_values(|f: StreamFrame| f@) =~= stream_frames(
                bv.subrange(0, k + 1),
            ));
            k = k + 1;
        }
        assert(bv.subrange(0, n as int) =~= bv);
        out
    }

    /// Ends the stream: what is pending, if anything, is decoded as a final
    /// block.
    pub fn finish(self) -> (r: Option<StreamFrame>)
        ensures
            self.blocks.pending().len() == 0 ==> r is None,
            self.blocks.pending().len() > 0 ==> match r {
                Some(f) => stream_frame_of(self.blocks.pending()) == Some(f@),
                None => stream_frame_of(self.blocks.pending()) is None,
            },
    {
        let left = self.blocks.into_rest();
        if left.len() == 0 {
            None
        } else {
            decode_stream_block(left)
        }
    }
}

} // verus!

verus! {

// ---------------------------------------------------------------------------
// Daemon event stream
// ---------------------------------------------------------------------------

/// The kinds of event of the daemon event stream.
#[derive(Clone, Copy, Debug, PartialEq, Eq, Structural)]
pub enum DaemonKind {
    SessionCreated,
    SessionUpdated,
    SessionDeleted,
    SessionStatus,
    MessageCreated,
    MessageUpdated,
    MessageRemoved,
    MessagePartUpdated,
    MessagePartRemoved,
    PermissionAsked,
    PermissionReplied,
    QuestionAsked,
    QuestionReplied,
    ConnectionStatus,
    Keepalive,
}

/// The kind a label selects on the daemon stream; none for an unknown label.
pub open spec fn daemon_kind_of(label: Seq<char>) -> Option<DaemonKind> {
    if label == "session.created"@ {
        Some(DaemonKind::SessionCreated)
    } else if label == "session.updated"@ {
        Some(DaemonKind::SessionUpdated)
    } else if label == "session.deleted"@ {
        Some(DaemonKind::SessionDeleted)
    } else if label == "session.status"@ {
        Some(DaemonKind::SessionStatus)
    } else if label == "message.created"@ {
        Some(DaemonKind::MessageCreated)
    } else if label == "message.updated"@ {
        Some(DaemonKind::MessageUpdated)
    } else if label == "message.removed"@ {
        Some(DaemonKind::MessageRemoved)
    } else if label == "message.part.updated"@ {
        Some(DaemonKind::MessagePartUpdated)
    } else if label == "message.part.removed"@ {
        Some(DaemonKind::MessagePartRemoved)
    } else if label == "permission.asked"@ {
        Some(DaemonKind::PermissionAsked)
    } else if label == "permission.replied"@ {
        Some(DaemonKind::PermissionReplied)
    } else if label == "question.asked"@ {
        Some(DaemonKind::QuestionAsked)
    } else if label == "question.replied"@ || label == "question.rejected"@ {
        Some(DaemonKind::QuestionReplied)
    } else if label == "connection.status"@ {
        Some(DaemonKind::ConnectionStatus)
    } else if label == "keepalive"@ {
        Some(DaemonKind::Keepalive)
    } else {
        None
    }
}

/// The kind that `label` selects on the daemon stream, if any.
pub fn daemon_kind(label: &Vec<char>) -> (r: Option<DaemonKind>)
    ensures
        r == daemon_kind_of(label@),
{
    if equals_lit(label, "session.created") {
        Some(DaemonKind::SessionCreated)
    } else if equals_lit(label, "session.updated") {
        Some(DaemonKind::SessionUpdated)
    } else if equals_lit(label, "session.deleted") {
        Some(DaemonKind::SessionDeleted)
    } else if equals_lit(label, "session.status") {
        Some(DaemonKind::SessionStatus)
    } else if equals_lit(label, "message.created") {
        Some(DaemonKind::MessageCreated)
    } else if equals_lit(label, "message.updated") {
        Some(DaemonKind::MessageUpdated)
    } else if equals_lit(label, "message.removed") {
        Some(DaemonKind::MessageRemoved)
    } else if equals_lit(label, "message.part.updated") {
        Some(DaemonKind::MessagePartUpdated)
    } else if equals_lit(label, "message.part.removed") {
        Some(DaemonKind::MessagePartRemoved)
    } else if equals_lit(label, "permission.asked") {
        Some(DaemonKind::PermissionAsked)
    } else if equals_lit(label, "permission.replied") {
        Some(DaemonKind::PermissionReplied)
    } else if equals_lit(label, "question.asked") {
        Some(DaemonKind::QuestionAsked)
    } else if equals_lit(label, "question.replied") || equals_lit(label, "question.rejected") {
        Some(DaemonKind::QuestionReplied)
    } else if equals_lit(label, "connection.status") {
        Some(DaemonKind::ConnectionStatus)
    } else if equals_lit(label, "keepalive") {
        Some(DaemonKind::Keepalive)
    } else {
        None
    }
}

/// One decoded block of the daemon event stream.
#[derive(Clone, Debug)]
pub struct DaemonFrame {
    pub kind: DaemonKind,
    /// The payload (single-line JSON), trimmed.
    pub data: String,
}

impl View for DaemonFrame {
    type V = (DaemonKind, Seq<char>);

    open spec fn view(&self) -> (DaemonKind, Seq<char>) {
        (self.kind, self.data@)
    }
}

/// The frame a block gives on the daemon stream: none where the block is not
/// UTF-8, lacks a `data:` line or a label, or its label is unknown.
pub open spec fn daemon_frame_of(b: Seq<u8>) -> Option<(DaemonKind, Seq<char>)> {
    if !valid_utf8(b) {
        None
    } else {
        let s = decode_utf8(b);
        match (block_label(s), block_data(s)) {
            (Some(l), Some(d)) => match daemon_kind_of(l) {
                Some(k) => Some((k, d)),
                None => None,
            },
            _ => None,
        }
    }
}

/// The frames that blocks give on the daemon stream, in order.
pub open spec fn daemon_frames(bs: Seq<Seq<u8>>) -> Seq<(DaemonKind, Seq<char>)>
    decreases bs.len(),
{
    if bs.len() == 0 {
        Seq::empty()
    } else {
        daemon_frames(bs.drop_last()) + match daemon_frame_of(bs.last()) {
            Some(f) => seq![f],
            None => Seq::empty(),
        }
    }
}

/// Decodes one block of the daemon stream.
pub fn decode_daemon_block(b: Vec<u8>) -> (r: Option<DaemonFrame>)
    ensures
        match r {
            Some(f) => daemon_frame_of(b@) == Some(f@),
            None => daemon_frame_of(b@) is None,
        },
{
    match utf8_string(b) {
        None => None,
        Some(s) => {
            let cs = chars_of(s.as_str());
            let (label, data) = parse_block(cs);
            match (label, data) {
                (Some(l), Some(d)) => match daemon_kind(&l) {
                    Some(kind) => Some(DaemonFrame { kind, data: string_from_chars(&d) }),
                    None => None,
                },
                _ => None,
            }
        },
    }
}

/// The decoder of the daemon event stream. A block left unfinished when the
/// stream ends is dropped: without its blank line it is incomplete.
pub struct DaemonStreamDecoder {
    pub blocks: BlockDecoder,
}

impl DaemonStreamDecoder {
    /// A decoder for a new connection.
    pub fn new() -> (r: DaemonStreamDecoder)
        ensures
            r.blocks.wf(),
            r.blocks.pending() == Seq::<u8>::empty(),
    {
        DaemonStreamDecoder { blocks: BlockDecoder::new() }
    }

    /// Feeds `chunk`; returns the frames of the blocks it completes, in order.
    pub fn push(&mut self, chunk: &[u8]) -> (r: Vec<DaemonFrame>)
        requires
            old(self).blocks.wf(),
        ensures
            final(self).blocks.wf(),
            final(self).blocks.pending() == rest(old(self).blocks.pending() + chunk@),
            r@.map_values(|f: DaemonFrame| f@) == daemon_frames(
                blocks(old(self).blocks.pending() + chunk@),
            ),
    {
        let bs = self.blocks.push(chunk);
        let ghost bv = bs@.map_values(|b: Vec<u8>| b@);
        let mut out: Vec<DaemonFrame> = Vec::new();
        let mut bs = bs;
        let n = bs.len();
        let mut k: usize = 0;
        assert(bv.subrange(0, 0) =~= Seq::<Seq<u8>>::empty());
        while k < n
            invariant
                n == bv.len(),
                k <= n,
                bs@.len() == n - k,
                forall|i: int| 0 <= i < n - k ==> (#[trigger] bs@[i])@ == bv[i + k],
                out@.map_values(|f: DaemonFrame| f@) == daemon_frames(bv.subrange(0, k as int)),
            decreases n - k,
        {
            let b = bs.remove(0);
            assert(b@ == bv[k as int]);
            assert(bv.subrange(0, k + 1).drop_last() =~= bv.subrange(0, k as int));
            assert(bv.subrange(0, k + 1).last() == bv[k as int]);
            let ghost before = out@.map_values(|f: DaemonFrame| f@);
            match decode_daemon_block(b) {
                Some(f) => {
                    out.push(f);
                    assert(out@.map_values(|f: DaemonFrame| f@) =~= before.push(f@));
                },
                None => {
                    assert(out@.map_values(|f: DaemonFrame| f@) =~= before);
                },
            }
            assert(out@.map_values(|f: DaemonFrame| f@) =~= daemon_frames(
                bv.subrange(0, k + 1),
            ));
            k = k + 1;
        }
        assert(bv.subrange(0, n as int) =~= bv);
        out
    }
}

} // verus!

verus! {

// ---------------------------------------------------------------------------
// Laws of the decoders
// ---------------------------------------------------------------------------

proof fn lemma_stream_frames_append(a: Seq<Seq<u8>>, b: Seq<Seq<u8>>)
    ensures
        stream_frames(a + b) == stream_frames(a) + stream_frames(b),
    decreases b.len(),
{
    if b.len() == 0 {
        assert(a + b =~= a);
        assert(stream_frames(b) =~= Seq::empty());
        assert(stream_frames(a) + stream_frames(b) =~= stream_frames(a));
    } else {
        assert((a + b).drop_last() =~= a + b.drop_last());
        assert((a + b).last() == b.last());
        lemma_stream_frames_append(a, b.drop_last());
        assert(stream_frames(a + b) =~= stream_frames(a) + stream_frames(b));
    }
}

proof fn lemma_daemon_frames_append(a: Seq<Seq<u8>>, b: Seq<Seq<u8>>)
    ensures
        daemon_frames(a + b) == daemon_frames(a) + daemon_frames(b),
    decreases b.len(),
{
    if b.len() == 0 {
        assert(a + b =~= a);
        assert(daemon_frames(b) =~= Seq::empty());
        assert(daemon_frames(a) + daemon_frames(b) =~= daemon_frames(a));
    } else {
        assert((a + b).drop_last() =~= a + b.drop_last());
        assert((a + b).last() == b.last());
        lemma_daemon_frames_append(a, b.drop_last());
        assert(daemon_frames(a + b) =~= daemon_frames(a) + daemon_frames(b));
    }
}

/// What a message-stream decoder returns over its pushes of `chunks`,
/// starting with `pending` bytes, as its `push` states it.
pub open spec fn fed_stream_frames(pending: Seq<u8>, chunks: Seq<Seq<u8>>) -> Seq<
    (StreamKind, Seq<char>),
>
    decreases chunks.len(),
{
    if chunks.len() == 0 {
        Seq::empty()
    } else {
        stream_frames(blocks(pending + chunks[0])) + fed_stream_frames(
            rest(pending + chunks[0]),
            chunks.drop_first(),
        )
    }
}

/// What a daemon-stream decoder returns over its pushes of `chunks`,
/// starting with `pending` bytes, as its `push` states it.
pub open spec fn fed_daemon_frames(pending: Seq<u8>, chunks: Seq<Seq<u8>>) -> Seq<
    (DaemonKind, Seq<char>),
>
    decreases chunks.len(),
{
    if chunks.len() == 0 {
        Seq::empty()
    } else {
        daemon_frames(blocks(pending + chunks[0])) + fed_daemon_frames(
            rest(pending + chunks[0]),
            chunks.drop_first(),
        )
    }
}

proof fn lemma_fed_stream_frames(pending: Seq<u8>, chunks: Seq<Seq<u8>>)
    ensures
        fed_stream_frames(pending, chunks) == stream_frames(fed_blocks(pending, chunks)),
    decreases chunks.len(),
{
    if chunks.len() > 0 {
        let x = pending + chunks[0];
        lemma_fed_stream_frames(rest(x), chunks.drop_first());
        lemma_stream_frames_append(blocks(x), fed_blocks(rest(x), chunks.drop_first()));
    } else {
        assert(stream_frames(Seq::<Seq<u8>>::empty()) =~= Seq::empty());
    }
}

proof fn lemma_fed_daemon_frames(pending: Seq<u8>, chunks: Seq<Seq<u8>>)
    ensures
        fed_daemon_frames(pending, chunks) == daemon_frames(fed_blocks(pending, chunks)),
    decreases chunks.len(),
{
    if chunks.len() > 0 {
        let x = pending + chunks[0];
        lemma_fed_daemon_frames(rest(x), chunks.drop_first());
        lemma_daemon_frames_append(blocks(x), fed_blocks(rest(x), chunks.drop_first()));
    } else {
        assert(daemon_frames(Seq::<Seq<u8>>::empty()) =~= Seq::empty());
    }
}

proof fn lemma_stream_frames_all_some(bs: Seq<Seq<u8>>)
    requires
        forall|i: int| 0 <= i < bs.len() ==> (#[trigger] stream_frame_of(bs[i])) is Some,
    ensures
        stream_frames(bs).len() == bs.len(),
        forall|i: int|
            0 <= i < bs.len() ==> stream_frames(bs)[i] == (#[trigger] stream_frame_of(bs[i]))->0,
    decreases bs.len(),
{
    if bs.len() > 0 {
        let init = bs.drop_last();
        assert forall|i: int| 0 <= i < init.len() implies (#[trigger] stream_frame_of(
            init[i],
        )) is Some by {
            assert(init[i] == bs[i]);
        }
        lemma_stream_frames_all_some(init);
        assert(stream_frame_of(bs[bs.len() - 1]) is Some);
        assert forall|i: int| 0 <= i < bs.len() implies stream_frames(bs)[i] == (
        #[trigger] stream_frame_of(bs[i]))->0 by {
            if i < init.len() {
                assert(init[i] == bs[i]);
            }
        }
    }
}

proof fn lemma_daemon_frames_all_some(bs: Seq<Seq<u8>>)
    requires
        forall|i: int| 0 <= i < bs.len() ==> (#[trigger] daemon_frame_of(bs[i])) is Some,
    ensures
        daemon_frames(bs).len() == bs.len(),
        forall|i: int|
            0 <= i < bs.len() ==> daemon_frames(bs)[i] == (#[trigger] daemon_frame_of(bs[i]))->0,
    decreases bs.len(),
{
    if bs.len() > 0 {
        let init = bs.drop_last();
        assert forall|i: int| 0 <= i < init.len() implies (#[trigger] daemon_frame_of(
            init[i],
        )) is Some by {
            assert(init[i] == bs[i]);
        }
        lemma_daemon_frames_all_some(init);
        assert(daemon_frame_of(bs[bs.len() - 1]) is Some);
        assert forall|i: int| 0 <= i < bs.len() implies daemon_frames(bs)[i] == (
        #[trigger] daemon_frame_of(bs[i]))->0 by {
            if i < init.len() {
                assert(init[i] == bs[i]);
            }
        }
    }
}

/// Decoding N well-formed blocks, each closed by a blank line, yields exactly
/// N message-stream events, in the order of the blocks, however the bytes are
/// cut into chunks.
pub proof fn lemma_stream_decoding_chunk_independent(bs: Seq<Seq<u8>>, chunks: Seq<Seq<u8>>)
    requires
        forall|i: int| 0 <= i < bs.len() ==> plain_block(#[trigger] bs[i]),
        forall|i: int| 0 <= i < bs.len() ==> (#[trigger] stream_frame_of(bs[i])) is Some,
        concat(chunks) == join_blocks(bs),
    ensures
        fed_stream_frames(Seq::empty(), chunks).len() == bs.len(),
        forall|i: int|
            0 <= i < bs.len() ==> fed_stream_frames(Seq::empty(), chunks)[i] == (
            #[trigger] stream_frame_of(bs[i]))->0,
{
    lemma_no_delim(Seq::<u8>::empty());
    lemma_chunking_independent(Seq::empty(), chunks);
    assert(Seq::<u8>::empty() + concat(chunks) =~= concat(chunks));
    lemma_join_blocks(bs);
    lemma_fed_stream_frames(Seq::empty(), chunks);
    lemma_stream_frames_all_some(bs);
}

/// Decoding N well-formed blocks with known labels, each closed by a blank
/// line, yields exactly N daemon events, in the order of the blocks, however
/// the bytes are cut into chunks.
pub proof fn lemma_daemon_decoding_chunk_independent(bs: Seq<Seq<u8>>, chunks: Seq<Seq<u8>>)
    requires
        forall|i: int| 0 <= i < bs.len() ==> plain_block(#[trigger] bs[i]),
        forall|i: int| 0 <= i < bs.len() ==> (#[trigger] daemon_frame_of(bs[i])) is Some,
        concat(chunks) == join_blocks(bs),
    ensures
        fed_daemon_frames(Seq::empty(), chunks).len() == bs.len(),
        forall|i: int|
            0 <= i < bs.len() ==> fed_daemon_frames(Seq::empty(), chunks)[i] == (
            #[trigger] daemon_frame_of(bs[i]))->0,
{
    lemma_no_delim(Seq::<u8>::empty());
    lemma_chunking_independent(Seq::empty(), chunks);
    assert(Seq::<u8>::empty() + concat(chunks) =~= concat(chunks));
    lemma_join_blocks(bs);
    lemma_fed_daemon_frames(Seq::empty(), chunks);
    lemma_daemon_frames_all_some(bs);
}

/// A block with a `data:` line and no `event:` line is content on the
/// message-generation stream and no event at all on the daemon stream.
pub proof fn lemma_unlabelled_block(b: Seq<u8>)
    requires
        valid_utf8(b),
        block_label(decode_utf8(b)) is None,
        block_data(decode_utf8(b)) is Some,
    ensures
        stream_frame_of(b) == Some((StreamKind::Content, block_data(decode_utf8(b))->0)),
        daemon_frame_of(b) is None,
{
}

} // verus!
