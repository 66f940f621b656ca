//! Reading a streamed reply: the bytes are cut into lines, the lines are read as
//! server-sent events, and the deltas of the events are put together into one reply.

use vstd::prelude::*;
use vstd::string::StrSliceExecFns;
use crate::agent::LlmReply;
use crate::history::{calls_view, opt_view, ToolCall, ToolCallView};
use crate::text::str_eq;
use vstd::string::StringExecFns;

verus! {

/// The byte that ends a line.
pub const NEWLINE: u8 = 10;

/// The complete lines of a byte sequence, without their newlines, and the bytes after
/// the last newline.
pub open spec fn split_lines(b: Seq<u8>) -> (Seq<Seq<u8>>, Seq<u8>)
    decreases b.len(),
{
    if b.len() == 0 {
        (Seq::empty(), Seq::empty())
    } else {
        let (lines, rest) = split_lines(b.drop_last());
        if b.last() == NEWLINE {
            (lines.push(rest), Seq::empty())
        } else {
            (lines, rest.push(b.last()))
        }
    }
}

/// No newline occurs in the bytes.
pub open spec fn no_newline(s: Seq<u8>) -> bool {
    forall|i: int| 0 <= i < s.len() ==> s[i] != NEWLINE
}

/// The lines, each followed by a newline, one after another.
pub open spec fn rejoin(lines: Seq<Seq<u8>>) -> Seq<u8>
    decreases lines.len(),
{
    if lines.len() == 0 {
        Seq::empty()
    } else {
        rejoin(lines.drop_last()) + lines.last() + seq![NEWLINE]
    }
}

/// The views of a sequence of byte vectors.
pub open spec fn lines_view(v: Seq<Vec<u8>>) -> Seq<Seq<u8>> {
    v.map_values(|l: Vec<u8>| l@)
}

/// Bytes received but not yet ended by a newline.
pub struct LineBuffer {
    pending: Vec<u8>,
}

impl View for LineBuffer {
    type V = Seq<u8>;

    closed spec fn view(&self) -> Seq<u8> {
        self.pending@
    }
}

proof fn lemma_split_no_newline(s: Seq<u8>)
    requires
        no_newline(s),
    ensures
        split_lines(s) == (Seq::<Seq<u8>>::empty(), s),
    decreases s.len(),
{
    if s.len() > 0 {
        lemma_split_no_newline(s.drop_last());
        assert(s.drop_last().push(s.last()) =~= s);
    }
}

impl LineBuffer {
    /// A buffer that holds nothing.
    pub fn new() -> (b: LineBuffer)
        ensures
            b@ == Seq::<u8>::empty(),
    {
        let b = LineBuffer { pending: Vec::new() };
        assert(b@ =~= Seq::<u8>::empty());
        b
    }

    /// The bytes after the last newline.
    pub fn pending(&self) -> (r: &Vec<u8>)
        ensures
            r@ == self@,
    {
        &self.pending
    }

    /// Takes the next bytes and hands out the lines they complete.
    pub fn push(&mut self, chunk: &[u8]) -> (lines: Vec<Vec<u8>>)
        requires
            no_newline(old(self)@),
        ensures
            (lines_view(lines@), final(self)@) == split_lines(old(self)@ + chunk@),
            no_newline(final(self)@),
    {
        let ghost start = self.pending@;
        proof {
            lemma_split_no_newline(start);
            assert(start + chunk@.take(0) =~= start);
        }
        let mut lines: Vec<Vec<u8>> = Vec::new();
        let mut i: usize = 0;
        while i < chunk.len()
            invariant
                i <= chunk@.len(),
                (lines_view(lines@), self.pending@) == split_lines(start + chunk@.take(i as int)),
                no_newline(self.pending@),
            decreases chunk@.len() - i,
        {
            let byte = chunk[i];
            let ghost before = start + chunk@.take(i as int);
            assert((start + chunk@.take(i + 1)).drop_last() =~= before);
            assert((start + chunk@.take(i + 1)).last() == byte);
            let ghost prev = split_lines(before);
            assert(split_lines(start + chunk@.take(i + 1)) == (if byte == NEWLINE {
                (prev.0.push(prev.1), Seq::<u8>::empty())
            } else {
                (prev.0, prev.1.push(byte))
            }));
            if byte == NEWLINE {
                let line = self.pending.split_off(0);
                assert(line@ =~= prev.1);
                let ghost old_lines = lines@;
                lines.push(line);
                assert(lines_view(lines@) =~= lines_view(old_lines).push(line@));
                assert(self.pending@ =~= Seq::<u8>::empty());
            } else {
                self.pending.push(byte);
                assert(self.pending@ =~= prev.1.push(byte));
            }
            i = i + 1;
        }
        assert(chunk@.take(chunk@.len() as int) =~= chunk@);
        lines
    }
}

/// Cutting bytes into lines loses nothing: the lines, each with its newline, followed
/// by the bytes after the last newline, are the bytes.
pub proof fn law_lines_rejoin(b: Seq<u8>)
    ensures
        rejoin(split_lines(b).0) + split_lines(b).1 == b,
        no_newline(split_lines(b).1),
        forall|i: int| 0 <= i < split_lines(b).0.len() ==> no_newline(#[trigger] split_lines(b).0[i]),
    decreases b.len(),
{
    if b.len() > 0 {
        let p = b.drop_last();
        law_lines_rejoin(p);
        let (lines, rest) = split_lines(p);
        if b.last() == NEWLINE {
            assert(lines.push(rest).drop_last() =~= lines);
            assert(rejoin(lines.push(rest)) + Seq::<u8>::empty() =~= rejoin(lines) + rest + seq![NEWLINE]);
            assert(rejoin(lines) + rest + seq![NEWLINE] =~= p.push(b.last()));
            assert(p.push(b.last()) =~= b);
            assert forall|i: int| 0 <= i < lines.push(rest).len() implies no_newline(
                #[trigger] lines.push(rest)[i],
            ) by {
                if i < lines.len() {
                    assert(no_newline(lines[i]));
                }
            }
        } else {
            assert(rejoin(lines) + rest.push(b.last()) =~= (rejoin(lines) + rest).push(b.last()));
            assert(p.push(b.last()) =~= b);
        }
    }
}

/// Feeding the bytes in two pieces gives the lines of feeding them at once.
pub proof fn law_lines_in_pieces(a: Seq<u8>, c: Seq<u8>)
    ensures
        split_lines(a + c).0 == split_lines(a).0 + split_lines(split_lines(a).1 + c).0,
        split_lines(a + c).1 == split_lines(split_lines(a).1 + c).1,
    decreases c.len(),
{
    let r = split_lines(a).1;
    if c.len() == 0 {
        assert(a + c =~= a);
        assert(r + c =~= r);
        law_lines_rejoin(a);
        lemma_split_no_newline(r);
        assert(split_lines(a).0 + Seq::<Seq<u8>>::empty() =~= split_lines(a).0);
    } else {
        law_lines_in_pieces(a, c.drop_last());
        assert((a + c).drop_last() =~= a + c.drop_last());
        assert((r + c).drop_last() =~= r + c.drop_last());
        assert((a + c).last() == c.last());
        assert((r + c).last() == c.last());
        let x = split_lines(r + c.drop_last());
        if c.last() == NEWLINE {
            assert(split_lines(a).0 + x.0.push(x.1) =~= (split_lines(a).0 + x.0).push(x.1));
        }
    }
}

/// What one line of the stream says.
pub enum SseLine {
    /// A `data:` line with this payload.
    Data(String),
    /// The line `data: [DONE]` that ends the stream.
    Done,
    /// Any other line: a blank line, a comment, another field.
    Other,
}

/// The view of a line of the stream.
pub enum SseView {
    Data { payload: Seq<char> },
    Done,
    Other,
}

impl View for SseLine {
    type V = SseView;

    open spec fn view(&self) -> SseView {
        match self {
            SseLine::Data(p) => SseView::Data { payload: p@ },
            SseLine::Done => SseView::Done,
            SseLine::Other => SseView::Other,
        }
    }
}

/// The line without a carriage return at its end.
pub open spec fn strip_cr(l: Seq<char>) -> Seq<char> {
    if l.len() > 0 && l.last() == '\r' {
        l.drop_last()
    } else {
        l
    }
}

/// What a line of the stream says: a `data:` field has its value after the colon, less
/// one leading space; the value `[DONE]` ends the stream.
pub open spec fn sse_line_spec(line: Seq<char>) -> SseView {
    let l = strip_cr(line);
    if l.len() >= 5 && l.subrange(0, 5) == "data:"@ {
        let v = l.subrange(5, l.len() as int);
        let p = if v.len() > 0 && v[0] == ' ' {
            v.drop_first()
        } else {
            v
        };
        if p == "[DONE]"@ {
            SseView::Done
        } else {
            SseView::Data { payload: p }
        }
    } else {
        SseView::Other
    }
}

/// Reads one line of the stream.
pub fn parse_sse_line(line: &str) -> (r: SseLine)
    ensures
        r@ == sse_line_spec(line@),
{
    let n = line.unicode_len();
    let l = if n > 0 && line.get_char(n - 1) == '\r' {
        line.substring_char(0, n - 1)
    } else {
        line
    };
    assert(l@ == strip_cr(line@));
    let m = l.unicode_len();
    if m < 5 {
        return SseLine::Other;
    }
    if !str_eq(l.substring_char(0, 5), "data:") {
        return SseLine::Other;
    }
    let v = l.substring_char(5, m);
    let p = if m > 5 && v.get_char(0) == ' ' {
        v.substring_char(1, m - 5)
    } else {
        v
    };
    assert(v@.len() > 0 && v@[0] == ' ' ==> p@ =~= v@.drop_first());
    if str_eq(p, "[DONE]") {
        SseLine::Done
    } else {
        SseLine::Data(p.to_owned())
    }
}

/// A piece of one tool call, as a streamed delta carries it.
pub struct CallDelta {
    /// Which call of the reply the piece belongs to (0 when it is missing).
    pub index: Option<u64>,
    pub id: Option<String>,
    pub name: Option<String>,
    /// The next fragment of the call's arguments.
    pub arguments: Option<String>,
}

/// The view of a call delta.
pub struct CallDeltaView {
    pub index: nat,
    pub id: Option<Seq<char>>,
    pub name: Option<Seq<char>>,
    pub arguments: Option<Seq<char>>,
}

impl View for CallDelta {
    type V = CallDeltaView;

    open spec fn view(&self) -> CallDeltaView {
        CallDeltaView {
            index: match self.index {
                Some(i) => i as nat,
                None => 0,
            },
            id: opt_view(self.id),
            name: opt_view(self.name),
            arguments: opt_view(self.arguments),
        }
    }
}

/// The views of a sequence of call deltas.
pub open spec fn call_deltas_view(s: Seq<CallDelta>) -> Seq<CallDeltaView> {
    s.map_values(|c: CallDelta| c@)
}

/// The delta of one event of the stream.
pub struct Delta {
    /// The next piece of the text.
    pub content: Option<String>,
    /// Pieces of tool calls.
    pub tool_calls: Vec<CallDelta>,
}

/// The view of a delta.
pub struct DeltaView {
    pub content: Option<Seq<char>>,
    pub tool_calls: Seq<CallDeltaView>,
}

impl View for Delta {
    type V = DeltaView;

    open spec fn view(&self) -> DeltaView {
        DeltaView {
            content: opt_view(self.content),
            tool_calls: call_deltas_view(self.tool_calls@),
        }
    }
}

/// A tool call put together so far.
struct PartialCall {
    index: u64,
    id: String,
    name: String,
    arguments: String,
}

/// The view of a call put together so far.
pub struct PartialView {
    pub index: nat,
    pub id: Seq<char>,
    pub name: Seq<char>,
    pub arguments: Seq<char>,
}

/// The reply put together so far.
pub struct StreamState {
    content: String,
    saw_content: bool,
    calls: Vec<PartialCall>,
}

/// The view of the reply put together so far.
pub struct StreamView {
    pub content: Seq<char>,
    pub saw_content: bool,
    pub calls: Seq<PartialView>,
}

/// The views of the calls put together so far.
spec fn partials_view(c: Seq<PartialCall>) -> Seq<PartialView> {
    c.map_values(
        |p: PartialCall|
            PartialView { index: p.index as nat, id: p.id@, name: p.name@, arguments: p.arguments@ },
    )
}

impl View for StreamState {
    type V = StreamView;

    closed spec fn view(&self) -> StreamView {
        StreamView {
            content: self.content@,
            saw_content: self.saw_content,
            calls: partials_view(self.calls@),
        }
    }
}

/// The text, or nothing.
pub open spec fn or_empty(o: Option<Seq<char>>) -> Seq<char> {
    match o {
        Some(v) => v,
        None => Seq::empty(),
    }
}

/// A new non-empty value replaces the old one.
pub open spec fn chosen(old: Seq<char>, new: Option<Seq<char>>) -> Seq<char> {
    match new {
        Some(v) => if v.len() > 0 {
            v
        } else {
            old
        },
        None => old,
    }
}

/// The first position at or after `i` of the call with this index, or -1.
pub open spec fn position_from(calls: Seq<PartialView>, index: nat, i: int) -> int
    decreases calls.len() - i,
{
    if i < 0 || i >= calls.len() {
        -1
    } else if calls[i].index == index {
        i
    } else {
        position_from(calls, index, i + 1)
    }
}

/// The calls after one piece: a new index starts a call; a known one gets its id or
/// name replaced, when the piece has them, and its arguments extended.
pub open spec fn apply_call(calls: Seq<PartialView>, d: CallDeltaView) -> Seq<PartialView> {
    let p = position_from(calls, d.index, 0);
    if p < 0 {
        calls.push(
            PartialView {
                index: d.index,
                id: or_empty(d.id),
                name: or_empty(d.name),
                arguments: or_empty(d.arguments),
            },
        )
    } else {
        calls.update(
            p,
            PartialView {
                index: d.index,
                id: chosen(calls[p].id, d.id),
                name: chosen(calls[p].name, d.name),
                arguments: calls[p].arguments + or_empty(d.arguments),
            },
        )
    }
}

/// The calls after a sequence of pieces.
pub open spec fn apply_calls(calls: Seq<PartialView>, ds: Seq<CallDeltaView>) -> Seq<PartialView>
    decreases ds.len(),
{
    if ds.len() == 0 {
        calls
    } else {
        apply_call(apply_calls(calls, ds.drop_last()), ds.last())
    }
}

/// The reply after one more delta: its text extended, its calls updated.
pub open spec fn apply_delta(s: StreamView, d: DeltaView) -> StreamView {
    StreamView {
        content: s.content + or_empty(d.content),
        saw_content: s.saw_content || d.content is Some,
        calls: apply_calls(s.calls, d.tool_calls),
    }
}

/// The reply after a sequence of deltas.
pub open spec fn stream_of(ds: Seq<DeltaView>) -> StreamView
    decreases ds.len(),
{
    if ds.len() == 0 {
        StreamView { content: Seq::empty(), saw_content: false, calls: Seq::empty() }
    } else {
        apply_delta(stream_of(ds.drop_last()), ds.last())
    }
}

/// The arguments of a call put together; none at all count as `{}`.
pub open spec fn final_call(p: PartialView) -> ToolCallView {
    ToolCallView {
        id: p.id,
        name: p.name,
        arguments: if p.arguments.len() == 0 {
            "{}"@
        } else {
            p.arguments
        },
    }
}

/// The text of the reply, if any piece of text came.
pub open spec fn reply_content(s: StreamView) -> Option<Seq<char>> {
    if s.saw_content {
        Some(s.content)
    } else {
        None
    }
}

/// The tool calls of the reply, in the order their first pieces came, if any came.
pub open spec fn reply_calls(s: StreamView) -> Option<Seq<ToolCallView>> {
    if s.calls.len() > 0 {
        Some(s.calls.map_values(|p: PartialView| final_call(p)))
    } else {
        None
    }
}

/// The text pieces of the deltas, one after another.
pub open spec fn all_content(ds: Seq<DeltaView>) -> Seq<char>
    decreases ds.len(),
{
    if ds.len() == 0 {
        Seq::empty()
    } else {
        all_content(ds.drop_last()) + or_empty(ds.last().content)
    }
}

/// The argument fragments of the pieces of the call with this index, one after another.
pub open spec fn fragments(ds: Seq<CallDeltaView>, index: nat) -> Seq<char>
    decreases ds.len(),
{
    if ds.len() == 0 {
        Seq::empty()
    } else {
        fragments(ds.drop_last(), index) + if ds.last().index == index {
            or_empty(ds.last().arguments)
        } else {
            Seq::empty()
        }
    }
}

/// The text of a streamed reply is its pieces of text, in the order they came.
pub proof fn law_content_is_concatenation(ds: Seq<DeltaView>)
    ensures
        stream_of(ds).content == all_content(ds),
    decreases ds.len(),
{
    if ds.len() > 0 {
        law_content_is_concatenation(ds.drop_last());
    }
}

proof fn lemma_position(c: Seq<PartialView>, k: nat, i: int)
    requires
        0 <= i,
    ensures
        position_from(c, k, i) >= 0 || position_from(c, k, i) == -1,
        position_from(c, k, i) >= 0 ==> i <= position_from(c, k, i) < c.len() && c[position_from(
            c,
            k,
            i,
        )].index == k,
        forall|j: int| i <= j < c.len() && (position_from(c, k, i) < 0 || j < position_from(c, k, i)) ==> c[j].index != k,
    decreases c.len() - i,
{
    if i < c.len() && c[i].index != k {
        lemma_position(c, k, i + 1);
    }
}

proof fn lemma_position_unique(c: Seq<PartialView>, k: nat, p: int)
    requires
        0 <= p < c.len(),
        c[p].index == k,
        forall|j: int| 0 <= j < p ==> c[j].index != k,
    ensures
        position_from(c, k, 0) == p,
{
    lemma_position(c, k, 0);
}

proof fn lemma_apply_call(c: Seq<PartialView>, d: CallDeltaView, k: nat)
    ensures
        ({
            let c2 = apply_call(c, d);
            let p = position_from(c, k, 0);
            let p2 = position_from(c2, k, 0);
            &&& k == d.index ==> p2 >= 0 && c2[p2].arguments == (if p >= 0 {
                c[p].arguments
            } else {
                Seq::empty()
            }) + or_empty(d.arguments)
            &&& k != d.index ==> p2 == p && (p >= 0 ==> c2[p2].arguments == c[p].arguments)
        }),
{
    let c2 = apply_call(c, d);
    let q = position_from(c, d.index, 0);
    lemma_position(c, d.index, 0);
    lemma_position(c, k, 0);
    let p = position_from(c, k, 0);
    if q >= 0 {
        assert(c2 == c.update(q, c2[q]));
        assert(c2.len() == c.len());
    } else {
        assert(c2 == c.push(c2[c.len() as int]));
    }
    if k == d.index {
        if q >= 0 {
            assert forall|j: int| 0 <= j < q implies c2[j].index != k by {
                assert(c2[j] == c[j]);
            }
            lemma_position_unique(c2, k, q);
        } else {
            assert forall|j: int| 0 <= j < c.len() implies c2[j].index != k by {
                assert(c2[j] == c[j]);
            }
            lemma_position_unique(c2, k, c.len() as int);
        }
    } else {
        if p >= 0 {
            assert(p != q);
            assert(c2[p] == c[p]);
            assert forall|j: int| 0 <= j < p implies c2[j].index != k by {
                if j != q {
                    assert(c2[j] == c[j]);
                }
            }
            lemma_position_unique(c2, k, p);
        } else {
            lemma_position(c2, k, 0);
            let p2 = position_from(c2, k, 0);
            if p2 >= 0 {
                assert(c2[p2].index == k);
                if p2 < c.len() && p2 != q {
                    assert(c2[p2] == c[p2]);
                }
                assert(false);
            }
        }
    }
}

/// The arguments of a streamed call are its fragments, in the order they came; a call
/// is there exactly when some piece carried its index.
pub proof fn law_arguments_concatenate(ds: Seq<CallDeltaView>, k: nat)
    ensures
        (position_from(apply_calls(Seq::empty(), ds), k, 0) >= 0) == (exists|i: int|
            0 <= i < ds.len() && (#[trigger] ds[i]).index == k),
        position_from(apply_calls(Seq::empty(), ds), k, 0) >= 0 ==> apply_calls(
            Seq::empty(),
            ds,
        )[position_from(apply_calls(Seq::empty(), ds), k, 0)].arguments == fragments(ds, k),
    decreases ds.len(),
{
    if ds.len() == 0 {
        lemma_position(Seq::<PartialView>::empty(), k, 0);
    } else {
        let pre = ds.drop_last();
        law_arguments_concatenate(pre, k);
        let c = apply_calls(Seq::empty(), pre);
        lemma_apply_call(c, ds.last(), k);
        if ds.last().index == k {
            assert(ds[ds.len() - 1].index == k);
            if position_from(c, k, 0) < 0 {
                assert(fragments(pre, k) =~= Seq::<char>::empty()) by {
                    lemma_no_fragments(pre, k);
                }
            }
        } else {
            assert forall|i: int| 0 <= i < pre.len() implies pre[i] == ds[i] by {}
            if exists|i: int| 0 <= i < ds.len() && (#[trigger] ds[i]).index == k {
                let i = choose|i: int| 0 <= i < ds.len() && (#[trigger] ds[i]).index == k;
                assert(pre[i].index == k);
            }
            assert(fragments(pre, k) + Seq::<char>::empty() =~= fragments(pre, k));
        }
    }
}

proof fn lemma_no_fragments(ds: Seq<CallDeltaView>, k: nat)
    requires
        !(exists|i: int| 0 <= i < ds.len() && (#[trigger] ds[i]).index == k),
    ensures
        fragments(ds, k) == Seq::<char>::empty(),
    decreases ds.len(),
{
    if ds.len() > 0 {
        let pre = ds.drop_last();
        assert(!(exists|i: int| 0 <= i < pre.len() && (#[trigger] pre[i]).index == k)) by {
            if exists|i: int| 0 <= i < pre.len() && (#[trigger] pre[i]).index == k {
                let i = choose|i: int| 0 <= i < pre.len() && (#[trigger] pre[i]).index == k;
                assert(ds[i].index == k);
            }
        }
        lemma_no_fragments(pre, k);
        assert(ds[ds.len() - 1].index != k);
        assert(Seq::<char>::empty() + Seq::<char>::empty() =~= Seq::<char>::empty());
    }
}

proof fn lemma_apply_calls_grows(c: Seq<PartialView>, ds: Seq<CallDeltaView>)
    ensures
        apply_calls(c, ds).len() >= c.len(),
        ds.len() > 0 ==> apply_calls(c, ds).len() > 0,
    decreases ds.len(),
{
    if ds.len() > 0 {
        lemma_apply_calls_grows(c, ds.drop_last());
        let c1 = apply_calls(c, ds.drop_last());
        lemma_position(c1, ds.last().index, 0);
    }
}

/// A streamed reply holds tool calls exactly when some delta carried a piece of a tool
/// call, whatever text came with them: text never hides a call.
pub proof fn law_calls_kept_beside_text(ds: Seq<DeltaView>, content: Seq<char>, saw_content: bool)
    ensures
        (reply_calls(stream_of(ds)) is Some) == (exists|i: int|
            0 <= i < ds.len() && (#[trigger] ds[i]).tool_calls.len() > 0),
        reply_calls(StreamView { content, saw_content, ..stream_of(ds) }) == reply_calls(
            stream_of(ds),
        ),
    decreases ds.len(),
{
    if ds.len() > 0 {
        let pre = ds.drop_last();
        law_calls_kept_beside_text(pre, content, saw_content);
        lemma_apply_calls_grows(stream_of(pre).calls, ds.last().tool_calls);
        if exists|i: int| 0 <= i < ds.len() && (#[trigger] ds[i]).tool_calls.len() > 0 {
            let i = choose|i: int| 0 <= i < ds.len() && (#[trigger] ds[i]).tool_calls.len() > 0;
            if i < pre.len() {
                assert(pre[i] == ds[i]);
            }
        } else {
            assert(ds[ds.len() - 1].tool_calls.len() == 0);
            assert(ds.last().tool_calls =~= Seq::<CallDeltaView>::empty());
            assert forall|i: int| 0 <= i < pre.len() implies (#[trigger] pre[i]).tool_calls.len() == 0 by {
                assert(pre[i] == ds[i]);
            }
        }
    }
}

fn choose_text(old: String, new: Option<String>) -> (r: String)
    ensures
        r@ == chosen(old@, opt_view(new)),
{
    match new {
        Some(v) => if v.as_str().is_empty() {
            old
        } else {
            v
        },
        None => old,
    }
}

fn text_or_empty(o: Option<String>) -> (r: String)
    ensures
        r@ == or_empty(opt_view(o)),
{
    match o {
        Some(v) => v,
        None => String::new(),
    }
}

impl StreamState {
    /// Nothing received yet.
    pub fn new() -> (s: StreamState)
        ensures
            s@ == stream_of(Seq::empty()),
    {
        let s = StreamState { content: String::new(), saw_content: false, calls: Vec::new() };
        assert(s@.calls =~= Seq::<PartialView>::empty());
        s
    }

    /// The text received so far.
    pub fn content(&self) -> (r: &String)
        ensures
            r@ == self@.content,
    {
        &self.content
    }

    fn apply_call(&mut self, d: CallDelta)
        ensures
            final(self)@ == (StreamView { calls: apply_call(old(self)@.calls, d@), ..old(self)@ }),
    {
        let ghost calls = self@.calls;
        let idx: u64 = match d.index {
            Some(i) => i,
            None => 0,
        };
        let mut j: usize = 0;
        while j < self.calls.len()
            invariant
                calls == partials_view(self.calls@),
                calls == old(self)@.calls,
                j <= self.calls@.len(),
                idx as nat == d@.index,
                position_from(calls, d@.index, 0) == position_from(calls, d@.index, j as int),
                self.content == old(self).content,
                self.saw_content == old(self).saw_content,
            decreases self.calls@.len() - j,
        {
            if self.calls[j].index == idx {
                assert(position_from(calls, d@.index, j as int) == j as int);
                let ghost before = self.calls@;
                let old_call = self.calls.remove(j);
                let arguments = old_call.arguments.concat(text_or_empty(d.arguments).as_str());
                let updated = PartialCall {
                    index: idx,
                    id: choose_text(old_call.id, d.id),
                    name: choose_text(old_call.name, d.name),
                    arguments,
                };
                self.calls.insert(j, updated);
                assert(self.calls@ =~= before.update(j as int, self.calls@[j as int]));
                assert(partials_view(self.calls@) =~= apply_call(calls, d@));
                assert(calls == old(self)@.calls);
                assert(self@.content == old(self)@.content);
                assert(self@.saw_content == old(self)@.saw_content);
                return;
            }
            j = j + 1;
        }
        let fresh = PartialCall {
            index: idx,
            id: text_or_empty(d.id),
            name: text_or_empty(d.name),
            arguments: text_or_empty(d.arguments),
        };
        self.calls.push(fresh);
        assert(partials_view(self.calls@) =~= apply_call(calls, d@));
    }

    /// Takes the delta of the next event.
    pub fn apply(&mut self, d: Delta)
        ensures
            final(self)@ == apply_delta(old(self)@, d@),
    {
        let ghost start = self@;
        let ghost dv = d@;
        let ghost ds = d@.tool_calls;
        let Delta { content, tool_calls } = d;
        match content {
            Some(c) => {
                self.content.append(c.as_str());
                self.saw_content = true;
            },
            None => {
                assert(self.content@ =~= start.content + or_empty(dv.content));
            },
        }
        let mut pending = tool_calls;
        let ghost mut k: int = 0;
        assert(ds.take(0) =~= Seq::<CallDeltaView>::empty());
        assert(call_deltas_view(pending@) =~= ds.skip(0));
        while pending.len() > 0
            invariant
                0 <= k <= ds.len(),
                call_deltas_view(pending@) == ds.skip(k),
                self@ == (StreamView {
                    content: start.content + or_empty(dv.content),
                    saw_content: start.saw_content || dv.content is Some,
                    calls: apply_calls(start.calls, ds.take(k)),
                }),
            decreases pending@.len(),
        {
            let ghost before = call_deltas_view(pending@);
            assert(pending@.len() > 0);
            let ghost old_pending = pending@;
            assert(before.len() == pending@.len());
            assert(ds.skip(k).len() == ds.len() - k);
            assert(k < ds.len());
            let c = pending.remove(0);
            assert(ds.skip(k)[0] == ds[k]);
            assert(c@ == before[0]);
            assert(before[0] == ds[k]);
            self.apply_call(c);
            proof {
                assert(ds.take(k + 1).drop_last() =~= ds.take(k));
                assert(ds.take(k + 1).last() == ds[k]);
                assert forall|i: int| 0 <= i < pending@.len() implies #[trigger] pending@[i]@ == ds.skip(k + 1)[i] by {
                    assert(pending@[i] == old_pending[i + 1]);
                    assert(before[i + 1] == old_pending[i + 1]@);
                    assert(ds.skip(k)[i + 1] == ds[k + 1 + i]);
                }
                assert(call_deltas_view(pending@) =~= ds.skip(k + 1));
                k = k + 1;
            }
        }
        assert(ds.take(k) =~= ds);
    }

    /// The reply, once the stream has ended.
    pub fn into_reply(self) -> (r: LlmReply)
        ensures
            opt_view(r.content) == reply_content(self@),
            (match r.tool_calls {
                Some(c) => Some(calls_view(c@)),
                None => None,
            }) == reply_calls(self@),
    {
        let StreamState { content, saw_content, calls } = self;
        let ghost cv = partials_view(calls@);
        let c = if saw_content {
            Some(content)
        } else {
            None
        };
        if calls.len() == 0 {
            return LlmReply { content: c, tool_calls: None };
        }
        let mut out: Vec<ToolCall> = Vec::new();
        let mut rest = calls;
        let ghost mut k: int = 0;
        assert(partials_view(rest@) =~= cv.skip(0));
        while rest.len() > 0
            invariant
                0 <= k <= cv.len(),
                partials_view(rest@) == cv.skip(k),
                out@.len() == k,
                forall|i: int| 0 <= i < k ==> (#[trigger] out@[i])@ == final_call(cv[i]),
            decreases rest@.len(),
        {
            let ghost before = partials_view(rest@);
            let ghost old_rest = rest@;
            assert(before.len() == rest@.len());
            assert(cv.skip(k).len() == cv.len() - k);
            assert(k < cv.len());
            let p = rest.remove(0);
            assert(cv.skip(k)[0] == cv[k]);
            assert(before[0] == cv[k]);
            let arguments = if p.arguments.as_str().is_empty() {
                "{}".to_owned()
            } else {
                p.arguments
            };
            out.push(ToolCall { id: p.id, name: p.name, arguments });
            proof {
                assert forall|i: int| 0 <= i < rest@.len() implies #[trigger] partials_view(rest@)[i] == cv.skip(k + 1)[i] by {
                    assert(rest@[i] == old_rest[i + 1]);
                    assert(cv.skip(k)[i + 1] == cv[k + 1 + i]);
                }
                assert(partials_view(rest@) =~= cv.skip(k + 1));
                k = k + 1;
            }
        }
        assert(calls_view(out@) =~= cv.map_values(|p: PartialView| final_call(p)));
        LlmReply { content: c, tool_calls: Some(out) }
    }
}
} // verus!
