//! Conversation history: messages, their shape, and the trimming of old rounds.

use vstd::prelude::*;

verus! {

/// A tool call that the model asked for.
pub struct ToolCall {
    pub id: String,
    pub name: String,
    pub arguments: String,
}

/// The view of a tool call.
pub struct ToolCallView {
    pub id: Seq<char>,
    pub name: Seq<char>,
    pub arguments: Seq<char>,
}

impl View for ToolCall {
    type V = ToolCallView;

    open spec fn view(&self) -> ToolCallView {
        ToolCallView { id: self.id@, name: self.name@, arguments: self.arguments@ }
    }
}

impl ToolCall {
    /// A copy of the call.
    pub fn duplicate(&self) -> (r: ToolCall)
        ensures
            r@ == self@,
    {
        ToolCall { id: self.id.clone(), name: self.name.clone(), arguments: self.arguments.clone() }
    }
}

/// The views of a sequence of tool calls.
pub open spec fn calls_view(calls: Seq<ToolCall>) -> Seq<ToolCallView> {
    calls.map_values(|c: ToolCall| c@)
}

/// One message of the conversation.
#[allow(inconsistent_fields)]
pub enum Message {
    /// The system prompt.
    System { content: String },
    /// What the user typed.
    User { content: String },
    /// A final reply of the model.
    Assistant { content: String },
    /// A reply of the model that asks for tool calls.
    ToolCalls { content: Option<String>, calls: Vec<ToolCall> },
    /// The result of one tool call.
    ToolResult { call_id: String, content: String },
}

/// The view of a message.
#[allow(inconsistent_fields)]
pub enum MessageView {
    System { content: Seq<char> },
    User { content: Seq<char> },
    Assistant { content: Seq<char> },
    ToolCalls { content: Option<Seq<char>>, calls: Seq<ToolCallView> },
    ToolResult { call_id: Seq<char>, content: Seq<char> },
}

/// The view of an optional string.
pub open spec fn opt_view(o: Option<String>) -> Option<Seq<char>> {
    match o {
        Some(s) => Some(s@),
        None => None,
    }
}

impl View for Message {
    type V = MessageView;

    open spec fn view(&self) -> MessageView {
        match self {
            Message::System { content } => MessageView::System { content: content@ },
            Message::User { content } => MessageView::User { content: content@ },
            Message::Assistant { content } => MessageView::Assistant { content: content@ },
            Message::ToolCalls { content, calls } => MessageView::ToolCalls {
                content: opt_view(*content),
                calls: calls_view(calls@),
            },
            Message::ToolResult { call_id, content } => MessageView::ToolResult {
                call_id: call_id@,
                content: content@,
            },
        }
    }
}

impl Message {
    /// Whether this is a message of the user.
    pub fn is_user(&self) -> (r: bool)
        ensures
            r == (self@ is User),
    {
        match self {
            Message::User { .. } => true,
            _ => false,
        }
    }
}

/// The views of a sequence of messages.
pub open spec fn history_view(h: Seq<Message>) -> Seq<MessageView> {
    h.map_values(|m: Message| m@)
}

/// The most messages that a trimmed history holds, where a round boundary allows it.
pub const MAX_HISTORY: usize = 50;

/// A round of the conversation starts at each message of the user after the system prompt.
pub open spec fn is_round_start(h: Seq<MessageView>, i: int) -> bool {
    1 <= i < h.len() && h[i] is User
}

/// Keeping the system prompt and the messages from `i` on stays within the limit.
pub open spec fn fits_from(h: Seq<MessageView>, i: int) -> bool {
    h.len() - i + 1 <= MAX_HISTORY
}

/// The first round start at or after `i` from which the history fits, or the length when none.
pub open spec fn first_fitting_from(h: Seq<MessageView>, i: int) -> int
    decreases h.len() - i,
{
    if i >= h.len() {
        h.len() as int
    } else if is_round_start(h, i) && fits_from(h, i) {
        i
    } else {
        first_fitting_from(h, i + 1)
    }
}

/// The last round start before `i`, or 0 when there is none.
pub open spec fn last_start_before(h: Seq<MessageView>, i: int) -> int
    decreases i,
{
    if i <= 1 {
        0
    } else if is_round_start(h, i - 1) {
        i - 1
    } else {
        last_start_before(h, i - 1)
    }
}

/// Where trimming cuts: the earliest round start that fits, else the latest round start,
/// else 0 (no round boundary to cut at).
pub open spec fn trim_cut(h: Seq<MessageView>) -> int {
    let f = first_fitting_from(h, 1);
    if f < h.len() {
        f
    } else {
        last_start_before(h, h.len() as int)
    }
}

/// The history after trimming: when it holds more than `MAX_HISTORY` messages, the
/// system prompt followed by the messages from the cut on.
pub open spec fn trimmed_history(h: Seq<MessageView>) -> Seq<MessageView> {
    if h.len() <= MAX_HISTORY || trim_cut(h) == 0 {
        h
    } else {
        seq![h[0]] + h.subrange(trim_cut(h), h.len() as int)
    }
}

/// The message at `j` is the result of the call with index `k` of the message at `i`.
pub open spec fn answers(h: Seq<MessageView>, i: int, k: int, j: int) -> bool {
    &&& h[j] is ToolResult
    &&& h[j]->call_id == h[i]->calls[k].id
}

/// The results that follow a tool-call message answer its calls in order.
pub open spec fn block_answered(h: Seq<MessageView>, i: int) -> bool {
    h[i] is ToolCalls ==> forall|k: int|
        0 <= k < h[i]->calls.len() && i + 1 + k < h.len() ==> #[trigger] answers(h, i, k, i + 1 + k)
}

/// Each call of a tool-call message has its result in the history.
pub open spec fn block_complete(h: Seq<MessageView>, i: int) -> bool {
    h[i] is ToolCalls ==> i + h[i]->calls.len() < h.len()
}

/// A tool result belongs to the block of an earlier tool-call message.
pub open spec fn result_in_block(h: Seq<MessageView>, j: int) -> bool {
    h[j] is ToolResult ==> exists|i: int|
        0 <= i < j && #[trigger] h[i] is ToolCalls && j - i <= h[i]->calls.len()
}

/// The shape that the chat API expects: the system prompt first, and every tool call
/// answered, in order, right after the message that asked for it.
pub open spec fn well_formed(h: Seq<MessageView>) -> bool {
    &&& h.len() >= 1
    &&& h[0] is System
    &&& forall|i: int| 0 <= i < h.len() ==> #[trigger] block_answered(h, i)
    &&& forall|i: int| 0 <= i < h.len() ==> #[trigger] block_complete(h, i)
    &&& forall|j: int| 0 <= j < h.len() ==> #[trigger] result_in_block(h, j)
}

/// A history whose last tool-call message, at `b`, still waits for some of its results.
pub open spec fn awaiting_results(h: Seq<MessageView>, b: int) -> bool {
    &&& h.len() >= 1
    &&& h[0] is System
    &&& 1 <= b < h.len()
    &&& h[b] is ToolCalls
    &&& h.len() <= b + h[b]->calls.len()
    &&& forall|i: int| 0 <= i < h.len() ==> #[trigger] block_answered(h, i)
    &&& forall|i: int| 0 <= i < h.len() && i != b ==> #[trigger] block_complete(h, i)
    &&& forall|j: int| 0 <= j < h.len() ==> #[trigger] result_in_block(h, j)
}

/// Appending a message that is neither a tool call nor a tool result keeps the shape.
pub(crate) proof fn lemma_push_plain(h: Seq<MessageView>, m: MessageView)
    requires
        well_formed(h),
        !(m is ToolCalls),
        !(m is ToolResult),
    ensures
        well_formed(h.push(m)),
{
    let g = h.push(m);
    assert forall|i: int| 0 <= i < g.len() implies #[trigger] block_answered(g, i) by {
        if i < h.len() && g[i] is ToolCalls {
            assert(block_answered(h, i));
            assert(block_complete(h, i));
            assert forall|k: int|
                0 <= k < g[i]->calls.len() && i + 1 + k < g.len() implies #[trigger] answers(
                g,
                i,
                k,
                i + 1 + k,
            ) by {
                assert(answers(h, i, k, i + 1 + k));
            }
        }
    }
    assert forall|i: int| 0 <= i < g.len() implies #[trigger] block_complete(g, i) by {
        if i < h.len() {
            assert(block_complete(h, i));
        }
    }
    assert forall|j: int| 0 <= j < g.len() implies #[trigger] result_in_block(g, j) by {
        if j < h.len() && g[j] is ToolResult {
            assert(result_in_block(h, j));
            let i = choose|i: int|
                0 <= i < j && #[trigger] h[i] is ToolCalls && j - i <= h[i]->calls.len();
            assert(g[i] == h[i]);
        }
    }
}

/// Appending a tool-call message to a well-formed history opens its block of results
/// (a block with no calls is complete at once).
pub(crate) proof fn lemma_push_calls(h: Seq<MessageView>, m: MessageView)
    requires
        well_formed(h),
        m is ToolCalls,
    ensures
        m->calls.len() == 0 ==> well_formed(h.push(m)),
        m->calls.len() > 0 ==> awaiting_results(h.push(m), h.len() as int),
{
    let g = h.push(m);
    let b = h.len() as int;
    assert forall|i: int| 0 <= i < g.len() implies #[trigger] block_answered(g, i) by {
        if i < h.len() && g[i] is ToolCalls {
            assert(block_answered(h, i));
            assert(block_complete(h, i));
            assert forall|k: int|
                0 <= k < g[i]->calls.len() && i + 1 + k < g.len() implies #[trigger] answers(
                g,
                i,
                k,
                i + 1 + k,
            ) by {
                assert(answers(h, i, k, i + 1 + k));
            }
        }
    }
    assert forall|i: int| 0 <= i < g.len() && (i != b || m->calls.len() == 0) implies #[trigger] block_complete(
        g,
        i,
    ) by {
        if i < h.len() {
            assert(block_complete(h, i));
        }
    }
    assert forall|j: int| 0 <= j < g.len() implies #[trigger] result_in_block(g, j) by {
        if j < h.len() && g[j] is ToolResult {
            assert(result_in_block(h, j));
            let i = choose|i: int|
                0 <= i < j && #[trigger] h[i] is ToolCalls && j - i <= h[i]->calls.len();
            assert(g[i] == h[i]);
        }
    }
}

/// Appending the result of the next call of the open block keeps the shape; the result
/// of its last call completes it.
pub(crate) proof fn lemma_push_result(h: Seq<MessageView>, b: int, m: MessageView)
    requires
        awaiting_results(h, b),
        m is ToolResult,
        m->call_id == h[b]->calls[h.len() - 1 - b].id,
    ensures
        h.len() + 1 < b + 1 + h[b]->calls.len() ==> awaiting_results(h.push(m), b),
        h.len() + 1 == b + 1 + h[b]->calls.len() ==> well_formed(h.push(m)),
{
    let g = h.push(m);
    let n = h.len() as int;
    assert forall|i: int| 0 <= i < g.len() implies #[trigger] block_answered(g, i) by {
        if i < h.len() && g[i] is ToolCalls {
            assert(block_answered(h, i));
            assert forall|k: int|
                0 <= k < g[i]->calls.len() && i + 1 + k < g.len() implies #[trigger] answers(
                g,
                i,
                k,
                i + 1 + k,
            ) by {
                if i + 1 + k < n {
                    assert(answers(h, i, k, i + 1 + k));
                } else if i != b {
                    assert(block_complete(h, i));
                }
            }
        }
    }
    assert forall|i: int| 0 <= i < g.len() && (i != b || n + 1 == b + 1 + h[b]->calls.len()) implies #[trigger] block_complete(
        g,
        i,
    ) by {
        if i < h.len() && i != b {
            assert(block_complete(h, i));
        }
    }
    assert forall|j: int| 0 <= j < g.len() implies #[trigger] result_in_block(g, j) by {
        if j < h.len() && g[j] is ToolResult {
            assert(result_in_block(h, j));
            let i = choose|i: int|
                0 <= i < j && #[trigger] h[i] is ToolCalls && j - i <= h[i]->calls.len();
            assert(g[i] == h[i]);
        } else if j == n {
            assert(g[b] is ToolCalls);
        }
    }
}

proof fn lemma_first_fitting(h: Seq<MessageView>, i: int)
    requires
        0 <= i <= h.len(),
    ensures
        i <= first_fitting_from(h, i) <= h.len(),
        first_fitting_from(h, i) < h.len() ==> is_round_start(h, first_fitting_from(h, i))
            && fits_from(h, first_fitting_from(h, i)),
        forall|j: int|
            i <= j < first_fitting_from(h, i) ==> !(#[trigger] is_round_start(h, j) && fits_from(
                h,
                j,
            )),
    decreases h.len() - i,
{
    if i < h.len() && !(is_round_start(h, i) && fits_from(h, i)) {
        lemma_first_fitting(h, i + 1);
    }
}

proof fn lemma_last_start(h: Seq<MessageView>, i: int)
    requires
        0 <= i <= h.len(),
    ensures
        last_start_before(h, i) == 0 || (1 <= last_start_before(h, i) < i && is_round_start(
            h,
            last_start_before(h, i),
        )),
        forall|j: int| last_start_before(h, i) < j < i ==> !#[trigger] is_round_start(h, j),
    decreases i,
{
    if i > 1 && !is_round_start(h, i - 1) {
        lemma_last_start(h, i - 1);
    }
}

/// What the cut is, said without the search: the earliest round start that fits when
/// there is one, else the latest round start, else 0.
proof fn lemma_cut(h: Seq<MessageView>)
    ensures
        trim_cut(h) == 0 || is_round_start(h, trim_cut(h)),
        (exists|i: int| is_round_start(h, i) && fits_from(h, i)) ==> fits_from(h, trim_cut(h))
            && is_round_start(h, trim_cut(h)) && forall|j: int|
            #[trigger] is_round_start(h, j) && fits_from(h, j) ==> trim_cut(h) <= j,
        !(exists|i: int| is_round_start(h, i) && fits_from(h, i)) ==> forall|j: int|
            #[trigger] is_round_start(h, j) ==> j <= trim_cut(h),
        trim_cut(h) == 0 ==> forall|j: int| !#[trigger] is_round_start(h, j),
{
    if h.len() == 0 {
        return;
    }
    lemma_first_fitting(h, 1);
    lemma_last_start(h, h.len() as int);
    let f = first_fitting_from(h, 1);
    if f < h.len() {
        assert forall|j: int| #[trigger] is_round_start(h, j) && fits_from(h, j) implies f <= j by {
            if j < f {
                assert(!(is_round_start(h, j) && fits_from(h, j)));
            }
        }
    } else {
        assert(!(exists|i: int| is_round_start(h, i) && fits_from(h, i))) by {
            assert forall|i: int| !(is_round_start(h, i) && fits_from(h, i)) by {
                if is_round_start(h, i) && fits_from(h, i) {
                    assert(1 <= i < f);
                }
            }
        }
    }
}

/// A history of at most `MAX_HISTORY` messages is left as it is.
pub proof fn law_trim_short_unchanged(h: Seq<MessageView>)
    requires
        h.len() <= MAX_HISTORY,
    ensures
        trimmed_history(h) == h,
{
}

/// Trimming keeps the first message, the system prompt.
pub proof fn law_trim_keeps_system_prompt(h: Seq<MessageView>)
    requires
        h.len() >= 1,
    ensures
        trimmed_history(h).len() >= 1,
        trimmed_history(h)[0] == h[0],
{
}

/// Trimming keeps the last message: the newest message always stays.
pub proof fn law_trim_keeps_last(h: Seq<MessageView>)
    requires
        h.len() >= 1,
    ensures
        trimmed_history(h).len() >= 1,
        trimmed_history(h).last() == h.last(),
{
    lemma_cut(h);
}

/// Trimming cuts only at a round boundary: the result is the history itself, or the
/// system prompt followed by every message from some message of the user on.
pub proof fn law_trim_cuts_at_round_boundary(h: Seq<MessageView>)
    ensures
        trimmed_history(h) == h || (h.len() > MAX_HISTORY && is_round_start(h, trim_cut(h))
            && trimmed_history(h) == seq![h[0]] + h.subrange(trim_cut(h), h.len() as int)),
{
    lemma_cut(h);
}

/// Where some round boundary allows it, the trimmed history holds at most `MAX_HISTORY`
/// messages.
pub proof fn law_trim_within_limit(h: Seq<MessageView>, i: int)
    requires
        is_round_start(h, i),
        fits_from(h, i),
    ensures
        trimmed_history(h).len() <= MAX_HISTORY,
{
    lemma_cut(h);
}

/// Trimming keeps as many messages as any round boundary within the limit would.
pub proof fn law_trim_keeps_most(h: Seq<MessageView>, j: int)
    requires
        is_round_start(h, j),
        fits_from(h, j),
    ensures
        trimmed_history(h).len() >= h.len() - j + 1,
{
    lemma_cut(h);
}

/// The latest round, the one in progress, is never cut.
pub proof fn law_trim_keeps_latest_round(h: Seq<MessageView>, l: int)
    requires
        is_round_start(h, l),
        forall|j: int| l < j < h.len() ==> !#[trigger] is_round_start(h, j),
    ensures
        trimmed_history(h).len() >= h.len() - l + 1,
        trimmed_history(h).subrange(
            trimmed_history(h).len() - (h.len() - l),
            trimmed_history(h).len() as int,
        ) == h.subrange(l, h.len() as int),
{
    lemma_cut(h);
    let t = trimmed_history(h);
    if t != h {
        let c = trim_cut(h);
        assert(c <= l) by {
            if exists|i: int| is_round_start(h, i) && fits_from(h, i) {
                assert(fits_from(h, l));
            }
        }
        assert(t.subrange(t.len() - (h.len() - l), t.len() as int) =~= h.subrange(
            l,
            h.len() as int,
        ));
    } else {
        assert(t.subrange(t.len() - (h.len() - l), t.len() as int) =~= h.subrange(
            l,
            h.len() as int,
        ));
    }
}

/// Trimming a trimmed history changes nothing.
pub proof fn law_trim_idempotent(h: Seq<MessageView>)
    ensures
        trimmed_history(trimmed_history(h)) == trimmed_history(h),
{
    lemma_cut(h);
    let t = trimmed_history(h);
    if t != h {
        let c = trim_cut(h);
        if t.len() > MAX_HISTORY {
            // No round start fits, so `c` is the latest round start of `h`,
            // and the only round start of `t` is 1, which does not fit either.
            assert(!(exists|i: int| is_round_start(h, i) && fits_from(h, i)));
            assert forall|j: int| #[trigger] is_round_start(t, j) implies j == 1 by {
                assert(t[j] == h[c + j - 1]);
                assert(is_round_start(h, c + j - 1));
            }
            assert(is_round_start(t, 1)) by {
                assert(t[1] == h[c]);
            }
            lemma_cut(t);
            assert(trim_cut(t) == 1);
            assert(seq![t[0]] + t.subrange(1, t.len() as int) =~= t);
        }
    }
}

/// Trimming keeps a well-formed history well formed: no tool result loses the call
/// that it answers, and no call loses its result.
pub proof fn law_trim_preserves_well_formed(h: Seq<MessageView>)
    requires
        well_formed(h),
    ensures
        well_formed(trimmed_history(h)),
{
    lemma_cut(h);
    let t = trimmed_history(h);
    if t != h {
        let c = trim_cut(h);
        assert(t.len() == h.len() - c + 1);
        assert forall|jj: int| 1 <= jj < t.len() implies #[trigger] t[jj] == h[c + jj - 1] by {}
        assert forall|jj: int| 0 <= jj < t.len() implies #[trigger] block_answered(t, jj) by {
            if jj >= 1 && t[jj] is ToolCalls {
                let j = c + jj - 1;
                assert(block_answered(h, j));
                assert forall|k: int|
                    0 <= k < t[jj]->calls.len() && jj + 1 + k < t.len() implies #[trigger] answers(
                    t,
                    jj,
                    k,
                    jj + 1 + k,
                ) by {
                    assert(t[jj + 1 + k] == h[j + 1 + k]);
                    assert(answers(h, j, k, j + 1 + k));
                }
            }
        }
        assert forall|jj: int| 0 <= jj < t.len() implies #[trigger] block_complete(t, jj) by {
            if jj >= 1 {
                assert(block_complete(h, c + jj - 1));
            }
        }
        assert forall|jj: int| 0 <= jj < t.len() implies #[trigger] result_in_block(t, jj) by {
            if jj >= 1 && t[jj] is ToolResult {
                let j = c + jj - 1;
                assert(result_in_block(h, j));
                let i = choose|i: int|
                    0 <= i < j && #[trigger] h[i] is ToolCalls && j - i <= h[i]->calls.len();
                if i < c {
                    let k = c - i - 1;
                    assert(block_answered(h, i));
                    assert(answers(h, i, k, i + 1 + k));
                    assert(false);
                }
                let ii = i - c + 1;
                assert(t[ii] == h[i]);
                assert(0 <= ii < jj && t[ii] is ToolCalls && jj - ii <= t[ii]->calls.len());
            }
        }
    }
}

/// Trims the history in place: a history of more than `MAX_HISTORY` messages keeps its
/// first message (the system prompt) and the messages from a round boundary on.
pub fn trim_history(messages: &mut Vec<Message>)
    ensures
        history_view(final(messages)@) == trimmed_history(history_view(old(messages)@)),
{
    let ghost h = history_view(messages@);
    let n = messages.len();
    if n <= MAX_HISTORY {
        return;
    }
    let mut i: usize = 1;
    let mut last: usize = 0;
    let mut found: usize = 0;
    while i < n && found == 0
        invariant
            h == history_view(messages@),
            n == messages@.len(),
            n > MAX_HISTORY,
            1 <= i <= n,
            found == 0 ==> last as int == last_start_before(h, i as int),
            found == 0 ==> first_fitting_from(h, 1) == first_fitting_from(h, i as int),
            found != 0 ==> found as int == first_fitting_from(h, 1) && found < n,
        decreases n - i + (if found == 0 { 1int } else { 0int }),
    {
        assert(h[i as int] == messages@[i as int]@);
        if messages[i].is_user() {
            last = i;
            if n - i + 1 <= MAX_HISTORY {
                assert(is_round_start(h, i as int) && fits_from(h, i as int));
                assert(first_fitting_from(h, i as int) == i as int);
                found = i;
            }
        }
        if found == 0 {
            assert(!(is_round_start(h, i as int) && fits_from(h, i as int)));
            i = i + 1;
        }
    }
    proof {
        lemma_first_fitting(h, 1);
        lemma_last_start(h, n as int);
    }
    let cut = if found != 0 {
        found
    } else {
        last
    };
    assert(cut as int == trim_cut(h));
    if cut == 0 {
        return;
    }
    let mut tail = messages.split_off(cut);
    messages.truncate(1);
    messages.append(&mut tail);
    assert(history_view(messages@) =~= seq![h[0]] + h.subrange(cut as int, n as int));
}

} // verus!
