use crate::text::to_chars;
use vstd::prelude::*;
use vstd::string::StringExecFns;

verus! {

/// How many characters the continuation marker has.
pub const CONTINUATION_MARKER_LEN: usize = 4;

/// How many characters the colour marker has.
pub const COLOR_MARKER_LEN: usize = 2;

/// What a continued line starts with: a quote sign, a space and the colour marker.
pub open spec fn continuation_marker() -> Seq<char> {
    seq!['>', ' ', '&', 'f']
}

/// The colour code after which a trigger phrase stands.
pub open spec fn color_marker() -> Seq<char> {
    seq!['&', 'f']
}

/// Whether `line` continues the line before it.
pub open spec fn is_continuation(line: Seq<char>) -> bool {
    continuation_marker().is_prefix_of(line)
}

/// The logical message that `line` stands for, given the last line that was no
/// continuation: a continuation is joined to it with one space, or stands alone,
/// without its marker, where there is none.
pub open spec fn reassembled(pending: Option<Seq<char>>, line: Seq<char>) -> Seq<char> {
    if is_continuation(line) {
        let rest = line.skip(CONTINUATION_MARKER_LEN as int);
        match pending {
            Some(prior) => prior + seq![' '] + rest,
            None => rest,
        }
    } else {
        line
    }
}

/// The pending message once `line` was seen: a continuation leaves it as it is.
pub open spec fn pending_after(pending: Option<Seq<char>>, line: Seq<char>) -> Option<Seq<char>> {
    if is_continuation(line) {
        pending
    } else {
        Some(line)
    }
}

/// A line that is no continuation is the message as it stands, and becomes the
/// pending message, whatever was pending before.
pub proof fn lemma_plain_line_stands(pending: Option<Seq<char>>, line: Seq<char>)
    requires
        !is_continuation(line),
    ensures
        reassembled(pending, line) == line,
        pending_after(pending, line) == Some(line),
{
}

/// A continuation of `rest` that follows the pending message `prior` gives `prior`,
/// one space and `rest`, and leaves `prior` pending.
pub proof fn lemma_continuation_joins(prior: Seq<char>, rest: Seq<char>)
    ensures
        is_continuation(continuation_marker() + rest),
        reassembled(Some(prior), continuation_marker() + rest) == prior + seq![' '] + rest,
        pending_after(Some(prior), continuation_marker() + rest) == Some(prior),
{
}

/// A continuation of `rest` with nothing pending gives `rest` alone.
pub proof fn lemma_continuation_without_prior(rest: Seq<char>)
    ensures
        reassembled(None, continuation_marker() + rest) == rest,
        pending_after(None, continuation_marker() + rest) == None::<Seq<char>>,
{
}

/// Whether the colour marker stands at position `p` of `message`.
pub open spec fn marker_at(message: Seq<char>, p: int) -> bool {
    &&& 0 <= p
    &&& p + COLOR_MARKER_LEN <= message.len()
    &&& message.subrange(p, p + COLOR_MARKER_LEN) == color_marker()
}

/// The colour marker stands where an ampersand is followed by the letter `f`.
pub proof fn lemma_marker_at(message: Seq<char>, p: int)
    requires
        0 <= p,
        p + COLOR_MARKER_LEN <= message.len(),
    ensures
        marker_at(message, p) <==> message[p] == '&' && message[p + 1] == 'f',
{
    if message[p] == '&' && message[p + 1] == 'f' {
        assert(message.subrange(p, p + COLOR_MARKER_LEN) =~= color_marker());
    }
}

/// Whether `p` is where the colour marker stands last in `message`.
pub open spec fn is_last_marker(message: Seq<char>, p: int) -> bool {
    &&& marker_at(message, p)
    &&& forall|q: int| marker_at(message, q) ==> q <= p
}

/// The trigger phrase of `message`: all that follows the last colour marker.
/// A message without the marker has none.
pub open spec fn trigger_phrase(message: Seq<char>) -> Option<Seq<char>> {
    if exists|p: int| is_last_marker(message, p) {
        let p = choose|p: int| is_last_marker(message, p);
        Some(message.skip(p + COLOR_MARKER_LEN))
    } else {
        None
    }
}

/// With the colour marker at positions `p1 < p2 < ... < pn`, the trigger phrase is
/// what stands strictly after `pn`.
pub proof fn lemma_trigger_follows_last_marker(message: Seq<char>, p: int)
    requires
        is_last_marker(message, p),
    ensures
        trigger_phrase(message) == Some(message.skip(p + COLOR_MARKER_LEN)),
{
}

proof fn lemma_last_marker_below(message: Seq<char>, bound: int) -> (p: int)
    requires
        exists|q: int| marker_at(message, q) && q < bound,
        forall|q: int| marker_at(message, q) ==> q < bound,
    ensures
        is_last_marker(message, p),
    decreases bound,
{
    if marker_at(message, bound - 1) {
        bound - 1
    } else {
        lemma_last_marker_below(message, bound - 1)
    }
}

/// A message has a trigger phrase exactly if the colour marker occurs in it.
pub proof fn lemma_trigger_iff_marker(message: Seq<char>)
    ensures
        trigger_phrase(message) is Some <==> exists|p: int| marker_at(message, p),
{
    if exists|p: int| marker_at(message, p) {
        lemma_last_marker_below(message, message.len() as int);
    }
}

/// The trigger phrase of `full_msg`, if it has one.
pub fn handle_chat_message(full_msg: &str) -> (trigger: Option<String>)
    ensures
        trigger.deep_view() == trigger_phrase(full_msg@),
{
    let chars = to_chars(full_msg);
    let n = chars.len();
    let mut end: usize = n;
    while end >= 2
        invariant
            end <= n,
            n == chars@.len(),
            chars@ == full_msg@,
            forall|q: int| marker_at(chars@, q) ==> q + COLOR_MARKER_LEN <= end,
        decreases end,
    {
        proof {
            lemma_marker_at(chars@, end - 2);
        }
        if chars[end - 2] == '&' && chars[end - 1] == 'f' {
            proof {
                lemma_trigger_follows_last_marker(full_msg@, end - 2);
            }
            return Some(full_msg.substring_char(end, n).to_owned());
        }
        end -= 1;
    }
    None
}

/// How the host classifies a chat event.
#[derive(Clone, Copy, Debug, PartialEq, Eq, Structural)]
pub enum MessageKind {
    /// Ordinary chat.
    Normal,
    /// Anything else: status lines, announcements and the like.
    Other,
}

/// Whether a chat event is looked at: its payload is there and it is ordinary chat.
pub open spec fn qualifies(full_msg: Option<Seq<char>>, kind: MessageKind) -> bool {
    full_msg is Some && kind == MessageKind::Normal
}

/// The trigger phrase that a chat event hands on for dispatch, if any.
pub open spec fn event_trigger(
    pending: Option<Seq<char>>,
    full_msg: Option<Seq<char>>,
    kind: MessageKind,
) -> Option<Seq<char>> {
    if qualifies(full_msg, kind) {
        trigger_phrase(reassembled(pending, full_msg->0))
    } else {
        None
    }
}

/// The pending message after a chat event: an event that is not looked at leaves
/// it alone.
pub open spec fn event_pending(
    pending: Option<Seq<char>>,
    full_msg: Option<Seq<char>>,
    kind: MessageKind,
) -> Option<Seq<char>> {
    if qualifies(full_msg, kind) {
        pending_after(pending, full_msg->0)
    } else {
        pending
    }
}

/// The chat lines of one session: remembers the last line that was no continuation.
pub struct ChatSession {
    last: Option<String>,
}

impl ChatSession {
    /// The pending message: the last line seen that was no continuation.
    pub closed spec fn pending(&self) -> Option<Seq<char>> {
        self.last.deep_view()
    }

    /// A session that has seen no line yet.
    pub fn new() -> (session: ChatSession)
        ensures
            session.pending() is None,
    {
        ChatSession { last: None }
    }

    /// The pending message, if there is one.
    pub fn pending_message(&self) -> (message: Option<String>)
        ensures
            message.deep_view() == self.pending(),
    {
        match &self.last {
            Some(line) => Some(line.clone()),
            None => None,
        }
    }

    /// Repairs a chat line that the host may have split: returns the logical message
    /// and remembers `raw_line` unless it is a continuation.
    pub fn reassemble(&mut self, raw_line: &str) -> (message: String)
        ensures
            message@ == reassembled(old(self).pending(), raw_line@),
            final(self).pending() == pending_after(old(self).pending(), raw_line@),
    {
        let chars = to_chars(raw_line);
        let n = chars.len();
        let continued = n >= 4 && chars[0] == '>' && chars[1] == ' ' && chars[2] == '&' && chars[3]
            == 'f';
        assert(continued == is_continuation(raw_line@));
        if !continued {
            let message = raw_line.to_owned();
            self.last = Some(message.clone());
            message
        } else {
            let rest = raw_line.substring_char(4, n);
            match &self.last {
                Some(prior) => {
                    let mut message = prior.clone();
                    proof {
                        reveal_strlit(" ");
                    }
                    message.append(" ");
                    message.append(rest);
                    message
                },
                None => rest.to_owned(),
            }
        }
    }
}

/// Handles one chat event of the host: an event without payload or of another kind
/// than ordinary chat is ignored; any other line is reassembled, and its trigger
/// phrase, if it has one, is returned for dispatch.
pub fn on_chat_received(
    session: &mut ChatSession,
    full_msg: Option<&str>,
    kind: MessageKind,
) -> (trigger: Option<String>)
    ensures
        trigger.deep_view() == event_trigger(old(session).pending(), full_msg.deep_view(), kind),
        final(session).pending() == event_pending(
            old(session).pending(),
            full_msg.deep_view(),
            kind,
        ),
{
    match kind {
        MessageKind::Other => None,
        MessageKind::Normal => match full_msg {
            None => None,
            Some(line) => {
                let message = session.reassemble(line);
                handle_chat_message(message.as_str())
            },
        },
    }
}

} // verus!
