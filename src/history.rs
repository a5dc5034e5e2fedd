use vstd::prelude::*;
use vstd::string::StringExecFns;

verus! {

/// Relies on `chrono::Utc::now` and `DateTime::timestamp_millis`: the current
/// time in milliseconds since the Unix epoch. Nothing is promised of its value.
#[verifier::external_body]
pub(crate) fn now_millis() -> (r: i64) {
    chrono::Utc::now().timestamp_millis()
}

/// A message of a conversation: when it was written (milliseconds since the
/// Unix epoch), by whom, and what it says.
#[derive(Debug, Clone)]
pub struct Message {
    pub timestamp: i64,
    pub author: String,
    pub content: String,
}

/// A conversation: when it was stored, its identifier, and its messages in order.
#[derive(Debug, Clone)]
pub struct History {
    pub timestamp: i64,
    pub id: u128,
    pub messages: Vec<Message>,
}

/// The messages of a conversation from `initial_index` on.
#[derive(Debug, Clone)]
pub struct PartialHistory {
    pub id: u128,
    pub initial_index: usize,
    pub messages: Vec<Message>,
}

impl History {
    /// The messages from position `index` on; none when `index` lies past the end.
    pub fn into_partial(self, index: usize) -> (r: PartialHistory)
        ensures
            r.id == self.id,
            r.initial_index == index,
            index <= self.messages@.len() ==> r.messages@ == self.messages@.subrange(index as int, self.messages@.len() as int),
            index > self.messages@.len() ==> r.messages@ == Seq::<Message>::empty(),
    {
        let mut messages = self.messages;
        let tail = if index <= messages.len() {
            messages.split_off(index)
        } else {
            Vec::new()
        };
        PartialHistory { id: self.id, initial_index: index, messages: tail }
    }

    /// Drops the messages from the partial's initial index on and appends
    /// the partial's messages in their place.
    pub fn merge_partial(&mut self, partial: PartialHistory)
        ensures
            final(self).id == old(self).id,
            final(self).timestamp == old(self).timestamp,
            partial.initial_index <= old(self).messages@.len() ==> final(self).messages@ == old(self).messages@.subrange(0, partial.initial_index as int) + partial.messages@,
            partial.initial_index > old(self).messages@.len() ==> final(self).messages@ == old(self).messages@ + partial.messages@,
    {
        let mut added = partial.messages;
        self.messages.truncate(partial.initial_index);
        self.messages.append(&mut added);
    }
}

impl PartialHistory {
    /// A conversation holding these messages, stamped with the current time.
    pub fn into_history(self) -> (r: History)
        ensures
            r.id == self.id,
            r.messages@ == self.messages@,
    {
        History { timestamp: now_millis(), id: self.id, messages: self.messages }
    }
}

} // verus!

verus! {

/// The line a message takes in a prompt: `author: content` and a newline.
pub open spec fn prompt_line(m: Message) -> Seq<char> {
    m.author@ + ": "@ + m.content@ + "\n"@
}

/// The lines of the messages, the newest first.
pub open spec fn prompt_lines(ms: Seq<Message>) -> Seq<char>
    decreases ms.len(),
{
    if ms.len() == 0 {
        Seq::empty()
    } else {
        prompt_lines(ms.drop_first()) + prompt_line(ms[0])
    }
}

/// The prompt for the next turn of a conversation: the system line, the
/// messages newest first, and the name of whoever speaks next.
pub fn chat_prompt(history: History, turn: String) -> (r: String)
    ensures
        r@ == "You are Alice, an intelligent AI chatbot."@ + prompt_lines(history.messages@) + turn@ + ": "@,
{
    let mut prompt = String::from_str("You are Alice, an intelligent AI chatbot.");
    let ghost head = prompt@;
    let ms = &history.messages;
    let n = ms.len();
    let mut k: usize = 0;
    assert(ms@.subrange(n as int, n as int) =~= Seq::<Message>::empty());
    while k < n
        invariant
            0 <= k <= n,
            n == ms@.len(),
            prompt@ == head + prompt_lines(ms@.subrange(n - k, n as int)),
        decreases n - k,
    {
        let m = &ms[n - 1 - k];
        prompt.append(m.author.as_str());
        prompt.append(": ");
        prompt.append(m.content.as_str());
        prompt.append("\n");
        proof {
            let s = ms@.subrange(n - k - 1, n as int);
            assert(s.drop_first() =~= ms@.subrange(n - k, n as int));
            assert(s[0] == ms@[n - 1 - k]);
            assert(prompt@ =~= head + prompt_lines(s));
        }
        k = k + 1;
    }
    assert(ms@.subrange(0, n as int) =~= ms@);
    prompt.append(turn.as_str());
    prompt.append(": ");
    prompt
}

} // verus!
