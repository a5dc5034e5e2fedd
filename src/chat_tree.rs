use vstd::prelude::*;
use vstd::string::StringExecFns;
use crate::envelope::{uuid_string, uuid_text};
use crate::history::now_millis;
use crate::ids::CallIds;

verus! {

/// Who wrote a message: a registered author, by identifier, or a character
/// that appears once, by name.
#[derive(Debug)]
pub enum Author {
    RegisteredAuthor { id: u128 },
    OneOffCharacter { name: String },
}

impl Author {
    /// A copy of this author.
    pub fn copy(&self) -> (r: Author)
        ensures
            r == *self,
    {
        match self {
            Author::RegisteredAuthor { id } => Author::RegisteredAuthor { id: *id },
            Author::OneOffCharacter { name } => Author::OneOffCharacter { name: name.clone() },
        }
    }
}

impl Clone for Author {
    fn clone(&self) -> (r: Author)
        ensures
            r == *self,
    {
        self.copy()
    }
}

/// A change made to the history, kept so that it can be undone.
#[derive(Debug)]
pub enum Action {
    Edit { id: u128, old_content: String, time: i64 },
    Delete { id: u128 },
}

impl Action {
    /// A copy of this action.
    pub fn copy(&self) -> (r: Action)
        ensures
            r == *self,
    {
        match self {
            Action::Edit { id, old_content, time } => Action::Edit { id: *id, old_content: old_content.clone(), time: *time },
            Action::Delete { id } => Action::Delete { id: *id },
        }
    }
}

impl Clone for Action {
    fn clone(&self) -> (r: Action)
        ensures
            r == *self,
    {
        self.copy()
    }
}

/// A message of the history: its identifier, author, time of writing
/// (milliseconds since the Unix epoch), text, and whether it is deleted.
#[derive(Debug)]
pub struct MessageNode {
    pub id: u128,
    pub author: Author,
    pub time: i64,
    pub content: String,
    pub deleted: bool,
}

/// A message as shown: with the time of its latest edit, if any.
#[derive(Debug)]
pub struct SimpleMessage {
    pub id: u128,
    pub time: i64,
    pub edit_time: Option<i64>,
    pub author: Author,
    pub content: String,
}

/// The messages shown, oldest first.
#[derive(Debug)]
pub struct SimpleHistory {
    pub messages: Vec<SimpleMessage>,
}

/// A message as stored, with the identifier of the message it answers.
#[derive(Debug)]
pub struct SaveableMessage {
    pub id: u128,
    pub parent: Option<u128>,
    pub author: Author,
    pub time: i64,
    pub content: String,
    pub deleted: bool,
}

/// A history as stored: the first message's identifier, the messages from
/// the newest back to the first, and the changes that can be undone.
#[derive(Debug)]
pub struct SaveableChatHistoryTree {
    pub root: u128,
    pub messages: Vec<SaveableMessage>,
    pub action_history: Vec<Action>,
}

/// The messages of a history and the changes made to it. Each message
/// answers the one before it; deleting a message only marks it.
pub struct ChatHistoryTree {
    nodes: Vec<MessageNode>,
    ids: CallIds,
    action_history: Vec<Action>,
}

/// Whether a message of `nodes` has identifier `id`.
pub open spec fn holds_id(nodes: Seq<MessageNode>, id: u128) -> bool {
    exists|i: int| 0 <= i < nodes.len() && nodes[i].id == id
}

/// The position of the message with identifier `id`.
pub open spec fn index_of(nodes: Seq<MessageNode>, id: u128) -> int {
    choose|i: int| 0 <= i < nodes.len() && nodes[i].id == id
}

/// The messages that are not deleted, in order.
pub open spec fn shown(nodes: Seq<MessageNode>) -> Seq<MessageNode>
    decreases nodes.len(),
{
    if nodes.len() == 0 {
        Seq::empty()
    } else if nodes.last().deleted {
        shown(nodes.drop_last())
    } else {
        shown(nodes.drop_last()).push(nodes.last())
    }
}

/// The latest time at which the message `id` was edited.
pub open spec fn last_edit(actions: Seq<Action>, id: u128) -> Option<i64>
    decreases actions.len(),
{
    if actions.len() == 0 {
        None
    } else {
        let before = last_edit(actions.drop_last(), id);
        match actions.last() {
            Action::Edit { id: e, time: t, .. } if e == id => match before {
                Some(b) => Some(if b >= t { b } else { t }),
                None => Some(t),
            },
            _ => before,
        }
    }
}

/// The error for a message that is not there.
pub open spec fn not_found(id: u128) -> Seq<char> {
    "Message with ID "@ + uuid_text(id) + " not found."@
}

fn not_found_message(id: u128) -> (r: String)
    ensures
        r@ == not_found(id),
{
    String::from_str("Message with ID ").concat(uuid_string(id).as_str()).concat(" not found.")
}

impl ChatHistoryTree {
    /// The messages, oldest first.
    pub closed spec fn messages(&self) -> Seq<MessageNode> {
        self.nodes@
    }

    /// The changes that can be undone, oldest first.
    pub closed spec fn actions(&self) -> Seq<Action> {
        self.action_history@
    }

    pub closed spec fn wf(&self) -> bool {
        &&& self.nodes@.len() >= 1
        &&& self.ids.wf()
        &&& self.ids@ == self.nodes@.map_values(|n: MessageNode| n.id)
    }

    /// A history that holds one message.
    pub fn new(initial_content: String, author: Author) -> (r: ChatHistoryTree)
        ensures
            r.wf(),
            r.messages().len() == 1,
            r.messages()[0].author == author,
            r.messages()[0].content == initial_content,
            !r.messages()[0].deleted,
            r.actions() == Seq::<Action>::empty(),
    {
        let mut ids = CallIds::new();
        let id = ids.issue();
        let root = MessageNode { id, author, time: now_millis(), content: initial_content, deleted: false };
        let mut nodes: Vec<MessageNode> = Vec::new();
        nodes.push(root);
        let r = ChatHistoryTree { nodes, ids, action_history: Vec::new() };
        assert(r.ids@ =~= r.nodes@.map_values(|n: MessageNode| n.id));
        r
    }

    /// Adds a message answering the newest one, under a fresh identifier,
    /// and gives that identifier.
    pub fn add_message(&mut self, content: String, author: Author) -> (r: u128)
        requires
            old(self).wf(),
        ensures
            final(self).wf(),
            !holds_id(old(self).messages(), r),
            final(self).messages().len() == old(self).messages().len() + 1,
            final(self).messages().drop_last() == old(self).messages(),
            final(self).messages().last().id == r,
            final(self).messages().last().author == author,
            final(self).messages().last().content == content,
            !final(self).messages().last().deleted,
            final(self).actions() == old(self).actions(),
    {
        let id = self.ids.issue();
        proof {
            if holds_id(old(self).messages(), id) {
                let i = choose|i: int| 0 <= i < old(self).nodes@.len() && old(self).nodes@[i].id == id;
                assert(old(self).ids@[i] == id);
            }
        }
        self.nodes.push(MessageNode { id, author, time: now_millis(), content, deleted: false });
        assert(self.ids@ =~= self.nodes@.map_values(|n: MessageNode| n.id));
        assert(self.nodes@.drop_last() =~= old(self).nodes@);
        id
    }

    /// The position of the message `id`, if there is one.
    fn find_message_by_id(&self, id: u128) -> (r: Option<usize>)
        requires
            self.wf(),
        ensures
            r matches Some(i) ==> i < self.messages().len() && self.messages()[i as int].id == id && i
                == index_of(self.messages(), id),
            r is None ==> !holds_id(self.messages(), id),
    {
        let mut i: usize = 0;
        while i < self.nodes.len()
            invariant
                0 <= i <= self.nodes@.len(),
                self.wf(),
                forall|k: int| 0 <= k < i ==> self.nodes@[k].id != id,
            decreases self.nodes@.len() - i,
        {
            if self.nodes[i].id == id {
                proof {
                    assert(holds_id(self.nodes@, id));
                    let j = index_of(self.nodes@, id);
                    assert(self.ids@[i as int] == id);
                    assert(self.ids@[j] == self.nodes@[j].id);
                    assert(self.ids@.no_duplicates());
                }
                return Some(i);
            }
            i = i + 1;
        }
        None
    }

    /// Replaces the text of the message `id`, remembering the old text so
    /// that the edit can be undone.
    pub fn edit_message_by_id(&mut self, id: u128, new_content: String) -> (r: Result<(), String>)
        requires
            old(self).wf(),
        ensures
            final(self).wf(),
            holds_id(old(self).messages(), id) ==> r is Ok && ({
                let i = index_of(old(self).messages(), id);
                let n = old(self).messages()[i];
                &&& final(self).messages() == old(self).messages().update(i, MessageNode { content: new_content, ..n })
                &&& final(self).actions().drop_last() == old(self).actions()
                &&& final(self).actions().len() == old(self).actions().len() + 1
                &&& final(self).actions().last() matches Action::Edit { id: e, old_content: c, .. } && e == id && c == n.content
            }),
            !holds_id(old(self).messages(), id) ==> (r matches Err(m) && m@ == not_found(id))
                && final(self).messages() == old(self).messages() && final(self).actions() == old(self).actions(),
    {
        match self.find_message_by_id(id) {
            Some(i) => {
                let ghost n = self.nodes@[i as int];
                let old_content = self.nodes[i].content.clone();
                let node = MessageNode {
                    id: self.nodes[i].id,
                    author: self.nodes[i].author.copy(),
                    time: self.nodes[i].time,
                    content: new_content,
                    deleted: self.nodes[i].deleted,
                };
                self.nodes.set(i, node);
                self.action_history.push(Action::Edit { id, old_content, time: now_millis() });
                assert(self.ids@ =~= self.nodes@.map_values(|n: MessageNode| n.id));
                assert(self.action_history@.drop_last() =~= old(self).action_history@);
                Ok(())
            },
            None => Err(not_found_message(id)),
        }
    }

    /// Marks the message `id` as deleted, so that the deletion can be undone.
    pub fn delete_message_by_id(&mut self, id: u128) -> (r: Result<(), String>)
        requires
            old(self).wf(),
        ensures
            final(self).wf(),
            holds_id(old(self).messages(), id) && !old(self).messages()[index_of(old(self).messages(), id)].deleted
                ==> r is Ok && ({
                let i = index_of(old(self).messages(), id);
                let n = old(self).messages()[i];
                &&& final(self).messages() == old(self).messages().update(i, MessageNode { deleted: true, ..n })
                &&& final(self).actions() == old(self).actions().push(Action::Delete { id })
            }),
            holds_id(old(self).messages(), id) && old(self).messages()[index_of(old(self).messages(), id)].deleted
                ==> (r matches Err(m) && m@ == "Message already deleted."@) && final(self).messages()
                == old(self).messages() && final(self).actions() == old(self).actions(),
            !holds_id(old(self).messages(), id) ==> (r matches Err(m) && m@ == not_found(id))
                && final(self).messages() == old(self).messages() && final(self).actions() == old(self).actions(),
    {
        match self.find_message_by_id(id) {
            Some(i) => {
                if self.nodes[i].deleted {
                    return Err(String::from_str("Message already deleted."));
                }
                self.set_deleted(i, true);
                self.action_history.push(Action::Delete { id });
                Ok(())
            },
            None => Err(not_found_message(id)),
        }
    }

    fn set_deleted(&mut self, i: usize, deleted: bool)
        requires
            old(self).wf(),
            i < old(self).messages().len(),
        ensures
            final(self).wf(),
            final(self).messages() == old(self).messages().update(i as int, MessageNode { deleted, ..old(self).messages()[i as int] }),
            final(self).actions() == old(self).actions(),
    {
        let node = MessageNode {
            id: self.nodes[i].id,
            author: self.nodes[i].author.copy(),
            time: self.nodes[i].time,
            content: self.nodes[i].content.clone(),
            deleted,
        };
        self.nodes.set(i, node);
        assert(self.ids@ =~= self.nodes@.map_values(|n: MessageNode| n.id));
    }

    /// Undoes the latest change: an edit gets its old text back, a deletion
    /// is lifted. The change is forgotten even where undoing it fails.
    pub fn undo(&mut self) -> (r: Result<(), String>)
        requires
            old(self).wf(),
        ensures
            final(self).wf(),
            old(self).actions().len() == 0 ==> (r matches Err(m) && m@ == "No actions to undo."@)
                && final(self).messages() == old(self).messages() && final(self).actions() == old(self).actions(),
            old(self).actions().len() > 0 ==> final(self).actions() == old(self).actions().drop_last() && match old(self).actions().last() {
                Action::Edit { id, old_content, .. } => if holds_id(old(self).messages(), id) {
                    let i = index_of(old(self).messages(), id);
                    r is Ok && final(self).messages() == old(self).messages().update(i, MessageNode { content: old_content, ..old(self).messages()[i] })
                } else {
                    (r matches Err(m) && m@ == not_found(id)) && final(self).messages() == old(self).messages()
                },
                Action::Delete { id } => if holds_id(old(self).messages(), id) {
                    let i = index_of(old(self).messages(), id);
                    if old(self).messages()[i].deleted {
                        r is Ok && final(self).messages() == old(self).messages().update(i, MessageNode { deleted: false, ..old(self).messages()[i] })
                    } else {
                        (r matches Err(m) && m@ == "Message with ID "@ + uuid_text(id) + " is not deleted."@) && final(self).messages() == old(self).messages()
                    }
                } else {
                    (r matches Err(m) && m@ == not_found(id)) && final(self).messages() == old(self).messages()
                },
            },
    {
        let action = match self.action_history.pop() {
            Some(action) => action,
            None => {
                return Err(String::from_str("No actions to undo."));
            },
        };
        match action {
            Action::Edit { id, old_content, time: _ } => {
                match self.find_message_by_id(id) {
                    Some(i) => {
                        let node = MessageNode {
                            id: self.nodes[i].id,
                            author: self.nodes[i].author.copy(),
                            time: self.nodes[i].time,
                            content: old_content,
                            deleted: self.nodes[i].deleted,
                        };
                        self.nodes.set(i, node);
                        assert(self.ids@ =~= self.nodes@.map_values(|n: MessageNode| n.id));
                        Ok(())
                    },
                    None => Err(not_found_message(id)),
                }
            },
            Action::Delete { id } => {
                match self.find_message_by_id(id) {
                    Some(i) => {
                        if self.nodes[i].deleted {
                            self.set_deleted(i, false);
                            Ok(())
                        } else {
                            Err(String::from_str("Message with ID ").concat(uuid_string(id).as_str()).concat(" is not deleted."))
                        }
                    },
                    None => Err(not_found_message(id)),
                }
            },
        }
    }

    /// The latest time at which the message `id` was edited, if it was.
    fn most_recent_edit_time(&self, id: u128) -> (r: Option<i64>)
        ensures
            r == last_edit(self.actions(), id),
    {
        let mut latest: Option<i64> = None;
        let mut k: usize = 0;
        while k < self.action_history.len()
            invariant
                0 <= k <= self.action_history@.len(),
                latest == last_edit(self.action_history@.take(k as int), id),
            decreases self.action_history@.len() - k,
        {
            proof {
                assert(self.action_history@.take(k + 1).drop_last() =~= self.action_history@.take(k as int));
            }
            if let Action::Edit { id: e, old_content: _, time } = &self.action_history[k] {
                if *e == id {
                    latest = match latest {
                        Some(b) => Some(if b >= *time { b } else { *time }),
                        None => Some(*time),
                    };
                }
            }
            k = k + 1;
        }
        assert(self.action_history@.take(self.action_history@.len() as int) =~= self.action_history@);
        latest
    }

    /// The messages that are not deleted, oldest first, each with the time of
    /// its latest edit.
    pub fn simple_history(&self) -> (r: SimpleHistory)
        requires
            self.wf(),
        ensures
            r.messages@.len() == shown(self.messages()).len(),
            forall|k: int| 0 <= k < r.messages@.len() ==> {
                let m = #[trigger] r.messages@[k];
                let n = shown(self.messages())[k];
                &&& m.id == n.id
                &&& m.time == n.time
                &&& m.author == n.author
                &&& m.content == n.content
                &&& m.edit_time == last_edit(self.actions(), n.id)
            },
    {
        let mut messages: Vec<SimpleMessage> = Vec::new();
        let mut i: usize = 0;
        while i < self.nodes.len()
            invariant
                0 <= i <= self.nodes@.len(),
                messages@.len() == shown(self.nodes@.take(i as int)).len(),
                forall|k: int| 0 <= k < messages@.len() ==> {
                    let m = #[trigger] messages@[k];
                    let n = shown(self.nodes@.take(i as int))[k];
                    &&& m.id == n.id
                    &&& m.time == n.time
                    &&& m.author == n.author
                    &&& m.content == n.content
                    &&& m.edit_time == last_edit(self.action_history@, n.id)
                },
            decreases self.nodes@.len() - i,
        {
            let node = &self.nodes[i];
            proof {
                assert(self.nodes@.take(i + 1).drop_last() =~= self.nodes@.take(i as int));
                assert(self.nodes@.take(i + 1).last() == self.nodes@[i as int]);
            }
            if !node.deleted {
                let edit_time = self.most_recent_edit_time(node.id);
                messages.push(SimpleMessage {
                    id: node.id,
                    time: node.time,
                    edit_time,
                    author: node.author.copy(),
                    content: node.content.clone(),
                });
            }
            i = i + 1;
        }
        assert(self.nodes@.take(self.nodes@.len() as int) =~= self.nodes@);
        SimpleHistory { messages }
    }
}

impl SaveableChatHistoryTree {
    /// The stored form of a history: every message from the newest back to
    /// the first, deleted ones included, each with the message it answers.
    pub fn from_tree(tree: &ChatHistoryTree) -> (r: SaveableChatHistoryTree)
        requires
            tree.wf(),
        ensures
            r.root == tree.messages()[0].id,
            r.messages@.len() == tree.messages().len(),
            forall|j: int| 0 <= j < r.messages@.len() ==> {
                let k = tree.messages().len() - 1 - j;
                let m = #[trigger] r.messages@[j];
                let n = tree.messages()[k];
                &&& m.id == n.id
                &&& m.parent == (if k > 0 { Some(tree.messages()[k - 1].id) } else { None })
                &&& m.author == n.author
                &&& m.time == n.time
                &&& m.content == n.content
                &&& m.deleted == n.deleted
            },
            r.action_history@ == tree.actions(),
    {
        let nodes = &tree.nodes;
        let len = nodes.len();
        let mut messages: Vec<SaveableMessage> = Vec::new();
        let mut j: usize = 0;
        while j < len
            invariant
                0 <= j <= len,
                len == nodes@.len(),
                len >= 1,
                nodes@ == tree.messages(),
                messages@.len() == j,
                forall|q: int| 0 <= q < j ==> {
                    let k = len - 1 - q;
                    let m = #[trigger] messages@[q];
                    let n = nodes@[k];
                    &&& m.id == n.id
                    &&& m.parent == (if k > 0 { Some(nodes@[k - 1].id) } else { None })
                    &&& m.author == n.author
                    &&& m.time == n.time
                    &&& m.content == n.content
                    &&& m.deleted == n.deleted
                },
            decreases len - j,
        {
            let k = len - 1 - j;
            let node = &nodes[k];
            let parent = if k > 0 {
                Some(nodes[k - 1].id)
            } else {
                None
            };
            messages.push(SaveableMessage {
                id: node.id,
                parent,
                author: node.author.copy(),
                time: node.time,
                content: node.content.clone(),
                deleted: node.deleted,
            });
            j = j + 1;
        }
        let mut action_history: Vec<Action> = Vec::new();
        let mut a: usize = 0;
        while a < tree.action_history.len()
            invariant
                0 <= a <= tree.action_history@.len(),
                action_history@ == tree.action_history@.take(a as int),
            decreases tree.action_history@.len() - a,
        {
            action_history.push(tree.action_history[a].copy());
            assert(tree.action_history@.take(a + 1) =~= tree.action_history@.take(a as int).push(tree.action_history@[a as int]));
            a = a + 1;
        }
        assert(tree.action_history@.take(tree.action_history@.len() as int) =~= tree.action_history@);
        SaveableChatHistoryTree { root: nodes[0].id, messages, action_history }
    }
}

} // verus!
