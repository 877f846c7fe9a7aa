//! The conversation log. It is append-only: a message, once in it, stays
//! where it is and unchanged, so what the model was sent on one turn is an
//! exact prefix of what it is sent on the next (the property that lets a
//! provider's prompt cache hit). Changes of the environment arrive as new
//! entries, never as edits of old ones.

use vstd::prelude::*;
use crate::message::{models, AgentMessage, MessageModel};

verus! {

/// `after` is `before` with zero or more messages added at its end.
pub open spec fn extends(after: Seq<MessageModel>, before: Seq<MessageModel>) -> bool {
    before.len() <= after.len() && after.take(before.len() as int) == before
}

/// The append-only message log.
#[derive(Debug)]
pub struct MessageLog {
    messages: Vec<AgentMessage>,
}

impl View for MessageLog {
    type V = Seq<MessageModel>;

    closed spec fn view(&self) -> Seq<MessageModel> {
        models(self.messages@)
    }
}

impl MessageLog {
    /// An empty log.
    pub fn new() -> (l: MessageLog)
        ensures
            l@ == Seq::<MessageModel>::empty(),
    {
        let l = MessageLog { messages: Vec::new() };
        assert(l@ =~= Seq::<MessageModel>::empty());
        l
    }

    /// A log that carries on an earlier conversation.
    pub fn resumed(messages: Vec<AgentMessage>) -> (l: MessageLog)
        ensures
            l@ == models(messages@),
    {
        MessageLog { messages }
    }

    /// The number of messages.
    pub fn len(&self) -> (n: usize)
        ensures
            n == self@.len(),
    {
        self.messages.len()
    }

    /// The messages, oldest first.
    pub fn messages(&self) -> (r: &Vec<AgentMessage>)
        ensures
            models(r@) == self@,
    {
        &self.messages
    }

    /// Appends `message` and hands back a copy of it.
    pub fn commit(&mut self, message: AgentMessage) -> (c: AgentMessage)
        ensures
            final(self)@ == old(self)@.push(message@),
            extends(final(self)@, old(self)@),
            c@ == message@,
    {
        let c = message.clone();
        self.messages.push(message);
        assert(models(self.messages@) =~= models(old(self).messages@).push(message@));
        assert(self@.take(old(self)@.len() as int) =~= old(self)@);
        c
    }

    /// Appends `more`, in order.
    pub fn append(&mut self, more: Vec<AgentMessage>)
        ensures
            final(self)@ == old(self)@ + models(more@),
            extends(final(self)@, old(self)@),
    {
        let mut i: usize = 0;
        while i < more.len()
            invariant
                i <= more.len(),
                models(self.messages@) == models(old(self).messages@) + models(more@.take(i as int)),
            decreases more.len() - i,
        {
            let ghost prev = self.messages@;
            let m = more[i].clone();
            self.messages.push(m);
            assert(models(self.messages@) =~= models(prev).push(more@[i as int]@));
            assert(more@.take(i + 1) =~= more@.take(i as int).push(more@[i as int]));
            assert(models(more@.take(i + 1)) =~= models(more@.take(i as int)).push(more@[i as int]@));
            assert(models(self.messages@) =~= models(old(self).messages@) + models(more@.take(i + 1)));
            i = i + 1;
        }
        assert(more@.take(more.len() as int) =~= more@);
        assert(self@.take(old(self)@.len() as int) =~= old(self)@);
    }
}

/// Law: the log only grows at its end. Whatever the log held at one time,
/// it holds unchanged, as a prefix, at every later time: `commit` and
/// `append` each extend it, and extending is transitive.
pub proof fn lemma_log_prefix_stays(a: Seq<MessageModel>, b: Seq<MessageModel>, c: Seq<MessageModel>)
    requires
        extends(b, a),
        extends(c, b),
    ensures
        extends(c, a),
        forall|i: int| 0 <= i < a.len() ==> c[i] == #[trigger] a[i],
{
    assert(c.take(a.len() as int) =~= c.take(b.len() as int).take(a.len() as int));
    assert forall|i: int| 0 <= i < a.len() implies c[i] == #[trigger] a[i] by {
        assert(c.take(a.len() as int)[i] == c[i]);
    }
}

} // verus!
