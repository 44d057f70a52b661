use vstd::prelude::*;

verus! {

/// A chat message: who sent it and what it says.
struct Message {
    sender: String,
    text: String,
}

/// The window in which chat programs can be tried out: the messages so far.
pub struct ChatTestWindow {
    messages: Vec<Message>,
}

/// How one message is shown: `<sender> text`.
pub open spec fn message_line(sender: Seq<char>, text: Seq<char>) -> Seq<char> {
    "<"@ + sender + "> "@ + text
}

/// The lines joined with a newline between each two.
pub open spec fn join_lines(lines: Seq<Seq<char>>) -> Seq<char>
    decreases lines.len(),
{
    if lines.len() == 0 {
        Seq::empty()
    } else if lines.len() == 1 {
        lines[0]
    } else {
        join_lines(lines.drop_last()) + "\n"@ + lines.last()
    }
}

/// The lines that show the messages `msgs`.
pub open spec fn lines_of(msgs: Seq<(Seq<char>, Seq<char>)>) -> Seq<Seq<char>> {
    msgs.map_values(|m: (Seq<char>, Seq<char>)| message_line(m.0, m.1))
}

/// Adding a message adds its line at the end of what the window shows,
/// after a newline unless it is the first message.
pub proof fn lemma_view_after_add(msgs: Seq<(Seq<char>, Seq<char>)>, sender: Seq<char>, text: Seq<char>)
    ensures
        join_lines(lines_of(msgs.push((sender, text)))) == if msgs.len() == 0 {
            message_line(sender, text)
        } else {
            join_lines(lines_of(msgs)) + "\n"@ + message_line(sender, text)
        },
{
    assert(lines_of(msgs.push((sender, text))).drop_last() =~= lines_of(msgs));
}

impl ChatTestWindow {
    /// The messages so far, oldest first, as (sender, text).
    pub closed spec fn messages(self) -> Seq<(Seq<char>, Seq<char>)> {
        self.messages@.map_values(|m: Message| (m.sender@, m.text@))
    }

    /// The lines that show the messages so far.
    pub open spec fn lines(self) -> Seq<Seq<char>> {
        lines_of(self.messages())
    }

    /// A window with no messages.
    pub fn new() -> (r: Self)
        ensures
            r.messages() == Seq::<(Seq<char>, Seq<char>)>::empty(),
    {
        let r = Self { messages: Vec::new() };
        assert(r.messages() =~= Seq::<(Seq<char>, Seq<char>)>::empty());
        r
    }

    /// The text of the window: one line per message.
    pub fn view(&self) -> (r: String)
        ensures
            r@ == join_lines(self.lines()),
    {
        let mut r = String::new();
        let mut i: usize = 0;
        while i < self.messages.len()
            invariant
                0 <= i <= self.messages.len(),
                r@ == join_lines(self.lines().subrange(0, i as int)),
            decreases self.messages.len() - i,
        {
            proof {
                reveal_strlit("<");
                reveal_strlit("> ");
                reveal_strlit("\n");
            }
            let msg = &self.messages[i];
            if i > 0 {
                r.append("\n");
            }
            r.append("<");
            r.append(msg.sender.as_str());
            r.append("> ");
            r.append(msg.text.as_str());
            proof {
                let lines = self.lines().subrange(0, i + 1);
                assert(lines.drop_last() =~= self.lines().subrange(0, i as int));
                assert(lines.last() == message_line(msg.sender@, msg.text@));
            }
            i = i + 1;
        }
        proof {
            assert(self.lines().subrange(0, i as int) =~= self.lines());
        }
        r
    }

    /// Adds a message at the end.
    pub fn add_message(&mut self, sender: String, text: String)
        ensures
            final(self).messages() == old(self).messages().push((sender@, text@)),
    {
        self.messages.push(Message { sender, text });
        assert(self.messages() =~= old(self).messages().push((sender@, text@)));
    }
}

} // verus!
