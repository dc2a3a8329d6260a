//! Chat-screen state: the conversation list a signed-in user sees, the
//! per-conversation display helpers, and the two state changes the screen
//! can make — opening (or switching to) a conversation and sending a
//! message.  Everything here is pure state logic; rendering stays outside.

use vstd::prelude::*;
use vstd::string::StrSliceExecFns;
use vstd::string::StringExecFns;

use crate::identity::{trim, trim_of, valid_identifier, validate_trimmed};

verus! {

/// Which side of the conversation a message belongs to.
#[derive(Clone, Copy, Debug, PartialEq, Eq, Structural)]
pub enum Side {
    Me,
    Them,
}

/// One message in a conversation.
#[derive(Clone, Debug)]
pub struct Message {
    pub id: usize,
    pub text: String,
    pub side: Side,
}

/// One conversation: who with, and what was said.
#[derive(Clone, Debug)]
pub struct Chat {
    pub id: usize,
    pub contact: String,
    pub messages: Vec<Message>,
}

/// What `char::to_uppercase` maps a character to, first character of the
/// mapping: a function of the character alone.
pub uninterp spec fn upper_char_of(c: char) -> char;

/// Relies on `char::to_uppercase`: the Unicode uppercase mapping of one
/// character; its iterator always yields at least one character, and the
/// first is taken.
#[verifier::external_body]
pub(crate) fn char_to_upper(c: char) -> (r: char)
    ensures
        r == upper_char_of(c),
{
    c.to_uppercase().next().unwrap_or(c)
}

/// The display name for a contact: everything before the first `@`, or the
/// whole contact string if it has none.
pub open spec fn display_name_of(contact: Seq<char>) -> Seq<char> {
    match contact.index_of_first('@') {
        Some(i) => contact.take(i),
        None => contact,
    }
}

/// The avatar letter for a contact: the display name's first character,
/// uppercased; a placeholder where the name is empty.
pub open spec fn avatar_char_of(contact: Seq<char>) -> char {
    upper_char_of(
        if display_name_of(contact).len() == 0 {
            '?'
        } else {
            display_name_of(contact)[0]
        },
    )
}

/// The sidebar preview of a conversation: the last message, prefixed when
/// it was sent from this side, truncated with an ellipsis when long; a
/// fixed line where nothing was said yet.
pub open spec fn preview_of(messages: Seq<Message>) -> Seq<char> {
    if messages.len() == 0 {
        "No messages yet"@
    } else {
        let m = messages.last();
        (if m.side == Side::Me {
            "You: "@
        } else {
            Seq::<char>::empty()
        }) + (if m.text@.len() > 38 {
            m.text@.take(38) + "…"@
        } else {
            m.text@
        })
    }
}

impl Chat {
    /// A conversation with nothing said yet.
    pub fn new(id: usize, contact: String) -> (r: Chat)
        ensures
            r.id == id,
            r.contact == contact,
            r.messages@ =~= Seq::<Message>::empty(),
    {
        Chat { id, contact, messages: Vec::new() }
    }

    /// Everything before the first `@` of the contact, or all of it.
    pub fn display_name(&self) -> (r: &str)
        ensures
            r@ == display_name_of(self.contact@),
    {
        let s = self.contact.as_str();
        let n = s.unicode_len();
        let mut i: usize = 0;
        while i < n
            invariant
                s@ == self.contact@,
                n == s@.len(),
                i <= n,
                forall|j: int| 0 <= j < i ==> s@[j] != '@',
            decreases n - i,
        {
            if s.get_char(i) == '@' {
                proof {
                    assert(s@[i as int] == '@');
                    assert(s@.contains('@'));
                    s@.index_of_first_ensures('@');
                    let idx = s@.index_of_first('@').unwrap();
                    if idx < i {
                        assert(s@[idx] != '@');
                    } else if idx > i {
                        assert(s@[i as int] != '@');
                    }
                    assert(idx == i);
                    assert(s@.index_of_first('@') == Some(i as int));
                }
                return s.substring_char(0, i);
            }
            i += 1;
        }
        proof {
            if s@.contains('@') {
                let w = choose|w: int| 0 <= w < s@.len() && s@[w] == '@';
                assert(s@[w] != '@');
            }
            s@.index_of_first_ensures('@');
        }
        s
    }

    /// The uppercased first character of the display name.
    pub fn avatar_char(&self) -> (r: char)
        ensures
            r == avatar_char_of(self.contact@),
    {
        let name = self.display_name();
        if name.unicode_len() == 0 {
            char_to_upper('?')
        } else {
            char_to_upper(name.get_char(0))
        }
    }

    /// The sidebar preview line for this conversation.
    pub fn preview(&self) -> (r: String)
        ensures
            r@ == preview_of(self.messages@),
    {
        if self.messages.len() == 0 {
            String::from_str("No messages yet")
        } else {
            let m = &self.messages[self.messages.len() - 1];
            let mut out = match m.side {
                Side::Me => String::from_str("You: "),
                Side::Them => String::new(),
            };
            let text = m.text.as_str();
            let n = text.unicode_len();
            if n > 38 {
                let body = text.substring_char(0, 38);
                out.append(body);
                out.append("…");
            } else {
                out.append(text);
            }
            out
        }
    }
}

/// Whether some conversation in the list is with `contact`.
pub open spec fn has_contact(chats: Seq<Chat>, contact: Seq<char>) -> bool {
    exists|i: int| 0 <= i < chats.len() && (#[trigger] chats[i]).contact@ == contact
}

/// The chat screen's state: the conversation list, which conversation is
/// open, and the counter that numbers new conversations and messages.
pub struct ChatPanel {
    chats: Vec<Chat>,
    active_id: Option<usize>,
    next_id: usize,
}

impl ChatPanel {
    /// The conversation list, in creation order.
    pub closed spec fn chats(&self) -> Seq<Chat> {
        self.chats@
    }

    /// The id of the open conversation, if one is open.
    pub closed spec fn active_id(&self) -> Option<usize> {
        self.active_id
    }

    /// The next unused id.
    pub closed spec fn next_id(&self) -> usize {
        self.next_id
    }

    /// Well formed: contacts are unique, ids are unique and below the
    /// counter, and the open conversation exists.
    pub closed spec fn wf(&self) -> bool {
        &&& forall|i: int, j: int|
            0 <= i < j < self.chats@.len() ==> (#[trigger] self.chats@[i]).contact@ != (
            #[trigger] self.chats@[j]).contact@ && self.chats@[i].id != self.chats@[j].id
        &&& forall|i: int| 0 <= i < self.chats@.len() ==> (#[trigger] self.chats@[i]).id
            < self.next_id
        &&& match self.active_id {
            Some(a) => exists|i: int|
                0 <= i < self.chats@.len() && (#[trigger] self.chats@[i]).id == a,
            None => true,
        }
    }

    /// An empty chat screen.
    pub fn new() -> (r: ChatPanel)
        ensures
            r.wf(),
            r.chats() =~= Seq::<Chat>::empty(),
            r.active_id() == Option::<usize>::None,
            r.next_id() == 1usize,
    {
        ChatPanel { chats: Vec::new(), active_id: None, next_id: 1 }
    }

    /// The index of the conversation with `contact`, if any.
    fn find_contact(&self, contact: &String) -> (r: Option<usize>)
        ensures
            match r {
                Some(i) => i < self.chats@.len() && self.chats@[i as int].contact@ == contact@,
                None => forall|j: int|
                    0 <= j < self.chats@.len() ==> (#[trigger] self.chats@[j]).contact@
                        != contact@,
            },
    {
        let mut i: usize = 0;
        while i < self.chats.len()
            invariant
                i <= self.chats@.len(),
                forall|j: int| 0 <= j < i ==> (#[trigger] self.chats@[j]).contact@ != contact@,
            decreases self.chats@.len() - i,
        {
            if self.chats[i].contact == *contact {
                return Some(i);
            }
            i += 1;
        }
        None
    }

    /// The index of the conversation with id `a`, if any.
    fn find_id(&self, a: usize) -> (r: Option<usize>)
        ensures
            match r {
                Some(i) => i < self.chats@.len() && self.chats@[i as int].id == a,
                None => forall|j: int|
                    0 <= j < self.chats@.len() ==> (#[trigger] self.chats@[j]).id != a,
            },
    {
        let mut i: usize = 0;
        while i < self.chats.len()
            invariant
                i <= self.chats@.len(),
                forall|j: int| 0 <= j < i ==> (#[trigger] self.chats@[j]).id != a,
            decreases self.chats@.len() - i,
        {
            if self.chats[i].id == a {
                return Some(i);
            }
            i += 1;
        }
        None
    }

    /// Open a conversation with the contact named by `input`.  The input is
    /// trimmed and shape-checked; a rejected input changes nothing and
    /// names why.  An accepted contact already in the list is switched to;
    /// a new one is appended with a fresh id and switched to.
    pub fn open_chat(&mut self, input: &str) -> (r: Result<(), &'static str>)
        requires
            old(self).wf(),
            old(self).next_id() < usize::MAX,
        ensures
            final(self).wf(),
            !valid_identifier(trim_of(input@)) ==> *final(self) == *old(self),
            match r {
                Err(m) => !valid_identifier(trim_of(input@)) && m@ == (if trim_of(
                    input@,
                ).len() == 0 {
                    "Please enter an email or phone number."@
                } else {
                    "Enter a valid email (user@example.com) or phone (+1 555 000 0000)."@
                }),
                Ok(()) => valid_identifier(trim_of(input@)) && (if has_contact(
                    old(self).chats(),
                    trim_of(input@),
                ) {
                    &&& final(self).chats() == old(self).chats()
                    &&& final(self).next_id() == old(self).next_id()
                    &&& exists|i: int|
                        0 <= i < old(self).chats().len() && (#[trigger] old(self).chats()[
                            i
                        ]).contact@ == trim_of(input@) && final(self).active_id() == Some(
                            old(self).chats()[i].id,
                        )
                } else {
                    &&& final(self).chats().len() == old(self).chats().len() + 1
                    &&& final(self).chats().take(old(self).chats().len() as int) == old(
                        self,
                    ).chats()
                    &&& final(self).chats().last().id == old(self).next_id()
                    &&& final(self).chats().last().contact@ == trim_of(input@)
                    &&& final(self).chats().last().messages@.len() == 0
                    &&& final(self).active_id() == Some(old(self).next_id())
                    &&& final(self).next_id() == old(self).next_id() + 1
                }),
            },
    {
        let trimmed = trim(input);
        match validate_trimmed(trimmed) {
            Err(m) => Err(m),
            Ok(()) => {
                let contact = trimmed.to_owned();
                match self.find_contact(&contact) {
                    Some(i) => {
                        let a = self.chats[i].id;
                        self.active_id = Some(a);
                        proof {
                            assert(0 <= i < self.chats@.len() && self.chats@[i as int].id == a);
                            assert(0 <= i < old(self).chats().len() && old(self).chats()[
                                i as int
                            ].contact@ == trim_of(input@) && self.active_id() == Some(
                                old(self).chats()[i as int].id,
                            ));
                        }
                        Ok(())
                    },
                    None => {
                        proof {
                            if has_contact(self.chats@, trim_of(input@)) {
                                let w = choose|w: int|
                                    0 <= w < self.chats@.len() && (#[trigger] self.chats@[
                                        w
                                    ]).contact@ == trim_of(input@);
                                assert(self.chats@[w].contact@ != contact@);
                            }
                        }
                        let id = self.next_id;
                        self.chats.push(Chat::new(id, contact));
                        self.active_id = Some(id);
                        self.next_id = id + 1;
                        proof {
                            let n = self.chats@.len() - 1;
                            assert(self.chats@.take(n) =~= old(self).chats@);
                            assert(self.chats@[n].id == id);
                            assert(forall|j: int|
                                0 <= j < n ==> self.chats@[j] == old(self).chats@[j]);
                        }
                        Ok(())
                    },
                }
            },
        }
    }

    /// Send `input` in the open conversation.  The text is trimmed; nothing
    /// happens — and nothing is reported — when it trims to empty or no
    /// conversation is open.  Otherwise the message is appended to the open
    /// conversation with a fresh id, marked as sent from this side.
    pub fn send_message(&mut self, input: &str) -> (r: bool)
        requires
            old(self).wf(),
            old(self).next_id() < usize::MAX,
        ensures
            final(self).wf(),
            !r ==> *final(self) == *old(self),
            r == (trim_of(input@).len() > 0 && old(self).active_id() matches Some(_)),
            r ==> final(self).next_id() == old(self).next_id() + 1 && final(self).active_id()
                == old(self).active_id() && final(self).chats().len() == old(self).chats().len()
                && exists|i: int|
                {
                    &&& 0 <= i < old(self).chats().len()
                    &&& Some((#[trigger] old(self).chats()[i]).id) == old(self).active_id()
                    &&& (forall|j: int|
                        0 <= j < old(self).chats().len() && j != i ==> final(self).chats()[j]
                            == old(self).chats()[j])
                    &&& final(self).chats()[i].id == old(self).chats()[i].id
                    &&& final(self).chats()[i].contact == old(self).chats()[i].contact
                    &&& final(self).chats()[i].messages@.len() == old(self).chats()[
                        i
                    ].messages@.len() + 1
                    &&& final(self).chats()[i].messages@.take(
                        old(self).chats()[i].messages@.len() as int,
                    ) == old(self).chats()[i].messages@
                    &&& final(self).chats()[i].messages@.last().id == old(self).next_id()
                    &&& final(self).chats()[i].messages@.last().text@ == trim_of(input@)
                    &&& final(self).chats()[i].messages@.last().side == Side::Me
                },
    {
        let trimmed = trim(input);
        if trimmed.unicode_len() == 0 {
            return false;
        }
        let a = match self.active_id {
            None => {
                return false;
            },
            Some(a) => a,
        };
        match self.find_id(a) {
            None => {
                proof {
                    let w = choose|w: int|
                        0 <= w < old(self).chats@.len() && (#[trigger] old(self).chats@[w]).id
                            == a;
                    assert(old(self).chats@[w].id != a);
                }
                false
            },
            Some(i) => {
                let mid = self.next_id;
                self.next_id = mid + 1;
                let text = trimmed.to_owned();
                let slot = crate::vecs::at_mut(&mut self.chats, i);
                slot.messages.push(Message { id: mid, text, side: Side::Me });
                proof {
                    assert(self.chats@[i as int].messages@.take(
                        old(self).chats@[i as int].messages@.len() as int,
                    ) =~= old(self).chats@[i as int].messages@);
                    assert(forall|j: int|
                        0 <= j < old(self).chats@.len() && j != i ==> self.chats@[j] == old(
                            self,
                        ).chats@[j]);
                    assert(0 <= i < old(self).chats().len() && Some(
                        old(self).chats()[i as int].id,
                    ) == old(self).active_id());
                    match self.active_id {
                        Some(b) => {
                            assert(0 <= i < self.chats@.len() && self.chats@[i as int].id == b);
                        },
                        None => {},
                    }
                }
                true
            },
        }
    }

    /// The id of the open conversation.
    pub fn active(&self) -> (r: Option<usize>)
        ensures
            r == self.active_id(),
    {
        self.active_id
    }

    /// How many conversations the list holds.
    pub fn count(&self) -> (r: usize)
        ensures
            r == self.chats().len(),
    {
        self.chats.len()
    }

    /// The conversation at position `i` of the list.
    pub fn chat(&self, i: usize) -> (r: &Chat)
        requires
            i < self.chats().len(),
        ensures
            *r == self.chats()[i as int],
    {
        &self.chats[i]
    }
}

} // verus!
