//! The parts of messages that have come so far.
use vstd::prelude::*;

use crate::table::{lookup, Table};

verus! {

/// A text that grows, for each item of each conversation that one has come for.
pub struct Buffers {
    conversations: Table<Table<String>>,
}

pub open spec fn flat(table: Map<Seq<char>, Map<Seq<char>, Seq<char>>>) -> Map<(Seq<char>, Seq<char>), Seq<char>> {
    Map::new(
        |key: (Seq<char>, Seq<char>)| table.contains_key(key.0) && table[key.0].contains_key(key.1),
        |key: (Seq<char>, Seq<char>)| table[key.0][key.1],
    )
}

impl View for Buffers {
    type V = Map<(Seq<char>, Seq<char>), Seq<char>>;

    closed spec fn view(&self) -> Map<(Seq<char>, Seq<char>), Seq<char>> {
        flat(self.conversations@)
    }
}

/// What has come for an item: nothing, where no part has.
pub open spec fn so_far(buffers: Map<(Seq<char>, Seq<char>), Seq<char>>, key: (Seq<char>, Seq<char>)) -> Seq<char> {
    if buffers.contains_key(key) {
        buffers[key]
    } else {
        Seq::empty()
    }
}

impl Buffers {
    pub fn new() -> (r: Buffers)
        ensures
            r@ == Map::<(Seq<char>, Seq<char>), Seq<char>>::empty(),
    {
        let r = Buffers { conversations: Table::new() };
        proof {
            assert(r@ =~= Map::<(Seq<char>, Seq<char>), Seq<char>>::empty());
        }
        r
    }

    /// Adds a part to what has come for an item, and gives the whole.
    pub fn append(&mut self, conversation_id: &str, item_id: &str, part: &str) -> (r: String)
        ensures
            r@ == so_far(old(self)@, (conversation_id@, item_id@)) + part@,
            final(self)@ == old(self)@.insert((conversation_id@, item_id@), r@),
    {
        let ghost before = self.conversations@;
        let mut items = match self.conversations.remove(conversation_id) {
            Some(items) => items,
            None => Table::new(),
        };
        let mut text = match items.remove(item_id) {
            Some(text) => text,
            None => String::new(),
        };
        text.append(part);
        let r = text.clone();
        items.insert(item_id, text);
        self.conversations.insert(conversation_id, items);
        proof {
            let key = (conversation_id@, item_id@);
            assert(r@ =~= so_far(flat(before), key) + part@);
            assert(flat(self.conversations@) =~= flat(before).insert(key, r@));
        }
        r
    }

    /// Drops what has come for an item, and says whether any had.
    pub fn remove(&mut self, conversation_id: &str, item_id: &str) -> (r: bool)
        ensures
            r == old(self)@.contains_key((conversation_id@, item_id@)),
            final(self)@ == old(self)@.remove((conversation_id@, item_id@)),
    {
        let ghost before = self.conversations@;
        let ghost key = (conversation_id@, item_id@);
        match self.conversations.remove(conversation_id) {
            Some(items) => {
                let mut items = items;
                let had = items.remove(item_id).is_some();
                self.conversations.insert(conversation_id, items);
                proof {
                    assert(lookup(before, conversation_id@) is Some);
                    assert(flat(self.conversations@) =~= flat(before).remove(key));
                }
                had
            },
            None => {
                proof {
                    assert(flat(self.conversations@) =~= flat(before).remove(key));
                }
                false
            },
        }
    }
}

/// What has come of the messages, of the thinking and of the output of commands.
pub struct Streams {
    pub text: Buffers,
    pub thinking: Buffers,
    pub output: Buffers,
}

pub struct StreamsView {
    pub text: Map<(Seq<char>, Seq<char>), Seq<char>>,
    pub thinking: Map<(Seq<char>, Seq<char>), Seq<char>>,
    pub output: Map<(Seq<char>, Seq<char>), Seq<char>>,
}

impl View for Streams {
    type V = StreamsView;

    open spec fn view(&self) -> StreamsView {
        StreamsView { text: self.text@, thinking: self.thinking@, output: self.output@ }
    }
}

impl Streams {
    pub fn new() -> (r: Streams)
        ensures
            r@ == (StreamsView { text: Map::empty(), thinking: Map::empty(), output: Map::empty() }),
    {
        Streams { text: Buffers::new(), thinking: Buffers::new(), output: Buffers::new() }
    }
}

} // verus!
