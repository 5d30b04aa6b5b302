//! The senders that may write to the bot.

use crate::text::{join, joined, lemma_trimmed_idempotent, trimmed};
use vstd::prelude::*;

verus! {

/// The senders whose messages are let through, direct or not, in the order in which they were
/// first named. An empty list lets every sender through.
#[derive(Debug)]
pub struct AllowList {
    entries: Vec<String>,
}

/// What a list made of `names` holds: each name trimmed, without the empty ones, each once.
pub open spec fn normalized(names: Seq<Seq<char>>) -> Seq<Seq<char>>
    decreases names.len(),
{
    if names.len() == 0 {
        Seq::empty()
    } else {
        let earlier = normalized(names.drop_last());
        let name = trimmed(names.last());
        if name.len() == 0 || earlier.contains(name) {
            earlier
        } else {
            earlier.push(name)
        }
    }
}

/// Whether a list of `entries` lets `sender` through.
pub open spec fn admits_sender(entries: Seq<Seq<char>>, sender: Seq<char>) -> bool {
    entries.len() == 0 || entries.contains(sender)
}

/// A list made of `names` holds exactly the non-empty trimmed names, and none of them twice.
pub proof fn law_allow_list_holds_trimmed_names(names: Seq<Seq<char>>)
    ensures
        normalized(names).no_duplicates(),
        forall|entry: Seq<char>| #[trigger]
            normalized(names).contains(entry) <==> entry.len() > 0 && exists|i: int|
                0 <= i < names.len() && trimmed(#[trigger] names[i]) == entry,
    decreases names.len(),
{
    if names.len() > 0 {
        let shorter = names.drop_last();
        let earlier = normalized(shorter);
        let name = trimmed(names.last());
        law_allow_list_holds_trimmed_names(shorter);
        assert forall|entry: Seq<char>| #[trigger]
            normalized(names).contains(entry) <==> entry.len() > 0 && exists|i: int|
                0 <= i < names.len() && trimmed(#[trigger] names[i]) == entry by {
            if normalized(names).contains(entry) {
                if earlier.contains(entry) {
                    let i = choose|i: int|
                        0 <= i < shorter.len() && trimmed(#[trigger] shorter[i]) == entry;
                    assert(trimmed(names[i]) == entry);
                } else {
                    let i = choose|i: int|
                        0 <= i < normalized(names).len() && normalized(names)[i] == entry;
                    assert(i == earlier.len());
                    assert(trimmed(names[names.len() - 1]) == entry);
                }
            }
            if entry.len() > 0 && exists|i: int|
                0 <= i < names.len() && trimmed(#[trigger] names[i]) == entry {
                let i = choose|i: int| 0 <= i < names.len() && trimmed(#[trigger] names[i])
                    == entry;
                if i < shorter.len() {
                    assert(trimmed(shorter[i]) == entry);
                    assert(earlier.contains(entry));
                }
                if earlier.contains(entry) {
                    let j = choose|j: int| 0 <= j < earlier.len() && earlier[j] == entry;
                    assert(normalized(names)[j] == entry);
                } else {
                    assert(normalized(names)[earlier.len() as int] == entry);
                }
            }
        }
    } else {
        assert forall|entry: Seq<char>| !(#[trigger] normalized(names).contains(entry)) by {}
    }
}

impl View for AllowList {
    type V = Seq<Seq<char>>;

    closed spec fn view(&self) -> Seq<Seq<char>> {
        self.entries.deep_view()
    }
}

impl AllowList {
    /// No name occurs twice, and none is empty or has white space around it.
    pub open spec fn wf(&self) -> bool {
        &&& self@.no_duplicates()
        &&& forall|i: int|
            0 <= i < self@.len() ==> (#[trigger] self@[i]).len() > 0 && trimmed(self@[i])
                == self@[i]
    }

    /// The list of the given names: trimmed, without the empty ones, each once.
    pub fn new(names: Vec<String>) -> (list: AllowList)
        ensures
            list.wf(),
            list@ == normalized(names.deep_view()),
    {
        let mut list = AllowList { entries: Vec::new() };
        let mut i: usize = 0;
        assert(names.deep_view().take(0) =~= Seq::empty());
        assert(list@ =~= Seq::empty());
        while i < names.len()
            invariant
                i <= names.len(),
                list@ == normalized(names.deep_view().take(i as int)),
            decreases names.len() - i,
        {
            let ghost before = list@;
            proof {
                let next = names.deep_view().take(i + 1);
                assert(next.drop_last() =~= names.deep_view().take(i as int));
                assert(next.last() == names[i as int]@);
            }
            let name = names[i].as_str().trim();
            if !name.is_empty() && !list.contains(name) {
                list.entries.push(name.to_string());
                assert(list@ =~= before.push(name@));
            }
            i += 1;
        }
        assert(names.deep_view().take(names.len() as int) =~= names.deep_view());
        proof {
            let given = names.deep_view();
            law_allow_list_holds_trimmed_names(given);
            assert forall|i: int| 0 <= i < list@.len() implies (#[trigger] list@[i]).len() > 0
                && trimmed(list@[i]) == list@[i] by {
                assert(normalized(given).contains(list@[i]));
                let k = choose|k: int|
                    0 <= k < given.len() && trimmed(#[trigger] given[k]) == list@[i];
                lemma_trimmed_idempotent(given[k]);
            }
        }
        list
    }

    /// Whether the list names nobody.
    pub fn is_empty(&self) -> (empty: bool)
        ensures
            empty == (self@.len() == 0),
    {
        self.entries.len() == 0
    }

    /// Whether the list names `sender`.
    pub fn contains(&self, sender: &str) -> (found: bool)
        ensures
            found == self@.contains(sender@),
    {
        let wanted = sender.to_string();
        let mut i: usize = 0;
        while i < self.entries.len()
            invariant
                i <= self.entries.len(),
                wanted@ == sender@,
                forall|j: int| 0 <= j < i ==> self@[j] != sender@,
            decreases self.entries.len() - i,
        {
            if self.entries[i] == wanted {
                assert(self@[i as int] == sender@);
                return true;
            }
            i += 1;
        }
        false
    }

    /// Whether messages of `sender` are let through.
    pub fn admits(&self, sender: &str) -> (admitted: bool)
        ensures
            admitted == admits_sender(self@, sender@),
    {
        self.is_empty() || self.contains(sender)
    }

    /// The entries, separated by commas.
    pub fn to_csv(&self) -> (text: String)
        ensures
            text@ == joined(self@, ","@),
    {
        join(&self.entries, ",")
    }
}

impl Clone for AllowList {
    fn clone(&self) -> (list: Self)
        ensures
            list@ == self@,
    {
        let mut entries: Vec<String> = Vec::new();
        let mut i: usize = 0;
        while i < self.entries.len()
            invariant
                i <= self.entries.len(),
                entries.len() == i,
                forall|j: int| 0 <= j < i ==> #[trigger] entries[j]@ == self.entries[j]@,
            decreases self.entries.len() - i,
        {
            entries.push(self.entries[i].clone());
            i += 1;
        }
        let list = AllowList { entries };
        assert(list@ =~= self@);
        list
    }
}

} // verus!
