//! The content channel: one slot that holds the latest content of the
//! watched file, and any number of subscribers that each remember what they
//! saw last.
//!
//! The channel keeps no queue. A subscriber that asks for the next change
//! gets the content of the slot if it differs from what that subscriber saw
//! last, and nothing otherwise: whatever was published in between is never
//! delivered. Waiting for a change, and sharing the channel among tasks, is
//! the caller's work.

use vstd::prelude::*;

verus! {

/// The slot.
#[derive(Debug)]
pub struct ContentChannel {
    content: String,
}

/// One reader of a channel: it remembers the content it saw last.
#[derive(Debug)]
pub struct Subscriber {
    seen: String,
}

/// What asking for the next change gives: the content delivered, if the
/// slot differs from what the subscriber saw last, and what the subscriber
/// has seen after that.
pub open spec fn next_change_of(slot: Seq<char>, seen: Seq<char>) -> (Option<Seq<char>>, Seq<char>) {
    if slot == seen {
        (None, seen)
    } else {
        (Some(slot), slot)
    }
}

/// The content of a slot that held `slot`, once `content` has been
/// published: the new content takes the place of the old.
pub open spec fn published(slot: Seq<char>, content: Seq<char>) -> Seq<char> {
    content
}

/// The content of a slot that held `slot`, once the contents `contents`
/// have been published one after the other.
pub open spec fn after_publishing(slot: Seq<char>, contents: Seq<Seq<char>>) -> Seq<char>
    decreases contents.len(),
{
    if contents.len() == 0 {
        slot
    } else {
        published(after_publishing(slot, contents.drop_last()), contents.last())
    }
}

impl View for ContentChannel {
    type V = Seq<char>;

    /// The content of the slot.
    closed spec fn view(&self) -> Seq<char> {
        self.content@
    }
}

impl View for Subscriber {
    type V = Seq<char>;

    /// The content that the subscriber saw last.
    closed spec fn view(&self) -> Seq<char> {
        self.seen@
    }
}

impl ContentChannel {
    /// A channel whose slot holds `initial`.
    pub fn new(initial: String) -> (channel: ContentChannel)
        ensures
            channel@ == initial@,
    {
        ContentChannel { content: initial }
    }

    /// Overwrites the slot with `content`.
    pub fn publish(&mut self, content: String)
        ensures
            final(self)@ == published(old(self)@, content@),
    {
        self.content = content;
    }

    /// The content of the slot.
    pub fn current(&self) -> (content: String)
        ensures
            content@ == self@,
    {
        self.content.clone()
    }

    /// A new subscriber. It counts the present content as seen.
    pub fn subscribe(&self) -> (subscriber: Subscriber)
        ensures
            subscriber@ == self@,
    {
        Subscriber { seen: self.content.clone() }
    }

    /// The next change for `subscriber`: the content of the slot, if it
    /// differs from what `subscriber` saw last, and `None` if it does not,
    /// in which case the caller is to wait for the next `publish`. A
    /// content that is delivered counts as seen from then on.
    pub fn next_change(&self, subscriber: &mut Subscriber) -> (delivered: Option<String>)
        ensures
            match delivered {
                Some(content) => Some(content@) == next_change_of(self@, old(subscriber)@).0,
                None => next_change_of(self@, old(subscriber)@).0 is None,
            },
            final(subscriber)@ == next_change_of(self@, old(subscriber)@).1,
    {
        if self.content == subscriber.seen {
            None
        } else {
            subscriber.seen = self.content.clone();
            Some(self.content.clone())
        }
    }
}

/// Publishing twice in a row leaves only the second content in the slot.
/// A subscriber that asks afterwards is handed the second content, once,
/// unless that is what it saw last; the first content is never delivered.
pub proof fn law_publish_coalesces(slot: Seq<char>, first: Seq<char>, second: Seq<char>, seen: Seq<char>)
    ensures
        after_publishing(slot, seq![first, second]) == second,
        ({
            let now = after_publishing(slot, seq![first, second]);
            let (delivery, then_seen) = next_change_of(now, seen);
            let (again, _) = next_change_of(now, then_seen);
            &&& second != seen ==> delivery == Some(second)
            &&& second == seen ==> delivery is None
            &&& first != second ==> delivery != Some(first)
            &&& again is None
        }),
{
}

/// Whatever is published, and however much of it, a subscriber that asks
/// afterwards sees at most the last content, and asking again gives
/// nothing until something else is published.
pub proof fn law_only_latest_is_seen(slot: Seq<char>, contents: Seq<Seq<char>>, seen: Seq<char>)
    requires
        contents.len() > 0,
    ensures
        ({
            let now = after_publishing(slot, contents);
            let (delivery, then_seen) = next_change_of(now, seen);
            &&& delivery is Some ==> delivery == Some(contents.last())
            &&& delivery is None <==> contents.last() == seen
            &&& next_change_of(now, then_seen).0 is None
        }),
{
}

} // verus!
