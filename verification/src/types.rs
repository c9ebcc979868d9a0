//! The chat domain: users, messages, and the activities that are
//! broadcast to every connected session.

use vstd::prelude::*;

verus! {

/// Identity of one connected client. Created once per accepted
/// connection, immutable afterwards, and never reused: a reconnect is a
/// new `User` with a fresh identifier.
pub struct User {
    /// Stable identifier, unique for the connection's lifetime.
    pub id: String,
    /// Human-readable display name; not guaranteed unique.
    pub screen_name: String,
    /// The same stable identifier under which the roster is keyed.
    pub uuid: String,
}

/// Mathematical image of a [`User`]: each field as a character sequence.
pub ghost struct UserView {
    pub id: Seq<char>,
    pub screen_name: Seq<char>,
    pub uuid: Seq<char>,
}

impl View for User {
    type V = UserView;

    open spec fn view(&self) -> UserView {
        UserView { id: self.id@, screen_name: self.screen_name@, uuid: self.uuid@ }
    }
}

impl DeepView for User {
    type V = UserView;

    open spec fn deep_view(&self) -> UserView {
        self.view()
    }
}

impl Clone for User {
    fn clone(&self) -> (r: Self)
        ensures
            r@ == self@,
    {
        User {
            id: self.id.clone(),
            screen_name: self.screen_name.clone(),
            uuid: self.uuid.clone(),
        }
    }
}

/// One chat line: its author, the text as submitted (non-blank), and
/// the relay-assigned timestamp in seconds since the epoch.
pub struct Message {
    pub user: User,
    pub content: String,
    pub timestamp: u64,
}

/// Mathematical image of a [`Message`].
pub ghost struct MessageView {
    pub user: UserView,
    pub content: Seq<char>,
    pub timestamp: u64,
}

impl View for Message {
    type V = MessageView;

    open spec fn view(&self) -> MessageView {
        MessageView { user: self.user@, content: self.content@, timestamp: self.timestamp }
    }
}

impl DeepView for Message {
    type V = MessageView;

    open spec fn deep_view(&self) -> MessageView {
        self.view()
    }
}

/// An event fanned out to every subscriber. Activities are the only
/// cross-connection communication primitive: a `Join` or `Leave` carries
/// the affected user, a `Message` carries the author's display name and
/// the chat text.
pub enum Activity {
    Message(String, String),
    Join(User),
    Leave(User),
}

/// Mathematical image of an [`Activity`].
pub ghost enum ActivityView {
    Message(Seq<char>, Seq<char>),
    Join(UserView),
    Leave(UserView),
}

impl View for Activity {
    type V = ActivityView;

    open spec fn view(&self) -> ActivityView {
        match self {
            Activity::Message(name, text) => ActivityView::Message(name@, text@),
            Activity::Join(u) => ActivityView::Join(u@),
            Activity::Leave(u) => ActivityView::Leave(u@),
        }
    }
}

impl DeepView for Activity {
    type V = ActivityView;

    open spec fn deep_view(&self) -> ActivityView {
        self.view()
    }
}

impl Clone for Activity {
    fn clone(&self) -> (r: Self)
        ensures
            r@ == self@,
    {
        match self {
            Activity::Message(name, text) => Activity::Message(name.clone(), text.clone()),
            Activity::Join(u) => Activity::Join(u.clone()),
            Activity::Leave(u) => Activity::Leave(u.clone()),
        }
    }
}

} // verus!
