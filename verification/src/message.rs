//! Rendering activities and roster snapshots into the wire lines the
//! relay sends: `JOIN: <name>`, `LEAVE: <name>`,
//! `MESSAGE: <name> <text>`, and the `USERS:` greeting. Every line is
//! newline-free; the transport appends the terminator.

use vstd::prelude::*;

use crate::types::Activity;
use crate::types::ActivityView;
use crate::types::User;
use crate::types::UserView;

verus! {

/// The wire line for one activity.
pub open spec fn spec_format_activity(a: ActivityView) -> Seq<char> {
    match a {
        ActivityView::Join(u) => "JOIN: "@ + u.screen_name,
        ActivityView::Leave(u) => "LEAVE: "@ + u.screen_name,
        ActivityView::Message(name, text) => "MESSAGE: "@ + name + " "@ + text,
    }
}

/// The display names of `users`, oldest first, separated by `", "`.
pub open spec fn spec_names_joined(users: Seq<UserView>) -> Seq<char>
    decreases users.len(),
{
    if users.len() == 0 {
        Seq::<char>::empty()
    } else if users.len() == 1 {
        users[0].screen_name
    } else {
        spec_names_joined(users.drop_last()) + ", "@ + users.last().screen_name
    }
}

/// The greeting line: the other connected users' names, or a fixed
/// notice when nobody else is connected.
pub open spec fn spec_format_user_list(users: Seq<UserView>) -> Seq<char> {
    if users.len() == 0 {
        "USERS: No other users connected"@
    } else {
        "USERS: "@ + spec_names_joined(users)
    }
}

/// Render one activity as its wire line.
pub fn format_activity(activity: &Activity) -> (r: String)
    ensures
        r@ == spec_format_activity(activity@),
{
    match activity {
        Activity::Join(u) => {
            let mut line = String::from_str("JOIN: ");
            line.append(u.screen_name.as_str());
            line
        },
        Activity::Leave(u) => {
            let mut line = String::from_str("LEAVE: ");
            line.append(u.screen_name.as_str());
            line
        },
        Activity::Message(name, text) => {
            let mut line = String::from_str("MESSAGE: ");
            line.append(name.as_str());
            line.append(" ");
            line.append(text.as_str());
            line
        },
    }
}

/// Render the roster greeting for `users`.
pub fn format_user_list(users: &Vec<User>) -> (r: String)
    ensures
        r@ == spec_format_user_list(users.deep_view()),
{
    if users.len() == 0 {
        proof {
            assert(users.deep_view().len() == 0);
        }
        String::from_str("USERS: No other users connected")
    } else {
        let ghost all = users.deep_view();
        let mut line = String::from_str("USERS: ");
        let mut i: usize = 0;
        proof {
            assert(line@ =~= "USERS: "@ + spec_names_joined(all.subrange(0, 0)));
        }
        while i < users.len()
            invariant
                0 < users.len(),
                0 <= i <= users.len(),
                all == users.deep_view(),
                all.len() == users.len(),
                line@ == "USERS: "@ + spec_names_joined(all.subrange(0, i as int)),
            decreases users.len() - i,
        {
            let ghost pre = line@;
            if i > 0 {
                line.append(", ");
            }
            line.append(users[i].screen_name.as_str());
            proof {
                let head = all.subrange(0, i as int);
                let grown = all.subrange(0, i + 1);
                assert(grown.drop_last() =~= head);
                assert(all[i as int] == users[i as int].deep_view());
                if i == 0 {
                    assert(grown.len() == 1);
                    assert(line@ =~= "USERS: "@ + spec_names_joined(grown));
                } else {
                    assert(spec_names_joined(grown) == spec_names_joined(head) + ", "@
                        + all[i as int].screen_name);
                    assert(line@ =~= "USERS: "@ + spec_names_joined(grown));
                }
            }
            i = i + 1;
        }
        proof {
            assert(all.subrange(0, all.len() as int) =~= all);
        }
        line
    }
}

} // verus!
