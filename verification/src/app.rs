//! What the shell of the application decides: tag links and following.

use crate::models::user::{Profile, ProfileView};
use crate::text::str_concat;
use vstd::prelude::*;

verus! {

/// The address of the feed of the articles that carry `tag`.
pub fn tag_link(tag: &str) -> (link: String)
    ensures
        link@ == "/tag/"@ + tag@,
{
    str_concat("/tag/", tag)
}

/// The style classes of a tag in a list of tags.
pub fn tag_class(outline: bool) -> (class: &'static str)
    ensures
        class@ == if outline {
            "tag-pill tag-default tag-outline"@
        } else {
            "tag-pill tag-default"@
        },
{
    if outline {
        "tag-pill tag-default tag-outline"
    } else {
        "tag-pill tag-default"
    }
}

/// What becomes of a request to follow or unfollow.
#[derive(Clone, Copy, Debug, PartialEq, Eq, Structural)]
pub enum FollowAction {
    /// Nothing is written: nobody follows oneself.
    Refuse,
    /// The member stops following.
    Unfollow,
    /// The member starts following, unless that is so already.
    Follow,
}

/// The rule for following: `logged_in` asks to change whether they follow
/// `user`, and `current` is how things stand as they see it.
pub open spec fn follow_action(logged_in: Seq<char>, user: Seq<char>, current: bool) -> FollowAction {
    if logged_in == user {
        FollowAction::Refuse
    } else if current {
        FollowAction::Unfollow
    } else {
        FollowAction::Follow
    }
}

/// Decides a request to follow or unfollow.
pub fn toggle_follow(logged_in: &str, user: &str, current: bool) -> (action: FollowAction)
    ensures
        action == follow_action(logged_in@, user@, current),
{
    if logged_in.eq(user) {
        FollowAction::Refuse
    } else if current {
        FollowAction::Unfollow
    } else {
        FollowAction::Follow
    }
}

/// The profile after the server has flipped whether the reader follows it.
pub fn flip_following(profile: Profile) -> (flipped: Profile)
    ensures
        flipped@ == (ProfileView { following: !profile.following, ..profile@ }),
{
    let mut flipped = profile;
    flipped.following = !flipped.following;
    flipped
}

/// The words and the icon on the follow button.
pub fn follow_label(following: bool) -> (label: (&'static str, &'static str))
    ensures
        label.0@ == if following {
            "Unfollow"@
        } else {
            "Follow"@
        },
        label.1@ == if following {
            "ion-minus-round"@
        } else {
            "ion-plus-round"@
        },
{
    if following {
        ("Unfollow", "ion-minus-round")
    } else {
        ("Follow", "ion-plus-round")
    }
}

/// The style classes of the follow button, with those that the place of the
/// button adds.
pub fn follow_button_class(class: &str) -> (classes: String)
    ensures
        classes@ == "btn btn-sm btn-outline-secondary "@ + class@,
{
    str_concat("btn btn-sm btn-outline-secondary ", class)
}

} // verus!
