//! The page of a member: its address, its picture and its two feeds.

use crate::models::user::{opt_view, User};
use crate::pages::feed::{FeedKind, FeedKindView};
use crate::text::{starts_with, str_concat};
use vstd::prelude::*;
use vstd::string::StringExecFns;

verus! {

/// The address of the page of `username`.
pub open spec fn profile_path(username: Seq<char>) -> Seq<char> {
    "/profile/"@ + username
}

/// The address of the page of `username`.
pub fn profile_link(username: &str) -> (link: String)
    ensures
        link@ == profile_path(username@),
{
    str_concat("/profile/", username)
}

/// The address of the page that lists the favorites of `username`.
pub fn favorites_link(username: &str) -> (link: String)
    ensures
        link@ == profile_path(username@) + "/favorites"@,
{
    let mut link = profile_link(username);
    link.append("/favorites");
    link
}

/// What stands for a member's picture.
pub enum Avatar {
    /// The picture at this address.
    Image(String),
    /// A piece of text in place of a picture.
    Text(String),
}

/// The mathematical value of an [`Avatar`].
pub enum AvatarView {
    Image(Seq<char>),
    Text(Seq<char>),
}

impl View for Avatar {
    type V = AvatarView;

    open spec fn view(&self) -> AvatarView {
        match *self {
            Avatar::Image(url) => AvatarView::Image(url@),
            Avatar::Text(text) => AvatarView::Text(text@),
        }
    }
}

/// What stands for the picture of a member whose image field holds `src`:
/// only an address that begins with `https://` is shown as a picture, any
/// other text is shown as it is, and a smiling face stands for no image.
pub open spec fn avatar_of(src: Option<Seq<char>>) -> AvatarView {
    match src {
        Some(s) => if "https://"@.is_prefix_of(s) {
            AvatarView::Image(s)
        } else {
            AvatarView::Text(s)
        },
        None => AvatarView::Text("🙂"@),
    }
}

/// Chooses what stands for a member's picture.
pub fn profile_img(src: Option<String>) -> (avatar: Avatar)
    ensures
        avatar@ == avatar_of(opt_view(src)),
{
    match src {
        Some(s) => {
            if starts_with(s.as_str(), "https://") {
                Avatar::Image(s)
            } else {
                Avatar::Text(s)
            }
        },
        None => Avatar::Text("🙂".to_owned()),
    }
}

/// Whether the page of `username` is the reader's own, so that it offers the
/// settings in place of a follow button.
pub fn is_own_profile(reader: Option<&User>, username: &str) -> (own: bool)
    ensures
        own == (reader matches Some(u) && u.username@ == username@),
{
    match reader {
        Some(user) => user.username.as_str().eq(username),
        None => false,
    }
}

/// The feed under the page of `username`: the member's favorites or the
/// member's own articles.
pub fn profile_feed(username: String, favorites: bool) -> (kind: FeedKind)
    ensures
        kind@ == if favorites {
            FeedKindView::Favorited(username@)
        } else {
            FeedKindView::By(username@)
        },
{
    if favorites {
        FeedKind::Favorited(username)
    } else {
        FeedKind::By(username)
    }
}

} // verus!
