//! The page of an article: its links, its buttons and what they do.

use crate::models::article::Article;
use crate::models::comment::Comment;
use crate::models::user::User;
use crate::text::str_concat;
use vstd::prelude::*;
use vstd::string::StringExecFns;

verus! {

/// The address of the page of the article `slug`.
pub fn article_link(slug: &str) -> (link: String)
    ensures
        link@ == "/article/"@ + slug@,
{
    str_concat("/article/", slug)
}

/// The address of the page on which the article `slug` is edited.
pub fn editor_link(slug: &str) -> (link: String)
    ensures
        link@ == "/editor/"@ + slug@,
{
    str_concat("/editor/", slug)
}

/// How the date of the last change is shown beside an article: in
/// parentheses, and not at all where the article was never changed.
pub fn updated_label(updated_at: Option<&str>) -> (label: Option<String>)
    ensures
        match updated_at {
            Some(date) => label matches Some(l) && l@ == "("@ + date@ + ")"@,
            None => label is None,
        },
{
    match updated_at {
        Some(date) => {
            let mut label = str_concat("(", date);
            label.append(")");
            Some(label)
        },
        None => None,
    }
}

/// What becomes of a request to mark or unmark a favorite.
#[derive(Clone, Copy, Debug, PartialEq, Eq, Structural)]
pub enum FavoriteAction {
    /// Nothing is written: the article is the member's own, or is missing.
    Refuse,
    /// The mark is removed.
    Remove,
    /// The mark is set, unless it is set already.
    Add,
}

/// The rule for favorites. `own` is what the database says of the article:
/// `None` where there is no such article, else a number that is not zero
/// exactly when the member wrote it. `current` is the mark as the member
/// sees it.
pub open spec fn favorite_action(own: Option<i64>, current: bool) -> FavoriteAction {
    if own is None || own != Some(0i64) {
        FavoriteAction::Refuse
    } else if current {
        FavoriteAction::Remove
    } else {
        FavoriteAction::Add
    }
}

/// Decides a request to mark or unmark a favorite.
pub fn toggle_favorite(own: Option<i64>, current: bool) -> (action: FavoriteAction)
    ensures
        action == favorite_action(own, current),
{
    let own = match own {
        Some(n) => n,
        None => 1,
    };
    if own != 0 {
        FavoriteAction::Refuse
    } else if current {
        FavoriteAction::Remove
    } else {
        FavoriteAction::Add
    }
}

/// Whether the favorite button is of no use to the reader: a stranger cannot
/// mark favorites, nobody can mark an own article, and nothing can be asked
/// while a request is pending.
pub fn favorite_disabled(reader: Option<&User>, article: &Article, pending: bool) -> (disabled:
    bool)
    ensures
        disabled == (reader is None || (reader matches Some(u) && u.username@
            == article.author.username@) || pending),
{
    let blocked = match reader {
        Some(user) => user.username == article.author.username,
        None => true,
    };
    blocked || pending
}

/// Whether the mark of `article` can be flipped without its count leaving
/// the range of the counter.
pub open spec fn can_flip(article: Article) -> bool {
    if article.favorited {
        article.favorites_count > 0
    } else {
        article.favorites_count < u32::MAX
    }
}

/// Flips the reader's mark on `article` after the server has done so, and
/// counts the reader in or out.
pub fn flip_favorite(article: &mut Article)
    requires
        can_flip(*old(article)),
    ensures
        final(article).favorited == !old(article).favorited,
        final(article).favorites_count == if old(article).favorited {
            old(article).favorites_count - 1
        } else {
            old(article).favorites_count + 1
        },
        final(article)@ == (crate::models::article::ArticleView {
            favorited: final(article).favorited,
            favorites_count: final(article).favorites_count,
            ..old(article)@
        }),
{
    if article.favorited {
        article.favorited = false;
        article.favorites_count = article.favorites_count - 1;
    } else {
        article.favorited = true;
        article.favorites_count = article.favorites_count + 1;
    }
}

/// Whether `reader` wrote `article`, so that the page offers to edit and
/// delete it.
pub fn is_author(reader: Option<&User>, article: &Article) -> (own: bool)
    ensures
        own == (reader matches Some(u) && u.username@ == article.author.username@),
{
    match reader {
        Some(user) => user.username == article.author.username,
        None => false,
    }
}

/// Whether `reader` wrote `comment`, so that the page offers to delete it.
pub fn can_delete_comment(reader: Option<&str>, comment: &Comment) -> (own: bool)
    ensures
        own == (reader matches Some(name) && name@ == comment.author.username@),
{
    match reader {
        Some(name) => name.eq(comment.author.username.as_str()),
        None => false,
    }
}

} // verus!
