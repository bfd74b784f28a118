use crate::db::{expect_one_row, DbError};
use crate::models::user::{opt_view, Profile, ProfileView};
use vstd::prelude::*;

verus! {

/// A comment on an article, with what is shown of its author.
#[derive(Clone)]
pub struct Comment {
    pub id: i64,
    pub body: String,
    pub created_at: String,
    pub author: Profile,
}

/// The mathematical value of a [`Comment`].
pub struct CommentView {
    pub id: i64,
    pub body: Seq<char>,
    pub created_at: Seq<char>,
    pub author: ProfileView,
}

impl View for Comment {
    type V = CommentView;

    open spec fn view(&self) -> CommentView {
        CommentView {
            id: self.id,
            body: self.body@,
            created_at: self.created_at@,
            author: self.author@,
        }
    }
}

/// A row of the comment table joined with the image of its author.
pub struct CommentRow {
    pub id: i64,
    pub body: String,
    pub created_at: String,
    pub user: String,
    pub image: Option<String>,
}

/// The comment that a row stands for. Beside a comment only the name and the
/// image of its author are shown: the bio is left out and nobody counts as
/// followed.
pub open spec fn comment_of(row: CommentRow) -> CommentView {
    CommentView {
        id: row.id,
        body: row.body@,
        created_at: row.created_at@,
        author: ProfileView {
            username: row.user@,
            bio: None,
            image: opt_view(row.image),
            following: false,
        },
    }
}

impl Comment {
    /// The comments that the rows stand for, in the order of the rows.
    pub fn for_article(rows: Vec<CommentRow>) -> (comments: Vec<Comment>)
        ensures
            comments@.len() == rows@.len(),
            forall|i: int|
                0 <= i < rows@.len() ==> (#[trigger] comments@[i])@ == comment_of(rows@[i]),
    {
        let ghost all = rows@;
        let mut comments: Vec<Comment> = Vec::new();
        for row in it: rows
            invariant
                it.seq() == all,
                comments@.len() == it.index(),
                forall|i: int|
                    0 <= i < it.index() ==> (#[trigger] comments@[i])@ == comment_of(all[i]),
        {
            comments.push(
                Comment {
                    id: row.id,
                    body: row.body,
                    created_at: row.created_at,
                    author: Profile { username: row.user, bio: None, image: row.image, following: false },
                },
            );
        }
        comments
    }

    /// Reads the outcome of deleting a comment: it is gone when exactly one
    /// row was removed; otherwise the member has no comment with that id.
    pub fn delete(rows_affected: u64) -> (r: Result<(), DbError>)
        ensures
            r is Ok <==> rows_affected == 1,
            r is Err ==> r == Err::<(), DbError>(DbError::RowNotFound),
    {
        expect_one_row(rows_affected)
    }
}

} // verus!
