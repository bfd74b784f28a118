//! The editor: from the submitted form to what is written.

use crate::models::article::{slug_of, strs, strs_of, validation_errors, Article};
use crate::text::{buffers, chars_of, join, lowercase, split_words, string_of, words};
use vstd::prelude::*;
use vstd::string::StringExecFns;

verus! {

/// The tags that the tags field of the form names: its words, in lower case.
pub open spec fn tags_in(field: Seq<char>) -> Seq<Seq<char>> {
    words(lowercase(field))
}

/// Reads the tags field of the form.
pub fn parse_tags(field: &str) -> (tags: Vec<String>)
    ensures
        strs(tags@) == tags_in(field@),
{
    let lowered = field.to_lowercase();
    let chars = chars_of(lowered.as_str());
    let found = split_words(&chars);
    let mut tags: Vec<String> = Vec::new();
    let mut i: usize = 0;
    assert(strs(tags@) == buffers(found@).take(0));
    while i < found.len()
        invariant
            i <= found.len(),
            strs(tags@) == buffers(found@).take(i as int),
        decreases found.len() - i,
    {
        let tag = string_of(&found[i]);
        let ghost before = strs(tags@);
        tags.push(tag);
        assert(strs(tags@) == before.push(found@[i as int]@));
        assert(buffers(found@).take(i as int + 1) == buffers(found@).take(i as int).push(
            found@[i as int]@,
        ));
        i += 1;
    }
    assert(buffers(found@).take(found@.len() as int) == buffers(found@));
    tags
}

/// What the tags field of the form shows for an article with these tags:
/// the tags with one space between each two.
pub fn tags_field(tags: &Vec<String>) -> (field: String)
    ensures
        field@ == join(strs(tags@), " "@),
{
    let mut field = String::new();
    let mut i: usize = 0;
    assert(strs(tags@).take(0) == Seq::<Seq<char>>::empty());
    while i < tags.len()
        invariant
            i <= tags.len(),
            field@ == join(strs(tags@).take(i as int), " "@),
        decreases tags.len() - i,
    {
        proof {
            let next = strs(tags@).take(i as int + 1);
            assert(next.drop_last() == strs(tags@).take(i as int));
            assert(next.last() == tags@[i as int]@);
        }
        if i > 0 {
            field.append(" ");
        } else {
            assert(field@ + tags@[i as int]@ == tags@[i as int]@);
        }
        field.append(tags[i].as_str());
        i += 1;
    }
    assert(strs(tags@).take(tags@.len() as int) == strs(tags@));
    field
}

/// What becomes of a submitted form.
pub enum PostPlan {
    /// Nothing is written; these are the complaints.
    Rejected(Vec<String>),
    /// A new article is stored under `slug` with `tags`.
    Create { slug: String, tags: Vec<String> },
    /// The article `slug` is overwritten and gets `tags` in place of its old
    /// tags.
    Update { slug: String, tags: Vec<String> },
}

/// Decides what becomes of a submitted form. The form edits the article
/// `slug` where it names one, and is a new article where it names none.
pub fn create_or_update_post(
    slug: Option<String>,
    title: &str,
    about: &str,
    body: &str,
    tags: &str,
) -> (plan: PostPlan)
    ensures
        ({
            let errors = validation_errors(title@, about@, body@, tags_in(tags@));
            if errors.len() > 0 {
                plan matches PostPlan::Rejected(e) && strs(e@) == errors
            } else {
                match slug {
                    Some(s) => plan matches PostPlan::Update { slug: to, tags: t } && to == s
                        && strs(t@) == tags_in(tags@),
                    None => plan matches PostPlan::Create { slug: to, tags: t } && to@ == slug_of(
                        title@,
                    ) && strs(t@) == tags_in(tags@),
                }
            }
        }),
{
    let tags = parse_tags(tags);
    let mut names: Vec<&str> = Vec::new();
    let mut i: usize = 0;
    assert(strs_of(names@) == strs(tags@).take(0));
    while i < tags.len()
        invariant
            i <= tags.len(),
            strs_of(names@) == strs(tags@).take(i as int),
        decreases tags.len() - i,
    {
        let ghost before = strs_of(names@);
        names.push(tags[i].as_str());
        assert(strs_of(names@) == before.push(tags@[i as int]@));
        assert(strs(tags@).take(i as int + 1) == strs(tags@).take(i as int).push(
            tags@[i as int]@,
        ));
        i += 1;
    }
    assert(strs(tags@).take(tags@.len() as int) == strs(tags@));
    match slug {
        Some(slug) => match Article::update(title, about, body, names.as_slice()) {
            Some(errors) => PostPlan::Rejected(errors),
            None => PostPlan::Update { slug, tags },
        },
        None => match Article::create(title, about, body, names.as_slice()) {
            Ok(slug) => PostPlan::Create { slug, tags },
            Err(errors) => PostPlan::Rejected(errors),
        },
    }
}

/// The complaints to show above the form: those of the last submission, if
/// it was answered and turned down.
pub fn submission_errors<E>(result: Option<Result<Result<String, Vec<String>>, E>>) -> (errors:
    Vec<String>)
    ensures
        match result {
            Some(Ok(Err(e))) => errors == e,
            _ => errors@.len() == 0,
        },
{
    match result {
        Some(Ok(Err(errors))) => errors,
        _ => Vec::new(),
    }
}

} // verus!
