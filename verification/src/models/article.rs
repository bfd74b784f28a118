use crate::db::{expect_one_row, DbError};
use crate::models::user::{opt_view, Profile, ProfileView};
use crate::text::{
    ascii_lower, byte_len, char_ascii_lower, char_is_ascii_alnum, char_is_ascii_lower, chars_of,
    is_ascii_alnum, is_ascii_lower, split_chars, split_on, str_concat, string_of_range, utf8_len,
};
use vstd::prelude::*;
use vstd::string::StringExecFns;

verus! {

/// The character sequences of a sequence of strings.
pub open spec fn strs(v: Seq<String>) -> Seq<Seq<char>> {
    v.map_values(|s: String| s@)
}

/// The character sequences of a sequence of string slices.
pub open spec fn strs_of(v: Seq<&str>) -> Seq<Seq<char>> {
    v.map_values(|s: &str| s@)
}

/// An article as a reader sees it: the stored text together with what
/// depends on the reader and on other tables.
#[derive(Clone)]
pub struct Article {
    pub slug: String,
    pub title: String,
    pub description: String,
    pub body: String,
    pub created_at: String,
    pub updated_at: Option<String>,
    pub tags: Vec<String>,
    pub favorited: bool,
    pub favorites_count: u32,
    pub author: Profile,
}

/// The mathematical value of an [`Article`].
pub struct ArticleView {
    pub slug: Seq<char>,
    pub title: Seq<char>,
    pub description: Seq<char>,
    pub body: Seq<char>,
    pub created_at: Seq<char>,
    pub updated_at: Option<Seq<char>>,
    pub tags: Seq<Seq<char>>,
    pub favorited: bool,
    pub favorites_count: u32,
    pub author: ProfileView,
}

impl View for Article {
    type V = ArticleView;

    open spec fn view(&self) -> ArticleView {
        ArticleView {
            slug: self.slug@,
            title: self.title@,
            description: self.description@,
            body: self.body@,
            created_at: self.created_at@,
            updated_at: opt_view(self.updated_at),
            tags: strs(self.tags@),
            favorited: self.favorited,
            favorites_count: self.favorites_count,
            author: self.author@,
        }
    }
}

/// The fields of an article that its author may edit.
#[derive(Clone)]
pub struct ArticleEditFields {
    pub title: String,
    pub description: String,
    pub body: String,
    pub tags: Vec<String>,
}

/// One page of articles and the number of articles in the whole feed.
#[derive(Clone)]
pub struct Feed {
    pub articles: Vec<Article>,
    pub count: u32,
}

/// The mathematical value of a [`Feed`].
pub struct FeedView {
    pub articles: Seq<ArticleView>,
    pub count: u32,
}

impl View for Feed {
    type V = FeedView;

    open spec fn view(&self) -> FeedView {
        FeedView { articles: self.articles@.map_values(|a: Article| a@), count: self.count }
    }
}

/// Which page of a feed is wanted, and for which reader.
#[derive(Debug)]
pub struct FeedOptions {
    pub offset: u32,
    pub limit: u8,
    pub user: Option<String>,
}

impl Default for FeedOptions {
    /// The first twenty articles, for an anonymous reader.
    fn default() -> (o: FeedOptions)
        ensures
            o.offset == 0,
            o.limit == 20,
            o.user is None,
    {
        FeedOptions { offset: 0, limit: 20, user: None }
    }
}

/// A row of the article table joined with its author's account.
pub struct ArticleRow {
    pub slug: String,
    pub title: String,
    pub description: String,
    pub body: String,
    pub created_at: String,
    pub updated_at: Option<String>,
    pub author: String,
    pub bio: Option<String>,
    pub image: Option<String>,
}

/// The mathematical value of an [`ArticleRow`].
pub struct ArticleRowView {
    pub slug: Seq<char>,
    pub title: Seq<char>,
    pub description: Seq<char>,
    pub body: Seq<char>,
    pub created_at: Seq<char>,
    pub updated_at: Option<Seq<char>>,
    pub author: Seq<char>,
    pub bio: Option<Seq<char>>,
    pub image: Option<Seq<char>>,
}

impl View for ArticleRow {
    type V = ArticleRowView;

    open spec fn view(&self) -> ArticleRowView {
        ArticleRowView {
            slug: self.slug@,
            title: self.title@,
            description: self.description@,
            body: self.body@,
            created_at: self.created_at@,
            updated_at: opt_view(self.updated_at),
            author: self.author@,
            bio: opt_view(self.bio),
            image: opt_view(self.image),
        }
    }
}

/// The article that a row stands for before anything is known of its tags,
/// its favorites or its reader: no tags, no favorites, nobody followed.
pub open spec fn bare_article(row: ArticleRowView) -> ArticleView {
    ArticleView {
        slug: row.slug,
        title: row.title,
        description: row.description,
        body: row.body,
        created_at: row.created_at,
        updated_at: row.updated_at,
        tags: Seq::empty(),
        favorited: false,
        favorites_count: 0,
        author: ProfileView {
            username: row.author,
            bio: row.bio,
            image: row.image,
            following: false,
        },
    }
}

/// What one character of a title contributes to the slug: a space becomes a
/// dash, an ASCII letter or digit stays (in lower case), anything else is
/// dropped.
pub open spec fn slug_char(c: char) -> Option<char> {
    if c == ' ' {
        Some('-')
    } else if is_ascii_alnum(c) {
        Some(ascii_lower(c))
    } else {
        None
    }
}

/// The characters that a title contributes to its slug, in order.
pub open spec fn slug_chars(title: Seq<char>) -> Seq<char>
    decreases title.len(),
{
    if title.len() == 0 {
        Seq::empty()
    } else {
        let init = slug_chars(title.drop_last());
        match slug_char(title.last()) {
            Some(c) => init.push(c),
            None => init,
        }
    }
}

/// `s` without its leading dashes.
pub open spec fn skip_dashes(s: Seq<char>) -> Seq<char>
    decreases s.len(),
{
    if s.len() > 0 && s[0] == '-' {
        skip_dashes(s.drop_first())
    } else {
        s
    }
}

/// The slug of a title: its slug characters without leading dashes, and with
/// an `x` appended where it would otherwise end in a dash.
pub open spec fn slug_of(title: Seq<char>) -> Seq<char> {
    let stem = skip_dashes(slug_chars(title));
    if stem.len() > 0 && stem.last() == '-' {
        stem.push('x')
    } else {
        stem
    }
}

/// What is wrong with a required text field, if anything: it is empty, or its
/// UTF-8 encoding is longer than `limit` bytes.
pub open spec fn field_error(
    text: Seq<char>,
    limit: nat,
    missing: Seq<char>,
    too_long: Seq<char>,
) -> Seq<Seq<char>> {
    if text.len() == 0 {
        seq![missing]
    } else if utf8_len(text) > limit {
        seq![too_long]
    } else {
        Seq::empty()
    }
}

/// A non-empty word of ASCII small letters.
pub open spec fn is_lower_word(w: Seq<char>) -> bool {
    w.len() > 0 && forall|j: int| 0 <= j < w.len() ==> is_ascii_lower(#[trigger] w[j])
}

/// Kebab case: words of ASCII small letters joined by single dashes.
pub open spec fn is_kebab(tag: Seq<char>) -> bool {
    forall|i: int|
        0 <= i < split_on(tag, '-').len() ==> is_lower_word(#[trigger] split_on(tag, '-')[i])
}

/// A tag is acceptable when it is in kebab case and takes at most 20 bytes.
pub open spec fn valid_tag(tag: Seq<char>) -> bool {
    utf8_len(tag) <= 20 && is_kebab(tag)
}

/// Whether every tag is acceptable.
pub open spec fn all_tags_valid(tags: Seq<Seq<char>>) -> bool {
    forall|i: int| 0 <= i < tags.len() ==> valid_tag(#[trigger] tags[i])
}

/// The complaint about the tags, if one of them is not acceptable.
pub open spec fn tags_error(tags: Seq<Seq<char>>) -> Seq<Seq<char>> {
    if all_tags_valid(tags) {
        Seq::empty()
    } else {
        seq!["invalid tag (must be short, lowercase a-z and in kebab-case)"@]
    }
}

/// Everything that is wrong with a submitted article, in the order title,
/// description, body, tags. An article is acceptable when this is empty.
pub open spec fn validation_errors(
    title: Seq<char>,
    description: Seq<char>,
    body: Seq<char>,
    tags: Seq<Seq<char>>,
) -> Seq<Seq<char>> {
    field_error(title, 100, "missing title"@, "too long title"@) + field_error(
        description,
        300,
        "missing description"@,
        "too long description"@,
    ) + field_error(body, 20000, "missing body"@, "too long body"@) + tags_error(tags)
}

/// Checks one required text field and records the complaint, if any.
fn check_field(errors: &mut Vec<String>, text: &str, limit: usize, missing: &str, too_long: &str)
    ensures
        strs(final(errors)@) == strs(old(errors)@) + field_error(
            text@,
            limit as nat,
            missing@,
            too_long@,
        ),
{
    let ghost before = strs(errors@);
    if text.is_empty() {
        errors.push(missing.to_owned());
        assert(strs(errors@) == before + seq![missing@]);
    } else if byte_len(text) > limit {
        errors.push(too_long.to_owned());
        assert(strs(errors@) == before + seq![too_long@]);
    } else {
        assert(strs(errors@) == before + Seq::<Seq<char>>::empty());
    }
}

/// Whether `w` is a non-empty word of ASCII small letters.
fn word_is_lower(w: &Vec<char>) -> (r: bool)
    ensures
        r == is_lower_word(w@),
{
    if w.len() == 0 {
        return false;
    }
    let mut j: usize = 0;
    while j < w.len()
        invariant
            j <= w.len(),
            forall|k: int| 0 <= k < j ==> is_ascii_lower(#[trigger] w@[k]),
        decreases w.len() - j,
    {
        if !char_is_ascii_lower(w[j]) {
            return false;
        }
        j += 1;
    }
    true
}

/// Whether `tag` is acceptable.
pub fn tag_is_valid(tag: &str) -> (r: bool)
    ensures
        r == valid_tag(tag@),
{
    if byte_len(tag) > 20 {
        return false;
    }
    let chars = chars_of(tag);
    let words = split_chars(&chars, '-');
    let mut i: usize = 0;
    while i < words.len()
        invariant
            i <= words.len(),
            crate::text::buffers(words@) == split_on(tag@, '-'),
            forall|k: int| 0 <= k < i ==> is_lower_word(#[trigger] split_on(tag@, '-')[k]),
        decreases words.len() - i,
    {
        assert(crate::text::buffers(words@)[i as int] == words@[i as int]@);
        if !word_is_lower(&words[i]) {
            return false;
        }
        i += 1;
    }
    true
}

impl Article {
    /// The article that `row` stands for, with nothing filled in yet from the
    /// other tables.
    pub fn from(row: ArticleRow) -> (a: Article)
        ensures
            a@ == bare_article(row@),
    {
        let a = Article {
            slug: row.slug,
            title: row.title,
            description: row.description,
            body: row.body,
            created_at: row.created_at,
            updated_at: row.updated_at,
            tags: Vec::new(),
            favorited: false,
            favorites_count: 0,
            author: Profile {
                username: row.author,
                bio: row.bio,
                image: row.image,
                following: false,
            },
        };
        assert(strs(a.tags@) == Seq::<Seq<char>>::empty());
        a
    }

    /// The slug under which an article with this title is stored.
    pub fn slug_from_title(title: &str) -> (slug: String)
        ensures
            slug@ == slug_of(title@),
    {
        let mut kept: Vec<char> = Vec::new();
        for c in it: title.chars()
            invariant
                it.seq() == title@,
                kept@ == slug_chars(title@.take(it.index() as int)),
        {
            proof {
                let prefix = title@.take(it.index() + 1);
                assert(prefix.drop_last() == title@.take(it.index() as int));
                assert(prefix.last() == c);
            }
            if c == ' ' {
                kept.push('-');
            } else if char_is_ascii_alnum(c) {
                kept.push(char_ascii_lower(c));
            }
        }
        assert(title@.take(title@.len() as int) == title@);
        let mut start: usize = 0;
        assert(kept@.skip(0) == kept@);
        while start < kept.len() && kept[start] == '-'
            invariant
                start <= kept.len(),
                skip_dashes(kept@) == skip_dashes(kept@.skip(start as int)),
            decreases kept.len() - start,
        {
            assert(kept@.skip(start as int).drop_first() == kept@.skip(start as int + 1));
            start += 1;
        }
        assert(skip_dashes(kept@) == kept@.skip(start as int));
        let mut slug = string_of_range(&kept, start, kept.len());
        assert(kept@.subrange(start as int, kept.len() as int) == kept@.skip(start as int));
        if kept.len() > start && kept[kept.len() - 1] == '-' {
            slug.push('x');
        }
        slug
    }

    /// The article that `row` stands for, with its tags and its number of
    /// favorites, as `reader` sees it: for an anonymous reader nothing is
    /// marked and nobody is followed.
    pub fn get(
        row: ArticleRow,
        tags: Vec<String>,
        favorites: Option<i32>,
        reader: Option<ReaderMarks>,
    ) -> (a: Article)
        ensures
            a@ == (ArticleView {
                tags: strs(tags@),
                favorites_count: as_count(favorites),
                favorited: reader matches Some(m) && m.favorited,
                author: ProfileView {
                    following: reader matches Some(m) && m.following,
                    ..bare_article(row@).author
                },
                ..bare_article(row@)
            }),
    {
        let mut article = Article::from(row);
        article.tags = tags;
        article.favorites_count = count_from(favorites);
        if let Some(marks) = reader {
            article.favorited = marks.favorited;
            article.author.following = marks.following;
        }
        article
    }

    /// Decides what becomes of a new article: the complaints where it is not
    /// acceptable, else the slug under which it is to be stored.
    pub fn create(title: &str, description: &str, body: &str, tags: &[&str]) -> (r: Result<
        String,
        Vec<String>,
    >)
        ensures
            match r {
                Ok(slug) => validation_errors(title@, description@, body@, strs_of(tags@)).len()
                    == 0 && slug@ == slug_of(title@),
                Err(errors) => errors@.len() > 0 && strs(errors@) == validation_errors(
                    title@,
                    description@,
                    body@,
                    strs_of(tags@),
                ),
            },
    {
        match Article::validate(title, description, body, tags) {
            Some(errors) => Err(errors),
            None => Ok(Article::slug_from_title(title)),
        }
    }

    /// Decides whether an edited article may be written: the complaints
    /// where it is not acceptable, else `None`.
    pub fn update(title: &str, description: &str, body: &str, tags: &[&str]) -> (r: Option<
        Vec<String>,
    >)
        ensures
            match r {
                Some(errors) => errors@.len() > 0 && strs(errors@) == validation_errors(
                    title@,
                    description@,
                    body@,
                    strs_of(tags@),
                ),
                None => validation_errors(title@, description@, body@, strs_of(tags@)).len() == 0,
            },
    {
        Article::validate(title, description, body, tags)
    }

    /// Reads the outcome of writing an edited article: it is written when
    /// exactly one row changed; otherwise no article with that slug belongs
    /// to the author.
    pub fn updated(rows_affected: u64) -> (r: Result<(), DbError>)
        ensures
            r is Ok <==> rows_affected == 1,
            r is Err ==> r == Err::<(), DbError>(DbError::RowNotFound),
    {
        expect_one_row(rows_affected)
    }

    /// Reads the outcome of deleting an article: it is gone when exactly one
    /// row was removed.
    pub fn delete(rows_affected: u64) -> (r: Result<(), DbError>)
        ensures
            r is Ok <==> rows_affected == 1,
            r is Err ==> r == Err::<(), DbError>(DbError::RowNotFound),
    {
        expect_one_row(rows_affected)
    }

    /// Checks a submitted article. Returns the complaints, or `None` when
    /// there is none.
    pub fn validate(title: &str, description: &str, body: &str, tags: &[&str]) -> (r: Option<
        Vec<String>,
    >)
        ensures
            match r {
                Some(errors) => errors@.len() > 0 && strs(errors@) == validation_errors(
                    title@,
                    description@,
                    body@,
                    strs_of(tags@),
                ),
                None => validation_errors(title@, description@, body@, strs_of(tags@)).len() == 0,
            },
    {
        let mut errors: Vec<String> = Vec::new();
        assert(strs(errors@) == Seq::<Seq<char>>::empty());
        check_field(&mut errors, title, 100, "missing title", "too long title");
        check_field(&mut errors, description, 300, "missing description", "too long description");
        check_field(&mut errors, body, 20000, "missing body", "too long body");

        let mut all_valid = true;
        let mut i: usize = 0;
        while i < tags.len()
            invariant
                i <= tags.len(),
                all_valid == all_tags_valid(strs_of(tags@).take(i as int)),
            decreases tags.len() - i,
        {
            let ok = tag_is_valid(tags[i]);
            proof {
                let done = strs_of(tags@).take(i as int);
                let next = strs_of(tags@).take(i as int + 1);
                assert(next[i as int] == tags@[i as int]@);
                assert(forall|k: int| 0 <= k < i ==> next[k] == done[k]);
                if all_valid && ok {
                    assert(all_tags_valid(next));
                } else if !ok {
                    assert(!valid_tag(next[i as int]));
                } else {
                    let k = choose|k: int| 0 <= k < done.len() && !valid_tag(#[trigger] done[k]);
                    assert(!valid_tag(next[k]));
                }
            }
            all_valid = all_valid && ok;
            i += 1;
        }
        assert(strs_of(tags@).take(tags@.len() as int) == strs_of(tags@));
        let ghost before = strs(errors@);
        if !all_valid {
            errors.push("invalid tag (must be short, lowercase a-z and in kebab-case)".to_owned());
            assert(strs(errors@) == before + tags_error(strs_of(tags@)));
        } else {
            assert(strs(errors@) == before + tags_error(strs_of(tags@)));
        }
        if errors.is_empty() {
            None
        } else {
            Some(errors)
        }
    }
}

/// A row of the tag table: `article` carries `tag`.
pub struct TagRow {
    pub tag: String,
    pub article: String,
}

/// How many members have marked `article` as a favorite.
pub struct FavoriteCountRow {
    pub article: String,
    pub count: i32,
}

/// What the side tables hold, as far as a page of articles needs it: every
/// tag, the number of favorites of every article, and for the reader the
/// slugs of the favorite articles and the names of the followed authors.
pub struct FeedDetails {
    pub tags: Vec<TagRow>,
    pub favorite_counts: Vec<FavoriteCountRow>,
    pub favorited: Vec<String>,
    pub following: Vec<String>,
}

/// The tags of the article `slug`, in the order of the rows.
pub open spec fn tags_of(rows: Seq<TagRow>, slug: Seq<char>) -> Seq<Seq<char>>
    decreases rows.len(),
{
    if rows.len() == 0 {
        Seq::empty()
    } else {
        let init = tags_of(rows.drop_last(), slug);
        if rows.last().article@ == slug {
            init.push(rows.last().tag@)
        } else {
            init
        }
    }
}

/// The count that the last row for the article `slug` gives, if there is a row.
pub open spec fn count_of(rows: Seq<FavoriteCountRow>, slug: Seq<char>) -> Option<i32>
    decreases rows.len(),
{
    if rows.len() == 0 {
        None
    } else if rows.last().article@ == slug {
        Some(rows.last().count)
    } else {
        count_of(rows.drop_last(), slug)
    }
}

/// A count read from the database as a number of favorites or of articles:
/// nothing counts as zero, and the number is reinterpreted as unsigned.
pub open spec fn as_count(n: Option<i32>) -> u32 {
    match n {
        Some(n) => n as u32,
        None => 0,
    }
}

/// The article that `row` stands for on a page shown to `reader`.
pub open spec fn detailed_article(
    row: ArticleRowView,
    reader: Option<Seq<char>>,
    details: FeedDetails,
) -> ArticleView {
    let bare = bare_article(row);
    ArticleView {
        tags: tags_of(details.tags@, row.slug),
        favorites_count: as_count(count_of(details.favorite_counts@, row.slug)),
        favorited: reader is Some && strs(details.favorited@).contains(row.slug),
        author: ProfileView {
            following: reader is Some && strs(details.following@).contains(row.author),
            ..bare.author
        },
        ..bare
    }
}

/// What a reader has to do with an article: whether it is one of the
/// reader's favorites, and whether the reader follows its author.
#[derive(Clone, Copy, Debug)]
pub struct ReaderMarks {
    pub favorited: bool,
    pub following: bool,
}

/// A stranger has no favorites and follows nobody, whatever the side tables
/// hold.
pub proof fn lemma_stranger_sees_no_marks(row: ArticleRowView, details: FeedDetails)
    ensures
        !detailed_article(row, None, details).favorited,
        !detailed_article(row, None, details).author.following,
{
}

/// The unsigned reading of a count.
pub fn count_from(n: Option<i32>) -> (c: u32)
    ensures
        c == as_count(n),
{
    match n {
        Some(n) => #[verifier::truncate]
        (n as u32),
        None => 0,
    }
}

/// Collects the tags of the article `slug`.
pub fn tags_for(rows: &Vec<TagRow>, slug: &str) -> (tags: Vec<String>)
    ensures
        strs(tags@) == tags_of(rows@, slug@),
{
    let mut tags: Vec<String> = Vec::new();
    let mut i: usize = 0;
    assert(rows@.take(0) == Seq::<TagRow>::empty());
    assert(strs(tags@) == Seq::<Seq<char>>::empty());
    while i < rows.len()
        invariant
            i <= rows.len(),
            strs(tags@) == tags_of(rows@.take(i as int), slug@),
        decreases rows.len() - i,
    {
        proof {
            let prefix = rows@.take(i as int + 1);
            assert(prefix.drop_last() == rows@.take(i as int));
            assert(prefix.last() == rows@[i as int]);
        }
        if rows[i].article.as_str().eq(slug) {
            let ghost before = strs(tags@);
            tags.push(rows[i].tag.clone());
            assert(strs(tags@) == before.push(rows@[i as int].tag@));
        }
        i += 1;
    }
    assert(rows@.take(rows@.len() as int) == rows@);
    tags
}

/// Looks up the number of favorites of the article `slug`.
pub fn count_for(rows: &Vec<FavoriteCountRow>, slug: &str) -> (found: Option<i32>)
    ensures
        found == count_of(rows@, slug@),
{
    let mut found: Option<i32> = None;
    let mut i: usize = 0;
    assert(rows@.take(0) == Seq::<FavoriteCountRow>::empty());
    while i < rows.len()
        invariant
            i <= rows.len(),
            found == count_of(rows@.take(i as int), slug@),
        decreases rows.len() - i,
    {
        proof {
            let prefix = rows@.take(i as int + 1);
            assert(prefix.drop_last() == rows@.take(i as int));
            assert(prefix.last() == rows@[i as int]);
        }
        if rows[i].article.as_str().eq(slug) {
            found = Some(rows[i].count);
        }
        i += 1;
    }
    assert(rows@.take(rows@.len() as int) == rows@);
    found
}

/// Whether `name` is one of `names`.
pub fn contains_name(names: &Vec<String>, name: &str) -> (r: bool)
    ensures
        r == strs(names@).contains(name@),
{
    let mut i: usize = 0;
    while i < names.len()
        invariant
            i <= names.len(),
            forall|k: int| 0 <= k < i ==> strs(names@)[k] != name@,
        decreases names.len() - i,
    {
        if names[i].as_str().eq(name) {
            assert(strs(names@)[i as int] == name@);
            return true;
        }
        i += 1;
    }
    false
}

/// Fills in, for each row of a page, what the side tables know of the
/// article: its tags, its number of favorites and, where a reader is known,
/// whether the reader has marked it and follows its author.
pub fn fill_feed_details(
    articles: Vec<ArticleRow>,
    count: u32,
    options: &FeedOptions,
    details: &FeedDetails,
) -> (feed: Feed)
    ensures
        feed@.count == count,
        feed@.articles.len() == articles@.len(),
        forall|i: int|
            0 <= i < articles@.len() ==> #[trigger] feed@.articles[i] == detailed_article(
                articles@[i]@,
                opt_view(options.user),
                *details,
            ),
{
    let ghost rows = articles@;
    let known = options.user.is_some();
    let mut out: Vec<Article> = Vec::new();
    for row in it: articles
        invariant
            it.seq() == rows,
            known == (options.user is Some),
            out@.len() == it.index(),
            forall|i: int|
                0 <= i < it.index() ==> (#[trigger] out@[i])@ == detailed_article(
                    rows[i]@,
                    opt_view(options.user),
                    *details,
                ),
    {
        let ghost row_view = row@;
        let mut article = Article::from(row);
        article.tags = tags_for(&details.tags, article.slug.as_str());
        article.favorites_count = count_from(
            count_for(&details.favorite_counts, article.slug.as_str()),
        );
        article.favorited = known && contains_name(&details.favorited, article.slug.as_str());
        article.author.following = known && contains_name(
            &details.following,
            article.author.username.as_str(),
        );
        assert(article@ == detailed_article(row_view, opt_view(options.user), *details));
        out.push(article);
    }
    Feed { articles: out, count }
}

/// The two statements that fetch one page of a feed, with what is bound
/// to their placeholders: `bind` (where the feed has a subject) comes first
/// in both, and the page statement then takes `limit` and `offset`.
pub struct FeedQuery {
    pub count_sql: String,
    pub page_sql: String,
    pub bind: Option<String>,
    pub limit: u8,
    pub offset: u32,
}

/// The statement that counts the articles of a feed, up to its filter.
pub open spec fn count_head() -> Seq<char> {
    "select count(*) from article join user on article.author = user.username "@
}

/// The statement that lists the articles of a feed, up to its filter.
pub open spec fn page_head() -> Seq<char> {
    "select article.*, user.bio, user.image from article join user on article.author = user.username "@
}

/// What follows the filter in the statement that lists the articles: newest
/// first, one page.
pub open spec fn page_tail() -> Seq<char> {
    " order by article.created_at desc limit ? offset ?"@
}

/// The filter of the feed of the authors that a member follows.
pub open spec fn following_filter() -> Seq<char> {
    "where article.author in (select followed from follow where follower = ?)"@
}

/// The filter of the feed of one author.
pub open spec fn author_filter() -> Seq<char> {
    "where article.author = ?"@
}

/// The filter of the feed of a member's favorites.
pub open spec fn favorites_filter() -> Seq<char> {
    "where article.slug in (select article from favorite where user = ?)"@
}

/// The filter of the feed of one tag.
pub open spec fn tag_filter() -> Seq<char> {
    "where article.slug in (select article from tag where tag = ?)"@
}

/// Whether `q` fetches the page that `options` asks for of the feed that
/// `filter` selects, with `bind` for the filter's placeholder.
pub open spec fn is_feed_query(
    q: FeedQuery,
    filter: Seq<char>,
    bind: Option<Seq<char>>,
    options: FeedOptions,
) -> bool {
    &&& q.count_sql@ == count_head() + filter
    &&& q.page_sql@ == page_head() + filter + page_tail()
    &&& opt_view(q.bind) == bind
    &&& q.limit == options.limit
    &&& q.offset == options.offset
}

/// Puts the two statements of a feed together around its filter.
fn feed_query(filter: &str, bind: Option<&str>, options: &FeedOptions) -> (q: FeedQuery)
    ensures
        is_feed_query(
            q,
            filter@,
            match bind {
                Some(b) => Some(b@),
                None => None,
            },
            *options,
        ),
{
    let count_sql = str_concat(
        "select count(*) from article join user on article.author = user.username ",
        filter,
    );
    let mut page_sql = str_concat(
        "select article.*, user.bio, user.image from article join user on article.author = user.username ",
        filter,
    );
    page_sql.append(" order by article.created_at desc limit ? offset ?");
    let bind = match bind {
        Some(b) => Some(b.to_owned()),
        None => None,
    };
    FeedQuery { count_sql, page_sql, bind, limit: options.limit, offset: options.offset }
}

impl Feed {
    /// The articles of the authors that `user` follows.
    pub fn feed(user: &str, options: &FeedOptions) -> (q: FeedQuery)
        ensures
            is_feed_query(q, following_filter(), Some(user@), *options),
    {
        feed_query(
            "where article.author in (select followed from follow where follower = ?)",
            Some(user),
            options,
        )
    }

    /// Every article.
    pub fn global(options: &FeedOptions) -> (q: FeedQuery)
        ensures
            is_feed_query(q, Seq::empty(), None, *options),
    {
        proof {
            reveal_strlit("");
        }
        assert(""@ == Seq::<char>::empty());
        feed_query("", None, options)
    }

    /// The articles that `user` wrote.
    pub fn by_author(user: &str, options: &FeedOptions) -> (q: FeedQuery)
        ensures
            is_feed_query(q, author_filter(), Some(user@), *options),
    {
        feed_query("where article.author = ?", Some(user), options)
    }

    /// The articles that `user` has marked as favorites.
    pub fn favorited(user: &str, options: &FeedOptions) -> (q: FeedQuery)
        ensures
            is_feed_query(q, favorites_filter(), Some(user@), *options),
    {
        feed_query(
            "where article.slug in (select article from favorite where user = ?)",
            Some(user),
            options,
        )
    }

    /// The articles that carry `tag`.
    pub fn tag(tag: &str, options: &FeedOptions) -> (q: FeedQuery)
        ensures
            is_feed_query(q, tag_filter(), Some(tag@), *options),
    {
        feed_query(
            "where article.slug in (select article from tag where tag = ?)",
            Some(tag),
            options,
        )
    }
}

/// The characters that a slug is made of: ASCII small letters, digits and
/// dashes.
pub open spec fn is_slug_char(c: char) -> bool {
    is_ascii_lower(c) || crate::text::is_ascii_digit(c) || c == '-'
}

/// Whether `s` is made of slug characters alone.
pub open spec fn all_slug_chars(s: Seq<char>) -> bool {
    forall|i: int| 0 <= i < s.len() ==> is_slug_char(#[trigger] s[i])
}

/// What a title contributes to its slug is made of slug characters.
proof fn lemma_slug_chars(title: Seq<char>)
    ensures
        all_slug_chars(slug_chars(title)),
    decreases title.len(),
{
    if title.len() > 0 {
        lemma_slug_chars(title.drop_last());
        let init = slug_chars(title.drop_last());
        assert forall|i: int| 0 <= i < slug_chars(title).len() implies is_slug_char(
            #[trigger] slug_chars(title)[i],
        ) by {
            if i < init.len() {
                assert(slug_chars(title)[i] == init[i]);
            }
        }
    }
}

/// Skipping the leading dashes leaves an end of the sequence that does not
/// begin with a dash.
proof fn lemma_skip_dashes(s: Seq<char>)
    ensures
        skip_dashes(s).len() <= s.len(),
        skip_dashes(s) == s.skip(s.len() - skip_dashes(s).len()),
        skip_dashes(s).len() > 0 ==> skip_dashes(s)[0] != '-',
    decreases s.len(),
{
    if s.len() > 0 && s[0] == '-' {
        lemma_skip_dashes(s.drop_first());
        let rest = s.drop_first();
        assert(rest.skip(rest.len() - skip_dashes(rest).len()) == s.skip(
            s.len() - skip_dashes(rest).len(),
        ));
    } else {
        assert(s.skip(0) == s);
    }
}

/// A slug can stand in an address: it is made of ASCII small letters,
/// digits and dashes, and neither begins nor ends with a dash.
pub proof fn lemma_slug_shape(title: Seq<char>)
    ensures
        all_slug_chars(slug_of(title)),
        slug_of(title).len() > 0 ==> slug_of(title)[0] != '-' && slug_of(title).last() != '-',
{
    let kept = slug_chars(title);
    let stem = skip_dashes(kept);
    lemma_slug_chars(title);
    lemma_skip_dashes(kept);
    assert forall|i: int| 0 <= i < stem.len() implies is_slug_char(#[trigger] stem[i]) by {
        assert(stem[i] == kept[kept.len() - stem.len() + i]);
    }
    if stem.len() > 0 && stem.last() == '-' {
        assert forall|i: int| 0 <= i < slug_of(title).len() implies is_slug_char(
            #[trigger] slug_of(title)[i],
        ) by {
            if i < stem.len() {
                assert(slug_of(title)[i] == stem[i]);
            }
        }
        assert(slug_of(title)[0] == stem[0]);
    }
}

/// Whether a required text field is filled in and within its limit.
pub open spec fn field_ok(text: Seq<char>, limit: nat) -> bool {
    text.len() > 0 && utf8_len(text) <= limit
}

/// An article is acceptable exactly when its title, description and body
/// are filled in and within their limits of 100, 300 and 20000 bytes, and
/// each of its tags is valid. There are never more than four complaints.
pub proof fn lemma_acceptable(
    title: Seq<char>,
    description: Seq<char>,
    body: Seq<char>,
    tags: Seq<Seq<char>>,
)
    ensures
        validation_errors(title, description, body, tags).len() == 0 <==> field_ok(title, 100)
            && field_ok(description, 300) && field_ok(body, 20000) && all_tags_valid(tags),
        validation_errors(title, description, body, tags).len() <= 4,
{
}

/// Kebab case said of the characters: the tag is not empty, is made of
/// ASCII small letters and dashes, neither begins nor ends with a dash, and
/// has no two dashes in a row.
pub open spec fn is_plain_kebab(tag: Seq<char>) -> bool {
    &&& tag.len() > 0
    &&& forall|i: int| 0 <= i < tag.len() ==> is_ascii_lower(#[trigger] tag[i]) || tag[i] == '-'
    &&& tag[0] != '-'
    &&& tag.last() != '-'
    &&& forall|i: int| 0 <= i < tag.len() - 1 ==> !(#[trigger] tag[i] == '-' && tag[i + 1] == '-')
}

/// What holds of the beginning of a tag in kebab case: every word but the
/// last is complete, and the last is made of small letters so far.
spec fn kebab_so_far(pieces: Seq<Seq<char>>) -> bool {
    &&& pieces.len() >= 1
    &&& forall|i: int| 0 <= i < pieces.len() - 1 ==> is_lower_word(#[trigger] pieces[i])
    &&& forall|j: int| 0 <= j < pieces.last().len() ==> is_ascii_lower(#[trigger] pieces.last()[j])
}

/// The same of the characters: small letters and dashes, no dash at the
/// beginning and no two dashes in a row.
spec fn plain_so_far(s: Seq<char>) -> bool {
    &&& forall|i: int| 0 <= i < s.len() ==> is_ascii_lower(#[trigger] s[i]) || s[i] == '-'
    &&& s.len() > 0 ==> s[0] != '-'
    &&& forall|i: int| 0 <= i < s.len() - 1 ==> !(#[trigger] s[i] == '-' && s[i + 1] == '-')
}

/// The two descriptions of the beginning of a tag agree, and the last word
/// is empty exactly at the beginning and after a dash.
proof fn lemma_kebab_so_far(s: Seq<char>)
    ensures
        split_on(s, '-').len() >= 1,
        split_on(s, '-').last().len() == 0 <==> (s.len() == 0 || s.last() == '-'),
        kebab_so_far(split_on(s, '-')) <==> plain_so_far(s),
    decreases s.len(),
{
    let pieces = split_on(s, '-');
    if s.len() == 0 {
        assert(pieces == seq![Seq::<char>::empty()]);
    } else {
        let t = s.drop_last();
        let c = s.last();
        let before = split_on(t, '-');
        lemma_kebab_so_far(t);
        assert(forall|i: int| 0 <= i < t.len() ==> t[i] == s[i]);
        if c == '-' {
            assert(pieces == before.push(Seq::empty()));
            if kebab_so_far(pieces) {
                assert forall|i: int| 0 <= i < before.len() - 1 implies is_lower_word(
                    #[trigger] before[i],
                ) by {
                    assert(before[i] == pieces[i]);
                }
                assert(before.last() == pieces[before.len() - 1]);
                assert(is_lower_word(before.last()));
                assert(kebab_so_far(before));
                assert(plain_so_far(t));
                assert(t.len() > 0 && t.last() != '-');
                assert(s[0] == t[0]);
                assert forall|i: int| 0 <= i < s.len() - 1 implies !(#[trigger] s[i] == '-' && s[i
                    + 1] == '-') by {
                    if i < t.len() - 1 {
                        assert(t[i] == s[i] && t[i + 1] == s[i + 1]);
                    } else {
                        assert(s[i] == t.last());
                    }
                }
                assert(plain_so_far(s));
            }
            if plain_so_far(s) {
                assert(s[0] != '-');
                assert(t.len() > 0);
                assert(t[0] == s[0]);
                assert forall|i: int| 0 <= i < t.len() - 1 implies !(#[trigger] t[i] == '-' && t[i
                    + 1] == '-') by {
                    assert(t[i] == s[i] && t[i + 1] == s[i + 1]);
                }
                assert(plain_so_far(t));
                assert(kebab_so_far(before));
                assert(!(s[t.len() - 1] == '-' && s[t.len() - 1 + 1] == '-'));
                assert(t.last() != '-');
                assert(before.last().len() > 0);
                assert forall|i: int| 0 <= i < pieces.len() - 1 implies is_lower_word(
                    #[trigger] pieces[i],
                ) by {
                    assert(pieces[i] == before[i]);
                    if i == before.len() - 1 {
                        assert(before[i] == before.last());
                    }
                }
                assert(kebab_so_far(pieces));
            }
        } else {
            let grown = before.last().push(c);
            assert(pieces == before.drop_last().push(grown));
            assert(pieces.last() == grown);
            assert(grown.last() == c);
            if kebab_so_far(pieces) {
                assert forall|i: int| 0 <= i < before.len() - 1 implies is_lower_word(
                    #[trigger] before[i],
                ) by {
                    assert(before[i] == pieces[i]);
                }
                assert forall|j: int| 0 <= j < before.last().len() implies is_ascii_lower(
                    #[trigger] before.last()[j],
                ) by {
                    assert(before.last()[j] == grown[j]);
                }
                assert(kebab_so_far(before));
                assert(plain_so_far(t));
                assert(is_ascii_lower(grown[grown.len() - 1]));
                assert forall|i: int| 0 <= i < s.len() - 1 implies !(#[trigger] s[i] == '-' && s[i
                    + 1] == '-') by {
                    if i < t.len() - 1 {
                        assert(t[i] == s[i] && t[i + 1] == s[i + 1]);
                    }
                }
                if t.len() > 0 {
                    assert(s[0] == t[0]);
                }
                assert(plain_so_far(s));
            }
            if plain_so_far(s) {
                assert(is_ascii_lower(s[s.len() - 1]) || s[s.len() - 1] == '-');
                if t.len() > 0 {
                    assert(t[0] == s[0]);
                }
                assert forall|i: int| 0 <= i < t.len() - 1 implies !(#[trigger] t[i] == '-' && t[i
                    + 1] == '-') by {
                    assert(t[i] == s[i] && t[i + 1] == s[i + 1]);
                }
                assert(plain_so_far(t));
                assert(kebab_so_far(before));
                assert forall|i: int| 0 <= i < pieces.len() - 1 implies is_lower_word(
                    #[trigger] pieces[i],
                ) by {
                    assert(pieces[i] == before[i]);
                }
                assert forall|j: int| 0 <= j < grown.len() implies is_ascii_lower(
                    #[trigger] grown[j],
                ) by {
                    if j < before.last().len() {
                        assert(grown[j] == before.last()[j]);
                    }
                }
                assert(kebab_so_far(pieces));
            }
        }
    }
}

/// Kebab case can be read off the characters: a tag is made of words of
/// small letters joined by single dashes exactly when it is not empty, holds
/// small letters and dashes alone, neither begins nor ends with a dash, and
/// has no two dashes in a row.
pub proof fn lemma_kebab(tag: Seq<char>)
    ensures
        is_kebab(tag) <==> is_plain_kebab(tag),
{
    let pieces = split_on(tag, '-');
    lemma_kebab_so_far(tag);
    if is_kebab(tag) {
        assert(is_lower_word(pieces[pieces.len() - 1]));
        assert(kebab_so_far(pieces));
        assert(is_plain_kebab(tag));
    }
    if is_plain_kebab(tag) {
        assert(plain_so_far(tag));
        assert(kebab_so_far(pieces));
        assert forall|i: int| 0 <= i < pieces.len() implies is_lower_word(#[trigger] pieces[i]) by {
            if i == pieces.len() - 1 {
                assert(pieces[i] == pieces.last());
            }
        }
    }
}

} // verus!
