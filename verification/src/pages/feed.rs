//! Feeds as the pages ask for them: which feed, which page of it, and the
//! links that lead from one page to the others.

use crate::auth::AuthError;
use crate::models::article::{
    author_filter, favorites_filter, following_filter, is_feed_query, tag_filter, Feed,
    FeedOptions, FeedQuery,
};
use crate::models::user::opt_view;
use crate::number::{decimal, lemma_decimal_parses, parse_number, parse_unsigned, push_decimal};
use vstd::prelude::*;
use vstd::string::StringExecFns;

verus! {

/// The feeds that a page can show.
#[derive(Clone, Debug)]
pub enum FeedKind {
    /// The articles of the authors that the reader follows.
    Feed,
    /// Every article.
    Global,
    /// The articles of one author.
    By(String),
    /// The favorites of one member.
    Favorited(String),
    /// The articles that carry one tag.
    Tag(String),
}

/// The mathematical value of a [`FeedKind`].
pub enum FeedKindView {
    Feed,
    Global,
    By(Seq<char>),
    Favorited(Seq<char>),
    Tag(Seq<char>),
}

impl View for FeedKind {
    type V = FeedKindView;

    open spec fn view(&self) -> FeedKindView {
        match *self {
            FeedKind::Feed => FeedKindView::Feed,
            FeedKind::Global => FeedKindView::Global,
            FeedKind::By(user) => FeedKindView::By(user@),
            FeedKind::Favorited(user) => FeedKindView::Favorited(user@),
            FeedKind::Tag(tag) => FeedKindView::Tag(tag@),
        }
    }
}

impl PartialEq for FeedKind {
    fn eq(&self, other: &FeedKind) -> (r: bool) {
        match (self, other) {
            (FeedKind::Feed, FeedKind::Feed) => true,
            (FeedKind::Global, FeedKind::Global) => true,
            (FeedKind::By(a), FeedKind::By(b)) => *a == *b,
            (FeedKind::Favorited(a), FeedKind::Favorited(b)) => *a == *b,
            (FeedKind::Tag(a), FeedKind::Tag(b)) => *a == *b,
            _ => false,
        }
    }
}

impl vstd::std_specs::cmp::PartialEqSpecImpl for FeedKind {
    open spec fn obeys_eq_spec() -> bool {
        true
    }

    open spec fn eq_spec(&self, other: &FeedKind) -> bool {
        self@ == other@
    }
}

impl Eq for FeedKind {

}

/// A page of a feed: how many articles to skip and how many to show. A page
/// always shows at least one article.
#[derive(Clone, Copy, Debug)]
pub struct Page {
    offset: u32,
    limit: u8,
}

/// The page that a query string asks for. A missing or unreadable offset
/// counts as 0; a missing, unreadable or zero limit as 10.
pub open spec fn page_of_query(offset: Option<Seq<char>>, limit: Option<Seq<char>>) -> (u32, u8) {
    (
        match offset {
            Some(s) => match parse_unsigned(s, u32::MAX as nat) {
                Some(n) => n as u32,
                None => 0,
            },
            None => 0,
        },
        match limit {
            Some(s) => match parse_unsigned(s, u8::MAX as nat) {
                Some(n) => if n > 0 {
                    n as u8
                } else {
                    10
                },
                None => 10,
            },
            None => 10,
        },
    )
}

impl Page {
    #[verifier::type_invariant]
    spec fn shows_something(self) -> bool {
        self.limit > 0
    }

    /// The number of articles that come before the page.
    pub closed spec fn offset_of(self) -> u32 {
        self.offset
    }

    /// The number of articles on the page.
    pub closed spec fn limit_of(self) -> u8 {
        self.limit
    }

    /// The page of `limit` articles after the first `offset`; there is none
    /// of no articles.
    pub fn new(offset: u32, limit: u8) -> (page: Option<Page>)
        ensures
            match page {
                Some(p) => limit > 0 && p.offset_of() == offset && p.limit_of() == limit,
                None => limit == 0,
            },
    {
        if limit > 0 {
            Some(Page { offset, limit })
        } else {
            None
        }
    }

    /// The number of articles that come before the page.
    pub fn offset(&self) -> (n: u32)
        ensures
            n == self.offset_of(),
    {
        self.offset
    }

    /// The number of articles on the page, which is not zero.
    pub fn limit(&self) -> (n: u8)
        ensures
            n == self.limit_of(),
            n > 0,
    {
        proof {
            use_type_invariant(self);
        }
        self.limit
    }

    /// The page that a query string asks for, given the values of its
    /// `offset` and `limit` parameters.
    pub fn from_query(offset: Option<&str>, limit: Option<&str>) -> (page: Page)
        ensures
            (page.offset_of(), page.limit_of()) == page_of_query(
                match offset {
                    Some(s) => Some(s@),
                    None => None,
                },
                match limit {
                    Some(s) => Some(s@),
                    None => None,
                },
            ),
    {
        let offset: u32 = match offset {
            Some(s) => match parse_number(s, u32::MAX) {
                Some(n) => n,
                None => 0,
            },
            None => 0,
        };
        let limit: u8 = match limit {
            Some(s) => match parse_number(s, 255) {
                Some(n) => if n > 0 {
                    n as u8
                } else {
                    10
                },
                None => 10,
            },
            None => 10,
        };
        Page { offset, limit }
    }
}

/// A link to one page of a feed.
pub struct PageLink {
    /// The number shown on the link; the first page is number 1.
    pub number: u64,
    /// The query string that asks for the page.
    pub href: String,
    /// Whether the page is the one being shown.
    pub active: bool,
}

/// The mathematical value of a [`PageLink`].
pub struct PageLinkView {
    pub number: u64,
    pub href: Seq<char>,
    pub active: bool,
}

impl View for PageLink {
    type V = PageLinkView;

    open spec fn view(&self) -> PageLinkView {
        PageLinkView { number: self.number, href: self.href@, active: self.active }
    }
}

/// The query string that asks for the page of `limit` articles after the
/// first `start`.
pub open spec fn page_href(start: nat, limit: nat) -> Seq<char> {
    "?offset="@ + decimal(start) + "&limit="@ + decimal(limit)
}

/// The link to the page that begins at `start`, when the page that begins at
/// `offset` is shown: it is active when `offset` lies on it.
pub open spec fn page_link(number: nat, start: nat, offset: nat, limit: nat) -> PageLinkView {
    PageLinkView {
        number: number as u64,
        href: page_href(start, limit),
        active: start <= offset < start + limit,
    }
}

/// The links to the pages that begin at `start`, `start + limit`, and so on
/// below `count`, numbered from `number`.
pub open spec fn page_links_from(
    number: nat,
    start: nat,
    offset: nat,
    limit: nat,
    count: nat,
) -> Seq<PageLinkView>
    decreases
        (if start < count {
            count - start
        } else {
            0
        }),
{
    if start >= count || limit == 0 {
        Seq::empty()
    } else {
        seq![page_link(number, start, offset, limit)] + page_links_from(
            number + 1,
            start + limit,
            offset,
            limit,
            count,
        )
    }
}

/// The links under a feed of `count` articles: one to each page, in order.
pub open spec fn page_links_of(offset: nat, limit: nat, count: nat) -> Seq<PageLinkView> {
    page_links_from(1, 0, offset, limit, count)
}

/// The views of a sequence of links.
pub open spec fn link_views(links: Seq<PageLink>) -> Seq<PageLinkView> {
    links.map_values(|l: PageLink| l@)
}

/// The links under a feed of `count` articles of which `page` is shown.
pub fn page_links(page: Page, count: u32) -> (links: Vec<PageLink>)
    ensures
        link_views(links@) == page_links_of(
            page.offset_of() as nat,
            page.limit_of() as nat,
            count as nat,
        ),
{
    let offset = page.offset();
    let limit = page.limit();
    let mut links: Vec<PageLink> = Vec::new();
    let mut start: u64 = 0;
    let mut number: u64 = 1;
    assert(link_views(links@) == Seq::<PageLinkView>::empty());
    while start < count as u64
        invariant
            limit > 0,
            number >= 1,
            number - 1 <= start,
            start < count + limit,
            page_links_of(offset as nat, limit as nat, count as nat) == link_views(links@)
                + page_links_from(
                number as nat,
                start as nat,
                offset as nat,
                limit as nat,
                count as nat,
            ),
        decreases count + limit - start,
    {
        let mut href = "?offset=".to_owned();
        push_decimal(&mut href, start as u32);
        href.append("&limit=");
        push_decimal(&mut href, limit as u32);
        let active = start <= offset as u64 && (offset as u64) < start + limit as u64;
        let link = PageLink { number, href, active };
        assert(link@ == page_link(number as nat, start as nat, offset as nat, limit as nat));
        let ghost before = link_views(links@);
        let ghost rest = page_links_from(
            (number + 1) as nat,
            (start + limit) as nat,
            offset as nat,
            limit as nat,
            count as nat,
        );
        links.push(link);
        assert(link_views(links@) == before.push(link@));
        assert(before + (seq![link@] + rest) == before.push(link@) + rest);
        start = start + limit as u64;
        number = number + 1;
    }
    links
}

/// What fetching a page of a feed takes: the options to fill in the
/// articles with, and the statements to run.
pub struct FeedPlan {
    pub options: FeedOptions,
    pub query: FeedQuery,
}

/// The filter of a feed and what is bound to its placeholder, or `None`
/// where the feed cannot be shown: the feed of followed authors needs a
/// reader.
pub open spec fn feed_filter(kind: FeedKindView, reader: Option<Seq<char>>) -> Option<
    (Seq<char>, Option<Seq<char>>),
> {
    match kind {
        FeedKindView::Feed => match reader {
            Some(user) => Some((following_filter(), Some(user))),
            None => None,
        },
        FeedKindView::Global => Some((Seq::empty(), None)),
        FeedKindView::By(user) => Some((author_filter(), Some(user))),
        FeedKindView::Favorited(user) => Some((favorites_filter(), Some(user))),
        FeedKindView::Tag(tag) => Some((tag_filter(), Some(tag))),
    }
}

/// Plans the fetching of one page of a feed for `reader`.
pub fn get_feed(kind: FeedKind, page: Page, reader: Option<String>) -> (r: Result<
    FeedPlan,
    AuthError,
>)
    ensures
        match feed_filter(kind@, opt_view(reader)) {
            Some((filter, bind)) => r matches Ok(plan) && plan.options.user == reader
                && plan.options.offset == page.offset_of() && plan.options.limit
                == page.limit_of() && is_feed_query(plan.query, filter, bind, plan.options),
            None => r matches Err(e) && e == AuthError::NotLoggedIn,
        },
{
    let options = FeedOptions { user: reader, offset: page.offset(), limit: page.limit() };
    let query = match kind {
        FeedKind::Feed => {
            match &options.user {
                Some(user) => Feed::feed(user.as_str(), &options),
                None => {
                    return Err(AuthError::NotLoggedIn);
                },
            }
        },
        FeedKind::Global => Feed::global(&options),
        FeedKind::By(user) => Feed::by_author(user.as_str(), &options),
        FeedKind::Favorited(user) => Feed::favorited(user.as_str(), &options),
        FeedKind::Tag(tag) => Feed::tag(tag.as_str(), &options),
    };
    Ok(FeedPlan { options, query })
}

/// The links from `start` on: how many there are, and which page each
/// leads to.
proof fn lemma_links_from(number: nat, start: nat, offset: nat, limit: nat, count: nat)
    requires
        limit > 0,
    ensures
        start >= count ==> page_links_from(number, start, offset, limit, count).len() == 0,
        start < count ==> {
            let n = page_links_from(number, start, offset, limit, count).len();
            n > 0 && start + (n - 1) * limit < count <= start + n * limit
        },
        forall|k: int|
            0 <= k < page_links_from(number, start, offset, limit, count).len()
                ==> #[trigger] page_links_from(number, start, offset, limit, count)[k] == page_link(
                (number + k) as nat,
                (start + k * limit) as nat,
                offset,
                limit,
            ),
    decreases
        (if start < count {
            count - start
        } else {
            0
        }),
{
    if start < count {
        let links = page_links_from(number, start, offset, limit, count);
        let rest = page_links_from(number + 1, start + limit, offset, limit, count);
        lemma_links_from(number + 1, start + limit, offset, limit, count);
        let r = rest.len() as int;
        assert(links.len() == r + 1);
        assert((r + 1) * limit == r * limit + limit) by (nonlinear_arith);
        assert((r - 1) * limit + limit == r * limit) by (nonlinear_arith);
        assert forall|k: int| 0 <= k < links.len() implies #[trigger] links[k] == page_link(
            (number + k) as nat,
            (start + k * limit) as nat,
            offset,
            limit,
        ) by {
            if k > 0 {
                assert(links[k] == rest[k - 1]);
                assert((k - 1) * limit + limit == k * limit) by (nonlinear_arith);
            } else {
                assert(0 * limit == 0);
            }
        }
    }
}

/// The links under a feed. There is one for every page that holds an
/// article: none under an empty feed, and else as many as it takes pages of
/// `limit` articles to hold `count`. The link number `k + 1` leads to the
/// page that begins after `k` full pages, and no two links are active.
pub proof fn lemma_page_links(offset: nat, limit: nat, count: nat)
    requires
        limit > 0,
    ensures
        count == 0 <==> page_links_of(offset, limit, count).len() == 0,
        count > 0 ==> {
            let n = page_links_of(offset, limit, count).len();
            (n - 1) * limit < count <= n * limit
        },
        forall|k: int|
            0 <= k < page_links_of(offset, limit, count).len() ==> #[trigger] page_links_of(
                offset,
                limit,
                count,
            )[k] == page_link((k + 1) as nat, (k * limit) as nat, offset, limit),
        forall|j: int, k: int|
            0 <= j < page_links_of(offset, limit, count).len() && 0 <= k < page_links_of(
                offset,
                limit,
                count,
            ).len() && (#[trigger] page_links_of(offset, limit, count)[j]).active
                && (#[trigger] page_links_of(offset, limit, count)[k]).active ==> j == k,
{
    lemma_links_from(1, 0, offset, limit, count);
    let links = page_links_of(offset, limit, count);
    assert forall|j: int, k: int|
        0 <= j < links.len() && 0 <= k < links.len() && (#[trigger] links[j]).active && (
        #[trigger] links[k]).active implies j == k by {
        if j < k {
            assert((j + 1) * limit <= k * limit) by (nonlinear_arith)
                requires
                    j + 1 <= k,
                    limit > 0,
            ;
            assert((j + 1) * limit == j * limit + limit) by (nonlinear_arith);
        }
        if k < j {
            assert((k + 1) * limit <= j * limit) by (nonlinear_arith)
                requires
                    k + 1 <= j,
                    limit > 0,
            ;
            assert((k + 1) * limit == k * limit + limit) by (nonlinear_arith);
        }
    }
}

/// Following a link gives the page that the link stands for: read as a
/// query string, the address of the page of `limit` articles after the
/// first `start` asks for that page.
pub proof fn lemma_link_leads_to_its_page(start: nat, limit: nat)
    requires
        start <= u32::MAX,
        0 < limit <= u8::MAX,
    ensures
        page_of_query(Some(decimal(start)), Some(decimal(limit))) == (start as u32, limit as u8),
{
    lemma_decimal_parses(start, u32::MAX as nat);
    lemma_decimal_parses(limit, u8::MAX as nat);
}

} // verus!
