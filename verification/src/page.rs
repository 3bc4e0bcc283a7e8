//! One page of a directory answer, and the cursor that follows the links
//! from page to page.

use crate::user::{User, UserView};
use vstd::prelude::*;

verus! {

/// One answer of the directory: users in the order given, and the link to
/// the next page where there is one.
#[derive(Clone, Debug, PartialEq, Eq)]
pub struct UsersResponse {
    pub value: Vec<User>,
    pub next_link: Option<String>,
}

/// A page as plain values.
pub struct PageView {
    pub records: Seq<UserView>,
    pub next: Option<Seq<char>>,
}

impl View for UsersResponse {
    type V = PageView;

    open spec fn view(&self) -> PageView {
        PageView { records: self.value.deep_view(), next: self.next_link.deep_view() }
    }
}

impl DeepView for UsersResponse {
    type V = PageView;

    open spec fn deep_view(&self) -> PageView {
        self@
    }
}

/// Where a cursor stands after it was given `page` as the answer to its
/// pending query. It goes on to the page's link; a page without users or
/// without a link ends it. A cursor at its end stays there.
pub open spec fn after_page(cursor: Option<Seq<char>>, page: PageView) -> Option<Seq<char>> {
    if cursor is Some && page.records.len() > 0 {
        page.next
    } else {
        None
    }
}

/// The users that a cursor hands on from `page`: all of them, unless the
/// cursor was at its end already.
pub open spec fn yielded(cursor: Option<Seq<char>>, page: PageView) -> Seq<UserView> {
    if cursor is Some {
        page.records
    } else {
        Seq::empty()
    }
}

/// What a cursor has done once it ran over a list of answers: the queries it
/// sent, one per fetch, and the users it handed on.
pub struct Drained {
    pub queries: Seq<Seq<char>>,
    pub records: Seq<UserView>,
}

/// Runs a cursor over the answers that the directory gives to its queries,
/// one after the other, until the cursor is at its end or the answers are
/// used up.
pub open spec fn drain(cursor: Option<Seq<char>>, pages: Seq<PageView>) -> Drained
    decreases pages.len(),
{
    if cursor is None || pages.len() == 0 {
        Drained { queries: Seq::empty(), records: Seq::empty() }
    } else {
        let rest = drain(after_page(cursor, pages[0]), pages.drop_first());
        Drained {
            queries: seq![cursor->0] + rest.queries,
            records: yielded(cursor, pages[0]) + rest.records,
        }
    }
}

/// The users of all pages, in page order and within a page in its order.
pub open spec fn all_records(pages: Seq<PageView>) -> Seq<UserView>
    decreases pages.len(),
{
    if pages.len() == 0 {
        Seq::empty()
    } else {
        pages[0].records + all_records(pages.drop_first())
    }
}

/// Over pages of which all but the last name a next page and hold users, and
/// the last names none, a cursor fetches once per page, sends first its own
/// query and then each page's link, and hands on the users of all pages in
/// order.
pub proof fn law_cursor_reads_every_page(query: Seq<char>, pages: Seq<PageView>)
    requires
        pages.len() >= 1,
        forall|i: int|
            0 <= i < pages.len() - 1 ==> (#[trigger] pages[i]).next is Some
                && pages[i].records.len() > 0,
        pages.last().next is None,
    ensures
        drain(Some(query), pages).queries.len() == pages.len(),
        drain(Some(query), pages).queries[0] == query,
        forall|i: int|
            0 < i < pages.len() ==> #[trigger] drain(Some(query), pages).queries[i] == pages[i
                - 1].next->0,
        drain(Some(query), pages).records == all_records(pages),
    decreases pages.len(),
{
    let rest = pages.drop_first();
    if pages.len() == 1 {
        assert(drain(after_page(Some(query), pages[0]), rest).queries.len() == 0);
        assert(all_records(rest) =~= Seq::<UserView>::empty());
    } else {
        let link = pages[0].next->0;
        assert forall|i: int| 0 <= i < rest.len() - 1 implies (#[trigger] rest[i]).next is Some
            && rest[i].records.len() > 0 by {
            assert(rest[i] == pages[i + 1]);
        }
        law_cursor_reads_every_page(link, rest);
        let tail = drain(Some(link), rest);
        assert forall|i: int| 0 < i < pages.len() implies #[trigger] drain(
            Some(query),
            pages,
        ).queries[i] == pages[i - 1].next->0 by {
            assert(drain(Some(query), pages).queries[i] == tail.queries[i - 1]);
            if i > 1 {
                assert(rest[i - 2] == pages[i - 1]);
            }
        }
    }
}

/// A page without users ends the cursor at once, whether or not the page
/// names a next one: one fetch, no users, whatever answers would follow.
pub proof fn law_empty_page_ends_cursor(query: Seq<char>, pages: Seq<PageView>)
    requires
        pages.len() >= 1,
        pages[0].records.len() == 0,
    ensures
        drain(Some(query), pages).queries == seq![query],
        drain(Some(query), pages).records == Seq::<UserView>::empty(),
{
    let rest = drain(after_page(Some(query), pages[0]), pages.drop_first());
    assert(rest.queries.len() == 0);
    assert(drain(Some(query), pages).queries =~= seq![query]);
    assert(drain(Some(query), pages).records =~= Seq::<UserView>::empty());
}

/// Follows the links of one query's pages. It holds the query to send next,
/// and nothing once it is at its end.
#[derive(Clone, Debug, PartialEq, Eq)]
pub struct Cursor {
    next: Option<String>,
}

impl View for Cursor {
    type V = Option<Seq<char>>;

    closed spec fn view(&self) -> Option<Seq<char>> {
        self.next.deep_view()
    }
}

impl Cursor {
    /// A cursor that has `query` to send.
    pub fn new(query: String) -> (cursor: Cursor)
        ensures
            cursor@ == Some(query@),
    {
        Cursor { next: Some(query) }
    }

    /// The query to send next, if the cursor is not at its end.
    pub fn pending(&self) -> (r: Option<&str>)
        ensures
            r.deep_view() == self@,
    {
        match &self.next {
            Some(query) => Some(query.as_str()),
            None => None,
        }
    }

    /// Whether the cursor is at its end.
    pub fn is_exhausted(&self) -> (r: bool)
        ensures
            r == (self@ is None),
    {
        self.next.is_none()
    }

    /// Takes the answer to the pending query and hands on its users.
    pub fn accept(&mut self, page: UsersResponse) -> (records: Vec<User>)
        ensures
            final(self)@ == after_page(old(self)@, page@),
            records.deep_view() == yielded(old(self)@, page@),
    {
        let UsersResponse { value, next_link } = page;
        if self.next.is_none() {
            return Vec::new();
        }
        if value.len() == 0 {
            self.next = None;
        } else {
            self.next = next_link;
        }
        value
    }
}

} // verus!
