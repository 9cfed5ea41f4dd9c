//! Lists that gitlab hands out page by page.

use reqwest::header::HeaderValue;
use vstd::prelude::*;

verus! {

/// Whether a byte of a header value is a visible ASCII character, a space or a tab.
pub open spec fn is_visible_ascii(b: u8) -> bool {
    32 <= b < 127 || b == 9
}

/// The text of a header value: its bytes as characters, where all of them are visible ASCII.
pub open spec fn header_text(value: Seq<u8>) -> Option<Seq<char>> {
    if forall|i: int| 0 <= i < value.len() ==> is_visible_ascii(#[trigger] value[i]) {
        Some(value.map_values(|b: u8| b as char))
    } else {
        None
    }
}

/// What `parse_link_header::parse_with_rel` finds in the text of a `Link` header: for each
/// relation the raw URI of its link, or `None` where the text cannot be parsed.
pub uninterp spec fn links_by_relation(text: Seq<char>) -> Option<Map<Seq<char>, Seq<char>>>;

/// The URI that a `Link` header gives for a relation: none where the value is not text, cannot
/// be parsed or does not hold the relation.
pub open spec fn link_to(header: Option<Seq<u8>>, relation: Seq<char>) -> Option<Seq<char>> {
    match header {
        Some(value) => match header_text(value) {
            Some(text) => found_link(links_by_relation(text), relation),
            None => None,
        },
        None => None,
    }
}

/// The URI of a relation among the links that were found, if any.
pub open spec fn found_link(
    links: Option<Map<Seq<char>, Seq<char>>>,
    relation: Seq<char>,
) -> Option<Seq<char>> {
    match links {
        Some(links) if links.contains_key(relation) => Some(links[relation]),
        _ => None,
    }
}

/// The view of an optional string.
pub open spec fn optional_text(text: Option<String>) -> Option<Seq<char>> {
    match text {
        Some(text) => Some(text@),
        None => None,
    }
}

/// `HeaderValue::to_str` of reqwest, on the bytes of the value: it gives the bytes as text
/// where all of them are visible ASCII, and fails otherwise. (`HeaderValue::from_bytes` refuses
/// only bytes that are not visible ASCII either.)
#[verifier::external_body]
fn header_to_str(value: &[u8]) -> (text: Option<String>)
    ensures
        optional_text(text) == header_text(value@),
{
    let header = HeaderValue::from_bytes(value).ok()?;
    header.to_str().ok().map(|text| text.to_owned())
}

/// `parse_link_header::parse_with_rel`, and the raw URI that it found for `relation`: none where
/// the text cannot be parsed or no link has that relation.
#[verifier::external_body]
fn parse_link(text: &str, relation: &str) -> (uri: Option<String>)
    ensures
        optional_text(uri) == found_link(links_by_relation(text@), relation@),
{
    let links = parse_link_header::parse_with_rel(text).ok()?;
    links.get(relation).map(|link| link.raw_uri.clone())
}

/// The URL of the next page, from the value of the `Link` header of a page.
///
/// None where there is no such header or it names no next page.
pub fn next_page_url(link_header: Option<&[u8]>) -> (url: Option<String>)
    ensures
        match link_header {
            Some(value) => {
                let readable = forall|i: int|
                    0 <= i < value@.len() ==> (32 <= #[trigger] value@[i] < 127 || value@[i] == 9);
                let links = links_by_relation(Seq::new(value@.len(), |i: int| value@[i] as char));
                if readable && links is Some && links->0.contains_key("next"@) {
                    url matches Some(url) && url@ == links->0["next"@]
                } else {
                    url is None
                }
            },
            None => url is None,
        },
        optional_text(url) == link_to(
            match link_header {
                Some(value) => Some(value@),
                None => None,
            },
            "next"@,
        ),
{
    proof {
        if let Some(value) = link_header {
            law_header_text(value@);
            law_link_is_that_of_the_relation(value@, "next"@);
        }
    }
    match link_header {
        Some(value) => match header_to_str(value) {
            Some(text) => parse_link(text.as_str(), "next"),
            None => None,
        },
        None => None,
    }
}

/// A list as far as it was fetched.
pub struct ListState<T> {
    /// The items of the pages fetched so far, in order
    pub items: Seq<T>,
    /// The URL of the next page, or none where the list is complete
    pub next_url: Option<Seq<char>>,
}

/// A page: its items, and the URL of the page after it, if there is one.
pub struct Page<T> {
    pub items: Seq<T>,
    pub next_url: Option<Seq<char>>,
}

/// The list with one more page: the page's items come last, and its link leads on.
pub open spec fn with_page<T>(list: ListState<T>, page: Page<T>) -> ListState<T> {
    ListState { items: list.items + page.items, next_url: page.next_url }
}

/// A list that gitlab hands out page by page, as far as it was fetched.
///
/// cf <https://docs.gitlab.com/api/rest/#offset-based-pagination>
///
/// Whoever sends the requests fetches [`OffsetBasedPagination::next_url`] as long as there is
/// one, and adds each page.
pub struct OffsetBasedPagination<T> {
    items: Vec<T>,
    next_url: Option<String>,
}

impl<T> View for OffsetBasedPagination<T> {
    type V = ListState<T>;

    closed spec fn view(&self) -> ListState<T> {
        ListState { items: self.items@, next_url: optional_text(self.next_url) }
    }
}

impl<T> OffsetBasedPagination<T> {
    /// A list of which nothing was fetched yet, and whose first page is at `url`.
    pub fn new(url: String) -> (list: OffsetBasedPagination<T>)
        ensures
            list@ == (ListState { items: Seq::<T>::empty(), next_url: Some(url@) }),
    {
        OffsetBasedPagination { items: Vec::new(), next_url: Some(url) }
    }

    /// The URL of the page to fetch next, or none where the list is complete.
    pub fn next_url(&self) -> (url: Option<&str>)
        ensures
            match url {
                Some(url) => self@.next_url == Some(url@),
                None => self@.next_url is None,
            },
    {
        match &self.next_url {
            Some(url) => Some(url.as_str()),
            None => None,
        }
    }

    /// Adds a page: its items, and the URL of the page after it, if there is one.
    pub fn add_page(&mut self, next_url: Option<String>, items: Vec<T>)
        ensures
            final(self)@ == with_page(
                old(self)@,
                Page { items: items@, next_url: optional_text(next_url) },
            ),
            final(self)@.items == old(self)@.items + items@,
            match next_url {
                Some(url) => final(self)@.next_url == Some(url@),
                None => final(self)@.next_url is None,
            },
    {
        let mut items = items;
        self.items.append(&mut items);
        self.next_url = next_url;
    }

    /// Adds a page as it came: the value of its `Link` header, if it had one, and its items.
    pub fn add_response(&mut self, link_header: Option<&[u8]>, items: Vec<T>)
        ensures
            final(self)@ == with_page(
                old(self)@,
                Page {
                    items: items@,
                    next_url: link_to(
                        match link_header {
                            Some(value) => Some(value@),
                            None => None,
                        },
                        "next"@,
                    ),
                },
            ),
    {
        self.add_page(next_page_url(link_header), items);
    }

    /// The items of the pages fetched so far, in order.
    pub fn into_items(self) -> (items: Vec<T>)
        ensures
            items@ == self@.items,
    {
        self.items
    }
}

/// The list with more pages, one after the other.
pub open spec fn with_pages<T>(list: ListState<T>, pages: Seq<Page<T>>) -> ListState<T>
    decreases pages.len(),
{
    if pages.len() == 0 {
        list
    } else {
        with_page(with_pages(list, pages.drop_last()), pages.last())
    }
}

/// The items of all pages, in the order of the pages.
pub open spec fn items_of<T>(pages: Seq<Page<T>>) -> Seq<T>
    decreases pages.len(),
{
    if pages.len() == 0 {
        Seq::empty()
    } else {
        items_of(pages.drop_last()) + pages.last().items
    }
}

/// The list holds the items of all pages that were added, in order, and nothing else.
pub proof fn law_items_of_all_pages_in_order<T>(list: ListState<T>, pages: Seq<Page<T>>)
    ensures
        with_pages(list, pages).items == list.items + items_of(pages),
    decreases pages.len(),
{
    if pages.len() == 0 {
        assert(list.items + items_of(pages) =~= list.items);
    } else {
        law_items_of_all_pages_in_order(list, pages.drop_last());
        assert(with_pages(list, pages).items =~= list.items + items_of(pages));
    }
}

/// The next page to fetch is the one that the last page links to: the list is complete exactly
/// where the last page links to none.
pub proof fn law_last_page_leads_on<T>(list: ListState<T>, pages: Seq<Page<T>>)
    requires
        pages.len() > 0,
    ensures
        with_pages(list, pages).next_url == pages.last().next_url,
{
}

/// A `Link` header with a byte that is not visible ASCII, or none at all, leads to no next page.
pub proof fn law_unreadable_link_ends_list(value: Seq<u8>, relation: Seq<char>)
    requires
        exists|i: int| 0 <= i < value.len() && !is_visible_ascii(#[trigger] value[i]),
    ensures
        link_to(Some(value), relation) is None,
        link_to(None, relation) is None,
{
}

/// What came of fetching a list with at most so many requests.
pub enum Fetched<T> {
    /// All pages were fetched: the items, in order
    Complete(Seq<T>),
    /// A page could not be fetched.
    Failed,
    /// More requests are needed.
    Unfinished,
}

/// Fetches the rest of a list with at most `n` requests, where `server` gives the page at a URL,
/// or none where that page cannot be fetched: the next page is fetched and added as long as
/// there is one.
pub open spec fn get_all<T>(
    server: spec_fn(Seq<char>) -> Option<Page<T>>,
    list: ListState<T>,
    n: nat,
) -> Fetched<T>
    decreases n,
{
    match list.next_url {
        None => Fetched::Complete(list.items),
        Some(url) => if n == 0 {
            Fetched::Unfinished
        } else {
            match server(url) {
                Some(page) => get_all(server, with_page(list, page), (n - 1) as nat),
                None => Fetched::Failed,
            }
        },
    }
}

/// The list whose first page is at `url`, before anything was fetched.
pub open spec fn list_from<T>(url: Seq<char>) -> ListState<T> {
    ListState { items: Seq::empty(), next_url: Some(url) }
}

/// The first `n` pages that follow from `url` by their links, or all of them where there are
/// fewer.
pub open spec fn linked_pages<T>(
    server: spec_fn(Seq<char>) -> Option<Page<T>>,
    url: Option<Seq<char>>,
    n: nat,
) -> Seq<Page<T>>
    decreases n,
{
    match url {
        Some(url) if n > 0 => match server(url) {
            Some(page) => seq![page] + linked_pages(server, page.next_url, (n - 1) as nat),
            None => Seq::empty(),
        },
        _ => Seq::empty(),
    }
}

/// The items of a page come before those of the pages after it.
proof fn lemma_items_of_first_page<T>(first: Page<T>, rest: Seq<Page<T>>)
    ensures
        items_of(seq![first] + rest) == first.items + items_of(rest),
    decreases rest.len(),
{
    let all = seq![first] + rest;
    if rest.len() == 0 {
        assert(all.drop_last() =~= rest);
        assert(all.last() == first);
        assert(items_of(rest) =~= Seq::empty());
        assert(items_of(all) =~= first.items + items_of(rest));
    } else {
        assert(all.drop_last() =~= seq![first] + rest.drop_last());
        lemma_items_of_first_page(first, rest.drop_last());
        assert(items_of(all) =~= first.items + items_of(rest));
    }
}

/// A list that is fetched completely holds the items of the pages that are linked one from the
/// other, from the first page on, in order.
pub proof fn law_list_is_linked_pages<T>(
    server: spec_fn(Seq<char>) -> Option<Page<T>>,
    list: ListState<T>,
    n: nat,
)
    ensures
        get_all(server, list, n) matches Fetched::Complete(items) ==> items == list.items
            + items_of(linked_pages(server, list.next_url, n)),
    decreases n,
{
    if get_all(server, list, n) is Complete {
        if list.next_url is Some {
            let page = server(list.next_url->0)->0;
            let less = (n - 1) as nat;
            law_list_is_linked_pages(server, with_page(list, page), less);
            lemma_items_of_first_page(page, linked_pages(server, page.next_url, less));
            assert(list.items + page.items + items_of(linked_pages(server, page.next_url, less))
                =~= list.items + items_of(linked_pages(server, list.next_url, n)));
        } else {
            assert(list.items + Seq::<T>::empty() =~= list.items);
        }
    }
}

/// Items that are there before come first in the list, and change nothing else.
proof fn lemma_earlier_items_come_first<T>(
    server: spec_fn(Seq<char>) -> Option<Page<T>>,
    earlier: Seq<T>,
    list: ListState<T>,
    n: nat,
)
    ensures
        get_all(server, ListState { items: earlier + list.items, ..list }, n) == match get_all(
            server,
            list,
            n,
        ) {
            Fetched::Complete(items) => Fetched::Complete(earlier + items),
            Fetched::Failed => Fetched::Failed,
            Fetched::Unfinished => Fetched::Unfinished,
        },
    decreases n,
{
    if list.next_url is Some && n > 0 && server(list.next_url->0) is Some {
        let page = server(list.next_url->0)->0;
        lemma_earlier_items_come_first(server, earlier, with_page(list, page), (n - 1) as nat);
        assert(earlier + list.items + page.items =~= earlier + (list.items + page.items));
    }
}

/// The list from a page is the items of that page, followed by the list from the page that it
/// links to. Where that list fails, so does this one, and a page that links to none is the whole
/// list. Where the page itself cannot be fetched, the list fails.
pub proof fn law_list_is_page_then_rest<T>(
    server: spec_fn(Seq<char>) -> Option<Page<T>>,
    url: Seq<char>,
    n: nat,
)
    ensures
        get_all(server, list_from::<T>(url), n + 1) == match server(url) {
            Some(page) => match page.next_url {
                Some(next) => match get_all(server, list_from::<T>(next), n) {
                    Fetched::Complete(rest) => Fetched::Complete(page.items + rest),
                    Fetched::Failed => Fetched::Failed,
                    Fetched::Unfinished => Fetched::Unfinished,
                },
                None => Fetched::Complete(page.items),
            },
            None => Fetched::Failed,
        },
{
    if let Some(page) = server(url) {
        let list = list_from::<T>(url);
        assert(list.items + page.items =~= page.items);
        if let Some(next) = page.next_url {
            assert(page.items + list_from::<T>(next).items =~= page.items);
            lemma_earlier_items_come_first(server, page.items, list_from::<T>(next), n);
        }
    }
}

/// What comes of fetching a list does not depend on how many requests are allowed beyond those
/// that it takes.
pub proof fn law_more_requests_change_nothing<T>(
    server: spec_fn(Seq<char>) -> Option<Page<T>>,
    list: ListState<T>,
    n: nat,
    m: nat,
)
    requires
        n <= m,
        !(get_all(server, list, n) is Unfinished),
    ensures
        get_all(server, list, m) == get_all(server, list, n),
    decreases n,
{
    if list.next_url is Some && server(list.next_url->0) is Some {
        let page = server(list.next_url->0)->0;
        law_more_requests_change_nothing(
            server,
            with_page(list, page),
            (n - 1) as nat,
            (m - 1) as nat,
        );
    }
}

/// A header value is text exactly where each byte is a tab, a space or a visible ASCII
/// character, and the text has the characters with the codes of the bytes.
pub proof fn law_header_text(value: Seq<u8>)
    ensures
        header_text(value) is Some <==> forall|i: int|
            0 <= i < value.len() ==> (32 <= #[trigger] value[i] < 127 || value[i] == 9),
        header_text(value) matches Some(text) ==> text.len() == value.len() && text == Seq::new(
            value.len(),
            |i: int| value[i] as char,
        ),
{
    let visible = forall|i: int|
        0 <= i < value.len() ==> (32 <= #[trigger] value[i] < 127 || value[i] == 9);
    if visible {
        assert forall|i: int| 0 <= i < value.len() implies is_visible_ascii(#[trigger] value[i]) by {
            assert(32 <= value[i] < 127 || value[i] == 9);
        }
        assert(value.map_values(|b: u8| b as char) =~= Seq::new(
            value.len(),
            |i: int| value[i] as char,
        ));
    }
    if header_text(value) is Some {
        assert forall|i: int| 0 <= i < value.len() implies (32 <= #[trigger] value[i] < 127
            || value[i] == 9) by {
            assert(is_visible_ascii(value[i]));
        }
    }
}

/// A header leads to a URI for a relation exactly where its value is text, the text can be
/// parsed into links, and the link of that very relation has that URI. Links of other relations
/// make no difference, and without a header there is none.
pub proof fn law_link_is_that_of_the_relation(value: Seq<u8>, relation: Seq<char>)
    ensures
        link_to(None, relation) is None,
        ({
            let readable = forall|i: int|
                0 <= i < value.len() ==> (32 <= #[trigger] value[i] < 127 || value[i] == 9);
            let links = links_by_relation(Seq::new(value.len(), |i: int| value[i] as char));
            &&& readable && links is Some && links->0.contains_key(relation) ==> link_to(
                Some(value),
                relation,
            ) == Some(links->0[relation])
            &&& !(readable && links is Some && links->0.contains_key(relation)) ==> link_to(
                Some(value),
                relation,
            ) is None
        }),
{
    law_header_text(value);
}

/// A link that was found is that of the relation asked for.
pub proof fn law_found_link(links: Map<Seq<char>, Seq<char>>, relation: Seq<char>)
    ensures
        links.contains_key(relation) ==> found_link(Some(links), relation) == Some(links[relation]),
        !links.contains_key(relation) ==> found_link(Some(links), relation) is None,
        found_link(None, relation) is None,
{
}

/// A page adds exactly its items, behind those that were there, and its link replaces the one
/// that led to it.
pub proof fn law_page_adds_its_items<T>(list: ListState<T>, page: Page<T>, i: int)
    ensures
        with_page(list, page).items.len() == list.items.len() + page.items.len(),
        0 <= i < list.items.len() ==> with_page(list, page).items[i] == list.items[i],
        0 <= i < page.items.len() ==> with_page(list, page).items[list.items.len() + i]
            == page.items[i],
        with_page(list, page).next_url == page.next_url,
{
}

/// The view of an optional string tells whether there is a string, and its characters.
pub proof fn law_optional_text_tells_string(a: Option<String>, b: Option<String>)
    ensures
        optional_text(a) is Some <==> a is Some,
        a matches Some(text) ==> optional_text(a)->0 == text@,
        a is Some && b is Some && optional_text(a) == optional_text(b) ==> a->0@ == b->0@,
{
}

} // verus!
