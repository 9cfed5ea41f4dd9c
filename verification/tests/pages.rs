use gitlab_tokens_exporter::gitlab::pagination::next_page_url;
use gitlab_tokens_exporter::gitlab::OffsetBasedPagination;

const LINKS: &[u8] = b"<https://gl.example.com/api/v4/projects?page=2&per_page=20>; rel=\"next\", \
<https://gl.example.com/api/v4/projects?page=1&per_page=20>; rel=\"first\"";

const LAST: &[u8] = b"<https://gl.example.com/api/v4/projects?page=1&per_page=20>; rel=\"first\"";

#[test]
fn next_link_is_found() {
    assert_eq!(
        next_page_url(Some(LINKS)).as_deref(),
        Some("https://gl.example.com/api/v4/projects?page=2&per_page=20")
    );
}

#[test]
fn no_next_link_ends_the_list() {
    assert_eq!(next_page_url(None), None);
    assert_eq!(next_page_url(Some(LAST)), None);
    assert_eq!(next_page_url(Some(b"")), None);
}

#[test]
fn malformed_link_header_ends_the_list() {
    assert_eq!(next_page_url(Some(b"<https://gl.example.com>; next")), None);
    assert_eq!(next_page_url(Some(b"<https://gl.example.com>")), None);
}

#[test]
fn header_that_is_not_visible_ascii_ends_the_list() {
    let mut bytes = LINKS.to_vec();
    for byte in [0, 10, 31, 127, 128, 255] {
        bytes.push(byte);
        assert_eq!(next_page_url(Some(&bytes)), None, "{byte}");
        bytes.pop();
    }
    for byte in [b'\t', b' '] {
        bytes.push(byte);
        assert!(next_page_url(Some(&bytes)).is_some(), "{byte}");
        bytes.pop();
    }
}

#[test]
fn pages_are_collected_in_order() {
    let mut list: OffsetBasedPagination<u32> = OffsetBasedPagination::new("page1".to_owned());
    assert_eq!(list.next_url(), Some("page1"));
    list.add_page(Some("page2".to_owned()), vec![1, 2]);
    assert_eq!(list.next_url(), Some("page2"));
    list.add_page(Some("page3".to_owned()), vec![]);
    assert_eq!(list.next_url(), Some("page3"));
    list.add_page(None, vec![3]);
    assert_eq!(list.next_url(), None);
    assert_eq!(list.into_items(), vec![1, 2, 3]);
}

#[test]
fn responses_lead_to_the_next_page() {
    let mut list: OffsetBasedPagination<&str> = OffsetBasedPagination::new("first".to_owned());
    list.add_response(Some(LINKS), vec!["a"]);
    assert_eq!(
        list.next_url(),
        Some("https://gl.example.com/api/v4/projects?page=2&per_page=20")
    );
    list.add_response(Some(LAST), vec!["b"]);
    assert_eq!(list.next_url(), None);
    assert_eq!(list.into_items(), vec!["a", "b"]);
}

#[test]
fn list_of_one_page() {
    let mut list: OffsetBasedPagination<u8> = OffsetBasedPagination::new("only".to_owned());
    list.add_response(None, vec![7]);
    assert_eq!(list.next_url(), None);
    assert_eq!(list.into_items(), vec![7]);
}

#[test]
fn list_is_first_page_then_the_rest() {
    let pages: [(&str, Option<&str>, &[u32]); 3] =
        [("u", Some("v"), &[1, 2]), ("v", Some("w"), &[3]), ("w", None, &[4, 5])];
    let get_all = |url: &str| {
        let mut list: OffsetBasedPagination<u32> = OffsetBasedPagination::new(url.to_owned());
        while let Some(current) = list.next_url() {
            let (_, next, items) = pages.iter().find(|page| page.0 == current).unwrap();
            list.add_page(next.map(|next| next.to_owned()), items.to_vec());
        }
        list.into_items()
    };
    let mut expected = vec![1, 2];
    expected.extend(get_all("v"));
    assert_eq!(get_all("u"), expected);
    assert_eq!(expected, vec![1, 2, 3, 4, 5]);
}
