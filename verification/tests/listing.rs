use fetchpool::Link;
use fetchpool::collect_links;
use fetchpool::contains_link;
use fetchpool::dedup_links;
use fetchpool::filter_present;
use fetchpool::pair_links;

fn link(url: &str, name: &str) -> Link {
    Link { url: String::from(url), name: String::from(name) }
}

#[test]
fn gallery_markup_yields_both_links() {
    let markup = "<html><body><div class=\"nidb-album\">\
        <a href=\"http://x/a.jpg\">first</a><p><strong>A</strong></p>\
        <a href=\"http://x/b.jpg\">second</a><p><strong>B</strong></p>\
        </div></body></html>";
    let links = collect_links(markup).unwrap();
    assert_eq!(links.len(), 2);
    assert_eq!(links[0], link("http://x/a.jpg", "A"));
    assert_eq!(links[1], link("http://x/b.jpg", "B"));
}

#[test]
fn markup_without_gallery_yields_no_links() {
    let markup = "<html><body><a href=\"http://x/a.jpg\">loose</a></body></html>";
    let links = collect_links(markup).unwrap();
    assert_eq!(links.len(), 0);
}

#[test]
fn repeated_anchor_is_collected_once() {
    let markup = "<div class=\"nidb-album\">\
        <a href=\"http://x/a.jpg\">one</a><p><strong>A</strong></p>\
        <a href=\"http://x/a.jpg\">two</a><p><strong>A</strong></p>\
        <a href=\"http://x/b.jpg\">three</a><p><strong>B</strong></p>\
        </div>";
    let links = collect_links(markup).unwrap();
    assert_eq!(links.len(), 2);
    assert_eq!(links[0], link("http://x/a.jpg", "A"));
    assert_eq!(links[1], link("http://x/b.jpg", "B"));
}

#[test]
fn anchor_without_href_is_skipped() {
    let markup = "<div class=\"nidb-album\">\
        <a>nameless</a><a href=\"http://x/a.jpg\">one</a>\
        <p><strong>A</strong></p><p><strong>B</strong></p>\
        </div>";
    let links = collect_links(markup).unwrap();
    // The anchor without a URL yields nothing; pairing stops at the
    // shorter sequence, so only one link remains.
    assert_eq!(links.len(), 1);
    assert_eq!(links[0], link("http://x/a.jpg", "A"));
}

#[test]
fn pairing_stops_at_shorter_sequence() {
    let urls = vec![String::from("u1"), String::from("u2"), String::from("u3")];
    let names = vec![String::from("n1"), String::from("n2")];
    let links = pair_links(urls, names);
    assert_eq!(links.len(), 2);
    assert_eq!(links[0], link("u1", "n1"));
    assert_eq!(links[1], link("u2", "n2"));
}

#[test]
fn filtering_keeps_only_present_strings() {
    let items = vec![Some(String::from("a")), None, Some(String::from("b")), None];
    let kept = filter_present(items);
    assert_eq!(kept, vec![String::from("a"), String::from("b")]);
}

#[test]
fn dedup_keeps_first_occurrences() {
    let links = vec![link("u1", "n1"), link("u2", "n2"), link("u1", "n1"), link("u1", "n3")];
    let unique = dedup_links(links);
    assert_eq!(unique.len(), 3);
    assert_eq!(unique[0], link("u1", "n1"));
    assert_eq!(unique[1], link("u2", "n2"));
    assert_eq!(unique[2], link("u1", "n3"));
}

#[test]
fn membership_is_by_url_and_name() {
    let links = vec![link("u1", "n1"), link("u2", "n2")];
    assert!(contains_link(&links, &link("u2", "n2")));
    assert!(!contains_link(&links, &link("u2", "n1")));
    assert!(!contains_link(&links, &link("u3", "n3")));
}
