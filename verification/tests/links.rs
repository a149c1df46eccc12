use fb2s::impls::{add_to_feed, fill_feed_from, href_label, href_link, make_feed_from, FeedSrc};
use fb2s::opds::Feed;
use fb2s::utils::decode;

fn s(x: &str) -> String {
    String::from(x)
}

#[test]
fn href_label_appends_an_ellipsis() {
    assert_eq!(href_label(&s("Бау")), "Бау...");
    assert_eq!(href_label(&s("")), "...");
}

#[test]
fn href_link_encodes_the_prefix() {
    assert_eq!(href_link(&s("/opds/authors/mask"), &s("foo")), "/opds/authors/mask/Zm9v");
    assert_eq!(href_link(&s("/opds/series/mask"), &s("Бау")), "/opds/series/mask/0JHQsNGD");
    assert_eq!(href_link(&s(""), &s("")), "/");
}

#[test]
fn link_segment_decodes_back_to_the_prefix() {
    let root = s("/opds/authors/mask");
    for prefix in ["Бау", "Баун", "a b/c", ""] {
        let link = href_link(&root, &s(prefix));
        let segment = &link[root.len() + 1..];
        assert!(matches!(decode(s(segment)), Ok(ref d) if d == prefix));
    }
}

#[test]
fn add_to_feed_appends_one_entry() {
    let mut feed = Feed::new(s("Серии"));
    feed.add(s("first"), s("/first"));
    add_to_feed(FeedSrc::new(s("Бау"), s("/opds/series/mask"), s("Бау")), &mut feed);
    assert_eq!(feed.title, "Серии");
    assert_eq!(feed.entries.len(), 2);
    assert_eq!(feed.entries[0].title, "first");
    let e = &feed.entries[1];
    assert_eq!(e.title, "Бау...");
    assert_eq!(e.link, "/opds/series/mask/0JHQsNGD");
    assert_eq!(e.id, "root:opds:series:mask:0JHQsNGD");
}

#[test]
fn add_to_feed_labels_and_links_separately() {
    let mut feed = Feed::new(s("t"));
    add_to_feed(FeedSrc::new(s("label"), s("/root"), s("foo")), &mut feed);
    assert_eq!(feed.entries[0].title, "label...");
    assert_eq!(feed.entries[0].link, "/root/Zm9v");
}

#[test]
fn fill_feed_from_sorts_and_skips_empty_lines() {
    let mut feed = Feed::new(s("Авторы"));
    fill_feed_from(vec![s("Бауэ"), s(""), s("b"), s("Баун")], s("/opds/authors/mask"), &mut feed);
    let titles: Vec<&str> = feed.entries.iter().map(|e| e.title.as_str()).collect();
    assert_eq!(titles, vec!["Баун...", "Бауэ...", "b..."]);
    assert_eq!(feed.entries[0].link, "/opds/authors/mask/0JHQsNGD0L0=");
    assert_eq!(feed.entries[1].link, "/opds/authors/mask/0JHQsNGD0Y0=");
    assert_eq!(feed.entries[2].link, "/opds/authors/mask/Yg==");
}

#[test]
fn fill_feed_from_keeps_existing_entries() {
    let mut feed = Feed::new(s("t"));
    feed.add(s("x"), s("/x"));
    fill_feed_from(Vec::new(), s("/r"), &mut feed);
    assert_eq!(feed.entries.len(), 1);
    fill_feed_from(vec![s("")], s("/r"), &mut feed);
    assert_eq!(feed.entries.len(), 1);
}

#[test]
fn make_feed_from_builds_a_titled_feed() {
    let lines: Result<Vec<String>, String> = Ok(vec![s("Ан"), s("Ал")]);
    let feed = make_feed_from(lines, s("Поиск"), s("/opds/authors/mask")).unwrap();
    assert_eq!(feed.title, "Поиск");
    assert_eq!(feed.entries.len(), 2);
    assert_eq!(feed.entries[0].title, "Ал...");
    assert_eq!(feed.entries[1].title, "Ан...");
}

#[test]
fn make_feed_from_passes_the_error_on() {
    let lines: Result<Vec<String>, String> = Err(s("no database"));
    match make_feed_from(lines, s("Поиск"), s("/opds")) {
        Err(e) => assert_eq!(e, "no database"),
        Ok(_) => panic!("expected the error"),
    }
}
