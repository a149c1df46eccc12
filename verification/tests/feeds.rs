use fb2s::opds::{render_feed, format_feed, Entry, Feed};

fn s(x: &str) -> String {
    String::from(x)
}

#[test]
fn entry_id_is_root_and_link_with_colons() {
    let e = Entry::new(s("Поиск"), s("/opds/authors/mask"));
    assert_eq!(e.id, "root:opds:authors:mask");
    assert_eq!(e.title, "Поиск");
    assert_eq!(e.link, "/opds/authors/mask");
}

#[test]
fn feed_add_appends_entries() {
    let mut feed = Feed::new(s("Catalog"));
    assert!(feed.entries.is_empty());
    feed.add(s("a"), s("/x"));
    feed.add(s("b"), s("/y/z"));
    assert_eq!(feed.title, "Catalog");
    assert_eq!(feed.entries.len(), 2);
    assert_eq!(feed.entries[1].id, "root:y:z");
}

#[test]
fn render_feed_writes_the_atom_document() {
    let mut feed = Feed::new(s("Books & <co>"));
    feed.add(s("\"Quoted\" 'name'"), s("/opds/a&b"));
    let xml = render_feed(&feed, "2024-01-02T03:04:05Z");
    assert_eq!(
        xml,
        [
            "<?xml version=\"1.0\" encoding=\"utf-8\"?>",
            "<feed xmlns=\"http://www.w3.org/2005/Atom\" xmlns:dc=\"http://purl.org/dc/terms/\" ",
            "xmlns:os=\"http://a9.com/-/spec/opensearch/1.1/\" xmlns:opds=\"http://opds-spec.org/2010/catalog\">",
            "<title>Books &amp; &lt;co&gt;</title>",
            "<updated>2024-01-02T03:04:05Z</updated>",
            "<link href=\"/opds\" rel=\"/start\" type=\"application/atom+xml;profile=opds-catalog\"/>",
            "<entry><id>root:opds:a&amp;b</id><title>&quot;Quoted&quot; &apos;name&apos;</title>",
            "<link href=\"/opds/a&amp;b\" type=\"application/atom+xml;profile=opds-catalog\"/></entry>",
            "</feed>",
        ]
        .concat()
    );
}

#[test]
fn attribute_values_escape_line_breaks_and_tabs() {
    let mut feed = Feed::new(s("t"));
    feed.add(s("a\tb"), s("/x\ty\nz"));
    let xml = render_feed(&feed, "u");
    assert!(xml.contains("<title>a\tb</title>"));
    assert!(xml.contains("<link href=\"/x&#9;y&#10;z\""));
}

#[test]
fn format_feed_stamps_the_document() {
    let mut feed = Feed::new(s("Root"));
    feed.add(s("Поиск"), s("/opds/authors"));
    let xml = format_feed(feed);
    assert!(xml.starts_with("<?xml version=\"1.0\" encoding=\"utf-8\"?><feed "));
    assert!(xml.contains("<title>Root</title><updated>"));
    assert!(xml.contains("<entry><id>root:opds:authors</id><title>Поиск</title>"));
    assert!(xml.ends_with("</entry></feed>"));
}

#[test]
fn the_update_stamp_is_a_utc_time() {
    let xml = format_feed(Feed::new(s("t")));
    let start = xml.find("<updated>").unwrap() + "<updated>".len();
    let end = xml.find("</updated>").unwrap();
    let stamp = &xml[start..end];
    assert!(stamp.ends_with('Z'));
    assert!(stamp.contains('T'));
}
