use fb2s::opds::{
    authors_by_id_feed, authors_by_mask_feed, authors_query, authors_root_feed,
    last_name_id_query, patterns_query, Author,
};
use fb2s::sql::{
    AUTHORS_BY_LAST_NAME_ID_HEAD, AUTHORS_BY_LAST_NAME_ID_TAIL, LAST_NAME_ID_HEAD,
    LAST_NAME_ID_TAIL, PATTERNS_HEAD, PATTERNS_MIDDLE, PATTERNS_TAIL,
};

fn s(x: &str) -> String {
    String::from(x)
}

#[test]
fn the_authors_root_lists_prefixes_shortest_first() {
    let f = authors_root_feed(vec![s("Ив"), s(""), s("А"), s("Б")]);
    assert_eq!(f.title, "Поиск книг по авторам");
    let titles: Vec<&str> = f.entries.iter().map(|e| e.title.as_str()).collect();
    assert_eq!(titles, vec!["Авторы на 'А'", "Авторы на 'Б'", "Авторы на 'Ив'"]);
    assert_eq!(f.entries[2].link, "/opds/authors/Ив");
    assert_eq!(f.entries[2].id, "root:opds:authors:Ив");
}

#[test]
fn a_prefix_page_starts_with_the_exact_name() {
    let f = authors_by_mask_feed(&s("Ив"), Some(54), vec![s("Ива"), s("Ив"), s("Иво")]);
    assert_eq!(f.title, "Поиск книг по авторам");
    let titles: Vec<&str> = f.entries.iter().map(|e| e.title.as_str()).collect();
    assert_eq!(titles, vec!["Авторы 'Ив' - 54", "Авторы на 'Ива'", "Авторы на 'Иво'"]);
    assert_eq!(f.entries[0].link, "/opds/author/54");
    let f = authors_by_mask_feed(&s("Ив"), None, vec![s("Ива")]);
    assert_eq!(f.entries.len(), 1);
    assert_eq!(f.entries[0].link, "/opds/authors/Ива");
}

#[test]
fn authors_with_one_last_name_keep_their_order() {
    let authors = vec![
        Author {
            first_id: 10,
            middle_id: 18,
            last_id: 99,
            first_name: s("Сергей"),
            middle_name: s("Григорьевич"),
            last_name: s("Иванов"),
        },
        Author {
            first_id: 54,
            middle_id: 18,
            last_id: 99,
            first_name: s("Петр"),
            middle_name: s("Константинович"),
            last_name: s("Иванов"),
        },
    ];
    let f = authors_by_id_feed(authors);
    let titles: Vec<&str> = f.entries.iter().map(|e| e.title.as_str()).collect();
    assert_eq!(titles, vec!["Сергей Григорьевич Иванов", "Петр Константинович Иванов"]);
    assert_eq!(f.entries[1].link, "/opds/author/54/18/99");
}

#[test]
fn first_catalog_queries_splice_their_arguments() {
    assert_eq!(last_name_id_query(&s("Иванов")), [LAST_NAME_ID_HEAD, "Иванов", LAST_NAME_ID_TAIL].concat());
    assert_eq!(
        patterns_query(&s("Ив")),
        [PATTERNS_HEAD, "3", PATTERNS_MIDDLE, "Ив", PATTERNS_TAIL].concat()
    );
    assert_eq!(patterns_query(&s("")), [PATTERNS_HEAD, "1", PATTERNS_MIDDLE, PATTERNS_TAIL].concat());
    assert_eq!(authors_query(99), [AUTHORS_BY_LAST_NAME_ID_HEAD, "99", AUTHORS_BY_LAST_NAME_ID_TAIL].concat());
}

#[test]
fn the_first_root_offers_three_searches() {
    let f = fb2s::opds::root_feed();
    assert_eq!(f.title, "Catalog Root");
    let links: Vec<&str> = f.entries.iter().map(|e| e.link.as_str()).collect();
    assert_eq!(links, vec!["/opds/authors", "/opds/series", "/opds/genres"]);
    assert_eq!(f.entries[2].title, "Поиск книг по жанрам");
    assert_eq!(f.entries[2].id, "root:opds:genres");
}
