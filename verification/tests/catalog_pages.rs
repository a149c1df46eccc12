use fb2s::catalog::{
    add_author_entries, add_serie_entries, author_books_feed, author_root, author_series_feed,
    books_by_date_feed, books_by_title_feed, books_in_serie_feed, catalog_root,
    favorite_authors_feed, genre_authors_feed, genre_root, genre_series_feed, genres_feed,
    not_implemented, serie_books_feed, serie_root,
};
use fb2s::database::{Author, BookDesc, BookSerie, Serie, Value};
use fb2s::impls::Sort;
use fb2s::opds::Feed;
use fb2s::utils::encode;

fn s(x: &str) -> String {
    String::from(x)
}

fn titles(f: &Feed) -> Vec<&str> {
    f.entries.iter().map(|e| e.title.as_str()).collect()
}

fn links(f: &Feed) -> Vec<&str> {
    f.entries.iter().map(|e| e.link.as_str()).collect()
}

fn author(ids: (u32, u32, u32), first: &str, middle: &str, last: &str) -> Author {
    Author {
        first_name: Value::new(ids.0, s(first)),
        middle_name: Value::new(ids.1, s(middle)),
        last_name: Value::new(ids.2, s(last)),
    }
}

fn book(id: u32, num: u32, name: &str, date: &str) -> BookDesc {
    BookDesc { id, num, name: s(name), size: 100, date: s(date) }
}

fn serie_book(id: u32, num: u32, name: &str, date: &str, author: &str) -> BookSerie {
    BookSerie { id, num, name: s(name), size: 100, date: s(date), author: s(author) }
}

#[test]
fn the_root_offers_the_four_searches() {
    let f = catalog_root();
    assert_eq!(f.title, "Catalog Root");
    assert_eq!(
        titles(&f),
        vec!["Поиск книг по авторам", "Поиск книг по сериям", "Поиск книг по жанрам", "Любимые авторы "]
    );
    assert_eq!(links(&f), vec!["/opds/authors", "/opds/series", "/opds/meta", "/opds/favorites"]);
    assert_eq!(f.entries[0].id, "root:opds:authors");
}

#[test]
fn unfinished_pages_say_so() {
    let f = not_implemented();
    assert_eq!(f.title, "Not Implemented");
    assert_eq!(titles(&f), vec!["Пока не работает"]);
    assert_eq!(links(&f), vec!["/opds/nimpl"]);
}

#[test]
fn an_author_page_offers_the_book_listings() {
    let f = author_root(29, 38, 4);
    assert_eq!(f.title, "Книги автора");
    assert_eq!(
        titles(&f),
        vec![
            "Книги по сериям",
            "Книги без серий",
            "Книги по жанрам",
            "Книги по алфавиту",
            "Книги по дате поступления"
        ]
    );
    assert_eq!(
        links(&f),
        vec![
            "/opds/author/series/29/38/4",
            "/opds/author/nonserie/books/29/38/4",
            "/opds/nimpl",
            "/opds/author/alphabet/books/29/38/4",
            "/opds/author/added/books/29/38/4"
        ]
    );
}

#[test]
fn a_serie_page_offers_three_orders() {
    let f = serie_root(131);
    assert_eq!(f.title, "Книги в серии");
    assert_eq!(
        titles(&f),
        vec!["Книги по номеру в серии", "Книги по алфавиту", "Книги по дате поступления"]
    );
    assert_eq!(
        links(&f),
        vec![
            "/opds/serie/books/131/numbered",
            "/opds/serie/books/131/alphabet",
            "/opds/serie/books/131/added"
        ]
    );
}

#[test]
fn a_genre_page_decodes_its_name() {
    let f = genre_root(encode(s("Фантастика")));
    assert_eq!(f.title, "Книги в жанре 'Фантастика'");
    assert_eq!(titles(&f), vec!["По авторам...", "По сериям...", "По дате (not impl)..."]);
    let code = "0KTQsNC90YLQsNGB0YLQuNC60LA=";
    assert_eq!(
        links(&f),
        vec![
            format!("/opds/genre/authors/{code}"),
            format!("/opds/genre/series/{code}"),
            format!("/opds/genre/date/{code}")
        ]
    );
}

#[test]
fn a_genre_page_with_a_bad_name_shows_the_error() {
    let f = genre_root(s("a*b="));
    assert_eq!(f.title, "Книги в жанре 'Invalid symbol 42, offset 1.'");
    assert_eq!(f.entries.len(), 3);
}

#[test]
fn genres_are_listed_in_the_order_given() {
    let f = genres_feed(s("Жанры"), s("/opds/genres"), vec![s("Фантастика"), s("Дом и семья")]);
    assert_eq!(f.title, "Жанры");
    assert_eq!(titles(&f), vec!["Фантастика", "Дом и семья"]);
    assert_eq!(links(&f), vec!["/opds/genres/Фантастика", "/opds/genres/Дом и семья"]);
    assert!(genres_feed(s("t"), s("/r"), Vec::new()).entries.is_empty());
}

#[test]
fn the_series_of_a_genre_are_sorted_by_name() {
    let series = vec![
        Serie { id: 5, name: s("Куница"), count: 3 },
        Serie { id: 9, name: s("Zeta"), count: 1 },
        Serie { id: 7, name: s("Атлант"), count: 12 },
    ];
    let f = genre_series_feed(s("Киберпанк"), series);
    assert_eq!(f.title, "Киберпанк");
    assert_eq!(titles(&f), vec!["Атлант [12 книг]", "Куница [3 книг]", "Zeta [1 книг]"]);
    assert_eq!(links(&f), vec!["/opds/serie/id/7", "/opds/serie/id/5", "/opds/serie/id/9"]);
}

#[test]
fn the_authors_of_a_genre_are_sorted_by_first_name() {
    let authors = vec![
        author((3, 1, 8), "Сергей", "Григорьевич", "Иванов"),
        author((1, 2, 8), "Петр", "Константинович", "Иванов"),
        author((4, 1, 9), "Петр", "", "Барчук"),
    ];
    let f = genre_authors_feed(s("Альтернативная история"), authors);
    assert_eq!(f.title, "Альтернативная история");
    assert_eq!(
        titles(&f),
        vec!["Иванов Петр Константинович", "Барчук Петр ", "Иванов Сергей Григорьевич"]
    );
    assert_eq!(
        links(&f),
        vec!["/opds/author/id/1/2/8", "/opds/author/id/4/1/9", "/opds/author/id/3/1/8"]
    );
}

#[test]
fn favorite_authors_keep_their_order() {
    let authors = vec![
        author((3, 1, 8), "Сергей", "Григорьевич", "Иванов"),
        author((1, 2, 8), "Петр", "Константинович", "Иванов"),
    ];
    let f = favorite_authors_feed(authors);
    assert_eq!(f.title, "Favorites");
    assert_eq!(titles(&f), vec!["Иванов Сергей Григорьевич", "Иванов Петр Константинович"]);
    assert_eq!(links(&f), vec!["/opds/author/id/3/1/8", "/opds/author/id/1/2/8"]);
}

#[test]
fn author_and_serie_entries_are_added_sorted() {
    let mut f = Feed::new(s("Поиск"));
    add_author_entries(&mut f, vec![author((2, 0, 1), "Б", "", "Х"), author((1, 0, 1), "А", "", "Х")]);
    add_serie_entries(&mut f, vec![Value::new(109, s("Куница")), Value::new(3, s("Алые"))]);
    assert_eq!(f.title, "Поиск");
    assert_eq!(titles(&f), vec!["Х А ", "Х Б ", "Алые", "Куница"]);
    assert_eq!(
        links(&f),
        vec!["/opds/author/id/1/0/1", "/opds/author/id/2/0/1", "/opds/serie/id/3", "/opds/serie/id/109"]
    );
}

#[test]
fn the_series_of_an_author_end_with_a_link_back() {
    let series = vec![
        Serie { id: 12, name: s("Не время для героев"), count: 4 },
        Serie { id: 3, name: s("Агент"), count: 2 },
    ];
    let f = author_series_feed(s("Илья  Соломенный"), 29, 38, 4, Some(series));
    assert_eq!(f.title, "Илья  Соломенный");
    assert_eq!(
        titles(&f),
        vec!["Агент [2 книг]", "Не время для героев [4 книг]", "Илья  Соломенный"]
    );
    assert_eq!(
        links(&f),
        vec![
            "/opds/author/serie/books/29/38/4/3",
            "/opds/author/serie/books/29/38/4/12",
            "/opds/author/id/29/38/4"
        ]
    );
    let empty = author_series_feed(s("Илья  Соломенный"), 29, 38, 4, None);
    assert_eq!(empty.title, "Илья  Соломенный");
    assert!(empty.entries.is_empty());
}

fn some_books() -> Vec<BookDesc> {
    vec![
        book(749846, 2, "Византийский букварь", "2023-02-23"),
        book(749845, 1, "Святая Земля", "2023-02-25"),
        book(749847, 1, "Апокрифы", "2023-02-24"),
    ]
}

#[test]
fn books_in_a_serie_go_by_number_then_title() {
    let f = books_in_serie_feed(some_books());
    assert_eq!(f.title, "Книги");
    assert_eq!(
        titles(&f),
        vec![
            "1 - Апокрифы (2023-02-24)",
            "1 - Святая Земля (2023-02-25)",
            "2 - Византийский букварь (2023-02-23)"
        ]
    );
    assert_eq!(links(&f), vec!["/opds/book/749847", "/opds/book/749845", "/opds/book/749846"]);
}

#[test]
fn books_in_a_serie_with_one_title_go_by_date() {
    let f = books_in_serie_feed(vec![book(2, 1, "A", "2023-03-01"), book(1, 1, "A", "2023-01-01")]);
    assert_eq!(links(&f), vec!["/opds/book/1", "/opds/book/2"]);
}

#[test]
fn books_by_title_and_by_date() {
    let f = books_by_title_feed(some_books());
    assert_eq!(
        titles(&f),
        vec![
            "1 - Апокрифы (2023-02-24)",
            "2 - Византийский букварь (2023-02-23)",
            "1 - Святая Земля (2023-02-25)"
        ]
    );
    let f = books_by_date_feed(some_books());
    assert_eq!(f.title, "Книги");
    assert_eq!(links(&f), vec!["/opds/book/749845", "/opds/book/749847", "/opds/book/749846"]);
}

#[test]
fn author_books_are_listed_as_the_sort_says() {
    let f = author_books_feed(some_books(), Sort::BySerie(7));
    assert_eq!(f.title, "Книги");
    assert_eq!(
        titles(&f),
        vec![
            "2 - Византийский букварь (2023-02-23)",
            "1 - Святая Земля (2023-02-25)",
            "1 - Апокрифы (2023-02-24)"
        ]
    );
    let f = author_books_feed(some_books(), Sort::NoSerie);
    assert_eq!(
        titles(&f),
        vec!["Апокрифы (2023-02-24)", "Византийский букварь (2023-02-23)", "Святая Земля (2023-02-25)"]
    );
    let f = author_books_feed(some_books(), Sort::Alphabet);
    assert_eq!(links(&f), vec!["/opds/book/749847", "/opds/book/749846", "/opds/book/749845"]);
    let f = author_books_feed(some_books(), Sort::Added);
    assert_eq!(
        titles(&f),
        vec!["Святая Земля (2023-02-25)", "Апокрифы (2023-02-24)", "Византийский букварь (2023-02-23)"]
    );
    let f = author_books_feed(some_books(), Sort::ByGenre(1));
    assert_eq!(f.title, "Книги");
    assert!(f.entries.is_empty());
}

fn serie_books() -> Vec<BookSerie> {
    vec![
        serie_book(813219, 6, "Город драконов. Книга шестая", "2023-02-24", "Елена  Звездная"),
        serie_book(749883, 2, "Город драконов. Книга вторая", "2023-02-26", "Елена  Звездная"),
        serie_book(749880, 1, "Город драконов", "2023-02-22", "Елена  Звездная"),
    ]
}

#[test]
fn serie_books_are_listed_in_the_named_order() {
    let f = serie_books_feed(serie_books(), &s("numbered"));
    assert_eq!(f.title, "Книги в серии");
    assert_eq!(
        titles(&f),
        vec![
            "1 Город драконов - Елена  Звездная (2023-02-22)",
            "2 Город драконов. Книга вторая - Елена  Звездная (2023-02-26)",
            "6 Город драконов. Книга шестая - Елена  Звездная (2023-02-24)"
        ]
    );
    let f = serie_books_feed(serie_books(), &s("alphabet"));
    assert_eq!(links(&f), vec!["/opds/book/749880", "/opds/book/749883", "/opds/book/813219"]);
    let f = serie_books_feed(serie_books(), &s("added"));
    assert_eq!(links(&f), vec!["/opds/book/749880", "/opds/book/813219", "/opds/book/749883"]);
    let f = serie_books_feed(serie_books(), &s("anything"));
    assert_eq!(links(&f), vec!["/opds/book/813219", "/opds/book/749883", "/opds/book/749880"]);
}

#[test]
fn an_author_search_page_lists_exact_names_then_prefixes() {
    let found = vec![
        vec![
            author((3, 1, 8), "Сергей", "Григорьевич", "Бау"),
            author((1, 2, 8), "Петр", "", "Бау"),
        ],
        vec![author((5, 0, 9), "Анна", "", "Бауэр")],
    ];
    let f = catalog_matches_authors(found);
    assert_eq!(f.title, "Поиск книг по авторам");
    assert_eq!(titles(&f), vec!["Бау Петр ", "Бау Сергей Григорьевич", "Бауэр Анна ", "Баун...", "Бауэ..."]);
    assert_eq!(
        links(&f),
        vec![
            "/opds/author/id/1/2/8",
            "/opds/author/id/3/1/8",
            "/opds/author/id/5/0/9",
            "/opds/authors/mask/0JHQsNGD0L0=",
            "/opds/authors/mask/0JHQsNGD0Y0="
        ]
    );
}

fn catalog_matches_authors(found: Vec<Vec<Author>>) -> Feed {
    fb2s::catalog::author_matches_feed(
        s("Поиск книг по авторам"),
        found,
        vec![s("Бауэ"), s("Баун")],
        s("/opds/authors/mask"),
    )
}

#[test]
fn a_serie_search_page_lists_exact_names_then_prefixes() {
    let found = vec![vec![Value::new(109, s("Куница")), Value::new(3, s("Куница"))]];
    let f = fb2s::catalog::serie_matches_feed(s("Серии"), found, vec![s("Кунц")], s("/opds/series/mask"));
    assert_eq!(f.title, "Серии");
    assert_eq!(titles(&f), vec!["Куница", "Куница", "Кунц..."]);
    assert_eq!(links(&f), vec!["/opds/serie/id/109", "/opds/serie/id/3", "/opds/series/mask/0JrRg9C90YY="]);
    let empty = fb2s::catalog::serie_matches_feed(s("Серии"), Vec::new(), Vec::new(), s("/r"));
    assert!(empty.entries.is_empty());
}
