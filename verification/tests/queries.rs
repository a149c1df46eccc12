use fb2s::database::{
    favorite_authors_query, AuthorFullName, AuthorIds, AuthorsByLastName,
    AuthorsNameByGenreStartsWith, AuthorsNameStartsWith, BooksByAuthor, BooksBySerieId,
    BooksFilter, GenresByMeta, QueryProvider, SeriesByAuthor, SeriesByName,
    SeriesNameByGenreStartsWith, SeriesNameStartsWith,
};
use fb2s::sql::{
    BOOKS_BY_AUTHOR_HEAD, BOOKS_BY_AUTHOR_TAIL, FAVORITE_AUTHORS_HEAD, FAVORITE_AUTHORS_TAIL,
    SERIES_BY_AUTHOR_HEAD, SERIES_BY_AUTHOR_TAIL,
};

fn s(x: &str) -> String {
    String::from(x)
}

#[test]
fn prefix_queries_bind_length_and_pattern() {
    assert_eq!(
        AuthorsNameStartsWith::new().query(),
        "SELECT DISTINCT substr(value, 1, $1) AS name FROM last_names WHERE value LIKE $2 || '%'"
    );
    assert_eq!(
        SeriesNameStartsWith::new().query(),
        "SELECT DISTINCT substr(value, 1, $1) AS name FROM series WHERE value LIKE $2 || '%'"
    );
}

#[test]
fn genres_by_meta_splices_the_meta_name() {
    assert_eq!(
        GenresByMeta::new(&s("Фантастика")).query(),
        "SELECT DISTINCT genre FROM genres_def WHERE meta = 'Фантастика' ORDER BY 1;"
    );
}

#[test]
fn series_by_name_splices_the_name() {
    assert_eq!(
        SeriesByName::new(&s("Куница")).query(),
        "SELECT DISTINCT id, value FROM series WHERE value = 'Куница'"
    );
}

#[test]
fn authors_by_last_name_splices_the_name() {
    let q = AuthorsByLastName::new(&s("Иванов")).query();
    assert!(q.contains("last_names.id = (SELECT id FROM last_names WHERE value = 'Иванов')"));
    assert!(q.trim_start().starts_with("SELECT DISTINCT"));
    assert!(q.contains("AND last_names.id = last_name_id"));
}

#[test]
fn genre_prefix_queries_splice_the_genre() {
    let q = AuthorsNameByGenreStartsWith::new(&s("Киберпанк")).query();
    assert!(q.contains("WHERE genres_def.genre = 'Киберпанк' AND last_names.value LIKE $2 || '%'"));
    let q = SeriesNameByGenreStartsWith::new(&s("Киберпанк")).query();
    assert!(q.contains("WHERE genres_def.genre = 'Киберпанк' AND series.value LIKE $2 || '%'"));
}

#[test]
fn books_by_serie_id_ends_with_the_id() {
    let q = BooksBySerieId::new(131).query();
    assert!(q.contains("WHERE series.id = 131\n"));
    assert!(q.contains("AS author"));
}

#[test]
fn author_full_name_binds_the_three_ids() {
    let q = AuthorFullName::new(AuthorIds::from((29, 38, 0))).query();
    assert!(q.contains("WHERE first_names.id = 29 AND middle_names.id = 38 AND last_names.id = 0\n"));
    assert!(q.contains("LIMIT 1;"));
}

#[test]
fn series_by_author_selects_the_author() {
    let q = SeriesByAuthor::new(AuthorIds::from((29, 38, 4))).query();
    assert_eq!(
        q,
        [
            SERIES_BY_AUTHOR_HEAD,
            "first_name_id = 29 AND middle_name_id = 38 AND last_name_id = 4",
            SERIES_BY_AUTHOR_TAIL,
        ]
        .concat()
    );
}

#[test]
fn books_by_author_narrows_by_the_filter() {
    let ids = AuthorIds::from((541, 74, 4520617));
    let author = "first_name_id = 541 AND middle_name_id = 74 AND last_name_id = 4520617";
    assert_eq!(
        BooksByAuthor::new(ids, BooksFilter::All).query(),
        [BOOKS_BY_AUTHOR_HEAD, author, BOOKS_BY_AUTHOR_TAIL].concat()
    );
    assert_eq!(
        BooksByAuthor::new(ids, BooksFilter::ByTheSerieOnly(7)).query(),
        [BOOKS_BY_AUTHOR_HEAD, author, " AND series.id = 7", BOOKS_BY_AUTHOR_TAIL].concat()
    );
    assert_eq!(
        BooksByAuthor::new(ids, BooksFilter::WithoutSerieOnly).query(),
        [BOOKS_BY_AUTHOR_HEAD, author, " AND series_map.serie_num IS NULL", BOOKS_BY_AUTHOR_TAIL]
            .concat()
    );
}

#[test]
fn favorite_authors_query_has_a_placeholder_per_book() {
    assert_eq!(favorite_authors_query(0), None);
    assert_eq!(
        favorite_authors_query(1),
        Some([FAVORITE_AUTHORS_HEAD, "?", FAVORITE_AUTHORS_TAIL].concat())
    );
    assert_eq!(
        favorite_authors_query(3),
        Some([FAVORITE_AUTHORS_HEAD, "?, ?, ?", FAVORITE_AUTHORS_TAIL].concat())
    );
    let q = favorite_authors_query(2).unwrap();
    assert!(q.contains("WHERE book_id IN (?, ?)\n        ORDER BY 6,4,5"));
}
