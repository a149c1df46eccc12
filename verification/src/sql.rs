//! The text of the SQL statements that the catalogue sends to the library
//! database.

use vstd::prelude::*;

verus! {

/// Distinct prefixes, one character longer than the pattern, of the last names that start with it.
pub const AUTHORS_NAME_STARTS_WITH: &'static str = "SELECT DISTINCT substr(value, 1, $1) AS name FROM last_names WHERE value LIKE $2 || '%'";

/// Distinct prefixes, one character longer than the pattern, of the series names that start with it.
pub const SERIES_NAME_STARTS_WITH: &'static str = "SELECT DISTINCT substr(value, 1, $1) AS name FROM series WHERE value LIKE $2 || '%'";

/// The genres of a meta genre: before the meta genre's name.
pub const GENRES_BY_META_HEAD: &'static str = "SELECT DISTINCT genre FROM genres_def WHERE meta = '";

/// The genres of a meta genre: after the meta genre's name.
pub const GENRES_BY_META_TAIL: &'static str = "' ORDER BY 1;";

/// The authors with a last name: before the name.
pub const AUTHORS_BY_LAST_NAME_HEAD: &'static str = "\n            SELECT DISTINCT\n    \t        first_names.id AS first_id,\n                middle_names.id AS middle_id,\n                last_names.id AS last_id,\n                first_names.value AS first_name,\n                middle_names.value AS middle_name,\n                last_names.value AS last_name\n            FROM authors_map, first_names, middle_names, last_names\n            WHERE\n                last_names.id = (SELECT id FROM last_names WHERE value = '";

/// The authors with a last name: after the name.
pub const AUTHORS_BY_LAST_NAME_TAIL: &'static str = "')\n\t        AND first_names.id = first_name_id\n\t        AND middle_names.id = middle_name_id\n\t        AND last_names.id = last_name_id\n        ";

/// The series with a name: before the name.
pub const SERIES_BY_NAME_HEAD: &'static str = "SELECT DISTINCT id, value FROM series WHERE value = '";

/// The series with a name: after the name.
pub const SERIES_BY_NAME_TAIL: &'static str = "'";

/// Last-name prefixes of the authors of a genre: before the genre.
pub const AUTHORS_NAME_BY_GENRE_HEAD: &'static str = "\n            SELECT DISTINCT substr(last_names.value, 1, $1) AS name\n            FROM genres_def\n            JOIN genres ON genres.value = genres_def.code\n            JOIN genres_map ON genres_map.genre_id = genres.id\n            JOIN authors_map ON authors_map.book_id = genres_map.book_id\n            JOIN last_names ON last_names.id = authors_map.last_name_id\n            WHERE genres_def.genre = '";

/// Last-name prefixes of the authors of a genre: after the genre.
pub const AUTHORS_NAME_BY_GENRE_TAIL: &'static str = "' AND last_names.value LIKE $2 || '%'\n            ";

/// Name prefixes of the series of a genre: before the genre.
pub const SERIES_NAME_BY_GENRE_HEAD: &'static str = "\n            SELECT DISTINCT substr(series.value, 1, $1) AS name\n            FROM genres_def\n            JOIN genres ON genres.value = genres_def.code\n            JOIN genres_map ON genres_map.genre_id = genres.id\n            JOIN series_map ON genres_map.book_id = series_map.book_id\n            JOIN series ON series.id = series_map.serie_id\n            WHERE genres_def.genre = '";

/// Name prefixes of the series of a genre: after the genre.
pub const SERIES_NAME_BY_GENRE_TAIL: &'static str = "' AND series.value LIKE $2 || '%'\n            ";

/// The books of a series with their authors: before the series id.
pub const BOOKS_BY_SERIE_HEAD: &'static str = "\n            SELECT\n                books.book_id AS id,\n                series_map.serie_num AS num,\n                titles.value AS name,\n                books.book_size AS size,\n                dates.value AS added,\n                first_names.value || ' ' || middle_names.value || ' ' || last_names.value AS author\n            FROM series\n            JOIN series_map ON series.id = series_map.serie_id\n            JOIN books ON books.book_id = series_map.book_id\n            JOIN titles ON titles.id = books.title_id\n            JOIN dates ON books.date_id = dates.id\n            JOIN authors_map ON authors_map.book_id = books.book_id\n            JOIN first_names ON first_names.id = first_name_id\n            JOIN middle_names ON middle_names.id = middle_name_id\n            JOIN last_names ON last_names.id = last_name_id\n            WHERE series.id = ";

/// The books of a series: after the series id.
pub const BOOKS_BY_SERIE_TAIL: &'static str = "\n            ";

/// The full name of an author: before the first name id.
pub const AUTHOR_FULL_NAME_HEAD: &'static str = "\n            SELECT first_names.value || ' ' || middle_names.value || ' ' || last_names.value AS author\n            FROM first_names, middle_names, last_names\n            WHERE first_names.id = ";

/// The full name of an author: before the middle name id.
pub const AUTHOR_FULL_NAME_MIDDLE: &'static str = " AND middle_names.id = ";

/// The full name of an author: before the last name id.
pub const AUTHOR_FULL_NAME_LAST: &'static str = " AND last_names.id = ";

/// The full name of an author: after the last name id.
pub const AUTHOR_FULL_NAME_TAIL: &'static str = "\n            LIMIT 1;\n            ";

/// The series of an author with their book counts: before the author condition.
pub const SERIES_BY_AUTHOR_HEAD: &'static str = "\n            SELECT\n                series.id AS id,\n                series.value AS name,\n                count(series.value) as count\n            FROM authors_map\n            JOIN books ON authors_map.book_id = books.book_id\n            JOIN titles ON books.title_id = titles.id\n            JOIN series_map ON  books.book_id = series_map.book_id\n            JOIN series ON series_map.serie_id = series.id\n            JOIN dates ON  books.date_id = dates.id\n            WHERE ";

/// The series of an author: after the author condition.
pub const SERIES_BY_AUTHOR_TAIL: &'static str = "\n                  AND name IS NOT NULL\n            GROUP by 1, 2;\n            ";

/// The books of an author: before the condition.
pub const BOOKS_BY_AUTHOR_HEAD: &'static str = "\n            SELECT\n                books.book_id AS id,\n                series_map.serie_num AS num,\n                titles.value AS name,\n                books.book_size AS size,\n                dates.value AS added\n            FROM authors_map\n            JOIN books ON authors_map.book_id = books.book_id\n            JOIN titles ON books.title_id = titles.id\n            LEFT JOIN series_map ON  books.book_id = series_map.book_id\n            LEFT JOIN series ON series_map.serie_id = series.id\n            JOIN dates ON  books.date_id = dates.id\n            WHERE ";

/// The books of an author: after the condition.
pub const BOOKS_BY_AUTHOR_TAIL: &'static str = "\n            ";

/// The authors of a list of books: before the placeholders.
pub const FAVORITE_AUTHORS_HEAD: &'static str = "\n        SELECT DISTINCT\n            first_names.id AS first_id,\n            middle_names.id AS middle_id,\n            last_names.id AS last_id,\n            first_names.value AS first_name,\n            middle_names.value AS middle_name,\n            last_names.value AS last_name\n        FROM authors_map\n        LEFT JOIN first_names ON first_names.id = authors_map.first_name_id\n        LEFT JOIN middle_names ON middle_names.id = authors_map.middle_name_id\n        LEFT JOIN last_names ON last_names.id = authors_map.last_name_id\n        WHERE book_id IN (";

/// The authors of a list of books: after the placeholders.
pub const FAVORITE_AUTHORS_TAIL: &'static str = ")\n        ORDER BY 6,4,5\n    ";

/// The id of a last name: before the name.
pub const LAST_NAME_ID_HEAD: &'static str = "\n            SELECT id \n            FROM last_names \n            WHERE name = \"";

/// The id of a last name: after the name.
pub const LAST_NAME_ID_TAIL: &'static str = "\"\n        ";

/// Last-name prefixes of a given length: before the length.
pub const PATTERNS_HEAD: &'static str = "\n            SELECT DISTINCT substr(name, 1, ";

/// Last-name prefixes: between the length and the pattern.
pub const PATTERNS_MIDDLE: &'static str = ") AS name \n            FROM last_names \n            WHERE name LIKE \"";

/// Last-name prefixes: after the pattern.
pub const PATTERNS_TAIL: &'static str = "%\"\n            ORDER BY 1\n        ";

/// The authors with a last name id: before the id.
pub const AUTHORS_BY_LAST_NAME_ID_HEAD: &'static str = "\n            SELECT DISTINCT \n                first_name_id AS first_id, \n                middle_name_id AS middle_id, \n                last_name_id AS last_id, \n                first_names.name AS first_name, \n                middle_names.name AS middle_name, \n                last_names.name AS last_name\n            FROM authors_map\n            LEFT JOIN first_names ON first_names.id = first_name_id\n            LEFT JOIN middle_names ON middle_names.id = middle_name_id\n            LEFT JOIN last_names ON last_names.id = last_name_id\n            WHERE last_name_id = ";

/// The authors with a last name id: after the id.
pub const AUTHORS_BY_LAST_NAME_ID_TAIL: &'static str = "\n        ";

/// The books of an author in a series; the three name ids and the series id are bound.
pub const AUTHOR_SERIE_BOOKS_SQL: &'static str = "\n        SELECT\n            books.book_id AS id,\n            series_map.serie_num AS num,\n            titles.value AS name,\n            books.book_size AS size,\n            dates.value AS added\n        FROM authors_map\n        LEFT JOIN books ON authors_map.book_id = books.book_id\n        LEFT JOIN titles ON books.title_id = titles.id\n        LEFT JOIN series_map ON  books.book_id = series_map.book_id\n        LEFT JOIN series ON series_map.serie_id = series.id\n        LEFT JOIN dates ON  books.date_id = dates.id\n        WHERE\n            first_name_id = $1 AND middle_name_id = $2 AND last_name_id = $3 AND series.id = $4\n        ORDER BY 2, 3, 5;\n    ";

/// The books of an author outside any series; the three name ids are bound.
pub const AUTHOR_NONSERIE_BOOKS_SQL: &'static str = "\n        SELECT\n            books.book_id AS id,\n            series_map.serie_num AS num,\n            titles.value AS name,\n            books.book_size AS size,\n            dates.value AS added\n        FROM authors_map\n        LEFT JOIN books ON authors_map.book_id = books.book_id\n        LEFT JOIN titles ON books.title_id = titles.id\n        LEFT JOIN series_map ON  books.book_id = series_map.book_id\n        LEFT JOIN dates ON  books.date_id = dates.id\n        WHERE\n            first_name_id = $1 AND middle_name_id = $2 AND last_name_id = $3\n        AND series_map.serie_num IS NULL\n        ORDER BY 2, 3, 5;\n    ";

/// All books of an author; the three name ids are bound.
pub const AUTHOR_BOOKS_SQL: &'static str = "\n        SELECT\n            books.book_id AS id,\n            series_map.serie_num AS num,\n            titles.value AS name,\n            books.book_size AS size,\n            dates.value AS added\n        FROM authors_map\n        LEFT JOIN books ON authors_map.book_id = books.book_id\n        LEFT JOIN titles ON books.title_id = titles.id\n        LEFT JOIN series_map ON  books.book_id = series_map.book_id\n        LEFT JOIN dates ON  books.date_id = dates.id\n        WHERE\n            first_name_id = $1 AND middle_name_id = $2 AND last_name_id = $3 ;\n    ";

/// All books of an author, latest added first; the three name ids are bound.
pub const ROOT_OPDS_AUTHOR_ADDED_BOOKS_SQL: &'static str = "\n        SELECT\n            books.book_id AS id,\n            series_map.serie_num AS num,\n            titles.value AS name,\n            books.book_size AS size,\n            dates.value AS added\n        FROM authors_map\n        LEFT JOIN books ON authors_map.book_id = books.book_id\n        LEFT JOIN titles ON books.title_id = titles.id\n        LEFT JOIN series_map ON  books.book_id = series_map.book_id\n        LEFT JOIN dates ON  books.date_id = dates.id\n        WHERE\n            first_name_id = $1 AND middle_name_id = $2 AND last_name_id = $3\n        ORDER BY added DESC;\n    ";

/// Creates the table of downloads of the statistics database.
pub const CREATE_DOWNLOADS_SQL: &'static str = "\n    CREATE TABLE IF NOT EXISTS downloads(\n        book_id     INTEGER NOT NULL,\n        downloaded  DATETIME DEFAULT CURRENT_TIMESTAMP\n    );";

/// Records a download; the book id is bound.
pub const INSERT_DOWNLOAD_SQL: &'static str = "\n    INSERT INTO downloads(book_id)\n    VALUES (?);";

/// The books downloaded during the last month.
pub const FAVORITE_BOOKS_SQL: &'static str = "\n    SELECT DISTINCT book_id AS id FROM downloads\n    WHERE downloaded > DATE('now', '-1 month')\n    GROUP BY book_id;";

/// The genres of a meta genre, bound as a parameter.
pub const GENRES_BY_META_SQL: &'static str = "SELECT DISTINCT genre FROM genres_def WHERE meta = $1 ORDER BY 1;";

/// The meta genres.
pub const META_GENRES_SQL: &'static str = "SELECT DISTINCT meta FROM genres_def;";

} // verus!
