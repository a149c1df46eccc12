//! Records read from the library database and the queries that read them.

use crate::sql::{
    AUTHORS_BY_LAST_NAME_HEAD, AUTHORS_BY_LAST_NAME_TAIL, AUTHORS_NAME_BY_GENRE_HEAD, AUTHORS_NAME_BY_GENRE_TAIL, AUTHORS_NAME_STARTS_WITH, AUTHOR_FULL_NAME_HEAD, AUTHOR_FULL_NAME_LAST, AUTHOR_FULL_NAME_MIDDLE, AUTHOR_FULL_NAME_TAIL, BOOKS_BY_AUTHOR_HEAD, BOOKS_BY_AUTHOR_TAIL, BOOKS_BY_SERIE_HEAD, BOOKS_BY_SERIE_TAIL, FAVORITE_AUTHORS_HEAD, FAVORITE_AUTHORS_TAIL, GENRES_BY_META_HEAD, GENRES_BY_META_TAIL, SERIES_BY_AUTHOR_HEAD, SERIES_BY_AUTHOR_TAIL, SERIES_BY_NAME_HEAD, SERIES_BY_NAME_TAIL, SERIES_NAME_BY_GENRE_HEAD, SERIES_NAME_BY_GENRE_TAIL, SERIES_NAME_STARTS_WITH,
};
use crate::text::{decimal, push_decimal};
use vstd::prelude::*;

verus! {

/// A query of the library database, given by its SQL text.
pub trait QueryProvider {
    /// The SQL text of the query.
    spec fn query_text(&self) -> Seq<char>;

    /// The SQL text of the query.
    fn query(&self) -> (q: String)
        ensures
            q@ == self.query_text(),
    ;
}

/// Last-name prefixes one character longer than a pattern (the pattern and
/// the length are bound as `$2` and `$1`).
pub struct AuthorsNameStartsWith;

impl AuthorsNameStartsWith {
    pub fn new() -> (r: Self) {
        Self
    }
}

/// Series-name prefixes one character longer than a pattern.
pub struct SeriesNameStartsWith;

impl SeriesNameStartsWith {
    pub fn new() -> (r: Self) {
        Self
    }
}

/// The authors with a given last name.
pub struct AuthorsByLastName {
    name: String,
}

impl AuthorsByLastName {
    /// The name that the query looks for.
    pub closed spec fn name(&self) -> Seq<char> {
        self.name@
    }

    pub fn new(name: &String) -> (r: Self)
        ensures
            r.name() == name@,
    {
        Self { name: name.clone() }
    }
}

/// The series with a given name.
pub struct SeriesByName {
    name: String,
}

impl SeriesByName {
    /// The name that the query looks for.
    pub closed spec fn name(&self) -> Seq<char> {
        self.name@
    }

    pub fn new(name: &String) -> (r: Self)
        ensures
            r.name() == name@,
    {
        Self { name: name.clone() }
    }
}

/// The genres of a meta genre.
pub struct GenresByMeta {
    name: String,
}

impl GenresByMeta {
    /// The name that the query looks for.
    pub closed spec fn name(&self) -> Seq<char> {
        self.name@
    }

    pub fn new(name: &String) -> (r: Self)
        ensures
            r.name() == name@,
    {
        Self { name: name.clone() }
    }
}

/// Last-name prefixes of the authors who wrote in a genre.
pub struct AuthorsNameByGenreStartsWith {
    pub genre_name: String,
}

impl AuthorsNameByGenreStartsWith {
    pub fn new(genre_name: &String) -> (r: Self)
        ensures
            r.genre_name@ == genre_name@,
    {
        Self { genre_name: genre_name.clone() }
    }
}

/// Name prefixes of the series of a genre.
pub struct SeriesNameByGenreStartsWith {
    pub genre_name: String,
}

impl SeriesNameByGenreStartsWith {
    pub fn new(genre_name: &String) -> (r: Self)
        ensures
            r.genre_name@ == genre_name@,
    {
        Self { genre_name: genre_name.clone() }
    }
}

/// The books of a series.
pub struct BooksBySerieId {
    id: u32,
}

impl BooksBySerieId {
    /// The series whose books the query lists.
    pub closed spec fn id(&self) -> u32 {
        self.id
    }

    pub fn new(id: u32) -> (r: Self)
        ensures
            r.id() == id,
    {
        Self { id: id }
    }
}

/// The full name of an author.
pub struct AuthorFullName {
    author: AuthorIds,
}

impl AuthorFullName {
    /// The author the query is about.
    pub closed spec fn author(&self) -> AuthorIds {
        self.author
    }

    pub fn new(author: AuthorIds) -> (r: Self)
        ensures
            r.author() == author,
    {
        Self { author: author }
    }
}

/// The series of an author.
pub struct SeriesByAuthor {
    author: AuthorIds,
}

impl SeriesByAuthor {
    /// The author the query is about.
    pub closed spec fn author(&self) -> AuthorIds {
        self.author
    }

    pub fn new(author: AuthorIds) -> (r: Self)
        ensures
            r.author() == author,
    {
        Self { author: author }
    }
}

/// Which books of an author to list.
pub enum BooksFilter {
    /// Only the books of the given series.
    ByTheSerieOnly(u32),
    /// Only the books that belong to no series.
    WithoutSerieOnly,
    /// All books.
    All,
}

/// The books of an author, filtered.
pub struct BooksByAuthor {
    author: AuthorIds,
    filter: BooksFilter,
}

impl BooksByAuthor {
    /// The author whose books the query lists.
    pub closed spec fn author(&self) -> AuthorIds {
        self.author
    }

    /// Which of the author's books the query lists.
    pub closed spec fn filter(&self) -> BooksFilter {
        self.filter
    }

    pub fn new(author: AuthorIds, filter: BooksFilter) -> (r: Self)
        ensures
            r.author() == author,
            r.filter() == filter,
    {
        Self { author: author, filter: filter }
    }
}

/// A named record: an id and its text.
#[derive(Debug, PartialEq)]
pub struct Value {
    pub id: u32,
    pub value: String,
}

impl Value {
    pub fn new(id: u32, value: String) -> (r: Self)
        ensures
            r.id == id,
            r.value == value,
    {
        Self { id, value }
    }
}

/// An author: the first, middle and last name, each with its id.
#[derive(Debug, PartialEq)]
pub struct Author {
    pub first_name: Value,
    pub middle_name: Value,
    pub last_name: Value,
}

/// The ids of an author's three names.
#[derive(Debug, Clone, Copy, PartialEq)]
pub struct AuthorIds {
    first_name_id: u32,
    middle_name_id: u32,
    last_name_id: u32,
}

impl From<(u32, u32, u32)> for AuthorIds {
    fn from(args: (u32, u32, u32)) -> (r: Self)
        ensures
            r.ids() == args,
    {
        Self { first_name_id: args.0, middle_name_id: args.1, last_name_id: args.2 }
    }
}

impl vstd::std_specs::convert::FromSpecImpl<(u32, u32, u32)> for AuthorIds {
    open spec fn obeys_from_spec() -> bool {
        true
    }

    closed spec fn from_spec(args: (u32, u32, u32)) -> Self {
        AuthorIds { first_name_id: args.0, middle_name_id: args.1, last_name_id: args.2 }
    }
}

impl AuthorIds {
    /// The ids of an author's first, middle and last name.
    pub closed spec fn ids(&self) -> (u32, u32, u32) {
        (self.first_name_id, self.middle_name_id, self.last_name_id)
    }
}

/// A series and how many books of it there are.
#[derive(Debug, PartialEq)]
pub struct Serie {
    pub id: u32,
    pub name: String,
    pub count: u32,
}

/// A book as listed for an author.
#[derive(Debug, PartialEq)]
pub struct BookDesc {
    pub id: u32,
    pub num: u32,
    pub name: String,
    pub size: u32,
    pub date: String,
}

/// A book as listed for a series, with its author's full name.
#[derive(Debug, PartialEq)]
pub struct BookSerie {
    pub id: u32,
    pub num: u32,
    pub name: String,
    pub size: u32,
    pub date: String,
    pub author: String,
}

/// The text of a query that has one text parameter spliced in.
fn spliced(head: &str, value: &String, tail: &str) -> (q: String)
    ensures
        q@ == head@ + value@ + tail@,
{
    let mut q = String::from_str(head);
    q.append(value.as_str());
    q.append(tail);
    q
}

impl QueryProvider for AuthorsNameStartsWith {
    open spec fn query_text(&self) -> Seq<char> {
        AUTHORS_NAME_STARTS_WITH@
    }

    fn query(&self) -> (q: String) {
        String::from_str(AUTHORS_NAME_STARTS_WITH)
    }
}

impl QueryProvider for SeriesNameStartsWith {
    open spec fn query_text(&self) -> Seq<char> {
        SERIES_NAME_STARTS_WITH@
    }

    fn query(&self) -> (q: String) {
        String::from_str(SERIES_NAME_STARTS_WITH)
    }
}

impl QueryProvider for GenresByMeta {
    open spec fn query_text(&self) -> Seq<char> {
        GENRES_BY_META_HEAD@ + self.name() + GENRES_BY_META_TAIL@
    }

    fn query(&self) -> (q: String) {
        spliced(GENRES_BY_META_HEAD, &self.name, GENRES_BY_META_TAIL)
    }
}

impl QueryProvider for AuthorsByLastName {
    open spec fn query_text(&self) -> Seq<char> {
        AUTHORS_BY_LAST_NAME_HEAD@ + self.name() + AUTHORS_BY_LAST_NAME_TAIL@
    }

    fn query(&self) -> (q: String) {
        spliced(AUTHORS_BY_LAST_NAME_HEAD, &self.name, AUTHORS_BY_LAST_NAME_TAIL)
    }
}

impl QueryProvider for SeriesByName {
    open spec fn query_text(&self) -> Seq<char> {
        SERIES_BY_NAME_HEAD@ + self.name() + SERIES_BY_NAME_TAIL@
    }

    fn query(&self) -> (q: String) {
        spliced(SERIES_BY_NAME_HEAD, &self.name, SERIES_BY_NAME_TAIL)
    }
}

impl QueryProvider for AuthorsNameByGenreStartsWith {
    open spec fn query_text(&self) -> Seq<char> {
        AUTHORS_NAME_BY_GENRE_HEAD@ + self.genre_name@ + AUTHORS_NAME_BY_GENRE_TAIL@
    }

    fn query(&self) -> (q: String) {
        spliced(AUTHORS_NAME_BY_GENRE_HEAD, &self.genre_name, AUTHORS_NAME_BY_GENRE_TAIL)
    }
}

impl QueryProvider for SeriesNameByGenreStartsWith {
    open spec fn query_text(&self) -> Seq<char> {
        SERIES_NAME_BY_GENRE_HEAD@ + self.genre_name@ + SERIES_NAME_BY_GENRE_TAIL@
    }

    fn query(&self) -> (q: String) {
        spliced(SERIES_NAME_BY_GENRE_HEAD, &self.genre_name, SERIES_NAME_BY_GENRE_TAIL)
    }
}

impl QueryProvider for BooksBySerieId {
    open spec fn query_text(&self) -> Seq<char> {
        BOOKS_BY_SERIE_HEAD@ + decimal(self.id() as nat) + BOOKS_BY_SERIE_TAIL@
    }

    fn query(&self) -> (q: String) {
        let mut q = String::from_str(BOOKS_BY_SERIE_HEAD);
        push_decimal(&mut q, self.id);
        q.append(BOOKS_BY_SERIE_TAIL);
        q
    }
}

impl QueryProvider for AuthorFullName {
    open spec fn query_text(&self) -> Seq<char> {
        AUTHOR_FULL_NAME_HEAD@ + decimal(self.author().ids().0 as nat) + AUTHOR_FULL_NAME_MIDDLE@
            + decimal(self.author().ids().1 as nat) + AUTHOR_FULL_NAME_LAST@ + decimal(
            self.author().ids().2 as nat,
        ) + AUTHOR_FULL_NAME_TAIL@
    }

    fn query(&self) -> (q: String) {
        let mut q = String::from_str(AUTHOR_FULL_NAME_HEAD);
        push_decimal(&mut q, self.author.first_name_id);
        q.append(AUTHOR_FULL_NAME_MIDDLE);
        push_decimal(&mut q, self.author.middle_name_id);
        q.append(AUTHOR_FULL_NAME_LAST);
        push_decimal(&mut q, self.author.last_name_id);
        q.append(AUTHOR_FULL_NAME_TAIL);
        q
    }
}

/// The condition that selects the books of an author:
/// `first_name_id = F AND middle_name_id = M AND last_name_id = L`.
pub open spec fn author_condition(author: AuthorIds) -> Seq<char> {
    "first_name_id = "@ + decimal(author.ids().0 as nat) + " AND middle_name_id = "@ + decimal(
        author.ids().1 as nat,
    ) + " AND last_name_id = "@ + decimal(author.ids().2 as nat)
}

/// Appends the condition that selects the books of `author`.
fn push_author_condition(q: &mut String, author: &AuthorIds)
    ensures
        final(q)@ == old(q)@ + author_condition(*author),
{
    q.append("first_name_id = ");
    push_decimal(q, author.first_name_id);
    q.append(" AND middle_name_id = ");
    push_decimal(q, author.middle_name_id);
    q.append(" AND last_name_id = ");
    push_decimal(q, author.last_name_id);
    assert(q@ =~= old(q)@ + author_condition(*author));
}

impl QueryProvider for SeriesByAuthor {
    open spec fn query_text(&self) -> Seq<char> {
        SERIES_BY_AUTHOR_HEAD@ + author_condition(self.author()) + SERIES_BY_AUTHOR_TAIL@
    }

    fn query(&self) -> (q: String) {
        let mut q = String::from_str(SERIES_BY_AUTHOR_HEAD);
        push_author_condition(&mut q, &self.author);
        q.append(SERIES_BY_AUTHOR_TAIL);
        q
    }
}

/// The condition of the books query: the author's books, narrowed by the filter.
pub open spec fn books_condition(author: AuthorIds, filter: BooksFilter) -> Seq<char> {
    match filter {
        BooksFilter::ByTheSerieOnly(sid) => author_condition(author) + " AND series.id = "@
            + decimal(sid as nat),
        BooksFilter::WithoutSerieOnly => author_condition(author)
            + " AND series_map.serie_num IS NULL"@,
        BooksFilter::All => author_condition(author),
    }
}

impl QueryProvider for BooksByAuthor {
    open spec fn query_text(&self) -> Seq<char> {
        BOOKS_BY_AUTHOR_HEAD@ + books_condition(self.author(), self.filter()) + BOOKS_BY_AUTHOR_TAIL@
    }

    fn query(&self) -> (q: String) {
        let mut q = String::from_str(BOOKS_BY_AUTHOR_HEAD);
        push_author_condition(&mut q, &self.author);
        match self.filter {
            BooksFilter::ByTheSerieOnly(sid) => {
                q.append(" AND series.id = ");
                push_decimal(&mut q, sid);
            },
            BooksFilter::WithoutSerieOnly => {
                q.append(" AND series_map.serie_num IS NULL");
            },
            BooksFilter::All => {},
        }
        q.append(BOOKS_BY_AUTHOR_TAIL);
        q
    }
}

/// `n` SQL placeholders separated by commas: `?, ?, ..., ?`.
pub open spec fn placeholders(n: nat) -> Seq<char>
    decreases n,
{
    if n <= 1 {
        "?"@
    } else {
        placeholders((n - 1) as nat) + ", ?"@
    }
}

/// The query of the authors of `count` books whose ids are bound as the
/// parameters; there is no query for no books.
pub fn favorite_authors_query(count: usize) -> (r: Option<String>)
    ensures
        r is None <==> count == 0,
        r matches Some(q) ==> q@ == FAVORITE_AUTHORS_HEAD@ + placeholders(count as nat)
            + FAVORITE_AUTHORS_TAIL@,
{
    if count == 0 {
        return None;
    }
    let mut q = String::from_str(FAVORITE_AUTHORS_HEAD);
    q.append("?");
    let mut i: usize = 1;
    while i < count
        invariant
            1 <= i <= count,
            q@ == FAVORITE_AUTHORS_HEAD@ + placeholders(i as nat),
        decreases count - i,
    {
        q.append(", ?");
        i = i + 1;
    }
    q.append(FAVORITE_AUTHORS_TAIL);
    Some(q)
}

} // verus!
