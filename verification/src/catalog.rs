//! The pages of the catalogue: what each page lists, in which order, and with
//! which titles and links. The records come from the library database; the
//! pages are built here from them.

use crate::collate::{
    sort_stable, stable_sort, text_before, text_leq, text_less, text_not_after, total_preorder,
};
use crate::database::{Author, BookDesc, BookSerie, Serie, Value};
use crate::impls::Sort;
use crate::impls::{add_to_feed, fill_feed_from, label_of, link_of, prefix_entries, FeedSrc};
use crate::opds::{entry_of, EntryView, Feed};
use crate::text::{decimal, push_decimal};
use crate::utils::{decode_with_lossy, decoded, fb2_leq, fb2_not_after};
use vstd::prelude::*;

verus! {

/// Adds an entry for each item, in order, with the title and link that `make`
/// gives for it.
fn add_all<T>(
    feed: &mut Feed,
    items: &Vec<T>,
    make: impl Fn(&T) -> (String, String),
    Ghost(f): Ghost<spec_fn(T) -> EntryView>,
)
    requires
        forall|x: &T| #[trigger] make.requires((x,)),
        forall|x: &T, r: (String, String)| make.ensures((x,), r) ==> entry_of(r.0@, r.1@) == f(*x),
    ensures
        final(feed)@.title == old(feed)@.title,
        final(feed)@.entries == old(feed)@.entries + items@.map_values(f),
{
    let ghost start = feed@.entries;
    let mut i: usize = 0;
    assert(items@.take(0).map_values(f) =~= Seq::<EntryView>::empty());
    assert(start + items@.take(0).map_values(f) =~= start);
    while i < items.len()
        invariant
            forall|x: &T| #[trigger] make.requires((x,)),
            forall|x: &T, r: (String, String)| make.ensures((x,), r) ==> entry_of(r.0@, r.1@) == f(
                *x,
            ),
            i <= items.len(),
            feed@.title == old(feed)@.title,
            feed@.entries == start + items@.take(i as int).map_values(f),
        decreases items.len() - i,
    {
        let (title, link) = make(&items[i]);
        feed.add(title, link);
        assert(items@.take(i as int + 1).map_values(f) =~= items@.take(i as int).map_values(f).push(
            f(items@[i as int]),
        ));
        assert(feed@.entries =~= start + items@.take(i as int + 1).map_values(f));
        i = i + 1;
    }
    assert(items@.take(i as int) =~= items@);
}

/// A string made of the given literal pieces.
fn text(s: &str) -> (r: String)
    ensures
        r@ == s@,
{
    String::from_str(s)
}

// ---------------------------------------------------------------- authors
/// The title of an author's entry: last, first and middle name.
pub open spec fn author_title(a: Author) -> Seq<char> {
    a.last_name.value@ + " "@ + a.first_name.value@ + " "@ + a.middle_name.value@
}

/// The link to an author's page.
pub open spec fn author_link(first: u32, middle: u32, last: u32) -> Seq<char> {
    "/opds/author/id/"@ + decimal(first as nat) + "/"@ + decimal(middle as nat) + "/"@ + decimal(
        last as nat,
    )
}

/// An author's entry.
pub open spec fn author_entry(a: Author) -> EntryView {
    entry_of(author_title(a), author_link(a.first_name.id, a.middle_name.id, a.last_name.id))
}

/// Authors ordered by first name, in the catalogue order.
pub open spec fn by_first_name() -> spec_fn(Author, Author) -> bool {
    |a: Author, b: Author| fb2_leq()(a.first_name.value@, b.first_name.value@)
}

/// Appends the link to the page of the author with these name ids.
fn push_author_link(s: &mut String, first: u32, middle: u32, last: u32)
    ensures
        final(s)@ == old(s)@ + author_link(first, middle, last),
{
    s.append("/opds/author/id/");
    push_decimal(s, first);
    s.append("/");
    push_decimal(s, middle);
    s.append("/");
    push_decimal(s, last);
    assert(s@ =~= old(s)@ + author_link(first, middle, last));
}

/// The title and link of an author's entry.
fn author_line(a: &Author) -> (r: (String, String))
    ensures
        entry_of(r.0@, r.1@) == author_entry(*a),
{
    let mut title = a.last_name.value.clone();
    title.append(" ");
    title.append(a.first_name.value.as_str());
    title.append(" ");
    title.append(a.middle_name.value.as_str());
    let mut link = String::new();
    push_author_link(&mut link, a.first_name.id, a.middle_name.id, a.last_name.id);
    assert(title@ =~= author_title(*a));
    assert(link@ =~= author_link(a.first_name.id, a.middle_name.id, a.last_name.id));
    (title, link)
}

/// Whether author `a` does not come after `b` by first name.
fn first_name_not_after(a: &Author, b: &Author) -> (r: bool)
    ensures
        r == by_first_name()(*a, *b),
{
    fb2_not_after(&a.first_name.value, &b.first_name.value)
}

/// Adds an entry for each author, ordered by first name in the catalogue
/// order (authors with the same first name keep their order).
pub fn add_author_entries(feed: &mut Feed, authors: Vec<Author>)
    ensures
        final(feed)@.title == old(feed)@.title,
        final(feed)@.entries == old(feed)@.entries + stable_sort(authors@, by_first_name()).map_values(
            |a: Author| author_entry(a),
        ),
{
    let ordered = sort_stable(authors, first_name_not_after, Ghost(by_first_name()));
    add_all(feed, &ordered, author_line, Ghost(|a: Author| author_entry(a)));
}

/// The page of favourite authors: an entry per author, in the order given.
pub fn favorite_authors_feed(authors: Vec<Author>) -> (f: Feed)
    ensures
        f@.title == "Favorites"@,
        f@.entries == authors@.map_values(|a: Author| author_entry(a)),
{
    let mut feed = Feed::new(text("Favorites"));
    add_all(&mut feed, &authors, author_line, Ghost(|a: Author| author_entry(a)));
    assert(feed@.entries =~= authors@.map_values(|a: Author| author_entry(a)));
    feed
}

// ---------------------------------------------------------------- series
/// The link to the page of a series.
pub open spec fn serie_link(id: u32) -> Seq<char> {
    "/opds/serie/id/"@ + decimal(id as nat)
}

/// The entry of a series found by name: its name, linking to its page.
pub open spec fn serie_value_entry(v: Value) -> EntryView {
    entry_of(v.value@, serie_link(v.id))
}

/// Named records ordered by their text, in the catalogue order.
pub open spec fn by_value() -> spec_fn(Value, Value) -> bool {
    |a: Value, b: Value| fb2_leq()(a.value@, b.value@)
}

/// Whether record `a` does not come after `b` by text.
fn value_not_after(a: &Value, b: &Value) -> (r: bool)
    ensures
        r == by_value()(*a, *b),
{
    fb2_not_after(&a.value, &b.value)
}

/// The title and link of the entry of a series found by name.
fn serie_value_line(v: &Value) -> (r: (String, String))
    ensures
        entry_of(r.0@, r.1@) == serie_value_entry(*v),
{
    let mut link = text("/opds/serie/id/");
    push_decimal(&mut link, v.id);
    (v.value.clone(), link)
}

/// Adds an entry for each series found by name, ordered by name in the
/// catalogue order.
pub fn add_serie_entries(feed: &mut Feed, series: Vec<Value>)
    ensures
        final(feed)@.title == old(feed)@.title,
        final(feed)@.entries == old(feed)@.entries + stable_sort(series@, by_value()).map_values(
            |v: Value| serie_value_entry(v),
        ),
{
    let ordered = sort_stable(series, value_not_after, Ghost(by_value()));
    add_all(feed, &ordered, serie_value_line, Ghost(|v: Value| serie_value_entry(v)));
}

/// The title of a series entry: its name and how many books it holds.
pub open spec fn serie_count_title(s: Serie) -> Seq<char> {
    s.name@ + " ["@ + decimal(s.count as nat) + " книг]"@
}

/// The link to the books of a series by an author.
pub open spec fn author_serie_link(first: u32, middle: u32, last: u32, sid: u32) -> Seq<char> {
    "/opds/author/serie/books/"@ + decimal(first as nat) + "/"@ + decimal(middle as nat) + "/"@
        + decimal(last as nat) + "/"@ + decimal(sid as nat)
}

/// Series ordered by name, in the catalogue order.
pub open spec fn by_serie_name() -> spec_fn(Serie, Serie) -> bool {
    |a: Serie, b: Serie| fb2_leq()(a.name@, b.name@)
}

/// The entry of an author's series.
pub open spec fn author_serie_entry(first: u32, middle: u32, last: u32, s: Serie) -> EntryView {
    entry_of(serie_count_title(s), author_serie_link(first, middle, last, s.id))
}

/// Whether series `a` does not come after `b` by name.
fn serie_name_not_after(a: &Serie, b: &Serie) -> (r: bool)
    ensures
        r == by_serie_name()(*a, *b),
{
    fb2_not_after(&a.name, &b.name)
}

/// The title and link of the entry of an author's series.
fn author_serie_line(first: u32, middle: u32, last: u32, s: &Serie) -> (r: (String, String))
    ensures
        entry_of(r.0@, r.1@) == author_serie_entry(first, middle, last, *s),
{
    let mut title = s.name.clone();
    title.append(" [");
    push_decimal(&mut title, s.count);
    title.append(" книг]");
    let mut link = text("/opds/author/serie/books/");
    push_decimal(&mut link, first);
    link.append("/");
    push_decimal(&mut link, middle);
    link.append("/");
    push_decimal(&mut link, last);
    link.append("/");
    push_decimal(&mut link, s.id);
    assert(title@ =~= serie_count_title(*s));
    assert(link@ =~= author_serie_link(first, middle, last, s.id));
    (title, link)
}

/// The page of an author's series, titled with the author's name: an entry per
/// series, by name in the catalogue order, then an entry back to the author.
/// When the series could not be read (`None`), the page has no entries.
pub fn author_series_feed(
    author: String,
    first: u32,
    middle: u32,
    last: u32,
    series: Option<Vec<Serie>>,
) -> (f: Feed)
    ensures
        f@.title == author@,
        f@.entries == match series {
            Some(s) => stable_sort(s@, by_serie_name()).map_values(
                |x: Serie| author_serie_entry(first, middle, last, x),
            ).push(entry_of(author@, author_link(first, middle, last))),
            None => Seq::<EntryView>::empty(),
        },
{
    let mut feed = Feed::new(author.clone());
    assert(feed@.entries =~= Seq::<EntryView>::empty());
    match series {
        Some(series) => {
            let ordered = sort_stable(series, serie_name_not_after, Ghost(by_serie_name()));
            let mut i: usize = 0;
            let ghost start = feed@.entries;
            while i < ordered.len()
                invariant
                    i <= ordered.len(),
                    feed@.title == author@,
                    start == Seq::<EntryView>::empty(),
                    feed@.entries == start + ordered@.take(i as int).map_values(
                        |x: Serie| author_serie_entry(first, middle, last, x),
                    ),
                decreases ordered.len() - i,
            {
                let (title, link) = author_serie_line(first, middle, last, &ordered[i]);
                feed.add(title, link);
                assert(ordered@.take(i as int + 1).map_values(
                    |x: Serie| author_serie_entry(first, middle, last, x),
                ) =~= ordered@.take(i as int).map_values(
                    |x: Serie| author_serie_entry(first, middle, last, x),
                ).push(author_serie_entry(first, middle, last, ordered@[i as int])));
                assert(feed@.entries =~= start + ordered@.take(i as int + 1).map_values(
                    |x: Serie| author_serie_entry(first, middle, last, x),
                ));
                i = i + 1;
            }
            assert(ordered@.take(i as int) =~= ordered@);
            let mut back = String::new();
            push_author_link(&mut back, first, middle, last);
            assert(back@ =~= author_link(first, middle, last));
            feed.add(author, back);
            assert(feed@.entries =~= ordered@.map_values(
                |x: Serie| author_serie_entry(first, middle, last, x),
            ).push(entry_of(author@, author_link(first, middle, last))));
        },
        None => {},
    }
    feed
}

// ---------------------------------------------------------------- searches
/// The entries of the authors found for each exact name, group after group,
/// each group ordered by first name.
pub open spec fn author_groups_entries(groups: Seq<Vec<Author>>) -> Seq<EntryView>
    decreases groups.len(),
{
    if groups.len() == 0 {
        Seq::empty()
    } else {
        author_groups_entries(groups.drop_last()) + stable_sort(groups.last()@, by_first_name()).map_values(
            |a: Author| author_entry(a),
        )
    }
}

/// The page of an author-name search: the authors found for each exact name,
/// in the order of `found`, each group ordered by first name; then an entry
/// for each longer prefix in `rest`, in the catalogue order, linking under
/// `root`.
pub fn author_matches_feed(title: String, found: Vec<Vec<Author>>, rest: Vec<String>, root: String) -> (f: Feed)
    ensures
        f@.title == title@,
        f@.entries == author_groups_entries(found@) + prefix_entries(
            rest.deep_view().sort_by(fb2_leq()),
            root@,
        ),
{
    let mut feed = Feed::new(title);
    let ghost all = found@;
    let n = found.len();
    let mut groups = found;
    let mut k: usize = 0;
    assert(all.take(0) =~= Seq::<Vec<Author>>::empty());
    assert(all.skip(0) =~= all);
    while groups.len() > 0
        invariant
            all.len() == n,
            k <= all.len(),
            k + groups@.len() == all.len(),
            groups@ == all.skip(k as int),
            feed@.title == title@,
            feed@.entries == author_groups_entries(all.take(k as int)),
        decreases groups.len(),
    {
        let group = groups.remove(0);
        proof {
            assert(all[k as int] == group);
            assert(all.take(k as int + 1).drop_last() =~= all.take(k as int));
        }
        add_author_entries(&mut feed, group);
        k = k + 1;
        assert(groups@ =~= all.skip(k as int));
    }
    assert(all.take(k as int) =~= all);
    fill_feed_from(rest, root, &mut feed);
    feed
}

/// The entries of the series found for each exact name, group after group,
/// each group ordered by name.
pub open spec fn serie_groups_entries(groups: Seq<Vec<Value>>) -> Seq<EntryView>
    decreases groups.len(),
{
    if groups.len() == 0 {
        Seq::empty()
    } else {
        serie_groups_entries(groups.drop_last()) + stable_sort(groups.last()@, by_value()).map_values(
            |v: Value| serie_value_entry(v),
        )
    }
}

/// The groups of a search page are listed in the order they were found: a
/// single group gives its own entries (ordered within the group), and two runs
/// of groups one after the other give the entries of the first run, then those
/// of the second.
pub proof fn lemma_groups_in_order(
    a: Seq<Vec<Value>>,
    b: Seq<Vec<Value>>,
    g: Vec<Value>,
    c: Seq<Vec<Author>>,
    d: Seq<Vec<Author>>,
    h: Vec<Author>,
)
    ensures
        serie_groups_entries(seq![g]) == stable_sort(g@, by_value()).map_values(
            |v: Value| serie_value_entry(v),
        ),
        serie_groups_entries(a + b) == serie_groups_entries(a) + serie_groups_entries(b),
        author_groups_entries(seq![h]) == stable_sort(h@, by_first_name()).map_values(
            |x: Author| author_entry(x),
        ),
        author_groups_entries(c + d) == author_groups_entries(c) + author_groups_entries(d),
{
    assert(seq![g].drop_last() =~= Seq::<Vec<Value>>::empty());
    assert(seq![g].last() == g);
    assert(serie_groups_entries(Seq::<Vec<Value>>::empty()) =~= Seq::<EntryView>::empty());
    assert(serie_groups_entries(seq![g]) =~= stable_sort(g@, by_value()).map_values(
        |v: Value| serie_value_entry(v),
    ));
    assert(seq![h].drop_last() =~= Seq::<Vec<Author>>::empty());
    assert(seq![h].last() == h);
    assert(author_groups_entries(Seq::<Vec<Author>>::empty()) =~= Seq::<EntryView>::empty());
    assert(author_groups_entries(seq![h]) =~= stable_sort(h@, by_first_name()).map_values(
        |x: Author| author_entry(x),
    ));
    lemma_serie_groups_concat(a, b);
    lemma_author_groups_concat(c, d);
}

proof fn lemma_serie_groups_concat(a: Seq<Vec<Value>>, b: Seq<Vec<Value>>)
    ensures
        serie_groups_entries(a + b) == serie_groups_entries(a) + serie_groups_entries(b),
    decreases b.len(),
{
    if b.len() == 0 {
        assert(a + b =~= a);
        assert(serie_groups_entries(a) + serie_groups_entries(b) =~= serie_groups_entries(a));
    } else {
        lemma_serie_groups_concat(a, b.drop_last());
        assert((a + b).drop_last() =~= a + b.drop_last());
        assert((a + b).last() == b.last());
    }
}

proof fn lemma_author_groups_concat(a: Seq<Vec<Author>>, b: Seq<Vec<Author>>)
    ensures
        author_groups_entries(a + b) == author_groups_entries(a) + author_groups_entries(b),
    decreases b.len(),
{
    if b.len() == 0 {
        assert(a + b =~= a);
        assert(author_groups_entries(a) + author_groups_entries(b) =~= author_groups_entries(a));
    } else {
        lemma_author_groups_concat(a, b.drop_last());
        assert((a + b).drop_last() =~= a + b.drop_last());
        assert((a + b).last() == b.last());
    }
}

/// The page of a series-name search: the series found for each exact name, in
/// the order of `found`, each group ordered by name; then an entry for each
/// longer prefix in `rest`, in the catalogue order, linking under `root`.
pub fn serie_matches_feed(title: String, found: Vec<Vec<Value>>, rest: Vec<String>, root: String) -> (f: Feed)
    ensures
        f@.title == title@,
        f@.entries == serie_groups_entries(found@) + prefix_entries(
            rest.deep_view().sort_by(fb2_leq()),
            root@,
        ),
{
    let mut feed = Feed::new(title);
    let ghost all = found@;
    let n = found.len();
    let mut groups = found;
    let mut k: usize = 0;
    assert(all.take(0) =~= Seq::<Vec<Value>>::empty());
    assert(all.skip(0) =~= all);
    while groups.len() > 0
        invariant
            all.len() == n,
            k <= all.len(),
            k + groups@.len() == all.len(),
            groups@ == all.skip(k as int),
            feed@.title == title@,
            feed@.entries == serie_groups_entries(all.take(k as int)),
        decreases groups.len(),
    {
        let group = groups.remove(0);
        proof {
            assert(all[k as int] == group);
            assert(all.take(k as int + 1).drop_last() =~= all.take(k as int));
        }
        add_serie_entries(&mut feed, group);
        k = k + 1;
        assert(groups@ =~= all.skip(k as int));
    }
    assert(all.take(k as int) =~= all);
    fill_feed_from(rest, root, &mut feed);
    feed
}

// ---------------------------------------------------------------- books
/// The link that downloads a book.
pub open spec fn book_link(id: u32) -> Seq<char> {
    "/opds/book/"@ + decimal(id as nat)
}

/// The title of a book listed with its number: "N - NAME (DATE)".
pub open spec fn numbered_book_title(b: BookDesc) -> Seq<char> {
    decimal(b.num as nat) + " - "@ + b.name@ + " ("@ + b.date@ + ")"@
}

/// The title of a book listed without its number: "NAME (DATE)".
pub open spec fn book_title(b: BookDesc) -> Seq<char> {
    b.name@ + " ("@ + b.date@ + ")"@
}

/// The entry of a book listed with its number.
pub open spec fn numbered_book_entry(b: BookDesc) -> EntryView {
    entry_of(numbered_book_title(b), book_link(b.id))
}

/// The entry of a book listed without its number.
pub open spec fn book_entry(b: BookDesc) -> EntryView {
    entry_of(book_title(b), book_link(b.id))
}

/// The title of a book listed in its series: "N NAME - AUTHOR (DATE)".
pub open spec fn serie_book_title(b: BookSerie) -> Seq<char> {
    decimal(b.num as nat) + " "@ + b.name@ + " - "@ + b.author@ + " ("@ + b.date@ + ")"@
}

/// The entry of a book listed in its series.
pub open spec fn serie_book_entry(b: BookSerie) -> EntryView {
    entry_of(serie_book_title(b), book_link(b.id))
}

/// Books ordered by title, in the catalogue order.
pub open spec fn by_title() -> spec_fn(BookDesc, BookDesc) -> bool {
    |a: BookDesc, b: BookDesc| fb2_leq()(a.name@, b.name@)
}

/// Books ordered by the date they were added, latest first.
pub open spec fn by_date_desc() -> spec_fn(BookDesc, BookDesc) -> bool {
    |a: BookDesc, b: BookDesc| text_leq(b.date@, a.date@)
}

/// Books ordered by number in the series, then title, then date.
pub open spec fn by_number_title_date() -> spec_fn(BookDesc, BookDesc) -> bool {
    |a: BookDesc, b: BookDesc|
        a.num < b.num || (a.num == b.num && (text_less(a.name@, b.name@) || (a.name@ == b.name@
            && text_leq(a.date@, b.date@))))
}

/// Whether book `a` does not come after `b` by title.
fn title_not_after(a: &BookDesc, b: &BookDesc) -> (r: bool)
    ensures
        r == by_title()(*a, *b),
{
    fb2_not_after(&a.name, &b.name)
}

/// Whether book `a` does not come after `b` by date, latest first.
fn date_desc_not_after(a: &BookDesc, b: &BookDesc) -> (r: bool)
    ensures
        r == by_date_desc()(*a, *b),
{
    text_not_after(&b.date, &a.date)
}

/// Whether book `a` does not come after `b` by number, title and date.
fn number_title_date_not_after(a: &BookDesc, b: &BookDesc) -> (r: bool)
    ensures
        r == by_number_title_date()(*a, *b),
{
    if a.num != b.num {
        a.num < b.num
    } else if a.name == b.name {
        proof {
            crate::collate::lemma_lex_reversed(a.name@, b.name@, crate::collate::code_ranking());
        }
        text_not_after(&a.date, &b.date)
    } else {
        text_before(&a.name, &b.name)
    }
}

/// Appends the link that downloads book `id`.
fn push_book_link(s: &mut String, id: u32)
    ensures
        final(s)@ == old(s)@ + book_link(id),
{
    s.append("/opds/book/");
    push_decimal(s, id);
}

/// The title and link of a book listed with its number.
fn numbered_book_line(b: &BookDesc) -> (r: (String, String))
    ensures
        entry_of(r.0@, r.1@) == numbered_book_entry(*b),
{
    let mut title = String::new();
    push_decimal(&mut title, b.num);
    title.append(" - ");
    title.append(b.name.as_str());
    title.append(" (");
    title.append(b.date.as_str());
    title.append(")");
    let mut link = String::new();
    push_book_link(&mut link, b.id);
    assert(title@ =~= numbered_book_title(*b));
    assert(link@ =~= book_link(b.id));
    (title, link)
}

/// The title and link of a book listed without its number.
fn book_line(b: &BookDesc) -> (r: (String, String))
    ensures
        entry_of(r.0@, r.1@) == book_entry(*b),
{
    let mut title = b.name.clone();
    title.append(" (");
    title.append(b.date.as_str());
    title.append(")");
    let mut link = String::new();
    push_book_link(&mut link, b.id);
    assert(title@ =~= book_title(*b));
    assert(link@ =~= book_link(b.id));
    (title, link)
}

/// The title and link of a book listed in its series.
fn serie_book_line(b: &BookSerie) -> (r: (String, String))
    ensures
        entry_of(r.0@, r.1@) == serie_book_entry(*b),
{
    let mut title = String::new();
    push_decimal(&mut title, b.num);
    title.append(" ");
    title.append(b.name.as_str());
    title.append(" - ");
    title.append(b.author.as_str());
    title.append(" (");
    title.append(b.date.as_str());
    title.append(")");
    let mut link = String::new();
    push_book_link(&mut link, b.id);
    assert(title@ =~= serie_book_title(*b));
    assert(link@ =~= book_link(b.id));
    (title, link)
}

/// A page titled "Книги" listing `books` with their numbers.
fn numbered_books_feed(books: &Vec<BookDesc>) -> (f: Feed)
    ensures
        f@.title == "Книги"@,
        f@.entries == books@.map_values(|b: BookDesc| numbered_book_entry(b)),
{
    let mut feed = Feed::new(text("Книги"));
    add_all(&mut feed, books, numbered_book_line, Ghost(|b: BookDesc| numbered_book_entry(b)));
    assert(feed@.entries =~= books@.map_values(|b: BookDesc| numbered_book_entry(b)));
    feed
}

/// The books of an author in one series, by number, title and date.
pub fn books_in_serie_feed(books: Vec<BookDesc>) -> (f: Feed)
    ensures
        f@.title == "Книги"@,
        f@.entries == stable_sort(books@, by_number_title_date()).map_values(
            |b: BookDesc| numbered_book_entry(b),
        ),
{
    let ordered = sort_stable(books, number_title_date_not_after, Ghost(by_number_title_date()));
    numbered_books_feed(&ordered)
}

/// The books of an author by title, in the catalogue order.
pub fn books_by_title_feed(books: Vec<BookDesc>) -> (f: Feed)
    ensures
        f@.title == "Книги"@,
        f@.entries == stable_sort(books@, by_title()).map_values(
            |b: BookDesc| numbered_book_entry(b),
        ),
{
    let ordered = sort_stable(books, title_not_after, Ghost(by_title()));
    numbered_books_feed(&ordered)
}

/// The books of an author, the latest added first.
pub fn books_by_date_feed(books: Vec<BookDesc>) -> (f: Feed)
    ensures
        f@.title == "Книги"@,
        f@.entries == stable_sort(books@, by_date_desc()).map_values(
            |b: BookDesc| numbered_book_entry(b),
        ),
{
    let ordered = sort_stable(books, date_desc_not_after, Ghost(by_date_desc()));
    numbered_books_feed(&ordered)
}

/// How the books of an author are listed for each way of sorting: the order
/// of the list and whether titles carry the number in the series.
pub open spec fn author_books_entries(books: Seq<BookDesc>, sort: Sort) -> Seq<EntryView> {
    match sort {
        Sort::BySerie(_) => books.map_values(|b: BookDesc| numbered_book_entry(b)),
        Sort::NoSerie => stable_sort(books, by_title()).map_values(|b: BookDesc| book_entry(b)),
        Sort::ByGenre(_) => Seq::empty(),
        Sort::Alphabet => stable_sort(books, by_title()).map_values(|b: BookDesc| book_entry(b)),
        Sort::Added => stable_sort(books, by_date_desc()).map_values(|b: BookDesc| book_entry(b)),
    }
}

/// The books of an author, listed as `sort` says: the books of one series in
/// the order given, with their numbers; books outside series and all books by
/// title; all books by date, latest first. Listing by genre is not offered and
/// gives no entries.
pub fn author_books_feed(books: Vec<BookDesc>, sort: Sort) -> (f: Feed)
    ensures
        f@.title == "Книги"@,
        f@.entries == author_books_entries(books@, sort),
{
    let mut feed = Feed::new(text("Книги"));
    let ghost given = books@;
    match sort {
        Sort::BySerie(_) => {
            add_all(&mut feed, &books, numbered_book_line, Ghost(|b: BookDesc| numbered_book_entry(b)));
        },
        Sort::NoSerie | Sort::Alphabet => {
            let ordered = sort_stable(books, title_not_after, Ghost(by_title()));
            add_all(&mut feed, &ordered, book_line, Ghost(|b: BookDesc| book_entry(b)));
        },
        Sort::Added => {
            let ordered = sort_stable(books, date_desc_not_after, Ghost(by_date_desc()));
            add_all(&mut feed, &ordered, book_line, Ghost(|b: BookDesc| book_entry(b)));
        },
        Sort::ByGenre(_) => {},
    }
    assert(feed@.entries =~= author_books_entries(given, sort));
    feed
}

/// Books of a series ordered by number.
pub open spec fn by_serie_number() -> spec_fn(BookSerie, BookSerie) -> bool {
    |a: BookSerie, b: BookSerie| a.num <= b.num
}

/// Books of a series ordered by title, in the catalogue order.
pub open spec fn by_serie_title() -> spec_fn(BookSerie, BookSerie) -> bool {
    |a: BookSerie, b: BookSerie| fb2_leq()(a.name@, b.name@)
}

/// Books of a series ordered by date, in the catalogue order.
pub open spec fn by_serie_date() -> spec_fn(BookSerie, BookSerie) -> bool {
    |a: BookSerie, b: BookSerie| fb2_leq()(a.date@, b.date@)
}

/// The books of a series in the order that `sort` names: "numbered", "alphabet"
/// or "added"; any other word keeps the order given.
pub open spec fn serie_books_in_order(values: Seq<BookSerie>, sort: Seq<char>) -> Seq<BookSerie> {
    if sort == "numbered"@ {
        stable_sort(values, by_serie_number())
    } else if sort == "alphabet"@ {
        stable_sort(values, by_serie_title())
    } else if sort == "added"@ {
        stable_sort(values, by_serie_date())
    } else {
        values
    }
}

fn serie_number_not_after(a: &BookSerie, b: &BookSerie) -> (r: bool)
    ensures
        r == by_serie_number()(*a, *b),
        r == (a.num <= b.num),
{
    a.num <= b.num
}

fn serie_title_not_after(a: &BookSerie, b: &BookSerie) -> (r: bool)
    ensures
        r == by_serie_title()(*a, *b),
{
    fb2_not_after(&a.name, &b.name)
}

fn serie_date_not_after(a: &BookSerie, b: &BookSerie) -> (r: bool)
    ensures
        r == by_serie_date()(*a, *b),
{
    fb2_not_after(&a.date, &b.date)
}

/// The books of a series, in the order `sort` names, each titled with its
/// number, name, author and date.
pub fn serie_books_feed(values: Vec<BookSerie>, sort: &String) -> (f: Feed)
    ensures
        f@.title == "Книги в серии"@,
        f@.entries == serie_books_in_order(values@, sort@).map_values(
            |b: BookSerie| serie_book_entry(b),
        ),
{
    let mut feed = Feed::new(text("Книги в серии"));
    let ordered = if *sort == text("numbered") {
        sort_stable(values, serie_number_not_after, Ghost(by_serie_number()))
    } else if *sort == text("alphabet") {
        sort_stable(values, serie_title_not_after, Ghost(by_serie_title()))
    } else if *sort == text("added") {
        sort_stable(values, serie_date_not_after, Ghost(by_serie_date()))
    } else {
        values
    };
    add_all(&mut feed, &ordered, serie_book_line, Ghost(|b: BookSerie| serie_book_entry(b)));
    assert(feed@.entries =~= ordered@.map_values(|b: BookSerie| serie_book_entry(b)));
    feed
}

// ---------------------------------------------------------------- fixed pages
/// The root of the catalogue.
pub fn catalog_root() -> (f: Feed)
    ensures
        f@.title == "Catalog Root"@,
        f@.entries == seq![
            entry_of("Поиск книг по авторам"@, "/opds/authors"@),
            entry_of("Поиск книг по сериям"@, "/opds/series"@),
            entry_of("Поиск книг по жанрам"@, "/opds/meta"@),
            entry_of("Любимые авторы "@, "/opds/favorites"@),
        ],
{
    let mut feed = Feed::new(text("Catalog Root"));
    feed.add(text("Поиск книг по авторам"), text("/opds/authors"));
    feed.add(text("Поиск книг по сериям"), text("/opds/series"));
    feed.add(text("Поиск книг по жанрам"), text("/opds/meta"));
    feed.add(text("Любимые авторы "), text("/opds/favorites"));
    assert(feed@.entries =~= seq![
        entry_of("Поиск книг по авторам"@, "/opds/authors"@),
        entry_of("Поиск книг по сериям"@, "/opds/series"@),
        entry_of("Поиск книг по жанрам"@, "/opds/meta"@),
        entry_of("Любимые авторы "@, "/opds/favorites"@),
    ]);
    feed
}

/// The page shown for what the catalogue does not offer yet.
pub fn not_implemented() -> (f: Feed)
    ensures
        f@.title == "Not Implemented"@,
        f@.entries == seq![entry_of("Пока не работает"@, "/opds/nimpl"@)],
{
    let mut feed = Feed::new(text("Not Implemented"));
    feed.add(text("Пока не работает"), text("/opds/nimpl"));
    assert(feed@.entries =~= seq![entry_of("Пока не работает"@, "/opds/nimpl"@)]);
    feed
}

/// The three name ids of an author as a path: "F/M/L".
pub open spec fn ids_path(first: u32, middle: u32, last: u32) -> Seq<char> {
    decimal(first as nat) + "/"@ + decimal(middle as nat) + "/"@ + decimal(last as nat)
}

/// A link made of `head` and the author's ids path.
fn ids_link(head: &str, first: u32, middle: u32, last: u32) -> (r: String)
    ensures
        r@ == head@ + ids_path(first, middle, last),
{
    let mut s = text(head);
    push_decimal(&mut s, first);
    s.append("/");
    push_decimal(&mut s, middle);
    s.append("/");
    push_decimal(&mut s, last);
    assert(s@ =~= head@ + ids_path(first, middle, last));
    s
}

/// The page of an author: the ways to list the author's books.
pub fn author_root(first: u32, middle: u32, last: u32) -> (f: Feed)
    ensures
        f@.title == "Книги автора"@,
        f@.entries == seq![
            entry_of("Книги по сериям"@, "/opds/author/series/"@ + ids_path(first, middle, last)),
            entry_of(
                "Книги без серий"@,
                "/opds/author/nonserie/books/"@ + ids_path(first, middle, last),
            ),
            entry_of("Книги по жанрам"@, "/opds/nimpl"@),
            entry_of(
                "Книги по алфавиту"@,
                "/opds/author/alphabet/books/"@ + ids_path(first, middle, last),
            ),
            entry_of(
                "Книги по дате поступления"@,
                "/opds/author/added/books/"@ + ids_path(first, middle, last),
            ),
        ],
{
    let mut feed = Feed::new(text("Книги автора"));
    feed.add(text("Книги по сериям"), ids_link("/opds/author/series/", first, middle, last));
    feed.add(
        text("Книги без серий"),
        ids_link("/opds/author/nonserie/books/", first, middle, last),
    );
    feed.add(text("Книги по жанрам"), text("/opds/nimpl"));
    feed.add(
        text("Книги по алфавиту"),
        ids_link("/opds/author/alphabet/books/", first, middle, last),
    );
    feed.add(
        text("Книги по дате поступления"),
        ids_link("/opds/author/added/books/", first, middle, last),
    );
    assert(feed@.entries =~= seq![
        entry_of("Книги по сериям"@, "/opds/author/series/"@ + ids_path(first, middle, last)),
        entry_of("Книги без серий"@, "/opds/author/nonserie/books/"@ + ids_path(first, middle, last)),
        entry_of("Книги по жанрам"@, "/opds/nimpl"@),
        entry_of("Книги по алфавиту"@, "/opds/author/alphabet/books/"@ + ids_path(first, middle, last)),
        entry_of(
            "Книги по дате поступления"@,
            "/opds/author/added/books/"@ + ids_path(first, middle, last),
        ),
    ]);
    feed
}

/// A link to the books of series `id` in the order `order`.
fn serie_books_link(id: u32, order: &str) -> (r: String)
    ensures
        r@ == "/opds/serie/books/"@ + decimal(id as nat) + "/"@ + order@,
{
    let mut s = text("/opds/serie/books/");
    push_decimal(&mut s, id);
    s.append("/");
    s.append(order);
    s
}

/// The page of a series: the orders in which its books can be listed.
pub fn serie_root(id: u32) -> (f: Feed)
    ensures
        f@.title == "Книги в серии"@,
        f@.entries == seq![
            entry_of(
                "Книги по номеру в серии"@,
                "/opds/serie/books/"@ + decimal(id as nat) + "/"@ + "numbered"@,
            ),
            entry_of(
                "Книги по алфавиту"@,
                "/opds/serie/books/"@ + decimal(id as nat) + "/"@ + "alphabet"@,
            ),
            entry_of(
                "Книги по дате поступления"@,
                "/opds/serie/books/"@ + decimal(id as nat) + "/"@ + "added"@,
            ),
        ],
{
    let mut feed = Feed::new(text("Книги в серии"));
    feed.add(text("Книги по номеру в серии"), serie_books_link(id, "numbered"));
    feed.add(text("Книги по алфавиту"), serie_books_link(id, "alphabet"));
    feed.add(text("Книги по дате поступления"), serie_books_link(id, "added"));
    assert(feed@.entries =~= seq![
        entry_of(
            "Книги по номеру в серии"@,
            "/opds/serie/books/"@ + decimal(id as nat) + "/"@ + "numbered"@,
        ),
        entry_of("Книги по алфавиту"@, "/opds/serie/books/"@ + decimal(id as nat) + "/"@ + "alphabet"@),
        entry_of(
            "Книги по дате поступления"@,
            "/opds/serie/books/"@ + decimal(id as nat) + "/"@ + "added"@,
        ),
    ]);
    feed
}

/// The text that decoding a path segment yields: the decoded string, or the
/// message of the error.
pub open spec fn lossy(text: Seq<char>) -> Seq<char> {
    match decoded(text) {
        Ok(s) => s,
        Err(m) => m,
    }
}

/// The page of a genre, whose name arrives encoded: links to its books by
/// author, by series and by date.
pub fn genre_root(encoded_genre: String) -> (f: Feed)
    ensures
        f@.title == "Книги в жанре '"@ + lossy(encoded_genre@) + "'"@,
        f@.entries == seq![
            entry_of(label_of("По авторам"@), link_of("/opds/genre/authors"@, lossy(encoded_genre@))),
            entry_of(label_of("По сериям"@), link_of("/opds/genre/series"@, lossy(encoded_genre@))),
            entry_of(
                label_of("По дате (not impl)"@),
                link_of("/opds/genre/date"@, lossy(encoded_genre@)),
            ),
        ],
{
    let genre = decode_with_lossy(encoded_genre);
    let mut title = text("Книги в жанре '");
    title.append(genre.as_str());
    title.append("'");
    let mut feed = Feed::new(title);
    add_to_feed(FeedSrc::new(text("По авторам"), text("/opds/genre/authors"), genre.clone()), &mut feed);
    add_to_feed(FeedSrc::new(text("По сериям"), text("/opds/genre/series"), genre.clone()), &mut feed);
    add_to_feed(FeedSrc::new(text("По дате (not impl)"), text("/opds/genre/date"), genre), &mut feed);
    assert(feed@.entries =~= seq![
        entry_of(label_of("По авторам"@), link_of("/opds/genre/authors"@, lossy(encoded_genre@))),
        entry_of(label_of("По сериям"@), link_of("/opds/genre/series"@, lossy(encoded_genre@))),
        entry_of(label_of("По дате (not impl)"@), link_of("/opds/genre/date"@, lossy(encoded_genre@))),
    ]);
    feed
}

/// An entry per genre, titled with its name and linking under `root`.
pub open spec fn genre_entry(root: Seq<char>, genre: Seq<char>) -> EntryView {
    entry_of(genre, root + "/"@ + genre)
}

/// A page titled `title` with an entry per genre, in the order given.
pub fn genres_feed(title: String, root: String, genres: Vec<String>) -> (f: Feed)
    ensures
        f@.title == title@,
        f@.entries == genres.deep_view().map_values(|g: Seq<char>| genre_entry(root@, g)),
{
    let mut feed = Feed::new(title);
    let mut i: usize = 0;
    let ghost gs = genres.deep_view();
    while i < genres.len()
        invariant
            i <= genres.len(),
            gs == genres.deep_view(),
            feed@.title == title@,
            feed@.entries == gs.take(i as int).map_values(|g: Seq<char>| genre_entry(root@, g)),
        decreases genres.len() - i,
    {
        let genre = &genres[i];
        let mut link = root.clone();
        link.append("/");
        link.append(genre.as_str());
        feed.add(genre.clone(), link);
        assert(gs[i as int] == genre@);
        assert(gs.take(i as int + 1).map_values(|g: Seq<char>| genre_entry(root@, g)) =~= gs.take(
            i as int,
        ).map_values(|g: Seq<char>| genre_entry(root@, g)).push(genre_entry(root@, genre@)));
        i = i + 1;
    }
    assert(gs.take(i as int) =~= gs);
    feed
}

/// The entry of a series of a genre: name and book count, linking to the series.
pub open spec fn genre_serie_entry(s: Serie) -> EntryView {
    entry_of(serie_count_title(s), serie_link(s.id))
}

/// The title and link of the entry of a series of a genre.
fn genre_serie_line(s: &Serie) -> (r: (String, String))
    ensures
        entry_of(r.0@, r.1@) == genre_serie_entry(*s),
{
    let mut title = s.name.clone();
    title.append(" [");
    push_decimal(&mut title, s.count);
    title.append(" книг]");
    let mut link = text("/opds/serie/id/");
    push_decimal(&mut link, s.id);
    assert(title@ =~= serie_count_title(*s));
    (title, link)
}

/// The series of a genre, by name in the catalogue order.
pub fn genre_series_feed(genre: String, series: Vec<Serie>) -> (f: Feed)
    ensures
        f@.title == genre@,
        f@.entries == stable_sort(series@, by_serie_name()).map_values(
            |s: Serie| genre_serie_entry(s),
        ),
{
    let mut feed = Feed::new(genre);
    let ordered = sort_stable(series, serie_name_not_after, Ghost(by_serie_name()));
    add_all(&mut feed, &ordered, genre_serie_line, Ghost(|s: Serie| genre_serie_entry(s)));
    assert(feed@.entries =~= ordered@.map_values(|s: Serie| genre_serie_entry(s)));
    feed
}

/// The authors of a genre, by first name in the catalogue order.
pub fn genre_authors_feed(genre: String, authors: Vec<Author>) -> (f: Feed)
    ensures
        f@.title == genre@,
        f@.entries == stable_sort(authors@, by_first_name()).map_values(
            |a: Author| author_entry(a),
        ),
{
    let mut feed = Feed::new(genre);
    add_author_entries(&mut feed, authors);
    assert(feed@.entries =~= stable_sort(authors@, by_first_name()).map_values(
        |a: Author| author_entry(a),
    ));
    feed
}

// ---------------------------------------------------------------- orders
/// The order of `String`'s `Ord` is a total order.
proof fn lemma_text_total()
    ensures
        vstd::relations::total_ordering(crate::collate::lex_leq(crate::collate::code_ranking())),
{
    crate::collate::lemma_code_ranking_injective();
    crate::collate::lemma_lex_total(crate::collate::code_ranking());
}

/// Every order in which the catalogue lists records compares any two records
/// and is transitive, so each listing is sorted by its order (see
/// `collate::lemma_stable_sort_sorted`).
pub proof fn lemma_listing_orders_total()
    ensures
        total_preorder(by_first_name()),
        total_preorder(by_value()),
        total_preorder(by_serie_name()),
        total_preorder(by_title()),
        total_preorder(by_date_desc()),
        total_preorder(by_number_title_date()),
        total_preorder(by_serie_number()),
        total_preorder(by_serie_title()),
        total_preorder(by_serie_date()),
{
    crate::utils::lemma_fb2_total();
    lemma_text_total();
    let f = fb2_leq();
    let t = crate::collate::lex_leq(crate::collate::code_ranking());
    assert(total_preorder(by_first_name())) by {
        let r = by_first_name();
        assert forall|x: Author, y: Author, z: Author| #[trigger] r(x, y) && #[trigger] r(y, z) implies r(x, z) by {
            assert(f(x.first_name.value@, y.first_name.value@) && f(y.first_name.value@, z.first_name.value@));
        }
        assert forall|x: Author, y: Author| #[trigger] r(x, y) || #[trigger] r(y, x) by {
            assert(f(x.first_name.value@, y.first_name.value@) || f(y.first_name.value@, x.first_name.value@));
        }
    }
    assert(total_preorder(by_value())) by {
        let r = by_value();
        assert forall|x: Value, y: Value, z: Value| #[trigger] r(x, y) && #[trigger] r(y, z) implies r(x, z) by {
            assert(f(x.value@, y.value@) && f(y.value@, z.value@));
        }
        assert forall|x: Value, y: Value| #[trigger] r(x, y) || #[trigger] r(y, x) by {
            assert(f(x.value@, y.value@) || f(y.value@, x.value@));
        }
    }
    assert(total_preorder(by_serie_name())) by {
        let r = by_serie_name();
        assert forall|x: Serie, y: Serie, z: Serie| #[trigger] r(x, y) && #[trigger] r(y, z) implies r(x, z) by {
            assert(f(x.name@, y.name@) && f(y.name@, z.name@));
        }
        assert forall|x: Serie, y: Serie| #[trigger] r(x, y) || #[trigger] r(y, x) by {
            assert(f(x.name@, y.name@) || f(y.name@, x.name@));
        }
    }
    assert(total_preorder(by_title())) by {
        let r = by_title();
        assert forall|x: BookDesc, y: BookDesc, z: BookDesc| #[trigger] r(x, y) && #[trigger] r(y, z) implies r(x, z) by {
            assert(f(x.name@, y.name@) && f(y.name@, z.name@));
        }
        assert forall|x: BookDesc, y: BookDesc| #[trigger] r(x, y) || #[trigger] r(y, x) by {
            assert(f(x.name@, y.name@) || f(y.name@, x.name@));
        }
    }
    assert(total_preorder(by_date_desc())) by {
        let r = by_date_desc();
        assert forall|x: BookDesc, y: BookDesc, z: BookDesc| #[trigger] r(x, y) && #[trigger] r(y, z) implies r(x, z) by {
            assert(t(z.date@, y.date@) && t(y.date@, x.date@));
        }
        assert forall|x: BookDesc, y: BookDesc| #[trigger] r(x, y) || #[trigger] r(y, x) by {
            assert(t(x.date@, y.date@) || t(y.date@, x.date@));
        }
    }
    assert(total_preorder(by_number_title_date())) by {
        let r = by_number_title_date();
        assert forall|x: BookDesc, y: BookDesc, z: BookDesc| #[trigger] r(x, y) && #[trigger] r(y, z) implies r(x, z) by {
            let cr = crate::collate::code_ranking();
            if text_leq(x.name@, y.name@) && text_leq(y.name@, z.name@) {
                crate::collate::lemma_lex_transitive(x.name@, y.name@, z.name@, cr);
            }
            if text_leq(x.date@, y.date@) && text_leq(y.date@, z.date@) {
                crate::collate::lemma_lex_transitive(x.date@, y.date@, z.date@, cr);
            }
        }
        assert forall|x: BookDesc, y: BookDesc| #[trigger] r(x, y) || #[trigger] r(y, x) by {
            crate::collate::lemma_lex_reversed(x.name@, y.name@, crate::collate::code_ranking());
            crate::collate::lemma_lex_reversed(x.date@, y.date@, crate::collate::code_ranking());
            crate::collate::lemma_code_ranking_injective();
            crate::collate::lemma_lex_equal(x.name@, y.name@, crate::collate::code_ranking());
        }
    }
    assert(total_preorder(by_serie_title())) by {
        let r = by_serie_title();
        assert forall|x: BookSerie, y: BookSerie, z: BookSerie| #[trigger] r(x, y) && #[trigger] r(y, z) implies r(x, z) by {
            assert(f(x.name@, y.name@) && f(y.name@, z.name@));
        }
        assert forall|x: BookSerie, y: BookSerie| #[trigger] r(x, y) || #[trigger] r(y, x) by {
            assert(f(x.name@, y.name@) || f(y.name@, x.name@));
        }
    }
    assert(total_preorder(by_serie_date())) by {
        let r = by_serie_date();
        assert forall|x: BookSerie, y: BookSerie, z: BookSerie| #[trigger] r(x, y) && #[trigger] r(y, z) implies r(x, z) by {
            assert(f(x.date@, y.date@) && f(y.date@, z.date@));
        }
        assert forall|x: BookSerie, y: BookSerie| #[trigger] r(x, y) || #[trigger] r(y, x) by {
            assert(f(x.date@, y.date@) || f(y.date@, x.date@));
        }
    }
}


/// The books of a series listed "numbered" come by their number in the series,
/// compared as numbers, each not after the next; they are the books given,
/// each as many times as given.
pub proof fn lemma_numbered_by_number(values: Seq<BookSerie>)
    ensures
        forall|i: int, j: int|
            0 <= i <= j < values.len() ==> (#[trigger] serie_books_in_order(values, "numbered"@)[i]).num
                <= (#[trigger] serie_books_in_order(values, "numbered"@)[j]).num,
        serie_books_in_order(values, "numbered"@).to_multiset() == values.to_multiset(),
        serie_books_in_order(values, "numbered"@).len() == values.len(),
{
    broadcast use vstd::seq_lib::group_to_multiset_ensures;

    lemma_listing_orders_total();
    crate::collate::lemma_stable_sort_sorted(values, by_serie_number());
    let s = serie_books_in_order(values, "numbered"@);
    assert(s == stable_sort(values, by_serie_number()));
    assert(s.to_multiset().len() == s.len());
    assert(values.to_multiset().len() == values.len());
    assert forall|i: int, j: int| 0 <= i <= j < values.len() implies (#[trigger] s[i]).num <= (
    #[trigger] s[j]).num by {
        if i < j {
            assert(by_serie_number()(s[i], s[j]));
        }
    }
}

} // verus!
