//! OPDS (Atom) catalogue feeds: entries, feeds, their XML form, and the
//! length-first order of the first catalogue's author prefixes.

use crate::collate::{
    code, length, injective_rank, is_ascii_char, lemma_lex_total, lex_leq, lex_order, order_of,
    sort_strings, Collation,
};
use crate::sql::{
    AUTHORS_BY_LAST_NAME_ID_HEAD, AUTHORS_BY_LAST_NAME_ID_TAIL, LAST_NAME_ID_HEAD, LAST_NAME_ID_TAIL,
    PATTERNS_HEAD, PATTERNS_MIDDLE, PATTERNS_TAIL,
};
use crate::text::{decimal, push_decimal, push_decimal_u64};
use std::cmp::Ordering;
use vstd::prelude::*;
use vstd::relations::{sorted_by, total_ordering};
use vstd::std_specs::iter::IteratorSpec;

verus! {

broadcast use vstd::string::group_string_axioms;

/// The contents of a feed entry.
pub struct EntryView {
    pub id: Seq<char>,
    pub title: Seq<char>,
    pub link: Seq<char>,
}

/// One entry of a feed: a titled link to another catalogue page.
pub struct Entry {
    pub id: String,
    pub title: String,
    pub link: String,
}

impl View for Entry {
    type V = EntryView;

    open spec fn view(&self) -> EntryView {
        EntryView { id: self.id@, title: self.title@, link: self.link@ }
    }
}

/// The link with every '/' replaced by ':'.
pub open spec fn link_id(link: Seq<char>) -> Seq<char> {
    link.map_values(|c: char| if c == '/' { ':' } else { c })
}

/// The entry that `Entry::new(title, link)` makes: its id is "root" followed
/// by the link with '/' replaced by ':'.
pub open spec fn entry_of(title: Seq<char>, link: Seq<char>) -> EntryView {
    EntryView { id: "root"@ + link_id(link), title, link }
}

impl Entry {
    /// A new entry titled `title` that points at `link`.
    pub fn new(title: String, link: String) -> (e: Entry)
        ensures
            e@ == entry_of(title@, link@),
    {
        let mut id = String::from_str("root");
        let mut it = link.as_str().chars();
        let ghost done: int = 0;
        loop
            invariant
                it.obeys_prophetic_iter_laws(),
                it.decrease() is Some,
                0 <= done <= link@.len(),
                it.remaining() == link@.skip(done),
                id@ == "root"@ + link_id(link@.take(done)),
            ensures
                id@ == "root"@ + link_id(link@),
            decreases it.decrease()->0,
        {
            let ghost before = it.remaining();
            match it.next() {
                Some(c) => {
                    if c == '/' {
                        id.push(':');
                    } else {
                        id.push(c);
                    }
                    proof {
                        assert(link@.skip(done)[0] == link@[done]);
                        assert(link@.take(done + 1) =~= link@.take(done).push(link@[done]));
                        assert(link_id(link@.take(done + 1)) =~= link_id(link@.take(done)).push(
                            if link@[done] == '/' { ':' } else { link@[done] },
                        ));
                        assert(before.drop_first() =~= link@.skip(done + 1));
                        done = done + 1;
                    }
                },
                None => {
                    proof {
                        assert(link@.take(done) =~= link@);
                    }
                    break;
                },
            }
        }
        Entry { id, title, link }
    }
}

/// The contents of a feed.
pub struct FeedView {
    pub title: Seq<char>,
    pub entries: Seq<EntryView>,
}

/// A catalogue page: a title and a list of entries.
pub struct Feed {
    pub title: String,
    pub entries: Vec<Entry>,
}

impl View for Feed {
    type V = FeedView;

    open spec fn view(&self) -> FeedView {
        FeedView { title: self.title@, entries: self.entries@.map_values(|e: Entry| e@) }
    }
}

impl Feed {
    /// An empty feed titled `title`.
    pub fn new(title: String) -> (f: Feed)
        ensures
            f@.title == title@,
            f@.entries == Seq::<EntryView>::empty(),
    {
        let f = Feed { title, entries: Vec::new() };
        assert(f@.entries =~= Seq::<EntryView>::empty());
        f
    }

    /// Appends an entry titled `title` that points at `link`.
    pub fn add(&mut self, title: String, link: String)
        ensures
            final(self)@.title == old(self)@.title,
            final(self)@.entries == old(self)@.entries.push(entry_of(title@, link@)),
    {
        let entry = Entry::new(title, link);
        self.entries.push(entry);
        assert(self@.entries =~= old(self)@.entries.push(entry_of(title@, link@)));
    }
}

/// Text escaped the way `quick_xml` escapes element text: `<`, `>`, `&`, `'`,
/// `"` and carriage return become character references.
pub open spec fn text_escape(c: char) -> Seq<char> {
    if c == '<' {
        "&lt;"@
    } else if c == '>' {
        "&gt;"@
    } else if c == '&' {
        "&amp;"@
    } else if c == '\'' {
        "&apos;"@
    } else if c == '"' {
        "&quot;"@
    } else if c == '\r' {
        "&#13;"@
    } else {
        seq![c]
    }
}

/// Attribute values are escaped as text, and line feeds and tabs as well.
pub open spec fn attr_escape(c: char) -> Seq<char> {
    if c == '\n' {
        "&#10;"@
    } else if c == '\t' {
        "&#9;"@
    } else {
        text_escape(c)
    }
}

/// `s` with each character replaced by `esc` of it.
pub open spec fn escaped(s: Seq<char>, esc: spec_fn(char) -> Seq<char>) -> Seq<char>
    decreases s.len(),
{
    if s.len() == 0 {
        Seq::empty()
    } else {
        escaped(s.drop_last(), esc) + esc(s.last())
    }
}

/// `s` escaped as element text.
pub open spec fn xml_text(s: Seq<char>) -> Seq<char> {
    escaped(s, |c: char| text_escape(c))
}

/// `s` escaped as an attribute value.
pub open spec fn xml_attr(s: Seq<char>) -> Seq<char> {
    escaped(s, |c: char| attr_escape(c))
}

/// `quick_xml::escape::escape`: the text with `<`, `>`, `&`, `'`, `"` and
/// carriage return replaced by character references, everything else kept.
#[verifier::external_body]
fn escape_text(s: &str) -> (r: String)
    ensures
        r@ == xml_text(s@),
{
    quick_xml::escape::escape(s).into_owned()
}

/// The value that `quick_xml::events::attributes::Attribute::from((name, value))`
/// stores: the text escaped as by `escape`, with line feeds and tabs escaped too.
#[verifier::external_body]
fn escape_attribute(s: &str) -> (r: String)
    ensures
        r@ == xml_attr(s@),
{
    quick_xml::events::attributes::Attribute::from(("href", s)).value.into_owned()
}

/// `chrono::Utc::now()` in its `Debug` form, the feed's `updated` stamp: the
/// date and time, then the offset of `Utc`, written `Z`. Which time it is
/// depends on the clock and is not stated.
#[verifier::external_body]
fn now_stamp() -> (r: String)
    ensures
        r@.len() > 0,
        r@.last() == 'Z',
{
    format!("{:?}", chrono::Utc::now())
}

/// The XML declaration, the opening of the Atom feed element and of its title.
pub const FEED_HEAD: &'static str = "<?xml version=\"1.0\" encoding=\"utf-8\"?><feed xmlns=\"http://www.w3.org/2005/Atom\" xmlns:dc=\"http://purl.org/dc/terms/\" xmlns:os=\"http://a9.com/-/spec/opensearch/1.1/\" xmlns:opds=\"http://opds-spec.org/2010/catalog\"><title>";

/// Between the title and the update stamp.
pub const FEED_UPDATED: &'static str = "</title><updated>";

/// The end of the update stamp and the link to the catalogue root.
pub const FEED_START_LINK: &'static str = "</updated><link href=\"/opds\" rel=\"/start\" type=\"application/atom+xml;profile=opds-catalog\"/>";

/// The end of the feed.
pub const FEED_TAIL: &'static str = "</feed>";

/// The opening of an entry and of its id.
pub const ENTRY_HEAD: &'static str = "<entry><id>";

/// Between the id and the title of an entry.
pub const ENTRY_TITLE: &'static str = "</id><title>";

/// Between the title and the link of an entry.
pub const ENTRY_LINK: &'static str = "</title><link href=\"";

/// The end of an entry.
pub const ENTRY_TAIL: &'static str = "\" type=\"application/atom+xml;profile=opds-catalog\"/></entry>";

/// The XML of one entry.
pub open spec fn entry_xml(e: EntryView) -> Seq<char> {
    ENTRY_HEAD@ + xml_text(e.id) + ENTRY_TITLE@ + xml_text(e.title) + ENTRY_LINK@ + xml_attr(e.link)
        + ENTRY_TAIL@
}

/// The XML of a list of entries, one after the other.
pub open spec fn entries_xml(es: Seq<EntryView>) -> Seq<char>
    decreases es.len(),
{
    if es.len() == 0 {
        Seq::empty()
    } else {
        entries_xml(es.drop_last()) + entry_xml(es.last())
    }
}

/// The entries are written in their order: the XML of a single entry is that
/// entry's XML, and the XML of two lists one after the other is the XML of the
/// first list followed by that of the second.
pub proof fn lemma_entries_in_order(a: Seq<EntryView>, b: Seq<EntryView>, e: EntryView)
    ensures
        entries_xml(seq![e]) == entry_xml(e),
        entries_xml(a + b) == entries_xml(a) + entries_xml(b),
    decreases b.len(),
{
    assert(seq![e].drop_last() =~= Seq::<EntryView>::empty());
    assert(entries_xml(Seq::<EntryView>::empty()) =~= Seq::<char>::empty());
    assert(Seq::<char>::empty() + entry_xml(e) =~= entry_xml(e));
    if b.len() == 0 {
        assert(a + b =~= a);
        assert(entries_xml(a) + entries_xml(b) =~= entries_xml(a));
    } else {
        lemma_entries_in_order(a, b.drop_last(), e);
        assert((a + b).drop_last() =~= a + b.drop_last());
        assert((a + b).last() == b.last());
    }
}

/// The XML document of a feed whose update stamp is `updated`.
pub open spec fn feed_xml(f: FeedView, updated: Seq<char>) -> Seq<char> {
    FEED_HEAD@ + xml_text(f.title) + FEED_UPDATED@ + xml_text(updated) + FEED_START_LINK@
        + entries_xml(f.entries) + FEED_TAIL@
}

/// Appends the XML of `entry` to `out`.
fn push_entry_xml(out: &mut String, entry: &Entry)
    ensures
        final(out)@ == old(out)@ + entry_xml(entry@),
{
    out.append(ENTRY_HEAD);
    out.append(escape_text(entry.id.as_str()).as_str());
    out.append(ENTRY_TITLE);
    out.append(escape_text(entry.title.as_str()).as_str());
    out.append(ENTRY_LINK);
    out.append(escape_attribute(entry.link.as_str()).as_str());
    out.append(ENTRY_TAIL);
    assert(out@ =~= old(out)@ + entry_xml(entry@));
}

/// The XML document of `feed` with the update stamp `updated`.
pub fn render_feed(feed: &Feed, updated: &str) -> (r: String)
    ensures
        r@ == feed_xml(feed@, updated@),
{
    let mut out = String::from_str(FEED_HEAD);
    out.append(escape_text(feed.title.as_str()).as_str());
    out.append(FEED_UPDATED);
    out.append(escape_text(updated).as_str());
    out.append(FEED_START_LINK);
    let ghost head = out@;
    let ghost es = feed@.entries;
    let mut i: usize = 0;
    assert(es.take(0) =~= Seq::<EntryView>::empty());
    while i < feed.entries.len()
        invariant
            i <= feed.entries.len(),
            es == feed@.entries,
            es.len() == feed.entries.len(),
            out@ == head + entries_xml(es.take(i as int)),
        decreases feed.entries.len() - i,
    {
        push_entry_xml(&mut out, &feed.entries[i]);
        assert(es.take(i as int + 1).drop_last() =~= es.take(i as int));
        i = i + 1;
    }
    assert(es.take(i as int) =~= es);
    out.append(FEED_TAIL);
    assert(out@ =~= feed_xml(feed@, updated@));
    out
}

/// The XML document of `feed`, stamped with the current time.
pub fn make_feed(feed: Feed) -> (r: String)
    ensures
        exists|updated: Seq<char>|
            updated.len() > 0 && updated.last() == 'Z' && r@ == feed_xml(feed@, updated),
{
    let updated = now_stamp();
    render_feed(&feed, updated.as_str())
}

/// The XML document of `feed`, stamped with the current time.
pub fn format_feed(feed: Feed) -> (r: String)
    ensures
        exists|updated: Seq<char>|
            updated.len() > 0 && updated.last() == 'Z' && r@ == feed_xml(feed@, updated),
{
    make_feed(feed)
}

/// Place of a character among same-length prefixes: non-ASCII characters come
/// before ASCII ones; within a group the code decides.
pub open spec fn pattern_rank(c: char) -> int {
    let group: int = if is_ascii_char(c) {
        1
    } else {
        0
    };
    group * 0x110000 + code(c)
}

/// The prefix ranking of characters as a function value.
pub open spec fn pattern_ranking() -> spec_fn(char) -> int {
    |c: char| pattern_rank(c)
}

/// Order of author prefixes: shorter prefixes first; prefixes of one length
/// lexicographically by `pattern_rank`.
pub open spec fn pattern_order(a: Seq<char>, b: Seq<char>) -> Ordering {
    if a.len() != b.len() {
        order_of(length(a), length(b))
    } else {
        lex_order(a, b, pattern_ranking())
    }
}

/// "Not after" in the order of author prefixes.
pub open spec fn pattern_leq() -> spec_fn(Seq<char>, Seq<char>) -> bool {
    |a: Seq<char>, b: Seq<char>| pattern_order(a, b) != Ordering::Greater
}

/// The order of author prefixes is a total order.
pub proof fn lemma_pattern_total()
    ensures
        total_ordering(pattern_leq()),
{
    let rank = pattern_ranking();
    assert(injective_rank(rank)) by {
        assert forall|x: char, y: char| #[trigger] rank(x) == #[trigger] rank(y) implies x == y by {
            vstd::utf8::char_is_scalar(x);
            vstd::utf8::char_is_scalar(y);
            assert(code(x) == code(y));
            vstd::utf8::char_u32_cast(x, x as u32);
            vstd::utf8::char_u32_cast(y, y as u32);
        }
    }
    lemma_lex_total(rank);
    let lex = lex_leq(rank);
    let leq = pattern_leq();
    assert forall|x: Seq<char>, y: Seq<char>| #[trigger] leq(x, y) && #[trigger] leq(y, x) implies x
        == y by {
        if x.len() == y.len() {
            assert(lex(x, y) && lex(y, x));
        }
    }
    assert forall|x: Seq<char>, y: Seq<char>, z: Seq<char>| #[trigger] leq(x, y) && #[trigger] leq(
        y,
        z,
    ) implies leq(x, z) by {
        if x.len() == y.len() && y.len() == z.len() {
            assert(lex(x, y) && lex(y, z));
        }
    }
    assert forall|x: Seq<char>, y: Seq<char>| #[trigger] leq(x, y) || #[trigger] leq(y, x) by {
        if x.len() == y.len() {
            assert(lex(x, y) || lex(y, x));
        }
    }
    assert forall|x: Seq<char>| #[trigger] leq(x, x) by {
        assert(lex(x, x));
    }
}

/// Compares two author prefixes: the one with fewer characters first; for equal
/// lengths the first differing character decides, a non-ASCII character coming
/// before an ASCII one and codes deciding otherwise.
pub fn compare_patterns(a: &String, b: &String) -> (r: Ordering)
    ensures
        r == pattern_order(a@, b@),
{
    let la = a.as_str().unicode_len();
    let lb = b.as_str().unicode_len();
    if la < lb {
        return Ordering::Less;
    } else if la > lb {
        return Ordering::Greater;
    }
    let mut ac = a.as_str().chars();
    let mut bc = b.as_str().chars();
    loop
        invariant
            ac.remaining().len() == bc.remaining().len(),
            pattern_order(a@, b@) == lex_order(ac.remaining(), bc.remaining(), pattern_ranking()),
            ac.obeys_prophetic_iter_laws(),
            bc.obeys_prophetic_iter_laws(),
            ac.decrease() is Some,
        decreases ac.decrease()->0,
    {
        let ghost ra = ac.remaining();
        let ghost rb = bc.remaining();
        match (ac.next(), bc.next()) {
            (Some(x), Some(y)) => {
                let x_ascii = crate::utils::char_is_ascii(x);
                let y_ascii = crate::utils::char_is_ascii(y);
                proof {
                    vstd::utf8::char_is_scalar(x);
                    vstd::utf8::char_is_scalar(y);
                    assert(ra[0] == x && rb[0] == y);
                    assert(ac.remaining() == ra.drop_first());
                    assert(bc.remaining() == rb.drop_first());
                    assert(pattern_rank(x) == pattern_ranking()(x));
                    assert(pattern_rank(y) == pattern_ranking()(y));
                }
                if x_ascii && !y_ascii {
                    return Ordering::Greater;
                } else if !x_ascii && y_ascii {
                    return Ordering::Less;
                }
                let cx = crate::utils::char_code(x);
                let cy = crate::utils::char_code(y);
                if cx < cy {
                    return Ordering::Less;
                } else if cx > cy {
                    return Ordering::Greater;
                }
            },
            _ => {
                return Ordering::Equal;
            },
        }
    }
}

/// The author prefixes sorted shortest first, same-length prefixes by
/// `compare_patterns`.
pub fn sorted(patterns: Vec<String>) -> (r: Vec<String>)
    ensures
        r.deep_view() == patterns.deep_view().sort_by(pattern_leq()),
        sorted_by(r.deep_view(), pattern_leq()),
        r.deep_view().to_multiset() == patterns.deep_view().to_multiset(),
{
    sort_strings(Collation::LengthFirst, patterns)
}

/// An author as the first catalogue lists it: the ids and values of the three names.
pub struct Author {
    pub first_id: u32,
    pub middle_id: u32,
    pub last_id: u32,
    pub first_name: String,
    pub middle_name: String,
    pub last_name: String,
}

/// The entry of a last-name prefix.
pub open spec fn prefix_entry(prefix: Seq<char>) -> EntryView {
    entry_of("Авторы на '"@ + prefix + "'"@, "/opds/authors/"@ + prefix)
}

/// The entries of the prefixes `ps` other than `pattern`, in their order.
pub open spec fn prefix_entries_except(ps: Seq<Seq<char>>, pattern: Seq<char>) -> Seq<EntryView>
    decreases ps.len(),
{
    if ps.len() == 0 {
        Seq::empty()
    } else if ps.last() == pattern {
        prefix_entries_except(ps.drop_last(), pattern)
    } else {
        prefix_entries_except(ps.drop_last(), pattern).push(prefix_entry(ps.last()))
    }
}

/// Adds an entry for each prefix other than `pattern`, shortest first.
fn add_prefix_entries(feed: &mut Feed, pattern: &String, patterns: Vec<String>)
    ensures
        final(feed)@.title == old(feed)@.title,
        final(feed)@.entries == old(feed)@.entries + prefix_entries_except(
            patterns.deep_view().sort_by(pattern_leq()),
            pattern@,
        ),
{
    let ordered = sorted(patterns);
    let ghost ps = ordered.deep_view();
    let ghost start = feed@.entries;
    let mut i: usize = 0;
    assert(ps.take(0) =~= Seq::<Seq<char>>::empty());
    assert(start + prefix_entries_except(ps.take(0), pattern@) =~= start);
    while i < ordered.len()
        invariant
            i <= ordered.len(),
            ps == ordered.deep_view(),
            feed@.title == old(feed)@.title,
            feed@.entries == start + prefix_entries_except(ps.take(i as int), pattern@),
        decreases ordered.len() - i,
    {
        let prefix = &ordered[i];
        assert(ps[i as int] == prefix@);
        assert(ps.take(i as int + 1).drop_last() =~= ps.take(i as int));
        if *prefix != *pattern {
            let mut title = String::from_str("Авторы на '");
            title.append(prefix.as_str());
            title.append("'");
            let mut link = String::from_str("/opds/authors/");
            link.append(prefix.as_str());
            feed.add(title, link);
        }
        assert(feed@.entries =~= start + prefix_entries_except(ps.take(i as int + 1), pattern@));
        i = i + 1;
    }
    assert(ps.take(i as int) =~= ps);
}

/// The root page of the first catalogue: the searches by author, series and genre.
pub fn root_feed() -> (f: Feed)
    ensures
        f@.title == "Catalog Root"@,
        f@.entries == seq![
            entry_of("Поиск книг по авторам"@, "/opds/authors"@),
            entry_of("Поиск книг по сериям"@, "/opds/series"@),
            entry_of("Поиск книг по жанрам"@, "/opds/genres"@),
        ],
{
    let mut feed = Feed::new(String::from_str("Catalog Root"));
    feed.add(String::from_str("Поиск книг по авторам"), String::from_str("/opds/authors"));
    feed.add(String::from_str("Поиск книг по сериям"), String::from_str("/opds/series"));
    feed.add(String::from_str("Поиск книг по жанрам"), String::from_str("/opds/genres"));
    assert(feed@.entries =~= seq![
        entry_of("Поиск книг по авторам"@, "/opds/authors"@),
        entry_of("Поиск книг по сериям"@, "/opds/series"@),
        entry_of("Поиск книг по жанрам"@, "/opds/genres"@),
    ]);
    feed
}

/// The page of all last-name prefixes, shortest first; the empty prefix is left out.
pub fn authors_root_feed(patterns: Vec<String>) -> (f: Feed)
    ensures
        f@.title == "Поиск книг по авторам"@,
        f@.entries == prefix_entries_except(patterns.deep_view().sort_by(pattern_leq()), Seq::empty()),
{
    let mut feed = Feed::new(String::from_str("Поиск книг по авторам"));
    let empty = String::new();
    add_prefix_entries(&mut feed, &empty, patterns);
    assert(feed@.entries =~= prefix_entries_except(
        patterns.deep_view().sort_by(pattern_leq()),
        Seq::empty(),
    ));
    feed
}

/// The page of a last-name prefix: the author with that very last name, when
/// there is one (`id`), then the longer prefixes, shortest first.
pub fn authors_by_mask_feed(pattern: &String, id: Option<u32>, patterns: Vec<String>) -> (f: Feed)
    ensures
        f@.title == "Поиск книг по авторам"@,
        f@.entries == match id {
            Some(id) => seq![
                entry_of(
                    "Авторы '"@ + pattern@ + "' - "@ + decimal(id as nat),
                    "/opds/author/"@ + decimal(id as nat),
                ),
            ],
            None => Seq::<EntryView>::empty(),
        } + prefix_entries_except(patterns.deep_view().sort_by(pattern_leq()), pattern@),
{
    let mut feed = Feed::new(String::from_str("Поиск книг по авторам"));
    let ghost ps = patterns.deep_view();
    match id {
        Some(id) => {
            let mut title = String::from_str("Авторы '");
            title.append(pattern.as_str());
            title.append("' - ");
            push_decimal(&mut title, id);
            let mut link = String::from_str("/opds/author/");
            push_decimal(&mut link, id);
            feed.add(title, link);
        },
        None => {},
    }
    let ghost head = feed@.entries;
    add_prefix_entries(&mut feed, pattern, patterns);
    assert(head =~= match id {
        Some(id) => seq![
            entry_of(
                "Авторы '"@ + pattern@ + "' - "@ + decimal(id as nat),
                "/opds/author/"@ + decimal(id as nat),
            ),
        ],
        None => Seq::<EntryView>::empty(),
    });
    feed
}

/// The entry of an author of the first catalogue.
pub open spec fn author_row_entry(a: Author) -> EntryView {
    entry_of(
        a.first_name@ + " "@ + a.middle_name@ + " "@ + a.last_name@,
        "/opds/author/"@ + decimal(a.first_id as nat) + "/"@ + decimal(a.middle_id as nat) + "/"@
            + decimal(a.last_id as nat),
    )
}

/// The page of the authors with one last name, in the order given.
pub fn authors_by_id_feed(authors: Vec<Author>) -> (f: Feed)
    ensures
        f@.title == "Поиск книг по авторам"@,
        f@.entries == authors@.map_values(|a: Author| author_row_entry(a)),
{
    let mut feed = Feed::new(String::from_str("Поиск книг по авторам"));
    let mut i: usize = 0;
    while i < authors.len()
        invariant
            i <= authors.len(),
            feed@.title == "Поиск книг по авторам"@,
            feed@.entries == authors@.take(i as int).map_values(|a: Author| author_row_entry(a)),
        decreases authors.len() - i,
    {
        let a = &authors[i];
        let mut title = a.first_name.clone();
        title.append(" ");
        title.append(a.middle_name.as_str());
        title.append(" ");
        title.append(a.last_name.as_str());
        let mut link = String::from_str("/opds/author/");
        push_decimal(&mut link, a.first_id);
        link.append("/");
        push_decimal(&mut link, a.middle_id);
        link.append("/");
        push_decimal(&mut link, a.last_id);
        feed.add(title, link);
        assert(authors@.take(i as int + 1).map_values(|a: Author| author_row_entry(a)) =~= authors@.take(
            i as int,
        ).map_values(|a: Author| author_row_entry(a)).push(author_row_entry(authors@[i as int])));
        i = i + 1;
    }
    assert(authors@.take(i as int) =~= authors@);
    feed
}

/// The query for the id of the last name `name`.
pub fn last_name_id_query(name: &String) -> (q: String)
    ensures
        q@ == LAST_NAME_ID_HEAD@ + name@ + LAST_NAME_ID_TAIL@,
{
    let mut q = String::from_str(LAST_NAME_ID_HEAD);
    q.append(name.as_str());
    q.append(LAST_NAME_ID_TAIL);
    q
}

/// The query for the distinct last-name prefixes one character longer than
/// `pattern` among the names that start with it.
pub fn patterns_query(pattern: &String) -> (q: String)
    requires
        pattern@.len() < u64::MAX,
    ensures
        q@ == PATTERNS_HEAD@ + decimal(pattern@.len() + 1) + PATTERNS_MIDDLE@ + pattern@
            + PATTERNS_TAIL@,
{
    let len = pattern.as_str().unicode_len() as u64 + 1;
    let mut q = String::from_str(PATTERNS_HEAD);
    push_decimal_u64(&mut q, len);
    q.append(PATTERNS_MIDDLE);
    q.append(pattern.as_str());
    q.append(PATTERNS_TAIL);
    q
}

/// The query for the authors whose last name has id `id`.
pub fn authors_query(id: u32) -> (q: String)
    ensures
        q@ == AUTHORS_BY_LAST_NAME_ID_HEAD@ + decimal(id as nat) + AUTHORS_BY_LAST_NAME_ID_TAIL@,
{
    let mut q = String::from_str(AUTHORS_BY_LAST_NAME_ID_HEAD);
    push_decimal(&mut q, id);
    q.append(AUTHORS_BY_LAST_NAME_ID_TAIL);
    q
}

} // verus!
