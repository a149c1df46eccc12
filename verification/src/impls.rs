//! Feeds of name prefixes: each prefix becomes an entry that links to the
//! page of names that start with it, the prefix travelling base64-encoded in
//! the link.

use crate::opds::{entry_of, EntryView, Feed};
use crate::utils::{encode, encoded, fb2_leq, sorted};
use vstd::prelude::*;

verus! {

/// How the books of an author are listed.
pub enum Sort {
    /// The books of one series, in series order.
    BySerie(u32),
    /// The books outside any series, by title.
    NoSerie,
    /// The books of one genre.
    ByGenre(u32),
    /// All books, by title.
    Alphabet,
    /// All books, most recently added first.
    Added,
}

/// A labelled link to a page of the catalogue: `root` and the encoded `path`.
#[derive(Debug, PartialEq)]
pub struct FeedSrc {
    pub label: String,
    pub root: String,
    pub path: String,
}

impl FeedSrc {
    pub fn new(label: String, root: String, path: String) -> (r: Self)
        ensures
            r.label == label,
            r.root == root,
            r.path == path,
    {
        Self { label, root, path }
    }
}

/// The label of a prefix entry: the prefix followed by an ellipsis.
pub open spec fn label_of(content: Seq<char>) -> Seq<char> {
    content + "..."@
}

/// The link of a prefix entry: the root, a slash and the encoded prefix.
pub open spec fn link_of(root: Seq<char>, content: Seq<char>) -> Seq<char> {
    root + "/"@ + encoded(content)
}

/// The link of a prefix entry ends in a segment that decodes to the prefix:
/// the page it leads to receives exactly the prefix.
pub proof fn lemma_link_segment_decodes(root: Seq<char>, content: Seq<char>)
    ensures
        link_of(root, content).subrange(0, root.len() as int + 1) == root + "/"@,
        link_of(root, content).skip(root.len() as int + 1) == encoded(content),
        crate::utils::decoded(link_of(root, content).skip(root.len() as int + 1))
            == Ok::<Seq<char>, Seq<char>>(content),
{
    reveal_strlit("/");
    assert(link_of(root, content).subrange(0, root.len() as int + 1) =~= root + "/"@);
    assert(link_of(root, content).skip(root.len() as int + 1) =~= encoded(content));
    crate::utils::lemma_decode_encoded(content);
}

/// The label of the entry for `content`.
pub fn href_label(content: &String) -> (r: String)
    ensures
        r@ == label_of(content@),
{
    let mut r = content.clone();
    r.append("...");
    r
}

/// The link of the entry for `content` under `root`.
pub fn href_link(root: &String, content: &String) -> (r: String)
    ensures
        r@ == link_of(root@, content@),
{
    let mut r = root.clone();
    r.append("/");
    let code = encode(content.clone());
    r.append(code.as_str());
    r
}

/// Adds the entry that `src` describes.
pub fn add_to_feed(src: FeedSrc, feed: &mut Feed)
    ensures
        final(feed)@.title == old(feed)@.title,
        final(feed)@.entries == old(feed)@.entries.push(
            entry_of(label_of(src.label@), link_of(src.root@, src.path@)),
        ),
{
    let label = href_label(&src.label);
    let link = href_link(&src.root, &src.path);
    feed.add(label, link);
}

/// The entries for the non-empty prefixes of `lines`, in their order.
pub open spec fn prefix_entries(lines: Seq<Seq<char>>, root: Seq<char>) -> Seq<EntryView>
    decreases lines.len(),
{
    if lines.len() == 0 {
        Seq::empty()
    } else {
        let rest = prefix_entries(lines.drop_last(), root);
        let line = lines.last();
        if line.len() == 0 {
            rest
        } else {
            rest.push(entry_of(label_of(line), link_of(root, line)))
        }
    }
}

/// Adds an entry for each non-empty prefix of `lines`, in the catalogue order.
pub fn fill_feed_from(lines: Vec<String>, root: String, feed: &mut Feed)
    ensures
        final(feed)@.title == old(feed)@.title,
        final(feed)@.entries == old(feed)@.entries + prefix_entries(
            lines.deep_view().sort_by(fb2_leq()),
            root@,
        ),
{
    let ordered = sorted(lines);
    let ghost ls = ordered.deep_view();
    let ghost start = feed@.entries;
    let mut i: usize = 0;
    assert(ls.take(0) =~= Seq::<Seq<char>>::empty());
    assert(start + prefix_entries(ls.take(0), root@) =~= start);
    while i < ordered.len()
        invariant
            i <= ordered.len(),
            ls == ordered.deep_view(),
            feed@.title == old(feed)@.title,
            feed@.entries == start + prefix_entries(ls.take(i as int), root@),
        decreases ordered.len() - i,
    {
        let line = &ordered[i];
        assert(ls.take(i as int + 1).drop_last() =~= ls.take(i as int));
        assert(ls[i as int] == line@);
        if !line.as_str().is_empty() {
            let label = href_label(line);
            let link = href_link(&root, line);
            feed.add(label, link);
        }
        assert(feed@.entries =~= start + prefix_entries(ls.take(i as int + 1), root@));
        i = i + 1;
    }
    assert(ls.take(i as int) =~= ls);
}

/// A feed titled `title` with an entry for each non-empty prefix of `lines`,
/// or the error that reading them gave.
pub fn make_feed_from<E>(lines: Result<Vec<String>, E>, title: String, root: String) -> (r:
    Result<Feed, E>)
    ensures
        match (lines, r) {
            (Ok(ls), Ok(f)) => f@.title == title@ && f@.entries == prefix_entries(
                ls.deep_view().sort_by(fb2_leq()),
                root@,
            ),
            (Err(e), Err(e2)) => e2 == e,
            _ => false,
        },
{
    let mut feed = Feed::new(title);
    match lines {
        Ok(ls) => {
            fill_feed_from(ls, root, &mut feed);
            assert(feed@.entries =~= Seq::<EntryView>::empty() + prefix_entries(
                ls.deep_view().sort_by(fb2_leq()),
                root@,
            ));
            Ok(feed)
        },
        Err(e) => Err(e),
    }
}

} // verus!
