//! The entries that fill a pane, and how a pane is built from what was read
//! from the filesystem.
use vstd::prelude::*;

use crate::path::{PathName, PathView};

verus! {

/// What an entry stands for.
#[derive(Clone, Copy, Debug, PartialEq, Eq, Structural)]
pub enum State {
    /// A listed file.
    File,
    /// A listed directory.
    Dir,
    /// A directory on the way from the root to the live path.
    RelationDir,
    /// One line of a file's text.
    Content,
    /// The placeholder of a pane with nothing in it.
    Empty,
}

/// One navigable entry.
#[derive(Clone, Debug)]
pub struct Item {
    pub path: PathName,
    pub state: State,
}

/// The mathematical value of an [`Item`].
pub struct ItemView {
    pub path: PathView,
    pub state: State,
}

impl View for Item {
    type V = ItemView;

    open spec fn view(&self) -> ItemView {
        ItemView { path: self.path@, state: self.state }
    }
}

/// Entries of these kinds name real filesystem objects.
pub open spec fn is_fs(s: State) -> bool {
    s == State::File || s == State::Dir || s == State::RelationDir
}

/// Entries of these kinds can be descended into as directories.
pub open spec fn is_dir_state(s: State) -> bool {
    s == State::Dir || s == State::RelationDir
}

/// The placeholder entry.
pub open spec fn empty_item() -> ItemView {
    ItemView { path: PathView::empty(), state: State::Empty }
}

/// The values of a sequence of entries.
pub open spec fn view_items(v: Seq<Item>) -> Seq<ItemView> {
    v.map_values(|i: Item| i@)
}

/// One entry of a directory listing, as the filesystem reports it.
#[derive(Clone, Debug)]
pub struct Listed {
    pub name: String,
    pub is_dir: bool,
}

/// The entry that a listed child of `dir` becomes.
pub open spec fn listed_item(dir: PathView, e: Listed) -> ItemView {
    ItemView { path: dir.join(e.name@), state: if e.is_dir { State::Dir } else { State::File } }
}

/// The pane built from the listing `es` of `dir`.
pub open spec fn listing_items(dir: PathView, es: Seq<Listed>) -> Seq<ItemView> {
    if es.len() == 0 {
        seq![empty_item()]
    } else {
        es.map_values(|e: Listed| listed_item(dir, e))
    }
}

/// Splits at every newline; there is always at least one piece.
pub open spec fn split_newlines(s: Seq<char>) -> Seq<Seq<char>>
    decreases s.len(),
{
    if s.len() == 0 {
        seq![Seq::<char>::empty()]
    } else {
        let rest = split_newlines(s.drop_first());
        if s[0] == '\n' {
            seq![Seq::<char>::empty()] + rest
        } else {
            rest.update(0, seq![s[0]] + rest[0])
        }
    }
}

/// A line that a newline ended loses a carriage return before it.
pub open spec fn strip_cr(l: Seq<char>) -> Seq<char> {
    if l.len() > 0 && l.last() == '\r' {
        l.drop_last()
    } else {
        l
    }
}

/// The lines of a text: split at "\n" or "\r\n", with no empty line after a
/// final line ending.
pub open spec fn text_lines(s: Seq<char>) -> Seq<Seq<char>> {
    let p = split_newlines(s);
    let ended = p.drop_last().map_values(|l: Seq<char>| strip_cr(l));
    if p.last().len() == 0 {
        ended
    } else {
        ended.push(p.last())
    }
}

/// The nominal path of a line of text: one relative component, or the empty
/// path for an empty line.
pub open spec fn content_path(l: Seq<char>) -> PathView {
    if l.len() == 0 {
        PathView::empty()
    } else {
        PathView { absolute: false, parts: seq![l] }
    }
}

/// The entry that a line of text becomes.
pub open spec fn content_item(l: Seq<char>) -> ItemView {
    ItemView { path: content_path(l), state: State::Content }
}

/// The pane built from a file's text.
pub open spec fn text_items(s: Seq<char>) -> Seq<ItemView> {
    let ls = text_lines(s);
    if ls.len() == 0 {
        seq![empty_item()]
    } else {
        ls.map_values(|l: Seq<char>| content_item(l))
    }
}

/// Relies on `str::lines`: the text split at "\n" and "\r\n", without the
/// line endings and without an empty line after a final line ending.
#[verifier::external_body]
fn lines_of(text: &str) -> (r: Vec<String>)
    ensures
        r@.map_values(|l: String| l@) == text_lines(text@),
{
    text.lines().map(|l| l.to_string()).collect()
}

impl Item {
    /// Sets the kind, and returns a copy of the changed entry.
    pub fn change_state(&mut self, state: State) -> (r: Self)
        ensures
            final(self)@ == (ItemView { path: old(self)@.path, state }),
            r@ == final(self)@,
    {
        self.state = state;
        self.duplicate()
    }

    /// The last component of the entry's path.
    pub fn filename(&self) -> (r: Option<String>)
        ensures
            match r {
                Some(s) => self@.path.parts.len() > 0 && s@ == self@.path.parts.last(),
                None => self@.path.parts.len() == 0,
            },
    {
        self.path.file_name()
    }

    pub fn is_dir(&self) -> (r: bool)
        ensures
            r == is_dir_state(self.state),
    {
        match self.state {
            State::Dir | State::RelationDir => true,
            _ => false,
        }
    }

    /// Whether the entry names a real filesystem object.
    pub fn is_fs(&self) -> (r: bool)
        ensures
            r == is_fs(self.state),
    {
        match self.state {
            State::File | State::Dir | State::RelationDir => true,
            _ => false,
        }
    }

    /// The placeholder entry.
    pub fn default() -> (r: Self)
        ensures
            r@ == empty_item(),
    {
        Item { path: PathName::new(), state: State::Empty }
    }

    /// A copy that has the same value.
    pub fn duplicate(&self) -> (r: Self)
        ensures
            r@ == self@,
    {
        Item { path: self.path.duplicate(), state: self.state }
    }
}

/// The pane that holds only the placeholder.
pub fn placeholder() -> (r: Vec<Item>)
    ensures
        view_items(r@) == seq![empty_item()],
{
    let r = vec![Item::default()];
    assert(view_items(r@) =~= seq![empty_item()]);
    r
}

/// The pane for the listing `entries` of `dir`: each child as a file or a
/// directory under `dir`, or the placeholder where there is none.
pub fn items_from_listing(dir: &PathName, entries: &Vec<Listed>) -> (r: Vec<Item>)
    ensures
        view_items(r@) == listing_items(dir@, entries@),
{
    if entries.len() == 0 {
        return placeholder();
    }
    let mut r: Vec<Item> = Vec::new();
    let mut i: usize = 0;
    while i < entries.len()
        invariant
            i <= entries@.len(),
            entries@.len() > 0,
            r@.len() == i,
            forall|j: int| 0 <= j < i ==> r@[j]@ == listed_item(dir@, entries@[j]),
        decreases entries.len() - i,
    {
        let e = &entries[i];
        let state = if e.is_dir {
            State::Dir
        } else {
            State::File
        };
        let item = Item { path: dir.join(e.name.clone()), state };
        r.push(item);
        i = i + 1;
    }
    assert(view_items(r@) =~= listing_items(dir@, entries@));
    r
}

/// The entry for one line of text.
pub fn content_entry(line: String) -> (r: Item)
    ensures
        r@ == content_item(line@),
{
    let path = if line.as_str().is_empty() {
        PathName::new()
    } else {
        let p = PathName { absolute: false, parts: vec![line] };
        assert(p@.parts =~= seq![line@]);
        p
    };
    Item { path, state: State::Content }
}

/// The pane for a file's text: one `Content` entry per line, or the
/// placeholder where there is no line.
pub fn items_from_text(text: &str) -> (r: Vec<Item>)
    ensures
        view_items(r@) == text_items(text@),
{
    let lines = lines_of(text);
    let ghost ls = lines@.map_values(|l: String| l@);
    if lines.len() == 0 {
        return placeholder();
    }
    let n = lines.len();
    let mut r: Vec<Item> = Vec::new();
    let mut i: usize = 0;
    while i < n
        invariant
            i <= n,
            n == ls.len(),
            n > 0,
            ls == text_lines(text@),
            forall|j: int| 0 <= j < n ==> lines@[j]@ == ls[j],
            lines@.len() == n,
            r@.len() == i,
            forall|j: int| 0 <= j < i ==> r@[j]@ == content_item(ls[j]),
        decreases n - i,
    {
        let line = lines[i].clone();
        r.push(content_entry(line));
        i = i + 1;
    }
    assert(view_items(r@) =~= text_items(text@));
    r
}

/// What has to be read from the filesystem to fill a pane.
pub enum Source {
    /// Nothing: the pane holds the placeholder.
    Nothing,
    /// The listing of a directory.
    Listing(PathName),
    /// The text of a file.
    Text(PathName),
}

/// The mathematical value of a [`Source`].
pub enum SourceView {
    Nothing,
    Listing(PathView),
    Text(PathView),
}

impl View for Source {
    type V = SourceView;

    open spec fn view(&self) -> SourceView {
        match self {
            Source::Nothing => SourceView::Nothing,
            Source::Listing(p) => SourceView::Listing(p@),
            Source::Text(p) => SourceView::Text(p@),
        }
    }
}

/// What was read for a [`Source`]; `None` where the read failed.
pub enum Fetched {
    Nothing,
    Listing(Option<Vec<Listed>>),
    Text(Option<String>),
}

/// A directory is listed unless its path is empty.
pub open spec fn listing_source(p: PathView) -> SourceView {
    if p.is_empty() {
        SourceView::Nothing
    } else {
        SourceView::Listing(p)
    }
}

/// What fills the preview of an entry: a directory's listing, a file's
/// text, or nothing.
pub open spec fn source_for(it: ItemView) -> SourceView {
    if is_dir_state(it.state) {
        listing_source(it.path)
    } else if it.state == State::File {
        SourceView::Text(it.path)
    } else {
        SourceView::Nothing
    }
}

/// The pane built from what was read for a source. A failed read, or one
/// that does not answer the source, gives the placeholder.
pub open spec fn fetched_items(src: SourceView, f: Fetched) -> Seq<ItemView> {
    match src {
        SourceView::Listing(d) => match f {
            Fetched::Listing(Some(es)) => listing_items(d, es@),
            _ => seq![empty_item()],
        },
        SourceView::Text(_) => match f {
            Fetched::Text(Some(t)) => text_items(t@),
            _ => seq![empty_item()],
        },
        SourceView::Nothing => seq![empty_item()],
    }
}

/// The source that lists `p`, or nothing for the empty path.
pub fn listing_source_of(p: &PathName) -> (r: Source)
    ensures
        r@ == listing_source(p@),
{
    if p.is_empty() {
        Source::Nothing
    } else {
        Source::Listing(p.duplicate())
    }
}

impl Item {
    /// What has to be read to preview this entry.
    pub fn child_source(&self) -> (r: Source)
        ensures
            r@ == source_for(self@),
    {
        if self.is_dir() {
            listing_source_of(&self.path)
        } else if self.state == State::File {
            Source::Text(self.path.duplicate())
        } else {
            Source::Nothing
        }
    }
}

/// The pane built from what was read for `src`.
pub fn items_for(src: &Source, f: Fetched) -> (r: Vec<Item>)
    ensures
        view_items(r@) == fetched_items(src@, f),
{
    match src {
        Source::Listing(d) => match f {
            Fetched::Listing(Some(es)) => items_from_listing(d, &es),
            _ => placeholder(),
        },
        Source::Text(_) => match f {
            Fetched::Text(Some(t)) => items_from_text(t.as_str()),
            _ => placeholder(),
        },
        Source::Nothing => placeholder(),
    }
}

} // verus!
