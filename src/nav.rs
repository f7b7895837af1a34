//! The navigation state: three panes that follow the live directory, the
//! preview of the selected entry, and the transitions between states.
use vstd::prelude::*;

use crate::entry::{
    empty_item, fetched_items, is_dir_state, is_fs, listing_source, listing_source_of,
    placeholder, items_for, source_for, view_items, Fetched, Item, ItemView, Source, SourceView,
    State,
};
use crate::list::{next_index, previous_index, StatefulList};
use crate::path::{path_text, PathName, PathView};

verus! {

/// Every entry of `s` that names a filesystem object is a child of `dir`.
pub open spec fn lists_children(s: Seq<ItemView>, dir: PathView) -> bool {
    forall|i: int| 0 <= i < s.len() && is_fs(#[trigger] s[i].state) ==> s[i].path.is_child_of(dir)
}

/// No entry of `s` names a filesystem object.
pub open spec fn no_fs(s: Seq<ItemView>) -> bool {
    forall|i: int| 0 <= i < s.len() ==> !is_fs(#[trigger] s[i].state)
}

/// Every entry of `s` names a filesystem object.
pub open spec fn all_fs(s: Seq<ItemView>) -> bool {
    forall|i: int| 0 <= i < s.len() ==> is_fs(#[trigger] s[i].state)
}

/// A relative path of at most one component: the nominal path of a line of
/// text or of the placeholder.
pub open spec fn short(p: PathView) -> bool {
    !p.absolute && p.parts.len() <= 1
}

/// A pane is never empty, holds either filesystem entries only or none, and
/// its other entries have short paths.
pub open spec fn pane_ok(s: Seq<ItemView>) -> bool {
    &&& s.len() > 0
    &&& (no_fs(s) || all_fs(s))
    &&& forall|i: int| 0 <= i < s.len() && !is_fs(#[trigger] s[i].state) ==> short(s[i].path)
}

/// `s` marks as on the live path each directory entry whose path is `p`.
pub open spec fn mark_relation(s: Seq<ItemView>, p: PathView) -> Seq<ItemView> {
    s.map_values(
        |it: ItemView|
            if it.path == p && is_dir_state(it.state) {
                ItemView { path: it.path, state: State::RelationDir }
            } else {
                it
            },
    )
}

/// `i` is the first index of an entry of `s` whose path is `p`.
pub open spec fn is_first_with_path(s: Seq<ItemView>, p: PathView, i: int) -> bool {
    &&& 0 <= i < s.len()
    &&& s[i].path == p
    &&& forall|j: int| 0 <= j < i ==> (#[trigger] s[j]).path != p
}

/// Some entry of `s` has the path `p`.
pub open spec fn has_path(s: Seq<ItemView>, p: PathView) -> bool {
    exists|i: int| is_first_with_path(s, p, i)
}

/// The first index of an entry of `s` whose path is `p`, or 0 if there is none.
pub open spec fn path_index(s: Seq<ItemView>, p: PathView) -> int {
    if has_path(s, p) {
        choose|i: int| is_first_with_path(s, p, i)
    } else {
        0
    }
}

/// The mathematical value of an [`App`].
pub struct AppView {
    pub child_items: Seq<ItemView>,
    pub items: Seq<ItemView>,
    pub selected: nat,
    pub parent_items: Seq<ItemView>,
    pub grandparent_items: Seq<ItemView>,
    pub pwd: PathView,
    pub grandparent_path: PathView,
}

impl AppView {
    /// The selected entry of the current pane.
    pub open spec fn focus(self) -> ItemView {
        self.items[self.selected as int]
    }

    /// The three panes follow the live path: the parent pane lists the
    /// parent of `pwd`, the grandparent pane the directory above it.
    pub open spec fn synced(self) -> bool {
        &&& self.grandparent_path == self.pwd.parent_or_empty().parent_or_empty()
        &&& lists_children(self.parent_items, self.pwd.parent_or_empty())
        &&& lists_children(self.grandparent_items, self.grandparent_path)
    }

    /// The view has gone below a file into its lines: `pwd` is a nominal
    /// path and no pane at or under it names a filesystem object.
    pub open spec fn detached(self) -> bool {
        &&& no_fs(self.items)
        &&& short(self.pwd)
        &&& (self.pwd.parts.len() == 1 ==> no_fs(self.parent_items))
    }

    /// The state is consistent: `current` lists children of `pwd`, the
    /// preview those of the focus, and the panes above follow the live path
    /// unless the view is below a file.
    pub open spec fn wf(self) -> bool {
        &&& pane_ok(self.items)
        &&& self.selected < self.items.len()
        &&& pane_ok(self.child_items)
        &&& pane_ok(self.parent_items)
        &&& pane_ok(self.grandparent_items)
        &&& lists_children(self.items, self.pwd)
        &&& lists_children(self.child_items, self.focus().path)
        &&& (!is_fs(self.focus().state) ==> no_fs(self.child_items))
        &&& (self.synced() || self.detached())
    }

    /// The state after a new preview of the focus was read.
    pub open spec fn with_child(self, f: Fetched) -> AppView {
        AppView { child_items: fetched_items(source_for(self.focus()), f), ..self }
    }

    /// The state after a new listing of the parent of `pwd` was read.
    pub open spec fn with_parent(self, f: Fetched) -> AppView {
        AppView {
            parent_items: mark_relation(
                fetched_items(listing_source(self.pwd.parent_or_empty()), f),
                self.pwd,
            ),
            ..self
        }
    }

    /// The state after a new listing of the grandparent directory was read.
    pub open spec fn with_grandparent(self, f: Fetched) -> AppView {
        AppView {
            grandparent_items: mark_relation(
                fetched_items(listing_source(self.grandparent_path), f),
                self.pwd.parent_or_empty(),
            ),
            ..self
        }
    }
}

impl AppView {
    /// The cursor one step forward; the preview waits to be read.
    pub open spec fn down(self) -> AppView {
        AppView {
            selected: next_index(self.selected, self.items.len()),
            child_items: seq![empty_item()],
            ..self
        }
    }

    /// The cursor one step back; the preview waits to be read.
    pub open spec fn up(self) -> AppView {
        AppView {
            selected: previous_index(self.selected, self.items.len()),
            child_items: seq![empty_item()],
            ..self
        }
    }

    /// The window one level down, into the focus: the preview becomes the
    /// current pane with its first entry selected, the current pane the
    /// parent pane (a directory focus marked as on the live path), the
    /// parent pane the grandparent pane, and `pwd` the focus's path. The new
    /// preview waits to be read.
    pub open spec fn enter(self) -> AppView {
        let f = self.focus();
        AppView {
            child_items: seq![empty_item()],
            items: self.child_items,
            selected: 0,
            parent_items: if is_dir_state(f.state) {
                self.items.update(
                    self.selected as int,
                    ItemView { path: f.path, state: State::RelationDir },
                )
            } else {
                self.items
            },
            grandparent_items: self.parent_items,
            pwd: f.path,
            grandparent_path: self.pwd.parent_or_empty(),
        }
    }

    /// After leaving, the entry of the old `pwd` is selected, and it is a
    /// filesystem entry whose preview is the old current pane.
    pub open spec fn restores(self) -> bool {
        has_path(self.parent_items, self.pwd) && is_fs(
            self.parent_items[path_index(self.parent_items, self.pwd)].state,
        )
    }

    /// The window one level up, unless `pwd` has no parent: the parent pane
    /// becomes the current pane with the entry of the old `pwd` selected,
    /// the grandparent pane the parent pane, and the old current pane the
    /// preview where that entry was found. The new grandparent pane waits to
    /// be read.
    pub open spec fn leave(self) -> AppView {
        match self.pwd.parent() {
            None => self,
            Some(p) => AppView {
                child_items: if self.restores() {
                    self.items
                } else {
                    seq![empty_item()]
                },
                items: self.parent_items,
                selected: path_index(self.parent_items, self.pwd) as nat,
                parent_items: self.grandparent_items,
                grandparent_items: seq![empty_item()],
                pwd: p,
                grandparent_path: self.grandparent_path.parent_or_empty(),
            },
        }
    }
}

/// The initial state at `pwd`, whose listing is `f`; the other panes hold
/// the placeholder until they are read.
pub open spec fn initial(pwd: PathView, f: Fetched) -> AppView {
    AppView {
        child_items: seq![empty_item()],
        items: fetched_items(listing_source(pwd), f),
        selected: 0,
        parent_items: seq![empty_item()],
        grandparent_items: seq![empty_item()],
        pwd,
        grandparent_path: pwd.parent_or_empty().parent_or_empty(),
    }
}

/// Marks each directory entry of `v` whose path is `p` as on the live path.
pub fn mark_items(v: Vec<Item>, p: &PathName) -> (r: Vec<Item>)
    ensures
        view_items(r@) == mark_relation(view_items(v@), p@),
{
    let mut r = v;
    let n = r.len();
    let ghost v0 = view_items(r@);
    let mut i: usize = 0;
    while i < n
        invariant
            n == r@.len(),
            v0.len() == n,
            i <= n,
            forall|j: int| 0 <= j < i ==> (#[trigger] r@[j])@ == mark_relation(v0, p@)[j],
            forall|j: int| i <= j < n ==> (#[trigger] r@[j])@ == v0[j],
        decreases n - i,
    {
        if r[i].is_dir() && r[i].path.same_as(p) {
            let it = Item { path: r[i].path.duplicate(), state: State::RelationDir };
            r.set(i, it);
        }
        i = i + 1;
    }
    assert(view_items(r@) =~= mark_relation(v0, p@));
    r
}

proof fn lemma_fetched_items(src: SourceView, f: Fetched)
    ensures
        pane_ok(fetched_items(src, f)),
        match src {
            SourceView::Listing(d) => lists_children(fetched_items(src, f), d),
            _ => no_fs(fetched_items(src, f)),
        },
{
    let r = fetched_items(src, f);
    match src {
        SourceView::Listing(d) => {
            match f {
                Fetched::Listing(Some(es)) => {
                    if es@.len() > 0 {
                        assert forall|i: int| 0 <= i < r.len() implies is_fs(#[trigger] r[i].state)
                            && r[i].path.is_child_of(d) by {
                            assert(r[i].path.parts.drop_last() =~= d.parts);
                        }
                        assert(all_fs(r));
                    }
                },
                _ => {},
            }
        },
        SourceView::Text(_) => {
            match f {
                Fetched::Text(Some(t)) => {
                    assert forall|i: int| 0 <= i < r.len() implies !is_fs(#[trigger] r[i].state)
                        && short(r[i].path) by {}
                },
                _ => {},
            }
        },
        SourceView::Nothing => {},
    }
}

proof fn lemma_mark_relation(s: Seq<ItemView>, p: PathView, dir: PathView)
    ensures
        mark_relation(s, p).len() == s.len(),
        pane_ok(s) ==> pane_ok(mark_relation(s, p)),
        lists_children(s, dir) ==> lists_children(mark_relation(s, p), dir),
        no_fs(s) ==> no_fs(mark_relation(s, p)),
{
    let m = mark_relation(s, p);
    assert forall|i: int| 0 <= i < s.len() implies m[i].path == s[i].path && (is_fs(
        #[trigger] m[i].state,
    ) == is_fs(s[i].state)) by {}
    if pane_ok(s) {
        if all_fs(s) {
            assert(all_fs(m));
        } else {
            assert(no_fs(m));
        }
    }
}

proof fn lemma_enter_wf(s: AppView)
    requires
        s.wf(),
    ensures
        s.enter().wf(),
{
    let t = s.enter();
    let f = s.focus();
    if is_dir_state(f.state) {
        lemma_mark_relation(s.items, f.path, s.pwd);
        assert forall|i: int| 0 <= i < s.items.len() implies (#[trigger] t.parent_items[i]).path
            == s.items[i].path && is_fs(t.parent_items[i].state) == is_fs(s.items[i].state) by {}
        assert(all_fs(s.items) ==> all_fs(t.parent_items));
    }
    if is_fs(f.state) {
        assert(f.path.is_child_of(s.pwd));
        assert(!s.detached());
        assert(t.pwd.parent_or_empty() == s.pwd);
        assert(t.synced());
    } else {
        assert(!all_fs(s.items));
        assert(t.detached());
    }
}

proof fn lemma_leave_wf(s: AppView)
    requires
        s.wf(),
    ensures
        s.leave().wf(),
{
    match s.pwd.parent() {
        None => {},
        Some(p) => {
            let t = s.leave();
            if has_path(s.parent_items, s.pwd) {
                let k = choose|k: int| is_first_with_path(s.parent_items, s.pwd, k);
                assert(t.selected == k);
            }
            if s.synced() {
                assert(p == s.pwd.parent_or_empty());
                assert(t.synced());
            } else {
                assert(p.parts.len() == 0);
                assert(!s.restores());
                assert(t.detached());
            }
        },
    }
}

proof fn lemma_refresh_wf(s: AppView, f: Fetched)
    requires
        s.wf(),
    ensures
        s.down().wf(),
        s.up().wf(),
        s.with_child(f).wf(),
        s.with_parent(f).wf(),
        s.with_grandparent(f).wf(),
{
    let src = source_for(s.focus());
    lemma_fetched_items(src, f);
    let ps = listing_source(s.pwd.parent_or_empty());
    lemma_fetched_items(ps, f);
    lemma_mark_relation(fetched_items(ps, f), s.pwd, s.pwd.parent_or_empty());
    let gs = listing_source(s.grandparent_path);
    lemma_fetched_items(gs, f);
    lemma_mark_relation(fetched_items(gs, f), s.pwd.parent_or_empty(), s.grandparent_path);
    if s.detached() && s.pwd.parts.len() == 1 {
        assert(s.pwd.parent_or_empty().is_empty());
    }
}

/// Whatever the transition, the current pane of a consistent state lists
/// only children of `pwd`, and the state stays consistent.
pub proof fn lemma_current_lists_pwd(s: AppView, f: Fetched)
    requires
        s.wf(),
    ensures
        lists_children(s.items, s.pwd),
        s.down().wf() && lists_children(s.down().items, s.down().pwd),
        s.up().wf() && lists_children(s.up().items, s.up().pwd),
        s.enter().wf() && lists_children(s.enter().items, s.enter().pwd),
        s.leave().wf() && lists_children(s.leave().items, s.leave().pwd),
        s.with_child(f).wf(),
        s.with_parent(f).wf(),
        s.with_grandparent(f).wf(),
{
    lemma_refresh_wf(s, f);
    lemma_enter_wf(s);
    lemma_leave_wf(s);
}

/// Entering a directory, reading its preview and leaving again comes back
/// to the same `pwd` with the entered entry selected, now marked as on the
/// live path, and the panes as they were; only the grandparent pane waits
/// to be read again. This holds where no earlier entry of the current pane
/// has the same path.
pub proof fn lemma_leave_after_enter(s: AppView, f: Fetched)
    requires
        s.wf(),
        is_dir_state(s.focus().state),
        forall|j: int| 0 <= j < s.selected ==> (#[trigger] s.items[j]).path != s.focus().path,
    ensures
        ({
            let t = s.enter().with_child(f).leave();
            &&& t.pwd == s.pwd
            &&& t.selected == s.selected
            &&& t.items == s.items.update(
                s.selected as int,
                ItemView { path: s.focus().path, state: State::RelationDir },
            )
            &&& t.child_items == s.child_items
            &&& t.parent_items == s.parent_items
            &&& t.grandparent_path == s.grandparent_path
        }),
{
    let e = s.enter().with_child(f);
    let fp = s.focus().path;
    assert(fp.is_child_of(s.pwd));
    assert(e.pwd.parent() == Some(s.pwd));
    assert(is_first_with_path(e.parent_items, fp, s.selected as int));
    assert(has_path(e.parent_items, fp));
    let k = choose|k: int| is_first_with_path(e.parent_items, fp, k);
    assert(k == s.selected) by {
        if k < s.selected {
            assert(e.parent_items[k].path == s.items[k].path);
        }
    }
    assert(path_index(e.parent_items, fp) == s.selected);
    assert(e.restores());
    assert(!s.detached());
}

/// Entering a line of a file's text never fails: the state stays
/// consistent, `pwd` becomes the line's nominal path and the preview waits
/// to be read.
pub proof fn lemma_enter_content(s: AppView)
    requires
        s.wf(),
        s.focus().state == State::Content,
    ensures
        s.enter().wf(),
        s.enter().pwd == s.focus().path,
        s.enter().items == s.child_items,
        s.enter().child_items == seq![empty_item()],
{
    lemma_enter_wf(s);
}

/// Leaving where `pwd` has no parent changes nothing.
pub proof fn lemma_leave_at_root(s: AppView)
    requires
        s.pwd.parent() is None,
    ensures
        s.leave() == s,
{
}

/// The navigation state.
pub struct App {
    pub child_items: Vec<Item>,
    pub items: StatefulList<Item>,
    pub parent_items: Vec<Item>,
    pub grandparent_items: Vec<Item>,
    pub pwd: PathName,
    pub grandparent_path: PathName,
}

impl View for App {
    type V = AppView;

    open spec fn view(&self) -> AppView {
        AppView {
            child_items: view_items(self.child_items@),
            items: view_items(self.items.items@),
            selected: self.items.selected as nat,
            parent_items: view_items(self.parent_items@),
            grandparent_items: view_items(self.grandparent_items@),
            pwd: self.pwd@,
            grandparent_path: self.grandparent_path@,
        }
    }
}

impl App {
    /// The state at `pwd`, from its listing `listing`. The preview, parent
    /// and grandparent panes hold the placeholder until they are read.
    pub fn new(pwd: PathName, listing: Fetched) -> (r: App)
        ensures
            r@ == initial(pwd@, listing),
            r@.wf(),
    {
        let src = listing_source_of(&pwd);
        let items = items_for(&src, listing);
        let grandparent_path = pwd.parent_or_empty().parent_or_empty();
        proof {
            lemma_fetched_items(src@, listing);
        }
        let r = App {
            child_items: placeholder(),
            items: StatefulList::with_items(items),
            parent_items: placeholder(),
            grandparent_items: placeholder(),
            pwd,
            grandparent_path,
        };
        assert(r@ == initial(pwd@, listing));
        r
    }

    /// The text of `pwd`.
    pub fn get_pwd_str(&self) -> (r: String)
        ensures
            r@ == path_text(self@.pwd),
    {
        self.pwd.to_text()
    }

    /// What has to be read to preview the selected entry.
    pub fn child_source(&self) -> (r: Source)
        requires
            self@.wf(),
        ensures
            r@ == source_for(self@.focus()),
    {
        let i = self.items.selected;
        self.items.items[i].child_source()
    }

    /// What has to be read to fill the parent pane.
    pub fn parent_source(&self) -> (r: Source)
        ensures
            r@ == listing_source(self@.pwd.parent_or_empty()),
    {
        listing_source_of(&self.pwd.parent_or_empty())
    }

    /// What has to be read to fill the grandparent pane.
    pub fn grandparent_source(&self) -> (r: Source)
        ensures
            r@ == listing_source(self@.grandparent_path),
    {
        listing_source_of(&self.grandparent_path)
    }

    /// Replaces the preview by what was read for [`App::child_source`].
    pub fn update_child_items(&mut self, f: Fetched)
        requires
            old(self)@.wf(),
        ensures
            final(self)@ == old(self)@.with_child(f),
            final(self)@.wf(),
    {
        let src = self.child_source();
        proof {
            lemma_fetched_items(src@, f);
        }
        self.child_items = items_for(&src, f);
    }

    /// Replaces the parent pane by what was read for [`App::parent_source`],
    /// marking the entry of `pwd` as on the live path.
    pub fn update_parent_items(&mut self, f: Fetched)
        requires
            old(self)@.wf(),
        ensures
            final(self)@ == old(self)@.with_parent(f),
            final(self)@.wf(),
    {
        let src = self.parent_source();
        let fresh = items_for(&src, f);
        proof {
            lemma_fetched_items(src@, f);
            lemma_mark_relation(view_items(fresh@), self.pwd@, self.pwd@.parent_or_empty());
        }
        self.parent_items = mark_items(fresh, &self.pwd);
    }

    /// Replaces the grandparent pane by what was read for
    /// [`App::grandparent_source`], marking the entry of the parent of `pwd`
    /// as on the live path.
    pub fn update_grandparent_items(&mut self, f: Fetched)
        requires
            old(self)@.wf(),
        ensures
            final(self)@ == old(self)@.with_grandparent(f),
            final(self)@.wf(),
    {
        let src = self.grandparent_source();
        let fresh = items_for(&src, f);
        let p = self.pwd.parent_or_empty();
        proof {
            lemma_fetched_items(src@, f);
            lemma_mark_relation(view_items(fresh@), p@, self.grandparent_path@);
        }
        self.grandparent_items = mark_items(fresh, &p);
    }

    /// Moves the cursor one step forward, wrapping around; the preview is
    /// the placeholder until [`App::update_child_items`] reads it.
    pub fn move_down(&mut self)
        requires
            old(self)@.wf(),
        ensures
            final(self)@ == old(self)@.down(),
            final(self)@.wf(),
    {
        self.items.next();
        self.child_items = placeholder();
    }

    /// Moves the cursor one step back, wrapping around; the preview is the
    /// placeholder until [`App::update_child_items`] reads it.
    pub fn move_up(&mut self)
        requires
            old(self)@.wf(),
        ensures
            final(self)@ == old(self)@.up(),
            final(self)@.wf(),
    {
        self.items.previous();
        self.child_items = placeholder();
    }

    /// The index of the entry of the parent pane whose path is `pwd`, or 0.
    pub fn get_index_parent(&self) -> (r: usize)
        ensures
            r == path_index(self@.parent_items, self@.pwd),
            has_path(self@.parent_items, self@.pwd) ==> is_first_with_path(
                self@.parent_items,
                self@.pwd,
                r as int,
            ),
    {
        let n = self.parent_items.len();
        let ghost s = self@.parent_items;
        let mut i: usize = 0;
        while i < n
            invariant
                n == s.len(),
                s == self@.parent_items,
                i <= n,
                forall|j: int| 0 <= j < i ==> (#[trigger] s[j]).path != self@.pwd,
            decreases n - i,
        {
            if self.parent_items[i].path.same_as(&self.pwd) {
                assert(is_first_with_path(s, self@.pwd, i as int));
                proof {
                    let k = choose|k: int| is_first_with_path(s, self@.pwd, k);
                    assert(k == i) by {
                        if k > i {
                            assert(s[i as int].path != self@.pwd);
                        }
                    }
                }
                return i;
            }
            i = i + 1;
        }
        0
    }

    /// Moves the window one level down, into the selected entry. The new
    /// preview is the placeholder until [`App::update_child_items`] reads it.
    pub fn move_child(&mut self)
        requires
            old(self)@.wf(),
        ensures
            final(self)@ == old(self)@.enter(),
            final(self)@.wf(),
    {
        let ghost s0 = self@;
        let i = self.items.selected;
        let pwd = self.items.items[i].path.duplicate();
        if self.items.items[i].is_dir() {
            let mut it = self.items.items[i].duplicate();
            let _ = it.change_state(State::RelationDir);
            self.items.items.set(i, it);
        }
        let grandparent_path = self.pwd.parent_or_empty();
        let mut child = placeholder();
        std::mem::swap(&mut child, &mut self.child_items);
        let mut current = StatefulList::with_items(child);
        std::mem::swap(&mut current, &mut self.items);
        let mut parent = current.items;
        std::mem::swap(&mut parent, &mut self.parent_items);
        self.grandparent_items = parent;
        self.pwd = pwd;
        self.grandparent_path = grandparent_path;
        assert(self@.parent_items =~= s0.enter().parent_items);
        proof {
            lemma_enter_wf(s0);
        }
    }

    /// Moves the window one level up, unless `pwd` has no parent. Returns
    /// whether the old current pane became the preview; if not, the preview
    /// is the placeholder until [`App::update_child_items`] reads it. The new
    /// grandparent pane is the placeholder until
    /// [`App::update_grandparent_items`] reads it.
    pub fn move_parent(&mut self) -> (r: bool)
        requires
            old(self)@.wf(),
        ensures
            final(self)@ == old(self)@.leave(),
            final(self)@.wf(),
            r == (old(self)@.pwd.parent() is Some && old(self)@.restores()),
    {
        let ghost s0 = self@;
        let pwd = match self.pwd.parent() {
            Some(p) => p,
            None => return false,
        };
        let index = self.get_index_parent();
        let restored = index < self.parent_items.len() && self.parent_items[index].path.same_as(
            &self.pwd,
        ) && self.parent_items[index].is_fs();
        proof {
            if !has_path(s0.parent_items, s0.pwd) && s0.parent_items[0].path == s0.pwd {
                assert(is_first_with_path(s0.parent_items, s0.pwd, 0));
            }
            assert(restored == s0.restores());
        }
        let grandparent_path = self.grandparent_path.parent_or_empty();
        let mut parent = placeholder();
        std::mem::swap(&mut parent, &mut self.parent_items);
        let mut current = StatefulList::with_items_select(parent, index);
        std::mem::swap(&mut current, &mut self.items);
        if restored {
            self.child_items = current.items;
        } else {
            self.child_items = placeholder();
        }
        let mut grandparent = placeholder();
        std::mem::swap(&mut grandparent, &mut self.grandparent_items);
        self.parent_items = grandparent;
        self.pwd = pwd;
        self.grandparent_path = grandparent_path;
        assert(self@ == s0.leave());
        proof {
            lemma_leave_wf(s0);
        }
        restored
    }
}

} // verus!
