//! Finding out whether a directory tree holds any file at all, one
//! directory listing at a time.
//!
//! The search goes depth first: the entries of a directory are taken in the
//! order listed, and a subdirectory is searched completely before the next
//! entry. It stops at the first entry that is not a directory, and at the
//! first entry or directory that cannot be read.
use vstd::prelude::*;
use crate::path::{named, FsPath, PartView};
use crate::steam::{depot_ship_directory, spec_depot_directory};

verus! {

/// One entry of a directory listing.
#[derive(Debug, PartialEq, Eq)]
pub enum EntryKind {
    /// A directory, by its name.
    Directory(String),
    /// Anything else: a file, or a link.
    Other,
    /// The entry, or its type, could not be read.
    Unreadable,
}

/// The model of an entry.
pub enum KindView {
    Directory(Seq<char>),
    Other,
    Unreadable,
}

impl View for EntryKind {
    type V = KindView;

    open spec fn view(&self) -> KindView {
        match self {
            EntryKind::Directory(n) => KindView::Directory(n@),
            EntryKind::Other => KindView::Other,
            EntryKind::Unreadable => KindView::Unreadable,
        }
    }
}

/// What listing a directory gave.
#[derive(Debug, PartialEq, Eq)]
pub enum Listing {
    /// The path is not a directory (or not there): it holds no file.
    NotADirectory,
    /// The directory could not be read.
    Unreadable,
    /// The entries, in the order listed.
    Entries(Vec<EntryKind>),
}

/// The model of a listing.
pub enum ListingView {
    NotADirectory,
    Unreadable,
    Entries(Seq<KindView>),
}

impl View for Listing {
    type V = ListingView;

    open spec fn view(&self) -> ListingView {
        match self {
            Listing::NotADirectory => ListingView::NotADirectory,
            Listing::Unreadable => ListingView::Unreadable,
            Listing::Entries(es) => ListingView::Entries(es@.map_values(|e: EntryKind| e@)),
        }
    }
}

/// What the search needs next, or its answer.
#[derive(Debug, PartialEq, Eq)]
pub enum SearchStep {
    /// List this directory and report the listing.
    List(FsPath),
    /// The answer: whether a file was found.
    Found(bool),
    /// A directory or an entry could not be read.
    Failed,
}

/// The model of a search step.
pub enum StepView {
    List(Seq<PartView>),
    Found(bool),
    Failed,
}

impl View for SearchStep {
    type V = StepView;

    open spec fn view(&self) -> StepView {
        match self {
            SearchStep::List(p) => StepView::List(p@),
            SearchStep::Found(b) => StepView::Found(*b),
            SearchStep::Failed => StepView::Failed,
        }
    }
}

/// A directory being searched: its path, its entries and how many of them
/// have been taken.
pub struct FrameView {
    pub dir: Seq<PartView>,
    pub kinds: Seq<KindView>,
    pub next: int,
}

/// How much is left to do in a stack of directories.
pub open spec fn frames_measure(fs: Seq<FrameView>) -> nat
    decreases fs.len(),
{
    if fs.len() == 0 {
        0
    } else {
        let f = fs.last();
        frames_measure(fs.drop_last()) + (if 0 <= f.next <= f.kinds.len() {
            (f.kinds.len() - f.next) as nat
        } else {
            0
        }) + 1
    }
}

/// The next step from a stack of directories, the innermost last: a
/// directory with no entries left is done and its parent goes on; the next
/// entry of the innermost directory is taken: a directory is listed next,
/// anything else answers that a file was found, and an unreadable entry ends
/// the search as failed. With no directory left, no file was found.
pub open spec fn advance(fs: Seq<FrameView>) -> (Seq<FrameView>, StepView)
    decreases frames_measure(fs),
{
    if fs.len() == 0 {
        (fs, StepView::Found(false))
    } else {
        let f = fs.last();
        if f.next < 0 || f.next >= f.kinds.len() {
            advance(fs.drop_last())
        } else {
            let taken = fs.update(fs.len() - 1, FrameView { dir: f.dir, kinds: f.kinds, next: f.next + 1 });
            match f.kinds[f.next] {
                KindView::Directory(n) => (taken, StepView::List(f.dir.push(named(n)))),
                KindView::Other => (taken, StepView::Found(true)),
                KindView::Unreadable => (taken, StepView::Failed),
            }
        }
    }
}

/// The directories being searched and the next step, once the listing `l`
/// of the awaited directory `waiting` arrives: a directory that is not there
/// holds no file, an unreadable one fails the search, and the entries of a
/// listed one are searched before anything else.
pub open spec fn after_listing(frames: Seq<FrameView>, waiting: Seq<PartView>, l: ListingView) -> (
    Seq<FrameView>,
    StepView,
) {
    match l {
        ListingView::Unreadable => (frames, StepView::Failed),
        ListingView::NotADirectory => advance(frames),
        ListingView::Entries(kinds) => advance(
            frames.push(FrameView { dir: waiting, kinds, next: 0 }),
        ),
    }
}

struct Frame {
    dir: FsPath,
    entries: Vec<EntryKind>,
    next: usize,
}

impl Frame {
    spec fn view(&self) -> FrameView {
        FrameView {
            dir: self.dir@,
            kinds: self.entries@.map_values(|e: EntryKind| e@),
            next: self.next as int,
        }
    }
}

spec fn frame_views(fs: Seq<Frame>) -> Seq<FrameView> {
    fs.map_values(|f: Frame| f.view())
}

/// The model of a [`FileSearch`]: the directories being searched and the one
/// whose listing is awaited.
pub struct SearchView {
    pub frames: Seq<FrameView>,
    pub waiting: Seq<PartView>,
}

/// A search for any file below a directory.
pub struct FileSearch {
    frames: Vec<Frame>,
    waiting: FsPath,
}

impl View for FileSearch {
    type V = SearchView;

    closed spec fn view(&self) -> SearchView {
        SearchView { frames: frame_views(self.frames@), waiting: self.waiting@ }
    }
}

impl FileSearch {
    /// Starts a search of `root`: it is listed first.
    pub fn start(root: &FsPath) -> (r: (FileSearch, SearchStep))
        ensures
            r.0@.frames.len() == 0,
            r.0@.waiting == root@,
            r.1@ == StepView::List(root@),
    {
        let search = FileSearch { frames: Vec::new(), waiting: root.copy() };
        assert(frame_views(search.frames@) == Seq::<FrameView>::empty());
        (search, SearchStep::List(root.copy()))
    }

    /// Takes the listing of the awaited directory and tells what is needed
    /// next (see [`after_listing`]).
    pub fn on_listing(&mut self, listing: Listing) -> (r: SearchStep)
        ensures
            (final(self)@.frames, r@) == after_listing(old(self)@.frames, old(self)@.waiting, listing@),
            r matches SearchStep::List(p) ==> final(self)@.waiting == p@,
    {
        match listing {
            Listing::Unreadable => {
                return SearchStep::Failed;
            },
            Listing::NotADirectory => {},
            Listing::Entries(entries) => {
                let dir = self.waiting.copy();
                let ghost before = self.frames@;
                let frame = Frame { dir, entries, next: 0 };
                self.frames.push(frame);
                assert(frame_views(self.frames@) == frame_views(before).push(frame.view()));
            },
        }
        self.advance()
    }

    fn advance(&mut self) -> (r: SearchStep)
        ensures
            (final(self)@.frames, r@) == advance(old(self)@.frames),
            r matches SearchStep::List(p) ==> final(self)@.waiting == p@,
    {
        loop
            invariant
                advance(frame_views(self.frames@)) == advance(old(self)@.frames),
            decreases frames_measure(frame_views(self.frames@)),
        {
            let ghost fs = frame_views(self.frames@);
            let ghost before = self.frames@;
            match self.frames.pop() {
                None => {
                    assert(fs.len() == 0);
                    return SearchStep::Found(false);
                },
                Some(frame) => {
                    assert(fs.last() == frame.view());
                    assert(frame_views(self.frames@) == fs.drop_last());
                    if frame.next >= frame.entries.len() {
                        // this directory is done
                    } else {
                        let Frame { dir, entries, next } = frame;
                        let ghost kinds = entries@.map_values(|e: EntryKind| e@);
                        let step = match &entries[next] {
                            EntryKind::Directory(name) => {
                                let sub = dir.child(name.as_str());
                                self.waiting = sub.copy();
                                SearchStep::List(sub)
                            },
                            EntryKind::Other => SearchStep::Found(true),
                            EntryKind::Unreadable => SearchStep::Failed,
                        };
                        assert(kinds[next as int] == entries@[next as int]@);
                        let taken = Frame { dir, entries, next: next + 1 };
                        self.frames.push(taken);
                        assert(frame_views(self.frames@) == fs.update(
                            fs.len() - 1,
                            FrameView { dir: fs.last().dir, kinds: fs.last().kinds, next: fs.last().next + 1 },
                        ));
                        return step;
                    }
                },
            }
        }
    }
}



/// Starts the search of a depot's voice files: the depot's `audio/ship`
/// directory under SteamCMD.
pub fn depot_search(steamcmd: &FsPath, depot_id: u32) -> (r: (FileSearch, SearchStep))
    ensures
        r.0@.frames.len() == 0,
        r.0@.waiting == spec_depot_directory(steamcmd@, depot_id).push(named("audio"@)).push(
            named("ship"@),
        ),
        r.1@ == StepView::List(r.0@.waiting),
{
    FileSearch::start(&depot_ship_directory(steamcmd, depot_id))
}

/// Whether a downloaded depot holds voice files, from the end of its search:
/// a file found; a search that failed counts as no file.
pub fn depot_exists(end: &SearchStep) -> (r: bool)
    requires
        !(end is List),
    ensures
        r == (end@ == StepView::Found(true)),
{
    match end {
        SearchStep::Found(found) => *found,
        _ => false,
    }
}

// ---------------------------------------------------------------------------
// The search against a model of the directory tree
// ---------------------------------------------------------------------------

/// A directory tree as the search sees it.
pub enum TreeNode {
    /// Not a directory (or not there).
    Missing,
    /// A directory that cannot be read.
    Broken,
    /// A directory with its entries, in the order listed.
    Dir(Seq<TreeEntry>),
}

/// An entry of a directory tree.
pub enum TreeEntry {
    /// A subdirectory, by its name.
    Sub(Seq<char>, TreeNode),
    /// Anything that is not a directory, by its name.
    File(Seq<char>),
    /// An entry whose kind cannot be read.
    Bad,
}

/// How a listing shows an entry.
pub open spec fn kind_of(e: TreeEntry) -> KindView {
    match e {
        TreeEntry::Sub(n, _) => KindView::Directory(n),
        TreeEntry::File(_) => KindView::Other,
        TreeEntry::Bad => KindView::Unreadable,
    }
}

/// The listing of a tree's top directory.
pub open spec fn listing_of(t: TreeNode) -> ListingView {
    match t {
        TreeNode::Missing => ListingView::NotADirectory,
        TreeNode::Broken => ListingView::Unreadable,
        TreeNode::Dir(es) => ListingView::Entries(es.map_values(|e: TreeEntry| kind_of(e))),
    }
}

/// The answer of a depth-first search of a tree: whether it holds a file,
/// or `None` when it meets something unreadable before finding one.
pub open spec fn tree_answer(t: TreeNode) -> Option<bool>
    decreases t, 0int,
{
    match t {
        TreeNode::Missing => Some(false),
        TreeNode::Broken => None,
        TreeNode::Dir(es) => entries_answer(es, 0),
    }
}

/// The answer of a search of the entries of a directory from index `i` on.
pub open spec fn entries_answer(es: Seq<TreeEntry>, i: int) -> Option<bool>
    decreases es, es.len() - i,
{
    if i < 0 || i >= es.len() {
        Some(false)
    } else {
        match es[i] {
            TreeEntry::File(_) => Some(true),
            TreeEntry::Bad => None,
            TreeEntry::Sub(_, t) => match tree_answer(t) {
                Some(false) => entries_answer(es, i + 1),
                r => r,
            },
        }
    }
}

/// Whether some entry that is not a directory lies anywhere in the tree.
pub open spec fn tree_has_file(t: TreeNode) -> bool
    decreases t, 0int,
{
    match t {
        TreeNode::Dir(es) => entries_have_file(es, 0),
        _ => false,
    }
}

/// Whether some entry from index `i` on is, or holds, a file.
pub open spec fn entries_have_file(es: Seq<TreeEntry>, i: int) -> bool
    decreases es, es.len() - i,
{
    if i < 0 || i >= es.len() {
        false
    } else {
        (match es[i] {
            TreeEntry::File(_) => true,
            TreeEntry::Bad => false,
            TreeEntry::Sub(_, t) => tree_has_file(t),
        }) || entries_have_file(es, i + 1)
    }
}

/// Whether every directory and entry of the tree can be read.
pub open spec fn tree_readable(t: TreeNode) -> bool
    decreases t, 0int,
{
    match t {
        TreeNode::Broken => false,
        TreeNode::Missing => true,
        TreeNode::Dir(es) => entries_readable(es, 0),
    }
}

/// Whether every entry from index `i` on, and all below, can be read.
pub open spec fn entries_readable(es: Seq<TreeEntry>, i: int) -> bool
    decreases es, es.len() - i,
{
    if i < 0 || i >= es.len() {
        true
    } else {
        (match es[i] {
            TreeEntry::File(_) => true,
            TreeEntry::Bad => false,
            TreeEntry::Sub(_, t) => tree_readable(t),
        }) && entries_readable(es, i + 1)
    }
}

/// In a tree that can be read throughout, the search answers whether a file
/// lies anywhere in it; a missing root holds none.
pub proof fn lemma_readable_tree_answer(t: TreeNode)
    requires
        tree_readable(t),
    ensures
        tree_answer(t) == Some(tree_has_file(t)),
        t is Missing ==> tree_answer(t) == Some(false),
    decreases t, 0int,
{
    match t {
        TreeNode::Dir(es) => lemma_readable_entries_answer(es, 0),
        _ => {},
    }
}

proof fn lemma_readable_entries_answer(es: Seq<TreeEntry>, i: int)
    requires
        entries_readable(es, i),
    ensures
        entries_answer(es, i) == Some(entries_have_file(es, i)),
    decreases es, es.len() - i,
{
    if 0 <= i < es.len() {
        lemma_readable_entries_answer(es, i + 1);
        match es[i] {
            TreeEntry::Sub(_, t) => {
                assert(decreases_to!(es => es[i]));
                lemma_readable_tree_answer(t);
            },
            _ => {},
        }
    }
}

/// A directory being searched in the model: its entries and how many have
/// been taken.
pub struct TreeFrame {
    pub entries: Seq<TreeEntry>,
    pub next: int,
}

/// The answer still to come from a stack of directories, the innermost last.
pub open spec fn stack_answer(gs: Seq<TreeFrame>) -> Option<bool>
    decreases gs.len(),
{
    if gs.len() == 0 {
        Some(false)
    } else {
        then_answer(entries_answer(gs.last().entries, gs.last().next), stack_answer(gs.drop_last()))
    }
}

/// The answer of a search that goes on with `rest` when `first` found no file.
pub open spec fn then_answer(first: Option<bool>, rest: Option<bool>) -> Option<bool> {
    match first {
        Some(false) => rest,
        r => r,
    }
}

/// The directories of the search agree with the model: same entries, same
/// positions.
pub open spec fn frames_match(fs: Seq<FrameView>, gs: Seq<TreeFrame>) -> bool {
    &&& fs.len() == gs.len()
    &&& forall|i: int|
        0 <= i < fs.len() ==> {
            &&& #[trigger] fs[i].next == gs[i].next
            &&& 0 <= fs[i].next <= fs[i].kinds.len()
            &&& fs[i].kinds == gs[i].entries.map_values(|e: TreeEntry| kind_of(e))
        }
}

proof fn lemma_advance_follows_tree(fs: Seq<FrameView>, gs: Seq<TreeFrame>)
    requires
        frames_match(fs, gs),
    ensures
        advance(fs).1 == StepView::Found(true) ==> stack_answer(gs) == Some(true),
        advance(fs).1 == StepView::Found(false) ==> stack_answer(gs) == Some(false),
        advance(fs).1 == StepView::Failed ==> stack_answer(gs) == None::<bool>,
        advance(fs).1 is List ==> exists|gs2: Seq<TreeFrame>|
            #[trigger] frames_match(advance(fs).0, gs2) && gs2.len() > 0 && gs2.last().next >= 1
                && (gs2.last().entries[gs2.last().next - 1] matches TreeEntry::Sub(n, t2)
                && advance(fs).1 == StepView::List(advance(fs).0.last().dir.push(named(n)))
                && stack_answer(gs) == then_answer(tree_answer(t2), stack_answer(gs2))),
    decreases frames_measure(fs),
{
    if fs.len() > 0 {
        let f = fs.last();
        let g = gs.last();
        assert(fs[fs.len() - 1] == f && gs[gs.len() - 1] == g);
        assert(frames_match(fs.drop_last(), gs.drop_last())) by {
            assert forall|i: int| 0 <= i < fs.drop_last().len() implies {
                &&& #[trigger] fs.drop_last()[i].next == gs.drop_last()[i].next
                &&& 0 <= fs.drop_last()[i].next <= fs.drop_last()[i].kinds.len()
                &&& fs.drop_last()[i].kinds == gs.drop_last()[i].entries.map_values(
                    |e: TreeEntry| kind_of(e),
                )
            } by {
                assert(fs.drop_last()[i] == fs[i] && gs.drop_last()[i] == gs[i]);
            }
        }
        if f.next >= f.kinds.len() {
            lemma_advance_follows_tree(fs.drop_last(), gs.drop_last());
        } else {
            let k = f.next;
            let e = g.entries[k];
            assert(f.kinds[k] == kind_of(e));
            let f2 = FrameView { dir: f.dir, kinds: f.kinds, next: f.next + 1 };
            let g2 = TreeFrame { entries: g.entries, next: g.next + 1 };
            let fs2 = fs.update(fs.len() - 1, f2);
            let gs2 = gs.update(gs.len() - 1, g2);
            assert(frames_match(fs2, gs2)) by {
                assert forall|i: int| 0 <= i < fs2.len() implies {
                    &&& #[trigger] fs2[i].next == gs2[i].next
                    &&& 0 <= fs2[i].next <= fs2[i].kinds.len()
                    &&& fs2[i].kinds == gs2[i].entries.map_values(|e: TreeEntry| kind_of(e))
                } by {
                    if i < fs.len() - 1 {
                        assert(fs2[i] == fs[i] && gs2[i] == gs[i]);
                    }
                }
            }
            assert(gs2.drop_last() == gs.drop_last());
            match e {
                TreeEntry::Sub(n, t2) => {
                    assert(advance(fs) == (fs2, StepView::List(f.dir.push(named(n)))));
                    assert(fs2.last() == f2);
                    assert(gs2.last() == g2);
                    assert(frames_match(advance(fs).0, gs2));
                },
                _ => {},
            }
        }
    }
}

/// The search follows the tree it is shown: when the directories being
/// searched agree with a model `gs`, and the awaited directory is listed as
/// the tree `t` shows it, the search either answers with what searching `t`
/// and then the rest of `gs` answers, or asks for a subdirectory `t2` named
/// in an entry just taken, with that answer still the one to come.
///
/// With [`lemma_search_starts_with_tree`] and [`lemma_readable_tree_answer`]
/// this gives the whole law: a search of a tree that can be read throughout,
/// each awaited directory listed as it is, answers whether the tree holds a
/// file, and a missing root holds none.
pub proof fn lemma_search_follows_tree(
    frames: Seq<FrameView>,
    waiting: Seq<PartView>,
    gs: Seq<TreeFrame>,
    t: TreeNode,
)
    requires
        frames_match(frames, gs),
    ensures
        ({
            let (fs2, step) = after_listing(frames, waiting, listing_of(t));
            let expected = then_answer(tree_answer(t), stack_answer(gs));
            &&& step == StepView::Found(true) ==> expected == Some(true)
            &&& step == StepView::Found(false) ==> expected == Some(false)
            &&& step == StepView::Failed ==> expected == None::<bool>
            &&& step is List ==> exists|gs2: Seq<TreeFrame>|
                #[trigger] frames_match(fs2, gs2) && gs2.len() > 0 && gs2.last().next >= 1
                    && (gs2.last().entries[gs2.last().next - 1] matches TreeEntry::Sub(n, t2)
                    && step == StepView::List(fs2.last().dir.push(named(n)))
                    && expected == then_answer(tree_answer(t2), stack_answer(gs2)))
        }),
{
    match t {
        TreeNode::Missing => {
            lemma_advance_follows_tree(frames, gs);
        },
        TreeNode::Broken => {},
        TreeNode::Dir(es) => {
            let kinds = es.map_values(|e: TreeEntry| kind_of(e));
            let fs = frames.push(FrameView { dir: waiting, kinds, next: 0 });
            let g = gs.push(TreeFrame { entries: es, next: 0 });
            assert(frames_match(fs, g)) by {
                assert forall|i: int| 0 <= i < fs.len() implies {
                    &&& #[trigger] fs[i].next == g[i].next
                    &&& 0 <= fs[i].next <= fs[i].kinds.len()
                    &&& fs[i].kinds == g[i].entries.map_values(|e: TreeEntry| kind_of(e))
                } by {
                    if i < frames.len() {
                        assert(fs[i] == frames[i] && g[i] == gs[i]);
                    }
                }
            }
            assert(g.drop_last() == gs);
            lemma_advance_follows_tree(fs, g);
            let x = entries_answer(es, 0);
            let r = stack_answer(gs);
            assert(stack_answer(g) == then_answer(x, r));
        },
    }
}

/// A new search of a tree is to answer what searching that tree answers.
pub proof fn lemma_search_starts_with_tree(t: TreeNode)
    ensures
        frames_match(Seq::<FrameView>::empty(), Seq::<TreeFrame>::empty()),
        then_answer(tree_answer(t), stack_answer(Seq::<TreeFrame>::empty())) == tree_answer(t),
{
    match tree_answer(t) {
        Some(b) => {},
        None => {},
    }
}

/// The search reports a file only when one of the entries still to be
/// taken is not a directory (nor unreadable): a tree whose remaining entries
/// are all directories or unreadable never yields "found".
pub proof fn lemma_found_means_file_listed(fs: Seq<FrameView>)
    requires
        advance(fs).1 == StepView::Found(true),
    ensures
        exists|i: int, j: int|
            0 <= i < fs.len() && 0 <= fs[i].next <= j < fs[i].kinds.len() && #[trigger] fs[i].kinds[j]
                is Other,
    decreases frames_measure(fs),
{
    let f = fs.last();
    if f.next < 0 || f.next >= f.kinds.len() {
        lemma_found_means_file_listed(fs.drop_last());
        let (i, j) = choose|i: int, j: int|
            0 <= i < fs.drop_last().len() && 0 <= fs.drop_last()[i].next <= j < fs.drop_last()[i].kinds.len()
                && #[trigger] fs.drop_last()[i].kinds[j] is Other;
        assert(fs[i] == fs.drop_last()[i]);
        assert(fs[i].kinds[j] is Other);
    } else {
        assert(fs[fs.len() - 1].kinds[f.next] is Other);
    }
}

} // verus!
