//! Installing the voice files of a downloaded depot into the game, keeping a
//! record of what was installed, and removing it again.
use vstd::prelude::*;
use vstd::multiset::Multiset;
use crate::language::VoiceLanguage;
use crate::search::{
    entries_have_file, entries_readable, lemma_readable_tree_answer, tree_answer, tree_has_file,
    tree_readable, TreeEntry, TreeNode,
};
use crate::path::{join, lemma_join_inside, named, names_text, parent, stays_inside, FsPath, PartView};
use crate::steam::{audio_ship_directory, path_views};
use crate::text::{owned, push_str};

verus! {

/// What this tool records of an installed voice: the game build it was
/// installed for, the game directory, the language's name, how the files
/// were put in place, and the installed files relative to the game's
/// `audio/ship` directory.
#[derive(Debug)]
pub struct InstallState {
    pub build_id: String,
    pub game_directory: FsPath,
    pub language: String,
    pub installation_method: String,
    pub files: Vec<FsPath>,
}

// ---------------------------------------------------------------------------
// Walking a directory tree
// ---------------------------------------------------------------------------

/// `p` is `root` or lies below it, reached through named components only.
pub open spec fn below(root: Seq<PartView>, p: Seq<PartView>) -> bool {
    &&& root.len() <= p.len()
    &&& p.take(root.len() as int) == root
    &&& forall|i: int| root.len() <= i < p.len() ==> #[trigger] p[i] is Normal
}

/// `p` lies strictly below `root`, reached through named components only.
pub open spec fn strictly_below(root: Seq<PartView>, p: Seq<PartView>) -> bool {
    below(root, p) && root.len() < p.len()
}

/// The model of a [`FileWalk`].
pub struct WalkView {
    pub root: Seq<PartView>,
    /// The directories still to be listed; the last one is listed next.
    pub pending: Seq<Seq<PartView>>,
    /// The directory being listed.
    pub current: Option<Seq<PartView>>,
    /// The files found so far, in the order in which they were listed.
    pub files: Seq<Seq<PartView>>,
}

/// The collection of all files below a directory. The directories are taken
/// from a stack: the one found last is listed first. The caller lists each
/// directory that [`FileWalk::next_dir`] hands out and reports every entry
/// of it with [`FileWalk::add_entry`].
pub struct FileWalk {
    root: FsPath,
    pending: Vec<FsPath>,
    current: Option<FsPath>,
    files: Vec<FsPath>,
}

impl View for FileWalk {
    type V = WalkView;

    closed spec fn view(&self) -> WalkView {
        WalkView {
            root: self.root@,
            pending: path_views(self.pending@),
            current: match self.current {
                Some(c) => Some(c@),
                None => None,
            },
            files: path_views(self.files@),
        }
    }
}

/// A new walk of `root`: only `root` is pending, when it is a directory.
pub open spec fn walk_start(root: Seq<PartView>, root_is_dir: bool) -> WalkView {
    WalkView {
        root,
        pending: if root_is_dir {
            seq![root]
        } else {
            Seq::<Seq<PartView>>::empty()
        },
        current: None,
        files: Seq::<Seq<PartView>>::empty(),
    }
}

/// The walk after taking the next directory to list: the last pending one,
/// or none when nothing is pending.
pub open spec fn after_next_dir(v: WalkView) -> WalkView {
    if v.pending.len() == 0 {
        WalkView { root: v.root, pending: v.pending, current: None, files: v.files }
    } else {
        WalkView {
            root: v.root,
            pending: v.pending.drop_last(),
            current: Some(v.pending.last()),
            files: v.files,
        }
    }
}

/// The walk after an entry of the directory being listed was reported: a
/// directory is pending, anything else is a file.
pub open spec fn after_entry(v: WalkView, name: Seq<char>, is_dir: bool) -> WalkView {
    match v.current {
        Some(c) => if is_dir {
            WalkView {
                root: v.root,
                pending: v.pending.push(c.push(named(name))),
                current: v.current,
                files: v.files,
            }
        } else {
            WalkView {
                root: v.root,
                pending: v.pending,
                current: v.current,
                files: v.files.push(c.push(named(name))),
            }
        },
        None => v,
    }
}

impl FileWalk {
    /// Every directory of the walk is `root` or below it, and every file lies
    /// strictly below it.
    pub open spec fn wf(&self) -> bool {
        &&& forall|i: int|
            0 <= i < self@.pending.len() ==> below(self@.root, #[trigger] self@.pending[i])
        &&& self@.current matches Some(c) ==> below(self@.root, c)
        &&& forall|i: int|
            0 <= i < self@.files.len() ==> strictly_below(self@.root, #[trigger] self@.files[i])
    }

    /// A walk of `root`; when `root` is not a directory there is nothing to
    /// walk.
    pub fn new(root: &FsPath, root_is_dir: bool) -> (r: FileWalk)
        ensures
            r.wf(),
            r@ == walk_start(root@, root_is_dir),
            r@.root == root@,
            r@.pending == (if root_is_dir {
                seq![root@]
            } else {
                Seq::<Seq<PartView>>::empty()
            }),
            r@.current is None,
            r@.files == Seq::<Seq<PartView>>::empty(),
    {
        let mut pending: Vec<FsPath> = Vec::new();
        if root_is_dir {
            pending.push(root.copy());
        }
        let r = FileWalk { root: root.copy(), pending, current: None, files: Vec::new() };
        assert(r@.root.take(r@.root.len() as int) == r@.root);
        assert(r@.pending == (if root_is_dir {
            seq![root@]
        } else {
            Seq::<Seq<PartView>>::empty()
        }));
        assert(r@.files == Seq::<Seq<PartView>>::empty());
        r
    }

    /// Takes the directory to list next: the one that was found last.
    pub fn next_dir(&mut self) -> (r: Option<FsPath>)
        requires
            old(self).wf(),
        ensures
            final(self).wf(),
            final(self)@ == after_next_dir(old(self)@),
            final(self)@.root == old(self)@.root,
            final(self)@.files == old(self)@.files,
            old(self)@.pending.len() == 0 ==> r is None && final(self)@.current is None
                && final(self)@.pending == old(self)@.pending,
            old(self)@.pending.len() > 0 ==> (r matches Some(d) && d@ == old(self)@.pending.last()
                && final(self)@.current == Some(d@) && final(self)@.pending == old(
                self,
            )@.pending.drop_last()),
    {
        let ghost before = self.pending@;
        match self.pending.pop() {
            Some(d) => {
                assert(path_views(self.pending@) == path_views(before).drop_last());
                assert(path_views(before)[before.len() - 1] == d@);
                assert(below(self@.root, d@));
                let r = d.copy();
                self.current = Some(d);
                assert forall|i: int| 0 <= i < self@.pending.len() implies below(
                    self@.root,
                    #[trigger] self@.pending[i],
                ) by {
                    assert(self@.pending[i] == old(self)@.pending[i]);
                }
                assert(self@.files == old(self)@.files);
                Some(r)
            },
            None => {
                self.current = None;
                assert(self@.files == old(self)@.files);
                assert(self@.pending == old(self)@.pending);
                None
            },
        }
    }

    /// Reports one entry of the directory being listed: a directory is
    /// walked later, anything else is a file.
    pub fn add_entry(&mut self, name: &str, is_dir: bool)
        requires
            old(self).wf(),
            old(self)@.current is Some,
        ensures
            final(self).wf(),
            final(self)@ == after_entry(old(self)@, name@, is_dir),
            final(self)@.root == old(self)@.root,
            final(self)@.current == old(self)@.current,
            is_dir ==> final(self)@.pending == old(self)@.pending.push(
                old(self)@.current->0.push(named(name@)),
            ) && final(self)@.files == old(self)@.files,
            !is_dir ==> final(self)@.files == old(self)@.files.push(
                old(self)@.current->0.push(named(name@)),
            ) && final(self)@.pending == old(self)@.pending,
    {
        let path = match &self.current {
            Some(c) => c.child(name),
            None => {
                return;
            },
        };
        let ghost c = old(self)@.current->0;
        let ghost root = self@.root;
        assert(path@.take(root.len() as int) == c.take(root.len() as int));
        assert(forall|i: int| root.len() <= i < path@.len() ==> #[trigger] path@[i] is Normal) by {
            assert forall|i: int| root.len() <= i < path@.len() implies #[trigger] path@[i] is Normal by {
                if i < c.len() {
                    assert(path@[i] == c[i]);
                }
            }
        }
        assert(path@ == c.push(named(name@)));
        assert(below(root, path@));
        assert(strictly_below(root, path@));
        if is_dir {
            let ghost before = self.pending@;
            self.pending.push(path);
            assert(path_views(self.pending@) == path_views(before).push(path@));
            assert forall|i: int| 0 <= i < self@.pending.len() implies below(
                self@.root,
                #[trigger] self@.pending[i],
            ) by {
                if i < old(self)@.pending.len() {
                    assert(self@.pending[i] == old(self)@.pending[i]);
                }
            }
        } else {
            let ghost before = self.files@;
            self.files.push(path);
            assert(path_views(self.files@) == path_views(before).push(path@));
            assert forall|i: int| 0 <= i < self@.files.len() implies strictly_below(
                self@.root,
                #[trigger] self@.files[i],
            ) by {
                if i < old(self)@.files.len() {
                    assert(self@.files[i] == old(self)@.files[i]);
                }
            }
        }
    }

    /// Whether every directory has been listed.
    pub fn finished(&self) -> (r: bool)
        ensures
            r == (self@.pending.len() == 0),
    {
        self.pending.len() == 0
    }
}

// ---------------------------------------------------------------------------
// The walk against a model of the directory tree
// ---------------------------------------------------------------------------

/// The files of the tree `t` whose top directory is `dir`: each entry that is
/// not a directory, at any depth, by its path.
pub open spec fn tree_files(t: TreeNode, dir: Seq<PartView>) -> Seq<Seq<PartView>>
    decreases t, 0int,
{
    match t {
        TreeNode::Dir(es) => entries_files(es, 0, dir),
        _ => Seq::<Seq<PartView>>::empty(),
    }
}

/// The files of the entries of the directory `dir` from index `i` on.
pub open spec fn entries_files(es: Seq<TreeEntry>, i: int, dir: Seq<PartView>) -> Seq<
    Seq<PartView>,
>
    decreases es, es.len() - i,
{
    if i < 0 || i >= es.len() {
        Seq::<Seq<PartView>>::empty()
    } else {
        (match es[i] {
            TreeEntry::File(n) => seq![dir.push(named(n))],
            TreeEntry::Sub(n, t) => tree_files(t, dir.push(named(n))),
            TreeEntry::Bad => Seq::<Seq<PartView>>::empty(),
        }) + entries_files(es, i + 1, dir)
    }
}

/// A directory that can be walked throughout: every entry can be read, and
/// every subdirectory is a directory that can be listed.
pub open spec fn walkable(t: TreeNode) -> bool
    decreases t, 0int,
{
    match t {
        TreeNode::Dir(es) => entries_walkable(es, 0),
        _ => false,
    }
}

/// Whether the entries from index `i` on can be walked throughout.
pub open spec fn entries_walkable(es: Seq<TreeEntry>, i: int) -> bool
    decreases es, es.len() - i,
{
    if i < 0 || i >= es.len() {
        true
    } else {
        (match es[i] {
            TreeEntry::File(_) => true,
            TreeEntry::Bad => false,
            TreeEntry::Sub(_, t) => walkable(t),
        }) && entries_walkable(es, i + 1)
    }
}

/// The entries of the directories waiting to be listed, the one listed next
/// last, with the files still to come from them.
pub open spec fn pending_files(dirs: Seq<Seq<PartView>>, trees: Seq<Seq<TreeEntry>>) -> Seq<
    Seq<PartView>,
>
    decreases dirs.len(),
{
    if dirs.len() == 0 || dirs.len() != trees.len() {
        Seq::<Seq<PartView>>::empty()
    } else {
        pending_files(dirs.drop_last(), trees.drop_last()) + entries_files(
            trees.last(),
            0,
            dirs.last(),
        )
    }
}

/// The files that a walk in state `v` has still to find, when its pending
/// directories hold the entries `trees` and the directory being listed holds
/// `cur`, of which `next` have been reported.
pub open spec fn walk_rest(
    v: WalkView,
    trees: Seq<Seq<TreeEntry>>,
    cur: Seq<TreeEntry>,
    next: int,
) -> Seq<Seq<PartView>> {
    pending_files(v.pending, trees) + match v.current {
        Some(c) => entries_files(cur, next, c),
        None => Seq::<Seq<PartView>>::empty(),
    }
}

/// The walk in state `v` follows a tree whose files are `all`: the files
/// found so far and those still to come from the pending directories and
/// from the rest of the directory being listed are, together, `all`.
pub open spec fn walk_follows(
    v: WalkView,
    trees: Seq<Seq<TreeEntry>>,
    cur: Seq<TreeEntry>,
    next: int,
    all: Multiset<Seq<PartView>>,
) -> bool {
    &&& trees.len() == v.pending.len()
    &&& forall|i: int| 0 <= i < trees.len() ==> entries_walkable(#[trigger] trees[i], 0)
    &&& 0 <= next <= cur.len()
    &&& entries_walkable(cur, next)
    &&& (v.files + walk_rest(v, trees, cur, next)).to_multiset() == all
}

/// The entries of the top directory of a tree that is walked.
pub open spec fn top_entries(t: TreeNode) -> Seq<Seq<TreeEntry>> {
    match t {
        TreeNode::Dir(es) => seq![es],
        _ => Seq::<Seq<TreeEntry>>::empty(),
    }
}

/// The name under which a listing reports an entry.
pub open spec fn entry_name(e: TreeEntry) -> Seq<char> {
    match e {
        TreeEntry::File(n) => n,
        TreeEntry::Sub(n, _) => n,
        TreeEntry::Bad => Seq::<char>::empty(),
    }
}

/// The pending entries after the entry `e` was reported: a subdirectory's
/// entries wait to be listed.
pub open spec fn entry_trees(trees: Seq<Seq<TreeEntry>>, e: TreeEntry) -> Seq<Seq<TreeEntry>> {
    match e {
        TreeEntry::Sub(_, TreeNode::Dir(es)) => trees.push(es),
        _ => trees,
    }
}

/// A new walk of a root that is a directory that can be walked throughout,
/// or not a directory at all, follows the tree: the files to be found are
/// the tree's files.
pub proof fn lemma_walk_starts(root: Seq<PartView>, t: TreeNode)
    requires
        walkable(t) || t is Missing,
    ensures
        walk_follows(
            walk_start(root, t is Dir),
            top_entries(t),
            Seq::<TreeEntry>::empty(),
            0,
            tree_files(t, root).to_multiset(),
        ),
{
    let v = walk_start(root, t is Dir);
    let trees = top_entries(t);
    let rest = walk_rest(v, trees, Seq::<TreeEntry>::empty(), 0);
    match t {
        TreeNode::Dir(es) => {
            assert(trees[0] == es);
            assert(v.pending.drop_last().len() == 0);
            assert(trees.drop_last().len() == 0);
            assert(pending_files(v.pending.drop_last(), trees.drop_last())
                == Seq::<Seq<PartView>>::empty());
            assert(pending_files(v.pending, trees) == Seq::<Seq<PartView>>::empty() + entries_files(
                es,
                0,
                root,
            ));
            assert(rest == tree_files(t, root));
        },
        _ => {
            assert(rest == tree_files(t, root));
        },
    }
    assert(v.files + rest == tree_files(t, root));
}

/// Taking the next directory keeps the walk on the tree, once the directory
/// being listed has been reported in full: the directory taken holds the
/// entries of the last pending one, none of them reported yet.
pub proof fn lemma_walk_next_dir(
    v: WalkView,
    trees: Seq<Seq<TreeEntry>>,
    cur: Seq<TreeEntry>,
    next: int,
    all: Multiset<Seq<PartView>>,
)
    requires
        walk_follows(v, trees, cur, next, all),
        v.current is None || next == cur.len(),
        v.pending.len() > 0,
    ensures
        walk_follows(after_next_dir(v), trees.drop_last(), trees.last(), 0, all),
{
    let w = after_next_dir(v);
    if v.current is Some {
        assert(entries_files(cur, next, v.current->0) == Seq::<Seq<PartView>>::empty());
    }
    assert(walk_rest(v, trees, cur, next) == pending_files(v.pending, trees));
    assert(walk_rest(w, trees.drop_last(), trees.last(), 0) == pending_files(
        v.pending.drop_last(),
        trees.drop_last(),
    ) + entries_files(trees.last(), 0, v.pending.last()));
    assert(trees[trees.len() - 1] == trees.last());
    assert forall|i: int| 0 <= i < trees.drop_last().len() implies entries_walkable(
        #[trigger] trees.drop_last()[i],
        0,
    ) by {
        assert(trees.drop_last()[i] == trees[i]);
    }
}

/// Reporting the next entry of the directory being listed, as the tree shows
/// it, keeps the walk on the tree.
pub proof fn lemma_walk_entry(
    v: WalkView,
    trees: Seq<Seq<TreeEntry>>,
    cur: Seq<TreeEntry>,
    next: int,
    all: Multiset<Seq<PartView>>,
)
    requires
        walk_follows(v, trees, cur, next, all),
        v.current is Some,
        next < cur.len(),
    ensures
        walk_follows(
            after_entry(v, entry_name(cur[next]), cur[next] is Sub),
            entry_trees(trees, cur[next]),
            cur,
            next + 1,
            all,
        ),
{
    broadcast use vstd::seq_lib::lemma_multiset_commutative;

    let c = v.current->0;
    let e = cur[next];
    let name = entry_name(e);
    let w = after_entry(v, name, e is Sub);
    let trees2 = entry_trees(trees, e);
    let later = entries_files(cur, next + 1, c);
    let pf = pending_files(v.pending, trees);
    assert(entries_walkable(cur, next + 1));
    match e {
        TreeEntry::File(n) => {
            let f = c.push(named(n));
            assert(entries_files(cur, next, c) == seq![f] + later);
            assert(w.files == v.files.push(f));
            assert(walk_rest(w, trees2, cur, next + 1) == pf + later);
            assert(v.files + walk_rest(v, trees, cur, next) == v.files + (pf + (seq![f] + later)));
            assert(w.files + walk_rest(w, trees2, cur, next + 1) == (v.files + seq![f]) + (pf
                + later));
            assert((v.files + (pf + (seq![f] + later))).to_multiset() == ((v.files + seq![f]) + (
            pf + later)).to_multiset()) by {
                assert((v.files + (pf + (seq![f] + later))).to_multiset() == v.files.to_multiset().add(
                    pf.to_multiset().add(seq![f].to_multiset().add(later.to_multiset())),
                ));
                assert(((v.files + seq![f]) + (pf + later)).to_multiset() == v.files.to_multiset().add(
                    seq![f].to_multiset(),
                ).add(pf.to_multiset().add(later.to_multiset())));
                broadcast use vstd::multiset::group_multiset_axioms;

                assert(v.files.to_multiset().add(
                    pf.to_multiset().add(seq![f].to_multiset().add(later.to_multiset())),
                ) =~= v.files.to_multiset().add(seq![f].to_multiset()).add(
                    pf.to_multiset().add(later.to_multiset()),
                ));
            }
        },
        TreeEntry::Sub(n, t) => {
            let d = c.push(named(n));
            assert(walkable(t));
            let es2 = t->Dir_0;
            assert(trees2 == trees.push(es2));
            assert(w.pending == v.pending.push(d));
            assert(trees2.drop_last() == trees && w.pending.drop_last() == v.pending);
            assert(pending_files(w.pending, trees2) == pf + entries_files(es2, 0, d));
            assert(entries_files(cur, next, c) == tree_files(t, d) + later);
            assert(tree_files(t, d) == entries_files(es2, 0, d));
            assert(walk_rest(w, trees2, cur, next + 1) == (pf + entries_files(es2, 0, d)) + later);
            assert(walk_rest(v, trees, cur, next) == pf + (entries_files(es2, 0, d) + later));
            assert(v.files + walk_rest(v, trees, cur, next) == w.files + walk_rest(
                w,
                trees2,
                cur,
                next + 1,
            ));
            assert forall|i: int| 0 <= i < trees2.len() implies entries_walkable(
                #[trigger] trees2[i],
                0,
            ) by {
                if i < trees.len() {
                    assert(trees2[i] == trees[i]);
                }
            }
        },
        TreeEntry::Bad => {},
    }
}

/// A finished walk of a tree has found each file of the tree exactly as
/// often as the tree holds it, and nothing else: with [`lemma_walk_starts`],
/// [`lemma_walk_next_dir`] and [`lemma_walk_entry`], a walk of a tree that
/// can be walked throughout (or of a root that is no directory), each
/// directory handed out listed as the tree shows it, ends with the tree's
/// files, those that are not directories, each once for each time the tree
/// holds it.
pub proof fn lemma_walk_complete(
    v: WalkView,
    trees: Seq<Seq<TreeEntry>>,
    cur: Seq<TreeEntry>,
    next: int,
    all: Multiset<Seq<PartView>>,
)
    requires
        walk_follows(v, trees, cur, next, all),
        v.current is None || next == cur.len(),
        v.pending.len() == 0,
    ensures
        after_next_dir(v).files.to_multiset() == all,
        after_next_dir(v).pending.len() == 0,
        after_next_dir(v).current is None,
{
    if v.current is Some {
        assert(entries_files(cur, next, v.current->0) == Seq::<Seq<PartView>>::empty());
    }
    assert(walk_rest(v, trees, cur, next) == Seq::<Seq<PartView>>::empty());
    assert(v.files + walk_rest(v, trees, cur, next) == v.files);
}

/// A tree that can be walked throughout can also be searched throughout,
/// and the search finds a file exactly when the walk finds some: the search
/// and the walk agree on whether a tree holds any file.
pub proof fn lemma_search_agrees_with_walk(t: TreeNode, root: Seq<PartView>)
    requires
        walkable(t) || t is Missing,
    ensures
        tree_answer(t) == Some(tree_files(t, root).len() > 0),
{
    lemma_walkable_has_file(t, root);
    lemma_readable_tree_answer(t);
}

proof fn lemma_walkable_has_file(t: TreeNode, root: Seq<PartView>)
    requires
        walkable(t) || t is Missing,
    ensures
        tree_readable(t),
        tree_has_file(t) == (tree_files(t, root).len() > 0),
    decreases t, 0int,
{
    match t {
        TreeNode::Dir(es) => lemma_walkable_entries_have_file(es, 0, root),
        _ => {},
    }
}

proof fn lemma_walkable_entries_have_file(es: Seq<TreeEntry>, i: int, dir: Seq<PartView>)
    requires
        entries_walkable(es, i),
    ensures
        entries_readable(es, i),
        entries_have_file(es, i) == (entries_files(es, i, dir).len() > 0),
    decreases es, es.len() - i,
{
    if 0 <= i < es.len() {
        lemma_walkable_entries_have_file(es, i + 1, dir);
        match es[i] {
            TreeEntry::Sub(n, t) => {
                assert(decreases_to!(es => es[i]));
                lemma_walkable_has_file(t, dir.push(named(n)));
            },
            _ => {},
        }
    }
}

// ---------------------------------------------------------------------------
// Installing files
// ---------------------------------------------------------------------------

/// How one voice file was put in place.
#[derive(Clone, Copy, Debug, PartialEq, Eq)]
pub enum InstallMethod {
    /// A hard link to the depot's file.
    HardLink,
    /// A symbolic link to the depot's file.
    SymbolicLink,
    /// The depot's file, moved (or copied and then removed).
    Moved,
}

/// The name of an installation method.
pub open spec fn method_name(m: InstallMethod) -> Seq<char> {
    match m {
        InstallMethod::HardLink => "硬链接"@,
        InstallMethod::SymbolicLink => "符号链接"@,
        InstallMethod::Moved => "移动文件"@,
    }
}

/// The methods that were used, as flags.
#[derive(Clone, Copy, Debug, PartialEq, Eq)]
pub struct MethodSet {
    pub hard_link: bool,
    pub symbolic_link: bool,
    pub moved: bool,
}

/// The names of the used methods, ordered as a sorted set of strings orders
/// them (by their UTF-8 bytes): 硬链接, 移动文件, 符号链接.
pub open spec fn used_method_names(m: MethodSet) -> Seq<Seq<char>> {
    let a = if m.hard_link {
        seq!["硬链接"@]
    } else {
        Seq::<Seq<char>>::empty()
    };
    let b = if m.moved {
        a.push("移动文件"@)
    } else {
        a
    };
    if m.symbolic_link {
        b.push("符号链接"@)
    } else {
        b
    }
}

/// Names joined with `、` between them.
pub open spec fn joined_names(names: Seq<Seq<char>>) -> Seq<char>
    decreases names.len(),
{
    if names.len() == 0 {
        Seq::<char>::empty()
    } else if names.len() == 1 {
        names[0]
    } else {
        joined_names(names.drop_last()) + "、"@ + names.last()
    }
}

/// How a set of files was installed: the one method used, or, for several,
/// `混合方式（…）` with the methods joined by `、`.
pub open spec fn method_text(m: MethodSet) -> Seq<char> {
    let names = used_method_names(m);
    if names.len() == 1 {
        names[0]
    } else {
        "混合方式（"@ + joined_names(names) + "）"@
    }
}

impl MethodSet {
    /// No method used yet.
    pub fn none() -> (r: MethodSet)
        ensures
            !r.hard_link && !r.symbolic_link && !r.moved,
    {
        MethodSet { hard_link: false, symbolic_link: false, moved: false }
    }

    /// Whether `m` is in the set.
    pub open spec fn has(self, m: InstallMethod) -> bool {
        match m {
            InstallMethod::HardLink => self.hard_link,
            InstallMethod::SymbolicLink => self.symbolic_link,
            InstallMethod::Moved => self.moved,
        }
    }

    /// The set with `m` added.
    pub fn with(self, m: InstallMethod) -> (r: MethodSet)
        ensures
            r.has(m),
            forall|n: InstallMethod| n != m ==> r.has(n) == self.has(n),
    {
        match m {
            InstallMethod::HardLink => MethodSet { hard_link: true, ..self },
            InstallMethod::SymbolicLink => MethodSet { symbolic_link: true, ..self },
            InstallMethod::Moved => MethodSet { moved: true, ..self },
        }
    }

    /// How a set of files was installed (see [`method_text`]).
    pub fn text(&self) -> (r: String)
        ensures
            r@ == method_text(*self),
    {
        let mut names: Vec<&'static str> = Vec::new();
        if self.hard_link {
            names.push("硬链接");
        }
        if self.moved {
            names.push("移动文件");
        }
        if self.symbolic_link {
            names.push("符号链接");
        }
        let ghost used = used_method_names(*self);
        assert(names@.map_values(|s: &str| s@) == used);
        if names.len() == 1 {
            assert(names[0]@ == used[0]);
            return owned(names[0]);
        }
        let mut r = owned("混合方式（");
        let mut i: usize = 0;
        while i < names.len()
            invariant
                i <= names.len(),
                names@.map_values(|s: &str| s@) == used,
                r@ == "混合方式（"@ + joined_names(used.take(i as int)),
            decreases names.len() - i,
        {
            let ghost before = r@;
            assert(used.take(i + 1).drop_last() == used.take(i as int));
            assert(used.take(i + 1).last() == names[i as int]@);
            if i > 0 {
                push_str(&mut r, "、");
            }
            push_str(&mut r, names[i]);
            assert(r@ == "混合方式（"@ + joined_names(used.take(i + 1)));
            i = i + 1;
        }
        assert(used.take(names.len() as int) == used);
        push_str(&mut r, "）");
        r
    }
}

/// The text of a set that holds one method is that method's name:
/// 硬链接 for hard links, 符号链接 for symbolic links, 移动文件 for moved files.
pub proof fn lemma_single_method_text(s: MethodSet, m: InstallMethod)
    requires
        s.has(m),
        forall|n: InstallMethod| n != m ==> !s.has(n),
    ensures
        m == InstallMethod::HardLink ==> method_text(s) == "硬链接"@,
        m == InstallMethod::SymbolicLink ==> method_text(s) == "符号链接"@,
        m == InstallMethod::Moved ==> method_text(s) == "移动文件"@,
{
    assert(!s.has(InstallMethod::HardLink) || m == InstallMethod::HardLink);
    assert(!s.has(InstallMethod::SymbolicLink) || m == InstallMethod::SymbolicLink);
    assert(!s.has(InstallMethod::Moved) || m == InstallMethod::Moved);
}

/// The names listed for a set of methods are exactly the names of the methods
/// it holds, each once: 硬链接 when hard links were used, 符号链接 when
/// symbolic links were, 移动文件 when files were moved.
pub proof fn lemma_method_names_listed(s: MethodSet)
    ensures
        used_method_names(s).contains("硬链接"@) <==> s.has(InstallMethod::HardLink),
        used_method_names(s).contains("符号链接"@) <==> s.has(InstallMethod::SymbolicLink),
        used_method_names(s).contains("移动文件"@) <==> s.has(InstallMethod::Moved),
        used_method_names(s).len() == (if s.hard_link {
            1int
        } else {
            0
        }) + (if s.symbolic_link {
            1int
        } else {
            0
        }) + (if s.moved {
            1int
        } else {
            0
        }),
        forall|i: int|
            0 <= i < used_method_names(s).len() ==> #[trigger] used_method_names(s)[i] == "硬链接"@
                || used_method_names(s)[i] == "符号链接"@ || used_method_names(s)[i] == "移动文件"@,
{
    reveal_strlit("硬链接");
    reveal_strlit("符号链接");
    reveal_strlit("移动文件");
    let h = "硬链接"@;
    let y = "符号链接"@;
    let v = "移动文件"@;
    assert(h.len() == 3 && y.len() == 4 && v.len() == 4);
    assert(h != y && h != v);
    assert(y[0] != v[0]);
    assert(y != v);
    let names = used_method_names(s);
    if s.hard_link {
        assert(names[0] == h);
    }
    if s.symbolic_link {
        assert(names[names.len() - 1] == y);
    }
    if s.moved {
        let k: int = if s.hard_link { 1 } else { 0 };
        assert(names[k] == v);
    }
}

/// The text of every set of methods: one method by its name; several as
/// `混合方式（…）` with their names joined by `、`, in the order 硬链接,
/// 移动文件, 符号链接; and no method as `混合方式（）`.
pub proof fn lemma_method_texts(s: MethodSet)
    ensures
        (s.hard_link && !s.moved && !s.symbolic_link) ==> method_text(s) == "硬链接"@,
        (!s.hard_link && s.moved && !s.symbolic_link) ==> method_text(s) == "移动文件"@,
        (!s.hard_link && !s.moved && s.symbolic_link) ==> method_text(s) == "符号链接"@,
        (s.hard_link && s.moved && !s.symbolic_link) ==> method_text(s) == "混合方式（"@ + (
        "硬链接"@ + "、"@ + "移动文件"@) + "）"@,
        (s.hard_link && !s.moved && s.symbolic_link) ==> method_text(s) == "混合方式（"@ + (
        "硬链接"@ + "、"@ + "符号链接"@) + "）"@,
        (!s.hard_link && s.moved && s.symbolic_link) ==> method_text(s) == "混合方式（"@ + (
        "移动文件"@ + "、"@ + "符号链接"@) + "）"@,
        (s.hard_link && s.moved && s.symbolic_link) ==> method_text(s) == "混合方式（"@ + (
        "硬链接"@ + "、"@ + "移动文件"@ + "、"@ + "符号链接"@) + "）"@,
        (!s.hard_link && !s.moved && !s.symbolic_link) ==> method_text(s) == "混合方式（"@
            + "）"@,
{
    reveal_with_fuel(joined_names, 4);
    let names = used_method_names(s);
    let h = "硬链接"@;
    let v = "移动文件"@;
    let y = "符号链接"@;
    if s.hard_link && s.moved && !s.symbolic_link {
        assert(names == seq![h, v]);
        assert(names.drop_last() == seq![h]);
        assert(joined_names(names) == h + "、"@ + v);
    } else if s.hard_link && s.moved && s.symbolic_link {
        assert(names == seq![h, v, y]);
        assert(names.drop_last() == seq![h, v]);
        assert(names.drop_last().drop_last() == seq![h]);
        assert(joined_names(seq![h, v]) == h + "、"@ + v);
        assert(joined_names(names) == h + "、"@ + v + "、"@ + y);
    } else if s.hard_link && !s.moved && s.symbolic_link {
        assert(names == seq![h, y]);
        assert(names.drop_last() == seq![h]);
    } else if !s.hard_link && s.moved && s.symbolic_link {
        assert(names == seq![v, y]);
        assert(names.drop_last() == seq![v]);
    } else if names.len() == 0 {
        assert("混合方式（"@ + Seq::<char>::empty() == "混合方式（"@);
    }
}

/// A way of putting a voice file in place, in the order in which they are
/// tried.
#[derive(Clone, Copy, Debug, PartialEq, Eq)]
pub enum Attempt {
    /// Make a hard link to the depot's file.
    HardLink,
    /// Make a symbolic link to the depot's file.
    SymbolicLink,
    /// Move (rename) the depot's file.
    Rename,
    /// Copy the depot's file.
    Copy,
    /// Remove the depot's file after copying it.
    RemoveSource,
}

/// What follows an attempt.
#[derive(Clone, Copy, Debug, PartialEq, Eq)]
pub enum Placement {
    /// Try this next.
    Try(Attempt),
    /// The file is in place, by this method.
    Placed(InstallMethod),
    /// The file could not be put in place; the error of the last attempt
    /// ends the installation.
    Failed,
}

/// The order of preference: a hard link; failing that a symbolic link;
/// failing that the file is moved, by renaming it or, if that fails, by
/// copying it and removing the original. Only a failed copy or removal fails.
pub open spec fn next_placement(a: Attempt, succeeded: bool) -> Placement {
    match a {
        Attempt::HardLink => if succeeded {
            Placement::Placed(InstallMethod::HardLink)
        } else {
            Placement::Try(Attempt::SymbolicLink)
        },
        Attempt::SymbolicLink => if succeeded {
            Placement::Placed(InstallMethod::SymbolicLink)
        } else {
            Placement::Try(Attempt::Rename)
        },
        Attempt::Rename => if succeeded {
            Placement::Placed(InstallMethod::Moved)
        } else {
            Placement::Try(Attempt::Copy)
        },
        Attempt::Copy => if succeeded {
            Placement::Try(Attempt::RemoveSource)
        } else {
            Placement::Failed
        },
        Attempt::RemoveSource => if succeeded {
            Placement::Placed(InstallMethod::Moved)
        } else {
            Placement::Failed
        },
    }
}

/// What follows an attempt (see [`next_placement`]).
pub fn place_step(a: Attempt, succeeded: bool) -> (r: Placement)
    ensures
        r == next_placement(a, succeeded),
{
    match a {
        Attempt::HardLink => if succeeded {
            Placement::Placed(InstallMethod::HardLink)
        } else {
            Placement::Try(Attempt::SymbolicLink)
        },
        Attempt::SymbolicLink => if succeeded {
            Placement::Placed(InstallMethod::SymbolicLink)
        } else {
            Placement::Try(Attempt::Rename)
        },
        Attempt::Rename => if succeeded {
            Placement::Placed(InstallMethod::Moved)
        } else {
            Placement::Try(Attempt::Copy)
        },
        Attempt::Copy => if succeeded {
            Placement::Try(Attempt::RemoveSource)
        } else {
            Placement::Failed
        },
        Attempt::RemoveSource => if succeeded {
            Placement::Placed(InstallMethod::Moved)
        } else {
            Placement::Failed
        },
    }
}

/// The method a file ends up placed by, given which attempts would succeed:
/// a hard link when one can be made; else a symbolic link when one can be
/// made; else a move, when the rename works or the copy and the removal both
/// do; `None` when the file cannot be placed.
pub open spec fn placement_of(hard: bool, sym: bool, rename: bool, copy: bool, remove: bool) -> Option<
    InstallMethod,
> {
    if hard {
        Some(InstallMethod::HardLink)
    } else if sym {
        Some(InstallMethod::SymbolicLink)
    } else if rename || (copy && remove) {
        Some(InstallMethod::Moved)
    } else {
        None
    }
}

/// The step after `s`, when `s` asks for another attempt.
pub open spec fn then_try(s: Placement, succeeded: bool) -> Placement {
    match s {
        Placement::Try(a) => next_placement(a, succeeded),
        other => other,
    }
}

/// Following the order of preference to its end places a file exactly as
/// [`placement_of`] says: a symbolic link only when no hard link can be
/// made, and a move only when no link at all can be.
pub proof fn lemma_link_preference(hard: bool, sym: bool, rename: bool, copy: bool, remove: bool)
    ensures
        ({
            let s1 = next_placement(Attempt::HardLink, hard);
            let s2 = then_try(s1, sym);
            let s3 = then_try(s2, rename);
            let s4 = then_try(s3, copy);
            let s5 = then_try(s4, remove);
            &&& !(s5 is Try)
            &&& (s5 matches Placement::Placed(m) ==> placement_of(hard, sym, rename, copy, remove)
                == Some(m))
            &&& (s5 is Failed ==> placement_of(hard, sym, rename, copy, remove) is None)
            &&& (s5 == Placement::Placed(InstallMethod::HardLink) <==> hard)
            &&& (s5 == Placement::Placed(InstallMethod::SymbolicLink) <==> !hard && sym)
            &&& (s5 == Placement::Placed(InstallMethod::Moved) <==> !hard && !sym && (rename || (copy
                && remove)))
            &&& (s5 is Failed <==> !hard && !sym && !rename && !(copy && remove))
        }),
{
}

/// Why installing the voice files failed.
#[derive(Debug, PartialEq, Eq)]
pub enum InstallError {
    /// The depot holds no voice files.
    NoFiles,
    /// A voice file is already present in the game; the text is the file's
    /// path relative to `audio/ship`, as shown.
    TargetExists(String),
    /// The game directory is not two levels above `audio/ship`.
    InvalidGamePath,
}

impl InstallError {
    /// The message shown for this error.
    pub fn message(&self) -> (r: String)
        ensures
            self matches InstallError::NoFiles ==> r@ == "Depot audio/ship 内没有文件。"@,
            self matches InstallError::TargetExists(shown) ==> r@ == "目标文件已存在，未覆盖："@
                + shown@ + "。请先在 Steam 验证游戏文件，或选择其他语音语言。"@,
            self matches InstallError::InvalidGamePath ==> r@ == "游戏路径无效"@,
    {
        match self {
            InstallError::NoFiles => owned("Depot audio/ship 内没有文件。"),
            InstallError::TargetExists(shown) => {
                let mut r = owned("目标文件已存在，未覆盖：");
                push_str(&mut r, shown.as_str());
                push_str(&mut r, "。请先在 Steam 验证游戏文件，或选择其他语音语言。");
                r
            },
            InstallError::InvalidGamePath => owned("游戏路径无效"),
        }
    }
}

/// The model of an [`InstallRun`].
pub struct RunView {
    pub source: Seq<PartView>,
    pub destination: Seq<PartView>,
    /// The depot's files, in the order in which they are installed.
    pub files: Seq<Seq<PartView>>,
    /// How many files have been installed.
    pub done: nat,
    /// The installed files, relative to the source and destination.
    pub installed: Seq<Seq<PartView>>,
    pub methods: MethodSet,
    /// The way of putting the next file in place that is being tried, once
    /// its place was found free.
    pub trying: Option<Attempt>,
}

/// The relative paths of `files` below `source`.
pub open spec fn relatives(source: Seq<PartView>, files: Seq<Seq<PartView>>) -> Seq<
    Seq<PartView>,
> {
    files.map_values(|f: Seq<PartView>| f.skip(source.len() as int))
}

/// The paths of `rel` inside `dir`.
pub open spec fn targets(dir: Seq<PartView>, rel: Seq<Seq<PartView>>) -> Seq<Seq<PartView>> {
    rel.map_values(|r: Seq<PartView>| join(dir, r))
}

/// One file to install: where it is in the depot, its path relative to the
/// depot's `audio/ship`, and where it goes in the game.
pub struct PendingFile {
    pub file: FsPath,
    pub relative: FsPath,
    pub target: FsPath,
}

/// The installation of a depot's voice files into the game's `audio/ship`.
/// The caller installs the files one by one, in the order given, and
/// reports how each was put in place; on a failure it removes what
/// [`InstallRun::rollback_targets`] lists.
pub struct InstallRun {
    source: FsPath,
    destination: FsPath,
    files: Vec<FsPath>,
    done: usize,
    installed: Vec<FsPath>,
    methods: MethodSet,
    trying: Option<Attempt>,
}

impl View for InstallRun {
    type V = RunView;

    closed spec fn view(&self) -> RunView {
        RunView {
            source: self.source@,
            destination: self.destination@,
            files: path_views(self.files@),
            done: self.done as nat,
            installed: path_views(self.installed@),
            methods: self.methods,
            trying: self.trying,
        }
    }
}

impl InstallRun {
    /// The files all lie below the source; the installed ones are the first
    /// `done` of them, by their relative paths.
    pub open spec fn wf(&self) -> bool {
        &&& self@.files.len() > 0
        &&& self@.done <= self@.files.len()
        &&& forall|i: int|
            0 <= i < self@.files.len() ==> strictly_below(self@.source, #[trigger] self@.files[i])
        &&& self@.installed == relatives(self@.source, self@.files.take(self@.done as int))
    }

    /// Starts installing the files that a finished walk of the depot's
    /// `audio/ship` found into `destination`; refused when there are none.
    pub fn start(walk: FileWalk, destination: FsPath) -> (r: Result<InstallRun, InstallError>)
        requires
            walk.wf(),
        ensures
            r is Err <==> walk@.files.len() == 0,
            r matches Err(e) ==> e == InstallError::NoFiles,
            r matches Ok(run) ==> {
                &&& run.wf()
                &&& run@.source == walk@.root
                &&& run@.destination == destination@
                &&& run@.files == walk@.files
                &&& run@.done == 0
                &&& run@.installed.len() == 0
                &&& !run@.methods.hard_link && !run@.methods.symbolic_link && !run@.methods.moved
                &&& run@.trying is None
            },
    {
        if walk.files.len() == 0 {
            return Err(InstallError::NoFiles);
        }
        let run = InstallRun {
            source: walk.root,
            destination,
            files: walk.files,
            done: 0,
            installed: Vec::new(),
            methods: MethodSet::none(),
            trying: None,
        };
        assert(run@.installed == relatives(run@.source, run@.files.take(0)));
        Ok(run)
    }

    /// The next file to install, if any is left.
    pub fn next_file(&self) -> (r: Option<PendingFile>)
        requires
            self.wf(),
        ensures
            r is Some <==> self@.done < self@.files.len(),
            r matches Some(p) ==> {
                &&& p.file@ == self@.files[self@.done as int]
                &&& p.relative@ == self@.files[self@.done as int].skip(self@.source.len() as int)
                &&& p.target@ == join(self@.destination, p.relative@)
                &&& p.relative@.len() > 0
                &&& stays_inside(p.relative@)
            },
    {
        if self.done >= self.files.len() {
            return None;
        }
        let file = &self.files[self.done];
        let ghost f = self@.files[self.done as int];
        assert(f == file@);
        let relative = file.range(self.source.len(), file.len());
        assert(relative@ == f.skip(self@.source.len() as int));
        assert forall|i: int| 0 <= i < relative@.len() implies !(#[trigger] relative@[i] is Prefix)
            && !(relative@[i] is RootDir) && !(relative@[i] is ParentDir) by {
            assert(relative@[i] == f[self@.source.len() + i]);
        }
        let target = self.destination.join(&relative);
        Some(PendingFile { file: file.copy(), relative, target })
    }

    /// Takes whether the next file's place in the game is already taken: a
    /// taken place is never overwritten, and the installation fails with the
    /// file's path relative to `audio/ship`, its names joined by `sep`; for a
    /// free place, a hard link is tried first.
    pub fn clear_target(&mut self, taken: bool, sep: char) -> (r: Result<Attempt, InstallError>)
        requires
            old(self).wf(),
            old(self)@.done < old(self)@.files.len(),
        ensures
            final(self).wf(),
            final(self)@.source == old(self)@.source,
            final(self)@.destination == old(self)@.destination,
            final(self)@.files == old(self)@.files,
            final(self)@.done == old(self)@.done,
            final(self)@.installed == old(self)@.installed,
            final(self)@.methods == old(self)@.methods,
            taken ==> (r matches Err(InstallError::TargetExists(s)) && s@ == names_text(
                old(self)@.files[old(self)@.done as int].skip(old(self)@.source.len() as int),
                sep,
            )) && final(self)@.trying is None,
            !taken ==> r == Ok::<Attempt, InstallError>(Attempt::HardLink) && final(self)@.trying
                == Some(Attempt::HardLink),
    {
        if taken {
            self.trying = None;
            let file = &self.files[self.done];
            assert(self@.files[self.done as int] == file@);
            assert(strictly_below(self@.source, file@));
            let relative = file.range(self.source.len(), file.len());
            Err(InstallError::TargetExists(relative.names_text(sep)))
        } else {
            self.trying = Some(Attempt::HardLink);
            Ok(Attempt::HardLink)
        }
    }

    /// Takes whether the attempt being tried succeeded and tells what
    /// follows (see [`next_placement`]); when the file is in place it is
    /// recorded with the method the chain ended at.
    pub fn attempted(&mut self, succeeded: bool) -> (r: Placement)
        requires
            old(self).wf(),
            old(self)@.done < old(self)@.files.len(),
            old(self)@.trying is Some,
        ensures
            final(self).wf(),
            r == next_placement(old(self)@.trying->0, succeeded),
            final(self)@.source == old(self)@.source,
            final(self)@.destination == old(self)@.destination,
            final(self)@.files == old(self)@.files,
            r matches Placement::Try(a) ==> final(self)@.trying == Some(a) && final(self)@.done
                == old(self)@.done && final(self)@.installed == old(self)@.installed
                && final(self)@.methods == old(self)@.methods,
            r is Failed ==> final(self)@.trying is None && final(self)@.done == old(self)@.done
                && final(self)@.installed == old(self)@.installed && final(self)@.methods == old(
                self,
            )@.methods,
            r matches Placement::Placed(m) ==> {
                &&& final(self)@.trying is None
                &&& final(self)@.done == old(self)@.done + 1
                &&& final(self)@.installed == old(self)@.installed.push(
                    old(self)@.files[old(self)@.done as int].skip(old(self)@.source.len() as int),
                )
                &&& final(self)@.methods.has(m)
                &&& forall|n: InstallMethod|
                    n != m ==> final(self)@.methods.has(n) == old(self)@.methods.has(n)
            },
    {
        let attempt = match self.trying {
            Some(a) => a,
            None => {
                return Placement::Failed;
            },
        };
        let next = place_step(attempt, succeeded);
        match next {
            Placement::Try(a) => {
                self.trying = Some(a);
            },
            Placement::Failed => {
                self.trying = None;
            },
            Placement::Placed(m) => {
                self.trying = None;
                self.record(m);
            },
        }
        next
    }

    fn record(&mut self, method: InstallMethod)
        requires
            old(self).wf(),
            old(self)@.done < old(self)@.files.len(),
        ensures
            final(self).wf(),
            final(self)@.trying == old(self)@.trying,
            final(self)@.source == old(self)@.source,
            final(self)@.destination == old(self)@.destination,
            final(self)@.files == old(self)@.files,
            final(self)@.done == old(self)@.done + 1,
            final(self)@.installed == old(self)@.installed.push(
                old(self)@.files[old(self)@.done as int].skip(old(self)@.source.len() as int),
            ),
            final(self)@.methods.has(method),
            forall|n: InstallMethod|
                n != method ==> final(self)@.methods.has(n) == old(self)@.methods.has(n),
    {
        let file = &self.files[self.done];
        assert(self@.files[self.done as int] == file@);
        assert(strictly_below(self@.source, file@));
        let relative = file.range(self.source.len(), file.len());
        let ghost before = self.installed@;
        self.installed.push(relative);
        assert(path_views(self.installed@) == path_views(before).push(relative@));
        self.methods = self.methods.with(method);
        assert(self.done < self.files.len());
        self.done = self.done + 1;
        assert(self@.files.take(self.done as int).drop_last() == old(self)@.files.take(
            old(self)@.done as int,
        ));
        assert(relatives(self@.source, self@.files.take(self.done as int)) == relatives(
            self@.source,
            old(self)@.files.take(old(self)@.done as int),
        ).push(relative@));
    }

    /// The files in the game that this run has put in place so far: what a
    /// failed installation removes again.
    pub fn rollback_targets(&self) -> (r: Vec<FsPath>)
        requires
            self.wf(),
        ensures
            path_views(r@) == targets(self@.destination, self@.installed),
    {
        let mut r: Vec<FsPath> = Vec::new();
        let mut i: usize = 0;
        while i < self.installed.len()
            invariant
                i <= self.installed.len(),
                path_views(r@) == targets(self@.destination, self@.installed.take(i as int)),
            decreases self.installed.len() - i,
        {
            let ghost before = r@;
            let t = self.destination.join(&self.installed[i]);
            r.push(t);
            assert(path_views(r@) == path_views(before).push(t@));
            assert(self@.installed.take(i + 1) == self@.installed.take(i as int).push(
                self@.installed[i as int],
            ));
            assert(targets(self@.destination, self@.installed.take(i + 1)) == targets(
                self@.destination,
                self@.installed.take(i as int),
            ).push(join(self@.destination, self@.installed[i as int])));
            i = i + 1;
        }
        assert(self@.installed.take(self.installed.len() as int) == self@.installed);
        r
    }

    /// The record of a complete installation for the game build `build_id`:
    /// the game directory is the one two levels above the destination.
    pub fn finish(self, build_id: &str, language: VoiceLanguage) -> (r: Result<
        InstallState,
        InstallError,
    >)
        requires
            self.wf(),
            self@.done == self@.files.len(),
        ensures
            r is Err <==> spec_game_of(self@.destination) is None,
            r matches Err(e) ==> e == InstallError::InvalidGamePath,
            r matches Ok(state) ==> {
                &&& Some(state.game_directory@) == spec_game_of(self@.destination)
                &&& state.build_id@ == build_id@
                &&& state.language@ == language.name@
                &&& state.installation_method@ == method_text(self@.methods)
                &&& path_views(state.files@) == self@.installed
                &&& path_views(state.files@) == relatives(self@.source, self@.files)
                &&& forall|i: int|
                    0 <= i < state.files@.len() ==> stays_inside(#[trigger] state.files@[i]@)
                        && state.files@[i]@.len() > 0
            },
    {
        let ghost installed = self@.installed;
        assert(self@.files.take(self@.done as int) == self@.files);
        proof {
            assert forall|i: int| 0 <= i < installed.len() implies stays_inside(
                #[trigger] installed[i],
            ) && installed[i].len() > 0 by {
                let f = self@.files[i];
                assert(installed[i] == f.skip(self@.source.len() as int));
                assert(strictly_below(self@.source, f));
                assert forall|k: int| 0 <= k < installed[i].len() implies !(
                #[trigger] installed[i][k] is Prefix) && !(installed[i][k] is RootDir) && !(
                installed[i][k] is ParentDir) by {
                    assert(installed[i][k] == f[self@.source.len() + k]);
                }
            }
        }
        let game = match self.destination.parent() {
            Some(up) => match up.parent() {
                Some(g) => g,
                None => {
                    return Err(InstallError::InvalidGamePath);
                },
            },
            None => {
                return Err(InstallError::InvalidGamePath);
            },
        };
        let method = self.methods.text();
        let state = InstallState {
            build_id: owned(build_id),
            game_directory: game,
            language: owned(language.name),
            installation_method: method,
            files: self.installed,
        };
        assert forall|i: int| 0 <= i < state.files@.len() implies stays_inside(
            #[trigger] state.files@[i]@,
        ) && state.files@[i]@.len() > 0 by {
            assert(state.files@[i]@ == installed[i]);
        }
        Ok(state)
    }
}

/// The game directory for an `audio/ship` directory: two levels up.
pub open spec fn spec_game_of(destination: Seq<PartView>) -> Option<Seq<PartView>> {
    match parent(destination) {
        Some(up) => parent(up),
        None => None,
    }
}

// ---------------------------------------------------------------------------
// Removing an installed voice
// ---------------------------------------------------------------------------

/// The game's `audio/ship` directory.
pub open spec fn spec_ship(game: Seq<PartView>) -> Seq<PartView> {
    game.push(named("audio"@)).push(named("ship"@))
}

/// The files that removing a recorded voice deletes: each recorded file that
/// stays inside `audio/ship` (no prefix, root or `..`), in the game's
/// `audio/ship` directory, in the recorded order.
pub open spec fn spec_removal_targets(game: Seq<PartView>, files: Seq<Seq<PartView>>) -> Seq<
    Seq<PartView>,
>
    decreases files.len(),
{
    if files.len() == 0 {
        Seq::<Seq<PartView>>::empty()
    } else {
        let rest = spec_removal_targets(game, files.drop_last());
        if stays_inside(files.last()) {
            rest.push(join(spec_ship(game), files.last()))
        } else {
            rest
        }
    }
}

/// The files that removing the recorded voice deletes, if they exist.
pub fn removal_targets(state: &InstallState) -> (r: Vec<FsPath>)
    ensures
        path_views(r@) == spec_removal_targets(state.game_directory@, path_views(state.files@)),
{
    let ship = audio_ship_directory(&state.game_directory);
    let ghost files = path_views(state.files@);
    let mut r: Vec<FsPath> = Vec::new();
    let mut i: usize = 0;
    while i < state.files.len()
        invariant
            i <= state.files.len(),
            files == path_views(state.files@),
            ship@ == spec_ship(state.game_directory@),
            path_views(r@) == spec_removal_targets(state.game_directory@, files.take(i as int)),
        decreases state.files.len() - i,
    {
        assert(files.take(i + 1).drop_last() == files.take(i as int));
        assert(files.take(i + 1).last() == state.files[i as int]@);
        if state.files[i].stays_inside() {
            let ghost before = r@;
            let t = ship.join(&state.files[i]);
            r.push(t);
            assert(path_views(r@) == path_views(before).push(t@));
        }
        i = i + 1;
    }
    assert(files.take(state.files.len() as int) == files);
    r
}

/// The model of a [`RemovalRun`]: the files to delete, how many of them have
/// been handed out, and the positions of those that were deleted.
pub struct RemovalView {
    pub targets: Seq<Seq<PartView>>,
    pub next: int,
    pub deleted: Seq<int>,
}

/// Deleting the files of a recorded voice, one at a time: the caller deletes
/// each file handed out that exists, reports each deletion, and is told how
/// many files were deleted.
pub struct RemovalRun {
    targets: Vec<FsPath>,
    next: usize,
    removed: usize,
    deleted: Ghost<Seq<int>>,
}

impl View for RemovalRun {
    type V = RemovalView;

    closed spec fn view(&self) -> RemovalView {
        RemovalView { targets: path_views(self.targets@), next: self.next as int, deleted: self.deleted@ }
    }
}

impl RemovalRun {
    /// Each deleted file was handed out, once: the positions of the deleted
    /// files rise and lie before the next file to hand out.
    pub open spec fn wf(&self) -> bool {
        &&& 0 <= self@.next <= self@.targets.len()
        &&& forall|i: int, j: int|
            0 <= i < j < self@.deleted.len() ==> #[trigger] self@.deleted[i] < #[trigger] self@.deleted[j]
        &&& forall|i: int|
            0 <= i < self@.deleted.len() ==> 0 <= #[trigger] self@.deleted[i] < self@.next
    }

    /// The count of deleted files is kept.
    pub closed spec fn counted(&self) -> bool {
        self.removed == self.deleted@.len()
    }

    /// The run for the recorded voice `state`: its files to delete are the
    /// removal targets, none handed out yet.
    pub fn start(state: &InstallState) -> (r: RemovalRun)
        ensures
            r.wf(),
            r.counted(),
            r@.targets == spec_removal_targets(state.game_directory@, path_views(state.files@)),
            r@.next == 0,
            r@.deleted == Seq::<int>::empty(),
    {
        RemovalRun { targets: removal_targets(state), next: 0, removed: 0, deleted: Ghost(Seq::empty()) }
    }

    /// The next file to delete, if it exists; `None` when every file has been
    /// handed out.
    pub fn next_target(&mut self) -> (r: Option<FsPath>)
        requires
            old(self).wf(),
            old(self).counted(),
        ensures
            final(self).wf(),
            final(self).counted(),
            final(self)@.targets == old(self)@.targets,
            final(self)@.deleted == old(self)@.deleted,
            old(self)@.next < old(self)@.targets.len() ==> (r matches Some(t) && t@ == old(
                self,
            )@.targets[old(self)@.next] && final(self)@.next == old(self)@.next + 1),
            old(self)@.next >= old(self)@.targets.len() ==> r is None && final(self)@.next == old(
                self,
            )@.next,
    {
        assert(path_views(self.targets@).len() == self.targets@.len());
        if self.next < self.targets.len() {
            let t = self.targets[self.next].copy();
            assert(t@ == old(self)@.targets[old(self)@.next]);
            self.next = self.next + 1;
            assert forall|i: int| 0 <= i < self@.deleted.len() implies 0 <= #[trigger] self@.deleted[i]
                < self@.next by {
                assert(self@.deleted[i] == old(self)@.deleted[i]);
            }
            assert forall|i: int, j: int| 0 <= i < j < self@.deleted.len() implies #[trigger] self@.deleted[i]
                < #[trigger] self@.deleted[j] by {
                assert(self@.deleted[i] == old(self)@.deleted[i]);
                assert(self@.deleted[j] == old(self)@.deleted[j]);
            }
            Some(t)
        } else {
            None
        }
    }

    /// The file handed out last was deleted.
    pub fn deleted(&mut self)
        requires
            old(self).wf(),
            old(self).counted(),
            old(self)@.next > 0,
            old(self)@.deleted.len() == 0 || old(self)@.deleted.last() < old(self)@.next - 1,
        ensures
            final(self).wf(),
            final(self).counted(),
            final(self)@.targets == old(self)@.targets,
            final(self)@.next == old(self)@.next,
            final(self)@.deleted == old(self)@.deleted.push(old(self)@.next - 1),
    {
        proof {
            let d = self.deleted@;
            assert forall|i: int| 0 <= i < d.len() implies 0 <= #[trigger] d[i] < self.next - 1 by {
                if i < d.len() - 1 {
                    assert(d[i] < d[d.len() - 1]);
                }
            }
            lemma_rising_below(d, self.next - 1);
            assert(path_views(self.targets@).len() == self.targets@.len());
        }
        self.removed = self.removed + 1;
        self.deleted = Ghost(self.deleted@.push(self.next as int - 1));
    }

    /// How many files were deleted.
    pub fn removed(&self) -> (r: usize)
        requires
            self.counted(),
        ensures
            r == self@.deleted.len(),
    {
        self.removed
    }
}

/// Rising positions below `n` are no more than `n`.
proof fn lemma_rising_below(s: Seq<int>, n: int)
    requires
        0 <= n,
        forall|i: int, j: int| 0 <= i < j < s.len() ==> #[trigger] s[i] < #[trigger] s[j],
        forall|i: int| 0 <= i < s.len() ==> 0 <= #[trigger] s[i] < n,
    ensures
        s.len() <= n,
    decreases s.len(),
{
    if s.len() > 0 {
        let t = s.drop_last();
        assert forall|i: int| 0 <= i < t.len() implies 0 <= #[trigger] t[i] < s.last() by {
            assert(t[i] == s[i]);
            assert(s[i] < s[s.len() - 1]);
        }
        assert forall|i: int, j: int| 0 <= i < j < t.len() implies #[trigger] t[i] < #[trigger] t[j] by {
            assert(t[i] == s[i] && t[j] == s[j]);
        }
        lemma_rising_below(t, s.last());
        assert(s[s.len() - 1] < n);
    }
}

/// Removing a recorded voice never touches anything outside the game's
/// `audio/ship` directory: every file it deletes lies in that directory.
pub proof fn lemma_removal_stays_in_ship(game: Seq<PartView>, files: Seq<Seq<PartView>>)
    ensures
        forall|i: int|
            0 <= i < spec_removal_targets(game, files).len() ==> {
                let t = #[trigger] spec_removal_targets(game, files)[i];
                &&& spec_ship(game).len() <= t.len()
                &&& t.take(spec_ship(game).len() as int) == spec_ship(game)
            },
    decreases files.len(),
{
    if files.len() > 0 {
        lemma_removal_stays_in_ship(game, files.drop_last());
        let rest = spec_removal_targets(game, files.drop_last());
        let r = files.last();
        if stays_inside(r) {
            lemma_join_inside(spec_ship(game), r);
            assert forall|i: int| 0 <= i < spec_removal_targets(game, files).len() implies {
                let t = #[trigger] spec_removal_targets(game, files)[i];
                &&& spec_ship(game).len() <= t.len()
                &&& t.take(spec_ship(game).len() as int) == spec_ship(game)
            } by {
                if i < rest.len() {
                    assert(spec_removal_targets(game, files)[i] == rest[i]);
                }
            }
        }
    }
}

/// Removing what an installation recorded deletes exactly the files that the
/// installation put in place: when the voice was installed into the
/// `audio/ship` directory of `game`, the recorded game directory is `game`
/// and the removal targets are the installed files' places, in order.
pub proof fn lemma_remove_undoes_install(game: Seq<PartView>, installed: Seq<Seq<PartView>>)
    requires
        forall|i: int| 0 <= i < installed.len() ==> stays_inside(#[trigger] installed[i]),
    ensures
        spec_game_of(spec_ship(game)) == Some(game),
        spec_removal_targets(game, installed) == targets(spec_ship(game), installed),
    decreases installed.len(),
{
    assert(spec_ship(game).drop_last().drop_last() == game);
    if installed.len() > 0 {
        lemma_remove_undoes_install(game, installed.drop_last());
        assert(stays_inside(installed[installed.len() - 1]));
        assert(targets(spec_ship(game), installed) == targets(
            spec_ship(game),
            installed.drop_last(),
        ).push(join(spec_ship(game), installed.last())));
    } else {
        assert(targets(spec_ship(game), installed) == Seq::<Seq<PartView>>::empty());
    }
}

} // verus!
