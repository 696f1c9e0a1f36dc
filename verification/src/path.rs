//! File system paths as sequences of components.
//!
//! A path is held as the list of its components, in the shape in which the
//! standard library reads a path (`Path::components`): an optional prefix
//! (such as `C:`), an optional root, and then the named parts. Joining,
//! taking the parent, the file name and stripping a base are stated over
//! that list.
use vstd::prelude::*;
use crate::text::owned;

verus! {

/// A Windows path prefix in the form in which the standard library parses
/// it (`std::path::Prefix`): two prefixes are the same path start when
/// their parsed forms are equal, so a drive is named by its letter in upper
/// case (`c:` and `C:` are one drive), while the server and share of a UNC
/// prefix are compared as written.
#[derive(Debug, PartialEq, Eq)]
pub enum WinPrefix {
    /// `\\?\text`
    Verbatim(String),
    /// `\\?\UNC\server\share`
    VerbatimUNC(String, String),
    /// `\\?\C:`, by the drive letter.
    VerbatimDisk(u8),
    /// `\\.\device`
    DeviceNS(String),
    /// `\\server\share`
    UNC(String, String),
    /// `C:`, by the drive letter.
    Disk(u8),
}

/// The model of a Windows path prefix.
pub enum PrefixView {
    Verbatim(Seq<char>),
    VerbatimUNC(Seq<char>, Seq<char>),
    VerbatimDisk(u8),
    DeviceNS(Seq<char>),
    UNC(Seq<char>, Seq<char>),
    Disk(u8),
}

impl View for WinPrefix {
    type V = PrefixView;

    open spec fn view(&self) -> PrefixView {
        match self {
            WinPrefix::Verbatim(s) => PrefixView::Verbatim(s@),
            WinPrefix::VerbatimUNC(a, b) => PrefixView::VerbatimUNC(a@, b@),
            WinPrefix::VerbatimDisk(d) => PrefixView::VerbatimDisk(*d),
            WinPrefix::DeviceNS(s) => PrefixView::DeviceNS(s@),
            WinPrefix::UNC(a, b) => PrefixView::UNC(a@, b@),
            WinPrefix::Disk(d) => PrefixView::Disk(*d),
        }
    }
}

impl WinPrefix {
    /// A copy of this prefix.
    pub fn copy(&self) -> (r: WinPrefix)
        ensures
            r@ == self@,
    {
        match self {
            WinPrefix::Verbatim(s) => WinPrefix::Verbatim(s.clone()),
            WinPrefix::VerbatimUNC(a, b) => WinPrefix::VerbatimUNC(a.clone(), b.clone()),
            WinPrefix::VerbatimDisk(d) => WinPrefix::VerbatimDisk(*d),
            WinPrefix::DeviceNS(s) => WinPrefix::DeviceNS(s.clone()),
            WinPrefix::UNC(a, b) => WinPrefix::UNC(a.clone(), b.clone()),
            WinPrefix::Disk(d) => WinPrefix::Disk(*d),
        }
    }

    /// Whether two prefixes are the same.
    pub fn same(&self, other: &WinPrefix) -> (r: bool)
        ensures
            r == (self@ == other@),
    {
        match (self, other) {
            (WinPrefix::Verbatim(a), WinPrefix::Verbatim(b)) => *a == *b,
            (WinPrefix::VerbatimUNC(a1, b1), WinPrefix::VerbatimUNC(a2, b2)) => *a1 == *a2 && *b1
                == *b2,
            (WinPrefix::VerbatimDisk(a), WinPrefix::VerbatimDisk(b)) => *a == *b,
            (WinPrefix::DeviceNS(a), WinPrefix::DeviceNS(b)) => *a == *b,
            (WinPrefix::UNC(a1, b1), WinPrefix::UNC(a2, b2)) => *a1 == *a2 && *b1 == *b2,
            (WinPrefix::Disk(a), WinPrefix::Disk(b)) => *a == *b,
            _ => false,
        }
    }
}

/// One component of a path.
#[derive(Debug, PartialEq, Eq)]
pub enum PathPart {
    /// A Windows prefix, such as a drive `C:` or a share `\\server\share`.
    Prefix(WinPrefix),
    /// The root directory separator.
    RootDir,
    /// `.`
    CurDir,
    /// `..`
    ParentDir,
    /// A named file or directory.
    Normal(String),
}

/// The model of a path component.
pub enum PartView {
    Prefix(PrefixView),
    RootDir,
    CurDir,
    ParentDir,
    Normal(Seq<char>),
}

impl View for PathPart {
    type V = PartView;

    open spec fn view(&self) -> PartView {
        match self {
            PathPart::Prefix(p) => PartView::Prefix(p@),
            PathPart::RootDir => PartView::RootDir,
            PathPart::CurDir => PartView::CurDir,
            PathPart::ParentDir => PartView::ParentDir,
            PathPart::Normal(s) => PartView::Normal(s@),
        }
    }
}

/// A path, as the list of its components.
#[derive(Debug, PartialEq, Eq)]
pub struct FsPath {
    pub parts: Vec<PathPart>,
}

impl View for FsPath {
    type V = Seq<PartView>;

    open spec fn view(&self) -> Seq<PartView> {
        self.parts@.map_values(|p: PathPart| p@)
    }
}

/// A named component.
pub open spec fn named(s: Seq<char>) -> PartView {
    PartView::Normal(s)
}

/// A path that neither starts at a prefix nor at a root.
pub open spec fn is_relative(p: Seq<PartView>) -> bool {
    p.len() == 0 || (!(p[0] is Prefix) && !(p[0] is RootDir))
}

/// A prefix of the verbatim kind (`\\?\`), under which a path is taken as
/// written: the file system resolves no `.` or `..` in it.
pub open spec fn is_verbatim(p: PartView) -> bool {
    match p {
        PartView::Prefix(PrefixView::Verbatim(_)) => true,
        PartView::Prefix(PrefixView::VerbatimUNC(_, _)) => true,
        PartView::Prefix(PrefixView::VerbatimDisk(_)) => true,
        _ => false,
    }
}

/// One component of a relative path added to a verbatim path: a root keeps
/// only the prefix, `.` is dropped, `..` removes a last name (and nothing
/// else), and any other component is appended.
pub open spec fn verbatim_step(buf: Seq<PartView>, c: PartView) -> Seq<PartView> {
    match c {
        PartView::RootDir => if buf.len() > 0 {
            seq![buf[0], PartView::RootDir]
        } else {
            seq![PartView::RootDir]
        },
        PartView::CurDir => buf,
        PartView::ParentDir => if buf.len() > 0 && buf.last() is Normal {
            buf.drop_last()
        } else {
            buf
        },
        _ => buf.push(c),
    }
}

/// The components of `rel` added one by one to the verbatim path `buf`.
pub open spec fn verbatim_push(buf: Seq<PartView>, rel: Seq<PartView>) -> Seq<PartView>
    decreases rel.len(),
{
    if rel.len() == 0 {
        buf
    } else {
        verbatim_push(verbatim_step(buf, rel[0]), rel.skip(1))
    }
}

/// The components of `base` joined with `rel`, as `PathBuf::push` joins
/// them: a path with a prefix replaces `base`; a non-empty path joined to a
/// verbatim path is added component by component (see [`verbatim_step`]);
/// otherwise a path that starts at the root keeps only the prefix of `base`,
/// and any other path is appended, without a leading `.` where the joined
/// path no longer shows one (see [`hides_leading_cur_dir`]).
pub open spec fn join(base: Seq<PartView>, rel: Seq<PartView>) -> Seq<PartView> {
    if rel.len() > 0 && rel[0] is Prefix {
        rel
    } else if rel.len() > 0 && base.len() > 0 && is_verbatim(base[0]) {
        verbatim_push(base, rel)
    } else if rel.len() > 0 && rel[0] is RootDir {
        if base.len() > 0 && base[0] is Prefix {
            seq![base[0]] + rel
        } else {
            rel
        }
    } else if rel.len() > 0 && rel[0] is CurDir && hides_leading_cur_dir(base) {
        base + rel.skip(1)
    } else {
        base + rel
    }
}

/// Whether a `.` that starts a path appended to `base` disappears from the
/// components of the result: the standard library keeps a `.` only at the
/// very start of a path, or right after a drive prefix such as `C:`.
pub open spec fn hides_leading_cur_dir(base: Seq<PartView>) -> bool {
    !(base.len() == 0 || (base.len() == 1 && base[0] matches PartView::Prefix(PrefixView::Disk(_))))
}

/// Adding a path that stays inside (no prefix, root or `..`) to a verbatim
/// path keeps that path as the leading part.
pub proof fn lemma_verbatim_push_extends(buf: Seq<PartView>, rel: Seq<PartView>)
    requires
        stays_inside(rel),
    ensures
        buf.len() <= verbatim_push(buf, rel).len(),
        verbatim_push(buf, rel).take(buf.len() as int) == buf,
    decreases rel.len(),
{
    if rel.len() > 0 {
        let next = verbatim_step(buf, rel[0]);
        assert(!(rel[0] is Prefix) && !(rel[0] is RootDir) && !(rel[0] is ParentDir));
        assert(stays_inside(rel.skip(1))) by {
            assert forall|i: int| 0 <= i < rel.skip(1).len() implies !(
            #[trigger] rel.skip(1)[i] is Prefix) && !(rel.skip(1)[i] is RootDir) && !(
            rel.skip(1)[i] is ParentDir) by {
                assert(rel.skip(1)[i] == rel[i + 1]);
            }
        }
        lemma_verbatim_push_extends(next, rel.skip(1));
        let r = verbatim_push(buf, rel);
        assert(r == verbatim_push(next, rel.skip(1)));
        assert(next.take(buf.len() as int) == buf);
        assert(r.take(buf.len() as int) == r.take(next.len() as int).take(buf.len() as int));
    } else {
        assert(buf.take(buf.len() as int) == buf);
    }
}

/// A path that stays inside (no prefix, root or `..`), joined to `base`,
/// lies below `base`: `base` is its leading part.
pub proof fn lemma_join_inside(base: Seq<PartView>, rel: Seq<PartView>)
    requires
        stays_inside(rel),
    ensures
        base.len() <= join(base, rel).len(),
        join(base, rel).take(base.len() as int) == base,
{
    if rel.len() > 0 {
        assert(!(rel[0] is Prefix) && !(rel[0] is RootDir));
    }
    if rel.len() > 0 && base.len() > 0 && is_verbatim(base[0]) {
        lemma_verbatim_push_extends(base, rel);
    } else if rel.len() > 0 && rel[0] is CurDir && hides_leading_cur_dir(base) {
        assert((base + rel.skip(1)).take(base.len() as int) == base);
    } else {
        assert((base + rel).take(base.len() as int) == base);
    }
}

/// The parent of a path: the path without its last component, when that
/// component is a name, `.` or `..`.
pub open spec fn parent(p: Seq<PartView>) -> Option<Seq<PartView>> {
    if p.len() > 0 && (p.last() is Normal || p.last() is CurDir || p.last() is ParentDir) {
        Some(p.drop_last())
    } else {
        None
    }
}

/// The last component of a path, when it is a name.
pub open spec fn file_name(p: Seq<PartView>) -> Option<Seq<char>> {
    if p.len() > 0 && p.last() is Normal {
        Some(p.last()->Normal_0)
    } else {
        None
    }
}

/// The rest of `p` after `base`, when `base` is a leading part of `p`.
pub open spec fn strip_prefix(p: Seq<PartView>, base: Seq<PartView>) -> Option<Seq<PartView>> {
    if base.len() <= p.len() && p.take(base.len() as int) == base {
        Some(p.skip(base.len() as int))
    } else {
        None
    }
}

/// A relative path that cannot leave the directory it is joined to: no
/// prefix, no root and no `..`.
pub open spec fn stays_inside(p: Seq<PartView>) -> bool {
    forall|i: int|
        0 <= i < p.len() ==> !(#[trigger] p[i] is Prefix) && !(p[i] is RootDir) && !(
        p[i] is ParentDir)
}


/// The text of a named component; other components give none.
pub open spec fn name_text(p: PartView) -> Seq<char> {
    match p {
        PartView::Normal(s) => s,
        _ => Seq::<char>::empty(),
    }
}

/// How a relative path made of names is shown: the names with `sep` between
/// them.
pub open spec fn names_text(p: Seq<PartView>, sep: char) -> Seq<char>
    decreases p.len(),
{
    if p.len() == 0 {
        Seq::<char>::empty()
    } else if p.len() == 1 {
        name_text(p[0])
    } else {
        names_text(p.drop_last(), sep).push(sep) + name_text(p.last())
    }
}

impl PathPart {
    /// Whether this component is a verbatim prefix.
    pub fn is_verbatim(&self) -> (r: bool)
        ensures
            r == is_verbatim(self@),
    {
        match self {
            PathPart::Prefix(WinPrefix::Verbatim(_)) => true,
            PathPart::Prefix(WinPrefix::VerbatimUNC(_, _)) => true,
            PathPart::Prefix(WinPrefix::VerbatimDisk(_)) => true,
            _ => false,
        }
    }

    /// A copy of this component.
    pub fn copy(&self) -> (r: PathPart)
        ensures
            r@ == self@,
    {
        match self {
            PathPart::Prefix(p) => PathPart::Prefix(p.copy()),
            PathPart::RootDir => PathPart::RootDir,
            PathPart::CurDir => PathPart::CurDir,
            PathPart::ParentDir => PathPart::ParentDir,
            PathPart::Normal(s) => PathPart::Normal(s.clone()),
        }
    }

    /// Whether two components are the same.
    pub fn same(&self, other: &PathPart) -> (r: bool)
        ensures
            r == (self@ == other@),
    {
        match (self, other) {
            (PathPart::Prefix(a), PathPart::Prefix(b)) => a.same(b),
            (PathPart::RootDir, PathPart::RootDir) => true,
            (PathPart::CurDir, PathPart::CurDir) => true,
            (PathPart::ParentDir, PathPart::ParentDir) => true,
            (PathPart::Normal(a), PathPart::Normal(b)) => *a == *b,
            _ => false,
        }
    }
}

/// A named component.
pub fn name_part(name: &str) -> (r: PathPart)
    ensures
        r@ == named(name@),
{
    PathPart::Normal(owned(name))
}

impl FsPath {
    /// The number of components.
    pub fn len(&self) -> (r: usize)
        ensures
            r == self@.len(),
    {
        self.parts.len()
    }

    /// A copy of the components from `a` up to (not including) `b`.
    pub fn range(&self, a: usize, b: usize) -> (r: FsPath)
        requires
            a <= b <= self@.len(),
        ensures
            r@ == self@.subrange(a as int, b as int),
    {
        let mut parts: Vec<PathPart> = Vec::new();
        let mut i: usize = a;
        while i < b
            invariant
                a <= i <= b,
                b <= self.parts.len(),
                parts@.map_values(|p: PathPart| p@) == self@.subrange(a as int, i as int),
            decreases b - i,
        {
            let ghost before = parts@;
            let part = self.parts[i].copy();
            parts.push(part);
            assert(parts@ == before.push(part));
            assert(self@[i as int] == self.parts@[i as int]@);
            assert(parts@.map_values(|p: PathPart| p@) == before.map_values(|p: PathPart| p@).push(
                part@,
            ));
            assert(self@.subrange(a as int, i + 1) == self@.subrange(a as int, i as int).push(
                self@[i as int],
            ));
            i = i + 1;
        }
        FsPath { parts }
    }

    /// A copy of this path.
    pub fn copy(&self) -> (r: FsPath)
        ensures
            r@ == self@,
    {
        let r = self.range(0, self.parts.len());
        assert(self@.subrange(0, self@.len() as int) == self@);
        r
    }

    /// Appends one component.
    pub fn push_part(&mut self, part: PathPart)
        ensures
            final(self)@ == old(self)@.push(part@),
    {
        self.parts.push(part);
        assert(self@ == old(self)@.push(part@));
    }

    /// Appends a named component.
    pub fn push_name(&mut self, name: &str)
        ensures
            final(self)@ == old(self)@.push(named(name@)),
    {
        self.push_part(name_part(name));
    }

    /// This path with a named component appended.
    pub fn child(&self, name: &str) -> (r: FsPath)
        ensures
            r@ == self@.push(named(name@)),
    {
        let mut r = self.copy();
        r.push_name(name);
        r
    }

    /// One component of a relative path added to this verbatim path (see
    /// [`verbatim_step`]).
    fn verbatim_step(&mut self, c: &PathPart)
        ensures
            final(self)@ == verbatim_step(old(self)@, c@),
    {
        match c {
            PathPart::RootDir => {
                if self.parts.len() > 0 {
                    let mut s = self.range(0, 1);
                    s.push_part(PathPart::RootDir);
                    assert(s@ == seq![old(self)@[0], PartView::RootDir]);
                    *self = s;
                } else {
                    let mut s = FsPath { parts: Vec::new() };
                    s.push_part(PathPart::RootDir);
                    assert(s@ == seq![PartView::RootDir]);
                    *self = s;
                }
            },
            PathPart::CurDir => {},
            PathPart::ParentDir => {
                let n = self.parts.len();
                if n > 0 {
                    if let PathPart::Normal(_) = &self.parts[n - 1] {
                        assert(self@.last() == self.parts@[n - 1]@);
                        let s = self.range(0, n - 1);
                        assert(s@ == old(self)@.drop_last());
                        *self = s;
                    }
                }
            },
            _ => {
                self.push_part(c.copy());
            },
        }
    }

    /// This verbatim path with the components of `rel` added one by one (see
    /// [`verbatim_push`]).
    fn verbatim_push(&self, rel: &FsPath) -> (r: FsPath)
        ensures
            r@ == verbatim_push(self@, rel@),
    {
        let mut r = self.copy();
        let mut i: usize = 0;
        assert(rel@.skip(0) == rel@);
        while i < rel.parts.len()
            invariant
                i <= rel@.len(),
                verbatim_push(r@, rel@.skip(i as int)) == verbatim_push(self@, rel@),
            decreases rel@.len() - i,
        {
            assert(rel@.skip(i as int).skip(1) == rel@.skip(i + 1));
            assert(rel@.skip(i as int)[0] == rel.parts@[i as int]@);
            r.verbatim_step(&rel.parts[i]);
            i = i + 1;
        }
        assert(rel@.skip(rel@.len() as int).len() == 0);
        r
    }

    /// This path joined with `rel` (see [`join`]).
    pub fn join(&self, rel: &FsPath) -> (r: FsPath)
        ensures
            r@ == join(self@, rel@),
    {
        if rel.parts.len() > 0 {
            if let PathPart::Prefix(_) = &rel.parts[0] {
                return rel.copy();
            }
            if self.parts.len() > 0 && self.parts[0].is_verbatim() {
                return self.verbatim_push(rel);
            }
            match &rel.parts[0] {
                PathPart::RootDir => {
                    if self.parts.len() > 0 {
                        match &self.parts[0] {
                            PathPart::Prefix(_) => {
                                let mut r = self.range(0, 1);
                                let mut i: usize = 0;
                                while i < rel.parts.len()
                                    invariant
                                        i <= rel@.len(),
                                        self@.len() > 0,
                                        r@ == seq![self@[0]] + rel@.take(i as int),
                                    decreases rel@.len() - i,
                                {
                                    r.push_part(rel.parts[i].copy());
                                    assert(rel@.take(i + 1) == rel@.take(i as int).push(
                                        rel@[i as int],
                                    ));
                                    i = i + 1;
                                }
                                assert(rel@.take(rel@.len() as int) == rel@);
                                return r;
                            },
                            _ => {},
                        }
                    }
                    return rel.copy();
                },
                _ => {},
            }
        }
        let from: usize = if rel.parts.len() > 0 && self.hides_leading_cur_dir() {
            match &rel.parts[0] {
                PathPart::CurDir => 1,
                _ => 0,
            }
        } else {
            0
        };
        let mut r = self.copy();
        let mut i: usize = from;
        while i < rel.parts.len()
            invariant
                from <= i <= rel@.len(),
                r@ == self@ + rel@.subrange(from as int, i as int),
            decreases rel@.len() - i,
        {
            r.push_part(rel.parts[i].copy());
            assert(rel@.subrange(from as int, i + 1) == rel@.subrange(from as int, i as int).push(
                rel@[i as int],
            ));
            i = i + 1;
        }
        assert(rel@.subrange(from as int, rel@.len() as int) == rel@.skip(from as int));
        assert(rel@.skip(0) == rel@);
        r
    }

    /// Whether a `.` that starts a path appended to this one disappears
    /// from the components (see [`hides_leading_cur_dir`]).
    fn hides_leading_cur_dir(&self) -> (r: bool)
        ensures
            r == hides_leading_cur_dir(self@),
    {
        if self.parts.len() == 0 {
            false
        } else if self.parts.len() == 1 {
            match &self.parts[0] {
                PathPart::Prefix(WinPrefix::Disk(_)) => false,
                _ => true,
            }
        } else {
            true
        }
    }

    /// The parent of this path (see [`parent`]).
    pub fn parent(&self) -> (r: Option<FsPath>)
        ensures
            match r {
                Some(q) => parent(self@) == Some(q@),
                None => parent(self@) is None,
            },
    {
        let n = self.parts.len();
        if n == 0 {
            return None;
        }
        match &self.parts[n - 1] {
            PathPart::Normal(_) | PathPart::CurDir | PathPart::ParentDir => Some(
                self.range(0, n - 1),
            ),
            _ => None,
        }
    }

    /// The last component of this path, when it is a name.
    pub fn file_name(&self) -> (r: Option<String>)
        ensures
            match r {
                Some(s) => file_name(self@) == Some(s@),
                None => file_name(self@) is None,
            },
    {
        let n = self.parts.len();
        if n == 0 {
            return None;
        }
        match &self.parts[n - 1] {
            PathPart::Normal(s) => Some(s.clone()),
            _ => None,
        }
    }

    /// This relative path shown with `sep` between its names (see
    /// [`names_text`]).
    pub fn names_text(&self, sep: char) -> (r: String)
        ensures
            r@ == names_text(self@, sep),
    {
        let mut r = String::new();
        let mut i: usize = 0;
        while i < self.parts.len()
            invariant
                i <= self@.len(),
                r@ == names_text(self@.take(i as int), sep),
            decreases self@.len() - i,
        {
            assert(self@.take(i + 1).drop_last() == self@.take(i as int));
            assert(self@.take(i + 1).last() == self@[i as int]);
            assert(self@[i as int] == self.parts@[i as int]@);
            if i > 0 {
                r.push(sep);
            }
            match &self.parts[i] {
                PathPart::Normal(s) => crate::text::push_str(&mut r, s.as_str()),
                _ => {},
            }
            if i == 0 {
                assert(names_text(self@.take(1), sep) == name_text(self@[0]));
            }
            i = i + 1;
        }
        assert(self@.take(self@.len() as int) == self@);
        r
    }

    /// Whether two paths have the same components.
    pub fn same(&self, other: &FsPath) -> (r: bool)
        ensures
            r == (self@ == other@),
    {
        if self.parts.len() != other.parts.len() {
            return false;
        }
        let mut i: usize = 0;
        while i < self.parts.len()
            invariant
                self@.len() == other@.len(),
                i <= self@.len(),
                forall|j: int| 0 <= j < i ==> self@[j] == other@[j],
            decreases self@.len() - i,
        {
            if !self.parts[i].same(&other.parts[i]) {
                assert(self@[i as int] == self.parts@[i as int]@);
                assert(other@[i as int] == other.parts@[i as int]@);
                return false;
            }
            i = i + 1;
        }
        assert(self@ == other@);
        true
    }

    /// Whether `base` is a leading part of this path.
    pub fn starts_with(&self, base: &FsPath) -> (r: bool)
        ensures
            r == (base@.len() <= self@.len() && self@.take(base@.len() as int) == base@),
    {
        if base.parts.len() > self.parts.len() {
            return false;
        }
        let mut i: usize = 0;
        while i < base.parts.len()
            invariant
                base@.len() <= self@.len(),
                i <= base@.len(),
                forall|j: int| 0 <= j < i ==> self@[j] == base@[j],
            decreases base@.len() - i,
        {
            if !self.parts[i].same(&base.parts[i]) {
                assert(self@.take(base@.len() as int)[i as int] != base@[i as int]);
                return false;
            }
            i = i + 1;
        }
        assert(self@.take(base@.len() as int) == base@);
        true
    }

    /// The rest of this path after `base` (see [`strip_prefix`]).
    pub fn strip_prefix(&self, base: &FsPath) -> (r: Option<FsPath>)
        ensures
            match r {
                Some(q) => strip_prefix(self@, base@) == Some(q@),
                None => strip_prefix(self@, base@) is None,
            },
    {
        if self.starts_with(base) {
            Some(self.range(base.parts.len(), self.parts.len()))
        } else {
            None
        }
    }

    /// Whether this relative path stays inside the directory it is joined to
    /// (see [`stays_inside`]).
    pub fn stays_inside(&self) -> (r: bool)
        ensures
            r == stays_inside(self@),
    {
        let mut i: usize = 0;
        while i < self.parts.len()
            invariant
                i <= self@.len(),
                forall|j: int| 0 <= j < i ==> !(#[trigger] self@[j] is Prefix) && !(
                self@[j] is RootDir) && !(self@[j] is ParentDir),
            decreases self@.len() - i,
        {
            match &self.parts[i] {
                PathPart::Prefix(_) | PathPart::RootDir | PathPart::ParentDir => {
                    assert(self@[i as int] == self.parts@[i as int]@);
                    return false;
                },
                _ => {},
            }
            i = i + 1;
        }
        true
    }
}

} // verus!
