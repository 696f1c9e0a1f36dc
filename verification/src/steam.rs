//! Where Steam, Apex Legends and SteamCMD keep their files, and the small
//! texts this tool reads from and writes to them.
use vstd::prelude::*;
use crate::path::{named, join, parent, file_name, FsPath, PartView};
use crate::text::{
    chars_of, chars_eq_ignore_ascii_case, decimal, opt_view, eq_ignore_ascii_case, owned, push_decimal,
    push_str, string_of, trim, trimmed, views,
};
use crate::vdf::{line_value, line_value_chars, lines_of, spec_vdf_value, text_lines, vdf_value};

verus! {

/// The Steam app id of Apex Legends.
pub const APP_ID: u32 = 1172470;

/// Where SteamCMD is downloaded from.
pub const STEAMCMD_URL: &'static str = "https://client-update.steamstatic.com/installer/steamcmd.zip";

/// The name of the Steam manifest of Apex Legends: `appmanifest_1172470.acf`.
pub open spec fn spec_manifest_name() -> Seq<char> {
    "appmanifest_"@ + decimal(APP_ID as nat) + ".acf"@
}

/// The name of the Steam manifest of Apex Legends.
pub fn manifest_name() -> (r: String)
    ensures
        r@ == spec_manifest_name(),
{
    let mut r = owned("appmanifest_");
    push_decimal(&mut r, APP_ID as u64);
    push_str(&mut r, ".acf");
    r
}

/// The directory in which this tool keeps its record of an installed voice,
/// under the local application data directory `base`.
pub fn data_directory(base: &FsPath) -> (r: FsPath)
    ensures
        r@ == base@.push(named("ApexLegendsVoiceSwitcher"@)),
{
    base.child("ApexLegendsVoiceSwitcher")
}

/// The file that records the installed voice, under the local application
/// data directory `base`.
pub fn state_path(base: &FsPath) -> (r: FsPath)
    ensures
        r@ == base@.push(named("ApexLegendsVoiceSwitcher"@)).push(named("installed-voice.json"@)),
{
    data_directory(base).child("installed-voice.json")
}

/// The SteamCMD directory beside the program in `program_dir`.
pub fn steamcmd_directory(program_dir: &FsPath) -> (r: FsPath)
    ensures
        r@ == program_dir@.push(named("steamcmd"@)),
{
    program_dir.child("steamcmd")
}

/// The files that setting up and running SteamCMD in `steamcmd` uses.
pub struct SteamCmdFiles {
    /// `steamcmd.exe`
    pub executable: FsPath,
    /// The downloaded archive, `steamcmd.zip`.
    pub archive: FsPath,
    /// The script that downloads a depot, `apex-voice-download.txt`.
    pub script: FsPath,
}

/// The files that setting up and running SteamCMD in `steamcmd` uses.
pub fn steamcmd_files(steamcmd: &FsPath) -> (r: SteamCmdFiles)
    ensures
        r.executable@ == steamcmd@.push(named("steamcmd.exe"@)),
        r.archive@ == steamcmd@.push(named("steamcmd.zip"@)),
        r.script@ == steamcmd@.push(named("apex-voice-download.txt"@)),
{
    SteamCmdFiles {
        executable: steamcmd.child("steamcmd.exe"),
        archive: steamcmd.child("steamcmd.zip"),
        script: steamcmd.child("apex-voice-download.txt"),
    }
}

/// A registry key and the value under it that may hold Steam's directory.
pub struct RegistryQuery {
    pub key: String,
    pub value: String,
}

/// The registry values that may hold Steam's directory, in the order in
/// which they are tried: the user's `SteamPath`, then the machine's
/// `InstallPath`.
pub fn steam_registry_queries() -> (r: Vec<RegistryQuery>)
    ensures
        r.len() == 2,
        r[0].key@ == "HKCU\\Software\\Valve\\Steam"@,
        r[0].value@ == "SteamPath"@,
        r[1].key@ == "HKLM\\SOFTWARE\\WOW6432Node\\Valve\\Steam"@,
        r[1].value@ == "InstallPath"@,
{
    let mut r: Vec<RegistryQuery> = Vec::new();
    r.push(RegistryQuery { key: owned("HKCU\\Software\\Valve\\Steam"), value: owned("SteamPath") });
    r.push(
        RegistryQuery {
            key: owned("HKLM\\SOFTWARE\\WOW6432Node\\Valve\\Steam"),
            value: owned("InstallPath"),
        },
    );
    r
}

/// The file that lists Steam's library folders.
pub fn library_folders_file(steam: &FsPath) -> (r: FsPath)
    ensures
        r@ == steam@.push(named("steamapps"@)).push(named("libraryfolders.vdf"@)),
{
    steam.child("steamapps").child("libraryfolders.vdf")
}

/// The values of `key` on the lines of a KeyValues text, in order.
pub open spec fn line_values(lines: Seq<Seq<char>>, key: Seq<char>) -> Seq<Seq<char>>
    decreases lines.len(),
{
    if lines.len() == 0 {
        Seq::<Seq<char>>::empty()
    } else {
        let rest = line_values(lines.drop_last(), key);
        match line_value(lines.last(), key) {
            Some(v) => rest.push(v),
            None => rest,
        }
    }
}

/// The library folders that `libraryfolders.vdf` names: the `path` value of
/// each line that has one, in order.
pub fn library_paths(text: &str) -> (r: Vec<String>)
    ensures
        r@.map_values(|s: String| s@) == line_values(text_lines(text@), "path"@),
{
    let chars = chars_of(text);
    let key = chars_of("path");
    let lines = lines_of(&chars);
    let ghost all = views(lines@);
    let mut r: Vec<String> = Vec::new();
    let mut k: usize = 0;
    while k < lines.len()
        invariant
            k <= lines.len(),
            all == views(lines@),
            all == text_lines(text@),
            key@ == "path"@,
            r@.map_values(|s: String| s@) == line_values(all.take(k as int), "path"@),
        decreases lines.len() - k,
    {
        assert(all.take(k + 1).drop_last() == all.take(k as int));
        assert(all.take(k + 1).last() == lines[k as int]@);
        let ghost before = r@;
        match line_value_chars(&lines[k], &key) {
            Some(v) => {
                let s = string_of(&v);
                r.push(s);
                assert(r@.map_values(|s: String| s@) == before.map_values(|s: String| s@).push(
                    s@,
                ));
            },
            None => {},
        }
        k = k + 1;
    }
    assert(all.take(lines.len() as int) == all);
    r
}

/// `libraries` with each of `found` added that it does not hold yet, in order.
pub open spec fn merge_libraries(libraries: Seq<Seq<PartView>>, found: Seq<Seq<PartView>>) -> Seq<
    Seq<PartView>,
>
    decreases found.len(),
{
    if found.len() == 0 {
        libraries
    } else {
        let before = merge_libraries(libraries, found.drop_last());
        if before.contains(found.last()) {
            before
        } else {
            before.push(found.last())
        }
    }
}


/// The library folders start with Steam's own directory, list no folder
/// twice, hold every folder found, and nothing else.
pub proof fn lemma_libraries_merged(steam: Seq<PartView>, found: Seq<Seq<PartView>>)
    ensures
        merge_libraries(seq![steam], found).len() >= 1,
        merge_libraries(seq![steam], found)[0] == steam,
        forall|i: int, j: int|
            0 <= i < j < merge_libraries(seq![steam], found).len() ==> merge_libraries(
                seq![steam],
                found,
            )[i] != merge_libraries(seq![steam], found)[j],
        forall|k: int|
            0 <= k < found.len() ==> merge_libraries(seq![steam], found).contains(#[trigger] found[k]),
        forall|i: int|
            0 <= i < merge_libraries(seq![steam], found).len() ==> #[trigger] merge_libraries(
                seq![steam],
                found,
            )[i] == steam || found.contains(merge_libraries(seq![steam], found)[i]),
    decreases found.len(),
{
    let m = merge_libraries(seq![steam], found);
    if found.len() > 0 {
        let prev = found.drop_last();
        lemma_libraries_merged(steam, prev);
        let before = merge_libraries(seq![steam], prev);
        assert forall|k: int| 0 <= k < found.len() implies m.contains(#[trigger] found[k]) by {
            if k < prev.len() {
                assert(prev[k] == found[k]);
                assert(before.contains(prev[k]));
                let w = choose|w: int| 0 <= w < before.len() && before[w] == prev[k];
                assert(m[w] == before[w]);
            } else {
                if !before.contains(found.last()) {
                    assert(m[m.len() - 1] == found.last());
                }
            }
        }
        assert forall|i: int| 0 <= i < m.len() implies #[trigger] m[i] == steam || found.contains(
            m[i],
        ) by {
            if i < before.len() {
                assert(m[i] == before[i]);
                if prev.contains(before[i]) {
                    let w = choose|w: int| 0 <= w < prev.len() && prev[w] == before[i];
                    assert(found[w] == prev[w]);
                }
            } else {
                assert(found[found.len() - 1] == found.last());
            }
        }
        assert forall|i: int, j: int| 0 <= i < j < m.len() implies m[i] != m[j] by {
            if j >= before.len() {
                assert(!before.contains(found.last()));
                assert(m[i] == before[i]);
            } else {
                assert(m[i] == before[i] && m[j] == before[j]);
            }
        }
    }
}

/// The views of a sequence of paths.
pub open spec fn path_views(s: Seq<FsPath>) -> Seq<Seq<PartView>> {
    s.map_values(|p: FsPath| p@)
}

fn contains_path(list: &Vec<FsPath>, p: &FsPath) -> (r: bool)
    ensures
        r == path_views(list@).contains(p@),
{
    let mut i: usize = 0;
    while i < list.len()
        invariant
            i <= list.len(),
            forall|j: int| 0 <= j < i ==> path_views(list@)[j] != p@,
        decreases list.len() - i,
    {
        if list[i].same(p) {
            assert(path_views(list@)[i as int] == p@);
            return true;
        }
        i = i + 1;
    }
    false
}

/// The Steam library folders to search: Steam's own directory first, then
/// each existing library folder of `found` that is not listed yet.
pub fn steam_libraries(steam: &FsPath, found: &Vec<FsPath>) -> (r: Vec<FsPath>)
    ensures
        path_views(r@) == merge_libraries(seq![steam@], path_views(found@)),
{
    let mut r: Vec<FsPath> = Vec::new();
    r.push(steam.copy());
    let ghost f = path_views(found@);
    assert(path_views(r@) == seq![steam@]);
    let mut i: usize = 0;
    while i < found.len()
        invariant
            i <= found.len(),
            f == path_views(found@),
            path_views(r@) == merge_libraries(seq![steam@], f.take(i as int)),
        decreases found.len() - i,
    {
        assert(f.take(i + 1).drop_last() == f.take(i as int));
        assert(f.take(i + 1).last() == found[i as int]@);
        if !contains_path(&r, &found[i]) {
            let ghost before = r@;
            let p = found[i].copy();
            r.push(p);
            assert(path_views(r@) == path_views(before).push(p@));
        }
        i = i + 1;
    }
    assert(f.take(found.len() as int) == f);
    r
}

/// The manifest of Apex Legends in a Steam library folder.
pub fn app_manifest_path(library: &FsPath) -> (r: FsPath)
    ensures
        r@ == library@.push(named("steamapps"@)).push(named(spec_manifest_name())),
{
    let mut r = library.child("steamapps");
    let name = manifest_name();
    r.push_name(name.as_str());
    r
}

/// The game directory in a library folder, given the `installdir` of the
/// manifest.
pub fn game_directory(library: &FsPath, install_dir: &FsPath) -> (r: FsPath)
    ensures
        r@ == join(library@.push(named("steamapps"@)).push(named("common"@)), install_dir@),
{
    library.child("steamapps").child("common").join(install_dir)
}

/// The manifest that holds the build id of the game installed in `game`:
/// `game` must lie in a directory named `common` (ASCII case aside), and the
/// manifest is `appmanifest_1172470.acf` in the directory above that.
pub open spec fn spec_build_manifest_path(game: Seq<PartView>) -> Option<Seq<PartView>> {
    match parent(game) {
        None => None,
        Some(common) => match file_name(common) {
            None => None,
            Some(name) => if !eq_ignore_ascii_case(name, "common"@) {
                None
            } else {
                match parent(common) {
                    None => None,
                    Some(library) => Some(library.push(named(spec_manifest_name()))),
                }
            },
        },
    }
}

/// The manifest that holds the build id of the game installed in `game`.
pub fn build_manifest_path(game: &FsPath) -> (r: Option<FsPath>)
    ensures
        match r {
            Some(p) => spec_build_manifest_path(game@) == Some(p@),
            None => spec_build_manifest_path(game@) is None,
        },
{
    let common = match game.parent() {
        Some(c) => c,
        None => {
            return None;
        },
    };
    let name = match common.file_name() {
        Some(n) => n,
        None => {
            return None;
        },
    };
    let name_chars = chars_of(name.as_str());
    let expected = chars_of("common");
    if !chars_eq_ignore_ascii_case(&name_chars, &expected) {
        return None;
    }
    let mut library = match common.parent() {
        Some(l) => l,
        None => {
            return None;
        },
    };
    let manifest = manifest_name();
    library.push_name(manifest.as_str());
    Some(library)
}

/// The directory in the game that holds its voice files.
pub fn audio_ship_directory(game: &FsPath) -> (r: FsPath)
    ensures
        r@ == game@.push(named("audio"@)).push(named("ship"@)),
{
    game.child("audio").child("ship")
}

/// The name of the download directory of a depot: `depot_` and its id.
pub open spec fn spec_depot_dir_name(depot_id: u32) -> Seq<char> {
    "depot_"@ + decimal(depot_id as nat)
}

/// The name of the directory of the app's downloads: `app_1172470`.
pub open spec fn spec_app_dir_name() -> Seq<char> {
    "app_"@ + decimal(APP_ID as nat)
}

/// Where SteamCMD puts a downloaded depot of Apex Legends.
pub open spec fn spec_depot_directory(steamcmd: Seq<PartView>, depot_id: u32) -> Seq<PartView> {
    steamcmd.push(named("steamapps"@)).push(named("content"@)).push(named(spec_app_dir_name())).push(
        named(spec_depot_dir_name(depot_id)),
    )
}

/// Where SteamCMD puts a downloaded depot of Apex Legends.
pub fn depot_directory(steamcmd: &FsPath, depot_id: u32) -> (r: FsPath)
    ensures
        r@ == spec_depot_directory(steamcmd@, depot_id),
{
    let mut r = steamcmd.child("steamapps").child("content");
    let mut app = owned("app_");
    push_decimal(&mut app, APP_ID as u64);
    r.push_name(app.as_str());
    let mut depot = owned("depot_");
    push_decimal(&mut depot, depot_id as u64);
    r.push_name(depot.as_str());
    r
}

/// The directory of a downloaded depot that holds its voice files.
pub fn depot_ship_directory(steamcmd: &FsPath, depot_id: u32) -> (r: FsPath)
    ensures
        r@ == spec_depot_directory(steamcmd@, depot_id).push(named("audio"@)).push(named("ship"@)),
{
    depot_directory(steamcmd, depot_id).child("audio").child("ship")
}

/// The file in a depot's directory that records the game build it was
/// downloaded or confirmed for.
pub fn depot_build_marker(steamcmd: &FsPath, depot_id: u32) -> (r: FsPath)
    ensures
        r@ == spec_depot_directory(steamcmd@, depot_id).push(named(".apex-voice-build"@)),
{
    depot_directory(steamcmd, depot_id).child(".apex-voice-build")
}

/// An ASCII decimal digit.
pub open spec fn is_ascii_digit(c: char) -> bool {
    '0' <= c && c <= '9'
}

/// The build id recorded in a depot's marker file: the trimmed text, when it
/// is made of ASCII digits only (an empty record counts).
pub open spec fn spec_depot_build_id(text: Seq<char>) -> Option<Seq<char>> {
    if forall|i: int| 0 <= i < trim(text).len() ==> is_ascii_digit(#[trigger] trim(text)[i]) {
        Some(trim(text))
    } else {
        None
    }
}


/// The build recorded with a depot is read back as written: a build id made
/// of ASCII digits, written to the marker file, reads back unchanged.
pub proof fn lemma_depot_build_reads_back(build: Seq<char>)
    requires
        forall|i: int| 0 <= i < build.len() ==> is_ascii_digit(#[trigger] build[i]),
    ensures
        spec_depot_build_id(build) == Some(build),
{
    if build.len() > 0 {
        assert(!crate::text::is_white_space(build[0]));
        assert(!crate::text::is_white_space(build.last())) by {
            assert(build.last() == build[build.len() - 1]);
        }
    }
    assert(crate::text::trim_start(build) == build);
    assert(crate::text::trim_end(build) == build);
}

/// A build read from a depot's marker file is the trimmed text, and only
/// when that text is made of ASCII digits `0`..`9`: any other character in
/// it makes the record unknown.
pub proof fn lemma_depot_build_digits(text: Seq<char>)
    ensures
        spec_depot_build_id(text) matches Some(v) ==> v == trim(text) && forall|i: int|
            0 <= i < v.len() ==> '0' <= #[trigger] v[i] && v[i] <= '9',
        spec_depot_build_id(text) is None ==> exists|i: int|
            0 <= i < trim(text).len() && !('0' <= #[trigger] trim(text)[i] && trim(text)[i] <= '9'),
{
}

/// Reads the build id out of a depot's marker file.
pub fn depot_build_id(text: &str) -> (r: Option<String>)
    ensures
        opt_view(r) == spec_depot_build_id(text@),
{
    let chars = chars_of(text);
    let t = trimmed(&chars);
    let mut i: usize = 0;
    while i < t.len()
        invariant
            i <= t.len(),
            t@ == trim(text@),
            forall|j: int| 0 <= j < i ==> is_ascii_digit(#[trigger] t@[j]),
        decreases t.len() - i,
    {
        if !(t[i] >= '0' && t[i] <= '9') {
            return None;
        }
        i = i + 1;
    }
    Some(string_of(&t))
}

// ---------------------------------------------------------------------------
// Finding the game in the Steam libraries
// ---------------------------------------------------------------------------

/// The manifest of Apex Legends in the library folder `library`.
pub open spec fn spec_app_manifest_path(library: Seq<PartView>) -> Seq<PartView> {
    library.push(named("steamapps"@)).push(named(spec_manifest_name()))
}

/// The game directory in the library folder `library` for the `installdir`
/// path `dir`.
pub open spec fn spec_game_directory(library: Seq<PartView>, dir: Seq<PartView>) -> Seq<PartView> {
    join(library.push(named("steamapps"@)).push(named("common"@)), dir)
}

/// What the search for the game needs next, or its answer.
#[derive(Debug, PartialEq, Eq)]
pub enum GameStep {
    /// Read this manifest and report its text, or that it cannot be read.
    ReadManifest(FsPath),
    /// Turn this `installdir` value into a path and report it.
    ParseInstallDir(String),
    /// Report whether this path is a directory.
    CheckDirectory(FsPath),
    /// The game directory.
    Found(FsPath),
    /// No library folder holds the game.
    NotFound,
}

/// The model of a step of the search for the game.
pub enum GameStepView {
    ReadManifest(Seq<PartView>),
    ParseInstallDir(Seq<char>),
    CheckDirectory(Seq<PartView>),
    Found(Seq<PartView>),
    NotFound,
}

impl View for GameStep {
    type V = GameStepView;

    open spec fn view(&self) -> GameStepView {
        match self {
            GameStep::ReadManifest(p) => GameStepView::ReadManifest(p@),
            GameStep::ParseInstallDir(s) => GameStepView::ParseInstallDir(s@),
            GameStep::CheckDirectory(p) => GameStepView::CheckDirectory(p@),
            GameStep::Found(p) => GameStepView::Found(p@),
            GameStep::NotFound => GameStepView::NotFound,
        }
    }
}

/// The model of a [`GameSearch`]: the library folders, the one being looked
/// at, and the game directory found in it and still to be checked.
pub struct GameSearchView {
    pub libraries: Seq<Seq<PartView>>,
    pub index: int,
    pub candidate: Option<Seq<PartView>>,
}

/// The step that looks at the library folder `i`: read its manifest, or, past
/// the last folder, give up.
pub open spec fn library_step(libraries: Seq<Seq<PartView>>, i: int) -> GameStepView {
    if 0 <= i < libraries.len() {
        GameStepView::ReadManifest(spec_app_manifest_path(libraries[i]))
    } else {
        GameStepView::NotFound
    }
}

/// The text of a manifest that was read, if it could be.
pub open spec fn text_view(text: Option<&str>) -> Option<Seq<char>> {
    match text {
        Some(t) => Some(t@),
        None => None,
    }
}

/// The search after the manifest of the folder being looked at gave `text`:
/// an `installdir` value is to be turned into a path; without one the search
/// goes on with the next folder.
pub open spec fn manifest_outcome(v: GameSearchView, text: Option<Seq<char>>) -> (
    GameSearchView,
    GameStepView,
) {
    match (match text {
        Some(t) => spec_vdf_value(t, "installdir"@),
        None => None,
    }) {
        Some(d) => (v, GameStepView::ParseInstallDir(d)),
        None => (
            GameSearchView { libraries: v.libraries, index: v.index + 1, candidate: None },
            library_step(v.libraries, v.index + 1),
        ),
    }
}

/// The search after the `installdir` value was turned into the path `dir`:
/// its directory in the folder being looked at is to be checked.
pub open spec fn install_dir_outcome(v: GameSearchView, dir: Seq<PartView>) -> (
    GameSearchView,
    GameStepView,
) {
    let g = spec_game_directory(v.libraries[v.index], dir);
    (
        GameSearchView { libraries: v.libraries, index: v.index, candidate: Some(g) },
        GameStepView::CheckDirectory(g),
    )
}

/// The search after the directory found was checked: if it is a directory,
/// it is the game directory; otherwise the search goes on with the next
/// folder.
pub open spec fn checked_outcome(v: GameSearchView, is_dir: bool) -> (GameSearchView, GameStepView) {
    if is_dir {
        (v, GameStepView::Found(v.candidate->0))
    } else {
        (
            GameSearchView { libraries: v.libraries, index: v.index + 1, candidate: None },
            library_step(v.libraries, v.index + 1),
        )
    }
}

/// The search for the game directory through the library folders, in order:
/// the first folder whose manifest names an `installdir` whose directory
/// exists holds the game. The caller performs each step it is handed and
/// reports the outcome.
pub struct GameSearch {
    libraries: Vec<FsPath>,
    index: usize,
    candidate: Option<FsPath>,
}

impl View for GameSearch {
    type V = GameSearchView;

    closed spec fn view(&self) -> GameSearchView {
        GameSearchView {
            libraries: path_views(self.libraries@),
            index: self.index as int,
            candidate: match self.candidate {
                Some(c) => Some(c@),
                None => None,
            },
        }
    }
}

impl GameSearch {
    /// A search of `libraries`, and its first step.
    pub fn start(libraries: Vec<FsPath>) -> (r: (GameSearch, GameStep))
        ensures
            r.0@ == (GameSearchView {
                libraries: path_views(libraries@),
                index: 0,
                candidate: None,
            }),
            r.1@ == library_step(path_views(libraries@), 0),
    {
        let search = GameSearch { libraries, index: 0, candidate: None };
        let step = search.library_step();
        (search, step)
    }

    fn library_step(&self) -> (r: GameStep)
        ensures
            r@ == library_step(self@.libraries, self@.index),
    {
        if self.index < self.libraries.len() {
            let p = app_manifest_path(&self.libraries[self.index]);
            assert(self@.libraries[self@.index] == self.libraries@[self.index as int]@);
            GameStep::ReadManifest(p)
        } else {
            GameStep::NotFound
        }
    }

    /// The manifest of the folder being looked at was read (`Some` with its
    /// text) or could not be (`None`): with an `installdir` value, that value
    /// is to be turned into a path; otherwise the search goes on with the
    /// next folder.
    pub fn on_manifest(&mut self, text: Option<&str>) -> (r: GameStep)
        requires
            0 <= old(self)@.index < old(self)@.libraries.len(),
        ensures
            (final(self)@, r@) == manifest_outcome(old(self)@, text_view(text)),
    {
        let value = match text {
            Some(t) => vdf_value(t, "installdir"),
            None => None,
        };
        match value {
            Some(d) => GameStep::ParseInstallDir(d),
            None => {
                assert(path_views(self.libraries@).len() == self.libraries@.len());
                assert(self.index < self.libraries.len());
                self.index = self.index + 1;
                self.candidate = None;
                self.library_step()
            },
        }
    }

    /// The `installdir` value, as a path: its directory in the folder being
    /// looked at is to be checked.
    pub fn on_install_dir(&mut self, dir: &FsPath) -> (r: GameStep)
        requires
            0 <= old(self)@.index < old(self)@.libraries.len(),
        ensures
            (final(self)@, r@) == install_dir_outcome(old(self)@, dir@),
    {
        let game = game_directory(&self.libraries[self.index], dir);
        assert(old(self)@.libraries[old(self)@.index] == self.libraries@[self.index as int]@);
        let step = GameStep::CheckDirectory(game.copy());
        self.candidate = Some(game);
        step
    }

    /// Whether the directory found in the folder being looked at exists: if
    /// it does, it is the game directory; otherwise the search goes on with
    /// the next folder.
    pub fn on_checked(&mut self, is_dir: bool) -> (r: GameStep)
        requires
            0 <= old(self)@.index < old(self)@.libraries.len(),
            old(self)@.candidate is Some,
        ensures
            (final(self)@, r@) == checked_outcome(old(self)@, is_dir),
    {
        if is_dir {
            match &self.candidate {
                Some(c) => GameStep::Found(c.copy()),
                None => GameStep::NotFound,
            }
        } else {
            assert(path_views(self.libraries@).len() == self.libraries@.len());
            assert(self.index < self.libraries.len());
            self.index = self.index + 1;
            self.candidate = None;
            self.library_step()
        }
    }
}

/// The game directory that the search finds from the library folder `i` on,
/// when reading the manifest at a path gives `manifest(path)` (`None` when it
/// cannot be read), an `installdir` value `d` is the path `parse(d)`, and
/// `is_dir(p)` tells whether `p` is a directory: the first folder whose
/// manifest names an `installdir` whose directory exists holds the game.
pub open spec fn first_game(
    libraries: Seq<Seq<PartView>>,
    i: int,
    manifest: spec_fn(Seq<PartView>) -> Option<Seq<char>>,
    parse: spec_fn(Seq<char>) -> Seq<PartView>,
    is_dir: spec_fn(Seq<PartView>) -> bool,
) -> Option<Seq<PartView>>
    decreases libraries.len() - i,
{
    if i < 0 || i >= libraries.len() {
        None
    } else {
        match (match manifest(spec_app_manifest_path(libraries[i])) {
            Some(t) => spec_vdf_value(t, "installdir"@),
            None => None,
        }) {
            Some(d) => {
                let g = spec_game_directory(libraries[i], parse(d));
                if is_dir(g) {
                    Some(g)
                } else {
                    first_game(libraries, i + 1, manifest, parse, is_dir)
                }
            },
            None => first_game(libraries, i + 1, manifest, parse, is_dir),
        }
    }
}

/// The step `step` is one that the search in state `v` hands out.
pub open spec fn game_step_fits(v: GameSearchView, step: GameStepView) -> bool {
    match step {
        GameStepView::ReadManifest(p) => 0 <= v.index < v.libraries.len() && p
            == spec_app_manifest_path(v.libraries[v.index]),
        GameStepView::ParseInstallDir(_) => 0 <= v.index < v.libraries.len(),
        GameStepView::CheckDirectory(g) => 0 <= v.index < v.libraries.len() && v.candidate == Some(
            g,
        ),
        _ => 0 <= v.index,
    }
}

/// The answer still to come from the search in state `v` about to perform
/// `step`, with the outcomes given as in [`first_game`].
pub open spec fn game_answer(
    v: GameSearchView,
    step: GameStepView,
    manifest: spec_fn(Seq<PartView>) -> Option<Seq<char>>,
    parse: spec_fn(Seq<char>) -> Seq<PartView>,
    is_dir: spec_fn(Seq<PartView>) -> bool,
) -> Option<Seq<PartView>> {
    match step {
        GameStepView::ReadManifest(_) => first_game(v.libraries, v.index, manifest, parse, is_dir),
        GameStepView::ParseInstallDir(d) => {
            let g = spec_game_directory(v.libraries[v.index], parse(d));
            if is_dir(g) {
                Some(g)
            } else {
                first_game(v.libraries, v.index + 1, manifest, parse, is_dir)
            }
        },
        GameStepView::CheckDirectory(g) => if is_dir(g) {
            Some(g)
        } else {
            first_game(v.libraries, v.index + 1, manifest, parse, is_dir)
        },
        GameStepView::Found(g) => Some(g),
        GameStepView::NotFound => None,
    }
}

proof fn lemma_library_step(
    libraries: Seq<Seq<PartView>>,
    i: int,
    manifest: spec_fn(Seq<PartView>) -> Option<Seq<char>>,
    parse: spec_fn(Seq<char>) -> Seq<PartView>,
    is_dir: spec_fn(Seq<PartView>) -> bool,
)
    requires
        0 <= i,
    ensures
        ({
            let v = GameSearchView { libraries, index: i, candidate: None };
            &&& game_step_fits(v, library_step(libraries, i))
            &&& game_answer(v, library_step(libraries, i), manifest, parse, is_dir) == first_game(
                libraries,
                i,
                manifest,
                parse,
                is_dir,
            )
        }),
{
}

/// A new search starts on the first folder, with the first folder that
/// holds the game still to be found.
pub proof fn lemma_game_search_starts(
    libraries: Seq<Seq<PartView>>,
    manifest: spec_fn(Seq<PartView>) -> Option<Seq<char>>,
    parse: spec_fn(Seq<char>) -> Seq<PartView>,
    is_dir: spec_fn(Seq<PartView>) -> bool,
)
    ensures
        ({
            let v = GameSearchView { libraries, index: 0, candidate: None };
            &&& game_step_fits(v, library_step(libraries, 0))
            &&& game_answer(v, library_step(libraries, 0), manifest, parse, is_dir) == first_game(
                libraries,
                0,
                manifest,
                parse,
                is_dir,
            )
        }),
{
    lemma_library_step(libraries, 0, manifest, parse, is_dir);
}

/// The search finds the first library folder that holds the game: each step
/// it hands out, performed with the outcomes given as in [`first_game`],
/// leads to a step that it hands out and keeps the answer still to come.
/// With [`lemma_game_search_starts`], a search that ends with `Found(g)`
/// found the first such folder's game directory `g`, and one that ends with
/// `NotFound` was given no folder that holds the game.
pub proof fn lemma_game_search_follows(
    v: GameSearchView,
    step: GameStepView,
    manifest: spec_fn(Seq<PartView>) -> Option<Seq<char>>,
    parse: spec_fn(Seq<char>) -> Seq<PartView>,
    is_dir: spec_fn(Seq<PartView>) -> bool,
)
    requires
        game_step_fits(v, step),
    ensures
        step matches GameStepView::ReadManifest(p) ==> ({
            let (v2, s2) = manifest_outcome(v, manifest(p));
            game_step_fits(v2, s2) && game_answer(v2, s2, manifest, parse, is_dir) == game_answer(
                v,
                step,
                manifest,
                parse,
                is_dir,
            )
        }),
        step matches GameStepView::ParseInstallDir(d) ==> ({
            let (v2, s2) = install_dir_outcome(v, parse(d));
            game_step_fits(v2, s2) && game_answer(v2, s2, manifest, parse, is_dir) == game_answer(
                v,
                step,
                manifest,
                parse,
                is_dir,
            )
        }),
        step matches GameStepView::CheckDirectory(g) ==> ({
            let (v2, s2) = checked_outcome(v, is_dir(g));
            game_step_fits(v2, s2) && game_answer(v2, s2, manifest, parse, is_dir) == game_answer(
                v,
                step,
                manifest,
                parse,
                is_dir,
            )
        }),
{
    lemma_library_step(v.libraries, v.index + 1, manifest, parse, is_dir);
}

} // verus!
