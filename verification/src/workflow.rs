//! The steps of installing a voice: check the game build, reuse, replace or
//! download the language depot, mark it with the game build, remove the
//! previously installed voice and install the new one.
//!
//! [`InstallJob`] decides; its caller does the work that each
//! [`InstallAction`] names and reports the outcome as an [`InstallEvent`].
use vstd::prelude::*;
use crate::language::VoiceLanguage;
use crate::text::{
    chars_of, decimal, owned, push_decimal, push_signed_decimal, push_str, signed_decimal,
    string_of, trim, trimmed,
};

verus! {

/// Where an installation stands.
#[derive(Clone, Copy, Debug, PartialEq, Eq)]
pub enum Stage {
    /// Waiting for the game's build id.
    ReadGameBuild,
    /// Waiting to learn whether the depot was downloaded before.
    FirstDepotCheck,
    /// Waiting for the build id recorded with the downloaded depot.
    ReadCachedBuild,
    /// Waiting for a depot of another build to be deleted.
    DeleteStale,
    /// Waiting to learn whether the depot is (still) there.
    SecondDepotCheck,
    /// Waiting for SteamCMD to be set up.
    PrepareSteamCmd,
    /// Waiting for SteamCMD to download the depot.
    Download,
    /// Waiting to learn whether the download left the depot in place.
    ThirdDepotCheck,
    /// Waiting for the depot to be marked with the game build.
    WriteMarker,
    /// Waiting for the previously installed voice to be removed.
    RemovePrevious,
    /// Waiting for the voice files to be installed.
    InstallFiles,
    /// Done.
    Finished,
}

/// What the caller does next.
#[derive(Debug, PartialEq, Eq)]
pub enum InstallAction {
    /// Read the game's build id from its Steam manifest.
    ReadGameBuild,
    /// Check whether the language depot holds any file.
    CheckDepot,
    /// Read the build id recorded with the depot.
    ReadDepotBuild,
    /// Delete the downloaded depot.
    DeleteDepot,
    /// Make sure SteamCMD is present, downloading it if not.
    PrepareSteamCmd,
    /// Download the depot with SteamCMD, logged in as the given user.
    Download(String),
    /// Record the given game build with the depot.
    WriteDepotBuild(String),
    /// Remove the voice that this tool installed before, if any.
    RemovePreviousVoice,
    /// Install the depot's voice files for the given game build.
    InstallVoice(String),
    /// The installation ended: a title and a message, or an error message.
    Finish(Result<(String, String), String>),
}

/// What the caller reports.
#[derive(Debug, PartialEq, Eq)]
pub enum InstallEvent {
    /// The game's build id, if it could be read.
    GameBuild(Option<String>),
    /// Whether the depot holds any file.
    DepotPresent(bool),
    /// The build id recorded with the depot, if any.
    DepotBuild(Option<String>),
    /// The work succeeded.
    Completed,
    /// The work failed, with this message.
    Failed(String),
    /// SteamCMD exited with this code.
    Exited(i32),
    /// The voice files were installed: how, and how many.
    Installed { method: String, files: usize },
}

/// The message when the game's build id cannot be read.
pub open spec fn no_build_message() -> Seq<char> {
    "无法读取游戏 Build ID"@
}

/// The message when a download is needed and no user name was given.
pub open spec fn no_username_message() -> Seq<char> {
    "需要 Steam 用户名。密码及 Steam Guard 将在 SteamCMD 窗口输入。"@
}

/// The message when SteamCMD did not leave the depot in place.
pub open spec fn download_failed_message(code: int) -> Seq<char> {
    "SteamCMD 未完成 Depot 下载（退出码 "@ + signed_decimal(code) + "）。"@
}

/// The title after a successful installation.
pub open spec fn done_title(language: VoiceLanguage) -> Seq<char> {
    language.name@ + "语音安装完成"@
}

/// The message after a successful installation.
pub open spec fn done_message(method: Seq<char>, files: nat) -> Seq<char> {
    "已通过“"@ + method + "”安装 "@ + decimal(files) + " 个语音文件。"@
}

/// The model of an [`InstallJob`]: its stage and the game build read.
pub struct JobView {
    pub stage: Stage,
    pub build: Seq<char>,
}

/// The job is finished with the given error message.
pub open spec fn fails_with(t: JobView, a: InstallAction, msg: Seq<char>) -> bool {
    &&& t.stage == Stage::Finished
    &&& a matches InstallAction::Finish(Err(m)) && m@ == msg
}

/// The job goes to `stage` with its build unchanged.
pub open spec fn goes(s: JobView, t: JobView, stage: Stage) -> bool {
    t.stage == stage && t.build == s.build
}

/// The outcomes that the caller reports after performing the action `a`:
/// after `Finish` there is nothing more to report.
pub open spec fn expects(a: InstallAction, e: InstallEvent) -> bool {
    match a {
        InstallAction::ReadGameBuild => e is GameBuild,
        InstallAction::CheckDepot => e is DepotPresent,
        InstallAction::ReadDepotBuild => e is DepotBuild,
        InstallAction::DeleteDepot | InstallAction::PrepareSteamCmd
        | InstallAction::WriteDepotBuild(_) | InstallAction::RemovePreviousVoice => e is Completed
            || e is Failed,
        InstallAction::Download(_) => e is Exited || e is Failed,
        InstallAction::InstallVoice(_) => e is Installed || e is Failed,
        InstallAction::Finish(_) => false,
    }
}

/// Whether the job, in stage `s`, expects the event `e`.
pub open spec fn accepts(s: Stage, e: InstallEvent) -> bool {
    match s {
        Stage::ReadGameBuild => e is GameBuild,
        Stage::FirstDepotCheck | Stage::SecondDepotCheck | Stage::ThirdDepotCheck => e is DepotPresent,
        Stage::ReadCachedBuild => e is DepotBuild,
        Stage::DeleteStale | Stage::PrepareSteamCmd | Stage::WriteMarker | Stage::RemovePrevious =>
            e is Completed || e is Failed,
        Stage::Download => e is Exited || e is Failed,
        Stage::InstallFiles => e is Installed || e is Failed,
        Stage::Finished => false,
    }
}

/// One step of an installation for the user `username` and the language
/// `language`: from `s`, the event `e` leads to `t` and the action `a`.
///
/// - Without a game build id the installation fails.
/// - A downloaded depot whose recorded build differs from the game's is
///   deleted; one with the same build, or with none recorded, is kept.
/// - Without the depot, a user name is needed (white space around it does
///   not count); SteamCMD is set up and downloads the depot, which must
///   exit with 0 and leave the depot in place.
/// - The depot is then marked with the game build, the previous voice is
///   removed and the new one installed; any failure ends the installation
///   with its message.
pub open spec fn transition(
    username: Seq<char>,
    language: VoiceLanguage,
    s: JobView,
    e: InstallEvent,
    t: JobView,
    a: InstallAction,
) -> bool {
    match s.stage {
        Stage::ReadGameBuild => match e {
            InstallEvent::GameBuild(Some(b)) => t.stage == Stage::FirstDepotCheck && t.build == b@
                && a == InstallAction::CheckDepot,
            _ => fails_with(t, a, no_build_message()),
        },
        Stage::FirstDepotCheck => if e == InstallEvent::DepotPresent(true) {
            goes(s, t, Stage::ReadCachedBuild) && a == InstallAction::ReadDepotBuild
        } else {
            goes(s, t, Stage::SecondDepotCheck) && a == InstallAction::CheckDepot
        },
        Stage::ReadCachedBuild => match e {
            InstallEvent::DepotBuild(Some(c)) => if c@ != s.build {
                goes(s, t, Stage::DeleteStale) && a == InstallAction::DeleteDepot
            } else {
                goes(s, t, Stage::SecondDepotCheck) && a == InstallAction::CheckDepot
            },
            _ => goes(s, t, Stage::SecondDepotCheck) && a == InstallAction::CheckDepot,
        },
        Stage::DeleteStale => match e {
            InstallEvent::Failed(m) => fails_with(t, a, m@),
            _ => goes(s, t, Stage::SecondDepotCheck) && a == InstallAction::CheckDepot,
        },
        Stage::SecondDepotCheck => if e == InstallEvent::DepotPresent(true) {
            goes(s, t, Stage::WriteMarker) && (a matches InstallAction::WriteDepotBuild(b) && b@
                == s.build)
        } else if trim(username).len() == 0 {
            fails_with(t, a, no_username_message())
        } else {
            goes(s, t, Stage::PrepareSteamCmd) && a == InstallAction::PrepareSteamCmd
        },
        Stage::PrepareSteamCmd => match e {
            InstallEvent::Failed(m) => fails_with(t, a, m@),
            _ => goes(s, t, Stage::Download) && (a matches InstallAction::Download(u) && u@ == trim(
                username,
            )),
        },
        Stage::Download => match e {
            InstallEvent::Failed(m) => fails_with(t, a, m@),
            InstallEvent::Exited(code) => if code != 0 {
                fails_with(t, a, download_failed_message(code as int))
            } else {
                goes(s, t, Stage::ThirdDepotCheck) && a == InstallAction::CheckDepot
            },
            _ => true,
        },
        Stage::ThirdDepotCheck => if e == InstallEvent::DepotPresent(true) {
            goes(s, t, Stage::WriteMarker) && (a matches InstallAction::WriteDepotBuild(b) && b@
                == s.build)
        } else {
            fails_with(t, a, download_failed_message(0))
        },
        Stage::WriteMarker => match e {
            InstallEvent::Failed(m) => fails_with(t, a, m@),
            _ => goes(s, t, Stage::RemovePrevious) && a == InstallAction::RemovePreviousVoice,
        },
        Stage::RemovePrevious => match e {
            InstallEvent::Failed(m) => fails_with(t, a, m@),
            _ => goes(s, t, Stage::InstallFiles) && (a matches InstallAction::InstallVoice(b) && b@
                == s.build),
        },
        Stage::InstallFiles => match e {
            InstallEvent::Failed(m) => fails_with(t, a, m@),
            InstallEvent::Installed { method, files } => t.stage == Stage::Finished
                && (a matches InstallAction::Finish(Ok((title, message))) && title@ == done_title(
                language,
            ) && message@ == done_message(method@, files as nat)),
            _ => true,
        },
        Stage::Finished => true,
    }
}

/// An installation in progress.
pub struct InstallJob {
    stage: Stage,
    build: String,
    username: String,
    language: VoiceLanguage,
}

impl View for InstallJob {
    type V = JobView;

    closed spec fn view(&self) -> JobView {
        JobView { stage: self.stage, build: self.build@ }
    }
}

impl InstallJob {
    /// The user name the job was started with.
    pub closed spec fn username(&self) -> Seq<char> {
        self.username@
    }

    /// The language the job installs.
    pub closed spec fn language(&self) -> VoiceLanguage {
        self.language
    }

    /// Starts installing `language`, downloading as `username` if needed;
    /// the first thing to do is to read the game's build id.
    pub fn start(username: &str, language: VoiceLanguage) -> (r: (InstallJob, InstallAction))
        ensures
            r.0@.stage == Stage::ReadGameBuild,
            r.0.username() == username@,
            r.0.language() == language,
            r.1 == InstallAction::ReadGameBuild,
            forall|e: InstallEvent| #[trigger] accepts(r.0@.stage, e) == expects(r.1, e),
    {
        (
            InstallJob { stage: Stage::ReadGameBuild, build: String::new(), username: owned(username), language },
            InstallAction::ReadGameBuild,
        )
    }

    /// The stage the job is in.
    pub fn stage(&self) -> (r: Stage)
        ensures
            r == self@.stage,
    {
        self.stage
    }

    fn finish_err(&mut self, msg: String) -> (a: InstallAction)
        ensures
            fails_with(final(self)@, a, msg@),
            final(self).username() == old(self).username(),
            final(self).language() == old(self).language(),
    {
        self.stage = Stage::Finished;
        InstallAction::Finish(Err(msg))
    }

    /// Takes the outcome of the last action and tells what to do next (see
    /// [`transition`]).
    pub fn step(&mut self, event: InstallEvent) -> (a: InstallAction)
        requires
            accepts(old(self)@.stage, event),
        ensures
            transition(old(self).username(), old(self).language(), old(self)@, event, final(self)@, a),
            final(self).username() == old(self).username(),
            final(self).language() == old(self).language(),
            forall|e: InstallEvent| #[trigger] accepts(final(self)@.stage, e) == expects(a, e),
    {
        match self.stage {
            Stage::ReadGameBuild => match event {
                InstallEvent::GameBuild(Some(b)) => {
                    self.build = b;
                    self.stage = Stage::FirstDepotCheck;
                    InstallAction::CheckDepot
                },
                _ => self.finish_err(owned("无法读取游戏 Build ID")),
            },
            Stage::FirstDepotCheck => match event {
                InstallEvent::DepotPresent(true) => {
                    self.stage = Stage::ReadCachedBuild;
                    InstallAction::ReadDepotBuild
                },
                _ => {
                    self.stage = Stage::SecondDepotCheck;
                    InstallAction::CheckDepot
                },
            },
            Stage::ReadCachedBuild => {
                let stale = match &event {
                    InstallEvent::DepotBuild(Some(c)) => *c != self.build,
                    _ => false,
                };
                if stale {
                    self.stage = Stage::DeleteStale;
                    InstallAction::DeleteDepot
                } else {
                    self.stage = Stage::SecondDepotCheck;
                    InstallAction::CheckDepot
                }
            },
            Stage::DeleteStale => match event {
                InstallEvent::Failed(m) => self.finish_err(m),
                _ => {
                    self.stage = Stage::SecondDepotCheck;
                    InstallAction::CheckDepot
                },
            },
            Stage::SecondDepotCheck => match event {
                InstallEvent::DepotPresent(true) => {
                    self.stage = Stage::WriteMarker;
                    InstallAction::WriteDepotBuild(self.build.clone())
                },
                _ => {
                    let user = trimmed(&chars_of(self.username.as_str()));
                    if user.len() == 0 {
                        self.finish_err(owned("需要 Steam 用户名。密码及 Steam Guard 将在 SteamCMD 窗口输入。"))
                    } else {
                        self.stage = Stage::PrepareSteamCmd;
                        InstallAction::PrepareSteamCmd
                    }
                },
            },
            Stage::PrepareSteamCmd => match event {
                InstallEvent::Failed(m) => self.finish_err(m),
                _ => {
                    let user = trimmed(&chars_of(self.username.as_str()));
                    self.stage = Stage::Download;
                    InstallAction::Download(string_of(&user))
                },
            },
            Stage::Download => match event {
                InstallEvent::Failed(m) => self.finish_err(m),
                InstallEvent::Exited(code) => {
                    if code != 0 {
                        let mut msg = owned("SteamCMD 未完成 Depot 下载（退出码 ");
                        push_signed_decimal(&mut msg, code);
                        push_str(&mut msg, "）。");
                        self.finish_err(msg)
                    } else {
                        self.stage = Stage::ThirdDepotCheck;
                        InstallAction::CheckDepot
                    }
                },
                // not accepted in this stage
                _ => InstallAction::CheckDepot,
            },
            Stage::ThirdDepotCheck => match event {
                InstallEvent::DepotPresent(true) => {
                    self.stage = Stage::WriteMarker;
                    InstallAction::WriteDepotBuild(self.build.clone())
                },
                _ => {
                    let mut msg = owned("SteamCMD 未完成 Depot 下载（退出码 ");
                    push_signed_decimal(&mut msg, 0);
                    push_str(&mut msg, "）。");
                    self.finish_err(msg)
                },
            },
            Stage::WriteMarker => match event {
                InstallEvent::Failed(m) => self.finish_err(m),
                _ => {
                    self.stage = Stage::RemovePrevious;
                    InstallAction::RemovePreviousVoice
                },
            },
            Stage::RemovePrevious => match event {
                InstallEvent::Failed(m) => self.finish_err(m),
                _ => {
                    self.stage = Stage::InstallFiles;
                    InstallAction::InstallVoice(self.build.clone())
                },
            },
            Stage::InstallFiles => match event {
                InstallEvent::Failed(m) => self.finish_err(m),
                InstallEvent::Installed { method, files } => {
                    let mut title = owned(self.language.name);
                    push_str(&mut title, "语音安装完成");
                    let mut message = owned("已通过“");
                    push_str(&mut message, method.as_str());
                    push_str(&mut message, "”安装 ");
                    push_decimal(&mut message, files as u64);
                    push_str(&mut message, " 个语音文件。");
                    self.stage = Stage::Finished;
                    InstallAction::Finish(Ok((title, message)))
                },
                // not accepted in this stage
                _ => InstallAction::CheckDepot,
            },
            // a finished job accepts no event
            Stage::Finished => InstallAction::CheckDepot,
        }
    }
}


/// What holds in every stage an installation reaches: once SteamCMD is being
/// set up or run, the user name is not blank.
pub open spec fn job_inv(username: Seq<char>, s: JobView) -> bool {
    (s.stage == Stage::PrepareSteamCmd || s.stage == Stage::Download) ==> trim(username).len() > 0
}

/// A download always logs in with the given user name without its
/// surrounding white space, and never with a blank one: the invariant
/// [`job_inv`] holds at the start and is kept by every step, and a step that
/// asks for a download names that user.
pub proof fn lemma_download_user(
    username: Seq<char>,
    language: VoiceLanguage,
    s: JobView,
    e: InstallEvent,
    t: JobView,
    a: InstallAction,
)
    requires
        job_inv(username, s),
        accepts(s.stage, e),
        transition(username, language, s, e, t, a),
    ensures
        job_inv(username, JobView { stage: Stage::ReadGameBuild, build: Seq::<char>::empty() }),
        job_inv(username, t),
        a matches InstallAction::Download(u) ==> u@ == trim(username) && u@.len() > 0,
{
}

/// A downloaded depot that was recorded for another game build is deleted
/// before anything else happens; one recorded for the same build, or with no
/// record, is kept.
pub proof fn lemma_stale_depot_deleted(
    username: Seq<char>,
    language: VoiceLanguage,
    s: JobView,
    e: InstallEvent,
    t: JobView,
    a: InstallAction,
)
    requires
        s.stage == Stage::ReadCachedBuild,
        accepts(s.stage, e),
        transition(username, language, s, e, t, a),
    ensures
        (e matches InstallEvent::DepotBuild(Some(c)) && c@ != s.build) ==> a
            == InstallAction::DeleteDepot,
        !(e matches InstallEvent::DepotBuild(Some(c)) && c@ != s.build) ==> a
            == InstallAction::CheckDepot && t.stage == Stage::SecondDepotCheck,
{
}

/// One game build runs through the whole installation: once read, the
/// build never changes, and both the build recorded with the depot and the
/// build of the installed voice are that build.
pub proof fn lemma_one_build(
    username: Seq<char>,
    language: VoiceLanguage,
    s: JobView,
    e: InstallEvent,
    t: JobView,
    a: InstallAction,
)
    requires
        s.stage != Stage::ReadGameBuild,
        accepts(s.stage, e),
        transition(username, language, s, e, t, a),
    ensures
        t.stage != Stage::Finished ==> t.build == s.build,
        a matches InstallAction::WriteDepotBuild(b) ==> b@ == s.build,
        a matches InstallAction::InstallVoice(b) ==> b@ == s.build,
{
}

/// Voice files are only installed once the depot has been marked with the
/// game build and the previous voice has been removed: the only way to the
/// removal is a successful marking, and the only way to the installation is
/// a successful removal.
pub proof fn lemma_marked_before_install(
    username: Seq<char>,
    language: VoiceLanguage,
    s: JobView,
    e: InstallEvent,
    t: JobView,
    a: InstallAction,
)
    requires
        accepts(s.stage, e),
        transition(username, language, s, e, t, a),
    ensures
        t.stage == Stage::RemovePrevious ==> s.stage == Stage::WriteMarker && e
            == InstallEvent::Completed,
        a is InstallVoice ==> s.stage == Stage::RemovePrevious && e == InstallEvent::Completed
            && t.stage == Stage::InstallFiles,
        t.stage == Stage::WriteMarker ==> e == InstallEvent::DepotPresent(true),
{
}


// ---------------------------------------------------------------------------
// Whole installations
// ---------------------------------------------------------------------------

/// `ss`, `es` and `acts` are the stages, events and actions of one
/// installation for `username` and `language` from its start: step `k` takes
/// the job from `ss[k]` to `ss[k + 1]` on the event `es[k]` and asks for
/// `acts[k]`.
pub open spec fn is_run(
    username: Seq<char>,
    language: VoiceLanguage,
    ss: Seq<JobView>,
    es: Seq<InstallEvent>,
    acts: Seq<InstallAction>,
) -> bool {
    &&& ss.len() == es.len() + 1
    &&& acts.len() == es.len()
    &&& ss[0].stage == Stage::ReadGameBuild
    &&& forall|k: int|
        #![trigger es[k]]
        0 <= k < es.len() ==> accepts(ss[k].stage, es[k]) && transition(
            username,
            language,
            ss[k],
            es[k],
            ss[k + 1],
            acts[k],
        )
}

/// The place of a stage in the order in which an installation goes through
/// them.
pub open spec fn rank(s: Stage) -> int {
    match s {
        Stage::ReadGameBuild => 0,
        Stage::FirstDepotCheck => 1,
        Stage::ReadCachedBuild => 2,
        Stage::DeleteStale => 3,
        Stage::SecondDepotCheck => 4,
        Stage::PrepareSteamCmd => 5,
        Stage::Download => 6,
        Stage::ThirdDepotCheck => 7,
        Stage::WriteMarker => 8,
        Stage::RemovePrevious => 9,
        Stage::InstallFiles => 10,
        Stage::Finished => 11,
    }
}

proof fn lemma_run_ranks(
    username: Seq<char>,
    language: VoiceLanguage,
    ss: Seq<JobView>,
    es: Seq<InstallEvent>,
    acts: Seq<InstallAction>,
    i: int,
    j: int,
)
    requires
        is_run(username, language, ss, es, acts),
        0 <= i < j <= es.len(),
    ensures
        rank(ss[i].stage) < rank(ss[j].stage),
    decreases j - i,
{
    let e = es[j - 1];
    assert(accepts(ss[j - 1].stage, e));
    if i < j - 1 {
        lemma_run_ranks(username, language, ss, es, acts, i, j - 1);
    }
}

proof fn lemma_run_build(
    username: Seq<char>,
    language: VoiceLanguage,
    ss: Seq<JobView>,
    es: Seq<InstallEvent>,
    acts: Seq<InstallAction>,
    k: int,
)
    requires
        is_run(username, language, ss, es, acts),
        1 <= k < es.len(),
        ss[es.len() as int - 1].stage != Stage::Finished,
    ensures
        ss[k].build == ss[1].build,
    decreases k,
{
    if k > 1 {
        lemma_run_build(username, language, ss, es, acts, k - 1);
        let e = es[k - 1];
        assert(accepts(ss[k - 1].stage, e));
        lemma_run_ranks(username, language, ss, es, acts, 0, k - 1);
        if k < es.len() - 1 {
            lemma_run_ranks(username, language, ss, es, acts, k, es.len() - 1);
        }
        lemma_one_build(username, language, ss[k - 1], e, ss[k], acts[k - 1]);
    }
}

/// The action that ends a successful installation.
pub open spec fn finished_ok(a: InstallAction) -> bool {
    a matches InstallAction::Finish(Ok(_))
}

/// What a successful installation went through, as the last steps of its
/// run show: the game build `b` was read first; then, in this order, a
/// check found the depot present, the depot was marked with `b`, the
/// previous voice was removed, and the voice files were installed for `b`,
/// with the success title and message naming how and how many. A depot of
/// another build met on the way was deleted, successfully, before the check
/// that found the depot used.
pub proof fn lemma_successful_install(
    username: Seq<char>,
    language: VoiceLanguage,
    ss: Seq<JobView>,
    es: Seq<InstallEvent>,
    acts: Seq<InstallAction>,
)
    requires
        is_run(username, language, ss, es, acts),
        es.len() > 0,
        finished_ok(acts.last()),
    ensures
        es.len() >= 5,
        reads_build(es[0], ss[1].build),
        es[es.len() - 4] == InstallEvent::DepotPresent(true),
        marks_build(acts[es.len() - 4], ss[1].build),
        es[es.len() - 3] == InstallEvent::Completed,
        acts[es.len() - 3] == InstallAction::RemovePreviousVoice,
        es[es.len() - 2] == InstallEvent::Completed,
        installs_build(acts[es.len() - 2], ss[1].build),
        es[es.len() - 1] is Installed,
        transition(
            username,
            language,
            ss[es.len() - 1],
            es[es.len() - 1],
            ss[es.len() as int],
            acts[es.len() - 1],
        ),
        ss[es.len() - 1].stage == Stage::InstallFiles,
        forall|m: int|
            #![trigger es[m]]
            0 <= m < es.len() && ss[m].stage == Stage::ReadCachedBuild && stale_record(
                es[m],
                ss[1].build,
            ) ==> acts[m] == InstallAction::DeleteDepot && es[m + 1] == InstallEvent::Completed
                && m + 1 < es.len() - 4,
{
    let n = es.len() as int;
    let e1 = es[n - 1];
    assert(accepts(ss[n - 1].stage, e1));
    assert(ss[n - 1].stage == Stage::InstallFiles);
    lemma_run_ranks(username, language, ss, es, acts, 0, n - 1);
    let e2 = es[n - 2];
    assert(accepts(ss[n - 2].stage, e2));
    assert(ss[n - 2].stage == Stage::RemovePrevious);
    lemma_run_ranks(username, language, ss, es, acts, 0, n - 2);
    let e3 = es[n - 3];
    assert(accepts(ss[n - 3].stage, e3));
    assert(ss[n - 3].stage == Stage::WriteMarker);
    lemma_run_ranks(username, language, ss, es, acts, 0, n - 3);
    let e4 = es[n - 4];
    assert(accepts(ss[n - 4].stage, e4));
    assert(ss[n - 4].stage == Stage::SecondDepotCheck || ss[n - 4].stage == Stage::ThirdDepotCheck);
    lemma_run_ranks(username, language, ss, es, acts, 0, n - 4);
    let e0 = es[0];
    assert(accepts(ss[0].stage, e0));
    lemma_run_ranks(username, language, ss, es, acts, 1, n - 1);
    assert(ss[1].stage != Stage::Finished);
    lemma_run_build(username, language, ss, es, acts, n - 4);
    lemma_run_build(username, language, ss, es, acts, n - 2);
    assert forall|m: int|
        #![trigger es[m]]
        0 <= m < es.len() && ss[m].stage == Stage::ReadCachedBuild && stale_record(
            es[m],
            ss[1].build,
        ) implies acts[m] == InstallAction::DeleteDepot && es[m + 1] == InstallEvent::Completed
        && m + 1 < es.len() - 4 by {
        let em = es[m];
        assert(accepts(ss[m].stage, em));
        lemma_run_ranks(username, language, ss, es, acts, 0, m);
        if m > 1 {
            lemma_run_build(username, language, ss, es, acts, m);
        } else if m == 0 {
            assert(false);
        }
        assert(ss[m + 1].stage == Stage::DeleteStale);
        lemma_run_ranks(username, language, ss, es, acts, m + 1, n - 4);
        let en = es[m + 1];
        assert(accepts(ss[m + 1].stage, en));
        if en is Failed {
            assert(ss[m + 2].stage == Stage::Finished);
            lemma_run_ranks(username, language, ss, es, acts, m + 2, n - 1);
        }
    }
}

/// The event reports the game build `b`.
pub open spec fn reads_build(e: InstallEvent, b: Seq<char>) -> bool {
    e matches InstallEvent::GameBuild(Some(g)) && g@ == b
}

/// The action marks the depot with the build `b`.
pub open spec fn marks_build(a: InstallAction, b: Seq<char>) -> bool {
    a matches InstallAction::WriteDepotBuild(w) && w@ == b
}

/// The action installs the voice files for the build `b`.
pub open spec fn installs_build(a: InstallAction, b: Seq<char>) -> bool {
    a matches InstallAction::InstallVoice(v) && v@ == b
}

/// The depot's record names a build other than `build`.
pub open spec fn stale_record(e: InstallEvent, build: Seq<char>) -> bool {
    e matches InstallEvent::DepotBuild(Some(c)) && c@ != build
}

/// SteamCMD must exit with 0: in the download stage, an exit code other than
/// 0 ends the job with the error that names that code, and only the code 0
/// goes on to check that the depot is in place, keeping the game build.
pub proof fn lemma_download_needs_exit_zero(
    username: Seq<char>,
    language: VoiceLanguage,
    s: JobView,
    code: i32,
    t: JobView,
    a: InstallAction,
)
    requires
        s.stage == Stage::Download,
        transition(username, language, s, InstallEvent::Exited(code), t, a),
    ensures
        code != 0 ==> t.stage == Stage::Finished && (a matches InstallAction::Finish(Err(m)) && m@
            == "SteamCMD 未完成 Depot 下载（退出码 "@ + signed_decimal(code as int) + "）。"@),
        code == 0 ==> t.stage == Stage::ThirdDepotCheck && t.build == s.build && a
            == InstallAction::CheckDepot,
{
}

/// After SteamCMD exited with 0, a depot that is not in place ends the job
/// with the error that names the exit code 0; only a depot in place is marked
/// with the game build.
pub proof fn lemma_download_needs_depot(
    username: Seq<char>,
    language: VoiceLanguage,
    s: JobView,
    present: bool,
    t: JobView,
    a: InstallAction,
)
    requires
        s.stage == Stage::ThirdDepotCheck,
        transition(username, language, s, InstallEvent::DepotPresent(present), t, a),
    ensures
        !present ==> t.stage == Stage::Finished && (a matches InstallAction::Finish(Err(m)) && m@
            == "SteamCMD 未完成 Depot 下载（退出码 "@ + signed_decimal(0) + "）。"@),
        present ==> t.stage == Stage::WriteMarker && t.build == s.build && (
        a matches InstallAction::WriteDepotBuild(b) && b@ == s.build),
{
}

/// The game's build id comes first: without it the job ends with the error
/// that it cannot be read; with it the depot is checked, for that build.
pub proof fn lemma_game_build_first(
    username: Seq<char>,
    language: VoiceLanguage,
    s: JobView,
    build: Option<String>,
    t: JobView,
    a: InstallAction,
)
    requires
        s.stage == Stage::ReadGameBuild,
        transition(username, language, s, InstallEvent::GameBuild(build), t, a),
    ensures
        build is None ==> t.stage == Stage::Finished && (a matches InstallAction::Finish(Err(m))
            && m@ == "无法读取游戏 Build ID"@),
        build matches Some(b) ==> t.stage == Stage::FirstDepotCheck && t.build == b@ && a
            == InstallAction::CheckDepot,
{
}

/// A download needs a user name: when the depot is not in place and the
/// user name is empty or only white space, the job ends with the error that
/// asks for one; otherwise SteamCMD is prepared for the download.
pub proof fn lemma_username_needed(
    username: Seq<char>,
    language: VoiceLanguage,
    s: JobView,
    t: JobView,
    a: InstallAction,
)
    requires
        s.stage == Stage::SecondDepotCheck,
        transition(username, language, s, InstallEvent::DepotPresent(false), t, a),
    ensures
        trim(username).len() == 0 ==> t.stage == Stage::Finished && (a matches InstallAction::Finish(
            Err(m),
        ) && m@ == "需要 Steam 用户名。密码及 Steam Guard 将在 SteamCMD 窗口输入。"@),
        trim(username).len() > 0 ==> t.stage == Stage::PrepareSteamCmd && a
            == InstallAction::PrepareSteamCmd,
{
}

/// Any work that fails ends the job with the failure's own message.
pub proof fn lemma_failure_ends_job(
    username: Seq<char>,
    language: VoiceLanguage,
    s: JobView,
    m: String,
    t: JobView,
    a: InstallAction,
)
    requires
        s.stage == Stage::DeleteStale || s.stage == Stage::PrepareSteamCmd || s.stage
            == Stage::Download || s.stage == Stage::WriteMarker || s.stage == Stage::RemovePrevious
            || s.stage == Stage::InstallFiles,
        transition(username, language, s, InstallEvent::Failed(m), t, a),
    ensures
        t.stage == Stage::Finished,
        a matches InstallAction::Finish(Err(e)) && e@ == m@,
{
}

/// A successful installation ends the job with the language's title and the
/// message that names the method and the number of files.
pub proof fn lemma_install_done(
    username: Seq<char>,
    language: VoiceLanguage,
    s: JobView,
    method: String,
    files: usize,
    t: JobView,
    a: InstallAction,
)
    requires
        s.stage == Stage::InstallFiles,
        transition(username, language, s, InstallEvent::Installed { method, files }, t, a),
    ensures
        t.stage == Stage::Finished,
        a matches InstallAction::Finish(Ok((title, message))) && title@ == language.name@
            + "语音安装完成"@ && message@ == "已通过“"@ + method@ + "”安装 "@ + decimal(files as nat)
            + " 个语音文件。"@,
{
}

/// A depot already in place at the first check has its recorded build read;
/// otherwise the depot is checked again before a download.
pub proof fn lemma_first_depot_check(
    username: Seq<char>,
    language: VoiceLanguage,
    s: JobView,
    present: bool,
    t: JobView,
    a: InstallAction,
)
    requires
        s.stage == Stage::FirstDepotCheck,
        transition(username, language, s, InstallEvent::DepotPresent(present), t, a),
    ensures
        present ==> t.stage == Stage::ReadCachedBuild && t.build == s.build && a
            == InstallAction::ReadDepotBuild,
        !present ==> t.stage == Stage::SecondDepotCheck && t.build == s.build && a
            == InstallAction::CheckDepot,
{
}

} // verus!
