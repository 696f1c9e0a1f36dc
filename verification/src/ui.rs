//! What the window shows: the status of the selected language's depot, the
//! questions it asks before acting, and the messages after an action.
use vstd::prelude::*;
use crate::install::InstallState;
use crate::language::VoiceLanguage;
use crate::text::{decimal, opt_view, owned, push_decimal, push_str};

verus! {

/// The installed voice belongs to another game build: the current build is
/// known and differs from the build the voice was installed for.
pub open spec fn spec_build_changed(current: Option<Seq<char>>, installed: Seq<char>) -> bool {
    current matches Some(c) && c != installed
}

/// The game counts as updated exactly when its current build is known and
/// differs, as text, from the build the voice was installed for: any two
/// different builds count, and the same build or an unknown one never does.
pub proof fn lemma_build_changed_iff_differs(current: Option<Seq<char>>, installed: Seq<char>)
    ensures
        spec_build_changed(current, installed) <==> (current is Some && current->0 != installed),
        spec_build_changed(None, installed) == false,
        spec_build_changed(Some(installed), installed) == false,
        forall|c: Seq<char>| c != installed ==> #[trigger] spec_build_changed(Some(c), installed),
{
}

/// Whether the game was updated since the voice was installed; an unknown
/// current build counts as no change.
pub fn build_changed(current: Option<&str>, installed: &str) -> (r: bool)
    ensures
        r == spec_build_changed(
            match current {
                Some(c) => Some(c@),
                None => None,
            },
            installed@,
        ),
        r == (current matches Some(c) && c@ != installed@),
{
    match current {
        Some(c) => owned(c) != owned(installed),
        None => false,
    }
}

/// A status line: its title and message.
#[derive(Debug, PartialEq, Eq)]
pub struct Status {
    pub title: String,
    pub message: String,
}

/// What the window shows for the selected language: the label of the
/// install button and a status line.
#[derive(Debug, PartialEq, Eq)]
pub struct DepotStatus {
    pub install_label: String,
    pub status: Status,
}

/// `name Depot id`, as the messages name a language's depot.
pub open spec fn depot_words(language: VoiceLanguage) -> Seq<char> {
    language.name@ + " Depot "@ + decimal(language.depot_id as nat)
}

/// The downloaded depot was recorded for another build than the game's:
/// both are known and they differ.
pub open spec fn spec_depot_outdated(cached: Option<Seq<char>>, game: Option<Seq<char>>) -> bool {
    cached is Some && game is Some && cached != game
}

/// The depot counts as made for another build exactly when both the
/// recorded and the current build are known and they differ as text.
pub proof fn lemma_depot_outdated_iff_differs(cached: Option<Seq<char>>, game: Option<Seq<char>>)
    ensures
        spec_depot_outdated(cached, game) <==> (cached is Some && game is Some && cached->0
            != game->0),
{
}

/// The depot status of `language`: not downloaded; downloaded for another
/// build than the game's; or downloaded and reusable. `cached` and `game`
/// are the recorded and the current build, read only when the depot exists.
pub fn depot_status(
    language: VoiceLanguage,
    depot_exists: bool,
    cached: &Option<String>,
    game: &Option<String>,
) -> (r: DepotStatus)
    ensures
        !depot_exists ==> r.install_label@ == "下载并安装语音"@ && r.status.title@ == "尚未下载"@
            && r.status.message@ == "将通过 SteamCMD 下载 "@ + depot_words(language) + "。"@,
        depot_exists && spec_depot_outdated(opt_view(*cached), opt_view(*game)) ==> r.install_label@
            == "更新并安装语音"@ && r.status.title@ == "已有 Depot 与当前游戏版本不同"@
            && r.status.message@ == "安装时将删除并重新下载。"@,
        depot_exists && !spec_depot_outdated(opt_view(*cached), opt_view(*game)) ==> r.install_label@
            == "安装已有语音"@ && r.status.title@ == "已发现下载好的语言 Depot"@
            && r.status.message@ == depot_words(language) + " 已存在，不会重新下载。"@,
{
    if depot_exists {
        let outdated = match (cached, game) {
            (Some(c), Some(g)) => *c != *g,
            _ => false,
        };
        if outdated {
            DepotStatus {
                install_label: owned("更新并安装语音"),
                status: Status {
                    title: owned("已有 Depot 与当前游戏版本不同"),
                    message: owned("安装时将删除并重新下载。"),
                },
            }
        } else {
            let mut message = owned(language.name);
            push_str(&mut message, " Depot ");
            push_decimal(&mut message, language.depot_id as u64);
            push_str(&mut message, " 已存在，不会重新下载。");
            DepotStatus {
                install_label: owned("安装已有语音"),
                status: Status { title: owned("已发现下载好的语言 Depot"), message },
            }
        }
    } else {
        let mut message = owned("将通过 SteamCMD 下载 ");
        push_str(&mut message, language.name);
        push_str(&mut message, " Depot ");
        push_decimal(&mut message, language.depot_id as u64);
        push_str(&mut message, "。");
        DepotStatus {
            install_label: owned("下载并安装语音"),
            status: Status { title: owned("尚未下载"), message },
        }
    }
}

/// How a language is listed: `name（Depot id）`.
pub fn language_label(language: VoiceLanguage) -> (r: String)
    ensures
        r@ == language.name@ + "（Depot "@ + decimal(language.depot_id as nat) + "）"@,
{
    let mut r = owned(language.name);
    push_str(&mut r, "（Depot ");
    push_decimal(&mut r, language.depot_id as u64);
    push_str(&mut r, "）");
    r
}

/// A question in a dialog: its title, message, whether it warns of a
/// destructive action, and the texts of its buttons (an empty text hides a
/// button).
#[derive(Debug, PartialEq, Eq)]
pub struct Prompt {
    pub title: String,
    pub message: String,
    pub is_danger: bool,
    pub primary: String,
    pub secondary: String,
    pub cancel: String,
}

/// The question before removing the recorded voice.
pub fn removal_prompt(state: &InstallState) -> (r: Prompt)
    ensures
        r.title@ == "确认删除已安装语音"@,
        r.message@ == "将删除 "@ + state.language@ + " 语音对应的 "@ + decimal(state.files@.len())
            + " 个文件/链接。\n安装方式："@ + state.installation_method@,
        r.is_danger,
        r.primary@ == "确认删除"@,
        r.secondary@ == Seq::<char>::empty(),
        r.cancel@ == "取消"@,
{
    let mut message = owned("将删除 ");
    push_str(&mut message, state.language.as_str());
    push_str(&mut message, " 语音对应的 ");
    push_decimal(&mut message, state.files.len() as u64);
    push_str(&mut message, " 个文件/链接。\n安装方式：");
    push_str(&mut message, state.installation_method.as_str());
    Prompt {
        title: owned("确认删除已安装语音"),
        message,
        is_danger: true,
        primary: owned("确认删除"),
        secondary: String::new(),
        cancel: owned("取消"),
    }
}

/// The question when a downloaded depot carries no record of its build.
pub fn unverified_depot_prompt(language: VoiceLanguage) -> (r: Prompt)
    ensures
        r.title@ == "发现未标记版本的 Depot 缓存"@,
        r.message@ == "已存在 "@ + language.name@ + "（Depot "@ + decimal(language.depot_id as nat)
            + "）缓存文件，但无法确认是否匹配当前游戏版本。\n您可以选择直接沿用已有缓存，或删除旧缓存后重新下载。"@,
        !r.is_danger,
        r.primary@ == "沿用已有缓存"@,
        r.secondary@ == "删除并重新下载"@,
        r.cancel@ == "取消"@,
{
    let mut message = owned("已存在 ");
    push_str(&mut message, language.name);
    push_str(&mut message, "（Depot ");
    push_decimal(&mut message, language.depot_id as u64);
    push_str(
        &mut message,
        "）缓存文件，但无法确认是否匹配当前游戏版本。\n您可以选择直接沿用已有缓存，或删除旧缓存后重新下载。",
    );
    Prompt {
        title: owned("发现未标记版本的 Depot 缓存"),
        message,
        is_danger: false,
        primary: owned("沿用已有缓存"),
        secondary: owned("删除并重新下载"),
        cancel: owned("取消"),
    }
}

/// The question shown at start when the game was updated since the recorded
/// voice was installed; none when it was not (or the current build is
/// unknown). The only answer is to clean up the old voice.
pub fn build_update_prompt(state: &InstallState, current: Option<&str>) -> (r: Option<Prompt>)
    ensures
        r is Some <==> spec_build_changed(
            match current {
                Some(c) => Some(c@),
                None => None,
            },
            state.build_id@,
        ),
        r matches Some(p) ==> {
            &&& p.title@ == "检测到游戏版本已更新"@
            &&& p.message@ == "检测到 Apex Legends 已更新（已安装语音基于旧版本 "@ + state.build_id@
                + "）。\n旧语音文件可能不兼容，必须清理已安装的 "@ + state.language@ + " 语音文件后重新安装。"@
            &&& p.is_danger
            &&& p.primary@ == "清理旧语音"@
            &&& p.secondary@ == Seq::<char>::empty()
            &&& p.cancel@ == Seq::<char>::empty()
        },
{
    if !build_changed(current, state.build_id.as_str()) {
        return None;
    }
    let mut message = owned("检测到 Apex Legends 已更新（已安装语音基于旧版本 ");
    push_str(&mut message, state.build_id.as_str());
    push_str(&mut message, "）。\n旧语音文件可能不兼容，必须清理已安装的 ");
    push_str(&mut message, state.language.as_str());
    push_str(&mut message, " 语音文件后重新安装。");
    Some(
        Prompt {
            title: owned("检测到游戏版本已更新"),
            message,
            is_danger: true,
            primary: owned("清理旧语音"),
            secondary: String::new(),
            cancel: String::new(),
        },
    )
}

/// What pressing the install button leads to.
#[derive(Debug, PartialEq, Eq)]
pub enum InstallGate {
    /// The chosen directory is not a Steam-managed game directory.
    InvalidGame,
    /// A downloaded depot without a build record is there: ask first.
    ConfirmUnverifiedDepot,
    /// Start installing.
    Proceed,
}

/// What pressing the install button leads to: the game directory must hold
/// `audio/ship` and have a known build; a downloaded depot must carry a
/// build record, or the user is asked first.
pub fn install_gate(game_valid: bool, depot_exists: bool, depot_build_known: bool) -> (r:
    InstallGate)
    ensures
        !game_valid ==> r == InstallGate::InvalidGame,
        game_valid && depot_exists && !depot_build_known ==> r
            == InstallGate::ConfirmUnverifiedDepot,
        game_valid && !(depot_exists && !depot_build_known) ==> r == InstallGate::Proceed,
{
    if !game_valid {
        InstallGate::InvalidGame
    } else if depot_exists && !depot_build_known {
        InstallGate::ConfirmUnverifiedDepot
    } else {
        InstallGate::Proceed
    }
}

/// The status after removing the recorded voice, `count` files deleted.
pub fn removed_status(count: usize) -> (r: Status)
    ensures
        r.title@ == "语音已删除"@,
        r.message@ == "已删除 "@ + decimal(count as nat) + " 个文件/链接。"@,
{
    let mut message = owned("已删除 ");
    push_decimal(&mut message, count as u64);
    push_str(&mut message, " 个文件/链接。");
    Status { title: owned("语音已删除"), message }
}

/// The status after cleaning up a voice of an older game build, `count`
/// files deleted.
pub fn cleaned_status(count: usize) -> (r: Status)
    ensures
        r.title@ == "旧语音已清理"@,
        r.message@ == "已删除 "@ + decimal(count as nat) + " 个旧文件。请选择所需语言重新下载安装。"@,
{
    let mut message = owned("已删除 ");
    push_decimal(&mut message, count as u64);
    push_str(&mut message, " 个旧文件。请选择所需语言重新下载安装。");
    Status { title: owned("旧语音已清理"), message }
}


/// The status when the chosen directory is not a Steam-managed game
/// directory.
pub fn invalid_game_status() -> (r: Status)
    ensures
        r.title@ == "Apex Legends 目录无效"@,
        r.message@ == "请选择包含 audio\\ship 且由 Steam 管理的 Apex Legends 目录。"@,
{
    Status {
        title: owned("Apex Legends 目录无效"),
        message: owned("请选择包含 audio\\ship 且由 Steam 管理的 Apex Legends 目录。"),
    }
}

/// The status while a long operation runs.
pub fn busy_status() -> (r: Status)
    ensures
        r.title@ == "正在处理"@,
        r.message@ == "耗时操作在后台运行，请等待。"@,
{
    Status { title: owned("正在处理"), message: owned("耗时操作在后台运行，请等待。") }
}

/// The status after an operation failed with `error`.
pub fn failed_status(error: &str) -> (r: Status)
    ensures
        r.title@ == "操作失败"@,
        r.message@ == error@,
{
    Status { title: owned("操作失败"), message: owned(error) }
}

/// The status when no installed voice is recorded.
pub fn no_voice_status() -> (r: Status)
    ensures
        r.title@ == "没有可删除的语音"@,
        r.message@ == "当前没有由本工具记录的已安装语音文件。"@,
{
    Status { title: owned("没有可删除的语音"), message: owned("当前没有由本工具记录的已安装语音文件。") }
}

/// The status when cleaning up the voice of an older build failed with
/// `error`.
pub fn cleanup_failed_status(error: &str) -> (r: Status)
    ensures
        r.title@ == "无法删除旧语音"@,
        r.message@ == error@,
{
    Status { title: owned("无法删除旧语音"), message: owned(error) }
}

/// The status when deleting an unmarked depot before a new download failed
/// with `error`.
pub fn depot_delete_failed_status(error: &str) -> (r: Status)
    ensures
        r.title@ == "无法删除旧 Depot"@,
        r.message@ == error@,
{
    Status { title: owned("无法删除旧 Depot"), message: owned(error) }
}

} // verus!
