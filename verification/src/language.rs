//! The voice languages that can be installed.
use vstd::prelude::*;
use crate::steam::APP_ID;
use crate::text::{decimal, is_ascii_alphanumeric_char, owned, push_decimal, push_str};

verus! {

/// A voice language: its name as shown, the Steam depot that holds its voice
/// files, and the code the game's launch option names it by.
#[derive(Clone, Copy, Debug, PartialEq, Eq)]
pub struct VoiceLanguage {
    pub name: &'static str,
    pub depot_id: u32,
    pub launch_code: &'static str,
}

/// The number of voice languages.
pub open spec fn language_count() -> nat {
    9
}

/// The shown name of the voice language at `i`.
pub open spec fn spec_language_name(i: int) -> Seq<char> {
    if i == 0 {
        "法语"@
    } else if i == 1 {
        "德语"@
    } else if i == 2 {
        "意大利语"@
    } else if i == 3 {
        "日语"@
    } else if i == 4 {
        "韩语"@
    } else if i == 5 {
        "简体中文"@
    } else if i == 6 {
        "波兰语"@
    } else if i == 7 {
        "俄语"@
    } else {
        "西班牙语"@
    }
}

/// The launch code of the voice language at `i`.
pub open spec fn spec_launch_code(i: int) -> Seq<char> {
    if i == 0 {
        "french"@
    } else if i == 1 {
        "german"@
    } else if i == 2 {
        "italian"@
    } else if i == 3 {
        "japanese"@
    } else if i == 4 {
        "korean"@
    } else if i == 5 {
        "schinese"@
    } else if i == 6 {
        "polish"@
    } else if i == 7 {
        "russian"@
    } else {
        "spanish"@
    }
}

/// The depot of the voice language at `i`: the depots follow one another,
/// from 1172472 for French to 1172480 for Spanish.
pub open spec fn spec_depot_id(i: int) -> int {
    1172472 + i
}

/// `l` is the voice language at `i`.
pub open spec fn is_language(l: VoiceLanguage, i: int) -> bool {
    &&& 0 <= i < language_count()
    &&& l.name@ == spec_language_name(i)
    &&& l.depot_id == spec_depot_id(i)
    &&& l.launch_code@ == spec_launch_code(i)
}

/// The voice language at `index`, if there is one.
pub fn language_at(index: usize) -> (r: Option<VoiceLanguage>)
    ensures
        r is Some <==> index < language_count(),
        r matches Some(l) ==> is_language(l, index as int),
{
    if index == 0 {
        Some(VoiceLanguage { name: "法语", depot_id: 1172472, launch_code: "french" })
    } else if index == 1 {
        Some(VoiceLanguage { name: "德语", depot_id: 1172473, launch_code: "german" })
    } else if index == 2 {
        Some(VoiceLanguage { name: "意大利语", depot_id: 1172474, launch_code: "italian" })
    } else if index == 3 {
        Some(VoiceLanguage { name: "日语", depot_id: 1172475, launch_code: "japanese" })
    } else if index == 4 {
        Some(VoiceLanguage { name: "韩语", depot_id: 1172476, launch_code: "korean" })
    } else if index == 5 {
        Some(VoiceLanguage { name: "简体中文", depot_id: 1172477, launch_code: "schinese" })
    } else if index == 6 {
        Some(VoiceLanguage { name: "波兰语", depot_id: 1172478, launch_code: "polish" })
    } else if index == 7 {
        Some(VoiceLanguage { name: "俄语", depot_id: 1172479, launch_code: "russian" })
    } else if index == 8 {
        Some(VoiceLanguage { name: "西班牙语", depot_id: 1172480, launch_code: "spanish" })
    } else {
        None
    }
}

/// All voice languages, in order.
pub fn languages() -> (r: Vec<VoiceLanguage>)
    ensures
        r.len() == language_count(),
        forall|i: int| 0 <= i < r.len() ==> is_language(#[trigger] r[i], i),
{
    let mut r: Vec<VoiceLanguage> = Vec::new();
    let mut i: usize = 0;
    while i < 9
        invariant
            i <= 9,
            r.len() == i,
            forall|j: int| 0 <= j < r.len() ==> is_language(#[trigger] r[j], j),
        decreases 9 - i,
    {
        match language_at(i) {
            Some(l) => r.push(l),
            None => {},
        }
        i = i + 1;
    }
    r
}

/// The voice language selected at `index` in a list of languages, if the
/// index names one (a negative index names none).
pub fn selected_language(index: i32) -> (r: Option<VoiceLanguage>)
    ensures
        r is Some <==> 0 <= index < language_count(),
        r matches Some(l) ==> is_language(l, index as int),
{
    if index < 0 {
        None
    } else {
        language_at(index as usize)
    }
}

/// The launch option that selects a voice language: `+miles_language` and
/// its code.
pub open spec fn spec_launch_option(i: int) -> Seq<char> {
    "+miles_language "@ + spec_launch_code(i)
}

/// The launch option for the language selected at `index`.
pub fn launch_option(index: i32) -> (r: Option<String>)
    ensures
        r is Some <==> 0 <= index < language_count(),
        r matches Some(s) ==> s@ == spec_launch_option(index as int),
{
    match selected_language(index) {
        Some(l) => {
            let mut s = owned("+miles_language ");
            push_str(&mut s, l.launch_code);
            Some(s)
        },
        None => None,
    }
}

/// A SteamCMD user name may hold ASCII letters, digits and `_`, and is not
/// empty.
pub open spec fn valid_username(u: Seq<char>) -> bool {
    &&& u.len() > 0
    &&& forall|i: int|
        0 <= i < u.len() ==> is_ascii_alphanumeric(#[trigger] u[i]) || u[i] == '_'
}

/// An ASCII letter or digit.
pub open spec fn is_ascii_alphanumeric(c: char) -> bool {
    ('0' <= c && c <= '9') || ('A' <= c && c <= 'Z') || ('a' <= c && c <= 'z')
}

/// The SteamCMD script that logs in as `username`, downloads one depot of
/// Apex Legends and quits; it stops at the first failed command and lets
/// SteamCMD ask for the password.
pub open spec fn spec_download_script(username: Seq<char>, depot_id: u32) -> Seq<char> {
    "@ShutdownOnFailedCommand 1\n@NoPromptForPassword 0\nlogin "@ + username + "\ndownload_depot "@
        + decimal(APP_ID as nat) + " "@ + decimal(depot_id as nat) + "\nquit\n"@
}

/// Why a depot download cannot be started.
#[derive(Debug, PartialEq, Eq)]
pub enum ScriptError {
    /// The user name is empty or holds other characters than ASCII
    /// letters, digits and `_`.
    InvalidUsername,
}

impl ScriptError {
    /// The message shown for this error.
    pub fn message(&self) -> (r: String)
        ensures
            r@ == "Steam 用户名只能包含英文字母、数字和下划线。"@,
    {
        owned("Steam 用户名只能包含英文字母、数字和下划线。")
    }
}

/// The SteamCMD script that downloads the depot `depot_id` as `username`;
/// refused for a user name that is not valid.
pub fn download_script(username: &str, depot_id: u32) -> (r: Result<String, ScriptError>)
    ensures
        r is Ok <==> valid_username(username@),
        r is Ok <==> (username@.len() > 0 && forall|i: int|
            0 <= i < username@.len() ==> ('A' <= #[trigger] username@[i] && username@[i] <= 'Z')
                || ('a' <= username@[i] && username@[i] <= 'z') || ('0' <= username@[i]
                && username@[i] <= '9') || username@[i] == '_'),
        r matches Ok(s) ==> s@ == spec_download_script(username@, depot_id),
        r matches Err(e) ==> e == ScriptError::InvalidUsername,
{
    let chars = crate::text::chars_of(username);
    if chars.len() == 0 {
        return Err(ScriptError::InvalidUsername);
    }
    let mut i: usize = 0;
    while i < chars.len()
        invariant
            i <= chars.len(),
            chars@ == username@,
            forall|j: int|
                0 <= j < i ==> is_ascii_alphanumeric(#[trigger] chars@[j]) || chars@[j] == '_',
        decreases chars.len() - i,
    {
        if !(is_ascii_alphanumeric_char(chars[i]) || chars[i] == '_') {
            return Err(ScriptError::InvalidUsername);
        }
        i = i + 1;
    }
    let mut s = owned("@ShutdownOnFailedCommand 1\n@NoPromptForPassword 0\nlogin ");
    push_str(&mut s, username);
    push_str(&mut s, "\ndownload_depot ");
    push_decimal(&mut s, APP_ID as u64);
    push_str(&mut s, " ");
    push_decimal(&mut s, depot_id as u64);
    push_str(&mut s, "\nquit\n");
    Ok(s)
}

/// A user name is valid exactly when it is not empty and each of its
/// characters is an ASCII letter of either case, an ASCII digit or `_`.
pub proof fn lemma_valid_username_chars(u: Seq<char>)
    ensures
        valid_username(u) <==> (u.len() > 0 && forall|i: int|
            0 <= i < u.len() ==> ('A' <= #[trigger] u[i] && u[i] <= 'Z') || ('a' <= u[i] && u[i]
                <= 'z') || ('0' <= u[i] && u[i] <= '9') || u[i] == '_'),
{
}

/// The voice languages, in order, with their shown names, depots and launch
/// codes: every language the table gives is one of these rows, at its
/// place.
pub proof fn lemma_language_table(l: VoiceLanguage, i: int)
    requires
        is_language(l, i),
    ensures
        i == 0 ==> l.name@ == "法语"@ && l.depot_id == 1172472 && l.launch_code@ == "french"@,
        i == 1 ==> l.name@ == "德语"@ && l.depot_id == 1172473 && l.launch_code@ == "german"@,
        i == 2 ==> l.name@ == "意大利语"@ && l.depot_id == 1172474 && l.launch_code@ == "italian"@,
        i == 3 ==> l.name@ == "日语"@ && l.depot_id == 1172475 && l.launch_code@ == "japanese"@,
        i == 4 ==> l.name@ == "韩语"@ && l.depot_id == 1172476 && l.launch_code@ == "korean"@,
        i == 5 ==> l.name@ == "简体中文"@ && l.depot_id == 1172477 && l.launch_code@
            == "schinese"@,
        i == 6 ==> l.name@ == "波兰语"@ && l.depot_id == 1172478 && l.launch_code@ == "polish"@,
        i == 7 ==> l.name@ == "俄语"@ && l.depot_id == 1172479 && l.launch_code@ == "russian"@,
        i == 8 ==> l.name@ == "西班牙语"@ && l.depot_id == 1172480 && l.launch_code@ == "spanish"@,
{
}

/// The launch option of each language names its own launch code: the one
/// of the language at `i` in the table, after `+miles_language `.
pub proof fn lemma_launch_options(i: int)
    requires
        0 <= i < language_count(),
    ensures
        i == 0 ==> spec_launch_option(i) == "+miles_language "@ + "french"@,
        i == 1 ==> spec_launch_option(i) == "+miles_language "@ + "german"@,
        i == 2 ==> spec_launch_option(i) == "+miles_language "@ + "italian"@,
        i == 3 ==> spec_launch_option(i) == "+miles_language "@ + "japanese"@,
        i == 4 ==> spec_launch_option(i) == "+miles_language "@ + "korean"@,
        i == 5 ==> spec_launch_option(i) == "+miles_language "@ + "schinese"@,
        i == 6 ==> spec_launch_option(i) == "+miles_language "@ + "polish"@,
        i == 7 ==> spec_launch_option(i) == "+miles_language "@ + "russian"@,
        i == 8 ==> spec_launch_option(i) == "+miles_language "@ + "spanish"@,
{
}

} // verus!
