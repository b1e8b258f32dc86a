//! What the overlay shows as a user's current activity: a label derived from
//! the foreground application (its executable and window title on Windows,
//! its localized name on macOS).
use vstd::prelude::*;
use crate::text::{
    char_to_uppercase, chars_of, contains, contains_sub, last_segment, last_split_segment,
    lowercased, owned, push_str, str_equals, to_lowercase, trim_end_all, trim_end_matches,
    uppercased_char,
};

verus! {

/// The view of an optional string: the optional characters.
pub open spec fn opt_chars(o: Option<String>) -> Option<Seq<char>> {
    match o {
        Some(s) => Some(s@),
        None => None,
    }
}

/// `name` followed by the suffix saying that it is running.
pub open spec fn running_label(name: Seq<char>) -> Seq<char> {
    name + " 실행 중"@
}

/// `s` with its first character upper-cased.
pub open spec fn capitalized(s: Seq<char>) -> Seq<char> {
    if s.len() == 0 {
        Seq::empty()
    } else {
        uppercased_char(s[0]) + s.drop_first()
    }
}

// ---------------------------------------------------------------------------
// macOS
// ---------------------------------------------------------------------------

/// The fixed activity label for a lower-cased macOS application name, if the
/// application is one with a label of its own.
pub open spec fn mac_app_label(lower: Seq<char>) -> Option<Seq<char>> {
    if lower == "xcode"@ {
        Some("Xcode 작업 중"@)
    } else if lower == "visual studio code"@ || lower == "code"@ {
        Some("VS Code 작업 중"@)
    } else if lower == "intellij idea"@ {
        Some("IntelliJ IDEA 작업 중"@)
    } else if lower == "pycharm"@ {
        Some("PyCharm 작업 중"@)
    } else if lower == "webstorm"@ {
        Some("WebStorm 작업 중"@)
    } else if lower == "discord"@ {
        Some("Discord 중"@)
    } else if lower == "spotify"@ {
        Some("Spotify 듣는 중"@)
    } else if lower == "slack"@ {
        Some("Slack 중"@)
    } else if lower == "zoom"@ {
        Some("Zoom 중"@)
    } else if lower == "obs"@ {
        Some("OBS 중"@)
    } else if lower == "steam"@ {
        Some("Steam 중"@)
    } else if lower == "finder"@ {
        Some("파인더 사용 중"@)
    } else if lower == "terminal"@ || lower == "iterm2"@ || lower == "warp"@ {
        Some("터미널 중"@)
    } else if lower == "notion"@ {
        Some("Notion 작업 중"@)
    } else if lower == "figma"@ {
        Some("Figma 작업 중"@)
    } else {
        None
    }
}

/// The activity label for a macOS application `name` whose lower-cased form
/// is `lower`: the application's own label, or `name` followed by the
/// running suffix (browsers and every other application).
pub open spec fn macos_display(name: Seq<char>, lower: Seq<char>) -> Seq<char> {
    match mac_app_label(lower) {
        Some(label) => label,
        None => running_label(name),
    }
}

fn mac_app_label_of(lower: &str) -> (r: Option<String>)
    ensures
        opt_chars(r) == mac_app_label(lower@),
{
    if str_equals(lower, "xcode") {
        Some(owned("Xcode 작업 중"))
    } else if str_equals(lower, "visual studio code") || str_equals(lower, "code") {
        Some(owned("VS Code 작업 중"))
    } else if str_equals(lower, "intellij idea") {
        Some(owned("IntelliJ IDEA 작업 중"))
    } else if str_equals(lower, "pycharm") {
        Some(owned("PyCharm 작업 중"))
    } else if str_equals(lower, "webstorm") {
        Some(owned("WebStorm 작업 중"))
    } else if str_equals(lower, "discord") {
        Some(owned("Discord 중"))
    } else if str_equals(lower, "spotify") {
        Some(owned("Spotify 듣는 중"))
    } else if str_equals(lower, "slack") {
        Some(owned("Slack 중"))
    } else if str_equals(lower, "zoom") {
        Some(owned("Zoom 중"))
    } else if str_equals(lower, "obs") {
        Some(owned("OBS 중"))
    } else if str_equals(lower, "steam") {
        Some(owned("Steam 중"))
    } else if str_equals(lower, "finder") {
        Some(owned("파인더 사용 중"))
    } else if str_equals(lower, "terminal") || str_equals(lower, "iterm2") || str_equals(
        lower,
        "warp",
    ) {
        Some(owned("터미널 중"))
    } else if str_equals(lower, "notion") {
        Some(owned("Notion 작업 중"))
    } else if str_equals(lower, "figma") {
        Some(owned("Figma 작업 중"))
    } else {
        None
    }
}

/// `name` followed by the running suffix.
fn running(name: &str) -> (r: String)
    ensures
        r@ == running_label(name@),
{
    let mut r = owned(name);
    push_str(&mut r, " 실행 중");
    r
}

/// The activity label for the macOS application `name`, given its lower-cased
/// form `lower`.
pub fn macos_activity(name: &str, lower: &str) -> (r: String)
    ensures
        r@ == macos_display(name@, lower@),
{
    match mac_app_label_of(lower) {
        Some(label) => label,
        None => running(name),
    }
}

/// The activity label for the frontmost macOS application `name`.
pub fn macos_app_to_display(name: &str) -> (r: String)
    ensures
        r@ == macos_display(name@, lowercased(name@)),
{
    let lower = to_lowercase(name);
    macos_activity(name, lower.as_str())
}

// ---------------------------------------------------------------------------
// Windows
// ---------------------------------------------------------------------------

/// Executables (lower-case, without `.exe`) that are web browsers.
pub open spec fn is_browser(exe: Seq<char>) -> bool {
    ||| exe == "chrome"@
    ||| exe == "msedge"@
    ||| exe == "firefox"@
    ||| exe == "whale"@
    ||| exe == "opera"@
    ||| exe == "brave"@
    ||| exe == "vivaldi"@
}

/// The activity that a lower-cased browser window title shows, if it names a
/// site with a label of its own.
pub open spec fn site_label(title_lower: Seq<char>) -> Option<Seq<char>> {
    if contains_sub(title_lower, "youtube"@) {
        Some("유튜브 시청 중"@)
    } else if contains_sub(title_lower, "netflix"@) {
        Some("넷플릭스 시청 중"@)
    } else if contains_sub(title_lower, "twitch"@) {
        Some("트위치 시청 중"@)
    } else if contains_sub(title_lower, "github"@) {
        Some("GitHub 보는 중"@)
    } else if contains_sub(title_lower, "notion"@) {
        Some("Notion 작업 중"@)
    } else if contains_sub(title_lower, "figma"@) {
        Some("Figma 작업 중"@)
    } else {
        None
    }
}

/// The display name of a browser executable.
pub open spec fn browser_name(exe: Seq<char>) -> Seq<char> {
    if exe == "chrome"@ {
        "Chrome"@
    } else if exe == "msedge"@ {
        "Edge"@
    } else if exe == "firefox"@ {
        "Firefox"@
    } else if exe == "whale"@ {
        "Whale"@
    } else if exe == "opera"@ {
        "Opera"@
    } else if exe == "brave"@ {
        "Brave"@
    } else {
        "브라우저"@
    }
}

/// The display name of a known (non-browser) executable.
pub open spec fn known_app_name(exe: Seq<char>) -> Option<Seq<char>> {
    if exe == "idea64"@ || exe == "idea"@ {
        Some("IntelliJ IDEA"@)
    } else if exe == "code"@ {
        Some("VS Code"@)
    } else if exe == "pycharm64"@ || exe == "pycharm"@ {
        Some("PyCharm"@)
    } else if exe == "webstorm64"@ || exe == "webstorm"@ {
        Some("WebStorm"@)
    } else if exe == "clion64"@ || exe == "clion"@ {
        Some("CLion"@)
    } else if exe == "devenv"@ {
        Some("Visual Studio"@)
    } else if exe == "discord"@ {
        Some("Discord"@)
    } else if exe == "spotify"@ {
        Some("Spotify"@)
    } else if exe == "vlc"@ {
        Some("VLC"@)
    } else if exe == "notepad"@ {
        Some("메모장"@)
    } else if exe == "notepad++"@ {
        Some("Notepad++"@)
    } else if exe == "explorer"@ {
        Some("파일 탐색기"@)
    } else if exe == "slack"@ {
        Some("Slack"@)
    } else if exe == "zoom"@ {
        Some("Zoom"@)
    } else if exe == "obs64"@ || exe == "obs32"@ || exe == "obs"@ {
        Some("OBS"@)
    } else if exe == "steam"@ {
        Some("Steam"@)
    } else if exe == "javaw"@ || exe == "minecraft"@ || exe == "minecraftlauncher"@ {
        Some("마인크래프트"@)
    } else if exe == "windowsterminal"@ || exe == "terminal"@ {
        Some("터미널"@)
    } else if exe == "powershell"@ {
        Some("PowerShell"@)
    } else if exe == "cmd"@ {
        Some("명령 프롬프트"@)
    } else if exe == "kakaotalk"@ {
        Some("카카오톡"@)
    } else {
        None
    }
}

/// The activity label of a browser executable `exe` whose window title,
/// lower-cased, is `title_lower`.
pub open spec fn browser_display(exe: Seq<char>, title_lower: Seq<char>) -> Seq<char> {
    match site_label(title_lower) {
        Some(label) => label,
        None => running_label(browser_name(exe)),
    }
}

/// The activity label of a non-browser executable.
pub open spec fn program_display(exe: Seq<char>) -> Seq<char> {
    match known_app_name(exe) {
        Some(name) => running_label(name),
        None => running_label(capitalized(exe)),
    }
}

/// The activity label for executable `exe` with window title `title`.
pub open spec fn exe_display(exe: Seq<char>, title: Seq<char>) -> Seq<char> {
    if is_browser(exe) {
        browser_display(exe, lowercased(title))
    } else {
        program_display(exe)
    }
}

fn is_browser_exe(exe: &str) -> (r: bool)
    ensures
        r == is_browser(exe@),
{
    str_equals(exe, "chrome") || str_equals(exe, "msedge") || str_equals(exe, "firefox")
        || str_equals(exe, "whale") || str_equals(exe, "opera") || str_equals(exe, "brave")
        || str_equals(exe, "vivaldi")
}

fn site_label_of(title_lower: &str) -> (r: Option<String>)
    ensures
        opt_chars(r) == site_label(title_lower@),
{
    if contains(title_lower, "youtube") {
        Some(owned("유튜브 시청 중"))
    } else if contains(title_lower, "netflix") {
        Some(owned("넷플릭스 시청 중"))
    } else if contains(title_lower, "twitch") {
        Some(owned("트위치 시청 중"))
    } else if contains(title_lower, "github") {
        Some(owned("GitHub 보는 중"))
    } else if contains(title_lower, "notion") {
        Some(owned("Notion 작업 중"))
    } else if contains(title_lower, "figma") {
        Some(owned("Figma 작업 중"))
    } else {
        None
    }
}

fn browser_name_of(exe: &str) -> (r: String)
    ensures
        r@ == browser_name(exe@),
{
    if str_equals(exe, "chrome") {
        owned("Chrome")
    } else if str_equals(exe, "msedge") {
        owned("Edge")
    } else if str_equals(exe, "firefox") {
        owned("Firefox")
    } else if str_equals(exe, "whale") {
        owned("Whale")
    } else if str_equals(exe, "opera") {
        owned("Opera")
    } else if str_equals(exe, "brave") {
        owned("Brave")
    } else {
        owned("브라우저")
    }
}

fn known_app_name_of(exe: &str) -> (r: Option<String>)
    ensures
        opt_chars(r) == known_app_name(exe@),
{
    if str_equals(exe, "idea64") || str_equals(exe, "idea") {
        Some(owned("IntelliJ IDEA"))
    } else if str_equals(exe, "code") {
        Some(owned("VS Code"))
    } else if str_equals(exe, "pycharm64") || str_equals(exe, "pycharm") {
        Some(owned("PyCharm"))
    } else if str_equals(exe, "webstorm64") || str_equals(exe, "webstorm") {
        Some(owned("WebStorm"))
    } else if str_equals(exe, "clion64") || str_equals(exe, "clion") {
        Some(owned("CLion"))
    } else if str_equals(exe, "devenv") {
        Some(owned("Visual Studio"))
    } else if str_equals(exe, "discord") {
        Some(owned("Discord"))
    } else if str_equals(exe, "spotify") {
        Some(owned("Spotify"))
    } else if str_equals(exe, "vlc") {
        Some(owned("VLC"))
    } else if str_equals(exe, "notepad") {
        Some(owned("메모장"))
    } else if str_equals(exe, "notepad++") {
        Some(owned("Notepad++"))
    } else if str_equals(exe, "explorer") {
        Some(owned("파일 탐색기"))
    } else if str_equals(exe, "slack") {
        Some(owned("Slack"))
    } else if str_equals(exe, "zoom") {
        Some(owned("Zoom"))
    } else if str_equals(exe, "obs64") || str_equals(exe, "obs32") || str_equals(exe, "obs") {
        Some(owned("OBS"))
    } else if str_equals(exe, "steam") {
        Some(owned("Steam"))
    } else if str_equals(exe, "javaw") || str_equals(exe, "minecraft") || str_equals(
        exe,
        "minecraftlauncher",
    ) {
        Some(owned("마인크래프트"))
    } else if str_equals(exe, "windowsterminal") || str_equals(exe, "terminal") {
        Some(owned("터미널"))
    } else if str_equals(exe, "powershell") {
        Some(owned("PowerShell"))
    } else if str_equals(exe, "cmd") {
        Some(owned("명령 프롬프트"))
    } else if str_equals(exe, "kakaotalk") {
        Some(owned("카카오톡"))
    } else {
        None
    }
}

/// `s` with its first character upper-cased (the rest unchanged).
pub fn capitalize_first(s: &str) -> (r: String)
    ensures
        r@ == capitalized(s@),
{
    let cs = chars_of(s);
    if cs.len() == 0 {
        return String::new();
    }
    let mut r = char_to_uppercase(cs[0]);
    let rest = crate::text::string_of_range(cs.as_slice(), 1, cs.len());
    push_str(&mut r, rest.as_str());
    assert(s@.subrange(1, s@.len() as int) =~= s@.drop_first());
    r
}

/// The activity label of browser executable `exe` given its lower-cased
/// window title `title_lower`.
pub fn browser_activity(exe: &str, title_lower: &str) -> (r: String)
    ensures
        r@ == browser_display(exe@, title_lower@),
{
    match site_label_of(title_lower) {
        Some(label) => label,
        None => {
            let name = browser_name_of(exe);
            running(name.as_str())
        },
    }
}

/// The activity label for the executable `exe` (lower-case, without `.exe`)
/// whose foreground window has the title `title`.
pub fn exe_to_app_name(exe: &str, title: &str) -> (r: String)
    ensures
        r@ == exe_display(exe@, title@),
{
    if is_browser_exe(exe) {
        let title_lower = to_lowercase(title);
        return browser_activity(exe, title_lower.as_str());
    }
    match known_app_name_of(exe) {
        Some(name) => running(name.as_str()),
        None => {
            let cap = capitalize_first(exe);
            running(cap.as_str())
        },
    }
}

/// The executable name in a lower-cased file name: every trailing `.exe`
/// removed.
pub fn strip_exe_suffix(file_lower: &str) -> (r: String)
    ensures
        r@ == trim_end_all(file_lower@, ".exe"@),
{
    trim_end_matches(file_lower, ".exe")
}

/// The executable name of a process image path: the file name after the last
/// `\`, lower-cased, with every trailing `.exe` removed.
pub open spec fn exe_of_path(path: Seq<char>) -> Seq<char> {
    trim_end_all(lowercased(last_segment(path, '\\')), ".exe"@)
}

/// The executable name of a process image path.
pub fn exe_name_of_path(path: &str) -> (r: String)
    ensures
        r@ == exe_of_path(path@),
{
    let file = last_split_segment(path, '\\');
    let lower = to_lowercase(file.as_str());
    strip_exe_suffix(lower.as_str())
}

// ---------------------------------------------------------------------------
// The foreground application
// ---------------------------------------------------------------------------

/// What the platform reports about the foreground application.
pub enum ForegroundWindow {
    /// Nothing could be learned (no detection on this platform, or a query of
    /// the Windows foreground window or its process failed).
    Unknown,
    /// A Windows process: the full path of its image and its window title.
    Windows { image_path: String, title: String },
    /// The frontmost macOS application and its localized name, if it has one.
    MacOs { app_name: Option<String> },
}

/// The activity label for what the platform reported.
pub open spec fn active_app_label(w: ForegroundWindow) -> Seq<char> {
    match w {
        ForegroundWindow::Unknown => "접속 중"@,
        ForegroundWindow::Windows { image_path, title } => exe_display(
            exe_of_path(image_path@),
            title@,
        ),
        ForegroundWindow::MacOs { app_name } => match app_name {
            Some(n) => if n@.len() > 0 {
                macos_display(n@, lowercased(n@))
            } else {
                "앱 사용 중"@
            },
            None => "앱 사용 중"@,
        },
    }
}

/// The activity label for the foreground application that the platform
/// reported.
pub fn get_active_app_internal(w: ForegroundWindow) -> (r: String)
    ensures
        r@ == active_app_label(w),
{
    match w {
        ForegroundWindow::Unknown => owned("접속 중"),
        ForegroundWindow::Windows { image_path, title } => {
            let exe = exe_name_of_path(image_path.as_str());
            exe_to_app_name(exe.as_str(), title.as_str())
        },
        ForegroundWindow::MacOs { app_name } => match app_name {
            Some(n) => {
                if n.as_str().is_empty() {
                    owned("앱 사용 중")
                } else {
                    macos_app_to_display(n.as_str())
                }
            },
            None => owned("앱 사용 중"),
        },
    }
}

} // verus!
