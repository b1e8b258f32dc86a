//! Laws of the activity labels, stated as the concrete executable, site and
//! application names and the labels they give.
use vstd::prelude::*;
use crate::activity::{active_app_label, capitalized, exe_display, exe_of_path, macos_display, ForegroundWindow};
use crate::text::{contains_sub, has_suffix, last_segment, lowercased, trim_end_all, uppercased_char};

verus! {

/// Every program of the known-program table gets its display name followed
/// by " 실행 중", whatever its window title.
pub proof fn law_known_programs(t: Seq<char>)
    ensures
        exe_display("clion"@, t) == "CLion"@ + " 실행 중"@,
        exe_display("clion64"@, t) == "CLion"@ + " 실행 중"@,
        exe_display("cmd"@, t) == "명령 프롬프트"@ + " 실행 중"@,
        exe_display("code"@, t) == "VS Code"@ + " 실행 중"@,
        exe_display("devenv"@, t) == "Visual Studio"@ + " 실행 중"@,
        exe_display("discord"@, t) == "Discord"@ + " 실행 중"@,
        exe_display("explorer"@, t) == "파일 탐색기"@ + " 실행 중"@,
        exe_display("idea"@, t) == "IntelliJ IDEA"@ + " 실행 중"@,
        exe_display("idea64"@, t) == "IntelliJ IDEA"@ + " 실행 중"@,
        exe_display("javaw"@, t) == "마인크래프트"@ + " 실행 중"@,
        exe_display("kakaotalk"@, t) == "카카오톡"@ + " 실행 중"@,
        exe_display("minecraft"@, t) == "마인크래프트"@ + " 실행 중"@,
        exe_display("minecraftlauncher"@, t) == "마인크래프트"@ + " 실행 중"@,
        exe_display("notepad"@, t) == "메모장"@ + " 실행 중"@,
        exe_display("notepad++"@, t) == "Notepad++"@ + " 실행 중"@,
        exe_display("obs"@, t) == "OBS"@ + " 실행 중"@,
        exe_display("obs32"@, t) == "OBS"@ + " 실행 중"@,
        exe_display("obs64"@, t) == "OBS"@ + " 실행 중"@,
        exe_display("powershell"@, t) == "PowerShell"@ + " 실행 중"@,
        exe_display("pycharm"@, t) == "PyCharm"@ + " 실행 중"@,
        exe_display("pycharm64"@, t) == "PyCharm"@ + " 실행 중"@,
        exe_display("slack"@, t) == "Slack"@ + " 실행 중"@,
        exe_display("spotify"@, t) == "Spotify"@ + " 실행 중"@,
        exe_display("steam"@, t) == "Steam"@ + " 실행 중"@,
        exe_display("terminal"@, t) == "터미널"@ + " 실행 중"@,
        exe_display("vlc"@, t) == "VLC"@ + " 실행 중"@,
        exe_display("webstorm"@, t) == "WebStorm"@ + " 실행 중"@,
        exe_display("webstorm64"@, t) == "WebStorm"@ + " 실행 중"@,
        exe_display("windowsterminal"@, t) == "터미널"@ + " 실행 중"@,
        exe_display("zoom"@, t) == "Zoom"@ + " 실행 중"@,
{
    reveal_strlit("brave");
    assert("brave"@.len() == 5);
    reveal_strlit("chrome");
    assert("chrome"@.len() == 6);
    reveal_strlit("clion");
    assert("clion"@.len() == 5);
    reveal_strlit("clion64");
    assert("clion64"@.len() == 7);
    reveal_strlit("cmd");
    assert("cmd"@.len() == 3);
    reveal_strlit("code");
    assert("code"@.len() == 4);
    reveal_strlit("devenv");
    assert("devenv"@.len() == 6);
    reveal_strlit("discord");
    assert("discord"@.len() == 7);
    reveal_strlit("explorer");
    assert("explorer"@.len() == 8);
    reveal_strlit("firefox");
    assert("firefox"@.len() == 7);
    reveal_strlit("idea");
    assert("idea"@.len() == 4);
    reveal_strlit("idea64");
    assert("idea64"@.len() == 6);
    reveal_strlit("javaw");
    assert("javaw"@.len() == 5);
    reveal_strlit("kakaotalk");
    assert("kakaotalk"@.len() == 9);
    reveal_strlit("minecraft");
    assert("minecraft"@.len() == 9);
    reveal_strlit("minecraftlauncher");
    assert("minecraftlauncher"@.len() == 17);
    reveal_strlit("msedge");
    assert("msedge"@.len() == 6);
    reveal_strlit("notepad");
    assert("notepad"@.len() == 7);
    reveal_strlit("notepad++");
    assert("notepad++"@.len() == 9);
    reveal_strlit("obs");
    assert("obs"@.len() == 3);
    reveal_strlit("obs32");
    assert("obs32"@.len() == 5);
    reveal_strlit("obs64");
    assert("obs64"@.len() == 5);
    reveal_strlit("opera");
    assert("opera"@.len() == 5);
    reveal_strlit("powershell");
    assert("powershell"@.len() == 10);
    reveal_strlit("pycharm");
    assert("pycharm"@.len() == 7);
    reveal_strlit("pycharm64");
    assert("pycharm64"@.len() == 9);
    reveal_strlit("slack");
    assert("slack"@.len() == 5);
    reveal_strlit("spotify");
    assert("spotify"@.len() == 7);
    reveal_strlit("steam");
    assert("steam"@.len() == 5);
    reveal_strlit("terminal");
    assert("terminal"@.len() == 8);
    reveal_strlit("vivaldi");
    assert("vivaldi"@.len() == 7);
    reveal_strlit("vlc");
    assert("vlc"@.len() == 3);
    reveal_strlit("webstorm");
    assert("webstorm"@.len() == 8);
    reveal_strlit("webstorm64");
    assert("webstorm64"@.len() == 10);
    reveal_strlit("whale");
    assert("whale"@.len() == 5);
    reveal_strlit("windowsterminal");
    assert("windowsterminal"@.len() == 15);
    reveal_strlit("zoom");
    assert("zoom"@.len() == 4);
    assert("clion"@[0] != "brave"@[0]);
    assert("clion"@[0] != "opera"@[0]);
    assert("clion"@[0] != "whale"@[0]);
    assert("clion64"@[0] != "firefox"@[0]);
    assert("clion64"@[0] != "pycharm"@[0]);
    assert("clion64"@[0] != "vivaldi"@[0]);
    assert("cmd"@[0] != "obs"@[0]);
    assert("cmd"@[0] != "vlc"@[0]);
    assert("code"@[0] != "idea"@[0]);
    assert("devenv"@[0] != "chrome"@[0]);
    assert("devenv"@[0] != "idea64"@[0]);
    assert("devenv"@[0] != "msedge"@[0]);
    assert("discord"@[0] != "clion64"@[0]);
    assert("discord"@[0] != "firefox"@[0]);
    assert("discord"@[0] != "pycharm"@[0]);
    assert("discord"@[0] != "vivaldi"@[0]);
    assert("explorer"@[0] != "webstorm"@[0]);
    assert("idea64"@[0] != "chrome"@[0]);
    assert("idea64"@[0] != "msedge"@[0]);
    assert("javaw"@[0] != "brave"@[0]);
    assert("javaw"@[0] != "clion"@[0]);
    assert("javaw"@[0] != "obs32"@[0]);
    assert("javaw"@[0] != "obs64"@[0]);
    assert("javaw"@[0] != "opera"@[0]);
    assert("javaw"@[0] != "slack"@[0]);
    assert("javaw"@[0] != "steam"@[0]);
    assert("javaw"@[0] != "whale"@[0]);
    assert("kakaotalk"@[0] != "minecraft"@[0]);
    assert("kakaotalk"@[0] != "notepad++"@[0]);
    assert("kakaotalk"@[0] != "pycharm64"@[0]);
    assert("minecraft"@[0] != "notepad++"@[0]);
    assert("minecraft"@[0] != "pycharm64"@[0]);
    assert("notepad"@[0] != "clion64"@[0]);
    assert("notepad"@[0] != "discord"@[0]);
    assert("notepad"@[0] != "firefox"@[0]);
    assert("notepad"@[0] != "pycharm"@[0]);
    assert("notepad"@[0] != "spotify"@[0]);
    assert("notepad"@[0] != "vivaldi"@[0]);
    assert("notepad++"@[0] != "pycharm64"@[0]);
    assert("obs"@[0] != "vlc"@[0]);
    assert("obs32"@[0] != "brave"@[0]);
    assert("obs32"@[0] != "clion"@[0]);
    assert("obs32"@[0] != "slack"@[0]);
    assert("obs32"@[0] != "whale"@[0]);
    assert("obs32"@[1] != "opera"@[1]);
    assert("obs32"@[3] != "obs64"@[3]);
    assert("obs64"@[0] != "brave"@[0]);
    assert("obs64"@[0] != "clion"@[0]);
    assert("obs64"@[0] != "slack"@[0]);
    assert("obs64"@[0] != "whale"@[0]);
    assert("obs64"@[1] != "opera"@[1]);
    assert("powershell"@[0] != "webstorm64"@[0]);
    assert("pycharm"@[0] != "firefox"@[0]);
    assert("pycharm"@[0] != "vivaldi"@[0]);
    assert("slack"@[0] != "brave"@[0]);
    assert("slack"@[0] != "clion"@[0]);
    assert("slack"@[0] != "opera"@[0]);
    assert("slack"@[0] != "whale"@[0]);
    assert("spotify"@[0] != "clion64"@[0]);
    assert("spotify"@[0] != "discord"@[0]);
    assert("spotify"@[0] != "firefox"@[0]);
    assert("spotify"@[0] != "pycharm"@[0]);
    assert("spotify"@[0] != "vivaldi"@[0]);
    assert("steam"@[0] != "brave"@[0]);
    assert("steam"@[0] != "clion"@[0]);
    assert("steam"@[0] != "obs32"@[0]);
    assert("steam"@[0] != "obs64"@[0]);
    assert("steam"@[0] != "opera"@[0]);
    assert("steam"@[0] != "whale"@[0]);
    assert("steam"@[1] != "slack"@[1]);
    assert("terminal"@[0] != "explorer"@[0]);
    assert("terminal"@[0] != "webstorm"@[0]);
    assert("zoom"@[0] != "code"@[0]);
    assert("zoom"@[0] != "idea"@[0]);
}

/// Any other executable that is not a browser gets its name with the first
/// character upper-cased, followed by " 실행 중".
pub proof fn law_unknown_program(exe: Seq<char>, t: Seq<char>)
    requires
        exe != "brave"@,
        exe != "chrome"@,
        exe != "clion"@,
        exe != "clion64"@,
        exe != "cmd"@,
        exe != "code"@,
        exe != "devenv"@,
        exe != "discord"@,
        exe != "explorer"@,
        exe != "firefox"@,
        exe != "idea"@,
        exe != "idea64"@,
        exe != "javaw"@,
        exe != "kakaotalk"@,
        exe != "minecraft"@,
        exe != "minecraftlauncher"@,
        exe != "msedge"@,
        exe != "notepad"@,
        exe != "notepad++"@,
        exe != "obs"@,
        exe != "obs32"@,
        exe != "obs64"@,
        exe != "opera"@,
        exe != "powershell"@,
        exe != "pycharm"@,
        exe != "pycharm64"@,
        exe != "slack"@,
        exe != "spotify"@,
        exe != "steam"@,
        exe != "terminal"@,
        exe != "vivaldi"@,
        exe != "vlc"@,
        exe != "webstorm"@,
        exe != "webstorm64"@,
        exe != "whale"@,
        exe != "windowsterminal"@,
        exe != "zoom"@,
    ensures
        exe_display(exe, t) == capitalized(exe) + " 실행 중"@,
{
}

/// In a browser, the lower-cased window title decides the label: the first of
/// YouTube, Netflix, Twitch, GitHub, Notion and Figma that it mentions.
pub proof fn law_browser_sites(exe: Seq<char>, t: Seq<char>)
    requires
        exe == "chrome"@ || exe == "msedge"@ || exe == "firefox"@ || exe == "whale"@ || exe == "opera"@ || exe == "brave"@ || exe == "vivaldi"@,
    ensures
        contains_sub(lowercased(t), "youtube"@)
            ==> exe_display(exe, t) == "유튜브 시청 중"@,
        !contains_sub(lowercased(t), "youtube"@) && contains_sub(lowercased(t), "netflix"@)
            ==> exe_display(exe, t) == "넷플릭스 시청 중"@,
        !contains_sub(lowercased(t), "youtube"@) && !contains_sub(lowercased(t), "netflix"@) && contains_sub(lowercased(t), "twitch"@)
            ==> exe_display(exe, t) == "트위치 시청 중"@,
        !contains_sub(lowercased(t), "youtube"@) && !contains_sub(lowercased(t), "netflix"@) && !contains_sub(lowercased(t), "twitch"@) && contains_sub(lowercased(t), "github"@)
            ==> exe_display(exe, t) == "GitHub 보는 중"@,
        !contains_sub(lowercased(t), "youtube"@) && !contains_sub(lowercased(t), "netflix"@) && !contains_sub(lowercased(t), "twitch"@) && !contains_sub(lowercased(t), "github"@) && contains_sub(lowercased(t), "notion"@)
            ==> exe_display(exe, t) == "Notion 작업 중"@,
        !contains_sub(lowercased(t), "youtube"@) && !contains_sub(lowercased(t), "netflix"@) && !contains_sub(lowercased(t), "twitch"@) && !contains_sub(lowercased(t), "github"@) && !contains_sub(lowercased(t), "notion"@) && contains_sub(lowercased(t), "figma"@)
            ==> exe_display(exe, t) == "Figma 작업 중"@,
{
}

/// In a browser whose title mentions none of those sites, the label is the
/// browser's name followed by " 실행 중".
pub proof fn law_browser_names(t: Seq<char>)
    requires
        !contains_sub(lowercased(t), "youtube"@),
        !contains_sub(lowercased(t), "netflix"@),
        !contains_sub(lowercased(t), "twitch"@),
        !contains_sub(lowercased(t), "github"@),
        !contains_sub(lowercased(t), "notion"@),
        !contains_sub(lowercased(t), "figma"@),
    ensures
        exe_display("brave"@, t) == "Brave"@ + " 실행 중"@,
        exe_display("chrome"@, t) == "Chrome"@ + " 실행 중"@,
        exe_display("firefox"@, t) == "Firefox"@ + " 실행 중"@,
        exe_display("msedge"@, t) == "Edge"@ + " 실행 중"@,
        exe_display("opera"@, t) == "Opera"@ + " 실행 중"@,
        exe_display("vivaldi"@, t) == "브라우저"@ + " 실행 중"@,
        exe_display("whale"@, t) == "Whale"@ + " 실행 중"@,
{
    reveal_strlit("brave");
    assert("brave"@.len() == 5);
    reveal_strlit("chrome");
    assert("chrome"@.len() == 6);
    reveal_strlit("firefox");
    assert("firefox"@.len() == 7);
    reveal_strlit("msedge");
    assert("msedge"@.len() == 6);
    reveal_strlit("opera");
    assert("opera"@.len() == 5);
    reveal_strlit("vivaldi");
    assert("vivaldi"@.len() == 7);
    reveal_strlit("whale");
    assert("whale"@.len() == 5);
    assert("brave"@[0] != "opera"@[0]);
    assert("brave"@[0] != "whale"@[0]);
    assert("chrome"@[0] != "msedge"@[0]);
    assert("firefox"@[0] != "vivaldi"@[0]);
    assert("msedge"@[0] != "chrome"@[0]);
    assert("opera"@[0] != "brave"@[0]);
    assert("opera"@[0] != "whale"@[0]);
    assert("vivaldi"@[0] != "firefox"@[0]);
    assert("whale"@[0] != "brave"@[0]);
    assert("whale"@[0] != "opera"@[0]);
}

/// A macOS application whose lower-cased name is in the fixed table gets the
/// table's label; a browser gets its own name followed by " 실행 중".
pub proof fn law_macos_labels(n: Seq<char>)
    ensures
        macos_display(n, "arc"@) == n + " 실행 중"@,
        macos_display(n, "brave"@) == n + " 실행 중"@,
        macos_display(n, "chrome"@) == n + " 실행 중"@,
        macos_display(n, "code"@) == "VS Code 작업 중"@,
        macos_display(n, "discord"@) == "Discord 중"@,
        macos_display(n, "figma"@) == "Figma 작업 중"@,
        macos_display(n, "finder"@) == "파인더 사용 중"@,
        macos_display(n, "firefox"@) == n + " 실행 중"@,
        macos_display(n, "intellij idea"@) == "IntelliJ IDEA 작업 중"@,
        macos_display(n, "iterm2"@) == "터미널 중"@,
        macos_display(n, "notion"@) == "Notion 작업 중"@,
        macos_display(n, "obs"@) == "OBS 중"@,
        macos_display(n, "opera"@) == n + " 실행 중"@,
        macos_display(n, "pycharm"@) == "PyCharm 작업 중"@,
        macos_display(n, "safari"@) == n + " 실행 중"@,
        macos_display(n, "slack"@) == "Slack 중"@,
        macos_display(n, "spotify"@) == "Spotify 듣는 중"@,
        macos_display(n, "steam"@) == "Steam 중"@,
        macos_display(n, "terminal"@) == "터미널 중"@,
        macos_display(n, "visual studio code"@) == "VS Code 작업 중"@,
        macos_display(n, "warp"@) == "터미널 중"@,
        macos_display(n, "webstorm"@) == "WebStorm 작업 중"@,
        macos_display(n, "whale"@) == n + " 실행 중"@,
        macos_display(n, "xcode"@) == "Xcode 작업 중"@,
        macos_display(n, "zoom"@) == "Zoom 중"@,
{
    reveal_strlit("arc");
    assert("arc"@.len() == 3);
    reveal_strlit("brave");
    assert("brave"@.len() == 5);
    reveal_strlit("chrome");
    assert("chrome"@.len() == 6);
    reveal_strlit("code");
    assert("code"@.len() == 4);
    reveal_strlit("discord");
    assert("discord"@.len() == 7);
    reveal_strlit("figma");
    assert("figma"@.len() == 5);
    reveal_strlit("finder");
    assert("finder"@.len() == 6);
    reveal_strlit("firefox");
    assert("firefox"@.len() == 7);
    reveal_strlit("intellij idea");
    assert("intellij idea"@.len() == 13);
    reveal_strlit("iterm2");
    assert("iterm2"@.len() == 6);
    reveal_strlit("notion");
    assert("notion"@.len() == 6);
    reveal_strlit("obs");
    assert("obs"@.len() == 3);
    reveal_strlit("opera");
    assert("opera"@.len() == 5);
    reveal_strlit("pycharm");
    assert("pycharm"@.len() == 7);
    reveal_strlit("safari");
    assert("safari"@.len() == 6);
    reveal_strlit("slack");
    assert("slack"@.len() == 5);
    reveal_strlit("spotify");
    assert("spotify"@.len() == 7);
    reveal_strlit("steam");
    assert("steam"@.len() == 5);
    reveal_strlit("terminal");
    assert("terminal"@.len() == 8);
    reveal_strlit("visual studio code");
    assert("visual studio code"@.len() == 18);
    reveal_strlit("warp");
    assert("warp"@.len() == 4);
    reveal_strlit("webstorm");
    assert("webstorm"@.len() == 8);
    reveal_strlit("whale");
    assert("whale"@.len() == 5);
    reveal_strlit("xcode");
    assert("xcode"@.len() == 5);
    reveal_strlit("zoom");
    assert("zoom"@.len() == 4);
    assert("arc"@[0] != "obs"@[0]);
    assert("brave"@[0] != "figma"@[0]);
    assert("brave"@[0] != "slack"@[0]);
    assert("brave"@[0] != "steam"@[0]);
    assert("brave"@[0] != "xcode"@[0]);
    assert("chrome"@[0] != "finder"@[0]);
    assert("chrome"@[0] != "iterm2"@[0]);
    assert("chrome"@[0] != "notion"@[0]);
    assert("discord"@[0] != "pycharm"@[0]);
    assert("figma"@[0] != "slack"@[0]);
    assert("figma"@[0] != "steam"@[0]);
    assert("figma"@[0] != "xcode"@[0]);
    assert("firefox"@[0] != "discord"@[0]);
    assert("firefox"@[0] != "pycharm"@[0]);
    assert("firefox"@[0] != "spotify"@[0]);
    assert("iterm2"@[0] != "finder"@[0]);
    assert("notion"@[0] != "finder"@[0]);
    assert("notion"@[0] != "iterm2"@[0]);
    assert("opera"@[0] != "figma"@[0]);
    assert("opera"@[0] != "slack"@[0]);
    assert("opera"@[0] != "steam"@[0]);
    assert("opera"@[0] != "xcode"@[0]);
    assert("safari"@[0] != "finder"@[0]);
    assert("safari"@[0] != "iterm2"@[0]);
    assert("safari"@[0] != "notion"@[0]);
    assert("slack"@[0] != "xcode"@[0]);
    assert("spotify"@[0] != "discord"@[0]);
    assert("spotify"@[0] != "pycharm"@[0]);
    assert("steam"@[0] != "xcode"@[0]);
    assert("steam"@[1] != "slack"@[1]);
    assert("terminal"@[0] != "webstorm"@[0]);
    assert("warp"@[0] != "code"@[0]);
    assert("warp"@[0] != "zoom"@[0]);
    assert("whale"@[0] != "figma"@[0]);
    assert("whale"@[0] != "slack"@[0]);
    assert("whale"@[0] != "steam"@[0]);
    assert("whale"@[0] != "xcode"@[0]);
    assert("zoom"@[0] != "code"@[0]);
}

/// Any other macOS application gets its name followed by " 실행 중".
pub proof fn law_macos_other(n: Seq<char>, lower: Seq<char>)
    requires
        lower != "code"@,
        lower != "discord"@,
        lower != "figma"@,
        lower != "finder"@,
        lower != "intellij idea"@,
        lower != "iterm2"@,
        lower != "notion"@,
        lower != "obs"@,
        lower != "pycharm"@,
        lower != "slack"@,
        lower != "spotify"@,
        lower != "steam"@,
        lower != "terminal"@,
        lower != "visual studio code"@,
        lower != "warp"@,
        lower != "webstorm"@,
        lower != "xcode"@,
        lower != "zoom"@,
    ensures
        macos_display(n, lower) == n + " 실행 중"@,
{
}

/// Capitalising upper-cases the first character and keeps the rest; the
/// empty name stays empty.
pub proof fn law_capitalized(s: Seq<char>)
    ensures
        s.len() == 0 ==> capitalized(s).len() == 0,
        s.len() > 0 ==> capitalized(s) == uppercased_char(s[0]) + s.subrange(1, s.len() as int),
{
    if s.len() > 0 {
        assert(s.drop_first() =~= s.subrange(1, s.len() as int));
    }
}

/// The executable of an image path is the file name after the last `\`,
/// lower-cased, with the trailing `.exe` removed.
pub proof fn law_exe_of_path(dir: Seq<char>, file: Seq<char>)
    requires
        forall|i: int| 0 <= i < file.len() ==> file[i] != '\\',
    ensures
        last_segment(dir + seq!['\\'] + file, '\\') == file,
        exe_of_path(dir + seq!['\\'] + file) == trim_end_all(lowercased(file), seq!['.', 'e', 'x', 'e']),
    decreases file.len(),
{
    reveal_strlit(".exe");
    assert(".exe"@ =~= seq!['.', 'e', 'x', 'e']);
    let p = dir + seq!['\\'] + file;
    if file.len() == 0 {
        assert(p.last() == '\\');
    } else {
        let f0 = file.drop_last();
        assert forall|i: int| 0 <= i < f0.len() implies f0[i] != '\\' by {
            assert(f0[i] == file[i]);
        }
        law_exe_of_path(dir, f0);
        assert(p.drop_last() =~= dir + seq!['\\'] + f0);
        assert(p.last() == file.last());
        assert(f0.push(file.last()) =~= file);
    }
}

/// Removing the `.exe` suffixes removes every trailing copy and nothing else:
/// what is left does not end with `.exe`, and a name that does not end with
/// `.exe` is kept.
pub proof fn law_trim_exe(name: Seq<char>)
    ensures
        !has_suffix(trim_end_all(name, seq!['.', 'e', 'x', 'e']), seq!['.', 'e', 'x', 'e']),
        trim_end_all(name + seq!['.', 'e', 'x', 'e'], seq!['.', 'e', 'x', 'e']) == trim_end_all(name, seq!['.', 'e', 'x', 'e']),
        !has_suffix(name, seq!['.', 'e', 'x', 'e']) ==> trim_end_all(name, seq!['.', 'e', 'x', 'e']) == name,
    decreases name.len(),
{
    let x = seq!['.', 'e', 'x', 'e'];
    let n2 = name + x;
    assert(n2.skip(n2.len() - 4) =~= x);
    assert(n2.take(n2.len() - 4) =~= name);
    if has_suffix(name, x) {
        law_trim_exe(name.take(name.len() - 4));
    }
}

/// Nothing learned gives "접속 중"; a macOS application without a name gives
/// "앱 사용 중".
pub proof fn law_active_app_fallbacks()
    ensures
        active_app_label(ForegroundWindow::Unknown) == "접속 중"@,
        active_app_label(ForegroundWindow::MacOs { app_name: None }) == "앱 사용 중"@,
        forall|s: String| s@.len() == 0 ==> active_app_label(ForegroundWindow::MacOs { app_name: Some(s) }) == "앱 사용 중"@,
{
}

} // verus!
