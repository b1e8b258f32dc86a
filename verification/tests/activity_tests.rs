use together::activity::{
    browser_activity, capitalize_first, exe_name_of_path, exe_to_app_name, get_active_app_internal,
    macos_activity, macos_app_to_display, strip_exe_suffix, ForegroundWindow,
};

#[test]
fn macos_known_apps() {
    assert_eq!(macos_app_to_display("Xcode"), "Xcode 작업 중");
    assert_eq!(macos_app_to_display("Visual Studio Code"), "VS Code 작업 중");
    assert_eq!(macos_app_to_display("Code"), "VS Code 작업 중");
    assert_eq!(macos_app_to_display("IntelliJ IDEA"), "IntelliJ IDEA 작업 중");
    assert_eq!(macos_app_to_display("Spotify"), "Spotify 듣는 중");
    assert_eq!(macos_app_to_display("Finder"), "파인더 사용 중");
    assert_eq!(macos_app_to_display("iTerm2"), "터미널 중");
    assert_eq!(macos_app_to_display("Warp"), "터미널 중");
    assert_eq!(macos_app_to_display("Figma"), "Figma 작업 중");
}

#[test]
fn macos_browsers_and_others_are_running() {
    assert_eq!(macos_app_to_display("Safari"), "Safari 실행 중");
    assert_eq!(macos_app_to_display("Google Chrome"), "Google Chrome 실행 중");
    assert_eq!(macos_app_to_display("Arc"), "Arc 실행 중");
    assert_eq!(macos_app_to_display("Preview"), "Preview 실행 중");
}

#[test]
fn macos_activity_takes_the_lowercased_name() {
    assert_eq!(macos_activity("XCODE", "xcode"), "Xcode 작업 중");
    assert_eq!(macos_activity("Xcode", "Xcode"), "Xcode 실행 중");
}

#[test]
fn windows_browser_sites() {
    assert_eq!(exe_to_app_name("chrome", "Lofi - YouTube - Google Chrome"), "유튜브 시청 중");
    assert_eq!(exe_to_app_name("msedge", "Netflix"), "넷플릭스 시청 중");
    assert_eq!(exe_to_app_name("firefox", "streamer - Twitch"), "트위치 시청 중");
    assert_eq!(exe_to_app_name("whale", "GitHub - repo"), "GitHub 보는 중");
    assert_eq!(exe_to_app_name("opera", "My page - Notion"), "Notion 작업 중");
    assert_eq!(exe_to_app_name("brave", "FIGMA file"), "Figma 작업 중");
    // YouTube wins over GitHub when both occur.
    assert_eq!(exe_to_app_name("chrome", "github on youtube"), "유튜브 시청 중");
}

#[test]
fn windows_browser_names() {
    assert_eq!(exe_to_app_name("chrome", "New Tab"), "Chrome 실행 중");
    assert_eq!(exe_to_app_name("msedge", ""), "Edge 실행 중");
    assert_eq!(exe_to_app_name("firefox", "x"), "Firefox 실행 중");
    assert_eq!(exe_to_app_name("whale", "x"), "Whale 실행 중");
    assert_eq!(exe_to_app_name("opera", "x"), "Opera 실행 중");
    assert_eq!(exe_to_app_name("brave", "x"), "Brave 실행 중");
    assert_eq!(exe_to_app_name("vivaldi", "x"), "브라우저 실행 중");
}

#[test]
fn browser_activity_takes_the_lowercased_title() {
    assert_eq!(browser_activity("chrome", "youtube"), "유튜브 시청 중");
    assert_eq!(browser_activity("chrome", "YouTube"), "Chrome 실행 중");
}

#[test]
fn windows_known_programs() {
    assert_eq!(exe_to_app_name("idea64", ""), "IntelliJ IDEA 실행 중");
    assert_eq!(exe_to_app_name("code", "main.rs"), "VS Code 실행 중");
    assert_eq!(exe_to_app_name("notepad", ""), "메모장 실행 중");
    assert_eq!(exe_to_app_name("notepad++", ""), "Notepad++ 실행 중");
    assert_eq!(exe_to_app_name("obs32", ""), "OBS 실행 중");
    assert_eq!(exe_to_app_name("minecraftlauncher", ""), "마인크래프트 실행 중");
    assert_eq!(exe_to_app_name("windowsterminal", ""), "터미널 실행 중");
    assert_eq!(exe_to_app_name("cmd", ""), "명령 프롬프트 실행 중");
    assert_eq!(exe_to_app_name("kakaotalk", ""), "카카오톡 실행 중");
}

#[test]
fn windows_unknown_programs_are_capitalized() {
    assert_eq!(exe_to_app_name("photoshop", "YouTube"), "Photoshop 실행 중");
    assert_eq!(exe_to_app_name("", ""), " 실행 중");
    assert_eq!(exe_to_app_name("ßtool", ""), "SStool 실행 중");
}

#[test]
fn capitalize_first_cases() {
    assert_eq!(capitalize_first(""), "");
    assert_eq!(capitalize_first("steam"), "Steam");
    assert_eq!(capitalize_first("Steam"), "Steam");
    assert_eq!(capitalize_first("ß"), "SS");
    assert_eq!(capitalize_first("éa"), "Éa");
    assert_eq!(capitalize_first("1abc"), "1abc");
}

#[test]
fn exe_names_from_paths() {
    assert_eq!(exe_name_of_path("C:\\Program Files\\Google\\Chrome\\Application\\chrome.exe"), "chrome");
    assert_eq!(exe_name_of_path("C:\\Tools\\MyApp.EXE"), "myapp");
    assert_eq!(exe_name_of_path("C:\\Tools\\weird.exe.exe"), "weird");
    assert_eq!(exe_name_of_path("tool"), "tool");
    assert_eq!(strip_exe_suffix("app.exe"), "app");
    assert_eq!(strip_exe_suffix("App.EXE"), "App.EXE");
}

#[test]
fn active_app_from_windows_probe() {
    let w = ForegroundWindow::Windows {
        image_path: "C:\\Program Files\\Google\\Chrome\\Application\\CHROME.EXE".to_string(),
        title: "Pull requests · GitHub".to_string(),
    };
    assert_eq!(get_active_app_internal(w), "GitHub 보는 중");
    let w = ForegroundWindow::Windows {
        image_path: "C:\\Windows\\System32\\notepad.exe".to_string(),
        title: "memo.txt - Notepad".to_string(),
    };
    assert_eq!(get_active_app_internal(w), "메모장 실행 중");
    let w = ForegroundWindow::Windows {
        image_path: "D:\\Games\\game.exe".to_string(),
        title: String::new(),
    };
    assert_eq!(get_active_app_internal(w), "Game 실행 중");
}

#[test]
fn active_app_from_macos_probe() {
    let w = ForegroundWindow::MacOs { app_name: Some("Slack".to_string()) };
    assert_eq!(get_active_app_internal(w), "Slack 중");
    let w = ForegroundWindow::MacOs { app_name: Some(String::new()) };
    assert_eq!(get_active_app_internal(w), "앱 사용 중");
    let w = ForegroundWindow::MacOs { app_name: None };
    assert_eq!(get_active_app_internal(w), "앱 사용 중");
}

#[test]
fn active_app_unknown() {
    assert_eq!(get_active_app_internal(ForegroundWindow::Unknown), "접속 중");
}
