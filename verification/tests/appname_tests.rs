use klyppd::appname::{
    active_window_class, desktop_entry_name, extract_json_string, is_desktop_file, pretty_app_name,
    sanitize,
};

#[test]
fn json_strings_by_text_search() {
    assert_eq!(extract_json_string(r#"{"class": "firefox", "title": "x"}"#, "class"), Some("firefox".to_string()));
    assert_eq!(extract_json_string(r#"{"class":"a"}"#, "class"), Some("a".to_string()));
    assert_eq!(extract_json_string(r#"{"title":"a"}"#, "class"), None);
    assert_eq!(extract_json_string(r#"{"class": 5}"#, "class"), None);
    assert_eq!(extract_json_string(r#"{"class": "open"#, "class"), None);
}

#[test]
fn active_window() {
    assert_eq!(active_window_class(br#"{"class": "org.vinegarhq.Sober"}"#), Some("org.vinegarhq.Sober".to_string()));
    assert_eq!(active_window_class(br#"{"class": ""}"#), None);
    assert_eq!(active_window_class(b"{}"), None);
}

#[test]
fn application_names() {
    assert_eq!(pretty_app_name("org.vinegarhq.Sober", None), "Sober");
    assert_eq!(pretty_app_name("com.spotify.Client", None), "Spotify");
    assert_eq!(pretty_app_name("firefox", Some("Firefox Web Browser")), "FirefoxWebBrowser");
    assert_eq!(pretty_app_name("app.main", None), "Appmain");
    assert_eq!(pretty_app_name("", None), "Clip");
}

#[test]
fn sanitizing() {
    assert_eq!(sanitize(""), "Clip");
    assert_eq!(sanitize("!!!"), "Clip");
    assert_eq!(sanitize("über-app_1"), "Über-app_1");
    assert_eq!(sanitize(&"x".repeat(40)), format!("X{}", "x".repeat(31)));
    assert_eq!(sanitize("ßtraße"), "SStraße");
}

#[test]
fn desktop_entries() {
    assert!(is_desktop_file("/usr/share/applications/firefox.desktop"));
    assert!(!is_desktop_file("/usr/share/applications/firefox.txt"));
    let text = "[Desktop Entry]\nName=Firefox\nName[de]=Feuerfuchs\n";
    assert_eq!(desktop_entry_name("/a/firefox.desktop", text, "Firefox"), Some("Firefox".to_string()));
    assert_eq!(desktop_entry_name("/a/other.desktop", text, "Firefox"), None);
    let wm = "[Desktop Entry]\nStartupWMClass= Sober \nName=  Sober Roblox  \n";
    assert_eq!(desktop_entry_name("/a/x.desktop", wm, "sober"), Some("Sober Roblox".to_string()));
    assert_eq!(desktop_entry_name("/a/sober.desktop", "[Desktop Entry]\n", "Sober"), None);
}
