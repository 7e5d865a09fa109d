use ytdlp_queue::desktop::{
    browser_probes, get_available_browsers, set_minimize_to_tray, tray_menu_action, ClosePlan,
    ShellAction,
};

#[test]
fn closing_plans() {
    assert_eq!(set_minimize_to_tray(true, true), ClosePlan { remember: Some(true), action: ShellAction::HideWindow });
    assert_eq!(set_minimize_to_tray(true, false), ClosePlan { remember: None, action: ShellAction::HideWindow });
    assert_eq!(set_minimize_to_tray(false, true), ClosePlan { remember: Some(false), action: ShellAction::Quit });
    assert_eq!(set_minimize_to_tray(false, false), ClosePlan { remember: None, action: ShellAction::Quit });
}

#[test]
fn tray_menu_entries() {
    assert_eq!(tray_menu_action("show"), Some(ShellAction::ShowWindow));
    assert_eq!(tray_menu_action("quit"), Some(ShellAction::Quit));
    assert_eq!(tray_menu_action("Quit"), None);
    assert_eq!(tray_menu_action(""), None);
}

#[test]
fn probes_per_operating_system() {
    let win = browser_probes("windows");
    let names: Vec<&str> = win.iter().map(|p| p.name.as_str()).collect();
    assert_eq!(names, vec!["chrome", "chrome", "firefox", "firefox", "edge", "brave"]);
    assert_eq!(win[1].path, "C:\\Program Files (x86)\\Google\\Chrome\\Application\\chrome.exe");
    assert_eq!(win[4].path, "C:\\Program Files (x86)\\Microsoft\\Edge\\Application\\msedge.exe");
    let mac = browser_probes("macos");
    let names: Vec<&str> = mac.iter().map(|p| p.name.as_str()).collect();
    assert_eq!(names, vec!["chrome", "firefox", "safari", "brave", "edge"]);
    assert_eq!(mac[2].path, "/Applications/Safari.app");
    assert!(browser_probes("linux").is_empty());
}

#[test]
fn windows_browsers_are_listed_once() {
    assert_eq!(get_available_browsers("windows", &vec![true, true, false, true, false, true]), vec!["chrome", "firefox", "brave"]);
    assert_eq!(get_available_browsers("windows", &vec![false, true, true, true, true, false]), vec!["chrome", "firefox", "edge"]);
    assert!(get_available_browsers("windows", &vec![false; 6]).is_empty());
    assert!(get_available_browsers("windows", &vec![]).is_empty());
    assert_eq!(get_available_browsers("windows", &vec![true]), vec!["chrome"]);
    assert_eq!(get_available_browsers("windows", &vec![true; 9]), vec!["chrome", "firefox", "edge", "brave"]);
}

#[test]
fn macos_browsers_follow_the_probes() {
    assert_eq!(get_available_browsers("macos", &vec![false, true, true, false, true]), vec!["firefox", "safari", "edge"]);
    assert_eq!(get_available_browsers("macos", &vec![true; 5]), vec!["chrome", "firefox", "safari", "brave", "edge"]);
}

#[test]
fn other_systems_offer_the_usual_browsers() {
    assert_eq!(get_available_browsers("linux", &vec![]), vec!["chrome", "chromium", "firefox", "brave"]);
    assert_eq!(get_available_browsers("freebsd", &vec![false, false]), vec!["chrome", "chromium", "firefox", "brave"]);
}
