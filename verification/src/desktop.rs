//! Decisions of the desktop shell: what closing the window does, what a
//! tray menu entry does, and which browsers can lend their cookies.

use vstd::prelude::*;
use vstd::string::StringExecFns;
use crate::text::{text_eq, texts};

verus! {

/// What the shell does with the window.
#[derive(Clone, Copy, Debug, PartialEq, Eq, Structural)]
pub enum ShellAction {
    /// Bring the main window back and focus it.
    ShowWindow,
    /// Hide the main window and keep running in the tray.
    HideWindow,
    /// Cancel every download and exit.
    Quit,
}

/// What follows from the user's answer to "minimize to tray?".
#[derive(Clone, Copy, Debug, PartialEq, Eq, Structural)]
pub struct ClosePlan {
    /// The choice to store as the setting, if the user wants it remembered.
    pub remember: Option<bool>,
    pub action: ShellAction,
}

/// Plans the closing of the window: the choice is stored only if it is to
/// be remembered; minimizing hides the window, anything else quits.
pub fn set_minimize_to_tray(minimize: bool, remember: bool) -> (plan: ClosePlan)
    ensures
        plan.remember == if remember {
            Some(minimize)
        } else {
            None::<bool>
        },
        plan.action == if minimize {
            ShellAction::HideWindow
        } else {
            ShellAction::Quit
        },
{
    ClosePlan {
        remember: if remember {
            Some(minimize)
        } else {
            None
        },
        action: if minimize {
            ShellAction::HideWindow
        } else {
            ShellAction::Quit
        },
    }
}

/// What the tray menu entry with the given id does.
pub open spec fn menu_action_of(id: Seq<char>) -> Option<ShellAction> {
    if id == "show"@ {
        Some(ShellAction::ShowWindow)
    } else if id == "quit"@ {
        Some(ShellAction::Quit)
    } else {
        None
    }
}

/// What the tray menu entry with the given id does: `show` brings the
/// window back, `quit` quits, any other id does nothing.
pub fn tray_menu_action(id: &str) -> (action: Option<ShellAction>)
    ensures
        action == menu_action_of(id@),
{
    if text_eq(id, "show") {
        Some(ShellAction::ShowWindow)
    } else if text_eq(id, "quit") {
        Some(ShellAction::Quit)
    } else {
        None
    }
}

/// A place where a browser is installed, if it is.
#[derive(Debug, PartialEq, Eq)]
pub struct BrowserProbe {
    /// Name under which the downloader knows the browser.
    pub name: String,
    /// Path that exists if the browser is installed.
    pub path: String,
}

/// Names of the probes of an operating system, in probing order.
pub open spec fn probe_names(os: Seq<char>) -> Seq<Seq<char>> {
    if os == "windows"@ {
        seq!["chrome"@, "chrome"@, "firefox"@, "firefox"@, "edge"@, "brave"@]
    } else if os == "macos"@ {
        seq!["chrome"@, "firefox"@, "safari"@, "brave"@, "edge"@]
    } else {
        Seq::empty()
    }
}

/// Paths of the probes of an operating system, in probing order.
pub open spec fn probe_paths(os: Seq<char>) -> Seq<Seq<char>> {
    if os == "windows"@ {
        seq![
            "C:\\Program Files\\Google\\Chrome\\Application\\chrome.exe"@,
            "C:\\Program Files (x86)\\Google\\Chrome\\Application\\chrome.exe"@,
            "C:\\Program Files\\Mozilla Firefox\\firefox.exe"@,
            "C:\\Program Files (x86)\\Mozilla Firefox\\firefox.exe"@,
            "C:\\Program Files (x86)\\Microsoft\\Edge\\Application\\msedge.exe"@,
            "C:\\Program Files\\BraveSoftware\\Brave-Browser\\Application\\brave.exe"@,
        ]
    } else if os == "macos"@ {
        seq![
            "/Applications/Google Chrome.app"@,
            "/Applications/Firefox.app"@,
            "/Applications/Safari.app"@,
            "/Applications/Brave Browser.app"@,
            "/Applications/Microsoft Edge.app"@,
        ]
    } else {
        Seq::empty()
    }
}

/// Browsers offered on an operating system without any probe.
pub open spec fn unprobed_browsers(os: Seq<char>) -> Seq<Seq<char>> {
    if os == "windows"@ || os == "macos"@ {
        Seq::empty()
    } else {
        seq!["chrome"@, "chromium"@, "firefox"@, "brave"@]
    }
}

pub open spec fn probe_name_views(probes: Seq<BrowserProbe>) -> Seq<Seq<char>> {
    probes.map_values(|p: BrowserProbe| p.name@)
}

pub open spec fn probe_path_views(probes: Seq<BrowserProbe>) -> Seq<Seq<char>> {
    probes.map_values(|p: BrowserProbe| p.path@)
}

fn probe(name: &str, path: &str) -> (p: BrowserProbe)
    ensures
        p.name@ == name@,
        p.path@ == path@,
{
    BrowserProbe { name: String::from_str(name), path: String::from_str(path) }
}

/// The paths to look at on the given operating system, each with the
/// browser that it stands for. `os` is the name of the operating system as
/// `std::env::consts::OS` gives it.
pub fn browser_probes(os: &str) -> (probes: Vec<BrowserProbe>)
    ensures
        probe_name_views(probes@) == probe_names(os@),
        probe_path_views(probes@) == probe_paths(os@),
{
    let mut probes: Vec<BrowserProbe> = Vec::new();
    if text_eq(os, "windows") {
        probes.push(probe("chrome", "C:\\Program Files\\Google\\Chrome\\Application\\chrome.exe"));
        probes.push(
            probe("chrome", "C:\\Program Files (x86)\\Google\\Chrome\\Application\\chrome.exe"),
        );
        probes.push(probe("firefox", "C:\\Program Files\\Mozilla Firefox\\firefox.exe"));
        probes.push(probe("firefox", "C:\\Program Files (x86)\\Mozilla Firefox\\firefox.exe"));
        probes.push(
            probe("edge", "C:\\Program Files (x86)\\Microsoft\\Edge\\Application\\msedge.exe"),
        );
        probes.push(
            probe(
                "brave",
                "C:\\Program Files\\BraveSoftware\\Brave-Browser\\Application\\brave.exe",
            ),
        );
    } else if text_eq(os, "macos") {
        probes.push(probe("chrome", "/Applications/Google Chrome.app"));
        probes.push(probe("firefox", "/Applications/Firefox.app"));
        probes.push(probe("safari", "/Applications/Safari.app"));
        probes.push(probe("brave", "/Applications/Brave Browser.app"));
        probes.push(probe("edge", "/Applications/Microsoft Edge.app"));
    }
    proof {
        assert(probe_name_views(probes@) =~= probe_names(os@));
        assert(probe_path_views(probes@) =~= probe_paths(os@));
    }
    probes
}

/// The browsers found: the name of each probe whose path exists, in
/// probing order, each name once. A probe without an answer in `present`
/// counts as absent.
pub open spec fn detected(names: Seq<Seq<char>>, present: Seq<bool>) -> Seq<Seq<char>>
    decreases names.len(),
{
    if names.len() == 0 {
        Seq::empty()
    } else {
        let found = detected(names.drop_last(), present);
        let i = names.len() - 1;
        if i < present.len() && present[i] && !found.contains(names.last()) {
            found.push(names.last())
        } else {
            found
        }
    }
}

/// The browsers that can lend their cookies on an operating system.
pub open spec fn available_browsers(os: Seq<char>, present: Seq<bool>) -> Seq<Seq<char>> {
    detected(probe_names(os), present) + unprobed_browsers(os)
}

fn contains_text(list: &Vec<String>, text: &str) -> (found: bool)
    ensures
        found == texts(list@).contains(text@),
{
    let mut i: usize = 0;
    while i < list.len()
        invariant
            i <= list.len(),
            forall|k: int| 0 <= k < i ==> texts(list@)[k] != text@,
        decreases list.len() - i,
    {
        if text_eq(list[i].as_str(), text) {
            proof {
                assert(texts(list@)[i as int] == text@);
            }
            return true;
        }
        i = i + 1;
    }
    false
}

/// The browsers whose cookies can be used. `present[i]` says whether the
/// path of the `i`-th probe of [`browser_probes`] exists. Where the
/// operating system has no probes, the usual browsers are offered unseen.
pub fn get_available_browsers(os: &str, present: &Vec<bool>) -> (browsers: Vec<String>)
    ensures
        texts(browsers@) == available_browsers(os@, present@),
{
    let probes = browser_probes(os);
    let ghost names = probe_names(os@);
    let mut browsers: Vec<String> = Vec::new();
    let mut i: usize = 0;
    proof {
        assert(names.take(0) =~= Seq::<Seq<char>>::empty());
        assert(texts(browsers@) =~= Seq::<Seq<char>>::empty());
    }
    while i < probes.len()
        invariant
            i <= probes.len(),
            names == probe_name_views(probes@),
            texts(browsers@) == detected(names.take(i as int), present@),
        decreases probes.len() - i,
    {
        proof {
            assert(names.take(i + 1).drop_last() =~= names.take(i as int));
            assert(names.take(i + 1).last() == probes@[i as int].name@);
        }
        if i < present.len() && present[i] && !contains_text(&browsers, probes[i].name.as_str()) {
            let name = probes[i].name.clone();
            proof {
                assert(texts(browsers@.push(name)) =~= texts(browsers@).push(name@));
            }
            browsers.push(name);
        }
        i = i + 1;
    }
    proof {
        assert(names.take(probes@.len() as int) =~= names);
    }
    if !text_eq(os, "windows") && !text_eq(os, "macos") {
        browsers.push(String::from_str("chrome"));
        browsers.push(String::from_str("chromium"));
        browsers.push(String::from_str("firefox"));
        browsers.push(String::from_str("brave"));
    }
    proof {
        assert(texts(browsers@) =~= available_browsers(os@, present@));
    }
    browsers
}

} // verus!
