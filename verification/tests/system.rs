use handlr_regex::config::Config;
use handlr_regex::desktop_entry::DesktopEntry;
use handlr_regex::desktop_list::DesktopList;
use handlr_regex::error::Error;
use handlr_regex::handler::DesktopHandler;
use handlr_regex::mime_map::MimeMap;
use handlr_regex::mime_type::MimeType;
use handlr_regex::system_apps::SystemApps;

fn mime(s: &str) -> MimeType {
    MimeType::from_str(s).unwrap()
}

fn desktop(s: &str) -> DesktopHandler {
    DesktopHandler::assume_valid(s.to_string())
}

fn list(names: &[&str]) -> DesktopList {
    let mut l = DesktopList::new();
    for n in names {
        l.push_back(desktop(n));
    }
    l
}

fn entry(file_name: &str, command: &str, mimes: &[&str], categories: &[&str]) -> DesktopEntry {
    DesktopEntry {
        name: file_name.trim_end_matches(".desktop").to_string(),
        command: command.to_string(),
        file_name: file_name.to_string(),
        terminal: false,
        mime_type: mimes.iter().map(|m| mime(m)).collect(),
        categories: categories.iter().map(|c| c.to_string()).collect(),
    }
}

#[test]
fn get_handlers() {
    let mut expected_handlers = DesktopList::new();
    expected_handlers.push_back(DesktopHandler::assume_valid("helix.desktop".into()));
    expected_handlers.push_back(DesktopHandler::assume_valid("nvim.desktop".into()));

    let mut associations = MimeMap::new();

    associations.insert(mime("text/plain"), expected_handlers.clone());

    let system_apps = SystemApps { associations, unassociated: DesktopList::new() };

    assert_eq!(
        system_apps.get_handler(&mime("text/plain")).expect("Could not get handler").to_string(),
        "helix.desktop"
    );
    assert_eq!(
        system_apps.get_handlers(&mime("text/plain")).expect("Could not get handler"),
        expected_handlers
    );
    assert_eq!(system_apps.get_handler(&mime("text/html")), None);
    assert_eq!(system_apps.get_handlers(&mime("text/html")), None);
}

#[test]
fn applications_are_listed_under_each_declared_mime_type() {
    let entries = vec![
        entry("vlc.desktop", "vlc %U", &["video/mp4", "audio/ogg"], &[]),
        entry("wezterm.desktop", "wezterm", &[], &["TerminalEmulator"]),
        entry("mpv.desktop", "mpv %U", &["audio/ogg", "video/mp4", "video/webm"], &[]),
        entry("xterm.desktop", "xterm", &[], &["System", "TerminalEmulator"]),
        entry("vlc.desktop", "vlc %U", &["video/mp4"], &[]),
        entry("wezterm.desktop", "wezterm", &[], &[]),
    ];
    let apps = SystemApps::populate(&entries);
    assert_eq!(apps.associations.len(), 3);
    assert_eq!(apps.associations.get("audio/ogg"), Some(&list(&["vlc.desktop", "mpv.desktop"])));
    assert_eq!(apps.associations.get("video/mp4"), Some(&list(&["vlc.desktop", "mpv.desktop"])));
    assert_eq!(apps.associations.get("video/webm"), Some(&list(&["mpv.desktop"])));
    assert_eq!(apps.unassociated, list(&["wezterm.desktop", "xterm.desktop"]));
    assert_eq!(apps.associations.mime_at(0).to_string(), "audio/ogg");
    assert_eq!(apps.associations.mime_at(1).to_string(), "video/mp4");
    assert_eq!(apps.associations.mime_at(2).to_string(), "video/webm");
    assert_eq!(apps.associations.handlers_at(2), &list(&["mpv.desktop"]));

    let none = SystemApps::populate(&Vec::new());
    assert!(none.associations.is_empty());
    assert!(none.unassociated.is_empty());
}

#[test]
fn the_first_terminal_emulator_is_found() {
    let apps = SystemApps::new();
    let entries = vec![
        entry("files.desktop", "files", &[], &["System"]),
        entry("wezterm.desktop", "wezterm start", &[], &["System", "TerminalEmulator"]),
        entry("xterm.desktop", "xterm", &[], &["TerminalEmulator"]),
    ];
    assert_eq!(apps.terminal_emulator(&entries), Some(&entries[1]));
    assert_eq!(apps.terminal_emulator(&entries[..1].to_vec()), None);
    assert_eq!(apps.terminal_emulator(&Vec::new()), None);
    assert!(entries[1].is_terminal_emulator());
    assert!(!entries[0].is_terminal_emulator());
}

#[test]
fn an_application_is_put_before_the_unassociated() {
    let mut apps = SystemApps::new();
    apps.add_unassociated(desktop("a.desktop"));
    apps.add_unassociated(desktop("b.desktop"));
    apps.add_unassociated(desktop("a.desktop"));
    assert_eq!(apps.unassociated, list(&["b.desktop", "a.desktop"]));
}

#[test]
fn installed_applications_are_listed_by_file_name_and_name() {
    let entries = vec![
        entry("vlc.desktop", "vlc %U", &["video/mp4"], &[]),
        entry("org.wezfurlong.wezterm.desktop", "wezterm", &[], &[]),
    ];
    assert_eq!(
        SystemApps::list_handlers(&entries),
        "vlc.desktop\tvlc\norg.wezfurlong.wezterm.desktop\torg.wezfurlong.wezterm\n"
    );
    assert_eq!(SystemApps::list_handlers(&Vec::new()), "");
}

#[test]
fn terminal_command_set() {
    let mut config = Config::default();
    config.add_handler(
        &mime("x-scheme-handler/terminal"),
        &desktop("tests/assets/org.wezfurlong.wezterm.desktop"),
    );
    let wezterm = entry("org.wezfurlong.wezterm.desktop", "wezterm start --cwd .", &[], &["TerminalEmulator"]);
    let terminal = config.terminal(Some(&wezterm), &Vec::new()).unwrap();
    assert_eq!(terminal.command, "wezterm start --cwd . -e");
    assert_eq!(terminal.guessed, None);
    assert!(config.mime_apps.added_associations.is_empty());
}

#[test]
fn terminal_command_fallback() {
    let mut config = Config::default();
    config.system_apps.add_unassociated(desktop("org.wezfurlong.wezterm.desktop"));
    let installed = vec![
        entry("files.desktop", "files", &[], &["System"]),
        entry("org.wezfurlong.wezterm.desktop", "wezterm start --cwd .", &[], &["TerminalEmulator"]),
        entry("xterm.desktop", "xterm", &[], &["TerminalEmulator"]),
    ];
    let terminal = config.terminal(None, &installed).unwrap();
    assert_eq!(terminal.command, "wezterm start --cwd . -e");
    assert_eq!(terminal.guessed, Some(desktop("org.wezfurlong.wezterm.desktop")));

    // The guess is kept as an added association, and found from then on.
    assert_eq!(
        config.mime_apps.added_associations.get("x-scheme-handler/terminal"),
        Some(&list(&["org.wezfurlong.wezterm.desktop"]))
    );
    assert!(config.mime_apps.default_apps.is_empty());
    assert_eq!(
        config.get_handler_from_added_associations(&mime("x-scheme-handler/terminal")),
        Ok(desktop("org.wezfurlong.wezterm.desktop"))
    );
}

#[test]
fn terminal_arguments_are_left_out_where_none_are_configured() {
    let mut config = Config::default();
    config.config.term_exec_args = None;
    let xterm = entry("xterm.desktop", "xterm", &[], &["TerminalEmulator"]);
    assert_eq!(config.terminal(Some(&xterm), &Vec::new()).unwrap().command, "xterm");
    config.config.term_exec_args = Some("--hold -e".to_string());
    assert_eq!(config.terminal(None, &vec![xterm]).unwrap().command, "xterm --hold -e");
}

#[test]
fn no_terminal_is_an_error() {
    let mut config = Config::default();
    let installed = vec![entry("files.desktop", "files", &[], &["System"])];
    assert_eq!(config.terminal(None, &installed), Err(Error::NoTerminal));
    assert_eq!(config.terminal(None, &Vec::new()), Err(Error::NoTerminal));
    assert!(config.mime_apps.added_associations.is_empty());
}
