use handlr_regex::config::get_languages;
use handlr_regex::desktop_list::DesktopList;
use handlr_regex::dist::dist_dir;
use handlr_regex::error::{handle, Error, Exit, Report};
use handlr_regex::handler::DesktopHandler;
use handlr_regex::mime_apps::MimeApps;
use handlr_regex::mime_type::{has_char, MimeType};
use handlr_regex::system_apps::SystemApps;
use handlr_regex::table::{MimeAppsEntry, MimeAppsTable};

fn mime(s: &str) -> MimeType {
    MimeType::from_str(s).unwrap()
}

fn desktop(s: &str) -> DesktopHandler {
    DesktopHandler::assume_valid(s.to_string())
}

fn list(names: &[&str]) -> DesktopList {
    let mut l = DesktopList::new();
    for n in names {
        l.push_back(desktop(n));
    }
    l
}

/// Helper function for testing language variable parsing
fn lang_var_test(lang: Option<&str>, languages: Option<&str>, expected_languages: &[&str]) {
    let languages = get_languages(lang.map(|s| s.to_string()), languages.map(|s| s.to_string()));
    assert_eq!(languages, expected_languages.iter().map(|l| l.to_string()).collect::<Vec<_>>());
}

#[test]
fn language_variable_parsing() {
    // No variables
    lang_var_test(None, None, &[]);

    // Just $LANG
    lang_var_test(Some("es"), None, &["es"]);

    // Just $LANGUAGES
    lang_var_test(None, Some("ja:fr:nl"), &["ja", "fr", "nl"]);

    // Both variables
    lang_var_test(Some("bn"), Some("hu:pa:it:ru"), &["bn", "hu", "pa", "it", "ru"]);

    // An empty value is one empty language
    lang_var_test(None, Some(""), &[""]);
}

#[test]
fn mime_types_are_kept_as_their_essence() {
    assert_eq!(mime("text/plain").to_string(), "text/plain");
    assert_eq!(mime("Text/HTML; charset=utf-8").to_string(), "text/html");
    assert_eq!(mime("IMAGE/SVG+XML").as_str(), "image/svg+xml");
    assert_eq!(mime("video/*").to_string(), "video/*");
    assert_eq!(mime("x-scheme-handler/terminal").to_string(), "x-scheme-handler/terminal");
    assert_eq!(mime("text/plain"), mime("TEXT/PLAIN"));
}

#[test]
fn a_text_that_is_no_mime_type_is_refused() {
    for text in ["", "text", "/plain", "text plain", "text/pl ain", "a=b/c"] {
        assert_eq!(MimeType::from_str(text), Err(Error::BadMimeType(text.to_string())));
    }
}

#[test]
fn extensions_name_mime_types() {
    assert_eq!(MimeType::from_extension("png").unwrap().to_string(), "image/png");
    assert_eq!(MimeType::from_extension(".png").unwrap().to_string(), "image/png");
    assert_eq!(MimeType::from_extension("archive.tar.png").unwrap().to_string(), "image/png");
    assert_eq!(
        MimeType::from_extension("no-such-extension"),
        Err(Error::AmbiguousExtension("no-such-extension".to_string()))
    );
    assert_eq!(MimeType::from_argument(".pdf").unwrap().to_string(), "application/pdf");
    assert_eq!(MimeType::from_argument("Application/PDF").unwrap().to_string(), "application/pdf");
    assert_eq!(MimeType::from_argument("pdf"), Err(Error::BadMimeType("pdf".to_string())));
    assert_eq!(MimeType::from_argument(".zzzz"), Err(Error::AmbiguousExtension(".zzzz".to_string())));
    assert_eq!(MimeType::from_argument(""), Err(Error::BadMimeType(String::new())));
}

#[test]
fn the_wildcard_of_a_mime_type_is_its_whole_type() {
    assert_eq!(mime("video/mp4").wildcard(), "video/*");
    assert_eq!(mime("video/*").wildcard(), "video/*");
    assert_eq!(mime("application/vnd.oasis.opendocument.text").wildcard(), "application/*");
    assert!(has_char(&vec!['a', '/', 'b'], '/'));
    assert!(!has_char(&vec!['a', 'b'], '/'));
}

#[test]
fn desktop_lists_keep_order_without_repetition() {
    let mut l = DesktopList::new();
    assert!(l.is_empty());
    assert_eq!(l.front(), None);
    assert!(l.push_back(desktop("a")));
    assert!(l.push_back(desktop("b")));
    assert!(!l.push_back(desktop("a")));
    assert!(l.push_front(desktop("c")));
    assert!(!l.push_front(desktop("b")));
    assert_eq!(l, list(&["c", "a", "b"]));
    assert_eq!(l.len(), 3);
    assert_eq!(l.front(), Some(&desktop("c")));
    assert_eq!(l.position(&desktop("b")), Some(2));
    assert_eq!(l.position(&desktop("z")), None);
    assert!(l.contains(&desktop("a")));
    assert!(l.remove(&desktop("a")));
    assert!(!l.remove(&desktop("a")));
    assert_eq!(l, list(&["c", "b"]));
    assert_eq!(DesktopList::single(desktop("x")), list(&["x"]));
}

#[test]
fn each_failure_has_its_message() {
    assert_eq!(Error::NotFound("text/plain".into()).to_string(), "No handlers found for 'text/plain'");
    assert_eq!(
        Error::AmbiguousExtension("a.xyz".into()).to_string(),
        "Could not find a mimetype associated with the file extension: 'a.xyz'"
    );
    assert_eq!(Error::BadMimeType("nonsense".into()).to_string(), "Bad mime: nonsense");
    assert_eq!(
        Error::BadEntry("/usr/share/applications/a.desktop".into()).to_string(),
        "The desktop entry at '/usr/share/applications/a.desktop' is not valid"
    );
    assert_eq!(
        Error::Selector("rofi -dmenu".into()).to_string(),
        "Error spawning selector process 'rofi -dmenu'"
    );
    assert_eq!(Error::Cancelled.to_string(), "Selection cancelled");
    assert_eq!(
        Error::NoTerminal.to_string(),
        "Please specify the default terminal with handlr set x-scheme-handler/terminal"
    );
    assert_eq!(Error::BadPath("/a b".into()).to_string(), "Bad path: /a b");
    assert_eq!(Error::Outside("No such file".into()).to_string(), "No such file");
    assert_eq!(Error::BadPath("/a".into()).clone(), Error::BadPath("/a".into()));
}

#[test]
fn a_run_ends_with_a_code_and_a_report() {
    assert_eq!(handle(&Ok(()), true), Exit { code: 0, report: Report::Silent });
    assert_eq!(handle(&Ok(()), false), Exit { code: 0, report: Report::Silent });
    for terminal_output in [true, false] {
        assert_eq!(
            handle(&Err(Error::Cancelled), terminal_output),
            Exit { code: 1, report: Report::Log("Selection cancelled".to_string()) }
        );
    }
    assert_eq!(
        handle(&Err(Error::NotFound("a/b".into())), true),
        Exit { code: 1, report: Report::Stderr("No handlers found for 'a/b'".to_string()) }
    );
    assert_eq!(
        handle(&Err(Error::NotFound("a/b".into())), false),
        Exit { code: 1, report: Report::Notify("No handlers found for 'a/b'".to_string()) }
    );
}

#[test]
fn handlers_of_a_row_are_shown_with_the_separator() {
    let row = MimeAppsEntry::new(&mime("text/plain"), &list(&["helix.desktop", "nvim.desktop", "kakoune.desktop"]), ",\n");
    assert_eq!(row.mime, "text/plain");
    assert_eq!(row.display_handlers(), "helix.desktop,\nnvim.desktop,\nkakoune.desktop");
    let row = MimeAppsEntry::new(&mime("text/plain"), &list(&["helix.desktop", "nvim.desktop"]), ", ");
    assert_eq!(row.display_handlers(), "helix.desktop, nvim.desktop");
    let row = MimeAppsEntry::new(&mime("text/plain"), &list(&["helix.desktop"]), ", ");
    assert_eq!(row.display_handlers(), "helix.desktop");
}

#[test]
fn the_table_holds_the_rows_in_ascending_order() {
    let mut apps = MimeApps::new();
    for (m, h) in [
        ("video/mp4", "mpv.desktop"),
        ("video/asdf", "mpv.desktop"),
        ("video/webm", "brave.desktop"),
        ("text/plain", "helix.desktop"),
        ("text/plain", "nvim.desktop"),
    ] {
        apps.add_handler(&mime(m), &desktop(h));
    }
    apps.added_associations.insert(mime("x-scheme-handler/terminal"), list(&["org.wezfurlong.wezterm.desktop"]));
    let mut system = SystemApps::new();
    system.associations.insert(mime("image/png"), list(&["swayimg.desktop"]));

    let table = MimeAppsTable::new(&apps, &system, true);
    let mimes: Vec<&str> = table.default_apps.iter().map(|r| r.mime.as_str()).collect();
    assert_eq!(mimes, vec!["text/plain", "video/asdf", "video/mp4", "video/webm"]);
    assert_eq!(table.default_apps[0].handlers, vec!["helix.desktop", "nvim.desktop"]);
    assert_eq!(table.default_apps[0].display_handlers(), "helix.desktop,\nnvim.desktop");
    assert_eq!(table.added_associations.len(), 1);
    assert_eq!(table.added_associations[0].mime, "x-scheme-handler/terminal");
    assert_eq!(table.system_apps.len(), 1);
    assert_eq!(table.system_apps[0].handlers, vec!["swayimg.desktop"]);

    let piped = MimeAppsTable::new(&apps, &system, false);
    assert_eq!(piped.default_apps[0].display_handlers(), "helix.desktop, nvim.desktop");
    assert_eq!(piped.default_apps[0].separator, ", ");
}

#[test]
fn the_release_directory_is_beside_the_manifest_directory() {
    assert_eq!(dist_dir("/work/handlr/xtask"), Some("/work/handlr/target/dist".to_string()));
    assert_eq!(dist_dir("/"), None);
    assert_eq!(dist_dir(""), None);
}
