use handlr_regex::desktop_entry::DesktopEntry;
use handlr_regex::desktop_file::RawEntry;
use handlr_regex::error::Error;

const VLC: &str = "[Desktop Entry]\nVersion=1.0\nName=VLC media player\nGenericName=Media player\nName[bn]=VLC মিডিয়া প্লেয়ার\nName[es]=Reproductor multimedia VLC\nName[fr]=Lecteur multimédia VLC\nName[ja]=VLCメディアプレイヤー\nName[nl]=VLC media player\nName[pa]=VLC ਮੀਡਿਆ ਪਲੇਅਰ\nExec=/usr/bin/vlc --started-from-file %U\nTryExec=/usr/bin/vlc\nIcon=vlc\nTerminal=false\nType=Application\nCategories=AudioVideo;Player;Recorder;\nMimeType=application/ogg;video/mp4;\n";

const EMPTY_NAME: &str = "[Desktop Entry]\nName=\nExec=true\nType=Application\n";

const EMPTY_EXEC: &str = "[Desktop Entry]\nName=Nothing\nExec=\nType=Application\n";

fn strings(v: &[&str]) -> Vec<String> {
    v.iter().map(|s| s.to_string()).collect()
}

#[test]
fn invalid_desktop_entries() {
    let languages = Vec::new();

    let empty_name = DesktopEntry::parse_file(
        EMPTY_NAME,
        "tests/assets/empty_name.desktop",
        "empty_name.desktop",
        &languages,
    );

    assert!(empty_name.is_err());

    let empty_exec = DesktopEntry::parse_file(
        EMPTY_EXEC,
        "tests/assets/empty_exec.desktop",
        "empty_exec.desktop",
        &languages,
    );

    assert!(empty_exec.is_err());
}

/// Helper function for testing language support
fn lang_test(languages: &[&str], expected_name: &str) {
    let entry = DesktopEntry::parse_file(
        VLC,
        "tests/assets/vlc.desktop",
        "vlc.desktop",
        &strings(languages),
    )
    .unwrap();

    assert_eq!(entry.name, expected_name);
}

#[test]
fn language_support() {
    // No languages
    lang_test(&[], "VLC media player");

    // Just one language
    lang_test(&["es"], "Reproductor multimedia VLC");

    // Multiple languages
    lang_test(&["ja", "fr", "nl"], "VLCメディアプレイヤー");

    // No valid languages
    lang_test(&["qwert", "yuiop"], "VLC media player");

    // Some invalid languages
    lang_test(&["asdfg", "hjkl?;", "bn", "hu"], "VLC মিডিয়া প্লেয়ার");
    lang_test(&["zxcv", "pa", "it", "ru"], "VLC ਮੀਡਿਆ ਪਲੇਅਰ");
}

#[test]
fn entry_fields_are_read() {
    let entry =
        DesktopEntry::parse_file(VLC, "/usr/share/applications/vlc.desktop", "vlc.desktop", &Vec::new())
            .unwrap();
    assert_eq!(entry.command, "/usr/bin/vlc --started-from-file %U");
    assert_eq!(entry.file_name, "vlc.desktop");
    assert!(!entry.terminal);
    assert_eq!(entry.categories, strings(&["AudioVideo", "Player", "Recorder"]));
    let mimes: Vec<String> = entry.mime_type.iter().map(|m| m.to_string()).collect();
    assert_eq!(mimes, strings(&["application/ogg", "video/mp4"]));
}

#[test]
fn lists_drop_empty_and_repeated_pieces_and_bad_mime_types() {
    let content = "[Desktop Entry]\nName=A\nExec=a\nTerminal=true\nMimeType=;text/plain;;not a mime;text/plain;Image/PNG\nCategories=X;;Y;X\n";
    let entry = DesktopEntry::parse_file(content, "a.desktop", "a.desktop", &Vec::new()).unwrap();
    assert!(entry.terminal);
    let mimes: Vec<String> = entry.mime_type.iter().map(|m| m.to_string()).collect();
    assert_eq!(mimes, strings(&["text/plain", "image/png"]));
    assert_eq!(entry.categories, strings(&["X", "Y"]));
}

#[test]
fn terminal_is_set_by_true_alone() {
    for (value, expected) in [("true", true), ("false", false), ("yes", false), ("True", false)] {
        let content = format!("[Desktop Entry]\nName=A\nExec=a\nTerminal={value}\n");
        let entry = DesktopEntry::parse_file(&content, "a.desktop", "a.desktop", &Vec::new()).unwrap();
        assert_eq!(entry.terminal, expected);
    }
}

#[test]
fn a_file_without_name_or_command_is_a_bad_entry() {
    let bad = Err(Error::BadEntry("some/where.desktop".to_string()));
    for content in [
        "",
        "not a desktop file",
        "[Desktop Entry]\nExec=a\n",
        "[Desktop Entry]\nName=A\n",
        "[Other]\nName=A\nExec=a\n",
    ] {
        assert_eq!(
            DesktopEntry::parse_file(content, "some/where.desktop", "where.desktop", &Vec::new()),
            bad
        );
    }
}

#[test]
fn attributes_are_read_as_the_file_writes_them() {
    assert_eq!(
        DesktopEntry::read_raw(VLC, &strings(&["xx", "fr"])),
        RawEntry {
            name: Some("Lecteur multimédia VLC".to_string()),
            command: Some("/usr/bin/vlc --started-from-file %U".to_string()),
            terminal: Some("false".to_string()),
            mime_type: Some("application/ogg;video/mp4;".to_string()),
            categories: Some("AudioVideo;Player;Recorder;".to_string()),
        }
    );
    assert_eq!(
        DesktopEntry::read_raw("[Desktop Entry]\nExec=a\n", &Vec::new()),
        RawEntry {
            name: None,
            command: Some("a".to_string()),
            terminal: None,
            mime_type: None,
            categories: None,
        }
    );
}

#[test]
fn attributes_make_an_entry() {
    let raw = RawEntry {
        name: Some("Editor".to_string()),
        command: Some("edit %F".to_string()),
        terminal: Some("true".to_string()),
        mime_type: Some("text/plain;;text/plain;nonsense;text/x-c".to_string()),
        categories: Some(";Utility;TextEditor;Utility".to_string()),
    };
    let entry = DesktopEntry::from_raw(raw, "/apps/edit.desktop", "edit.desktop").unwrap();
    assert_eq!(entry.name, "Editor");
    assert_eq!(entry.command, "edit %F");
    assert_eq!(entry.file_name, "edit.desktop");
    assert!(entry.terminal);
    let mimes: Vec<String> = entry.mime_type.iter().map(|m| m.to_string()).collect();
    assert_eq!(mimes, strings(&["text/plain", "text/x-c"]));
    assert_eq!(entry.categories, strings(&["Utility", "TextEditor"]));

    let empty_name = RawEntry {
        name: Some(String::new()),
        command: Some("edit".to_string()),
        terminal: None,
        mime_type: None,
        categories: None,
    };
    assert_eq!(
        DesktopEntry::from_raw(empty_name, "/apps/edit.desktop", "edit.desktop"),
        Err(Error::BadEntry("/apps/edit.desktop".to_string()))
    );
}
