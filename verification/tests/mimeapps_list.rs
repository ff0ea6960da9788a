use handlr_regex::desktop_list::DesktopList;
use handlr_regex::handler::DesktopHandler;
use handlr_regex::mime_apps::MimeApps;
use handlr_regex::mime_map::MimeMap;
use handlr_regex::mime_type::MimeType;
use handlr_regex::mimeapps_list::{read_line, Line};

fn mime(s: &str) -> MimeType {
    MimeType::from_str(s).unwrap()
}

fn desktop(s: &str) -> DesktopHandler {
    DesktopHandler::assume_valid(s.to_string())
}

fn list(names: &[&str]) -> DesktopList {
    let mut l = DesktopList::new();
    for n in names {
        l.push_back(desktop(n));
    }
    l
}

fn map(entries: &[(&str, &[&str])]) -> MimeMap {
    let mut m = MimeMap::new();
    for (k, v) in entries {
        m.insert(mime(k), list(v));
    }
    m
}

const FILE: &str = "[Added Associations]\nx-scheme-handler/terminal=org.wezfurlong.wezterm.desktop;\n\n[Default Applications]\ntext/plain=helix.desktop;nvim.desktop;\nvideo/*=mpv.desktop;\n";

#[test]
fn both_sections_are_read() {
    let apps = MimeApps::read(FILE);
    assert_eq!(
        apps.added_associations,
        map(&[("x-scheme-handler/terminal", &["org.wezfurlong.wezterm.desktop"])])
    );
    assert_eq!(
        apps.default_apps,
        map(&[("text/plain", &["helix.desktop", "nvim.desktop"]), ("video/*", &["mpv.desktop"])])
    );
}

#[test]
fn the_file_is_written_in_ascending_order() {
    let mut apps = MimeApps::new();
    apps.add_handler(&mime("video/*"), &desktop("mpv.desktop"));
    apps.add_handler(&mime("text/plain"), &desktop("helix.desktop"));
    apps.add_handler(&mime("text/plain"), &desktop("nvim.desktop"));
    apps.added_associations.insert(mime("x-scheme-handler/terminal"), list(&["org.wezfurlong.wezterm.desktop"]));
    assert_eq!(apps.save(), FILE);
    assert_eq!(
        MimeApps::new().save(),
        "[Added Associations]\n\n[Default Applications]\n"
    );
}

#[test]
fn what_is_written_is_read_back() {
    for text in [
        FILE,
        "",
        "[Default Applications]\nb/b=z;y;x\na/a=1;2;2;1;;3\n[Added Associations]\nc/c=q\na/a=other;\n",
        "junk\n[Default Applications]\nTEXT/Plain; charset=utf-8=a.desktop\nimage/png=;;\n=x\n",
    ] {
        let apps = MimeApps::read(text);
        let written = apps.save();
        assert_eq!(MimeApps::read(&written), apps);
        assert_eq!(MimeApps::read(&written).save(), written);
    }
}

#[test]
fn other_sections_are_passed_over() {
    let text = "text/plain=before.desktop;\n[Removed Associations]\ntext/plain=gone.desktop;\n[Default Applications]\ntext/html=firefox.desktop;\n[Something]\ntext/css=x.desktop;\n[Added Associations]\ntext/xml=y.desktop\n";
    let apps = MimeApps::read(text);
    assert_eq!(apps.default_apps, map(&[("text/html", &["firefox.desktop"])]));
    assert_eq!(apps.added_associations, map(&[("text/xml", &["y.desktop"])]));
}

#[test]
fn handlers_are_split_cleaned_and_kept_once() {
    let apps = MimeApps::read("[Default Applications]\ntext/plain=;a.desktop;;b.desktop;a.desktop;c.desktop\n");
    assert_eq!(apps.default_apps, map(&[("text/plain", &["a.desktop", "b.desktop", "c.desktop"])]));
}

#[test]
fn lines_without_handlers_or_with_bad_keys_are_dropped() {
    let text = "[Default Applications]\ntext/plain=\ntext/html=;;;\nno mime=a.desktop\nnoslash=a.desktop\nimage/png\nimage/gif=g.desktop\n";
    let apps = MimeApps::read(text);
    assert_eq!(apps.default_apps, map(&[("image/gif", &["g.desktop"])]));
    assert!(apps.added_associations.is_empty());
}

#[test]
fn a_later_line_replaces_an_earlier_one() {
    let text = "[Default Applications]\ntext/plain=a.desktop;b.desktop\ntext/plain=c.desktop\n[Default Applications]\ntext/html=d.desktop\n";
    let apps = MimeApps::read(text);
    assert_eq!(
        apps.default_apps,
        map(&[("text/html", &["d.desktop"]), ("text/plain", &["c.desktop"])])
    );
}

#[test]
fn keys_are_read_as_mime_types() {
    let apps = MimeApps::read("[Default Applications]\nText/HTML=firefox.desktop\n");
    assert_eq!(apps.default_apps, map(&[("text/html", &["firefox.desktop"])]));
    assert_eq!(apps.default_apps.mime_at(0).to_string(), "text/html");
    // The key ends at the first `=` of the line, so parameters make it no MIME type.
    let apps = MimeApps::read("[Default Applications]\ntext/html; charset=utf-8=firefox.desktop\n");
    assert!(apps.default_apps.is_empty());
    // The value starts behind the first `=` of the line.
    let apps = MimeApps::read("[Default Applications]\ntext/html=a=b;c\n");
    assert_eq!(apps.default_apps, map(&[("text/html", &["a=b", "c"])]));
}

#[test]
fn a_file_without_final_line_feed_is_read() {
    let apps = MimeApps::read("[Default Applications]\ntext/html=a.desktop");
    assert_eq!(apps.default_apps, map(&[("text/html", &["a.desktop"])]));
}

#[test]
fn each_line_is_a_header_an_entry_or_neither() {
    assert_eq!(read_line("[Default Applications]"), Line::Section("Default Applications".to_string()));
    assert_eq!(read_line("[]"), Line::Section(String::new()));
    assert_eq!(read_line("[a=b]"), Line::Section("a=b".to_string()));
    assert_eq!(
        read_line("text/plain=b;;a;b;"),
        Line::Entry { key: "text/plain".to_string(), handlers: vec!["b".to_string(), "a".to_string()] }
    );
    assert_eq!(read_line("k=v=w"), Line::Entry { key: "k".to_string(), handlers: vec!["v=w".to_string()] });
    assert_eq!(read_line("=v"), Line::Entry { key: String::new(), handlers: vec!["v".to_string()] });
    assert_eq!(read_line("k="), Line::Entry { key: "k".to_string(), handlers: Vec::new() });
    assert_eq!(read_line("[half=open"), Line::Entry { key: "[half".to_string(), handlers: vec!["open".to_string()] });
    assert_eq!(read_line(""), Line::Other);
    assert_eq!(read_line("["), Line::Other);
    assert_eq!(read_line("# a comment"), Line::Other);
}
