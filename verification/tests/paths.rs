use handlr_regex::config::{Assignment, Config, PathLookup};
use handlr_regex::config_file::ConfigFile;
use handlr_regex::error::Error;
use handlr_regex::handler::{DesktopHandler, Handler, RegexApps, RegexHandler};
use handlr_regex::mime_type::MimeType;
use handlr_regex::path::{UrlParts, UserPath};

fn mime(s: &str) -> MimeType {
    MimeType::from_str(s).unwrap()
}

fn desktop(s: &str) -> DesktopHandler {
    DesktopHandler::assume_valid(s.to_string())
}

#[test]
fn file_url() {
    let path = UserPath::from_str("file:///test.txt").unwrap();
    assert_eq!(path.to_string(), "/test.txt");
}

#[test]
fn a_url_is_kept_as_its_parser_writes_it() {
    let path = UserPath::from_str("HTTPS://Example.COM").unwrap();
    assert_eq!(
        path,
        UserPath::Url { text: "https://example.com/".to_string(), scheme: "https".to_string() }
    );
    assert_eq!(path.to_string(), "https://example.com/");
}

#[test]
fn a_text_that_is_no_url_is_the_path_of_a_file() {
    assert_eq!(
        UserPath::from_str("tests/assets/a.png").unwrap(),
        UserPath::File("tests/assets/a.png".to_string())
    );
    assert_eq!(UserPath::from_str(".").unwrap().to_string(), ".");
}

#[test]
fn a_file_url_without_a_file_is_a_bad_path() {
    let parts = UrlParts {
        text: "file://host/a".to_string(),
        scheme: "file".to_string(),
        path: "/a".to_string(),
    };
    assert_eq!(
        UserPath::normalize("file://host/a", Some(parts), None),
        Err(Error::BadPath("/a".to_string()))
    );
    assert_eq!(
        UserPath::from_str("file://example.org/a"),
        Err(Error::BadPath("/a".to_string()))
    );
}

#[test]
fn the_mime_type_of_a_url_is_that_of_its_scheme() {
    let path = UserPath::from_str("https://duckduckgo.com").unwrap();
    assert_eq!(path.get_mime(None).unwrap().to_string(), "x-scheme-handler/https");
    assert_eq!(
        path.get_mime(Some(mime("text/plain"))).unwrap().to_string(),
        "x-scheme-handler/https"
    );
    let path = UserPath::from_str("mailto:someone@example.org").unwrap();
    assert_eq!(path.get_mime(None).unwrap().to_string(), "x-scheme-handler/mailto");
}

#[test]
fn the_mime_type_of_a_file_is_what_it_was_classified_as() {
    let path = UserPath::from_str("a.png").unwrap();
    assert_eq!(path.get_mime(Some(mime("image/png"))).unwrap().to_string(), "image/png");
    assert_eq!(path.get_mime(None), Err(Error::AmbiguousExtension("a.png".to_string())));
}

#[test]
fn files_are_classified_by_directory_and_extension() {
    let file = UserPath::from_str("tests/assets/a.png").unwrap();
    assert_eq!(file.classify(false, Some("png")).unwrap().to_string(), "image/png");
    assert_eq!(file.classify(true, Some("png")).unwrap().to_string(), "inode/directory");
    assert_eq!(file.classify(true, None).unwrap().to_string(), "inode/directory");
    assert_eq!(file.classify(false, None), None);
    assert_eq!(file.classify(false, Some("no-such-extension")), None);
    let url = UserPath::from_str("https://example.org/a.png").unwrap();
    assert_eq!(url.classify(false, Some("png")), None);
    assert_eq!(url.classify(true, None), None);
}

fn youtube() -> RegexHandler {
    RegexHandler::new(
        "freetube %u".to_string(),
        false,
        vec![r"(https://)?(www\.)?youtu(be\.com|\.be)/*".to_string()],
    )
}

#[test]
fn a_regex_handler_is_taken_before_the_default_of_the_scheme() {
    let mut config = Config::default();
    config.config = ConfigFile { handlers: RegexApps(vec![youtube()]), ..ConfigFile::default() };
    config.set_handler(&mime("x-scheme-handler/https"), &desktop("firefox.desktop"));

    let video = UserPath::from_str("https://youtu.be/dQw4w9WgXcQ").unwrap();
    assert_eq!(
        config.get_handler_from_path(&video, None),
        Ok(PathLookup::Handler(Handler::RegexHandler(youtube())))
    );

    let other = UserPath::from_str("https://en.wikipedia.org").unwrap();
    assert_eq!(
        config.get_handler_from_path(&other, None),
        Ok(PathLookup::Handler(Handler::new("firefox.desktop")))
    );
}

#[test]
fn a_regex_handler_is_taken_for_a_file_that_cannot_be_classified() {
    let mut config = Config::default();
    let rule = RegexHandler::new("less %f".to_string(), true, vec![r"\.log$".to_string()]);
    config.config = ConfigFile { handlers: RegexApps(vec![rule.clone()]), ..ConfigFile::default() };
    let path = UserPath::from_str("/var/log/sys.log").unwrap();
    assert_eq!(
        config.get_handler_from_path(&path, None),
        Ok(PathLookup::Handler(Handler::RegexHandler(rule)))
    );
    let path = UserPath::from_str("/var/log/sys.txt").unwrap();
    assert_eq!(
        config.get_handler_from_path(&path, None),
        Err(Error::AmbiguousExtension("/var/log/sys.txt".to_string()))
    );
    assert_eq!(
        config.get_handler_from_path(&path, Some(mime("text/plain"))),
        Err(Error::NotFound("text/plain".to_string()))
    );
}

#[test]
fn a_path_with_several_defaults_asks_for_a_choice() {
    let mut config = Config::default();
    config.config.enable_selector = true;
    config.add_handler(&mime("text/plain"), &desktop("helix.desktop"));
    config.add_handler(&mime("text/plain"), &desktop("nvim.desktop"));
    let path = UserPath::from_str("a.txt").unwrap();
    match config.get_handler_from_path(&path, Some(mime("text/plain"))).unwrap() {
        PathLookup::Select(list) => {
            assert_eq!(list.len(), 2);
            assert_eq!(list.get(0).to_string(), "helix.desktop");
            assert_eq!(list.get(1).to_string(), "nvim.desktop");
        }
        other => panic!("no choice: {:?}", other),
    }
}

fn resolved(pairs: &[(&str, &str)]) -> Vec<(Handler, String)> {
    pairs.iter().map(|(h, p)| (Handler::new(h), p.to_string())).collect()
}

fn group(handler: &str, paths: &[&str]) -> Assignment {
    Assignment {
        handler: Handler::new(handler),
        paths: paths.iter().map(|p| p.to_string()).collect(),
    }
}

#[test]
fn properly_assign_files_to_handlers() {
    assert_eq!(
        Config::assign_files_to_handlers(&resolved(&[
            ("swayimg.desktop", "tests/assets/a.png"),
            ("mupdf.desktop", "tests/assets/a.pdf"),
        ])),
        vec![
            group("swayimg.desktop", &["tests/assets/a.png"]),
            group("mupdf.desktop", &["tests/assets/a.pdf"]),
        ]
    );

    assert_eq!(
        Config::assign_files_to_handlers(&resolved(&[
            ("swayimg.desktop", "tests/assets/a.png"),
            ("swayimg.desktop", "tests/assets/b.png"),
            ("mupdf.desktop", "tests/assets/a.pdf"),
        ])),
        vec![
            group("swayimg.desktop", &["tests/assets/a.png", "tests/assets/b.png"]),
            group("mupdf.desktop", &["tests/assets/a.pdf"]),
        ]
    );

    assert_eq!(
        Config::assign_files_to_handlers(&resolved(&[
            ("mupdf.desktop", "tests/assets/a.pdf"),
            ("swayimg.desktop", "tests/assets/a.png"),
            ("swayimg.desktop", "tests/assets/b.png"),
        ])),
        vec![
            group("mupdf.desktop", &["tests/assets/a.pdf"]),
            group("swayimg.desktop", &["tests/assets/a.png", "tests/assets/b.png"]),
        ]
    );
}

#[test]
fn groups_keep_first_appearance_and_input_order() {
    let mut pairs = resolved(&[("b", "1"), ("a", "2"), ("b", "3"), ("c", "4"), ("a", "5"), ("b", "6")]);
    pairs.push((Handler::RegexHandler(youtube()), "7".to_string()));
    pairs.push((Handler::new("a"), "8".to_string()));
    pairs.push((Handler::RegexHandler(youtube()), "9".to_string()));
    let groups = Config::assign_files_to_handlers(&pairs);
    assert_eq!(
        groups,
        vec![
            group("b", &["1", "3", "6"]),
            group("a", &["2", "5", "8"]),
            group("c", &["4"]),
            Assignment {
                handler: Handler::RegexHandler(youtube()),
                paths: vec!["7".to_string(), "9".to_string()],
            },
        ]
    );
    assert_eq!(Config::assign_files_to_handlers(&Vec::new()), Vec::new());
}
