use handlr_regex::config::Config;
use handlr_regex::desktop_entry::{DesktopEntry, Invocation, Mode};
use handlr_regex::error::Error;
use handlr_regex::handler::DesktopHandler;
use handlr_regex::mime_type::MimeType;

const CMUS: &str = "[Desktop Entry]\nEncoding=UTF-8\nVersion=1.0\nType=Application\nTerminal=false\nName=cmus\nExec=bash -c \"(! pgrep cmus && tilix -e cmus && tilix -a session-add-down -e cava); sleep 0.1 && cmus-remote -q %f\"\nIcon=cmus\nMimeType=audio/mp3;audio/ogg;\n";

const WEZTERM: &str = "[Desktop Entry]\nName=WezTerm\nComment=Wez's Terminal Emulator\nKeywords=shell;prompt;command;commandline;cmd;\nIcon=org.wezfurlong.wezterm\nStartupWMClass=org.wezfurlong.wezterm\nTryExec=wezterm\nExec=wezterm start --cwd .\nType=Application\nCategories=System;TerminalEmulator;Utility;\nTerminal=false\n";

const HELIX: &str = "[Desktop Entry]\nName=Helix\nGenericName=Text Editor\nComment=Edit text files\nTryExec=hx\nExec=hx %F\nTerminal=true\nType=Application\nKeywords=Text;editor;\nIcon=helix\nCategories=Utility;TextEditor;\nStartupNotify=false\nMimeType=text/english;text/plain;\n";

fn strings(v: &[&str]) -> Vec<String> {
    v.iter().map(|s| s.to_string()).collect()
}

fn parse(content: &str, path: &str, file_name: &str) -> Result<DesktopEntry, Error> {
    DesktopEntry::parse_file(content, path, file_name, &Vec::new())
}

// The command of an entry for the one argument `test`, in the state `config`.
fn test_get_cmd(entry: &DesktopEntry, config: &mut Config, terminal: Option<&DesktopEntry>, expected_command: &str) {
    let term = if entry.needs_terminal(config.terminal_output) {
        Some(config.terminal(terminal, &Vec::new()).unwrap().command)
    } else {
        None
    };
    assert_eq!(
        entry.get_cmd(config.terminal_output, term.as_deref(), &strings(&["test"])).unwrap(),
        expected_command
    );
}

#[test]
fn complex_exec() {
    let entry = parse(CMUS, "tests/assets/cmus.desktop", "cmus.desktop").unwrap();
    assert_eq!(entry.mime_type.len(), 2);
    assert_eq!(entry.mime_type[0].as_str(), "audio/mp3");
    assert_eq!(entry.mime_type[1].as_str(), "audio/ogg");
    assert!(!entry.is_terminal_emulator());

    test_get_cmd(
        &entry,
        &mut Config::default(),
        None,
        "bash -c \"(! pgrep cmus && tilix -e cmus && tilix -a session-add-down -e cava); sleep 0.1 && cmus-remote -q test\"",
    );
}

#[test]
fn terminal_emulator() {
    let entry = parse(
        WEZTERM,
        "tests/assets/org.wezfurlong.wezterm.desktop",
        "org.wezfurlong.wezterm.desktop",
    )
    .unwrap();
    assert!(entry.mime_type.is_empty());
    assert!(entry.is_terminal_emulator());

    test_get_cmd(&entry, &mut Config::default(), None, "wezterm start --cwd . test");
}

#[test]
fn terminal_application_command() {
    let mut config = Config::default();
    config.terminal_output = false;

    config.add_handler(
        &MimeType::from_str("x-scheme-handler/terminal").unwrap(),
        &DesktopHandler::assume_valid("tests/assets/org.wezfurlong.wezterm.desktop".into()),
    );

    let terminal = parse(
        WEZTERM,
        "tests/assets/org.wezfurlong.wezterm.desktop",
        "org.wezfurlong.wezterm.desktop",
    )
    .unwrap();
    let entry = parse(HELIX, "tests/assets/Helix.desktop", "Helix.desktop").unwrap();

    test_get_cmd(&entry, &mut config, Some(&terminal), "wezterm start --cwd . -e hx test");
}

#[test]
fn field_code_is_replaced_by_the_arguments() {
    let entry = DesktopEntry::fake_entry("vlc %U", false);
    assert_eq!(entry.get_cmd(false, None, &strings(&["a.mp4"])).unwrap(), "vlc a.mp4");
}

#[test]
fn arguments_follow_a_command_without_field_code() {
    let entry = DesktopEntry::fake_entry("vlc", false);
    assert_eq!(entry.get_cmd(false, None, &strings(&["a.mp4"])).unwrap(), "vlc a.mp4");
}

#[test]
fn terminal_command_stands_before_the_command() {
    let entry = DesktopEntry::fake_entry("vim test", true);
    assert_eq!(
        entry.get_cmd(false, Some("alacritty -e"), &Vec::new()).unwrap(),
        "alacritty -e vim test"
    );
}

#[test]
fn terminal_command_is_left_out_inside_a_terminal() {
    let entry = DesktopEntry::fake_entry("vim %f", true);
    assert_eq!(
        entry.get_cmd(true, Some("alacritty -e"), &strings(&["a.txt"])).unwrap(),
        "vim a.txt"
    );
    assert_eq!(entry.get_cmd(true, None, &strings(&["a.txt"])).unwrap(), "vim a.txt");
}

#[test]
fn missing_terminal_is_an_error() {
    let entry = DesktopEntry::fake_entry("vim %f", true);
    assert_eq!(entry.get_cmd(false, None, &strings(&["a.txt"])), Err(Error::NoTerminal));
    assert_eq!(
        entry.run(false, None, Mode::Open, &strings(&["a.txt"])),
        Err(Error::NoTerminal)
    );
}

#[test]
fn only_the_first_field_code_is_replaced() {
    let entry = DesktopEntry::fake_entry("play %f --also %u", false);
    assert_eq!(
        entry.get_cmd(false, None, &strings(&["a", "b"])).unwrap(),
        "play a b --also %u"
    );
}

#[test]
fn field_codes_are_found_in_either_case() {
    for code in ["%f", "%F", "%u", "%U"] {
        let entry = DesktopEntry::fake_entry(&format!("open {code} end"), false);
        assert_eq!(entry.get_cmd(false, None, &strings(&["x"])).unwrap(), "open x end");
    }
    let entry = DesktopEntry::fake_entry("open %i %c", false);
    assert_eq!(entry.get_cmd(false, None, &strings(&["x"])).unwrap(), "open %i %c x");
}

#[test]
fn command_line_is_trimmed() {
    let entry = DesktopEntry::fake_entry("  vlc %U", false);
    assert_eq!(entry.get_cmd(false, None, &Vec::new()).unwrap(), "vlc");
    let entry = DesktopEntry::fake_entry("vlc", false);
    assert_eq!(entry.get_cmd(false, None, &Vec::new()).unwrap(), "vlc");
    let entry = DesktopEntry::fake_entry("\t vlc\u{a0}\n", false);
    assert_eq!(entry.get_cmd(false, None, &strings(&[" "])).unwrap(), "vlc");
}

#[test]
fn the_filled_command_is_not_trimmed() {
    let entry = DesktopEntry::fake_entry(" vlc %u --quiet ", true);
    assert_eq!(entry.fill(&strings(&["a", "b"])), " vlc a b --quiet ");
    assert_eq!(entry.fill(&Vec::new()), " vlc  --quiet ");
    let entry = DesktopEntry::fake_entry("vlc", false);
    assert_eq!(entry.fill(&Vec::new()), "vlc ");
    assert_eq!(entry.fill(&strings(&["a.mp4"])), "vlc a.mp4");
}

#[test]
fn percent_at_the_end_is_no_field_code() {
    let entry = DesktopEntry::fake_entry("rate 100%", false);
    assert_eq!(entry.get_cmd(false, None, &strings(&["x"])).unwrap(), "rate 100% x");
}

fn commands(starts: &[Invocation]) -> Vec<String> {
    starts.iter().map(|s| s.command.clone()).collect()
}

#[test]
fn without_arguments_the_program_starts_once() {
    let entry = DesktopEntry::fake_entry("vlc %f", false);
    let starts = entry.run(false, None, Mode::Open, &Vec::new()).unwrap();
    assert_eq!(commands(&starts), vec!["vlc"]);
}

#[test]
fn one_start_for_each_argument() {
    let entry = DesktopEntry::fake_entry("vlc %f", false);
    let starts = entry.run(false, None, Mode::Open, &strings(&["a", "b", "c"])).unwrap();
    assert_eq!(commands(&starts), vec!["vlc a", "vlc b", "vlc c"]);
    assert!(starts.iter().all(|s| !s.wait));
}

#[test]
fn one_start_for_all_arguments_of_a_list_code() {
    let entry = DesktopEntry::fake_entry("vlc %F", false);
    assert!(entry.takes_many());
    let starts = entry.run(false, None, Mode::Open, &strings(&["a", "b"])).unwrap();
    assert_eq!(commands(&starts), vec!["vlc a b"]);
    let entry = DesktopEntry::fake_entry("vlc %U", false);
    let starts = entry.run(false, None, Mode::Open, &strings(&["a", "b"])).unwrap();
    assert_eq!(commands(&starts), vec!["vlc a b"]);
}

#[test]
fn one_start_for_all_arguments_when_launched() {
    let entry = DesktopEntry::fake_entry("vlc %f", false);
    assert!(!entry.takes_many());
    let starts = entry.run(false, None, Mode::Launch, &strings(&["a", "b"])).unwrap();
    assert_eq!(commands(&starts), vec!["vlc a b"]);
}

#[test]
fn a_terminal_program_is_waited_for_inside_a_terminal() {
    let entry = DesktopEntry::fake_entry("vim %f", true);
    let starts = entry.run(true, None, Mode::Open, &strings(&["a"])).unwrap();
    assert_eq!(starts, vec![Invocation { command: "vim a".to_string(), wait: true }]);
    let starts = entry.run(false, Some("xterm -e"), Mode::Open, &strings(&["a"])).unwrap();
    assert_eq!(starts, vec![Invocation { command: "xterm -e vim a".to_string(), wait: false }]);
}

#[test]
fn fake_entry_holds_command_and_flag_alone() {
    let entry = DesktopEntry::fake_entry("freetube %u", true);
    assert_eq!(
        entry,
        DesktopEntry {
            name: String::new(),
            command: "freetube %u".to_string(),
            file_name: String::new(),
            terminal: true,
            mime_type: Vec::new(),
            categories: Vec::new(),
        }
    );
}
