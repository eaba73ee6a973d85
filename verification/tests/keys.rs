use std::collections::BTreeMap;

use agmsg_tui::input::{KeyCode, KeyEvent, KeyModifiers};
use agmsg_tui::keys::chord::{chord_to_string, parse_chord, Chord};
use agmsg_tui::keys::map::{default_bindings, KeyMap};
use agmsg_tui::keys::Action;

fn key(code: KeyCode, mods: KeyModifiers) -> KeyEvent {
    KeyEvent::new(code, mods)
}

fn none() -> KeyModifiers {
    KeyModifiers::none()
}

fn chord(code: KeyCode, modifiers: KeyModifiers) -> Chord {
    Chord { code, modifiers }
}

fn load(content: &str) -> (KeyMap, Vec<String>) {
    KeyMap::load("keys.toml", &Some(content.to_owned()))
}

#[test]
fn parses_ctrl_prefixed_chord() {
    assert_eq!(
        parse_chord("ctrl+s").unwrap(),
        chord(KeyCode::Char('s'), KeyModifiers::ctrl())
    );
}

#[test]
fn parses_alt_prefixed_named_key() {
    assert_eq!(
        parse_chord("alt+enter").unwrap(),
        chord(KeyCode::Enter, KeyModifiers { control: false, alt: true, shift: false })
    );
}

#[test]
fn parses_shift_prefixed_named_key() {
    assert_eq!(
        parse_chord("shift+tab").unwrap(),
        chord(KeyCode::Tab, KeyModifiers { control: false, alt: false, shift: true })
    );
}

#[test]
fn parses_bare_char() {
    assert_eq!(parse_chord("q").unwrap(), chord(KeyCode::Char('q'), none()));
}

#[test]
fn parses_bare_uppercase_char_distinct_from_lowercase() {
    assert_eq!(parse_chord("A").unwrap(), chord(KeyCode::Char('A'), none()));
    assert_ne!(parse_chord("A").unwrap(), parse_chord("a").unwrap());
}

#[test]
fn parses_named_keys_case_insensitively() {
    assert_eq!(parse_chord("ENTER").unwrap().code, KeyCode::Enter);
    assert_eq!(parse_chord("Esc").unwrap().code, KeyCode::Esc);
    assert_eq!(parse_chord("F1").unwrap().code, KeyCode::F(1));
    assert_eq!(parse_chord("f12").unwrap().code, KeyCode::F(12));
}

#[test]
fn rejects_garbage() {
    assert!(parse_chord("").is_err());
    assert!(parse_chord("ctrl+").is_err());
    assert!(parse_chord("banana+q").is_err());
    assert!(parse_chord("f13").is_err());
    assert!(parse_chord("f0").is_err());
    assert!(parse_chord("notakey").is_err());
}

#[test]
fn missing_file_yields_defaults_and_no_warnings() {
    let (keymap, warnings) = KeyMap::load("/nonexistent/agmsg-tui/keys.toml", &None);
    assert!(warnings.is_empty());
    assert_eq!(keymap.lookup(key(KeyCode::Char('q'), none())), Some(Action::Quit));
}

#[test]
fn default_load_produces_expected_quit_binding() {
    let keymap = KeyMap::default();
    assert_eq!(keymap.lookup(key(KeyCode::Char('q'), none())), Some(Action::Quit));
}

#[test]
fn partial_override_keeps_other_defaults() {
    let (keymap, warnings) = load("[keys]\nquit = \"Q\"\n\n");
    assert!(warnings.is_empty(), "unexpected warnings: {warnings:?}");
    assert_eq!(keymap.lookup(key(KeyCode::Char('Q'), none())), Some(Action::Quit));
    assert_eq!(keymap.lookup(key(KeyCode::Char('q'), none())), None);
    assert_eq!(keymap.lookup(key(KeyCode::Char('?'), none())), Some(Action::Help));
    assert_eq!(
        keymap.lookup(key(KeyCode::Char('a'), KeyModifiers::ctrl())),
        Some(Action::Audit)
    );
}

#[test]
fn invalid_key_falls_back_to_default_and_warns() {
    let (keymap, warnings) = load("[keys]\nquit = \"notakey\"\n");
    assert_eq!(warnings.len(), 1);
    assert!(warnings[0].contains("quit"));
    assert!(warnings[0].contains("notakey"));
    assert_eq!(keymap.lookup(key(KeyCode::Char('q'), none())), Some(Action::Quit));
}

#[test]
fn unknown_action_name_warns_and_is_ignored() {
    let (keymap, warnings) = load("[keys]\nfrobnicate = \"z\"\n");
    assert_eq!(warnings.len(), 1);
    assert!(warnings[0].contains("frobnicate"));
    assert_eq!(keymap.lookup(key(KeyCode::Char('z'), none())), None);
}

#[test]
fn duplicate_chord_in_user_file_last_wins_with_warning() {
    let (keymap, warnings) = load("[keys]\naudit = \"x\"\nquit = \"x\"\n");
    assert!(
        warnings.iter().any(|w| w.contains("bound to both")),
        "expected duplicate-chord warning, got: {warnings:?}"
    );
    assert_eq!(keymap.lookup(key(KeyCode::Char('x'), none())), Some(Action::Quit));
}

#[test]
fn malformed_toml_file_falls_back_to_defaults_with_warning() {
    let (keymap, warnings) = load("this is not [ valid toml");
    assert_eq!(warnings.len(), 1);
    assert_eq!(keymap.lookup(key(KeyCode::Char('q'), none())), Some(Action::Quit));
}

#[test]
fn default_toml_round_trips_to_default() {
    let text = KeyMap::default_toml();
    let parsed: toml::Table = toml::from_str(&text).expect("default_toml must be valid TOML");
    let keys = parsed["keys"].as_table().expect("keys");
    assert_eq!(keys.len(), default_bindings().len());
    for binding in default_bindings() {
        let name = binding.action.name();
        let chord_str = keys[name].as_str().expect("every action has a chord");
        assert_eq!(
            parse_chord(chord_str).unwrap(),
            binding.chord,
            "action '{name}' round-trip mismatch"
        );
    }
}

#[test]
fn print_default_keys_output_parses_and_loads_same_as_default() {
    let (keymap, warnings) = load(&KeyMap::default_toml());
    assert!(warnings.is_empty(), "unexpected warnings: {warnings:?}");
    for binding in default_bindings() {
        assert_eq!(
            keymap.lookup(key(binding.chord.code, binding.chord.modifiers)),
            Some(binding.action),
            "action '{}' did not round-trip",
            binding.action.name()
        );
    }
}

#[test]
fn every_chord_is_read_back_as_it_is_written() {
    for text in ["ctrl+s", "alt+enter", "shift+tab", "Q", "f12", "space"] {
        let read = parse_chord(text).unwrap();
        assert_eq!(parse_chord(&chord_to_string(read)).unwrap(), read);
    }
    assert_eq!(Action::from_name("quit"), Some(Action::Quit));
    assert_eq!(Action::from_name("nothing"), None);
}

#[test]
fn shift_counts_for_named_keys_only() {
    let keymap = KeyMap::default();
    let shift = KeyModifiers { control: false, alt: false, shift: true };
    assert_eq!(keymap.lookup(key(KeyCode::Char('q'), shift)), Some(Action::Quit));
}

#[test]
fn a_setting_of_another_type_is_warned_of() {
    let (keymap, warnings) = load("[keys]\nquit = 3\n");
    assert_eq!(warnings.len(), 1);
    assert!(warnings[0].contains("TOML parse error at line 2, column 8"), "{}", warnings[0]);
    assert_eq!(keymap.lookup(key(KeyCode::Char('q'), none())), Some(Action::Quit));
}

#[test]
fn errors_are_told_as_the_parser_tells_them() {
    for content in [
        "this is not [ valid toml",
        "[keys]\nquit = \"x\"\nquit = \"y\"\n",
        "[keys]\nhelp = \"h\"\nquit = [\"x\"]\n",
        "keys = 5\n",
        "keys = \"q\"\n",
        "[keys]\nquit = 999999999999999999999999999999999999999999\n",
    ] {
        let read = toml::from_str::<BTreeMap<String, BTreeMap<String, String>>>(content);
        let told = match read {
            Ok(_) => panic!("read: {}", content),
            Err(error) => error.to_string(),
        };
        let (_, warnings) = load(content);
        assert_eq!(warnings.len(), 1);
        let expected = format!("keys.toml: could not parse keys.toml ({told}); using defaults");
        assert_eq!(warnings[0], expected);
    }
    let (_, warnings) = load("[other]\nsize = 1\n[keys]\nquit = true\n");
    assert!(warnings[0].contains("TOML parse error at line 4, column 8"), "{}", warnings[0]);
}

#[test]
fn a_number_that_is_too_large_spoils_the_file() {
    let content = "[keys]\nquit = \"x\"\n[other]\nsize = 999999999999999999999999999999999999999999\n";
    let (keymap, warnings) = load(content);
    assert_eq!(warnings.len(), 1);
    assert!(warnings[0].contains("line 4"), "{}", warnings[0]);
    assert_eq!(keymap.bindings, default_bindings());
}

#[test]
fn a_file_without_the_table_changes_nothing() {
    let (keymap, warnings) = load("[other]\nquit = 3\n");
    assert!(warnings.is_empty());
    assert_eq!(keymap.bindings, default_bindings());
    let (none, silent) = KeyMap::with_entries(Ok(None), "keys.toml");
    assert!(silent.is_empty());
    assert_eq!(none.bindings, default_bindings());
}
