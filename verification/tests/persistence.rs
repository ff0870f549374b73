use tuish::alias::AliasStore;
use tuish::config::{parse_config, Config};

fn chars_of(s: &str) -> Vec<char> {
    s.chars().collect()
}

fn sample_config() -> Config {
    let mut store = AliasStore::new();
    store.add(chars_of("build"), chars_of("cargo build"), Some('b'));
    store.add(chars_of("odd name"), chars_of("printf 'a\tb\nc' \\\\"), Some('\t'));
    store.add(chars_of("plain"), chars_of(""), None);
    Config { aliases: store, default_shell: chars_of("/bin/zsh") }
}

#[test]
fn save_then_load_then_save_is_byte_stable() {
    let cfg = sample_config();
    let text1 = cfg.save_to_text();
    let cfg2 = Config::load_from_text(&text1, chars_of("sh"));
    let text2 = cfg2.save_to_text();
    assert_eq!(text1, text2);
    let cfg3 = Config::load_from_text(&text2, chars_of("other"));
    let text3 = cfg3.save_to_text();
    assert_eq!(text2, text3);
}

#[test]
fn loading_a_saved_file_recovers_every_field() {
    let cfg = sample_config();
    let text = cfg.save_to_text();
    let back = Config::load_from_text(&text, chars_of("sh"));
    assert_eq!(back.default_shell, chars_of("/bin/zsh"));
    assert_eq!(back.aliases.len(), 3);
    assert_eq!(back.aliases.get(0).name, chars_of("build"));
    assert_eq!(back.aliases.get(0).command, chars_of("cargo build"));
    assert_eq!(back.aliases.get(0).keybind, Some('b'));
    assert_eq!(back.aliases.get(1).name, chars_of("odd name"));
    assert_eq!(back.aliases.get(1).command, chars_of("printf 'a\tb\nc' \\\\"));
    assert_eq!(back.aliases.get(1).keybind, Some('\t'));
    assert_eq!(back.aliases.get(2).command, chars_of(""));
    assert_eq!(back.aliases.get(2).keybind, None);
}

#[test]
fn serialized_form_is_the_documented_text() {
    let mut store = AliasStore::new();
    store.add(chars_of("ls"), chars_of("ls -la"), Some('l'));
    let cfg = Config { aliases: store, default_shell: chars_of("/bin/bash") };
    assert_eq!(cfg.save_to_text(), chars_of("/bin/bash\nls\tls -la\tl"));
}

#[test]
fn separators_are_escaped_in_the_file() {
    let mut store = AliasStore::new();
    store.add(chars_of("a\nb"), chars_of("c\td"), Some('\\'));
    let cfg = Config { aliases: store, default_shell: chars_of("sh") };
    assert_eq!(cfg.save_to_text(), chars_of("sh\na\\nb\tc\\td\t\\\\"));
}

#[test]
fn malformed_text_falls_back_to_an_empty_default() {
    // A trailing backslash cannot be unescaped.
    let cfg = Config::load_from_text(&chars_of("sh\\"), chars_of("fallback"));
    assert_eq!(cfg.aliases.len(), 0);
    assert_eq!(cfg.default_shell, chars_of("fallback"));

    // An alias line with the wrong number of fields is rejected.
    let cfg = Config::load_from_text(&chars_of("sh\nname only"), chars_of("fallback"));
    assert_eq!(cfg.aliases.len(), 0);
    assert_eq!(cfg.default_shell, chars_of("fallback"));

    // A keybind field of more than one character is rejected.
    let cfg = Config::load_from_text(&chars_of("sh\nn\tc\tab"), chars_of("fallback"));
    assert_eq!(cfg.aliases.len(), 0);
    assert_eq!(cfg.default_shell, chars_of("fallback"));

    // An unknown escape is rejected.
    let cfg = Config::load_from_text(&chars_of("sh\nn\\q\tc\t"), chars_of("fallback"));
    assert_eq!(cfg.aliases.len(), 0);
}

#[test]
fn empty_text_parses_as_an_empty_shell_and_no_aliases() {
    let parsed = parse_config(&chars_of("")).expect("empty text is one empty line");
    assert_eq!(parsed.aliases.len(), 0);
    assert_eq!(parsed.default_shell, chars_of(""));
}

#[test]
fn empty_keybind_field_means_no_keybind() {
    let parsed = parse_config(&chars_of("sh\nn\tc\t")).expect("well-formed line");
    assert_eq!(parsed.aliases.len(), 1);
    assert_eq!(parsed.aliases.get(0).keybind, None);
}
