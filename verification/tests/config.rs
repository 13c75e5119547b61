use backstitch::accessors::BackstitchConfigAccessor;
use backstitch::config::{BackstitchConfig, IniFile, CONFIG_FILE_NAME, USER_DIR_NAME};
use backstitch::escape::{decode_hex_escape, decode_value, encode_value};
use backstitch::history::DocumentId;

fn load_config(text: &str) -> BackstitchConfig {
    BackstitchConfig::new(Some(text), None)
}

#[test]
fn missing_files_read_as_empty() {
    let config = BackstitchConfig::new(None, None);
    assert_eq!(config.get_project_value("server_url", "fallback"), "fallback");
    assert_eq!(config.get_user_value("user_name", "Anonymous"), "Anonymous");
    assert_eq!(config.get_project_value("project_doc_id", ""), "");
}

#[test]
fn writes_godot_config_file_format() {
    let mut config = BackstitchConfig::new(None, None);
    let text = config.set_project_value("server_url", "alpha.backstitch.dev:8085");
    assert_eq!(text, "[backstitch]\nserver_url=\"alpha.backstitch.dev:8085\"\n");
}

#[test]
fn reads_quoted_and_unquoted_values() {
    let config = load_config(
        "; a comment\n[backstitch]\nserver_url=\"quoted.example.com\"\nproject_doc_id=bare\n",
    );
    assert_eq!(config.get_project_value("server_url", ""), "quoted.example.com");
    assert_eq!(config.get_project_value("project_doc_id", ""), "bare");
}

#[test]
fn round_trips_every_c_escape() {
    let mut config = BackstitchConfig::new(None, None);
    let value = "\\\u{07}\u{08}\u{0c}\n\r\t\u{0b}'\"";
    let text = config.set_project_value("weird", value);
    assert_eq!(text, "[backstitch]\nweird=\"\\\\\\a\\b\\f\\n\\r\\t\\v\\'\\\"\"\n");
    assert_eq!(load_config(&text).get_project_value("weird", ""), value);
}

#[test]
fn decodes_hex_escapes() {
    let config = load_config(
        "[backstitch]\nshort=\"caf\\u00e9\"\nlong=\"\\U01f600\"\nbroken=\"\\uzz\"\n",
    );
    assert_eq!(config.get_project_value("short", ""), "café");
    assert_eq!(config.get_project_value("long", ""), "😀");
    assert_eq!(config.get_project_value("broken", ""), "uzz");
}

#[test]
fn round_trips_a_ci_generated_config() {
    let text = "[backstitch]\nserver_url=\"alpha.backstitch.dev:8085\"\navailable_servers=\"alpha.backstitch.dev:8085\"\n";
    let saved = load_config(text).set_project_value("server_url", "alpha.backstitch.dev:8085");
    assert_eq!(saved, text);
}

#[test]
fn preserves_unknown_keys_and_sections() {
    let mut config =
        load_config("[backstitch]\nmystery=\"keep me\"\n\n[other]\nthing=\"also keep\"\n");
    let saved = config.set_project_value("server_url", "example.com");
    assert_eq!(
        saved,
        "[backstitch]\nmystery=\"keep me\"\nserver_url=\"example.com\"\n\n[other]\nthing=\"also keep\"\n"
    );
}

#[test]
fn user_config_lives_in_its_own_directory() {
    let mut config = BackstitchConfig::new(None, None);
    let user_text = config.set_user_value("user_name", "Lilith");
    config.set_project_value("server_url", "example.com");
    assert_eq!(user_text, "[backstitch]\nuser_name=\"Lilith\"\n");
    assert_eq!(config.get_user_value("server_url", ""), "");
    assert_eq!(USER_DIR_NAME, "backstitch_plugin");
    assert_eq!(CONFIG_FILE_NAME, "backstitch.cfg");
}

#[test]
fn parses_saved_project_doc_id() {
    let mut config = BackstitchConfig::new(None, None);
    let id = "aa3ecb4c-1ee5-4a67-be9e-6ecf1a5c3f2b";
    config.set_project_value("project_doc_id", id);
    assert_eq!(config.get_project_value("project_doc_id", ""), id);
    assert_eq!(BackstitchConfigAccessor::get_project_doc_id(&config), id);
    assert!(DocumentId::from_text(id).is_some());

    config.set_project_value("project_doc_id", "not a doc id");
    assert_eq!(config.get_project_value("project_doc_id", ""), "not a doc id");
    assert!(DocumentId::from_text("not a doc id").is_none());
}

#[test]
fn accessor_reads_and_writes_both_files() {
    let mut config = BackstitchConfig::new(None, None);
    assert_eq!(BackstitchConfigAccessor::get_project_doc_id(&config), "");
    let text = BackstitchConfigAccessor::set_project_value(&mut config, "a", "1");
    assert_eq!(text, "[backstitch]\na=\"1\"\n");
    let text = BackstitchConfigAccessor::set_user_value(&mut config, "b", "2");
    assert_eq!(text, "[backstitch]\nb=\"2\"\n");
    assert_eq!(BackstitchConfigAccessor::get_project_value(&config, "a", ""), "1");
    assert_eq!(BackstitchConfigAccessor::get_project_value(&config, "b", "none"), "none");
    assert_eq!(BackstitchConfigAccessor::get_user_value(&config, "b", ""), "2");
}

#[test]
fn setting_a_value_again_keeps_its_place() {
    let mut config = BackstitchConfig::new(None, None);
    config.set_project_value("a", "1");
    config.set_project_value("b", "2");
    let text = config.set_project_value("a", "3");
    assert_eq!(text, "[backstitch]\na=\"3\"\nb=\"2\"\n");
}

#[test]
fn values_before_the_first_header_are_kept() {
    let mut file = IniFile::load(Some("loose=\"1\"\n[backstitch]\nkey=\"2\"\n"));
    assert_eq!(file.get("key", ""), "2");
    assert_eq!(file.get("loose", "none"), "none");
    let text = file.set("key", "3");
    let again = IniFile::load(Some(&text));
    assert_eq!(again.get("key", ""), "3");
    assert_eq!(again.to_text(), text);
    assert!(text.contains("loose=\"1\""));
}

#[test]
fn white_space_and_comments_are_passed_over() {
    let file = IniFile::load(Some("  # note\n\n ; note\n [backstitch] \n  key  =  value  \nnot a pair\n"));
    assert_eq!(file.get("key", ""), "value");
    assert_eq!(file.to_text(), "[backstitch]\nkey=\"value\"\n");
}

#[test]
fn written_values_read_back() {
    let long: String = (1u32..300).filter_map(char::from_u32).collect();
    for value in ["", "plain", "a\"b", "back\\slash", "new\nline", "tab\tand 'quote'", "üñí😀", &long] {
        let raw = encode_value(value);
        assert_eq!(decode_value(&raw), value);
        assert!(!raw.contains('\n'));
    }
    assert_eq!(encode_value("a\"b"), "\"a\\\"b\"");
}

#[test]
fn odd_raw_values() {
    assert_eq!(decode_value("bare"), "bare");
    assert_eq!(decode_value("\"open"), "\"open");
    assert_eq!(decode_value("\"\\q\""), "q");
    assert_eq!(decode_value("\"\\ud800\""), "u");
}

#[test]
fn hex_escapes_read_a_fixed_number_of_digits() {
    let chars: Vec<char> = "00e9x".chars().collect();
    let mut at: usize = 0;
    assert_eq!(decode_hex_escape(&chars, &mut at, 4), Some('é'));
    assert_eq!(at, 4);
    let mut at: usize = 0;
    assert_eq!(decode_hex_escape(&chars, &mut at, 6), None);
}
