use cursor_reset::install::{
    bundle_candidates, choose_install_path,
    chars_of, find_chars, first_line, install_info_from_sources, language_from_language_packs,
    language_from_preferences, remove_char, trim_chars, trim_text, user_from_git_log,
    user_from_install_path, user_from_sentry_scope, InstallSources,
};

fn sources() -> InstallSources {
    InstallSources {
        version_output: None,
        preferences: None,
        git_log: None,
        sentry_scope: None,
        language_packs: None,
        zh_pack_dir_exists: false,
    }
}

#[test]
fn preferences_language_is_cleaned() {
    let prefs = "{\"spellcheck\":{\"dictionaries\":[\" en-US \"],\"x\":1}}";
    assert_eq!(language_from_preferences(prefs), Some("en-US".to_string()));
    assert_eq!(language_from_preferences("{\"dictionaries\":[]}"), None);
    assert_eq!(language_from_preferences("{\"dictionaries\":[\"de\""), None);
    assert_eq!(language_from_preferences("{}"), None);
}

#[test]
fn git_log_gives_name_and_email() {
    let log = "x.log: Stored git author name in global state: Ann Lee <ann@example.com>\n";
    assert_eq!(user_from_git_log(log), Some("Ann Lee (ann@example.com)".to_string()));
    assert_eq!(user_from_git_log("global state: <a@b>"), None);
    assert_eq!(user_from_git_log("global state: Ann <>"), None);
    assert_eq!(user_from_git_log("global state: Ann"), None);
    assert_eq!(user_from_git_log(""), None);
}

#[test]
fn sentry_scope_gives_email() {
    let scope = "{\"user\":{\"email\":\"ann@example.com\",\"id\":1}}";
    assert_eq!(user_from_sentry_scope(scope), Some("\u{7528}\u{6237}(ann@example.com)".to_string()));
    assert_eq!(user_from_sentry_scope("{\"email\":\"\"}"), None);
    assert_eq!(user_from_sentry_scope("{\"email\":"), None);
    assert_eq!(user_from_sentry_scope("{}"), None);
}

#[test]
fn language_packs_prefer_chinese() {
    assert_eq!(language_from_language_packs("{\"zh-cn\":{},\"en\":{}}"), Some("zh-cn".to_string()));
    assert_eq!(language_from_language_packs("{\"en\":{}}"), Some("en".to_string()));
    assert_eq!(language_from_language_packs("{}"), None);
}

#[test]
fn install_path_names_the_account() {
    assert_eq!(user_from_install_path("/Users/ann/Applications/Cursor.app"), Some("ann".to_string()));
    assert_eq!(user_from_install_path("/Applications/Cursor.app"), None);
    assert_eq!(user_from_install_path("/Users/ann"), None);
}

#[test]
fn first_line_strips_line_ending() {
    assert_eq!(first_line("/a/Cursor.app\r\n/b\n"), Some("/a/Cursor.app".to_string()));
    assert_eq!(first_line("/only"), Some("/only".to_string()));
    assert_eq!(first_line("\n"), Some(String::new()));
    assert_eq!(first_line(""), None);
}

#[test]
fn trimming_and_removal() {
    assert_eq!(trim_text("  0.45.1\n"), "0.45.1");
    assert_eq!(trim_text("\u{3000}x\u{a0}"), "x");
    assert_eq!(trim_chars(&chars_of(" \t ")), Vec::<char>::new());
    assert_eq!(remove_char(&chars_of("a\"b\"c"), '"'), chars_of("abc"));
    assert_eq!(find_chars(&chars_of("abcabc"), &chars_of("ca"), 0), Some(2));
    assert_eq!(find_chars(&chars_of("abcabc"), &chars_of("bc"), 2), Some(4));
    assert_eq!(find_chars(&chars_of("abc"), &chars_of("x"), 0), None);
}

#[test]
fn install_info_without_bundle_information_keeps_path_only() {
    let i = install_info_from_sources("/Users/ann/Applications/Cursor.app", None);
    assert_eq!(i.install_path, "/Users/ann/Applications/Cursor.app");
    assert_eq!(i.install_user, "");
    assert_eq!(i.install_language, "");
    assert_eq!(i.install_version, "");
}

#[test]
fn install_info_takes_first_source_that_answers() {
    let mut s = sources();
    s.version_output = Some("1.2.3\n".to_string());
    s.language_packs = Some("{\"en\":1}".to_string());
    s.zh_pack_dir_exists = true;
    s.sentry_scope = Some("{\"email\":\"a@b.c\"}".to_string());
    let i = install_info_from_sources("/Users/ann/Applications/Cursor.app", Some(&s));
    assert_eq!(i.install_version, "1.2.3");
    assert_eq!(i.install_language, "en");
    assert_eq!(i.install_user, "\u{7528}\u{6237}(a@b.c)");

    let mut t = sources();
    t.zh_pack_dir_exists = true;
    let j = install_info_from_sources("/Users/bob/Applications/Cursor.app", Some(&t));
    assert_eq!(j.install_language, "zh-cn");
    assert_eq!(j.install_user, "bob");
    assert_eq!(j.install_version, "");
}

#[test]
fn install_path_prefers_system_bundle() {
    assert_eq!(
        bundle_candidates("/Users/ann"),
        vec!["/Applications/Cursor.app".to_string(), "/Users/ann/Applications/Cursor.app".to_string()]
    );
    assert_eq!(choose_install_path("/Users/ann", &vec![true], None), "/Applications/Cursor.app");
    assert_eq!(
        choose_install_path("/Users/ann", &vec![false, true], Some("/x\n")),
        "/Users/ann/Applications/Cursor.app"
    );
    assert_eq!(choose_install_path("/Users/ann", &vec![false, false], Some("/Vol/Cursor.app\n/y\n")), "/Vol/Cursor.app");
    assert_eq!(choose_install_path("/Users/ann", &vec![false, false], Some("")), "");
    assert_eq!(choose_install_path("/Users/ann", &vec![], None), "");
}
