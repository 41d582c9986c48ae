use e621_downloader::e621::paths::{directory_for, file_path, invalid_char, sanitize};
use e621_downloader::e621::sender::RequestSender;
use e621_downloader::e621::io::create_config;
use e621_downloader::e621::WebConnector;

#[test]
fn each_invalid_character_is_recognised() {
    for c in ['?', ':', '*', '<', '>', '"', '|'] {
        assert!(invalid_char(c), "{:?}", c);
    }
}

#[test]
fn other_characters_are_valid() {
    for c in ['a', 'Z', '0', '_', '-', '.', ' ', '/', '\\', '(', ')', '\'', 'é', '狐'] {
        assert!(!invalid_char(c), "{:?}", c);
    }
}

#[test]
fn sanitize_replaces_each_invalid_character() {
    assert_eq!(sanitize("?:*<>\"|"), "_______");
}

#[test]
fn sanitize_keeps_length_and_other_characters() {
    assert_eq!(sanitize("fox:art"), "fox_art");
    assert_eq!(sanitize("a?b*c"), "a_b_c");
    assert_eq!(sanitize("rating:safe fox"), "rating_safe fox");
    assert_eq!(sanitize("plain_name-1.2"), "plain_name-1.2");
    assert_eq!(sanitize(""), "");
    assert_eq!(sanitize("狐|fox"), "狐_fox");
}

#[test]
fn sanitized_names_hold_no_invalid_character() {
    for name in ["what?", "a:b:c", "*", "<<>>", "say \"hi\"", "a|b", "mixed ?:*<>\"| all"] {
        let clean = sanitize(name);
        assert!(!clean.chars().any(invalid_char), "{}", clean);
        assert_eq!(clean.chars().count(), name.chars().count());
    }
}

#[test]
fn sanitize_twice_is_sanitize_once() {
    let once = sanitize("fox:art?");
    assert_eq!(sanitize(&once), once);
}

#[test]
fn directory_without_category_lies_below_the_root() {
    assert_eq!(directory_for("downloads/", "", "fox:art"), "downloads/fox_art/");
}

#[test]
fn directory_with_category_lies_one_level_deeper() {
    assert_eq!(directory_for("downloads/", "safe", "fox"), "downloads/safe/fox/");
}

#[test]
fn directory_takes_the_root_as_written() {
    assert_eq!(directory_for("", "", "fox"), "fox/");
    assert_eq!(directory_for("C:/dl/", "pools", "a*b"), "C:/dl/pools/a_b/");
}

#[test]
fn category_is_not_sanitized() {
    assert_eq!(directory_for("d/", "a:b", "c:d"), "d/a:b/c_d/");
}

#[test]
fn file_path_appends_the_file_name() {
    assert_eq!(file_path("downloads/fox_art/", "a.jpg"), "downloads/fox_art/a.jpg");
    assert_eq!(file_path("downloads/safe/fox/", "b.png"), "downloads/safe/fox/b.png");
}

#[test]
fn remove_invalid_chars_rewrites_in_place() {
    let connector = WebConnector::new(&RequestSender::new(), Ok(create_config()));
    let mut name = String::from("fox:art");
    connector.remove_invalid_chars(&mut name);
    assert_eq!(name, "fox_art");
    connector.remove_invalid_chars(&mut name);
    assert_eq!(name, "fox_art");
}
