use game_client::serving::{
    contains_text, must_reload_file, response_from_url, skipped, FileType, Served,
};

#[test]
fn a_file_of_text_is_its_text_and_its_bytes() {
    let file = FileType::Text("héllo".to_string());
    assert_eq!(file.clone().text(), "héllo");
    assert_eq!(file.bin(), "héllo".as_bytes().to_vec());
}

#[test]
fn a_file_of_bytes_has_no_text() {
    let file = FileType::Bin(vec![0, 159, 146, 150]);
    assert_eq!(file.clone().text(), "ERROR. FILE IS BINARY.");
    assert_eq!(file.bin(), vec![0, 159, 146, 150]);
}

#[test]
fn pages_and_drawings_are_handed_out_as_text() {
    match response_from_url("", FileType::Text("<p>".to_string())) {
        Served::Html(text) => assert_eq!(text, "<p>"),
        other => panic!("{:?}", other),
    }
    match response_from_url("html", FileType::Bin(vec![1])) {
        Served::Html(text) => assert_eq!(text, "ERROR. FILE IS BINARY."),
        other => panic!("{:?}", other),
    }
    match response_from_url("svg", FileType::Text("<svg/>".to_string())) {
        Served::Svg(text) => assert_eq!(text, "<svg/>"),
        other => panic!("{:?}", other),
    }
}

fn kind_of(extension: &str) -> (String, Vec<u8>) {
    match response_from_url(extension, FileType::Text("a".to_string())) {
        Served::Data { content_type, body } => (content_type.to_string(), body),
        other => panic!("{:?}", other),
    }
}

#[test]
fn other_files_are_handed_out_as_bytes_of_their_kind() {
    assert_eq!(kind_of("css"), ("text/css; charset=utf-8".to_string(), vec![b'a']));
    assert_eq!(kind_of("js"), ("text/javascript; charset=utf-8".to_string(), vec![b'a']));
    assert_eq!(kind_of("wasm"), ("application/wasm".to_string(), vec![b'a']));
    assert_eq!(kind_of("png"), ("application/octet-stream".to_string(), vec![b'a']));
    assert_eq!(kind_of("HTML"), ("application/octet-stream".to_string(), vec![b'a']));
}

#[test]
fn only_changed_files_of_the_host_are_read_again() {
    for extension in ["", "html", "js", "css", "svg", "wasm", "glsl", "png", "csv", "ttf"] {
        assert!(must_reload_file(true, Some(extension)), "{}", extension);
        assert!(!must_reload_file(false, Some(extension)), "{}", extension);
    }
    assert!(!must_reload_file(true, Some("rs")));
    assert!(!must_reload_file(true, Some("htm")));
    assert!(!must_reload_file(true, Some("html5")));
    assert!(!must_reload_file(true, None));
}

#[test]
fn a_part_is_found_wherever_it_stands() {
    assert!(contains_text("abc", ""));
    assert!(contains_text("", ""));
    assert!(!contains_text("", "a"));
    assert!(contains_text("abc", "abc"));
    assert!(contains_text("abc", "bc"));
    assert!(contains_text("abc", "ab"));
    assert!(!contains_text("abc", "abcd"));
    assert!(!contains_text("abc", "ac"));
    assert!(contains_text("naïve/src/é", "src/"));
    assert!(contains_text("ababac", "abac"));
}

#[test]
fn builds_and_sources_are_left_out() {
    assert!(skipped("/articles/navmesh/build/game.js"));
    assert!(skipped("/articles/navmesh/wasm_src/lib.rs"));
    assert!(skipped("/articles/src/index.html"));
    assert!(!skipped("/articles/navmesh/index.html"));
    assert!(!skipped("/articles/navmesh/build"));
    assert!(!skipped("/"));
}
