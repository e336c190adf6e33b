use cyan_backend::actors::{make_discovery_topic_id, make_group_topic_id, make_topic_id};
use cyan_backend::ids::{
    new_board_id, new_chat_id, new_group_id, new_named_file_id, new_path_file_id, new_workspace_id,
};

fn digest(text: &str) -> String {
    blake3::hash(text.as_bytes()).to_hex().to_string()
}

#[test]
fn identifiers_are_digests() {
    assert_eq!(new_board_id("w", "n"), digest("wb:w-n"));
    assert_eq!(new_path_file_id("g", "/tmp/a"), digest("file:g:/tmp/a"));
    assert_eq!(new_named_file_id("g", "a.txt", 12), digest("file:g:a.txt:12"));
    for id in [
        new_group_id("g", "t"),
        new_workspace_id("g", "w"),
        new_board_id("w", "b"),
        new_chat_id("w", "m", "t"),
    ] {
        assert_eq!(id.len(), 64);
    }
    assert_ne!(new_group_id("g", "t1"), new_group_id("g", "t2"));
    assert_eq!(new_workspace_id("g", "w"), new_workspace_id("g", "w"));
}

#[test]
fn topics_are_digests_of_names() {
    assert_eq!(make_topic_id("x"), *blake3::hash(b"x").as_bytes());
    assert_ne!(make_group_topic_id("x"), make_topic_id("x"));
    assert_ne!(make_group_topic_id("x"), make_discovery_topic_id("x"));
}
