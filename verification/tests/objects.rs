use cyan_backend::cli::{read_prompt, PromptCommand};
use cyan_backend::objects::{color_change, pack_records, BoardObjects};

fn objects() -> BoardObjects {
    BoardObjects {
        paths: vec![vec![1, 2]],
        sticky_notes: vec![],
        rectangles: vec![],
        circles: vec![vec![9, 9, 9]],
        arrows: vec![],
        text_objects: vec![vec![7]],
    }
}

#[test]
fn objects_are_written_type_by_type() {
    let all = objects().load_board_objects(100);
    assert_eq!(
        all,
        vec![3, 0, 0, 0, 1, 2, 0, 0, 0, 1, 2, 4, 3, 0, 0, 0, 9, 9, 9, 6, 1, 0, 0, 0, 7]
    );
    assert_eq!(objects().load_board_objects(25), all);
}

#[test]
fn what_does_not_fit_is_left_out() {
    assert!(objects().load_board_objects(3).is_empty());
    assert_eq!(objects().load_board_objects(4), vec![3, 0, 0, 0]);
    assert_eq!(
        objects().load_board_objects(17),
        vec![3, 0, 0, 0, 1, 2, 0, 0, 0, 1, 2, 6, 1, 0, 0, 0, 7]
    );
}

#[test]
fn records_fit_all_or_none() {
    let items = vec![vec![1, 2], vec![3, 4]];
    let packed = pack_records(&items, 2, 4);
    assert_eq!(packed.bytes, Some(vec![1, 2, 3, 4]));
    assert_eq!(packed.actual_size, 4);
    let packed = pack_records(&items, 2, 3);
    assert_eq!(packed.bytes, None);
    assert_eq!(packed.actual_size, 4);
    assert_eq!(color_change(0, 0, 0, 0), None);
    assert_eq!(color_change(0, 1, 0, 0), Some([0, 1, 0, 0]));
}

#[test]
fn prompts_are_read() {
    assert_eq!(read_prompt(" quit \n"), PromptCommand::Quit);
    assert_eq!(read_prompt("exit"), PromptCommand::Quit);
    assert_eq!(read_prompt("help"), PromptCommand::Help);
    assert_eq!(read_prompt("lg"), PromptCommand::ListGroups);
    assert_eq!(read_prompt("list-groups"), PromptCommand::ListGroups);
    assert_eq!(read_prompt("  "), PromptCommand::Nothing);
    let create = |n: &str| PromptCommand::CreateGroup { name: n.to_string() };
    assert_eq!(read_prompt("create-group  My team "), create("My team"));
    assert_eq!(read_prompt("create-group"), create("New Group"));
    assert_eq!(read_prompt("create-groupx y"), create("y"));
    assert_eq!(
        read_prompt("dance now"),
        PromptCommand::Unknown { command: "dance now".to_string() }
    );
}
