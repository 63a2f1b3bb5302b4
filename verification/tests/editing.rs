use bsh::buffer::Buffer;
use bsh::history::History;

#[test]
fn buffer_insert() {
    let mut buffer = Buffer::new();
    buffer.insert("kumiko");

    assert_eq!(6, buffer.get_cursor());
    assert_eq!(6, buffer.len());
}

#[test]
fn insert_without_moving_cursor() {
    let mut buffer = Buffer::new();
    buffer.insert_without_moving("kumiko");

    assert_eq!(0, buffer.get_cursor());
    assert_eq!(6, buffer.len());
}

#[test]
fn check_empty() {
    let mut buffer = Buffer::new();
    assert!(buffer.is_empty());

    buffer.insert("t");
    assert!(!buffer.is_empty());
}

#[test]
fn move_left() {
    let mut buffer = Buffer::new();
    buffer.move_left();
    assert_eq!(0, buffer.get_cursor());

    buffer.insert("kumiko");
    buffer.move_left();
    assert_eq!(5, buffer.get_cursor());
}

#[test]
fn move_right() {
    let mut buffer = Buffer::new();
    buffer.insert("kumiko");

    buffer.move_right();
    assert_eq!(6, buffer.get_cursor());

    buffer.move_left();
    buffer.move_left();
    buffer.move_left();
    buffer.move_right();
    assert_eq!(4, buffer.get_cursor());
}

#[test]
fn move_to_start() {
    let mut buffer = Buffer::new();
    buffer.insert("kumiko");
    assert_eq!(6, buffer.get_cursor());

    buffer.move_to_start();
    assert_eq!(0, buffer.get_cursor());
}

#[test]
fn move_to_end() {
    let mut buffer = Buffer::new();
    buffer.insert("kumiko");
    buffer.move_left();
    buffer.move_left();
    assert_eq!(4, buffer.get_cursor());

    buffer.move_to_end();
    assert_eq!(6, buffer.get_cursor());
}

#[test]
fn clear_buffer() {
    let mut buffer = Buffer::new();
    buffer.insert("kumiko");
    buffer.clear();

    assert_eq!(0, buffer.get_cursor());
    assert!(buffer.is_empty());
}

#[test]
fn delete_left() {
    let mut buffer = Buffer::new();
    buffer.insert("kumiko");
    buffer.delete_left();

    assert_eq!("kumik", buffer.get());
    assert_eq!(5, buffer.get_cursor());
}

#[test]
fn delete_right() {
    let mut buffer = Buffer::new();
    buffer.insert_without_moving("kumiko");
    buffer.delete_right();

    assert_eq!("umiko", buffer.get());
    assert_eq!(0, buffer.get_cursor());
}

#[test]
fn get_buffer_content() {
    let mut buffer = Buffer::new();
    buffer.insert("kumiko");

    assert_eq!("kumiko", buffer.get());
}

#[test]
fn set_buffer_content() {
    let mut buffer = Buffer::new();
    buffer.set("kumiko".to_string());

    assert_eq!("kumiko", buffer.get());
    assert_eq!(6, buffer.get_cursor());
}

#[test]
fn buffer_cursor_stays_in_range() {
    let mut buffer = Buffer::new();
    buffer.delete_left();
    buffer.delete_right();
    buffer.move_left();
    assert!(buffer.get_cursor() <= buffer.len());
    buffer.insert("abc");
    buffer.move_right();
    assert!(buffer.get_cursor() <= buffer.len());
    buffer.move_to_start();
    buffer.delete_left();
    assert!(buffer.get_cursor() <= buffer.len());
    buffer.delete_right();
    buffer.move_to_end();
    buffer.delete_right();
    assert!(buffer.get_cursor() <= buffer.len());
    buffer.insert_without_moving("xy");
    assert!(buffer.get_cursor() <= buffer.len());
    buffer.clear();
    assert_eq!(0, buffer.get_cursor());
    assert_eq!(0, buffer.len());
}

#[test]
fn history_up() {
    let mut history = History::new();

    assert_eq!(history.up(), None);

    history.commit("kumiko".into());
    history.commit("reina".into());

    assert_eq!(history.up(), Some("reina".into()));
    assert_eq!(history.up(), Some("kumiko".into()));
    assert_eq!(history.up(), Some("kumiko".into()));
}

#[test]
fn history_down() {
    let mut history = History::new();

    assert_eq!(history.down(), None);

    history.commit("kumiko".into());
    history.commit("reina".into());

    assert_eq!(history.down(), None);
    history.up();
    history.up();
    assert_eq!(history.down(), Some("reina".into()));
    assert_eq!(history.down(), None);
}

#[test]
fn find_history() {
    let mut history = History::new();
    history.commit("a123".into());
    history.commit("a456".into());

    assert_eq!(history.find("b"), None);
    assert_eq!(history.find("a"), Some("a456".into()));
    assert_eq!(history.find("a1"), Some("a123".into()));
}

#[test]
fn history_up_down_round_trip() {
    let mut history = History::new();
    history.commit("one".into());
    history.commit("two".into());
    history.commit("three".into());

    assert_eq!(history.up(), Some("three".into()));
    assert_eq!(history.up(), Some("two".into()));
    assert_eq!(history.up(), Some("one".into()));
    assert_eq!(history.down(), Some("two".into()));
    assert_eq!(history.down(), Some("three".into()));
    assert_eq!(history.down(), None);
    assert_eq!(history.down(), None);
}
