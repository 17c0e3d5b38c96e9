use photobooth::record::MyImage;
use photobooth::session::{Session, UiTab};

fn tiny_record(name: &str) -> MyImage {
    MyImage {
        width: 1,
        height: 1,
        bytes: vec![1, 2, 3, 255],
        save: true,
        name: String::from(name),
        del: false,
    }
}

fn session_with(names: &[&str]) -> Session {
    let mut s = Session::default();
    for n in names {
        s.take_photo(tiny_record(n));
    }
    s
}

#[test]
fn default_session_is_empty() {
    let s = Session::default();
    assert_eq!(s.ui_tab, UiTab::TakePhoto);
    assert!(s.photos.is_empty());
    assert!(s.save_options.jpg);
    assert!(!s.save_options.png);
    assert_eq!(s.save_options.image_index, 0);
}

#[test]
fn take_photo_appends_and_points_at_previous_last() {
    let mut s = Session::default();
    s.take_photo(tiny_record("a"));
    assert_eq!(s.photos.len(), 1);
    assert_eq!(s.save_options.image_index, -1);
    s.clamp_selection();
    assert_eq!(s.save_options.image_index, 0);
    s.take_photo(tiny_record("b"));
    assert_eq!(s.photos.len(), 2);
    assert_eq!(s.save_options.image_index, 0);
}

#[test]
fn select_index_wraps_modulo_live_count() {
    let mut s = session_with(&["a", "b", "c"]);
    s.select_index(5);
    assert_eq!(s.save_options.image_index, 2);
    s.select_index(1);
    assert_eq!(s.save_options.image_index, 1);
}

#[test]
fn select_index_on_empty_collection_is_a_no_op() {
    let mut s = Session::default();
    s.select_index(7);
    assert_eq!(s.save_options.image_index, 0);
}

#[test]
fn advancing_length_times_returns_to_start() {
    let mut s = session_with(&["a", "b", "c"]);
    s.select_index(1);
    for _ in 0..s.photos.len() {
        s.select_next();
    }
    assert_eq!(s.save_options.image_index, 1);
}

#[test]
fn select_prev_wraps_at_the_start() {
    let mut s = session_with(&["a", "b", "c"]);
    s.select_index(0);
    s.select_prev();
    assert_eq!(s.save_options.image_index, 2);
    s.select_prev();
    assert_eq!(s.save_options.image_index, 1);
}

#[test]
fn clamp_selection_pins_into_live_range() {
    let mut s = session_with(&["a", "b"]);
    s.save_options.image_index = 9;
    s.clamp_selection();
    assert_eq!(s.save_options.image_index, 1);
    s.save_options.image_index = -4;
    s.clamp_selection();
    assert_eq!(s.save_options.image_index, 0);
}

#[test]
fn mark_then_cancel_delete_keeps_the_record() {
    let mut s = session_with(&["a", "b"]);
    s.mark_delete(1);
    assert!(s.photos[1].del);
    assert_eq!(s.photos.len(), 2);
    s.cancel_delete(1);
    assert!(!s.photos[1].del);
    assert_eq!(s.photos.len(), 2);
}

#[test]
fn confirm_delete_shrinks_by_one_and_label_is_absent() {
    let mut s = session_with(&["a", "b", "c"]);
    s.mark_delete(1);
    s.confirm_delete(1);
    assert_eq!(s.photos.len(), 2);
    assert!(s.photos.iter().all(|p| p.name != "b"));
    assert_eq!(s.photos[0].name, "a");
    assert_eq!(s.photos[1].name, "c");
}

#[test]
fn selected_photo_reads_through_the_clamp() {
    let mut s = session_with(&["a", "b", "c"]);
    s.save_options.image_index = 99;
    assert_eq!(s.selected_photo().unwrap().name, "c");
    s.save_options.image_index = -7;
    assert_eq!(s.selected_photo().unwrap().name, "a");
    s.save_options.image_index = 1;
    assert_eq!(s.selected_photo().unwrap().name, "b");
    let empty = Session::default();
    assert!(empty.selected_photo().is_none());
}

#[test]
fn marked_count_follows_save_flags() {
    let mut s = session_with(&["a", "b", "c"]);
    assert_eq!(s.marked_count(), 3);
    s.set_save(1, false);
    assert_eq!(s.marked_count(), 2);
    s.set_save(1, true);
    assert_eq!(s.marked_count(), 3);
}
