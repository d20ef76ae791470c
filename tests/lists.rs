use karl_tui::form_field::{FormFieldWidget, SelectorFieldWidget, ToggleFieldWidget, ValidationResult};
use karl_tui::filtered_list::FilteredList;
use karl_tui::widgets::{ConfirmDialog, Selector, TextInput, Toggle};
use karl_tui::keys::{Key, KeyCode};

fn five() -> FilteredList<i32> {
    FilteredList::new(vec![10, 11, 12, 13, 14])
}

#[test]
fn filter_then_navigate_by_position() {
    let mut list = five();
    list.apply_filter(|x: &i32| *x == 11 || *x == 13);
    assert_eq!(list.filtered_indices, vec![1, 3]);
    assert_eq!(list.selected, Some(0));
    assert_eq!(list.selected_index(), Some(1));
    list.next();
    assert_eq!(list.selected, Some(1));
    assert_eq!(list.selected_index(), Some(3));
    assert_eq!(list.selected(), Some(&13));
    list.previous();
    assert_eq!(list.selected, Some(0));
    assert_eq!(list.selected_index(), Some(1));
    list.previous();
    assert_eq!(list.selected, Some(1));
}

#[test]
fn filter_keeps_exact_positions_and_clear_restores_all() {
    let mut list = five();
    list.apply_filter(|x: &i32| x % 2 == 0);
    assert_eq!(list.filtered_indices, vec![0, 2, 4]);
    let shown: Vec<i32> = list.filtered_items().into_iter().copied().collect();
    assert_eq!(shown, vec![10, 12, 14]);
    list.clear_filter();
    assert_eq!(list.len(), list.total_len());
    assert_eq!(list.filtered_indices, vec![0, 1, 2, 3, 4]);
}

#[test]
fn selection_out_of_bounds_falls_back_to_first() {
    let mut list = five();
    list.next();
    list.next();
    list.next();
    assert_eq!(list.selected, Some(3));
    list.apply_filter(|x: &i32| *x > 11);
    assert_eq!(list.selected, Some(0));
    list.apply_filter(|x: &i32| *x > 100);
    assert!(list.is_empty());
    assert_eq!(list.selected, None);
    assert_eq!(list.selected(), None);
    list.next();
    list.previous();
    assert_eq!(list.selected(), None);
    list.clear_filter();
    assert_eq!(list.selected, Some(0));
}

#[test]
fn navigation_round_trip_and_wraparound() {
    let mut list = five();
    for start in 0..5 {
        list.selected = Some(start);
        list.next();
        list.previous();
        assert_eq!(list.selected, Some(start));
        list.previous();
        list.next();
        assert_eq!(list.selected, Some(start));
    }
    list.selected = Some(4);
    list.next();
    assert_eq!(list.selected, Some(0));
    list.previous();
    assert_eq!(list.selected, Some(4));
}

#[test]
fn empty_list_has_no_selection() {
    let mut list: FilteredList<i32> = FilteredList::new(vec![]);
    assert_eq!(list.selected, None);
    list.next();
    assert_eq!(list.selected(), None);
    list.replace_all(vec![7]);
    assert_eq!(list.selected(), Some(&7));
    assert_eq!(list.total_len(), 1);
}

#[test]
fn text_input_editing_keys() {
    let mut t = TextInput::new();
    for c in "hello world".chars() {
        assert!(t.handle_key(Key::plain(KeyCode::Char(c))));
    }
    assert_eq!(t.value, "hello world");
    assert_eq!(t.cursor, 11);
    assert!(t.handle_key(Key::plain(KeyCode::Backspace)));
    assert_eq!(t.value, "hello worl");
    assert!(t.handle_key(Key::with_ctrl(KeyCode::Char('w'))));
    assert_eq!(t.value, "hello ");
    assert_eq!(t.cursor, 6);
    assert!(t.handle_key(Key::plain(KeyCode::Home)));
    assert!(t.handle_key(Key::plain(KeyCode::Char('>'))));
    assert_eq!(t.value, ">hello ");
    assert!(t.handle_key(Key::plain(KeyCode::Delete)));
    assert_eq!(t.value, ">ello ");
    assert!(t.handle_key(Key::with_ctrl(KeyCode::Char('k'))));
    assert_eq!(t.value, ">");
    assert!(t.handle_key(Key::with_ctrl(KeyCode::Char('u'))));
    assert_eq!(t.value, "");
    assert!(!t.handle_key(Key::with_ctrl(KeyCode::Char('z'))));
    assert!(!t.handle_key(Key::plain(KeyCode::Up)));
    let mut u = TextInput::new().with_value("abc");
    assert_eq!(u.cursor, 3);
    u.handle_key(Key::plain(KeyCode::Left));
    u.handle_key(Key::plain(KeyCode::Char('é')));
    assert_eq!(u.value, "abéc");
    u.clear();
    assert!(u.is_empty());
}

#[test]
fn selector_moves_and_selects_by_value() {
    let mut s = Selector::new(vec!["a".to_string(), "b".to_string(), "c".to_string()]);
    assert_eq!(s.selected_value(), Some("a"));
    s.previous();
    assert_eq!(s.selected_value(), Some("c"));
    s.next();
    assert_eq!(s.selected_value(), Some("a"));
    s.select_by_value("b");
    assert_eq!(s.selected, 1);
    s.select_by_value("zzz");
    assert_eq!(s.selected, 1);
    assert!(s.handle_key(Key::plain(KeyCode::Char('l'))));
    assert_eq!(s.selected, 2);
    assert!(!s.handle_key(Key::plain(KeyCode::Char('x'))));
    let e = Selector::default();
    assert!(e.is_empty());
    assert_eq!(e.selected_value(), None);
    assert_eq!(s.len(), 3);
}

#[test]
fn toggle_and_confirm_dialog() {
    let mut t = Toggle::new("x");
    assert_eq!(t.display(), "[ ]");
    assert!(t.handle_key(Key::plain(KeyCode::Char(' '))));
    assert_eq!(t.display(), "[x]");
    assert!(!t.handle_key(Key::plain(KeyCode::Char('y'))));
    assert!(Toggle::new("y").with_value(true).value);
    let mut d = ConfirmDialog::new("T", "M");
    assert!(!d.is_confirmed());
    assert_eq!(d.confirm_label, "Yes");
    assert_eq!(d.cancel_label, "No");
    d.select_confirm();
    assert!(d.is_confirmed());
    d.toggle();
    assert!(!d.is_confirmed());
    let d2 = ConfirmDialog::new("T", "M").with_labels("Delete", "Keep");
    assert_eq!(d2.confirm_label, "Delete");
    assert_eq!(d2.cancel_label, "Keep");
}

#[test]
fn field_descriptors_and_validation_result() {
    use_field_widgets();
}

fn use_field_widgets() {
    let w = FormFieldWidget::new("Name", "héllo");
    assert_eq!(w.cursor, 5);
    assert_eq!(w.height(), 3);
    let w = w.error(Some("bad")).hint(Some("tip")).focused(true).required(true).placeholder(Some("p")).cursor(2);
    assert_eq!(w.height(), 5);
    assert!(w.required);
    assert_eq!(w.cursor, 2);
    let w = w.focused(false);
    assert_eq!(w.height(), 4);
    let opts = vec!["a".to_string(), "b".to_string()];
    let s = SelectorFieldWidget::new("Pick", &opts, 1).focused(true);
    assert!(s.focused);
    assert_eq!(s.selected, 1);
    let t = ToggleFieldWidget::new("On", true).focused(true);
    assert!(t.value && t.focused);
    assert!(ValidationResult::Valid.is_valid());
    assert!(ValidationResult::default().is_valid());
    let bad = ValidationResult::Invalid("Name is required".to_string());
    assert!(!bad.is_valid());
    assert_eq!(bad.error_message(), Some("Name is required"));
    assert_eq!(ValidationResult::Valid.error_message(), None);
}
