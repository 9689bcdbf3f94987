use tagbox::display::{context_menu_index, list_selection_event};
use tagbox::menus::{menu_event, menu_item, MenuItem};
use tagbox::session::AppEvent;

#[test]
fn menu_labels_name_items() {
    assert_eq!(menu_item("&Refresh"), MenuItem::Refresh);
    assert_eq!(menu_item("E&xit"), MenuItem::Exit);
    assert_eq!(menu_item("Import from &URL..."), MenuItem::ImportFromUrl);
    assert_eq!(menu_item("&About TagBox"), MenuItem::About);
    assert_eq!(menu_item("Refresh"), MenuItem::Other);
}

#[test]
fn menu_items_raise_events() {
    assert!(matches!(menu_event(MenuItem::Refresh), Some(AppEvent::RefreshView)));
    assert!(matches!(menu_event(MenuItem::NewFile), Some(AppEvent::FileImport(p)) if p.is_empty()));
    assert!(matches!(menu_event(MenuItem::Preferences), Some(AppEvent::OpenSettings)));
    assert!(matches!(menu_event(MenuItem::Statistics), Some(AppEvent::ShowStatistics)));
    assert!(menu_event(MenuItem::Exit).is_none());
    assert!(menu_event(MenuItem::Other).is_none());
}

#[test]
fn clicks_on_file_list_lines() {
    assert!(list_selection_event(1).is_none());
    assert!(list_selection_event(2).is_none());
    assert!(matches!(list_selection_event(3), Some(AppEvent::FileSelected(s)) if s == "index:0"));
    assert!(matches!(list_selection_event(15), Some(AppEvent::FileSelected(s)) if s == "index:12"));
    assert_eq!(context_menu_index(3, 1), Some(0));
    assert_eq!(context_menu_index(4, 1), None);
    assert_eq!(context_menu_index(0, 5), None);
}
