use ropias::db::ClipboardItem;
use ropias::items::{
    items_from_history, tasks_left, ClipboardItemMessage, ClipboardItemState, ClipboardItemUI, Filter,
};

#[test]
fn new_item_is_idle_and_open() {
    let item = ClipboardItemUI::new("text".to_string());
    assert_eq!(item.id, 1);
    assert_eq!(item.content, "text");
    assert!(!item.completed);
    assert_eq!(item.state, ClipboardItemState::Idle);
}

#[test]
fn defaults() {
    assert_eq!(ClipboardItemState::default(), ClipboardItemState::Idle);
    assert_eq!(Filter::default(), Filter::All);
}

#[test]
fn update_applies_each_message() {
    let mut item = ClipboardItemUI::new("a".to_string());
    item.update(ClipboardItemMessage::Completed(true));
    assert!(item.completed);
    item.update(ClipboardItemMessage::Edit);
    assert_eq!(item.state, ClipboardItemState::Editing);
    item.update(ClipboardItemMessage::DescriptionEdited("b".to_string()));
    assert_eq!(item.content, "b");
    assert_eq!(item.state, ClipboardItemState::Editing);
    item.update(ClipboardItemMessage::FinishEdition);
    assert_eq!(item.state, ClipboardItemState::Idle);
    item.update(ClipboardItemMessage::Delete);
    assert_eq!(item.content, "b");
    assert!(item.completed);
}

#[test]
fn finishing_with_empty_content_keeps_editing() {
    let mut item = ClipboardItemUI::new("a".to_string());
    item.update(ClipboardItemMessage::Edit);
    item.update(ClipboardItemMessage::DescriptionEdited(String::new()));
    item.update(ClipboardItemMessage::FinishEdition);
    assert_eq!(item.state, ClipboardItemState::Editing);
}

#[test]
fn filters_select_by_completion() {
    let open = ClipboardItemUI::new("o".to_string());
    let mut done = ClipboardItemUI::new("d".to_string());
    done.update(ClipboardItemMessage::Completed(true));
    assert!(Filter::All.matches(&open) && Filter::All.matches(&done));
    assert!(Filter::Active.matches(&open) && !Filter::Active.matches(&done));
    assert!(!Filter::Completed.matches(&open) && Filter::Completed.matches(&done));
}

#[test]
fn history_items_become_list_entries() {
    let items = vec![
        ClipboardItem::from_row(4, "four".to_string(), "2024-01-01 00:00:00".to_string()),
        ClipboardItem::from_row(2, "two".to_string(), "2023-01-01 00:00:00".to_string()),
    ];
    let list = items_from_history(items);
    assert_eq!(list.len(), 2);
    assert_eq!((list[0].id, list[0].content.as_str()), (4, "four"));
    assert_eq!((list[1].id, list[1].content.as_str()), (2, "two"));
    assert!(list.iter().all(|t| !t.completed && t.state == ClipboardItemState::Idle));
}

#[test]
fn counts_entries_left() {
    let mut list = vec![
        ClipboardItemUI::new("a".to_string()),
        ClipboardItemUI::new("b".to_string()),
        ClipboardItemUI::new("c".to_string()),
    ];
    assert_eq!(tasks_left(&list), 3);
    list[1].update(ClipboardItemMessage::Completed(true));
    assert_eq!(tasks_left(&list), 2);
    assert_eq!(tasks_left(&Vec::new()), 0);
}
