use pindash_news::models::{Feed, Folder};
use pindash_news::windows::{feed, folder, Desk};
use pindash_news::{Action, Message};

fn folders() -> Vec<Folder> {
    vec![
        Folder { id: 1, name: "Default".to_string(), feeds: Some(vec![Feed::new("u".to_string(), "n".to_string(), 1)]) },
        Folder { id: 2, name: "Tech".to_string(), feeds: None },
    ]
}

#[test]
fn one_dialog_is_open_at_a_time() {
    let mut desk = Desk::new();
    assert!(!desk.contains_key("Add Feed"));
    desk.set_open("Add Feed", true, Some(Message::RefreshFolders));
    assert!(desk.contains_key("Add Feed"));
    desk.set_open("Add Folder", true, Some(Message::Normal));
    assert!(!desk.contains_key("Add Feed"));
    assert!(desk.contains_key("Add Folder"));
    desk.set_open("Add Feed", false, None);
    assert!(desk.contains_key("Add Folder"));
    assert_eq!(desk.take_data("Add Feed"), None);
    assert_eq!(desk.take_data("Add Folder"), Some(Message::Normal));
    assert_eq!(desk.take_data("Add Folder"), None);
    assert!(desk.contains_key("Add Folder"));
    desk.set_open("Add Folder", false, None);
    assert!(!desk.contains_key("Add Folder"));
}

#[test]
fn dialogs_have_their_names() {
    assert_eq!(feed::AddWindow::NAME, "Add Feed");
    assert_eq!(feed::DeleteWindow::NAME, "Delete Feed");
    assert_eq!(feed::EditWindow::NAME, "Edit Feed");
    assert_eq!(folder::AddWindow::NAME, "Add Folder");
    assert_eq!(folder::DeleteWindow::NAME, "Delete Folder");
    assert_eq!(folder::EditWindow::NAME, "Rename Folder");
    assert_eq!(feed::AddWindow::new().name(), feed::AddWindow::NAME);
    assert_eq!(feed::DeleteWindow::new().name(), feed::DeleteWindow::NAME);
    assert_eq!(feed::EditWindow::new().name(), feed::EditWindow::NAME);
    assert_eq!(folder::AddWindow::new().name(), folder::AddWindow::NAME);
    assert_eq!(folder::DeleteWindow::new().name(), folder::DeleteWindow::NAME);
    assert_eq!(folder::EditWindow::new().name(), folder::EditWindow::NAME);
}

#[test]
fn add_feed_form() {
    let mut form = feed::AddWindow::new();
    form.sent();
    form.show(Some(Message::RefreshFolders), &folders());
    assert!(!form.is_closed());
    assert!(form.autofocus);
    assert_eq!(form.folder, Folder { id: 1, name: "Default".to_string(), feeds: None });
    assert_eq!(form.folders, Some(folders()));
    assert_eq!(form.submit(), None);
    form.url = "https://example.com/feed.xml".to_string();
    assert_eq!(form.submit(), None);
    assert_eq!(form.url, "https://example.com/feed.xml");
    form.name = "Ex".to_string();
    form.folder.id = 2;
    assert_eq!(
        form.submit(),
        Some(Message::Feed(
            Action::Create,
            Feed::new("https://example.com/feed.xml".to_string(), "Ex".to_string(), 2)
        ))
    );
    assert_eq!((form.url.as_str(), form.name.as_str()), ("", ""));
    assert!(!form.is_closed());
    form.sent();
    assert!(form.is_closed());
    form.autofocus = false;
    form.show(None, &Vec::new());
    assert!(!form.autofocus);
    assert_eq!(form.folders, Some(folders()));
    form.show(Some(Message::RefreshFolders), &Vec::new());
    assert_eq!(form.folders, Some(Vec::new()));
    assert_eq!(form.folder.id, 2);
}

#[test]
fn delete_feed_form() {
    let mut form = feed::DeleteWindow::new();
    let mut target = Feed::new("u".to_string(), "Ex".to_string(), 1);
    target.id = 7;
    form.show(Some(Message::Feed(Action::Delete, target.clone())));
    assert_eq!(form.prompt(), "Are you sure you want to delete the 'Ex' feed?");
    form.show(Some(Message::Normal));
    assert_eq!(form.submit(), Message::Feed(Action::Delete, target));
    assert_eq!(form.submit(), Message::Feed(Action::Delete, Feed::default()));
    assert!(!form.is_closed());
    form.sent();
    assert!(form.is_closed());
    form.show(None);
    assert!(!form.is_closed());
}

#[test]
fn edit_feed_form() {
    let mut form = feed::EditWindow::new();
    let mut target = Feed::new("u".to_string(), "Ex".to_string(), 2);
    target.id = 7;
    target.last_seen = 5;
    form.show(Some(Message::Feed(Action::Update, target.clone())), &folders());
    assert!(form.autofocus);
    assert_eq!(form.feed, target);
    assert_eq!(form.folder, folders()[1]);
    form.folder = folders()[0].clone();
    form.feed.name = "Other".to_string();
    let mut expected = target.clone();
    expected.name = "Other".to_string();
    expected.folder_id = 1;
    assert_eq!(form.submit(), Some(Message::Feed(Action::Update, expected)));
    assert_eq!(form.feed, Feed::default());
    assert_eq!(form.folder, Folder::default());
    assert_eq!(form.submit(), None);
    target.folder_id = 9;
    form.show(Some(Message::Feed(Action::Update, target.clone())), &folders());
    assert_eq!(form.folder, folders()[0]);
    form.feed.url = String::new();
    assert_eq!(form.submit(), None);
    assert_eq!(form.feed.name, "Ex");
    form.sent();
    assert!(form.is_closed());
}

#[test]
fn add_folder_form() {
    let mut form = folder::AddWindow::new();
    assert_eq!(form.submit(), None);
    form.name = "Tech".to_string();
    assert_eq!(
        form.submit(),
        Some(Message::Folder(Action::Create, Folder { id: 0, name: "Tech".to_string(), feeds: None }))
    );
    assert_eq!(form.name, "");
    form.sent();
    assert!(form.is_closed());
    form.show();
    assert!(!form.is_closed());
}

#[test]
fn delete_folder_form() {
    let mut form = folder::DeleteWindow::new();
    let target = Folder { id: 2, name: "Tech".to_string(), feeds: None };
    form.show(Some(Message::Folder(Action::Delete, target.clone())));
    assert_eq!(form.prompt(), "Are you sure you want to delete the 'Tech' folder?");
    assert_eq!(form.submit(), Message::Folder(Action::Delete, target));
    assert_eq!(form.prompt(), "Are you sure you want to delete the '' folder?");
    form.sent();
    assert!(form.is_closed());
}

#[test]
fn rename_folder_form() {
    let mut form = folder::EditWindow::new();
    let target = Folder { id: 2, name: "Tech".to_string(), feeds: None };
    form.show(Some(Message::Folder(Action::Update, target.clone())));
    assert_eq!(form.name, "Tech");
    assert_eq!(form.submit(), None);
    form.name = String::new();
    assert_eq!(form.submit(), None);
    form.name = "Technology".to_string();
    assert_eq!(
        form.submit(),
        Some(Message::Folder(Action::Update, Folder { id: 2, name: "Technology".to_string(), feeds: None }))
    );
    assert_eq!(form.name, "");
    assert_eq!(form.folder, Folder::default());
    form.show(Some(Message::RefreshFolders));
    assert_eq!(form.folder, Folder::default());
}
