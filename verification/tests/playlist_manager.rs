use playback_engine::playlists::{
    index_of_path, name_taken, numbered_name, path_in_list, DeleteOutcome, PlaylistItem,
    Playlists, RemoveOutcome, RenameOutcome,
};

fn s(text: &str) -> String {
    String::from(text)
}

fn item(path: &str, name: &str) -> PlaylistItem {
    PlaylistItem { path: s(path), name: s(name) }
}

fn sample() -> Playlists {
    let mut p = Playlists::new(s("Default List"));
    let idx = p.ensure_list(s("Favourites"));
    p.insert_top(idx, item("/music/a.mp3", "a.mp3"));
    p.insert_top(idx, item("/music/b.mp3", "b.mp3"));
    p
}

#[test]
fn new_document_has_one_empty_list() {
    let p = Playlists::new(s("Default List"));
    assert_eq!(p.current_name, s("Default List"));
    assert_eq!(p.lists.len(), 1);
    assert_eq!(p.lists[0].0, s("Default List"));
    assert!(p.lists[0].1.is_empty());
}

#[test]
fn insert_top_puts_newest_first() {
    let p = sample();
    assert_eq!(p.lists[1].0, s("Favourites"));
    assert_eq!(p.lists[1].1[0].name, s("b.mp3"));
    assert_eq!(p.lists[1].1[1].name, s("a.mp3"));
}

#[test]
fn ensure_list_finds_existing() {
    let mut p = sample();
    assert_eq!(p.ensure_list(s("Favourites")), 1);
    assert_eq!(p.lists.len(), 2);
    assert_eq!(p.ensure_list(s("New One")), 2);
    assert_eq!(p.lists.len(), 3);
}

#[test]
fn switch_to_known_and_unknown_lists() {
    let mut p = sample();
    assert!(p.switch_playlist(s("Favourites")));
    assert_eq!(p.current_name, s("Favourites"));
    assert!(!p.switch_playlist(s("No Such List")));
    assert_eq!(p.current_name, s("Favourites"));
}

#[test]
fn rename_rejects_missing_and_taken_names() {
    let mut p = sample();
    assert_eq!(p.rename_playlist(&s("Nope"), &s("X")), RenameOutcome::NotFound);
    assert_eq!(
        p.rename_playlist(&s("Favourites"), &s("Default List")),
        RenameOutcome::NameExists
    );
    // renaming to the very same name counts as taken too
    assert_eq!(
        p.rename_playlist(&s("Favourites"), &s("Favourites")),
        RenameOutcome::NameExists
    );
    assert_eq!(p.lists[1].0, s("Favourites"));
}

#[test]
fn rename_carries_the_current_name_along() {
    let mut p = sample();
    p.switch_playlist(s("Favourites"));
    assert_eq!(p.rename_playlist(&s("Favourites"), &s("Best Of")), RenameOutcome::Renamed);
    assert_eq!(p.lists[1].0, s("Best Of"));
    assert_eq!(p.current_name, s("Best Of"));
    // the items went along with the rename
    assert_eq!(p.lists[1].1[0].name, s("b.mp3"));
}

#[test]
fn delete_refuses_the_last_list() {
    let mut p = Playlists::new(s("Only One"));
    assert_eq!(p.delete_playlist(&s("Only One")), DeleteOutcome::LastPlaylist);
    assert_eq!(p.lists.len(), 1);
}

#[test]
fn delete_moves_current_to_first_remaining() {
    let mut p = sample();
    p.switch_playlist(s("Favourites"));
    assert_eq!(p.delete_playlist(&s("Favourites")), DeleteOutcome::Deleted);
    assert_eq!(p.lists.len(), 1);
    assert_eq!(p.current_name, s("Default List"));
    assert_eq!(p.delete_playlist(&s("Favourites")), DeleteOutcome::LastPlaylist);
}

#[test]
fn delete_keeps_an_unrelated_current() {
    let mut p = sample();
    let idx = p.ensure_list(s("Third"));
    assert_eq!(idx, 2);
    assert_eq!(p.delete_playlist(&s("Third")), DeleteOutcome::Deleted);
    assert_eq!(p.current_name, s("Default List"));
    assert_eq!(p.delete_playlist(&s("Missing")), DeleteOutcome::NotFound);
}

#[test]
fn remove_item_checks_list_and_bounds() {
    let mut p = sample();
    assert_eq!(p.remove_item(&s("Nope"), 0), RemoveOutcome::PlaylistNotFound);
    assert_eq!(p.remove_item(&s("Favourites"), 2), RemoveOutcome::IndexOutOfBounds);
    assert_eq!(p.remove_item(&s("Favourites"), 0), RemoveOutcome::Removed);
    assert_eq!(p.lists[1].1.len(), 1);
    assert_eq!(p.lists[1].1[0].name, s("a.mp3"));
}

#[test]
fn duplicate_checks_look_at_the_right_field() {
    let p = sample();
    let items = &p.lists[1].1;
    assert!(name_taken(items, &s("a.mp3")));
    assert!(!name_taken(items, &s("c.mp3")));
    assert!(path_in_list(items, &s("/music/b.mp3")));
    assert!(!path_in_list(items, &s("b.mp3")));
}

#[test]
fn playing_track_is_found_by_path() {
    let p = sample();
    let items = &p.lists[1].1;
    assert_eq!(index_of_path(items, &s("/music/a.mp3")), Some(1));
    assert_eq!(index_of_path(items, &s("/music/b.mp3")), Some(0));
    assert_eq!(index_of_path(items, &s("/music/c.mp3")), None);
}

#[test]
fn numbered_names_for_duplicates() {
    assert_eq!(numbered_name(&s("song.mp3"), 1), s("song.mp3 (1)"));
    assert_eq!(numbered_name(&s("x"), 12), s("x (12)"));
    assert_eq!(numbered_name(&s(""), 0), s(" (0)"));
}
