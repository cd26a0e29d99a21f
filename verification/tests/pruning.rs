use music_sorter::prune::{prune_directory, prune_step, PruneAction, PruneEvent};

#[test]
fn a_file_without_tags_is_removed() {
    assert_eq!(prune_step(true, PruneEvent::File { has_tags: false }), (true, PruneAction::RemoveFile));
    assert_eq!(prune_step(false, PruneEvent::File { has_tags: false }), (false, PruneAction::RemoveFile));
}

#[test]
fn a_file_with_tags_keeps_its_directory() {
    assert_eq!(prune_step(true, PruneEvent::File { has_tags: true }), (false, PruneAction::Keep));
}

#[test]
fn a_directory_that_stayed_keeps_the_one_above() {
    assert_eq!(prune_step(true, PruneEvent::Subdirectory { removed: false }), (false, PruneAction::Keep));
    assert_eq!(prune_step(true, PruneEvent::Subdirectory { removed: true }), (true, PruneAction::Keep));
    assert_eq!(prune_step(false, PruneEvent::Subdirectory { removed: true }), (false, PruneAction::Keep));
}

#[test]
fn an_unreadable_entry_decides_nothing() {
    assert_eq!(prune_step(true, PruneEvent::Unreadable), (true, PruneAction::Keep));
    assert_eq!(prune_step(false, PruneEvent::Unreadable), (false, PruneAction::Keep));
}

#[test]
fn a_directory_goes_where_nothing_stays() {
    assert!(prune_directory(&Vec::new()));
    assert!(prune_directory(&vec![
        PruneEvent::File { has_tags: false },
        PruneEvent::Subdirectory { removed: true },
        PruneEvent::Unreadable,
    ]));
    assert!(!prune_directory(&vec![
        PruneEvent::File { has_tags: false },
        PruneEvent::File { has_tags: true },
        PruneEvent::Subdirectory { removed: true },
    ]));
    assert!(!prune_directory(&vec![PruneEvent::Subdirectory { removed: false }]));
}
