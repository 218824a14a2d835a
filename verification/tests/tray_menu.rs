use reflect_core::tray_menu::TrayAction;

#[test]
fn menu_reads_top_to_bottom_as_the_spec_describes_it() {
    let labels: Vec<&str> = TrayAction::ALL.iter().map(|a| a.label()).collect();
    assert_eq!(
        labels,
        vec![
            "Write Today's Reflection",
            "Settings…",
            "Browse Entries",
            "Reveal Entries Folder",
            "Quit Reflect",
        ]
    );
}

#[test]
fn every_menu_id_round_trips_back_to_its_action() {
    for action in TrayAction::ALL {
        assert_eq!(
            TrayAction::from_id(action.id()),
            Some(action),
            "id {:?} did not resolve back to {:?}",
            action.id(),
            action
        );
    }
}

#[test]
fn menu_ids_are_unique() {
    let mut ids: Vec<&str> = TrayAction::ALL.iter().map(|a| a.id()).collect();
    let total = ids.len();
    ids.sort_unstable();
    ids.dedup();
    assert_eq!(ids.len(), total, "duplicate tray menu id");
}

#[test]
fn unknown_ids_resolve_to_nothing() {
    assert_eq!(TrayAction::from_id("not-a-menu-item"), None);
    assert_eq!(TrayAction::from_id(""), None);
}

#[test]
fn ids_are_matched_exactly_not_loosely() {
    assert_eq!(TrayAction::from_id("Quit"), None);
    assert_eq!(TrayAction::from_id(" quit"), None);
    assert_eq!(TrayAction::from_id("quit"), Some(TrayAction::Quit));
}
