use reflect_core::autostart::{login_entry_change, LoginEntryChange};

#[test]
fn a_wanted_entry_is_written_even_when_one_is_there() {
    assert_eq!(login_entry_change(true, true), LoginEntryChange::Write);
    assert_eq!(login_entry_change(true, false), LoginEntryChange::Write);
}

#[test]
fn an_unwanted_entry_that_is_there_is_removed() {
    assert_eq!(login_entry_change(false, true), LoginEntryChange::Remove);
}

#[test]
fn no_entry_wanted_and_none_there_touches_nothing() {
    assert_eq!(login_entry_change(false, false), LoginEntryChange::LeaveAlone);
}
