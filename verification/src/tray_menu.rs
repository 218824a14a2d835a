//! The tray menu, modelled as data.
//!
//! The shell walks [`TrayAction::ALL`] to build the real menu and routes the
//! string id it gets back through [`TrayAction::from_id`]. Keeping the ids
//! and labels here means a typo is a failing check rather than a menu item
//! that silently does nothing when clicked.

use vstd::prelude::*;

use crate::text::same_text;

verus! {

/// Something the user can ask for from the tray menu.
#[derive(Debug, Clone, Copy, PartialEq, Eq, Structural)]
pub enum TrayAction {
    /// The daily notification is the way into the notes window; this is the
    /// way in on every other day, when the reminder has been and gone, or
    /// was dismissed, or the user simply wants to write twice.
    WriteTodaysReflection,
    OpenSettings,
    BrowseEntries,
    RevealEntriesFolder,
    Quit,
}

impl TrayAction {
    /// Every action, in the order it appears in the menu.
    pub const ALL: [TrayAction; 5] = [
        TrayAction::WriteTodaysReflection,
        TrayAction::OpenSettings,
        TrayAction::BrowseEntries,
        TrayAction::RevealEntriesFolder,
        TrayAction::Quit,
    ];

    /// The action's identifier.
    pub open spec fn id_text(self) -> Seq<char> {
        match self {
            TrayAction::WriteTodaysReflection => "write-todays-reflection"@,
            TrayAction::OpenSettings => "open-settings"@,
            TrayAction::BrowseEntries => "browse-entries"@,
            TrayAction::RevealEntriesFolder => "reveal-entries-folder"@,
            TrayAction::Quit => "quit"@,
        }
    }

    /// The action's label.
    pub open spec fn label_text(self) -> Seq<char> {
        match self {
            TrayAction::WriteTodaysReflection => "Write Today's Reflection"@,
            TrayAction::OpenSettings => "Settings…"@,
            TrayAction::BrowseEntries => "Browse Entries"@,
            TrayAction::RevealEntriesFolder => "Reveal Entries Folder"@,
            TrayAction::Quit => "Quit Reflect"@,
        }
    }

    /// Stable identifier handed to the OS menu and echoed back on click.
    pub fn id(self) -> (r: &'static str)
        ensures
            r@ == self.id_text(),
    {
        match self {
            TrayAction::WriteTodaysReflection => "write-todays-reflection",
            TrayAction::OpenSettings => "open-settings",
            TrayAction::BrowseEntries => "browse-entries",
            TrayAction::RevealEntriesFolder => "reveal-entries-folder",
            TrayAction::Quit => "quit",
        }
    }

    /// Text the user sees.
    pub fn label(self) -> (r: &'static str)
        ensures
            r@ == self.label_text(),
    {
        match self {
            TrayAction::WriteTodaysReflection => "Write Today's Reflection",
            TrayAction::OpenSettings => "Settings…",
            TrayAction::BrowseEntries => "Browse Entries",
            TrayAction::RevealEntriesFolder => "Reveal Entries Folder",
            TrayAction::Quit => "Quit Reflect",
        }
    }

    /// Resolve the id the OS handed back on click. `None` for anything we
    /// didn't put in the menu ourselves.
    pub fn from_id(id: &str) -> (r: Option<TrayAction>)
        ensures
            r matches Some(action) ==> action.id_text() == id@,
            r is None ==> forall|action: TrayAction| #[trigger] action.id_text() != id@,
    {
        let all = TrayAction::ALL;
        let mut i: usize = 0;
        while i < 5
            invariant
                i <= 5,
                all@ == TrayAction::ALL@,
                forall|k: int| 0 <= k < i ==> (#[trigger] all@[k]).id_text() != id@,
            decreases 5 - i,
        {
            let action = all[i];
            if same_text(action.id(), id) {
                return Some(action);
            }
            i = i + 1;
        }
        proof {
            assert forall|action: TrayAction| #[trigger] action.id_text() != id@ by {
                match action {
                    TrayAction::WriteTodaysReflection => assert(all@[0].id_text() != id@),
                    TrayAction::OpenSettings => assert(all@[1].id_text() != id@),
                    TrayAction::BrowseEntries => assert(all@[2].id_text() != id@),
                    TrayAction::RevealEntriesFolder => assert(all@[3].id_text() != id@),
                    TrayAction::Quit => assert(all@[4].id_text() != id@),
                }
            }
        }
        None
    }
}

/// Menu ids are unique: no two actions share one.
pub proof fn lemma_ids_unique(a: TrayAction, b: TrayAction)
    requires
        a != b,
    ensures
        a.id_text() != b.id_text(),
{
    reveal_strlit("write-todays-reflection");
    reveal_strlit("open-settings");
    reveal_strlit("browse-entries");
    reveal_strlit("reveal-entries-folder");
    reveal_strlit("quit");
    assert("write-todays-reflection"@.len() == 23);
    assert("open-settings"@.len() == 13);
    assert("browse-entries"@.len() == 14);
    assert("reveal-entries-folder"@.len() == 21);
    assert("quit"@.len() == 4);
    assert(a.id_text().len() != b.id_text().len());
}

/// Every menu id resolves back to its own action, so every item in the menu
/// does something when clicked.
pub proof fn lemma_id_round_trips(a: TrayAction, resolved: TrayAction)
    requires
        resolved.id_text() == a.id_text(),
    ensures
        resolved == a,
{
    if resolved != a {
        lemma_ids_unique(resolved, a);
    }
}

/// The menu lists every action, each once.
pub proof fn lemma_menu_lists_every_action(a: TrayAction)
    ensures
        exists|i: int| 0 <= i < 5 && TrayAction::ALL@[i] == a,
        forall|i: int, j: int|
            0 <= i < j < 5 ==> TrayAction::ALL@[i] != TrayAction::ALL@[j],
{
    match a {
        TrayAction::WriteTodaysReflection => assert(TrayAction::ALL@[0] == a),
        TrayAction::OpenSettings => assert(TrayAction::ALL@[1] == a),
        TrayAction::BrowseEntries => assert(TrayAction::ALL@[2] == a),
        TrayAction::RevealEntriesFolder => assert(TrayAction::ALL@[3] == a),
        TrayAction::Quit => assert(TrayAction::ALL@[4] == a),
    }
}

} // verus!
