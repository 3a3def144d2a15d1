//! The help overlay's text: the global keys, the keys of the current tab
//! (with their own list while a setting is being edited), and the keys of
//! the command line.
//!
//! Each entry is a pair. A key and what it does; a section heading, with an
//! empty key; or an empty pair, which stands for a blank line.
use vstd::prelude::*;

use crate::app_state::Tab;

verus! {

/// The text of each entry of `s`.
pub open spec fn pairs_view(s: Seq<(&'static str, &'static str)>) -> Seq<(Seq<char>, Seq<char>)> {
    Seq::new(s.len(), |i: int| (s[i].0@, s[i].1@))
}

/// The blank line between two sections.
pub open spec fn help_blank() -> (Seq<char>, Seq<char>) {
    (""@, ""@)
}

/// The keys that work everywhere.
pub open spec fn spec_global_help() -> Seq<(Seq<char>, Seq<char>)> {
    seq![
        (""@, "Global"@),
        ("1-6"@, "Switch to tab"@),
        ("Tab/Shift+Tab"@, "Next/previous tab"@),
        (":"@, "Open command line"@),
        ("p"@, "Pause/resume polling"@),
        ("?"@, "Toggle this help"@),
        ("c / dbl-click"@, "Copy focused text"@),
        ("q q"@, "Quit (press twice)"@),
        ("Ctrl+C"@, "Quit immediately"@),
        ("Esc"@, "Close overlay/popup"@),
    ]
}

/// The section of the current tab, headed as such; on the settings tab, the
/// editing keys while a setting is being edited.
pub open spec fn spec_tab_help(tab: Tab, editing_settings: bool) -> Seq<(Seq<char>, Seq<char>)> {
    match tab {
        Tab::Dashboard => seq![
            (""@, "Dashboard (current tab)"@),
            ("(no extra keys)"@, "Read-only display"@),
        ],
        Tab::Mining => seq![
            (""@, "Mining (current tab)"@),
            ("h/l or Left/Right"@, "Switch panel"@),
            ("j/k or Up/Down"@, "Scroll list"@),
            ("g/G or Home/End"@, "Jump to first/last"@),
            ("o"@, "Open address in browser"@),
        ],
        Tab::Mempool => seq![
            (""@, "Mempool (current tab)"@),
            ("j/k or Up/Down"@, "Select transaction"@),
            ("g/G or Home/End"@, "Jump to first/last"@),
            ("Enter"@, "Show transaction detail"@),
            ("o"@, "Open transaction in browser"@),
            ("Esc"@, "Close detail popup"@),
        ],
        Tab::Analytics => seq![
            (""@, "Analytics (current tab)"@),
            ("h/j/k/l or Arrows"@, "Navigate panels"@),
            ("v"@, "Toggle table/chart view"@),
            ("t"@, "Cycle time window (1m/1h/24h)"@),
            ("Esc"@, "Dismiss notification"@),
        ],
        Tab::RpcExplorer => seq![
            (""@, "RPC Explorer (current tab)"@),
            ("Up/Down"@, "Select RPC method"@),
            ("Enter"@, "Execute method"@),
            ("j/k"@, "Scroll response"@),
            ("J/K"@, "Scroll fast (10 lines)"@),
            ("PgUp/PgDn"@, "Scroll page (20 lines)"@),
            ("g/G or Home/End"@, "Jump to top/bottom"@),
        ],
        Tab::Settings => if editing_settings {
            seq![
                (""@, "Settings (Editing) (current tab)"@),
                ("Enter"@, "Save value"@),
                ("Esc"@, "Cancel editing"@),
                ("Backspace"@, "Delete character"@),
            ]
        } else {
            seq![
                (""@, "Settings (current tab)"@),
                ("Up/Down"@, "Navigate fields"@),
                ("Enter"@, "Edit/cycle value"@),
                ("Left/Right"@, "Cycle network"@),
                ("r"@, "Reload config"@),
            ]
        },
    }
}

/// The keys of the command line.
pub open spec fn spec_command_help() -> Seq<(Seq<char>, Seq<char>)> {
    seq![
        (""@, "Command Line"@),
        ("Esc"@, "Close command line"@),
        ("Enter"@, "Execute command"@),
        ("Up/Down"@, "Command history"@),
        ("Left/Right"@, "Move cursor"@),
        ("Home/End"@, "Start/end of line"@),
    ]
}

/// The whole overlay: global keys, a blank line, the current tab's keys, a
/// blank line, the command line's keys.
pub open spec fn spec_help_entries(tab: Tab, editing_settings: bool) -> Seq<(Seq<char>, Seq<char>)> {
    spec_global_help() + seq![help_blank()] + spec_tab_help(tab, editing_settings) + seq![help_blank()]
        + spec_command_help()
}

fn global_help() -> (r: Vec<(&'static str, &'static str)>)
    ensures
        pairs_view(r@) == spec_global_help(),
{
    let r = vec![
        ("", "Global"),
        ("1-6", "Switch to tab"),
        ("Tab/Shift+Tab", "Next/previous tab"),
        (":", "Open command line"),
        ("p", "Pause/resume polling"),
        ("?", "Toggle this help"),
        ("c / dbl-click", "Copy focused text"),
        ("q q", "Quit (press twice)"),
        ("Ctrl+C", "Quit immediately"),
        ("Esc", "Close overlay/popup"),
    ];
    assert(pairs_view(r@) =~= spec_global_help());
    r
}

fn tab_help(tab: Tab, editing_settings: bool) -> (r: Vec<(&'static str, &'static str)>)
    ensures
        pairs_view(r@) == spec_tab_help(tab, editing_settings),
{
    let r = match tab {
        Tab::Dashboard => vec![
            ("", "Dashboard (current tab)"),
            ("(no extra keys)", "Read-only display"),
        ],
        Tab::Mining => vec![
            ("", "Mining (current tab)"),
            ("h/l or Left/Right", "Switch panel"),
            ("j/k or Up/Down", "Scroll list"),
            ("g/G or Home/End", "Jump to first/last"),
            ("o", "Open address in browser"),
        ],
        Tab::Mempool => vec![
            ("", "Mempool (current tab)"),
            ("j/k or Up/Down", "Select transaction"),
            ("g/G or Home/End", "Jump to first/last"),
            ("Enter", "Show transaction detail"),
            ("o", "Open transaction in browser"),
            ("Esc", "Close detail popup"),
        ],
        Tab::Analytics => vec![
            ("", "Analytics (current tab)"),
            ("h/j/k/l or Arrows", "Navigate panels"),
            ("v", "Toggle table/chart view"),
            ("t", "Cycle time window (1m/1h/24h)"),
            ("Esc", "Dismiss notification"),
        ],
        Tab::RpcExplorer => vec![
            ("", "RPC Explorer (current tab)"),
            ("Up/Down", "Select RPC method"),
            ("Enter", "Execute method"),
            ("j/k", "Scroll response"),
            ("J/K", "Scroll fast (10 lines)"),
            ("PgUp/PgDn", "Scroll page (20 lines)"),
            ("g/G or Home/End", "Jump to top/bottom"),
        ],
        Tab::Settings => if editing_settings {
            vec![
                ("", "Settings (Editing) (current tab)"),
                ("Enter", "Save value"),
                ("Esc", "Cancel editing"),
                ("Backspace", "Delete character"),
            ]
        } else {
            vec![
                ("", "Settings (current tab)"),
                ("Up/Down", "Navigate fields"),
                ("Enter", "Edit/cycle value"),
                ("Left/Right", "Cycle network"),
                ("r", "Reload config"),
            ]
        },
    };
    assert(pairs_view(r@) =~= spec_tab_help(tab, editing_settings));
    r
}

fn command_help() -> (r: Vec<(&'static str, &'static str)>)
    ensures
        pairs_view(r@) == spec_command_help(),
{
    let r = vec![
        ("", "Command Line"),
        ("Esc", "Close command line"),
        ("Enter", "Execute command"),
        ("Up/Down", "Command history"),
        ("Left/Right", "Move cursor"),
        ("Home/End", "Start/end of line"),
    ];
    assert(pairs_view(r@) =~= spec_command_help());
    r
}

/// The entries of the help overlay for the tab `tab`, with `editing_settings`
/// telling whether a setting is being edited.
pub fn help_entries(tab: Tab, editing_settings: bool) -> (r: Vec<(&'static str, &'static str)>)
    ensures
        r@.len() == spec_help_entries(tab, editing_settings).len(),
        forall|i: int|
            0 <= i < r@.len() ==> #[trigger] r@[i].0@ == spec_help_entries(tab, editing_settings)[i].0
                && r@[i].1@ == spec_help_entries(tab, editing_settings)[i].1,
{
    let mut r = global_help();
    let ghost g = r@;
    r.push(("", ""));
    let mut t = tab_help(tab, editing_settings);
    let ghost tv = t@;
    r.append(&mut t);
    r.push(("", ""));
    let mut c = command_help();
    let ghost cv = c@;
    r.append(&mut c);
    proof {
        assert(r@ =~= g + seq![("", "")] + tv + seq![("", "")] + cv);
        assert(pairs_view(r@) =~= spec_help_entries(tab, editing_settings));
        assert forall|i: int| 0 <= i < r@.len() implies #[trigger] r@[i].0@ == spec_help_entries(
            tab,
            editing_settings,
        )[i].0 && r@[i].1@ == spec_help_entries(tab, editing_settings)[i].1 by {
            assert(pairs_view(r@)[i] == (r@[i].0@, r@[i].1@));
        }
    }
    r
}

} // verus!
