//! The screen state machine: which screen is shown, whether search capture is
//! active, the pending command selection, and the transition taken for each
//! key press.
//!
//! The outer loop owns the terminal and the gateway. It hands each key press
//! to `handle_key`, performs the `AppAction` that comes back (read the branch
//! listing, run a branch command, leave), and hands captured gateway output
//! back through `apply_branch_lines` or `apply_git_output`. Every transition
//! is specified exactly by the spec-level step functions below.

use vstd::prelude::*;
use vstd::string::*;
use crate::branch::{
    branch_first_match, branch_nav_view, checked_only_at, is_failure_output, loaded_view,
    lines_view, Branches, BranchesV,
};
use crate::errors::{errors_view, GituiError, GituiErrorV};
use crate::scroll::{
    first_match_target, nav_step_view, tags_bounded, Index, Scrollable, ScrollV,
};
use crate::text::{remove_last_char, trimmed};

verus! {

/// The screen the user is looking at.
#[derive(Clone, Copy, PartialEq, Eq, Structural, Debug)]
pub enum CurrentScreen {
    Main,
    ListingBranches,
    ListingCommands,
    ListingBranchCommands,
    Errors,
    Exiting,
}

/// Whether the error pop-up is shown.
#[derive(Clone, Copy, PartialEq, Eq, Structural, Debug)]
pub enum Modal {
    Open,
    Closed,
}

/// The top-level commands of the command menu.
#[derive(Clone, Copy, PartialEq, Eq, Structural, Debug)]
pub enum Command {
    Branch,
    FetchAll,
}

/// The branch-level sub-commands.
#[derive(Clone, Copy, PartialEq, Eq, Structural, Debug)]
pub enum BranchCommand {
    Switch,
    Merge,
}

/// One key press, as handed in by the terminal layer.
#[derive(Clone, Copy, Debug)]
pub enum Key {
    Char(char),
    Enter,
    Backspace,
    Esc,
    Other,
}

/// A gateway command requested by a transition; the outer loop runs it and
/// hands the captured output back through `apply_git_output`.
#[derive(Debug)]
pub enum GitCommand {
    Switch(String),
    Merge(String),
    Fetch,
}

/// Mathematical content of a `GitCommand`.
pub ghost enum GitCommandV {
    Switch(Seq<char>),
    Merge(Seq<char>),
    Fetch,
}

impl View for GitCommand {
    type V = GitCommandV;

    open spec fn view(&self) -> GitCommandV {
        match self {
            GitCommand::Switch(s) => GitCommandV::Switch(s@),
            GitCommand::Merge(s) => GitCommandV::Merge(s@),
            GitCommand::Fetch => GitCommandV::Fetch,
        }
    }
}

/// What the outer loop must do after a key was handled.
#[derive(Debug)]
pub enum AppAction {
    /// Keep reading input.
    Stay,
    /// Leave the loop; the payload tells whether the exit was confirmed.
    Exit(bool),
    /// Read the gateway's branch listing and hand the lines to
    /// `apply_branch_lines`.
    LoadBranches,
    /// Run the given gateway command and hand the captured output to
    /// `apply_git_output`.
    Invoke(GitCommand),
}

/// Mathematical content of an `AppAction`.
pub ghost enum AppActionV {
    Stay,
    Exit(bool),
    LoadBranches,
    Invoke(GitCommandV),
}

impl View for AppAction {
    type V = AppActionV;

    open spec fn view(&self) -> AppActionV {
        match self {
            AppAction::Stay => AppActionV::Stay,
            AppAction::Exit(b) => AppActionV::Exit(*b),
            AppAction::LoadBranches => AppActionV::LoadBranches,
            AppAction::Invoke(c) => AppActionV::Invoke(c@),
        }
    }
}

/// The whole interface state, seen mathematically.
#[verifier::ext_equal]
pub ghost struct AppV {
    pub screen: CurrentScreen,
    pub in_search: bool,
    pub query: Seq<char>,
    pub modal: Modal,
    pub errors: Seq<GituiErrorV>,
    pub branches: BranchesV,
    pub sel_command: Option<Command>,
    pub sel_branch_command: Option<BranchCommand>,
    pub commands: ScrollV,
    pub branch_commands: ScrollV,
}

/// The interface state: the current screen, the search bar, the accumulated
/// errors, the branch registry, the pending command selection, and the two
/// fixed menus.
pub struct App {
    pub current_screen: CurrentScreen,
    pub in_search_bar: bool,
    pub search_query: String,
    pub error_modal: Modal,
    pub errors: Vec<GituiError>,
    pub branches: Branches,
    pub selected_command: Option<Command>,
    pub selected_branch_command: Option<BranchCommand>,
    pub commands: Scrollable,
    pub branch_commands: Scrollable,
}

impl View for App {
    type V = AppV;

    open spec fn view(&self) -> AppV {
        AppV {
            screen: self.current_screen,
            in_search: self.in_search_bar,
            query: self.search_query@,
            modal: self.error_modal,
            errors: errors_view(self.errors@),
            branches: self.branches@,
            sel_command: self.selected_command,
            sel_branch_command: self.selected_branch_command,
            commands: self.commands@,
            branch_commands: self.branch_commands@,
        }
    }
}

/// The fixed entries of the command menu.
pub open spec fn command_menu_items() -> Seq<(Seq<char>, int)> {
    seq![("Branch"@, 0), ("Fetch All"@, 1)]
}

/// The fixed entries of the branch-command menu.
pub open spec fn branch_menu_items() -> Seq<(Seq<char>, int)> {
    seq![("Switch"@, 0), ("Merge"@, 1)]
}

/// Structural facts every reachable state satisfies: the two menus hold their
/// fixed entries with a selection inside them, and each loaded branch carries
/// its own position.
pub open spec fn wf(a: AppV) -> bool {
    &&& a.commands.items == command_menu_items()
    &&& 0 <= a.commands.sel < 2
    &&& a.branch_commands.items == branch_menu_items()
    &&& 0 <= a.branch_commands.sel < 2
    &&& 0 <= a.branches.cur
    &&& forall|i: int|
        0 <= i < a.branches.entries.len() ==> (#[trigger] a.branches.entries[i]).index == i
}

/// The state the browser starts in.
pub open spec fn initial_app() -> AppV {
    AppV {
        screen: CurrentScreen::Main,
        in_search: false,
        query: Seq::empty(),
        modal: Modal::Closed,
        errors: Seq::empty(),
        branches: BranchesV { entries: Seq::empty(), cur: 0 },
        sel_command: None,
        sel_branch_command: None,
        commands: ScrollV { items: command_menu_items(), sel: 0 },
        branch_commands: ScrollV { items: branch_menu_items(), sel: 0 },
    }
}

impl Command {
    /// The menu label of the command.
    pub open spec fn label(self) -> Seq<char> {
        match self {
            Command::Branch => "Branch"@,
            Command::FetchAll => "Fetch All"@,
        }
    }

    pub fn to_string(&self) -> (r: String)
        ensures
            r@ == self.label(),
    {
        match self {
            Command::Branch => String::from_str("Branch"),
            Command::FetchAll => String::from_str("Fetch All"),
        }
    }
}

impl BranchCommand {
    /// The menu label of the sub-command.
    pub open spec fn label(self) -> Seq<char> {
        match self {
            BranchCommand::Switch => "Switch"@,
            BranchCommand::Merge => "Merge"@,
        }
    }

    pub fn to_string(&self) -> (r: String)
        ensures
            r@ == self.label(),
    {
        match self {
            BranchCommand::Switch => String::from_str("Switch"),
            BranchCommand::Merge => String::from_str("Merge"),
        }
    }
}

/// The state after an error was recorded: it joins the list and the error
/// screen opens.
pub open spec fn with_error(pre: AppV, e: GituiErrorV) -> AppV {
    AppV {
        errors: pre.errors.push(e),
        modal: Modal::Open,
        screen: CurrentScreen::Errors,
        ..pre
    }
}

/// Transition of the home screen.
pub open spec fn step_main(pre: AppV, key: Key) -> (AppV, AppActionV) {
    match key {
        Key::Char(c) => if c == 'b' {
            (
                AppV { screen: CurrentScreen::ListingBranches, in_search: true, ..pre },
                AppActionV::LoadBranches,
            )
        } else if c == 'c' {
            (
                AppV { screen: CurrentScreen::ListingCommands, in_search: true, ..pre },
                AppActionV::Stay,
            )
        } else if c == 'q' {
            (AppV { screen: CurrentScreen::Exiting, ..pre }, AppActionV::Stay)
        } else {
            (pre, AppActionV::Stay)
        },
        _ => (pre, AppActionV::Stay),
    }
}

/// Transition of the exit-confirmation screen.
pub open spec fn step_exiting(pre: AppV, key: Key) -> (AppV, AppActionV) {
    match key {
        Key::Char(c) => if c == 'y' {
            (pre, AppActionV::Exit(true))
        } else if c == 'n' || c == 'q' {
            (pre, AppActionV::Exit(false))
        } else {
            (pre, AppActionV::Stay)
        },
        _ => (pre, AppActionV::Stay),
    }
}

/// Transition of the error screen: dismissal clears the collected errors.
pub open spec fn step_errors(pre: AppV, key: Key) -> (AppV, AppActionV) {
    let dismiss = AppV {
        screen: CurrentScreen::Main,
        modal: Modal::Closed,
        errors: Seq::empty(),
        ..pre
    };
    match key {
        Key::Esc => (dismiss, AppActionV::Stay),
        Key::Char(c) => if c == 'q' {
            (dismiss, AppActionV::Stay)
        } else {
            (pre, AppActionV::Stay)
        },
        _ => (pre, AppActionV::Stay),
    }
}

/// Transition of a listing screen while search capture is active: printable
/// characters grow the query, Backspace shrinks it, and Esc leaves capture,
/// re-basing the active list's selection onto its first matching entry.
pub open spec fn step_capture(pre: AppV, key: Key) -> AppV {
    match key {
        Key::Backspace => AppV {
            query: if pre.query.len() == 0 {
                pre.query
            } else {
                pre.query.drop_last()
            },
            ..pre
        },
        Key::Char(c) => AppV { query: pre.query.push(c), ..pre },
        Key::Esc => {
            let base = AppV { in_search: false, ..pre };
            if pre.screen is ListingCommands {
                AppV {
                    commands: ScrollV {
                        items: pre.commands.items,
                        sel: first_match_target(pre.commands.items, pre.query),
                    },
                    ..base
                }
            } else if pre.screen is ListingBranchCommands {
                AppV {
                    branch_commands: ScrollV {
                        items: pre.branch_commands.items,
                        sel: first_match_target(pre.branch_commands.items, pre.query),
                    },
                    ..base
                }
            } else {
                AppV {
                    branches: BranchesV {
                        entries: pre.branches.entries,
                        cur: branch_first_match(pre.branches.entries, pre.query),
                    },
                    ..base
                }
            }
        },
        _ => pre,
    }
}

/// Leaving a listing screen for home: the active list's selection is reset,
/// the search text cleared, and the pending command selection dropped.
pub open spec fn back_to_main(pre: AppV) -> AppV {
    let base = AppV {
        screen: CurrentScreen::Main,
        query: Seq::empty(),
        sel_command: None,
        sel_branch_command: None,
        ..pre
    };
    if pre.screen is ListingCommands {
        AppV { commands: ScrollV { items: pre.commands.items, sel: 0 }, ..base }
    } else if pre.screen is ListingBranchCommands {
        AppV { branch_commands: ScrollV { items: pre.branch_commands.items, sel: 0 }, ..base }
    } else {
        AppV { branches: BranchesV { entries: pre.branches.entries, cur: 0 }, ..base }
    }
}

/// One navigation step on the active list's filtered view; reaching the
/// filtered boundary re-enters search capture.
pub open spec fn list_nav(pre: AppV, forward: bool) -> AppV {
    if pre.screen is ListingCommands {
        let r = nav_step_view(pre.commands.items, pre.commands.sel, pre.query, forward);
        AppV {
            commands: ScrollV { items: pre.commands.items, sel: r.0 },
            in_search: r.1,
            ..pre
        }
    } else if pre.screen is ListingBranchCommands {
        let r = nav_step_view(
            pre.branch_commands.items,
            pre.branch_commands.sel,
            pre.query,
            forward,
        );
        AppV {
            branch_commands: ScrollV { items: pre.branch_commands.items, sel: r.0 },
            in_search: r.1,
            ..pre
        }
    } else {
        let r = branch_nav_view(pre.branches.entries, pre.branches.cur, pre.query, forward);
        AppV {
            branches: BranchesV { entries: pre.branches.entries, cur: r.0 },
            in_search: r.1,
            ..pre
        }
    }
}

/// Enter on the command menu: the selected entry's transition.
pub open spec fn commands_enter(pre: AppV) -> (AppV, AppActionV) {
    if pre.commands.items[pre.commands.sel].1 == 0 {
        (
            AppV {
                screen: CurrentScreen::ListingBranchCommands,
                sel_command: Some(Command::Branch),
                ..pre
            },
            AppActionV::Stay,
        )
    } else {
        (pre, AppActionV::Invoke(GitCommandV::Fetch))
    }
}

/// Enter on the branch-command menu: remember the sub-command and load the
/// branch listing.
pub open spec fn branch_commands_enter(pre: AppV) -> (AppV, AppActionV) {
    let cmd = if pre.branch_commands.items[pre.branch_commands.sel].1 == 0 {
        BranchCommand::Switch
    } else {
        BranchCommand::Merge
    };
    (
        AppV {
            screen: CurrentScreen::ListingBranches,
            sel_branch_command: Some(cmd),
            ..pre
        },
        AppActionV::LoadBranches,
    )
}

/// Enter on the branch listing: run the pending sub-command (switch when none
/// is pending) against the selected branch. The local guard is checked before
/// any gateway command is requested; an unusable selection is ignored.
pub open spec fn branches_enter(pre: AppV) -> (AppV, AppActionV) {
    if !(0 <= pre.branches.cur < pre.branches.entries.len()) {
        (pre, AppActionV::Stay)
    } else {
        let b = pre.branches.entries[pre.branches.cur];
        if pre.sel_branch_command matches Some(BranchCommand::Merge) {
            if b.is_checked_out {
                (with_error(pre, GituiErrorV::BranchMerge("cant merge branch"@)), AppActionV::Stay)
            } else {
                (pre, AppActionV::Invoke(GitCommandV::Merge(trimmed(b.name))))
            }
        } else {
            if b.is_checked_out {
                (
                    with_error(
                        pre,
                        GituiErrorV::BranchSwitch("branch is already checked out"@),
                    ),
                    AppActionV::Stay,
                )
            } else {
                (pre, AppActionV::Invoke(GitCommandV::Switch(trimmed(b.name))))
            }
        }
    }
}

/// Transition of a listing screen outside search capture.
pub open spec fn step_listing_nav(pre: AppV, key: Key) -> (AppV, AppActionV) {
    match key {
        Key::Enter => if pre.screen is ListingCommands {
            commands_enter(pre)
        } else if pre.screen is ListingBranchCommands {
            branch_commands_enter(pre)
        } else {
            branches_enter(pre)
        },
        Key::Esc => (back_to_main(pre), AppActionV::Stay),
        Key::Char(c) => if c == 'q' {
            (back_to_main(pre), AppActionV::Stay)
        } else if c == 'j' {
            (list_nav(pre, true), AppActionV::Stay)
        } else if c == 'k' {
            (list_nav(pre, false), AppActionV::Stay)
        } else if c == 'i' {
            (AppV { in_search: true, ..pre }, AppActionV::Stay)
        } else {
            (pre, AppActionV::Stay)
        },
        _ => (pre, AppActionV::Stay),
    }
}

/// The complete transition relation of the interface: the state after one key
/// press, and what the outer loop must do next.
pub open spec fn key_step(pre: AppV, key: Key) -> (AppV, AppActionV) {
    match pre.screen {
        CurrentScreen::Main => step_main(pre, key),
        CurrentScreen::Exiting => step_exiting(pre, key),
        CurrentScreen::Errors => step_errors(pre, key),
        _ => if pre.in_search {
            (step_capture(pre, key), AppActionV::Stay)
        } else {
            step_listing_nav(pre, key)
        },
    }
}

/// The state after the gateway's branch listing arrived.
pub open spec fn lines_step(pre: AppV, lines: Seq<Seq<char>>) -> AppV {
    AppV { branches: loaded_view(lines), ..pre }
}

/// The state after a requested gateway command returned `out`: failures are
/// recorded and open the error screen; a successful switch makes the selected
/// branch the only checked-out one; a successful merge or fetch changes
/// nothing.
pub open spec fn output_step(pre: AppV, cmd: GitCommandV, out: Seq<char>) -> AppV {
    match cmd {
        GitCommandV::Switch(_) => if is_failure_output(out) {
            with_error(pre, GituiErrorV::BranchSwitch("failed to switch branch. output: "@ + out))
        } else {
            AppV {
                branches: BranchesV {
                    entries: checked_only_at(pre.branches.entries, pre.branches.cur),
                    cur: pre.branches.cur,
                },
                ..pre
            }
        },
        GitCommandV::Merge(_) => if is_failure_output(out) {
            with_error(pre, GituiErrorV::BranchMerge("failed to merge branch. output: "@ + out))
        } else {
            pre
        },
        GitCommandV::Fetch => if is_failure_output(out) {
            with_error(pre, GituiErrorV::FetchAll("failed to fetch all. output: "@ + out))
        } else {
            pre
        },
    }
}

impl Command {
    /// The transition bound to this menu entry: entering the branch-command
    /// menu, or requesting a repository-wide fetch from the gateway.
    pub fn next_step(&self, app: &mut App) -> (act: AppAction)
        ensures
            *self is Branch ==> final(app)@ == (AppV {
                screen: CurrentScreen::ListingBranchCommands,
                sel_command: Some(Command::Branch),
                ..old(app)@
            }) && act@ is Stay,
            *self is FetchAll ==> final(app)@ == old(app)@ && act@ == AppActionV::Invoke(
                GitCommandV::Fetch,
            ),
    {
        match self {
            Command::Branch => {
                app.current_screen = CurrentScreen::ListingBranchCommands;
                app.selected_command = Some(Command::Branch);
                proof {
                    assert(app@ =~~= (AppV {
                        screen: CurrentScreen::ListingBranchCommands,
                        sel_command: Some(Command::Branch),
                        ..old(app)@
                    }));
                }
                AppAction::Stay
            },
            Command::FetchAll => AppAction::Invoke(GitCommand::Fetch),
        }
    }
}

impl BranchCommand {
    /// The transition bound to this menu entry: remember the sub-command,
    /// show the branch listing, and ask the outer loop to load it.
    pub fn next_step(&self, app: &mut App) -> (act: AppAction)
        ensures
            final(app)@ == (AppV {
                screen: CurrentScreen::ListingBranches,
                sel_branch_command: Some(*self),
                ..old(app)@
            }),
            act@ is LoadBranches,
    {
        app.current_screen = CurrentScreen::ListingBranches;
        app.selected_branch_command = Some(*self);
        proof {
            assert(app@ =~~= (AppV {
                screen: CurrentScreen::ListingBranches,
                sel_branch_command: Some(*self),
                ..old(app)@
            }));
        }
        AppAction::LoadBranches
    }
}

impl App {
    /// The browser's starting state.
    pub fn new() -> (r: App)
        ensures
            r@ == initial_app(),
            wf(r@),
    {
        let mut command_items: Vec<(String, Index)> = Vec::new();
        command_items.push((Command::Branch.to_string(), Index(0)));
        command_items.push((Command::FetchAll.to_string(), Index(1)));
        let commands = Scrollable::new(command_items, Some(0));
        let mut branch_command_items: Vec<(String, Index)> = Vec::new();
        branch_command_items.push((BranchCommand::Switch.to_string(), Index(0)));
        branch_command_items.push((BranchCommand::Merge.to_string(), Index(1)));
        let branch_commands = Scrollable::new(branch_command_items, Some(0));
        let r = App {
            current_screen: CurrentScreen::Main,
            in_search_bar: false,
            search_query: String::new(),
            error_modal: Modal::Closed,
            errors: Vec::new(),
            branches: Branches::new(Vec::new()),
            selected_command: None,
            selected_branch_command: None,
            commands,
            branch_commands,
        };
        proof {
            assert(r@.commands.items =~= command_menu_items());
            assert(r@.branch_commands.items =~= branch_menu_items());
            assert(r@ =~~= initial_app());
        }
        r
    }

    /// Record a failure: it joins the error list and the error screen opens.
    fn report_error(&mut self, e: GituiError)
        ensures
            final(self)@ == with_error(old(self)@, e@),
    {
        let ghost old_errors = self.errors@;
        self.errors.push(e);
        self.error_modal = Modal::Open;
        self.current_screen = CurrentScreen::Errors;
        proof {
            assert(errors_view(self.errors@) =~= errors_view(old_errors).push(e@));
            assert(self@ =~~= with_error(old(self)@, e@));
        }
    }

    fn step_main_key(&mut self, key: Key) -> (act: AppAction)
        requires
            old(self)@.screen is Main,
        ensures
            final(self)@ == step_main(old(self)@, key).0,
            act@ == step_main(old(self)@, key).1,
    {
        match key {
            Key::Char(c) => if c == 'b' {
                self.current_screen = CurrentScreen::ListingBranches;
                self.in_search_bar = true;
                proof {
                    assert(self@ =~~= step_main(old(self)@, key).0);
                }
                AppAction::LoadBranches
            } else if c == 'c' {
                self.current_screen = CurrentScreen::ListingCommands;
                self.in_search_bar = true;
                proof {
                    assert(self@ =~~= step_main(old(self)@, key).0);
                }
                AppAction::Stay
            } else if c == 'q' {
                self.current_screen = CurrentScreen::Exiting;
                proof {
                    assert(self@ =~~= step_main(old(self)@, key).0);
                }
                AppAction::Stay
            } else {
                AppAction::Stay
            },
            _ => AppAction::Stay,
        }
    }

    fn step_exiting_key(&mut self, key: Key) -> (act: AppAction)
        requires
            old(self)@.screen is Exiting,
        ensures
            final(self)@ == step_exiting(old(self)@, key).0,
            act@ == step_exiting(old(self)@, key).1,
    {
        match key {
            Key::Char(c) => if c == 'y' {
                AppAction::Exit(true)
            } else if c == 'n' || c == 'q' {
                AppAction::Exit(false)
            } else {
                AppAction::Stay
            },
            _ => AppAction::Stay,
        }
    }

    fn step_errors_key(&mut self, key: Key) -> (act: AppAction)
        requires
            old(self)@.screen is Errors,
        ensures
            final(self)@ == step_errors(old(self)@, key).0,
            act@ == step_errors(old(self)@, key).1,
    {
        let dismiss = match key {
            Key::Esc => true,
            Key::Char(c) => c == 'q',
            _ => false,
        };
        if dismiss {
            self.current_screen = CurrentScreen::Main;
            self.error_modal = Modal::Closed;
            self.errors = Vec::new();
            proof {
                assert(errors_view(self.errors@) =~= Seq::<GituiErrorV>::empty());
                assert(self@ =~~= step_errors(old(self)@, key).0);
            }
        }
        AppAction::Stay
    }

    fn step_capture_key(&mut self, key: Key)
        requires
            wf(old(self)@),
            !(old(self)@.screen is Main),
            !(old(self)@.screen is Exiting),
            !(old(self)@.screen is Errors),
        ensures
            final(self)@ == step_capture(old(self)@, key),
    {
        match key {
            Key::Backspace => {
                if !self.search_query.as_str().is_empty() {
                    let shortened = remove_last_char(self.search_query.as_str()).to_owned();
                    self.search_query = shortened;
                    proof {
                        assert(self@ =~~= step_capture(old(self)@, key));
                    }
                }
            },
            Key::Char(c) => {
                self.search_query.push(c);
                proof {
                    assert(self@ =~~= step_capture(old(self)@, key));
                }
            },
            Key::Esc => {
                self.in_search_bar = false;
                match self.current_screen {
                    CurrentScreen::ListingCommands => {
                        proof {
                            menu_tags_bounded(self@.commands.items);
                        }
                        self.commands.commit_first_match(self.search_query.as_str());
                    },
                    CurrentScreen::ListingBranchCommands => {
                        proof {
                            menu_tags_bounded(self@.branch_commands.items);
                        }
                        self.branch_commands.commit_first_match(self.search_query.as_str());
                    },
                    _ => {
                        self.branches.commit_first_match(self.search_query.as_str());
                    },
                }
                proof {
                    assert(self@ =~~= step_capture(old(self)@, key));
                }
            },
            _ => {},
        }
    }

    fn step_commands_nav_key(&mut self, key: Key) -> (act: AppAction)
        requires
            wf(old(self)@),
            old(self)@.screen is ListingCommands,
            !old(self)@.in_search,
        ensures
            final(self)@ == step_listing_nav(old(self)@, key).0,
            act@ == step_listing_nav(old(self)@, key).1,
    {
        match key {
            Key::Enter => {
                let tag = match self.commands.get_current() {
                    Some(p) => p.1.0,
                    None => {
                        proof {
                            assert(false);
                        }
                        0
                    },
                };
                if tag == 0 {
                    Command::Branch.next_step(self)
                } else {
                    Command::FetchAll.next_step(self)
                }
            },
            Key::Esc => {
                self.back_home();
                AppAction::Stay
            },
            Key::Char(c) => if c == 'q' {
                self.back_home();
                AppAction::Stay
            } else if c == 'j' || c == 'k' {
                proof {
                    menu_tags_bounded(self@.commands.items);
                }
                let boundary = self.commands.nav_filtered(self.search_query.as_str(), c == 'j');
                self.in_search_bar = boundary;
                proof {
                    assert(self@ =~~= step_listing_nav(old(self)@, key).0);
                }
                AppAction::Stay
            } else if c == 'i' {
                self.in_search_bar = true;
                AppAction::Stay
            } else {
                AppAction::Stay
            },
            _ => AppAction::Stay,
        }
    }

    fn step_branch_commands_nav_key(&mut self, key: Key) -> (act: AppAction)
        requires
            wf(old(self)@),
            old(self)@.screen is ListingBranchCommands,
            !old(self)@.in_search,
        ensures
            final(self)@ == step_listing_nav(old(self)@, key).0,
            act@ == step_listing_nav(old(self)@, key).1,
    {
        match key {
            Key::Enter => {
                let tag = match self.branch_commands.get_current() {
                    Some(p) => p.1.0,
                    None => {
                        proof {
                            assert(false);
                        }
                        0
                    },
                };
                if tag == 0 {
                    BranchCommand::Switch.next_step(self)
                } else {
                    BranchCommand::Merge.next_step(self)
                }
            },
            Key::Esc => {
                self.back_home();
                AppAction::Stay
            },
            Key::Char(c) => if c == 'q' {
                self.back_home();
                AppAction::Stay
            } else if c == 'j' || c == 'k' {
                proof {
                    menu_tags_bounded(self@.branch_commands.items);
                }
                let boundary = self.branch_commands.nav_filtered(
                    self.search_query.as_str(),
                    c == 'j',
                );
                self.in_search_bar = boundary;
                proof {
                    assert(self@ =~~= step_listing_nav(old(self)@, key).0);
                }
                AppAction::Stay
            } else if c == 'i' {
                self.in_search_bar = true;
                AppAction::Stay
            } else {
                AppAction::Stay
            },
            _ => AppAction::Stay,
        }
    }

    fn step_branches_nav_key(&mut self, key: Key) -> (act: AppAction)
        requires
            wf(old(self)@),
            old(self)@.screen is ListingBranches,
            !old(self)@.in_search,
        ensures
            final(self)@ == step_listing_nav(old(self)@, key).0,
            act@ == step_listing_nav(old(self)@, key).1,
    {
        match key {
            Key::Enter => {
                let n = self.branches.get_values().len();
                let cur = self.branches.get_index();
                if cur < n {
                    if matches!(self.selected_branch_command, Some(BranchCommand::Merge)) {
                        match self.branches.merge_current() {
                            Ok(name) => AppAction::Invoke(GitCommand::Merge(name)),
                            Err(e) => {
                                self.report_error(e);
                                AppAction::Stay
                            },
                        }
                    } else {
                        match self.branches.switch_current() {
                            Ok(name) => AppAction::Invoke(GitCommand::Switch(name)),
                            Err(e) => {
                                self.report_error(e);
                                AppAction::Stay
                            },
                        }
                    }
                } else {
                    AppAction::Stay
                }
            },
            Key::Esc => {
                self.back_home();
                AppAction::Stay
            },
            Key::Char(c) => if c == 'q' {
                self.back_home();
                AppAction::Stay
            } else if c == 'j' || c == 'k' {
                let boundary = self.branches.nav_filtered(self.search_query.as_str(), c == 'j');
                self.in_search_bar = boundary;
                proof {
                    assert(self@ =~~= step_listing_nav(old(self)@, key).0);
                }
                AppAction::Stay
            } else if c == 'i' {
                self.in_search_bar = true;
                AppAction::Stay
            } else {
                AppAction::Stay
            },
            _ => AppAction::Stay,
        }
    }

    /// Leave the active listing screen for home.
    fn back_home(&mut self)
        requires
            !(old(self)@.screen is Main),
            !(old(self)@.screen is Exiting),
            !(old(self)@.screen is Errors),
        ensures
            final(self)@ == back_to_main(old(self)@),
    {
        let was = self.current_screen;
        self.current_screen = CurrentScreen::Main;
        self.search_query = String::new();
        self.selected_command = None;
        self.selected_branch_command = None;
        match was {
            CurrentScreen::ListingCommands => self.commands.reset_index(),
            CurrentScreen::ListingBranchCommands => self.branch_commands.reset_index(),
            _ => self.branches.reset_index(),
        }
        proof {
            assert(self@ =~~= back_to_main(old(self)@));
        }
    }

    /// Route one key press to the current screen's handler. The new state and
    /// the returned action are exactly `key_step` of the old state.
    pub fn handle_key(&mut self, key: Key) -> (act: AppAction)
        requires
            wf(old(self)@),
        ensures
            wf(final(self)@),
            final(self)@ == key_step(old(self)@, key).0,
            act@ == key_step(old(self)@, key).1,
    {
        proof {
            lemma_key_step_preserves_wf(old(self)@, key);
        }
        match self.current_screen {
            CurrentScreen::Main => self.step_main_key(key),
            CurrentScreen::Exiting => self.step_exiting_key(key),
            CurrentScreen::Errors => self.step_errors_key(key),
            CurrentScreen::ListingCommands => if self.in_search_bar {
                self.step_capture_key(key);
                AppAction::Stay
            } else {
                self.step_commands_nav_key(key)
            },
            CurrentScreen::ListingBranchCommands => if self.in_search_bar {
                self.step_capture_key(key);
                AppAction::Stay
            } else {
                self.step_branch_commands_nav_key(key)
            },
            CurrentScreen::ListingBranches => if self.in_search_bar {
                self.step_capture_key(key);
                AppAction::Stay
            } else {
                self.step_branches_nav_key(key)
            },
        }
    }

    /// Adopt the gateway's branch listing: requested by `LoadBranches`.
    pub fn apply_branch_lines(&mut self, lines: &Vec<String>)
        requires
            wf(old(self)@),
        ensures
            wf(final(self)@),
            final(self)@ == lines_step(old(self)@, lines_view(lines@)),
    {
        self.branches = Branches::load(lines);
        proof {
            assert(self@ =~~= lines_step(old(self)@, lines_view(lines@)));
        }
    }

    /// Classify the captured output of a requested gateway command: failures
    /// are recorded and open the error screen; a successful switch makes the
    /// selected branch the only checked-out one.
    pub fn apply_git_output(&mut self, cmd: &GitCommand, output: &str)
        requires
            wf(old(self)@),
        ensures
            wf(final(self)@),
            final(self)@ == output_step(old(self)@, cmd@, output@),
    {
        match cmd {
            GitCommand::Switch(_) => {
                match self.branches.apply_switch_output(output) {
                    Ok(()) => {
                        proof {
                            assert(self@ =~~= output_step(old(self)@, cmd@, output@));
                        }
                    },
                    Err(e) => {
                        self.report_error(e);
                    },
                }
            },
            GitCommand::Merge(_) => {
                match self.branches.apply_merge_output(output) {
                    Ok(()) => {},
                    Err(e) => {
                        self.report_error(e);
                    },
                }
            },
            GitCommand::Fetch => {
                if crate::text::str_has_substring(output, "error:") {
                    let mut msg = String::from_str("failed to fetch all. output: ");
                    msg.append(output);
                    self.report_error(GituiError::FetchAll(msg));
                }
            },
        }
    }
}

/// Every transition of `key_step` preserves the structural facts of `wf`:
/// the menus are never rebuilt, committed selections are carried positions of
/// the respective list, and branch positions are only replaced wholesale.
proof fn lemma_key_step_preserves_wf(pre: AppV, key: Key)
    requires
        wf(pre),
    ensures
        wf(key_step(pre, key).0),
{
    match pre.screen {
        CurrentScreen::Main => {},
        CurrentScreen::Exiting => {},
        CurrentScreen::Errors => {},
        _ => {
            if pre.in_search {
                if key is Esc {
                    crate::scroll::lemma_first_match_bounded(pre.commands.items, pre.query, 2);
                    crate::scroll::lemma_first_match_bounded(
                        pre.branch_commands.items,
                        pre.query,
                        2,
                    );
                    crate::branch::lemma_branch_first_match_bounded(
                        pre.branches.entries,
                        pre.query,
                    );
                    menu_tags_bounded(pre.commands.items);
                    menu_tags_bounded(pre.branch_commands.items);
                }
            } else {
                match key {
                    Key::Char(c) => if c == 'j' || c == 'k' {
                        menu_tags_bounded(pre.commands.items);
                        menu_tags_bounded(pre.branch_commands.items);
                        crate::scroll::lemma_nav_step_bounded(
                            pre.commands.items,
                            pre.commands.sel,
                            pre.query,
                            c == 'j',
                            2,
                        );
                        crate::scroll::lemma_nav_step_bounded(
                            pre.branch_commands.items,
                            pre.branch_commands.sel,
                            pre.query,
                            c == 'j',
                            2,
                        );
                        crate::branch::lemma_branch_nav_bounded(
                            pre.branches.entries,
                            pre.branches.cur,
                            pre.query,
                            c == 'j',
                        );
                    } else {
                    },
                    _ => {},
                }
            }
        },
    }
}

/// The two fixed menus carry the positions 0 and 1, both below their length.
proof fn menu_tags_bounded(items: Seq<(Seq<char>, int)>)
    requires
        items == command_menu_items() || items == branch_menu_items(),
    ensures
        tags_bounded(items, items.len() as int),
{
    assert forall|i: int| 0 <= i < items.len() implies 0 <= (#[trigger] items[i]).1
        < items.len() by {
        if i == 0 {
        } else {
            assert(i == 1);
        }
    }
}

} // verus!
