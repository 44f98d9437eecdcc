use gitui::control::{
    App, AppAction, BranchCommand, Command, CurrentScreen, GitCommand, Key, Modal,
};

fn lines(raw: &[&str]) -> Vec<String> {
    raw.iter().map(|s| String::from(*s)).collect()
}

/// Drives the browser to the branch listing with the usual three branches
/// loaded and search capture already left.
fn app_on_branches() -> App {
    let mut app = App::new();
    let act = app.handle_key(Key::Char('b'));
    assert!(matches!(act, AppAction::LoadBranches));
    app.apply_branch_lines(&lines(&["  main", "* feature/x", "  bugfix"]));
    app.handle_key(Key::Esc);
    assert!(!app.in_search_bar);
    app
}

#[test]
fn initial_state() {
    let app = App::new();
    assert_eq!(app.current_screen, CurrentScreen::Main);
    assert!(!app.in_search_bar);
    assert_eq!(app.search_query, "");
    assert_eq!(app.error_modal, Modal::Closed);
    assert!(app.errors.is_empty());
    assert!(app.branches.get_values().is_empty());
    assert!(app.selected_command.is_none());
    assert!(app.selected_branch_command.is_none());
    let commands = app.commands.get_items();
    assert_eq!(commands[0].0, "Branch");
    assert_eq!(commands[1].0, "Fetch All");
    let branch_commands = app.branch_commands.get_items();
    assert_eq!(branch_commands[0].0, "Switch");
    assert_eq!(branch_commands[1].0, "Merge");
}

#[test]
fn command_labels() {
    assert_eq!(Command::Branch.to_string(), "Branch");
    assert_eq!(Command::FetchAll.to_string(), "Fetch All");
    assert_eq!(BranchCommand::Switch.to_string(), "Switch");
    assert_eq!(BranchCommand::Merge.to_string(), "Merge");
}

#[test]
fn quit_flow() {
    let mut app = App::new();
    app.handle_key(Key::Char('q'));
    assert_eq!(app.current_screen, CurrentScreen::Exiting);
    let ignored = app.handle_key(Key::Char('x'));
    assert!(matches!(ignored, AppAction::Stay));
    assert_eq!(app.current_screen, CurrentScreen::Exiting);
    let confirmed = app.handle_key(Key::Char('y'));
    assert!(matches!(confirmed, AppAction::Exit(true)));
    let cancelled = app.handle_key(Key::Char('n'));
    assert!(matches!(cancelled, AppAction::Exit(false)));
    let cancelled_q = app.handle_key(Key::Char('q'));
    assert!(matches!(cancelled_q, AppAction::Exit(false)));
}

#[test]
fn entering_branches_loads_and_captures() {
    let mut app = App::new();
    let act = app.handle_key(Key::Char('b'));
    assert!(matches!(act, AppAction::LoadBranches));
    assert_eq!(app.current_screen, CurrentScreen::ListingBranches);
    assert!(app.in_search_bar);
    app.apply_branch_lines(&lines(&["  main", "* dev"]));
    assert_eq!(app.branches.get_values().len(), 2);
    assert_eq!(app.branches.get_index(), 0);
}

#[test]
fn search_capture_edits_and_rebases() {
    let mut app = App::new();
    app.handle_key(Key::Char('b'));
    app.apply_branch_lines(&lines(&["  main", "* feature/x", "  bugfix"]));
    app.handle_key(Key::Char('f'));
    app.handle_key(Key::Char('e'));
    assert_eq!(app.search_query, "fe");
    app.handle_key(Key::Backspace);
    assert_eq!(app.search_query, "f");
    app.handle_key(Key::Esc);
    assert!(!app.in_search_bar);
    assert_eq!(app.search_query, "f");
    // re-based onto the first entry whose display name contains "f"
    assert_eq!(app.branches.get_index(), 1);
}

#[test]
fn backspace_on_empty_query_is_a_no_op() {
    let mut app = App::new();
    app.handle_key(Key::Char('b'));
    app.apply_branch_lines(&lines(&["  main"]));
    app.handle_key(Key::Backspace);
    assert_eq!(app.search_query, "");
}

#[test]
fn escape_with_no_match_resets_to_start() {
    let mut app = App::new();
    app.handle_key(Key::Char('b'));
    app.apply_branch_lines(&lines(&["  main", "* dev"]));
    app.handle_key(Key::Char('z'));
    app.handle_key(Key::Esc);
    assert_eq!(app.branches.get_index(), 0);
    assert_eq!(app.search_query, "z");
}

#[test]
fn navigation_steps_commit_positions() {
    let mut app = app_on_branches();
    app.handle_key(Key::Char('j'));
    assert_eq!(app.branches.get_index(), 1);
    assert!(!app.in_search_bar);
    // backward to the first entry: a boundary, so search capture resumes
    app.handle_key(Key::Char('k'));
    assert_eq!(app.branches.get_index(), 0);
    assert!(app.in_search_bar);
    app.handle_key(Key::Esc);
    assert!(!app.in_search_bar);
    // backward from the first entry wraps to the last
    app.handle_key(Key::Char('k'));
    assert_eq!(app.branches.get_index(), 2);
    assert!(!app.in_search_bar);
}

#[test]
fn reaching_the_boundary_reenters_search_capture() {
    let mut app = app_on_branches();
    app.handle_key(Key::Char('j'));
    assert!(!app.in_search_bar);
    app.handle_key(Key::Char('j'));
    assert_eq!(app.branches.get_index(), 2);
    assert!(app.in_search_bar);
}

#[test]
fn switch_enter_requests_the_gateway_command() {
    let mut app = app_on_branches();
    app.branches.select_from_index(2);
    let act = app.handle_key(Key::Enter);
    match act {
        AppAction::Invoke(GitCommand::Switch(name)) => assert_eq!(name, "bugfix"),
        _ => panic!("expected a switch request"),
    }
    assert_eq!(app.current_screen, CurrentScreen::ListingBranches);
}

#[test]
fn switch_success_updates_the_registry() {
    let mut app = app_on_branches();
    app.branches.select_from_index(2);
    let act = app.handle_key(Key::Enter);
    let cmd = match act {
        AppAction::Invoke(c) => c,
        _ => panic!("expected a gateway request"),
    };
    app.apply_git_output(&cmd, "Switched to branch 'bugfix'");
    assert_eq!(app.current_screen, CurrentScreen::ListingBranches);
    assert!(app.errors.is_empty());
    let values = app.branches.get_values();
    assert!(!values[0].is_checked_out);
    assert!(!values[1].is_checked_out);
    assert!(values[2].is_checked_out);
}

#[test]
fn switch_on_checked_out_branch_makes_no_gateway_request() {
    let mut app = app_on_branches();
    app.branches.select_from_index(1);
    let act = app.handle_key(Key::Enter);
    // zero gateway invocations: the returned action asks for none
    assert!(matches!(act, AppAction::Stay));
    assert_eq!(app.current_screen, CurrentScreen::Errors);
    assert_eq!(app.error_modal, Modal::Open);
    assert_eq!(app.errors.len(), 1);
    assert_eq!(app.errors[0].message(), "branch is already checked out");
}

#[test]
fn switch_gateway_failure_opens_the_error_screen() {
    let mut app = app_on_branches();
    app.branches.select_from_index(2);
    let act = app.handle_key(Key::Enter);
    let cmd = match act {
        AppAction::Invoke(c) => c,
        _ => panic!("expected a gateway request"),
    };
    app.apply_git_output(&cmd, "error: cannot switch");
    assert_eq!(app.current_screen, CurrentScreen::Errors);
    assert_eq!(app.errors.len(), 1);
    assert!(app.errors[0].message().contains("cannot switch"));
    // the failed switch left the flags alone
    assert!(app.branches.get_values()[1].is_checked_out);
    assert!(!app.branches.get_values()[2].is_checked_out);
}

#[test]
fn merge_enter_uses_the_pending_sub_command() {
    let mut app = app_on_branches();
    app.selected_branch_command = Some(BranchCommand::Merge);
    app.branches.select_from_index(0);
    let act = app.handle_key(Key::Enter);
    match act {
        AppAction::Invoke(GitCommand::Merge(name)) => assert_eq!(name, "main"),
        _ => panic!("expected a merge request"),
    }
    app.branches.select_from_index(1);
    let rejected = app.handle_key(Key::Enter);
    assert!(matches!(rejected, AppAction::Stay));
    assert_eq!(app.errors.len(), 1);
    assert_eq!(app.errors[0].message(), "cant merge branch");
}

#[test]
fn enter_with_no_branches_is_ignored() {
    let mut app = App::new();
    app.handle_key(Key::Char('b'));
    app.apply_branch_lines(&lines(&[]));
    app.handle_key(Key::Esc);
    let act = app.handle_key(Key::Enter);
    assert!(matches!(act, AppAction::Stay));
    assert_eq!(app.current_screen, CurrentScreen::ListingBranches);
}

#[test]
fn command_menu_enter_opens_branch_menu() {
    let mut app = App::new();
    app.handle_key(Key::Char('c'));
    assert_eq!(app.current_screen, CurrentScreen::ListingCommands);
    assert!(app.in_search_bar);
    app.handle_key(Key::Esc);
    let act = app.handle_key(Key::Enter);
    assert!(matches!(act, AppAction::Stay));
    assert_eq!(app.current_screen, CurrentScreen::ListingBranchCommands);
    assert!(matches!(app.selected_command, Some(Command::Branch)));
    let next = app.handle_key(Key::Enter);
    assert!(matches!(next, AppAction::LoadBranches));
    assert_eq!(app.current_screen, CurrentScreen::ListingBranches);
    assert!(matches!(app.selected_branch_command, Some(BranchCommand::Switch)));
}

#[test]
fn branch_menu_selects_merge() {
    let mut app = App::new();
    app.handle_key(Key::Char('c'));
    app.handle_key(Key::Esc);
    app.handle_key(Key::Enter);
    app.branch_commands.select_from_index(1);
    let act = app.handle_key(Key::Enter);
    assert!(matches!(act, AppAction::LoadBranches));
    assert!(matches!(app.selected_branch_command, Some(BranchCommand::Merge)));
}

#[test]
fn fetch_failure_is_recorded() {
    let mut app = App::new();
    app.handle_key(Key::Char('c'));
    app.handle_key(Key::Esc);
    app.commands.select_from_index(1);
    let act = app.handle_key(Key::Enter);
    let cmd = match act {
        AppAction::Invoke(c) => c,
        _ => panic!("expected a fetch request"),
    };
    assert!(matches!(cmd, GitCommand::Fetch));
    app.apply_git_output(&cmd, "error: could not fetch");
    assert_eq!(app.current_screen, CurrentScreen::Errors);
    assert_eq!(app.errors.len(), 1);
    assert_eq!(
        app.errors[0].message(),
        "failed to fetch all. output: error: could not fetch"
    );
}

#[test]
fn fetch_success_stays_on_the_menu() {
    let mut app = App::new();
    app.handle_key(Key::Char('c'));
    app.handle_key(Key::Esc);
    app.commands.select_from_index(1);
    let act = app.handle_key(Key::Enter);
    let cmd = match act {
        AppAction::Invoke(c) => c,
        _ => panic!("expected a fetch request"),
    };
    app.apply_git_output(&cmd, "Fetching origin");
    assert_eq!(app.current_screen, CurrentScreen::ListingCommands);
    assert!(app.errors.is_empty());
}

#[test]
fn error_screen_dismissal_clears_the_errors() {
    let mut app = app_on_branches();
    app.branches.select_from_index(1);
    app.handle_key(Key::Enter);
    app.handle_key(Key::Enter);
    assert_eq!(app.current_screen, CurrentScreen::Errors);
    app.handle_key(Key::Esc);
    assert_eq!(app.current_screen, CurrentScreen::Main);
    assert_eq!(app.error_modal, Modal::Closed);
    assert!(app.errors.is_empty());
}

#[test]
fn errors_accumulate_until_dismissed() {
    let mut app = app_on_branches();
    app.branches.select_from_index(2);
    let act = app.handle_key(Key::Enter);
    let cmd = match act {
        AppAction::Invoke(c) => c,
        _ => panic!("expected a gateway request"),
    };
    app.apply_git_output(&cmd, "error: one");
    app.handle_key(Key::Char('x'));
    assert_eq!(app.current_screen, CurrentScreen::Errors);
    let cmd2 = GitCommand::Fetch;
    app.apply_git_output(&cmd2, "error: two");
    assert_eq!(app.errors.len(), 2);
}

#[test]
fn leaving_a_listing_clears_query_and_pending_selection() {
    let mut app = app_on_branches();
    app.selected_branch_command = Some(BranchCommand::Merge);
    app.branches.select_from_index(2);
    app.handle_key(Key::Char('q'));
    assert_eq!(app.current_screen, CurrentScreen::Main);
    assert_eq!(app.search_query, "");
    assert!(app.selected_command.is_none());
    assert!(app.selected_branch_command.is_none());
    assert_eq!(app.branches.get_index(), 0);
}

#[test]
fn menu_search_rebases_onto_the_first_match() {
    let mut app = App::new();
    app.handle_key(Key::Char('c'));
    assert!(app.in_search_bar);
    app.handle_key(Key::Char('F'));
    app.handle_key(Key::Char('e'));
    app.handle_key(Key::Esc);
    // "Fetch All" is the first command menu entry containing "Fe"
    assert_eq!(app.commands.get_index(), 1);
    assert_eq!(app.search_query, "Fe");
}

#[test]
fn i_reenters_search_capture() {
    let mut app = app_on_branches();
    app.handle_key(Key::Char('i'));
    assert!(app.in_search_bar);
}

#[test]
fn q_while_capturing_is_part_of_the_query() {
    let mut app = App::new();
    app.handle_key(Key::Char('b'));
    app.apply_branch_lines(&lines(&["  main"]));
    app.handle_key(Key::Char('q'));
    assert_eq!(app.current_screen, CurrentScreen::ListingBranches);
    assert_eq!(app.search_query, "q");
}
