use makemkv_tui::makemkv::{DiskInfo, DiskTitle, ExtractError, Progress};
use makemkv_tui::state::{step_down, step_up, Action, AppState, Command, Key};

fn names(list: &[&str]) -> Vec<String> {
    list.iter().map(|n| n.to_string()).collect()
}

fn title(id: u32, size_bytes: u64) -> DiskTitle {
    DiskTitle { id, name: format!("Title {}", id), size_bytes, duration_secs: 60 }
}

fn catalog() -> DiskInfo {
    DiskInfo { title: "Disc".to_string(), titles: vec![title(1, 900), title(0, 500), title(2, 10)] }
}

fn empty_catalog() -> DiskInfo {
    DiskInfo { title: "Unknown".to_string(), titles: vec![] }
}

fn drive_list(list: &[&str], selected: Option<usize>) -> AppState {
    AppState::DriveList { drives: names(list), selected }
}

fn drive_info(selected: Option<usize>) -> AppState {
    AppState::DriveInfo { drive: "/dev/sr0".to_string(), disk_info: catalog(), selected }
}

fn extracting(extracted: u32, total: u32, task: &str) -> AppState {
    AppState::TitleExtracting {
        drive: "/dev/sr0".to_string(),
        disk_info: catalog(),
        title_id: 1,
        total,
        extracted,
        task: task.to_string(),
    }
}

fn done(selected: Option<usize>) -> AppState {
    AppState::Done { disk_info: catalog(), drive: "/dev/sr0".to_string(), title_id: 1, selected }
}

fn every_state() -> Vec<AppState> {
    vec![
        AppState::InitLoading,
        drive_list(&[], None),
        drive_list(&["/dev/sr0", "/dev/sr1"], Some(1)),
        AppState::DriveInfoLoading("/dev/sr0".to_string()),
        drive_info(Some(0)),
        AppState::DriveInfo {
            drive: "/dev/sr0".to_string(),
            disk_info: empty_catalog(),
            selected: None,
        },
        extracting(5, 10, "Saving"),
        done(Some(0)),
        done(Some(1)),
        AppState::Exit,
    ]
}

fn every_key() -> Vec<Key> {
    vec![
        Key::Char('q'),
        Key::Esc,
        Key::Up,
        Key::Char('k'),
        Key::Down,
        Key::Char('j'),
        Key::Enter,
        Key::Char('l'),
        Key::Char('x'),
        Key::Other,
    ]
}

#[test]
fn starts_by_loading_drives() {
    assert_eq!(AppState::new(), AppState::InitLoading);
}

#[test]
fn keys_are_bound_to_commands() {
    assert_eq!(Key::Char('q').command(), Some(Command::Quit));
    assert_eq!(Key::Esc.command(), Some(Command::Quit));
    assert_eq!(Key::Up.command(), Some(Command::Up));
    assert_eq!(Key::Char('k').command(), Some(Command::Up));
    assert_eq!(Key::Down.command(), Some(Command::Down));
    assert_eq!(Key::Char('j').command(), Some(Command::Down));
    assert_eq!(Key::Enter.command(), Some(Command::Confirm));
    assert_eq!(Key::Char('l').command(), Some(Command::Confirm));
    assert_eq!(Key::Char('Q').command(), None);
    assert_eq!(Key::Char(' ').command(), None);
    assert_eq!(Key::Other.command(), None);
}

#[test]
fn len_counts_what_the_cursor_ranges_over() {
    assert_eq!(AppState::InitLoading.len(), 0);
    assert_eq!(drive_list(&[], None).len(), 0);
    assert_eq!(drive_list(&["a", "b", "c", "d"], Some(0)).len(), 4);
    assert_eq!(AppState::DriveInfoLoading("d".to_string()).len(), 0);
    assert_eq!(drive_info(Some(0)).len(), 3);
    assert_eq!(extracting(0, 0, "").len(), 0);
    assert_eq!(done(Some(0)).len(), 2);
    assert_eq!(AppState::Exit.len(), 0);
}

#[test]
fn cursor_steps_stay_inside_the_list() {
    assert_eq!(step_up(Some(3)), Some(2));
    assert_eq!(step_up(Some(1)), Some(0));
    assert_eq!(step_up(Some(0)), Some(0));
    assert_eq!(step_up(None), None);
    assert_eq!(step_down(Some(0), 3), Some(1));
    assert_eq!(step_down(Some(1), 3), Some(2));
    assert_eq!(step_down(Some(2), 3), Some(2));
    assert_eq!(step_down(None, 0), None);
    assert_eq!(step_down(Some(0), 1), Some(0));
    assert_eq!(step_down(Some(usize::MAX), usize::MAX), Some(usize::MAX));
}

#[test]
fn cursor_never_leaves_a_drive_list() {
    let drives = ["/dev/sr0", "/dev/sr1", "/dev/sr2"];
    let mut state = drive_list(&drives, Some(0));
    state.move_selection_up();
    assert_eq!(state, drive_list(&drives, Some(0)));
    state.move_selection_down();
    assert_eq!(state, drive_list(&drives, Some(1)));
    state.move_selection_down();
    assert_eq!(state, drive_list(&drives, Some(2)));
    state.move_selection_down();
    assert_eq!(state, drive_list(&drives, Some(2)));
    state.move_selection_down();
    assert_eq!(state, drive_list(&drives, Some(2)));
    state.move_selection_up();
    assert_eq!(state, drive_list(&drives, Some(1)));
    state.move_selection_up();
    state.move_selection_up();
    state.move_selection_up();
    assert_eq!(state, drive_list(&drives, Some(0)));
}

#[test]
fn cursor_of_a_single_drive_does_not_move() {
    let mut state = drive_list(&["/dev/sr0"], Some(0));
    state.move_selection_down();
    assert_eq!(state, drive_list(&["/dev/sr0"], Some(0)));
    state.move_selection_up();
    assert_eq!(state, drive_list(&["/dev/sr0"], Some(0)));
}

#[test]
fn cursor_moves_over_titles_and_menu() {
    let mut state = drive_info(Some(0));
    assert_eq!(state.on_key_event(Key::Down), None);
    assert_eq!(state.on_key_event(Key::Char('j')), None);
    assert_eq!(state.on_key_event(Key::Char('j')), None);
    assert_eq!(state, drive_info(Some(2)));
    assert_eq!(state.on_key_event(Key::Char('k')), None);
    assert_eq!(state, drive_info(Some(1)));

    let mut state = done(Some(0));
    assert_eq!(state.on_key_event(Key::Up), None);
    assert_eq!(state, done(Some(0)));
    assert_eq!(state.on_key_event(Key::Down), None);
    assert_eq!(state, done(Some(1)));
    assert_eq!(state.on_key_event(Key::Down), None);
    assert_eq!(state, done(Some(1)));
    assert_eq!(state.on_key_event(Key::Up), None);
    assert_eq!(state, done(Some(0)));
}

#[test]
fn cursor_keys_do_nothing_without_a_list() {
    for key in [Key::Up, Key::Down, Key::Char('k'), Key::Char('j')] {
        for make in [
            || AppState::InitLoading,
            || AppState::DriveList { drives: vec![], selected: None },
            || AppState::DriveInfoLoading("/dev/sr0".to_string()),
            || AppState::DriveInfo {
                drive: "/dev/sr0".to_string(),
                disk_info: DiskInfo { title: "Unknown".to_string(), titles: vec![] },
                selected: None,
            },
            || AppState::Exit,
        ] {
            let mut state = make();
            assert_eq!(state.on_key_event(key), None);
            assert_eq!(state, make());
        }
        let mut state = extracting(5, 10, "Saving");
        assert_eq!(state.on_key_event(key), None);
        assert_eq!(state, extracting(5, 10, "Saving"));
    }
}

#[test]
fn unbound_keys_do_nothing() {
    for key in [Key::Other, Key::Char('x'), Key::Char('Q')] {
        let mut states = every_state();
        for (state, same) in states.iter_mut().zip(every_state()) {
            assert_eq!(state.on_key_event(key), None);
            assert_eq!(*state, same);
        }
    }
}

#[test]
fn quit_key_exits_from_every_state() {
    for key in [Key::Char('q'), Key::Esc] {
        for mut state in every_state() {
            assert_eq!(state.on_key_event(key), None);
            assert_eq!(state, AppState::Exit);
        }
    }
}

#[test]
fn exit_is_final_for_keys() {
    for key in every_key() {
        let mut state = AppState::Exit;
        assert_eq!(state.on_key_event(key), None);
        assert_eq!(state, AppState::Exit);
    }
}

#[test]
fn found_drives_are_listed_with_the_cursor_on_the_first() {
    let mut state = AppState::new();
    state.drives_found(Some(names(&["/dev/sr0", "/dev/sr1"])));
    assert_eq!(state, drive_list(&["/dev/sr0", "/dev/sr1"], Some(0)));
}

#[test]
fn no_drives_found_then_confirm_loads_again() {
    let mut state = AppState::new();
    state.drives_found(Some(Vec::new()));
    assert_eq!(state, AppState::DriveList { drives: vec![], selected: None });
    let action = state.on_key_event(Key::Enter);
    assert_eq!(action, Some(Action::FindDrives));
    assert_eq!(state, AppState::InitLoading);
    state.drives_found(Some(names(&["/dev/sr0"])));
    assert_eq!(state, drive_list(&["/dev/sr0"], Some(0)));
}

#[test]
fn failed_listing_counts_as_no_drives() {
    let mut state = AppState::new();
    state.drives_found(None);
    assert_eq!(state, AppState::DriveList { drives: vec![], selected: None });
    assert_eq!(state.on_key_event(Key::Enter), Some(Action::FindDrives));
    assert_eq!(state, AppState::InitLoading);
}

#[test]
fn failed_inspection_counts_as_no_titles() {
    let mut state = AppState::DriveInfoLoading("/dev/sr0".to_string());
    state.disk_titles_found(None);
    assert_eq!(
        state,
        AppState::DriveInfo {
            drive: "/dev/sr0".to_string(),
            disk_info: DiskInfo { title: "Unknown".to_string(), titles: vec![] },
            selected: None,
        }
    );
    assert_eq!(
        state.on_key_event(Key::Enter),
        Some(Action::FindDiskTitles { drive: "/dev/sr0".to_string() })
    );
    assert_eq!(state, AppState::DriveInfoLoading("/dev/sr0".to_string()));
}

#[test]
fn confirm_on_a_drive_inspects_its_disc() {
    let mut state = drive_list(&["/dev/sr0", "/dev/sr1"], Some(1));
    let action = state.on_key_event(Key::Char('l'));
    assert_eq!(action, Some(Action::FindDiskTitles { drive: "/dev/sr1".to_string() }));
    assert_eq!(state, AppState::DriveInfoLoading("/dev/sr1".to_string()));
    state.disk_titles_found(Some(catalog()));
    assert_eq!(
        state,
        AppState::DriveInfo {
            drive: "/dev/sr1".to_string(),
            disk_info: catalog(),
            selected: Some(0),
        }
    );
}

#[test]
fn confirm_without_a_proper_cursor_does_nothing() {
    let mut state = drive_list(&["/dev/sr0"], None);
    assert_eq!(state.confirm(), None);
    assert_eq!(state, drive_list(&["/dev/sr0"], None));
    let mut state = drive_list(&["/dev/sr0"], Some(1));
    assert_eq!(state.confirm(), None);
    assert_eq!(state, drive_list(&["/dev/sr0"], Some(1)));
    let mut state = drive_info(Some(3));
    assert_eq!(state.confirm(), None);
    assert_eq!(state, drive_info(Some(3)));
    let mut state = done(None);
    assert_eq!(state.confirm(), None);
    assert_eq!(state, done(None));
    let mut state = done(Some(2));
    assert_eq!(state.confirm(), None);
    assert_eq!(state, done(Some(2)));
}

#[test]
fn confirm_does_nothing_while_work_is_under_way() {
    for key in [Key::Enter, Key::Char('l')] {
        let mut state = AppState::InitLoading;
        assert_eq!(state.on_key_event(key), None);
        assert_eq!(state, AppState::InitLoading);
        let mut state = AppState::DriveInfoLoading("/dev/sr0".to_string());
        assert_eq!(state.on_key_event(key), None);
        assert_eq!(state, AppState::DriveInfoLoading("/dev/sr0".to_string()));
        let mut state = extracting(1, 2, "Saving");
        assert_eq!(state.on_key_event(key), None);
        assert_eq!(state, extracting(1, 2, "Saving"));
    }
}

#[test]
fn empty_catalog_then_confirm_inspects_again() {
    let mut state = AppState::DriveInfoLoading("/dev/sr0".to_string());
    state.disk_titles_found(Some(empty_catalog()));
    assert_eq!(
        state,
        AppState::DriveInfo {
            drive: "/dev/sr0".to_string(),
            disk_info: empty_catalog(),
            selected: None,
        }
    );
    let action = state.on_key_event(Key::Enter);
    assert_eq!(action, Some(Action::FindDiskTitles { drive: "/dev/sr0".to_string() }));
    assert_eq!(state, AppState::DriveInfoLoading("/dev/sr0".to_string()));
}

#[test]
fn confirm_on_a_title_starts_its_extraction() {
    let mut state = drive_info(Some(1));
    let action = state.on_key_event(Key::Enter);
    assert_eq!(
        action,
        Some(Action::ExtractTitle {
            drive: "/dev/sr0".to_string(),
            title_id: 0,
            output_path: ".".to_string(),
        })
    );
    assert_eq!(
        state,
        AppState::TitleExtracting {
            drive: "/dev/sr0".to_string(),
            disk_info: catalog(),
            title_id: 0,
            total: 0,
            extracted: 0,
            task: "Starting...".to_string(),
        }
    );
}

#[test]
fn only_the_title_list_leads_into_an_extraction() {
    for key in every_key() {
        for mut state in every_state() {
            let from_titles = matches!(state, AppState::DriveInfo { .. });
            let was_extracting = matches!(state, AppState::TitleExtracting { .. });
            let action = state.on_key_event(key);
            let starts = matches!(action, Some(Action::ExtractTitle { .. }));
            let is_extracting = matches!(state, AppState::TitleExtracting { .. });
            assert!(!starts || from_titles);
            assert!(!starts || is_extracting);
            assert!(!is_extracting || from_titles || was_extracting);
            assert!(!was_extracting || action.is_none());
        }
    }
}

#[test]
fn stale_drive_listing_is_dropped() {
    for (mut state, same) in every_state().into_iter().zip(every_state()) {
        if state == AppState::InitLoading {
            continue;
        }
        state.drives_found(Some(names(&["/dev/sr5"])));
        state.drives_found(None);
        assert_eq!(state, same);
    }
}

#[test]
fn stale_catalog_is_dropped() {
    for (mut state, same) in every_state().into_iter().zip(every_state()) {
        if matches!(state, AppState::DriveInfoLoading(_)) {
            continue;
        }
        state.disk_titles_found(Some(catalog()));
        state.disk_titles_found(None);
        assert_eq!(state, same);
    }
}

#[test]
fn progress_counters_replace_the_counters() {
    let mut state = extracting(0, 0, "Starting...");
    state.extraction_progress(Progress::Counters { extracted: 50, total: 200 });
    assert_eq!(state, extracting(50, 200, "Starting..."));
    state.extraction_progress(Progress::Counters { extracted: 120, total: 200 });
    assert_eq!(state, extracting(120, 200, "Starting..."));
    state.extraction_progress(Progress::Counters { extracted: 200, total: 200 });
    assert_eq!(state, extracting(200, 200, "Starting..."));
    state.extraction_progress(Progress::Counters { extracted: 0, total: 0 });
    assert_eq!(state, extracting(0, 0, "Starting..."));
    state.extraction_progress(Progress::Counters { extracted: 7, total: 0 });
    assert_eq!(state, extracting(7, 0, "Starting..."));
}

#[test]
fn progress_beyond_the_total_is_dropped() {
    let mut state = extracting(50, 200, "Saving");
    state.extraction_progress(Progress::Counters { extracted: 201, total: 200 });
    assert_eq!(state, extracting(50, 200, "Saving"));
    state.extraction_progress(Progress::Counters { extracted: 2, total: 1 });
    assert_eq!(state, extracting(50, 200, "Saving"));
}

#[test]
fn task_name_replaces_only_the_task() {
    let mut state = extracting(50, 200, "Starting...");
    state.extraction_progress(Progress::Task("Saving title 00".to_string()));
    assert_eq!(state, extracting(50, 200, "Saving title 00"));
}

#[test]
fn progress_lines_update_the_extraction() {
    let mut state = extracting(0, 0, "Starting...");
    state.extraction_line("PRGV:50,0,200");
    assert_eq!(state, extracting(50, 200, "Starting..."));
    state.extraction_line("PRGC:0,0,\"Saving title 00\"");
    assert_eq!(state, extracting(50, 200, "Saving title 00"));
    state.extraction_line("PRGV:120,0,200");
    assert_eq!(state, extracting(120, 200, "Saving title 00"));
    state.extraction_line("PRGV:120,0");
    state.extraction_line("PRGC:0,0");
    state.extraction_line("PRGT:0,0,\"Total\"");
    state.extraction_line("MSG:5036,260,1,\"Copy complete.\"");
    state.extraction_line("");
    state.extraction_line("PRGV:300,0,200");
    assert_eq!(state, extracting(120, 200, "Saving title 00"));
    state.extraction_line("PRGV:x,0,y");
    assert_eq!(state, extracting(0, 0, "Saving title 00"));
}

#[test]
fn progress_outside_an_extraction_is_dropped() {
    for (mut state, same) in every_state().into_iter().zip(every_state()) {
        if matches!(state, AppState::TitleExtracting { .. }) {
            continue;
        }
        state.extraction_progress(Progress::Counters { extracted: 1, total: 2 });
        state.extraction_progress(Progress::Task("Saving".to_string()));
        state.extraction_line("PRGV:50,0,200");
        state.extraction_line("PRGC:0,0,\"Saving\"");
        assert_eq!(state, same);
    }
}

#[test]
fn successful_extraction_leads_to_the_menu() {
    let mut state = extracting(200, 200, "Saving");
    assert_eq!(state.extraction_finished("/dev/sr0", 1, Some(0)), Ok(()));
    assert_eq!(state, done(Some(0)));
}

#[test]
fn failed_extraction_reports_an_error_and_keeps_the_state() {
    let mut state = extracting(70, 200, "Saving");
    assert_eq!(
        state.extraction_finished("/dev/sr0", 1, Some(1)),
        Err(ExtractError::ToolFailed { exit_code: Some(1) })
    );
    assert_eq!(state, extracting(70, 200, "Saving"));
    assert_eq!(
        state.extraction_finished("/dev/sr0", 1, None),
        Err(ExtractError::ToolFailed { exit_code: None })
    );
    assert_eq!(
        state.extraction_finished("/dev/sr0", 1, Some(-1)),
        Err(ExtractError::ToolFailed { exit_code: Some(-1) })
    );
    assert_eq!(state, extracting(70, 200, "Saving"));
    let _ = state.render();
    assert_eq!(state.on_key_event(Key::Down), None);
    assert_eq!(state.on_key_event(Key::Char('q')), None);
    assert_eq!(state, AppState::Exit);
}

#[test]
fn extraction_that_ends_elsewhere_gets_the_placeholder_catalog() {
    for mut state in every_state() {
        if matches!(state, AppState::TitleExtracting { .. }) {
            continue;
        }
        assert_eq!(state.extraction_finished("/dev/sr3", 4, Some(0)), Ok(()));
        assert_eq!(
            state,
            AppState::Done {
                disk_info: DiskInfo { title: "Unknown".to_string(), titles: vec![] },
                drive: "/dev/sr3".to_string(),
                title_id: 4,
                selected: Some(0),
            }
        );
    }
}

#[test]
fn menu_first_entry_exits() {
    let mut state = done(Some(0));
    assert_eq!(state.on_key_event(Key::Enter), None);
    assert_eq!(state, AppState::Exit);
}

#[test]
fn menu_second_entry_goes_back_to_the_titles() {
    let mut state = done(Some(1));
    assert_eq!(state.on_key_event(Key::Enter), None);
    assert_eq!(state, drive_info(Some(0)));

    let mut state = AppState::Done {
        disk_info: empty_catalog(),
        drive: "/dev/sr0".to_string(),
        title_id: 1,
        selected: Some(1),
    };
    assert_eq!(state.on_key_event(Key::Char('l')), None);
    assert_eq!(
        state,
        AppState::DriveInfo {
            drive: "/dev/sr0".to_string(),
            disk_info: empty_catalog(),
            selected: None,
        }
    );
}

#[test]
fn a_whole_session() {
    let mut state = AppState::new();
    state.drives_found(Some(names(&["/dev/sr0", "/dev/sr1"])));
    assert_eq!(state.on_key_event(Key::Down), None);
    assert_eq!(
        state.on_key_event(Key::Enter),
        Some(Action::FindDiskTitles { drive: "/dev/sr1".to_string() })
    );
    state.disk_titles_found(Some(catalog()));
    assert_eq!(state.on_key_event(Key::Down), None);
    assert_eq!(state.on_key_event(Key::Down), None);
    assert_eq!(
        state.on_key_event(Key::Enter),
        Some(Action::ExtractTitle {
            drive: "/dev/sr1".to_string(),
            title_id: 2,
            output_path: ".".to_string(),
        })
    );
    state.extraction_line("PRGC:5017,0,\"Saving to MKV file\"");
    state.extraction_line("PRGV:65536,0,65536");
    assert_eq!(state.extraction_finished("/dev/sr1", 2, Some(0)), Ok(()));
    assert_eq!(state.on_key_event(Key::Down), None);
    assert_eq!(state.on_key_event(Key::Enter), None);
    assert_eq!(
        state,
        AppState::DriveInfo {
            drive: "/dev/sr1".to_string(),
            disk_info: catalog(),
            selected: Some(0),
        }
    );
    assert_eq!(state.on_key_event(Key::Esc), None);
    assert_eq!(state, AppState::Exit);
}
