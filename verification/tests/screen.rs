use makemkv_tui::makemkv::{DiskInfo, DiskTitle};
use makemkv_tui::screen::{push_two_decimals, Screen};
use makemkv_tui::state::AppState;

fn title(id: u32, size_bytes: u64, duration_secs: u32) -> DiskTitle {
    DiskTitle { id, name: format!("Title {}", id), size_bytes, duration_secs }
}

fn extracting(extracted: u32, total: u32) -> AppState {
    AppState::TitleExtracting {
        drive: "/dev/sr0".to_string(),
        disk_info: DiskInfo { title: "Disc".to_string(), titles: vec![title(1, 5, 5)] },
        title_id: 1,
        total,
        extracted,
        task: "Saving title 00".to_string(),
    }
}

fn filled_and_label(state: &AppState) -> (u32, String) {
    match state.render() {
        Screen::Progress { filled, label, .. } => (filled, label),
        other => panic!("no progress screen: {:?}", other),
    }
}

#[test]
fn loading_drives_shows_a_message() {
    assert_eq!(
        AppState::InitLoading.render(),
        Screen::Message { heading: "Init".to_string(), text: "Loading drives...".to_string() }
    );
}

#[test]
fn no_drives_shows_how_to_retry() {
    let state = AppState::DriveList { drives: vec![], selected: None };
    assert_eq!(
        state.render(),
        Screen::Message {
            heading: "Drives".to_string(),
            text: "No drives found\nPress Enter to retry".to_string(),
        }
    );
}

#[test]
fn drives_are_shown_as_a_list() {
    let drives = vec!["/dev/sr0".to_string(), "/dev/sr1".to_string()];
    let state = AppState::DriveList { drives: drives.clone(), selected: Some(1) };
    assert_eq!(
        state.render(),
        Screen::List { heading: "Drives".to_string(), items: drives, selected: Some(1) }
    );
}

#[test]
fn loading_titles_names_the_drive() {
    assert_eq!(
        AppState::DriveInfoLoading("/dev/sr0".to_string()).render(),
        Screen::Message {
            heading: "Drive Info".to_string(),
            text: "Loading titles for drive /dev/sr0...".to_string(),
        }
    );
}

#[test]
fn no_titles_shows_how_to_retry() {
    let state = AppState::DriveInfo {
        drive: "/dev/sr0".to_string(),
        disk_info: DiskInfo { title: "Unknown".to_string(), titles: vec![] },
        selected: None,
    };
    assert_eq!(
        state.render(),
        Screen::Message {
            heading: "Drive: /dev/sr0 Title: Unknown Titles:".to_string(),
            text: "No titles found\nPress Enter to retry".to_string(),
        }
    );
}

#[test]
fn titles_are_shown_with_size_and_minutes() {
    let state = AppState::DriveInfo {
        drive: "/dev/sr0".to_string(),
        disk_info: DiskInfo {
            title: "Feature Film".to_string(),
            titles: vec![title(1, 30_000_000_000, 6310), title(0, 1_234_567_890, 59)],
        },
        selected: Some(0),
    };
    assert_eq!(
        state.render(),
        Screen::List {
            heading: "Drive: /dev/sr0 Title: Feature Film Titles:".to_string(),
            items: vec![
                "ID: 1 Name: Title 1 Size: 30.00 GB Duration: 105 mins".to_string(),
                "ID: 0 Name: Title 0 Size: 1.23 GB Duration: 0 mins".to_string(),
            ],
            selected: Some(0),
        }
    );
}

#[test]
fn title_line_rounds_the_size_to_hundredths() {
    assert_eq!(title(0, 0, 0).line(), "ID: 0 Name: Title 0 Size: 0.00 GB Duration: 0 mins");
    assert_eq!(
        title(12, 4_999_999, 60).line(),
        "ID: 12 Name: Title 12 Size: 0.00 GB Duration: 1 mins"
    );
    assert_eq!(
        title(12, 5_000_000, 119).line(),
        "ID: 12 Name: Title 12 Size: 0.01 GB Duration: 1 mins"
    );
    assert_eq!(
        title(3, 4_705_000_000, 7200).line(),
        "ID: 3 Name: Title 3 Size: 4.71 GB Duration: 120 mins"
    );
    assert_eq!(
        title(u32::MAX, u64::MAX, u32::MAX).line(),
        "ID: 4294967295 Name: Title 4294967295 Size: 18446744073.71 GB Duration: 71582788 mins"
    );
}

#[test]
fn two_decimals_always_show_two_digits() {
    let mut out = String::new();
    push_two_decimals(&mut out, 0);
    out.push(' ');
    push_two_decimals(&mut out, 5);
    out.push(' ');
    push_two_decimals(&mut out, 50);
    out.push(' ');
    push_two_decimals(&mut out, 1205);
    out.push(' ');
    push_two_decimals(&mut out, 10000);
    assert_eq!(out, "0.00 0.05 0.50 12.05 100.00");
}

#[test]
fn extraction_shows_text_and_bar() {
    assert_eq!(
        extracting(50, 200).render(),
        Screen::Progress {
            heading: "Extracting Title".to_string(),
            text: "Extracting title 1 from drive /dev/sr0...\nSaving title 00\nProgress: 50/200"
                .to_string(),
            filled: 2500,
            label: "25.00%".to_string(),
        }
    );
}

#[test]
fn shown_percentage_rises_with_the_extracted_count() {
    assert_eq!(filled_and_label(&extracting(50, 200)), (2500, "25.00%".to_string()));
    assert_eq!(filled_and_label(&extracting(120, 200)), (6000, "60.00%".to_string()));
    assert_eq!(filled_and_label(&extracting(200, 200)), (10000, "100.00%".to_string()));
    assert_eq!(filled_and_label(&extracting(1, 3)), (3333, "33.33%".to_string()));
    assert_eq!(filled_and_label(&extracting(2, 3)), (6667, "66.67%".to_string()));
    assert_eq!(filled_and_label(&extracting(1, 200)), (50, "0.50%".to_string()));
}

#[test]
fn percentage_is_zero_before_the_first_report() {
    assert_eq!(filled_and_label(&extracting(0, 0)), (0, "0.00%".to_string()));
    assert_eq!(filled_and_label(&extracting(9, 0)), (0, "0.00%".to_string()));
}

#[test]
fn finished_extraction_shows_the_menu() {
    let state = AppState::Done {
        disk_info: DiskInfo { title: "Disc".to_string(), titles: vec![] },
        drive: "/dev/sr0".to_string(),
        title_id: 7,
        selected: Some(1),
    };
    assert_eq!(
        state.render(),
        Screen::Menu {
            heading: "Done".to_string(),
            text: "Finished extracting title 7 from drive /dev/sr0.".to_string(),
            items: vec!["Exit".to_string(), "Extract Another Title".to_string()],
            selected: Some(1),
        }
    );
}

#[test]
fn exit_shows_nothing() {
    assert_eq!(AppState::Exit.render(), Screen::Blank);
}

#[test]
fn rendering_twice_gives_the_same_picture() {
    let states = vec![
        AppState::InitLoading,
        AppState::DriveList { drives: vec!["/dev/sr0".to_string()], selected: Some(0) },
        AppState::DriveInfoLoading("/dev/sr0".to_string()),
        AppState::DriveInfo {
            drive: "/dev/sr0".to_string(),
            disk_info: DiskInfo { title: "Disc".to_string(), titles: vec![title(0, 9, 9)] },
            selected: Some(0),
        },
        extracting(3, 9),
        AppState::Done {
            disk_info: DiskInfo { title: "Disc".to_string(), titles: vec![] },
            drive: "/dev/sr0".to_string(),
            title_id: 0,
            selected: Some(0),
        },
        AppState::Exit,
    ];
    for state in &states {
        let first = state.render();
        let second = state.render();
        assert_eq!(first, second);
    }
}
