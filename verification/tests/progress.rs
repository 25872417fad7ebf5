use makemkv_tui::makemkv::{parse_progress, Progress};
use makemkv_tui::screen::{bar_fill, divide_rounded};

#[test]
fn counters_line_gives_extracted_and_total() {
    assert_eq!(
        parse_progress("PRGV:50,0,200"),
        Some(Progress::Counters { extracted: 50, total: 200 })
    );
    assert_eq!(
        parse_progress("PRGV:120,7,200,extra"),
        Some(Progress::Counters { extracted: 120, total: 200 })
    );
    assert_eq!(
        parse_progress("PRGV:4294967295,0,4294967295"),
        Some(Progress::Counters { extracted: u32::MAX, total: u32::MAX })
    );
}

#[test]
fn counter_that_is_no_number_counts_as_zero() {
    assert_eq!(
        parse_progress("PRGV:x,0,200"),
        Some(Progress::Counters { extracted: 0, total: 200 })
    );
    assert_eq!(
        parse_progress("PRGV:5,0,"),
        Some(Progress::Counters { extracted: 5, total: 0 })
    );
    assert_eq!(
        parse_progress("PRGV:4294967296,0,-1"),
        Some(Progress::Counters { extracted: 0, total: 0 })
    );
    assert_eq!(
        parse_progress("PRGV:\"5\",0,\"9\""),
        Some(Progress::Counters { extracted: 0, total: 0 })
    );
}

#[test]
fn task_line_gives_the_name_without_quotes() {
    assert_eq!(
        parse_progress("PRGC:0,0,\"Saving title 00\""),
        Some(Progress::Task("Saving title 00".to_string()))
    );
    assert_eq!(parse_progress("PRGC:1,2,Analyzing"), Some(Progress::Task("Analyzing".to_string())));
    assert_eq!(parse_progress("PRGC:1,2,"), Some(Progress::Task(String::new())));
    assert_eq!(
        parse_progress("PRGC:1,2,\"Saving, then\" more"),
        Some(Progress::Task("Saving".to_string()))
    );
}

#[test]
fn short_and_foreign_lines_are_no_report() {
    assert_eq!(parse_progress(""), None);
    assert_eq!(parse_progress("PRGV:"), None);
    assert_eq!(parse_progress("PRGV:50,200"), None);
    assert_eq!(parse_progress("PRGC:0,\"Saving\""), None);
    assert_eq!(parse_progress("PRGT:0,0,\"Total\""), None);
    assert_eq!(parse_progress("prgv:1,2,3"), None);
    assert_eq!(parse_progress(" PRGV:1,2,3"), None);
    assert_eq!(parse_progress("TINFO:0,11,0,5"), None);
}

#[test]
fn progress_is_the_share_of_the_total() {
    assert_eq!(bar_fill(50, 200), 2500);
    assert_eq!(bar_fill(120, 200), 6000);
    assert_eq!(bar_fill(0, 200), 0);
    assert_eq!(bar_fill(200, 200), 10000);
    assert_eq!(bar_fill(1, 3), 3333);
    assert_eq!(bar_fill(2, 3), 6667);
    assert_eq!(bar_fill(1, 20000), 1);
    assert_eq!(bar_fill(1, 20001), 0);
    assert_eq!(bar_fill(u32::MAX - 1, u32::MAX), 10000);
    assert_eq!(bar_fill(u32::MAX / 2, u32::MAX), 5000);
}

#[test]
fn progress_is_zero_without_a_total_and_full_beyond_it() {
    assert_eq!(bar_fill(0, 0), 0);
    assert_eq!(bar_fill(50, 0), 0);
    assert_eq!(bar_fill(201, 200), 10000);
    assert_eq!(bar_fill(u32::MAX, 1), 10000);
}

#[test]
fn progress_never_falls_while_more_is_extracted() {
    for total in [1u32, 2, 3, 7, 200, 65536, u32::MAX] {
        let mut last = 0;
        let step = (total / 997).max(1);
        let mut extracted = 0u32;
        loop {
            let now = bar_fill(extracted, total);
            assert!(now >= last);
            assert!(now <= 10000);
            last = now;
            match extracted.checked_add(step) {
                Some(next) => extracted = next,
                None => break,
            }
            if extracted > total {
                break;
            }
        }
    }
}

#[test]
fn rounded_division_rounds_halves_up() {
    assert_eq!(divide_rounded(0, 1), 0);
    assert_eq!(divide_rounded(7, 1), 7);
    assert_eq!(divide_rounded(7, 2), 4);
    assert_eq!(divide_rounded(10, 4), 3);
    assert_eq!(divide_rounded(9, 4), 2);
    assert_eq!(divide_rounded(14_999_999, 10_000_000), 1);
    assert_eq!(divide_rounded(15_000_000, 10_000_000), 2);
    assert_eq!(divide_rounded(u64::MAX, 1), u64::MAX);
    assert_eq!(divide_rounded(u64::MAX, u64::MAX), 1);
    assert_eq!(divide_rounded(u64::MAX, 2), 9223372036854775808);
}
