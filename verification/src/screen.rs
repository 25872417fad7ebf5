//! What the interface puts on the screen for each state, as plain text and
//! numbers that a terminal library can draw as they are.

use crate::makemkv::{DiskTitle, DiskTitleView};
use crate::state::{cursor_view, AppState, AppStateView};
use crate::text::{decimal, digit_char, push_decimal};
use vstd::prelude::*;

verus! {

/// A picture of the interface.
#[derive(Debug, PartialEq, Eq)]
pub enum Screen {
    /// A box with a heading around some text.
    Message { heading: String, text: String },
    /// A box with a heading around a list of entries, one of them under
    /// the cursor.
    List { heading: String, items: Vec<String>, selected: Option<usize> },
    /// A box with a heading around some text and a progress bar. The bar is
    /// filled to `filled` parts in ten thousand and carries `label`.
    Progress { heading: String, text: String, filled: u32, label: String },
    /// A box with a heading around a line of text and a menu of entries,
    /// one of them under the cursor.
    Menu { heading: String, text: String, items: Vec<String>, selected: Option<usize> },
    /// Nothing at all.
    Blank,
}

/// What a [`Screen`] stands for.
pub enum ScreenView {
    Message { heading: Seq<char>, text: Seq<char> },
    List { heading: Seq<char>, items: Seq<Seq<char>>, selected: Option<nat> },
    Progress { heading: Seq<char>, text: Seq<char>, filled: u32, label: Seq<char> },
    Menu { heading: Seq<char>, text: Seq<char>, items: Seq<Seq<char>>, selected: Option<nat> },
    Blank,
}

impl View for Screen {
    type V = ScreenView;

    open spec fn view(&self) -> ScreenView {
        match self {
            Screen::Message { heading, text } => ScreenView::Message {
                heading: heading@,
                text: text@,
            },
            Screen::List { heading, items, selected } => ScreenView::List {
                heading: heading@,
                items: items.deep_view(),
                selected: cursor_view(*selected),
            },
            Screen::Progress { heading, text, filled, label } => ScreenView::Progress {
                heading: heading@,
                text: text@,
                filled: *filled,
                label: label@,
            },
            Screen::Menu { heading, text, items, selected } => ScreenView::Menu {
                heading: heading@,
                text: text@,
                items: items.deep_view(),
                selected: cursor_view(*selected),
            },
            Screen::Blank => ScreenView::Blank,
        }
    }
}

/// `n / d` rounded to the nearest whole number, halves up.
pub open spec fn rounded_div(n: nat, d: nat) -> nat {
    (2 * n + d) / (2 * d)
}

/// How much of `total` is `extracted`, in parts of ten thousand: 0 while
/// the total is unknown, and never more than the whole.
pub open spec fn progress_parts(extracted: u32, total: u32) -> nat {
    if total == 0 {
        0
    } else if extracted >= total {
        10000
    } else {
        rounded_div(extracted as nat * 10000, total as nat)
    }
}

/// A number of hundredths written with two decimals, as in `12.05`.
pub open spec fn two_decimals(hundredths: nat) -> Seq<char> {
    decimal(hundredths / 100) + seq![
        '.',
        digit_char(hundredths / 10 % 10),
        digit_char(hundredths % 10),
    ]
}

/// The number of bytes in a hundredth of a gigabyte.
pub const BYTES_PER_CENTI_GB: u64 = 10_000_000;

/// The line that shows a title in the list of titles.
pub open spec fn title_line(title: DiskTitleView) -> Seq<char> {
    "ID: "@ + decimal(title.id as nat) + " Name: "@ + title.name + " Size: "@ + two_decimals(
        rounded_div(title.size_bytes as nat, BYTES_PER_CENTI_GB as nat),
    ) + " GB Duration: "@ + decimal(title.duration_secs as nat / 60) + " mins"@
}

impl AppStateView {
    /// The picture of this state.
    pub open spec fn screen(self) -> ScreenView {
        match self {
            AppStateView::InitLoading => ScreenView::Message {
                heading: "Init"@,
                text: "Loading drives..."@,
            },
            AppStateView::DriveList { drives, selected } => if drives.len() == 0 {
                ScreenView::Message {
                    heading: "Drives"@,
                    text: "No drives found\nPress Enter to retry"@,
                }
            } else {
                ScreenView::List { heading: "Drives"@, items: drives, selected }
            },
            AppStateView::DriveInfoLoading(drive) => ScreenView::Message {
                heading: "Drive Info"@,
                text: "Loading titles for drive "@ + drive + "..."@,
            },
            AppStateView::DriveInfo { drive, disk_info, selected } => {
                let heading = "Drive: "@ + drive + " Title: "@ + disk_info.title + " Titles:"@;
                if disk_info.titles.len() == 0 {
                    ScreenView::Message { heading, text: "No titles found\nPress Enter to retry"@ }
                } else {
                    ScreenView::List {
                        heading,
                        items: Seq::new(
                            disk_info.titles.len(),
                            |i: int| title_line(disk_info.titles[i]),
                        ),
                        selected,
                    }
                }
            },
            AppStateView::TitleExtracting { drive, title_id, total, extracted, task, .. } => {
                let filled = progress_parts(extracted, total);
                ScreenView::Progress {
                    heading: "Extracting Title"@,
                    text: "Extracting title "@ + decimal(title_id as nat) + " from drive "@ + drive
                        + "...\n"@ + task + "\nProgress: "@ + decimal(extracted as nat) + "/"@
                        + decimal(total as nat),
                    filled: filled as u32,
                    label: two_decimals(filled) + "%"@,
                }
            },
            AppStateView::Done { drive, title_id, selected, .. } => ScreenView::Menu {
                heading: "Done"@,
                text: "Finished extracting title "@ + decimal(title_id as nat) + " from drive "@
                    + drive + "."@,
                items: seq!["Exit"@, "Extract Another Title"@],
                selected,
            },
            AppStateView::Exit => ScreenView::Blank,
        }
    }
}

/// The more is extracted of a fixed total, the more of the bar is filled.
pub proof fn lemma_progress_grows(earlier: u32, later: u32, total: u32)
    requires
        earlier <= later,
    ensures
        progress_parts(earlier, total) <= progress_parts(later, total),
        progress_parts(later, total) <= 10000,
{
    if total > 0 {
        let d = 2 * total as int;
        let low = 2 * (earlier as int * 10000) + total as int;
        let high = 2 * (later as int * 10000) + total as int;
        let most = 2 * (total as int * 10000) + total as int;
        assert(earlier as int * 10000 <= later as int * 10000);
        if later < total {
            assert(later as int * 10000 <= total as int * 10000);
            vstd::arithmetic::div_mod::lemma_div_is_ordered(low, high, d);
            vstd::arithmetic::div_mod::lemma_div_is_ordered(high, most, d);
        } else if earlier < total {
            vstd::arithmetic::div_mod::lemma_div_is_ordered(low, most, d);
        }
        assert(most / d == 10000) by {
            assert(most == 10000 * d + total as int);
            vstd::arithmetic::div_mod::lemma_fundamental_div_mod_converse(
                most,
                d,
                10000,
                total as int,
            );
        }
    }
}

/// `n / d` rounded to the nearest whole number, halves up.
pub fn divide_rounded(n: u64, d: u64) -> (out: u64)
    requires
        d > 0,
    ensures
        out == rounded_div(n as nat, d as nat),
{
    let twice = 2 * (n as u128) + (d as u128);
    let by = 2 * (d as u128);
    let out = twice / by;
    proof {
        if d >= 2 {
            vstd::arithmetic::div_mod::lemma_div_is_ordered_by_denominator(
                twice as int,
                4,
                by as int,
            );
        } else {
            assert(by == 2);
            assert(twice / 2 == n);
        }
    }
    out as u64
}

/// How much of `total` is `extracted`, in parts of ten thousand.
pub fn bar_fill(extracted: u32, total: u32) -> (out: u32)
    ensures
        out == progress_parts(extracted, total),
        out <= 10000,
{
    if total == 0 {
        0
    } else if extracted >= total {
        10000
    } else {
        proof {
            lemma_progress_grows(extracted, extracted, total);
        }
        divide_rounded(extracted as u64 * 10000, total as u64) as u32
    }
}

/// Appends a number of hundredths, written with two decimals, to `out`.
pub fn push_two_decimals(out: &mut String, hundredths: u64)
    ensures
        final(out)@ == old(out)@ + two_decimals(hundredths as nat),
{
    push_decimal(out, hundredths / 100);
    out.push('.');
    out.push((48 + (hundredths / 10 % 10) as u8) as char);
    out.push((48 + (hundredths % 10) as u8) as char);
    proof {
        assert(out@ =~= old(out)@ + two_decimals(hundredths as nat));
    }
}

impl DiskTitle {
    /// The line that shows this title in the list of titles.
    pub fn line(&self) -> (out: String)
        ensures
            out@ == title_line(self@),
    {
        let mut out = String::from_str("ID: ");
        push_decimal(&mut out, self.id as u64);
        out.append(" Name: ");
        out.append(self.name.as_str());
        out.append(" Size: ");
        push_two_decimals(&mut out, divide_rounded(self.size_bytes, BYTES_PER_CENTI_GB));
        out.append(" GB Duration: ");
        push_decimal(&mut out, (self.duration_secs / 60) as u64);
        out.append(" mins");
        proof {
            assert(out@ =~= title_line(self@));
        }
        out
    }
}

impl AppState {
    /// The picture of this state. Drawing changes nothing: the same state
    /// always gives the same picture.
    pub fn render(&self) -> (screen: Screen)
        ensures
            screen@ == self@.screen(),
    {
        match self {
            AppState::InitLoading => Screen::Message {
                heading: String::from_str("Init"),
                text: String::from_str("Loading drives..."),
            },
            AppState::DriveList { drives, selected } => {
                proof {
                    assert(drives.deep_view().len() == drives.len());
                }
                if drives.len() == 0 {
                    Screen::Message {
                        heading: String::from_str("Drives"),
                        text: String::from_str("No drives found\nPress Enter to retry"),
                    }
                } else {
                    let items = drives.clone();
                    proof {
                        assert(items.deep_view() =~= drives.deep_view());
                    }
                    Screen::List { heading: String::from_str("Drives"), items, selected: *selected }
                }
            },
            AppState::DriveInfoLoading(drive) => {
                let mut text = String::from_str("Loading titles for drive ");
                text.append(drive.as_str());
                text.append("...");
                Screen::Message { heading: String::from_str("Drive Info"), text }
            },
            AppState::DriveInfo { drive, disk_info, selected } => {
                let mut heading = String::from_str("Drive: ");
                heading.append(drive.as_str());
                heading.append(" Title: ");
                heading.append(disk_info.title.as_str());
                heading.append(" Titles:");
                proof {
                    assert(disk_info.titles.deep_view().len() == disk_info.titles.len());
                }
                if disk_info.titles.len() == 0 {
                    Screen::Message {
                        heading,
                        text: String::from_str("No titles found\nPress Enter to retry"),
                    }
                } else {
                    let mut items: Vec<String> = Vec::new();
                    let mut i: usize = 0;
                    let ghost titles = disk_info.titles.deep_view();
                    while i < disk_info.titles.len()
                        invariant
                            i <= disk_info.titles.len(),
                            titles == disk_info.titles.deep_view(),
                            items.deep_view() == Seq::new(i as nat, |k: int| title_line(titles[k])),
                        decreases disk_info.titles.len() - i,
                    {
                        let ghost before = items.deep_view();
                        items.push(disk_info.titles[i].line());
                        proof {
                            assert(titles[i as int] == disk_info.titles@[i as int]@);
                            assert(items.deep_view() =~= before.push(title_line(titles[i as int])));
                            assert(items.deep_view() =~= Seq::new(
                                (i + 1) as nat,
                                |k: int| title_line(titles[k]),
                            ));
                        }
                        i += 1;
                    }
                    Screen::List { heading, items, selected: *selected }
                }
            },
            AppState::TitleExtracting { drive, title_id, total, extracted, task, .. } => {
                let filled = bar_fill(*extracted, *total);
                let mut text = String::from_str("Extracting title ");
                push_decimal(&mut text, *title_id as u64);
                text.append(" from drive ");
                text.append(drive.as_str());
                text.append("...\n");
                text.append(task.as_str());
                text.append("\nProgress: ");
                push_decimal(&mut text, *extracted as u64);
                text.append("/");
                push_decimal(&mut text, *total as u64);
                let mut label = String::new();
                push_two_decimals(&mut label, filled as u64);
                label.append("%");
                proof {
                    assert(label@ =~= two_decimals(filled as nat) + "%"@);
                }
                Screen::Progress {
                    heading: String::from_str("Extracting Title"),
                    text,
                    filled,
                    label,
                }
            },
            AppState::Done { drive, title_id, selected, .. } => {
                let mut text = String::from_str("Finished extracting title ");
                push_decimal(&mut text, *title_id as u64);
                text.append(" from drive ");
                text.append(drive.as_str());
                text.append(".");
                let mut items: Vec<String> = Vec::new();
                items.push(String::from_str("Exit"));
                items.push(String::from_str("Extract Another Title"));
                proof {
                    assert(items.deep_view() =~= seq!["Exit"@, "Extract Another Title"@]);
                }
                Screen::Menu { heading: String::from_str("Done"), text, items, selected: *selected }
            },
            AppState::Exit => Screen::Blank,
        }
    }
}

} // verus!
