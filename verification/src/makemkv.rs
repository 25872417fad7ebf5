//! The disc catalog and the text that `makemkvcon` prints about it.

use crate::text::{
    chars_of, decimal, join, join_from, lines, lines_of, number_or_zero, push_decimal,
    remove_all, split, split_at_each, string_of, strip_prefix, strip_prefix_of, u32_or_zero,
    u64_or_zero, without,
};
use vstd::prelude::*;

verus! {

/// One title found on a disc.
#[derive(Debug, PartialEq, Eq)]
pub struct DiskTitle {
    /// Index of the title in the tool's output.
    pub id: u32,
    pub name: String,
    pub size_bytes: u64,
    pub duration_secs: u32,
}

/// What a [`DiskTitle`] stands for.
pub struct DiskTitleView {
    pub id: u32,
    pub name: Seq<char>,
    pub size_bytes: u64,
    pub duration_secs: u32,
}

impl View for DiskTitle {
    type V = DiskTitleView;

    open spec fn view(&self) -> DiskTitleView {
        DiskTitleView {
            id: self.id,
            name: self.name@,
            size_bytes: self.size_bytes,
            duration_secs: self.duration_secs,
        }
    }
}

impl DeepView for DiskTitle {
    type V = DiskTitleView;

    open spec fn deep_view(&self) -> DiskTitleView {
        self@
    }
}

impl Clone for DiskTitle {
    fn clone(&self) -> (out: Self)
        ensures
            out@ == self@,
    {
        DiskTitle {
            id: self.id,
            name: self.name.clone(),
            size_bytes: self.size_bytes,
            duration_secs: self.duration_secs,
        }
    }
}

/// The catalog of a disc: its name and its titles.
#[derive(Debug, PartialEq, Eq)]
pub struct DiskInfo {
    pub title: String,
    pub titles: Vec<DiskTitle>,
}

/// What a [`DiskInfo`] stands for.
pub struct DiskInfoView {
    pub title: Seq<char>,
    pub titles: Seq<DiskTitleView>,
}

impl View for DiskInfo {
    type V = DiskInfoView;

    open spec fn view(&self) -> DiskInfoView {
        DiskInfoView { title: self.title@, titles: self.titles.deep_view() }
    }
}

impl DeepView for DiskInfo {
    type V = DiskInfoView;

    open spec fn deep_view(&self) -> DiskInfoView {
        self@
    }
}

impl Clone for DiskInfo {
    fn clone(&self) -> (out: Self)
        ensures
            out@ == self@,
    {
        let mut titles: Vec<DiskTitle> = Vec::new();
        let mut i: usize = 0;
        while i < self.titles.len()
            invariant
                i <= self.titles.len(),
                titles.deep_view() == self.titles.deep_view().take(i as int),
            decreases self.titles.len() - i,
        {
            let ghost before = titles.deep_view();
            titles.push(self.titles[i].clone());
            i += 1;
            proof {
                assert(titles.deep_view() =~= before.push(self.titles@[i - 1]@));
                assert(titles.deep_view() =~= self.titles.deep_view().take(i as int));
            }
        }
        proof {
            assert(self.titles.deep_view().take(self.titles.len() as int) =~= self.titles.deep_view());
        }
        DiskInfo { title: self.title.clone(), titles }
    }
}

impl DiskInfoView {
    /// The catalog shown when a disc could not be read: no titles, under a
    /// placeholder name.
    pub open spec fn unknown() -> DiskInfoView {
        DiskInfoView { title: "Unknown"@, titles: Seq::empty() }
    }

    /// Whether the titles stand in order of size, largest first.
    pub open spec fn largest_first(self) -> bool {
        forall|i: int, j: int|
            0 <= i < j < self.titles.len() ==> self.titles[i].size_bytes
                >= self.titles[j].size_bytes
    }
}

impl DiskInfo {
    /// The catalog shown when a disc could not be read.
    pub fn unknown() -> (out: DiskInfo)
        ensures
            out@ == DiskInfoView::unknown(),
            out@.largest_first(),
    {
        let out = DiskInfo { title: String::from_str("Unknown"), titles: Vec::new() };
        proof {
            assert(out.titles.deep_view() =~= Seq::<DiskTitleView>::empty());
        }
        out
    }
}

/// The directory whose entries are the devices of the system.
pub fn device_directory() -> (out: &'static str)
    ensures
        out@ == "/dev"@,
{
    "/dev"
}

/// Whether a device of this name is an optical drive: the name begins with
/// `sr` and goes on after it.
pub open spec fn is_drive_name(name: Seq<char>) -> bool {
    "sr"@.is_prefix_of(name) && name.len() > "sr"@.len()
}

/// The path of the device named `name`.
pub open spec fn drive_path(name: Seq<char>) -> Seq<char> {
    "/dev/"@ + name
}

/// The paths of the optical drives among the devices named `names`, in the
/// order of `names`.
pub open spec fn drives_among(names: Seq<Seq<char>>) -> Seq<Seq<char>>
    decreases names.len(),
{
    if names.len() == 0 {
        Seq::empty()
    } else if is_drive_name(names.last()) {
        drives_among(names.drop_last()).push(drive_path(names.last()))
    } else {
        drives_among(names.drop_last())
    }
}

/// Picks the optical drives out of the names of the entries of the device
/// directory and returns their paths, in the order of the listing.
pub fn find_drives(names: &Vec<String>) -> (drives: Vec<String>)
    ensures
        drives.deep_view() == drives_among(names.deep_view()),
{
    let mut drives: Vec<String> = Vec::new();
    let ghost all = names.deep_view();
    let mut i: usize = 0;
    proof {
        assert(all.take(0) =~= Seq::<Seq<char>>::empty());
        assert(drives.deep_view() =~= Seq::<Seq<char>>::empty());
    }
    while i < names.len()
        invariant
            i <= names.len(),
            all == names.deep_view(),
            drives.deep_view() == drives_among(all.take(i as int)),
        decreases names.len() - i,
    {
        let name = names[i].as_str();
        let ghost found = drives.deep_view();
        proof {
            assert(all.take(i + 1).drop_last() == all.take(i as int));
            assert(all.take(i + 1).last() == name@);
        }
        let text = chars_of(name);
        let is_drive = match strip_prefix_of(&text, "sr") {
            Some(rest) => rest.len() > 0,
            None => false,
        };
        if is_drive {
            let mut path = String::from_str("/dev/");
            path.append(name);
            drives.push(path);
            proof {
                assert(drives.deep_view() =~= found.push(drive_path(name@)));
            }
        }
        i += 1;
    }
    proof {
        assert(all.take(names.len() as int) == all);
    }
    drives
}

/// The name of the program that reads and extracts discs.
pub fn tool_name() -> (out: &'static str)
    ensures
        out@ == "makemkvcon"@,
{
    "makemkvcon"
}

/// The arguments that make the tool print the catalog of the disc in
/// `drive`.
pub open spec fn info_args(drive: Seq<char>) -> Seq<Seq<char>> {
    seq!["-r"@, "info"@, "dev:"@ + drive]
}

/// The arguments that make the tool extract title `title_id` of the disc in
/// `drive` into the directory `output_path`, reporting its progress on
/// standard output.
pub open spec fn extract_args(drive: Seq<char>, title_id: u32, output_path: Seq<char>) -> Seq<
    Seq<char>,
> {
    seq![
        "-r"@,
        "mkv"@,
        "--progress=/dev/stdout"@,
        "dev:"@ + drive,
        decimal(title_id as nat),
        output_path,
    ]
}

/// `dev:` and the path of the drive, which is how the tool is told where
/// the disc is.
fn device_argument(drive: &str) -> (out: String)
    ensures
        out@ == "dev:"@ + drive@,
{
    let mut out = String::from_str("dev:");
    out.append(drive);
    out
}

/// The arguments for reading the catalog of the disc in `drive`.
pub fn info_arguments(drive: &str) -> (args: Vec<String>)
    ensures
        args.deep_view() == info_args(drive@),
{
    let mut args: Vec<String> = Vec::new();
    args.push(String::from_str("-r"));
    args.push(String::from_str("info"));
    args.push(device_argument(drive));
    proof {
        assert(args.deep_view() =~= info_args(drive@));
    }
    args
}

/// The arguments for extracting title `title_id` of the disc in `drive`
/// into `output_path`.
pub fn extract_arguments(drive: &str, title_id: u32, output_path: &str) -> (args: Vec<String>)
    ensures
        args.deep_view() == extract_args(drive@, title_id, output_path@),
{
    let mut id = String::new();
    push_decimal(&mut id, title_id as u64);
    let mut args: Vec<String> = Vec::new();
    args.push(String::from_str("-r"));
    args.push(String::from_str("mkv"));
    args.push(String::from_str("--progress=/dev/stdout"));
    args.push(device_argument(drive));
    args.push(id);
    args.push(String::from_str(output_path));
    proof {
        assert(args.deep_view() =~= extract_args(drive@, title_id, output_path@));
    }
    args
}

/// The attribute code of the record that names the disc.
pub const CODE_DISC_NAME: u32 = 2;

/// The attribute code of the record that gives a title's length in time.
pub const CODE_DURATION: u32 = 9;

/// The attribute code of the record that gives a title's size in bytes.
pub const CODE_SIZE: u32 = 11;

/// A record about the disc as a whole, `CINFO:<id>,<code>,<value>`.
pub struct CInfoView {
    pub id: u32,
    pub code: u32,
    pub value: Seq<char>,
}

/// A record about one title, `TINFO:<title>,<code>,<aux>,<value>`.
pub struct TInfoView {
    pub id: u32,
    pub code: u32,
    pub some_id: u32,
    pub value: Seq<char>,
}

/// The value that a record carries in its fields from position `from` on:
/// those fields with their commas, without any double quote.
pub open spec fn record_value(fields: Seq<Seq<char>>, from: int) -> Seq<char> {
    without(join(fields.skip(from), ','), '"')
}

/// The number in a field of a record; a field that is no number that fits
/// in 32 bits counts as 0.
pub open spec fn record_number(field: Seq<char>) -> u32 {
    number_or_zero(field, u32::MAX as nat) as u32
}

/// The disc record that `line` holds, if it is one: the tag `CINFO:`, then
/// at least three fields separated by commas.
pub open spec fn cinfo_of(line: Seq<char>) -> Option<CInfoView> {
    match strip_prefix(line, "CINFO:"@) {
        Some(rest) => {
            let fields = split(rest, ',');
            if fields.len() >= 3 {
                Some(
                    CInfoView {
                        id: record_number(fields[0]),
                        code: record_number(fields[1]),
                        value: record_value(fields, 2),
                    },
                )
            } else {
                None
            }
        },
        None => None,
    }
}

/// The title record that `line` holds, if it is one: the tag `TINFO:`, then
/// at least four fields separated by commas.
pub open spec fn tinfo_of(line: Seq<char>) -> Option<TInfoView> {
    match strip_prefix(line, "TINFO:"@) {
        Some(rest) => {
            let fields = split(rest, ',');
            if fields.len() >= 4 {
                Some(
                    TInfoView {
                        id: record_number(fields[0]),
                        code: record_number(fields[1]),
                        some_id: record_number(fields[2]),
                        value: record_value(fields, 3),
                    },
                )
            } else {
                None
            }
        },
        None => None,
    }
}

/// The seconds in a length of time written as `HH:MM:SS`.
///
/// The text must have exactly three parts between colons; a part that is no
/// number counts as 0. A length that does not fit in 32 bits is none.
pub open spec fn duration_of(value: Seq<char>) -> Option<u32> {
    let parts = split(value, ':');
    if parts.len() == 3 {
        let hours = record_number(parts[0]);
        let minutes = record_number(parts[1]);
        let seconds = record_number(parts[2]);
        let secs = hours * 3600 + minutes * 60 + seconds;
        if secs <= u32::MAX {
            Some(secs as u32)
        } else {
            None
        }
    } else {
        None
    }
}

#[allow(dead_code)]
struct CInfo {
    id: u32,
    code: u32,
    value: Vec<char>,
}

impl View for CInfo {
    type V = CInfoView;

    closed spec fn view(&self) -> CInfoView {
        CInfoView { id: self.id, code: self.code, value: self.value@ }
    }
}

#[allow(dead_code)]
struct TInfo {
    id: u32,
    code: u32,
    some_id: u32,
    value: Vec<char>,
}

impl View for TInfo {
    type V = TInfoView;

    closed spec fn view(&self) -> TInfoView {
        TInfoView { id: self.id, code: self.code, some_id: self.some_id, value: self.value@ }
    }
}

fn record_value_of(fields: &Vec<Vec<char>>, from: usize) -> (out: Vec<char>)
    requires
        from <= fields.len(),
    ensures
        out@ == record_value(fields.deep_view(), from as int),
{
    let joined = join_from(fields, from, ',');
    remove_all(&joined, '"')
}

fn parse_cinfo(line: &Vec<char>) -> (out: Option<CInfo>)
    ensures
        out is Some <==> cinfo_of(line@) is Some,
        out matches Some(r) ==> cinfo_of(line@) == Some(r@),
{
    match strip_prefix_of(line, "CINFO:") {
        Some(rest) => {
            let fields = split_at_each(&rest, ',');
            proof {
                assert(fields.deep_view().len() == fields.len());
            }
            if fields.len() >= 3 {
                proof {
                    assert(fields.deep_view()[0] == fields@[0]@);
                    assert(fields.deep_view()[1] == fields@[1]@);
                }
                Some(
                    CInfo {
                        id: u32_or_zero(&fields[0]),
                        code: u32_or_zero(&fields[1]),
                        value: record_value_of(&fields, 2),
                    },
                )
            } else {
                None
            }
        },
        None => None,
    }
}

fn parse_tinfo(line: &Vec<char>) -> (out: Option<TInfo>)
    ensures
        out is Some <==> tinfo_of(line@) is Some,
        out matches Some(r) ==> tinfo_of(line@) == Some(r@),
{
    match strip_prefix_of(line, "TINFO:") {
        Some(rest) => {
            let fields = split_at_each(&rest, ',');
            proof {
                assert(fields.deep_view().len() == fields.len());
            }
            if fields.len() >= 4 {
                proof {
                    assert(fields.deep_view()[0] == fields@[0]@);
                    assert(fields.deep_view()[1] == fields@[1]@);
                    assert(fields.deep_view()[2] == fields@[2]@);
                }
                Some(
                    TInfo {
                        id: u32_or_zero(&fields[0]),
                        code: u32_or_zero(&fields[1]),
                        some_id: u32_or_zero(&fields[2]),
                        value: record_value_of(&fields, 3),
                    },
                )
            } else {
                None
            }
        },
        None => None,
    }
}

fn parse_duration(value: &Vec<char>) -> (out: Option<u32>)
    ensures
        out == duration_of(value@),
{
    let parts = split_at_each(value, ':');
    proof {
        assert(parts.deep_view().len() == parts.len());
    }
    if parts.len() != 3 {
        return None;
    }
    proof {
        assert(parts.deep_view()[0] == parts@[0]@);
        assert(parts.deep_view()[1] == parts@[1]@);
        assert(parts.deep_view()[2] == parts@[2]@);
    }
    let hours = u32_or_zero(&parts[0]) as u64;
    let minutes = u32_or_zero(&parts[1]) as u64;
    let seconds = u32_or_zero(&parts[2]) as u64;
    let secs = hours * 3600 + minutes * 60 + seconds;
    if secs <= u32::MAX as u64 {
        Some(secs as u32)
    } else {
        None
    }
}

/// Whether `line` is a record about title `id`.
pub open spec fn is_record_of(line: Seq<char>, id: u32) -> bool {
    match tinfo_of(line) {
        Some(record) => record.id == id,
        None => false,
    }
}

/// Whether `lines` hold a record about title `id`.
pub open spec fn title_seen(lines: Seq<Seq<char>>, id: u32) -> bool {
    exists|i: int| 0 <= i < lines.len() && is_record_of(#[trigger] lines[i], id)
}

/// The name of the disc according to `lines`: the value of the last disc
/// record with the code for the name, or a placeholder if there is none.
pub open spec fn disc_name(lines: Seq<Seq<char>>) -> Seq<char>
    decreases lines.len(),
{
    if lines.len() == 0 {
        "Unknown"@
    } else {
        match cinfo_of(lines.last()) {
            Some(record) => if record.code == CODE_DISC_NAME {
                record.value
            } else {
                disc_name(lines.drop_last())
            },
            None => disc_name(lines.drop_last()),
        }
    }
}

/// The size of title `id` according to `lines`: the number in the last size
/// record about the title, or 0 if there is none or it holds no number.
pub open spec fn title_size(lines: Seq<Seq<char>>, id: u32) -> u64
    decreases lines.len(),
{
    if lines.len() == 0 {
        0
    } else {
        match tinfo_of(lines.last()) {
            Some(record) => if record.id == id && record.code == CODE_SIZE {
                number_or_zero(record.value, u64::MAX as nat) as u64
            } else {
                title_size(lines.drop_last(), id)
            },
            None => title_size(lines.drop_last(), id),
        }
    }
}

/// The length in seconds of title `id` according to `lines`: that of the
/// last duration record about the title that holds a well-formed length,
/// or 0 if there is none.
pub open spec fn title_duration(lines: Seq<Seq<char>>, id: u32) -> u32
    decreases lines.len(),
{
    if lines.len() == 0 {
        0
    } else {
        match tinfo_of(lines.last()) {
            Some(record) => if record.id == id && record.code == CODE_DURATION && duration_of(
                record.value,
            ) is Some {
                duration_of(record.value)->0
            } else {
                title_duration(lines.drop_last(), id)
            },
            None => title_duration(lines.drop_last(), id),
        }
    }
}

/// The name that title `id` is listed under.
pub open spec fn title_name(id: u32) -> Seq<char> {
    "Title "@ + decimal(id as nat)
}

/// Title `id` as `lines` describe it.
pub open spec fn title_of(lines: Seq<Seq<char>>, id: u32) -> DiskTitleView {
    DiskTitleView {
        id,
        name: title_name(id),
        size_bytes: title_size(lines, id),
        duration_secs: title_duration(lines, id),
    }
}

/// Whether `titles` holds a title with id `id`.
pub open spec fn has_title(titles: Seq<DiskTitleView>, id: u32) -> bool {
    exists|i: int| 0 <= i < titles.len() && (#[trigger] titles[i]).id == id
}

/// Whether title `a` is listed before title `b`: the larger one first, and
/// of two titles of one size the one with the smaller id.
pub open spec fn comes_before(a: DiskTitleView, b: DiskTitleView) -> bool {
    a.size_bytes > b.size_bytes || (a.size_bytes == b.size_bytes && a.id < b.id)
}

/// Whether each title of `titles` comes before all that follow it.
pub open spec fn in_listing_order(titles: Seq<DiskTitleView>) -> bool {
    forall|i: int, j: int| 0 <= i < j < titles.len() ==> comes_before(titles[i], titles[j])
}

/// Whether no two titles of `titles` share an id.
pub open spec fn distinct_ids(titles: Seq<DiskTitleView>) -> bool {
    forall|i: int, j: int| 0 <= i < j < titles.len() ==> titles[i].id != titles[j].id
}

/// Whether `info` is the catalog that `lines` describe: it carries the name
/// of the disc and one title for each title id that a record mentions, each
/// as the records describe it, the titles in listing order.
pub open spec fn is_catalog_of(info: DiskInfoView, lines: Seq<Seq<char>>) -> bool {
    &&& info.title == disc_name(lines)
    &&& forall|id: u32| title_seen(lines, id) <==> has_title(info.titles, id)
    &&& forall|i: int|
        0 <= i < info.titles.len() ==> #[trigger] info.titles[i] == title_of(
            lines,
            info.titles[i].id,
        )
    &&& in_listing_order(info.titles)
}

/// Titles in listing order stand largest first.
pub proof fn lemma_listing_order_largest_first(info: DiskInfoView)
    requires
        in_listing_order(info.titles),
    ensures
        info.largest_first(),
{
    assert forall|i: int, j: int| 0 <= i < j < info.titles.len() implies info.titles[i].size_bytes
        >= info.titles[j].size_bytes by {
        assert(comes_before(info.titles[i], info.titles[j]));
    }
}

/// Two lists in listing order that hold the same titles are one list.
pub proof fn lemma_listing_order_is_unique(x: Seq<DiskTitleView>, y: Seq<DiskTitleView>)
    requires
        in_listing_order(x),
        in_listing_order(y),
        forall|t: DiskTitleView| x.contains(t) <==> y.contains(t),
    ensures
        x == y,
    decreases x.len(),
{
    if x.len() == 0 {
        if y.len() > 0 {
            assert(y.contains(y[0]));
        }
        assert(x =~= y);
    } else {
        assert(x.contains(x[0]));
        let j = choose|j: int| 0 <= j < y.len() && y[j] == x[0];
        assert(y.contains(y[0]));
        let i = choose|i: int| 0 <= i < x.len() && x[i] == y[0];
        if j > 0 && i > 0 {
            assert(comes_before(y[0], y[j]));
            assert(comes_before(x[0], x[i]));
        }
        assert(x[0] == y[0]);
        let xs = x.drop_first();
        let ys = y.drop_first();
        assert forall|t: DiskTitleView| xs.contains(t) <==> ys.contains(t) by {
            if xs.contains(t) {
                let m = choose|m: int| 0 <= m < xs.len() && xs[m] == t;
                assert(x[m + 1] == t);
                assert(comes_before(x[0], x[m + 1]));
                assert(x.contains(t));
                let k = choose|k: int| 0 <= k < y.len() && y[k] == t;
                assert(ys[k - 1] == t);
            }
            if ys.contains(t) {
                let m = choose|m: int| 0 <= m < ys.len() && ys[m] == t;
                assert(y[m + 1] == t);
                assert(comes_before(y[0], y[m + 1]));
                assert(y.contains(t));
                let k = choose|k: int| 0 <= k < x.len() && x[k] == t;
                assert(xs[k - 1] == t);
            }
        }
        assert forall|a: int, b: int| 0 <= a < b < xs.len() implies comes_before(
            xs[a],
            xs[b],
        ) by {
            assert(comes_before(x[a + 1], x[b + 1]));
        }
        assert forall|a: int, b: int| 0 <= a < b < ys.len() implies comes_before(
            ys[a],
            ys[b],
        ) by {
            assert(comes_before(y[a + 1], y[b + 1]));
        }
        lemma_listing_order_is_unique(xs, ys);
        assert(x =~= seq![x[0]] + xs);
        assert(y =~= seq![y[0]] + ys);
    }
}

/// The lines of a disc describe exactly one catalog.
pub proof fn lemma_catalog_is_unique(a: DiskInfoView, b: DiskInfoView, lines: Seq<Seq<char>>)
    requires
        is_catalog_of(a, lines),
        is_catalog_of(b, lines),
    ensures
        a == b,
{
    assert forall|t: DiskTitleView| a.titles.contains(t) <==> b.titles.contains(t) by {
        if a.titles.contains(t) {
            let i = choose|i: int| 0 <= i < a.titles.len() && a.titles[i] == t;
            assert(has_title(a.titles, t.id));
            assert(title_seen(lines, t.id));
            assert(has_title(b.titles, t.id));
            let j = choose|j: int| 0 <= j < b.titles.len() && (#[trigger] b.titles[j]).id == t.id;
            assert(b.titles[j] == t);
        }
        if b.titles.contains(t) {
            let i = choose|i: int| 0 <= i < b.titles.len() && b.titles[i] == t;
            assert(has_title(b.titles, t.id));
            assert(title_seen(lines, t.id));
            assert(has_title(a.titles, t.id));
            let j = choose|j: int| 0 <= j < a.titles.len() && (#[trigger] a.titles[j]).id == t.id;
            assert(a.titles[j] == t);
        }
    }
    lemma_listing_order_is_unique(a.titles, b.titles);
}

/// In a catalog no two titles share an id.
pub proof fn lemma_catalog_ids_are_distinct(info: DiskInfoView, lines: Seq<Seq<char>>)
    requires
        is_catalog_of(info, lines),
    ensures
        distinct_ids(info.titles),
{
    assert forall|i: int, j: int| 0 <= i < j < info.titles.len() implies info.titles[i].id
        != info.titles[j].id by {
        assert(comes_before(info.titles[i], info.titles[j]));
        assert(info.titles[i] == title_of(lines, info.titles[i].id));
        assert(info.titles[j] == title_of(lines, info.titles[j].id));
    }
}

/// A title that no record mentions has neither size nor length.
proof fn lemma_unseen_title(lines: Seq<Seq<char>>, id: u32)
    requires
        !title_seen(lines, id),
    ensures
        title_size(lines, id) == 0,
        title_duration(lines, id) == 0,
    decreases lines.len(),
{
    if lines.len() > 0 {
        assert(!is_record_of(lines[lines.len() - 1], id));
        assert forall|i: int| 0 <= i < lines.drop_last().len() implies !is_record_of(
            #[trigger] lines.drop_last()[i],
            id,
        ) by {
            assert(lines.drop_last()[i] == lines[i]);
        }
        lemma_unseen_title(lines.drop_last(), id);
    }
}

/// A title is mentioned in lines and one more line if it is mentioned in
/// the lines or in the one.
proof fn lemma_seen_push(lines: Seq<Seq<char>>, line: Seq<char>, id: u32)
    ensures
        title_seen(lines.push(line), id) <==> title_seen(lines, id) || is_record_of(line, id),
{
    let more = lines.push(line);
    if title_seen(more, id) {
        let i = choose|i: int| 0 <= i < more.len() && is_record_of(#[trigger] more[i], id);
        if i < lines.len() {
            assert(is_record_of(lines[i], id));
        }
    }
    if title_seen(lines, id) {
        let i = choose|i: int| 0 <= i < lines.len() && is_record_of(#[trigger] lines[i], id);
        assert(is_record_of(more[i], id));
    }
    if is_record_of(line, id) {
        assert(is_record_of(more[lines.len() as int], id));
    }
}

/// The position of the title with id `id` in `titles`.
fn position_of(titles: &Vec<DiskTitle>, id: u32) -> (out: Option<usize>)
    ensures
        out matches Some(k) ==> k < titles.len() && titles@[k as int].id == id,
        out is None ==> !has_title(titles.deep_view(), id),
{
    let mut k: usize = 0;
    while k < titles.len()
        invariant
            k <= titles.len(),
            forall|i: int| 0 <= i < k ==> (#[trigger] titles.deep_view()[i]).id != id,
        decreases titles.len() - k,
    {
        if titles[k].id == id {
            return Some(k);
        }
        proof {
            assert(titles.deep_view()[k as int] == titles@[k as int]@);
        }
        k += 1;
    }
    None
}

/// The name that title `id` is listed under.
fn title_name_of(id: u32) -> (out: String)
    ensures
        out@ == title_name(id),
{
    let mut out = String::from_str("Title ");
    push_decimal(&mut out, id as u64);
    out
}

/// Whether `titles` is what the records of `lines` add up to, in some
/// order: one title for each id mentioned, as the records describe it.
spec fn gathered(titles: Seq<DiskTitleView>, lines: Seq<Seq<char>>) -> bool {
    &&& distinct_ids(titles)
    &&& forall|id: u32| title_seen(lines, id) <==> has_title(titles, id)
    &&& forall|i: int|
        0 <= i < titles.len() ==> #[trigger] titles[i] == title_of(lines, titles[i].id)
}

/// Takes the title record `record` of `line` into `titles`.
fn gather(titles: &mut Vec<DiskTitle>, record: &TInfo, Ghost(lines): Ghost<Seq<Seq<char>>>, Ghost(
    line,
): Ghost<Seq<char>>)
    requires
        gathered(old(titles).deep_view(), lines),
        tinfo_of(line) == Some(record@),
    ensures
        gathered(final(titles).deep_view(), lines.push(line)),
{
    let ghost more = lines.push(line);
    let ghost given = titles.deep_view();
    proof {
        assert(more.drop_last() == lines);
        assert(more.last() == line);
    }
    let found = position_of(titles, record.id);
    let k = match found {
        Some(k) => k,
        None => {
            titles.push(
                DiskTitle {
                    id: record.id,
                    name: title_name_of(record.id),
                    size_bytes: 0,
                    duration_secs: 0,
                },
            );
            proof {
                lemma_unseen_title(lines, record.id);
                assert(titles.deep_view() =~= given.push(title_of(lines, record.id)));
            }
            titles.len() - 1
        },
    };
    let ghost listed = titles.deep_view();
    proof {
        assert(listed[k as int] == titles@[k as int]@);
        assert(listed[k as int] == title_of(lines, record.id));
        assert(distinct_ids(listed));
        assert forall|i: int| 0 <= i < listed.len() implies #[trigger] listed[i] == title_of(
            lines,
            listed[i].id,
        ) by {
            if i < given.len() {
                assert(listed[i] == given[i]);
            }
        }
    }
    if record.code == CODE_SIZE {
        titles[k].size_bytes = u64_or_zero(&record.value);
    } else if record.code == CODE_DURATION {
        match parse_duration(&record.value) {
            Some(secs) => {
                titles[k].duration_secs = secs;
            },
            None => {},
        }
    }
    proof {
        let after = titles.deep_view();
        assert(after =~= listed.update(k as int, title_of(more, record.id)));
        assert forall|i: int| 0 <= i < after.len() implies #[trigger] after[i] == title_of(
            more,
            after[i].id,
        ) by {
            if i != k {
                assert(after[i] == listed[i]);
                assert(listed[i].id != listed[k as int].id);
            }
        }
        assert forall|id: u32| title_seen(more, id) <==> has_title(after, id) by {
            lemma_seen_push(lines, line, id);
            if has_title(after, id) {
                let i = choose|i: int| 0 <= i < after.len() && (#[trigger] after[i]).id == id;
                if i != k {
                    assert(listed[i].id == id);
                    if i < given.len() {
                        assert(given[i].id == id);
                    }
                }
            }
            if title_seen(lines, id) {
                let i = choose|i: int| 0 <= i < given.len() && (#[trigger] given[i]).id == id;
                assert(listed[i] == given[i]);
                assert(after[i].id == id);
            }
            if is_record_of(line, id) {
                assert(after[k as int].id == id);
            }
        }
        assert(distinct_ids(after)) by {
            assert forall|i: int, j: int| 0 <= i < j < after.len() implies after[i].id
                != after[j].id by {
                assert(after[i].id == listed[i].id);
                assert(after[j].id == listed[j].id);
            }
        }
    }
}

/// Whether `a` is listed before `b`.
fn precedes(a: &DiskTitle, b: &DiskTitle) -> (out: bool)
    ensures
        out == comes_before(a@, b@),
{
    a.size_bytes > b.size_bytes || (a.size_bytes == b.size_bytes && a.id < b.id)
}

/// Puts titles with distinct ids into listing order.
fn sort_titles(titles: Vec<DiskTitle>) -> (out: Vec<DiskTitle>)
    requires
        distinct_ids(titles.deep_view()),
    ensures
        in_listing_order(out.deep_view()),
        out.len() == titles.len(),
        forall|i: int| 0 <= i < titles.len() ==> out.deep_view().contains(#[trigger] titles.deep_view()[i]),
        forall|j: int| 0 <= j < out.len() ==> titles.deep_view().contains(#[trigger] out.deep_view()[j]),
{
    let ghost given = titles.deep_view();
    let mut rest = titles;
    let mut out: Vec<DiskTitle> = Vec::new();
    while rest.len() > 0
        invariant
            distinct_ids(given),
            rest.len() <= given.len(),
            rest.deep_view() == given.take(rest.len() as int),
            out.len() + rest.len() == given.len(),
            in_listing_order(out.deep_view()),
            forall|i: int|
                rest.len() <= i < given.len() ==> out.deep_view().contains(#[trigger] given[i]),
            forall|j: int|
                0 <= j < out.len() ==> exists|i: int|
                    rest.len() <= i < given.len() && given[i] == #[trigger] out.deep_view()[j],
        decreases rest.len(),
    {
        let ghost before = out.deep_view();
        let ghost m = rest.len() - 1;
        let ghost last = rest@[m]@;
        proof {
            assert(rest.deep_view()[m] == last);
        }
        let title = rest.pop().unwrap();
        proof {
            assert(title@ == given[m]);
            assert(rest.deep_view() =~= given.take(m));
            assert forall|j: int| 0 <= j < before.len() implies before[j].id != title.id by {
                let i = choose|i: int| m < i < given.len() && given[i] == before[j];
                assert(given[m].id != given[i].id);
            }
        }
        let mut p: usize = 0;
        while p < out.len() && precedes(&out[p], &title)
            invariant
                p <= out.len(),
                before == out.deep_view(),
                forall|j: int| 0 <= j < p ==> comes_before(#[trigger] before[j], title@),
            decreases out.len() - p,
        {
            p += 1;
        }
        out.insert(p, title);
        proof {
            let after = out.deep_view();
            assert(after =~= before.insert(p as int, given[m]));
            assert forall|i: int, j: int| 0 <= i < j < after.len() implies comes_before(
                after[i],
                after[j],
            ) by {
                if j < p {
                    assert(after[i] == before[i] && after[j] == before[j]);
                } else if j == p {
                    assert(after[i] == before[i]);
                } else if i < p {
                    assert(after[i] == before[i] && after[j] == before[j - 1]);
                } else if i == p {
                    assert(after[j] == before[j - 1]);
                    assert(before[p as int].id != title.id);
                    assert(!comes_before(before[p as int], title@));
                    if j - 1 > p {
                        assert(comes_before(before[p as int], before[j - 1]));
                    }
                } else {
                    assert(after[i] == before[i - 1] && after[j] == before[j - 1]);
                }
            }
            assert forall|i: int| m <= i < given.len() implies after.contains(
                #[trigger] given[i],
            ) by {
                if i == m {
                    assert(after[p as int] == given[m]);
                } else {
                    assert(before.contains(given[i]));
                    let j = choose|j: int| 0 <= j < before.len() && before[j] == given[i];
                    if j < p {
                        assert(after[j] == given[i]);
                    } else {
                        assert(after[j + 1] == given[i]);
                    }
                }
            }
            assert forall|j: int| 0 <= j < after.len() implies exists|i: int|
                m <= i < given.len() && given[i] == #[trigger] after[j] by {
                if j < p {
                    assert(after[j] == before[j]);
                    let i = choose|i: int| m < i < given.len() && given[i] == before[j];
                    assert(m <= i < given.len() && given[i] == after[j]);
                } else if j == p {
                    assert(m <= m < given.len() && given[m] == after[j]);
                } else {
                    assert(after[j] == before[j - 1]);
                    let i = choose|i: int| m < i < given.len() && given[i] == before[j - 1];
                    assert(m <= i < given.len() && given[i] == after[j]);
                }
            }
        }
    }
    proof {
        assert forall|j: int| 0 <= j < out.len() implies given.contains(
            #[trigger] out.deep_view()[j],
        ) by {
            let i = choose|i: int| 0 <= i < given.len() && given[i] == out.deep_view()[j];
            assert(given[i] == out.deep_view()[j]);
        }
    }
    out
}

/// Reads the catalog of a disc from what the tool printed about it.
///
/// The text is read line by line. Lines that are no disc or title record
/// are passed over.
pub fn find_disk_titles(output: &str) -> (info: DiskInfo)
    ensures
        is_catalog_of(info@, lines(output@)),
        info@.largest_first(),
{
    let text = chars_of(output);
    let all = lines_of(&text);
    let ghost every = lines(output@);
    let mut title = String::from_str("Unknown");
    let mut titles: Vec<DiskTitle> = Vec::new();
    let mut n: usize = 0;
    proof {
        assert(every.take(0) =~= Seq::<Seq<char>>::empty());
        assert(titles.deep_view() =~= Seq::<DiskTitleView>::empty());
        assert(every.len() == all.len());
    }
    while n < all.len()
        invariant
            n <= all.len(),
            every == all.deep_view(),
            title@ == disc_name(every.take(n as int)),
            gathered(titles.deep_view(), every.take(n as int)),
        decreases all.len() - n,
    {
        let line = &all[n];
        let ghost seen = every.take(n as int);
        let ghost more = every.take(n + 1);
        proof {
            assert(every[n as int] == line@);
            assert(more == seen.push(line@));
            assert(more.drop_last() == seen);
        }
        match parse_cinfo(line) {
            Some(record) => {
                if record.code == CODE_DISC_NAME {
                    title = string_of(&record.value);
                }
            },
            None => {},
        }
        match parse_tinfo(line) {
            Some(record) => {
                gather(&mut titles, &record, Ghost(seen), Ghost(line@));
            },
            None => {
                proof {
                    let listed = titles.deep_view();
                    assert forall|id: u32| title_seen(more, id) <==> has_title(listed, id) by {
                        lemma_seen_push(seen, line@, id);
                    }
                }
            },
        }
        n += 1;
    }
    proof {
        assert(every.take(all.len() as int) == every);
    }
    let ghost found = titles.deep_view();
    let titles = sort_titles(titles);
    let info = DiskInfo { title, titles };
    proof {
        let listed = info@.titles;
        assert forall|id: u32| title_seen(every, id) <==> has_title(listed, id) by {
            if has_title(listed, id) {
                let j = choose|j: int| 0 <= j < listed.len() && (#[trigger] listed[j]).id == id;
                assert(found.contains(listed[j]));
                let i = choose|i: int| 0 <= i < found.len() && found[i] == listed[j];
                assert(found[i].id == id);
            }
            if has_title(found, id) {
                let i = choose|i: int| 0 <= i < found.len() && (#[trigger] found[i]).id == id;
                assert(listed.contains(found[i]));
                let j = choose|j: int| 0 <= j < listed.len() && listed[j] == found[i];
                assert(listed[j].id == id);
            }
        }
        assert forall|j: int| 0 <= j < listed.len() implies #[trigger] listed[j] == title_of(
            every,
            listed[j].id,
        ) by {
            assert(found.contains(listed[j]));
            let i = choose|i: int| 0 <= i < found.len() && found[i] == listed[j];
            assert(found[i] == title_of(every, found[i].id));
        }
        lemma_listing_order_largest_first(info@);
    }
    info
}

/// One report of the tool about a running extraction.
#[derive(Debug, PartialEq, Eq)]
pub enum Progress {
    /// The name of the operation that the tool is busy with.
    Task(String),
    /// How far the extraction has come, in the tool's own units.
    Counters { extracted: u32, total: u32 },
}

/// What a [`Progress`] stands for.
pub enum ProgressView {
    Task(Seq<char>),
    Counters { extracted: u32, total: u32 },
}

impl View for Progress {
    type V = ProgressView;

    open spec fn view(&self) -> ProgressView {
        match self {
            Progress::Task(label) => ProgressView::Task(label@),
            Progress::Counters { extracted, total } => ProgressView::Counters {
                extracted: *extracted,
                total: *total,
            },
        }
    }
}

impl DeepView for Progress {
    type V = ProgressView;

    open spec fn deep_view(&self) -> ProgressView {
        self@
    }
}

/// Why an extraction did not produce its file.
#[derive(Debug, Clone, Copy, PartialEq, Eq)]
pub enum ExtractError {
    /// The tool ended with a status other than success; `exit_code` is
    /// absent when the system reported none.
    ToolFailed { exit_code: Option<i32> },
}

/// The progress report that `line` holds, if it is one.
///
/// `PRGC:<_>,<_>,<name>` names the current operation; the name is the third
/// field without its double quotes. `PRGV:<extracted>,<_>,<total>` gives the
/// counters; a counter that is no number counts as 0. A line with fewer
/// than three fields is no report.
pub open spec fn progress_of(line: Seq<char>) -> Option<ProgressView> {
    match strip_prefix(line, "PRGC:"@) {
        Some(rest) => {
            let fields = split(rest, ',');
            if fields.len() >= 3 {
                Some(ProgressView::Task(without(fields[2], '"')))
            } else {
                None
            }
        },
        None => match strip_prefix(line, "PRGV:"@) {
            Some(rest) => {
                let fields = split(rest, ',');
                if fields.len() >= 3 {
                    Some(
                        ProgressView::Counters {
                            extracted: record_number(fields[0]),
                            total: record_number(fields[2]),
                        },
                    )
                } else {
                    None
                }
            },
            None => None,
        },
    }
}

/// Reads one line that the tool printed during an extraction.
pub fn parse_progress(line: &str) -> (out: Option<Progress>)
    ensures
        out.deep_view() == progress_of(line@),
{
    let text = chars_of(line);
    match strip_prefix_of(&text, "PRGC:") {
        Some(rest) => {
            let fields = split_at_each(&rest, ',');
            proof {
                assert(fields.deep_view().len() == fields.len());
            }
            if fields.len() >= 3 {
                proof {
                    assert(fields.deep_view()[2] == fields@[2]@);
                }
                let name = remove_all(&fields[2], '"');
                Some(Progress::Task(string_of(&name)))
            } else {
                None
            }
        },
        None => match strip_prefix_of(&text, "PRGV:") {
            Some(rest) => {
                let fields = split_at_each(&rest, ',');
                proof {
                    assert(fields.deep_view().len() == fields.len());
                }
                if fields.len() >= 3 {
                    proof {
                        assert(fields.deep_view()[0] == fields@[0]@);
                        assert(fields.deep_view()[2] == fields@[2]@);
                    }
                    Some(
                        Progress::Counters {
                            extracted: u32_or_zero(&fields[0]),
                            total: u32_or_zero(&fields[2]),
                        },
                    )
                } else {
                    None
                }
            },
            None => None,
        },
    }
}

} // verus!
