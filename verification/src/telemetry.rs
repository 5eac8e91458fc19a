//! Disk telemetry: the bytes written to a device, read from the kernel's
//! disk statistics, and the change of that figure between two samples.

use vstd::prelude::*;
use crate::text::{chars_of, parse_u64, parse_u64_chars, same_chars, split_fields, whitespace_fields};

verus! {

/// Bytes per sector in the kernel's disk statistics.
pub const SECTOR_SIZE: u64 = 512;
/// Position of the device name among the fields of a statistics record.
pub const DEVICE_FIELD: usize = 2;
/// Position of the count of sectors written among the fields of a record.
pub const SECTORS_WRITTEN_FIELD: usize = 9;
/// A record names a device only if it has more fields than this.
pub const MIN_RECORD_FIELDS: usize = 7;

/// What the statistics, or one line of them, say of a device.
#[derive(Clone, Copy, Debug, PartialEq, Eq, Structural)]
pub enum DiskStatsScan {
    /// A record of the device with a readable count of sectors written gives
    /// this count.
    Sectors(u64),
    /// A record of the device ends before its field of sectors written.
    ShortRecord,
    /// Nothing: no record of the device, or none with a readable count.
    Absent,
}

/// The characters of each line.
pub open spec fn lines_view(lines: Seq<String>) -> Seq<Seq<char>> {
    lines.map_values(|l: String| l@)
}

/// A record of device `device`: more than seven fields, the third of which
/// is the device's name.
pub open spec fn names_device(fields: Seq<Seq<char>>, device: Seq<char>) -> bool {
    fields.len() > MIN_RECORD_FIELDS && fields[DEVICE_FIELD as int] == device
}

/// What one line of the statistics says of `device`.
pub open spec fn read_record(line: Seq<char>, device: Seq<char>) -> DiskStatsScan {
    let fields = whitespace_fields(line);
    if names_device(fields, device) {
        if fields.len() <= SECTORS_WRITTEN_FIELD {
            DiskStatsScan::ShortRecord
        } else {
            match parse_u64(fields[SECTORS_WRITTEN_FIELD as int]) {
                Some(sectors) => DiskStatsScan::Sectors(sectors),
                None => DiskStatsScan::Absent,
            }
        }
    } else {
        DiskStatsScan::Absent
    }
}

/// The statistics `lines` read from the first line on: the first line that
/// says something of `device` decides.
pub open spec fn scan_stats(lines: Seq<Seq<char>>, device: Seq<char>) -> DiskStatsScan
    decreases lines.len(),
{
    if lines.len() == 0 {
        DiskStatsScan::Absent
    } else {
        match read_record(lines[0], device) {
            DiskStatsScan::Absent => scan_stats(lines.drop_first(), device),
            said => said,
        }
    }
}

fn read_record_chars(line: &Vec<char>, device: &Vec<char>) -> (r: DiskStatsScan)
    ensures
        r == read_record(line@, device@),
{
    let fields = split_fields(line);
    if fields.len() > MIN_RECORD_FIELDS && same_chars(&fields[DEVICE_FIELD], device) {
        if fields.len() <= SECTORS_WRITTEN_FIELD {
            return DiskStatsScan::ShortRecord;
        }
        match parse_u64_chars(&fields[SECTORS_WRITTEN_FIELD]) {
            Some(sectors) => DiskStatsScan::Sectors(sectors),
            None => DiskStatsScan::Absent,
        }
    } else {
        DiskStatsScan::Absent
    }
}

/// What the statistics line `line` says of device `device_name`.
pub fn read_stats_record(line: &str, device_name: &str) -> (r: DiskStatsScan)
    ensures
        r == read_record(line@, device_name@),
{
    read_record_chars(&chars_of(line), &chars_of(device_name))
}

/// What the statistics `lines` say of device `device_name`.
pub fn scan_disk_stats(lines: &Vec<String>, device_name: &str) -> (r: DiskStatsScan)
    ensures
        r == scan_stats(lines_view(lines@), device_name@),
{
    let device = chars_of(device_name);
    let ghost all = lines_view(lines@);
    let mut i: usize = 0;
    proof {
        assert(all.skip(0) =~= all);
    }
    while i < lines.len()
        invariant
            0 <= i <= lines.len(),
            all == lines_view(lines@),
            device@ == device_name@,
            scan_stats(all, device@) == scan_stats(all.skip(i as int), device@),
        decreases lines.len() - i,
    {
        let line = chars_of(lines[i].as_str());
        proof {
            assert(all.skip(i as int)[0] == line@);
            assert(all.skip(i as int).drop_first() =~= all.skip(i + 1));
        }
        let said = read_record_chars(&line, &device);
        match said {
            DiskStatsScan::Absent => {},
            _ => {
                return said;
            },
        }
        i = i + 1;
    }
    DiskStatsScan::Absent
}

/// The bytes in `sectors` sectors.
pub fn disk_bytes_from_sectors(sectors: u64) -> (bytes: u64)
    requires
        sectors * SECTOR_SIZE <= u64::MAX,
    ensures
        bytes == sectors * SECTOR_SIZE,
{
    sectors * SECTOR_SIZE
}

/// The bytes that the statistics `lines` say were written to device
/// `device_name`: the sectors written times the sector size, or 0 where no
/// record of the device gives them.
pub fn disk_stats_bytes(lines: &Vec<String>, device_name: &str) -> (bytes: u64)
    requires
        scan_stats(lines_view(lines@), device_name@) != DiskStatsScan::ShortRecord,
        scan_stats(lines_view(lines@), device_name@) matches DiskStatsScan::Sectors(s) ==> s
            * SECTOR_SIZE <= u64::MAX,
    ensures
        bytes == match scan_stats(lines_view(lines@), device_name@) {
            DiskStatsScan::Sectors(s) => s * SECTOR_SIZE,
            _ => 0,
        },
{
    match scan_disk_stats(lines, device_name) {
        DiskStatsScan::Sectors(sectors) => disk_bytes_from_sectors(sectors),
        _ => 0,
    }
}

/// A line whose whitespace fields number more than nine, whose third field
/// is the device's name and whose tenth field reads as the number `sectors`
/// says that the device had `sectors` sectors written, however many fields
/// follow; one with eight or nine fields whose third is the device's name
/// ends too early; and a line with at most seven fields, or whose third field
/// is another name, or whose tenth field is no number, says nothing.
pub proof fn lemma_stats_line_reading(line: Seq<char>, device: Seq<char>)
    ensures
        ({
            let f = whitespace_fields(line);
            &&& (f.len() > 9 && f[2] == device && parse_u64(f[9]) is Some) ==> read_record(line, device)
                == DiskStatsScan::Sectors(parse_u64(f[9])->0)
            &&& (f.len() > 9 && f[2] == device && parse_u64(f[9]) is None) ==> read_record(line, device)
                == DiskStatsScan::Absent
            &&& (8 <= f.len() <= 9 && f[2] == device) ==> read_record(line, device)
                == DiskStatsScan::ShortRecord
            &&& (f.len() <= 7 || f[2] != device) ==> read_record(line, device) == DiskStatsScan::Absent
        }),
{
}

/// The first line that names the device decides what the statistics say: if
/// line `i` names it with a readable tenth field `sectors`, and no earlier line
/// names it with a readable tenth field or ends too early, the statistics give
/// `sectors`; and with no line that names the device they give nothing.
pub proof fn lemma_stats_first_record_decides(lines: Seq<Seq<char>>, device: Seq<char>, i: int)
    requires
        0 <= i < lines.len(),
        forall|j: int|
            0 <= j < i ==> {
                let f = #[trigger] whitespace_fields(lines[j]);
                f.len() <= 7 || f[2] != device || (f.len() > 9 && parse_u64(f[9]) is None)
            },
    ensures
        ({
            let f = whitespace_fields(lines[i]);
            (f.len() > 9 && f[2] == device && parse_u64(f[9]) is Some) ==> scan_stats(lines, device)
                == DiskStatsScan::Sectors(parse_u64(f[9])->0)
        }),
    decreases i,
{
    lemma_stats_line_reading(lines[0], device);
    if i > 0 {
        assert forall|j: int| 0 <= j < i - 1 implies {
            let f = #[trigger] whitespace_fields(lines.drop_first()[j]);
            f.len() <= 7 || f[2] != device || (f.len() > 9 && parse_u64(f[9]) is None)
        } by {
            assert(lines.drop_first()[j] == lines[j + 1]);
            let f = whitespace_fields(lines[j + 1]);
        }
        lemma_stats_first_record_decides(lines.drop_first(), device, i - 1);
        assert(lines.drop_first()[i - 1] == lines[i]);
    }
}

/// Statistics in which no line names the device give nothing.
pub proof fn lemma_stats_without_the_device(lines: Seq<Seq<char>>, device: Seq<char>)
    requires
        forall|j: int|
            0 <= j < lines.len() ==> {
                let f = #[trigger] whitespace_fields(lines[j]);
                f.len() <= 7 || f[2] != device
            },
    ensures
        scan_stats(lines, device) == DiskStatsScan::Absent,
    decreases lines.len(),
{
    if lines.len() > 0 {
        lemma_stats_line_reading(lines[0], device);
        assert forall|j: int| 0 <= j < lines.len() - 1 implies {
            let f = #[trigger] whitespace_fields(lines.drop_first()[j]);
            f.len() <= 7 || f[2] != device
        } by {
            assert(lines.drop_first()[j] == lines[j + 1]);
            let f = whitespace_fields(lines[j + 1]);
        }
        lemma_stats_without_the_device(lines.drop_first(), device);
    }
}

/// The bytes written between two samples: the growth of the figure, or 0
/// where it went down.
pub fn telemetry_delta(last_bytes: u64, current_bytes: u64) -> (delta: u64)
    ensures
        delta == if current_bytes >= last_bytes {
            current_bytes - last_bytes
        } else {
            0
        },
{
    if current_bytes >= last_bytes {
        current_bytes - last_bytes
    } else {
        0
    }
}

} // verus!
