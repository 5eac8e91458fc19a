//! The database page scraper: it samples the cells of one page of the
//! memory-mapped database file and, for each cell that holds the marker
//! byte, fills the next free slot of the output ring with a descriptor.
//!
//! The page is read and the ring is written by the caller; this module
//! decides which descriptors go to which slots, and how the ring's head moves.

use vstd::prelude::*;

verus! {

/// First byte of the memory-mapped database file.
pub const DB_MMAP_BASE: u64 = 0x7000_0000;
/// Size in bytes of the memory-mapped database file.
pub const DB_MMAP_SIZE: u64 = 64 * 1024 * 1024;
/// One past the last byte of the memory-mapped database file.
pub const DB_MMAP_END: u64 = DB_MMAP_BASE + DB_MMAP_SIZE;

/// First byte of the output ring of descriptors.
pub const SCRAPE_RING_BASE: u64 = 0x7800_0000;
/// Size in bytes of the output ring of descriptors.
pub const SCRAPE_RING_SIZE: u64 = 1 * 1024 * 1024;
/// One past the last byte of the output ring of descriptors.
pub const SCRAPE_RING_END: u64 = SCRAPE_RING_BASE + SCRAPE_RING_SIZE;

/// Size in bytes of one database page.
pub const DB_PAGE_SIZE: u32 = 4096;
/// Distance in bytes between two consecutive slots of the output ring.
pub const RING_ENTRY_STRIDE: u64 = 32;
/// Number of slots the output ring holds.
pub const MAX_SCRAPE_ENTRIES: u32 = 32768;

/// Distance in bytes between two sampled cells of a page.
pub const CELL_STRIDE: u64 = 16;
/// Number of cells sampled in one page.
pub const CELLS_PER_PAGE: usize = 256;
/// Length that every extracted record is given.
pub const RECORD_DATA_LEN: u64 = 128;
/// Record identifiers of consecutive pages are this far apart.
pub const RECORD_ID_PAGE_SPAN: u64 = 10000;
/// Alignment in bytes of every descriptor slot.
pub const DESCRIPTOR_ALIGN: u64 = 8;

/// A record found in a page, as it is written into a ring slot.
#[derive(Clone, Copy, Debug, PartialEq, Eq, Structural)]
pub struct ScrapedRecordDescriptor {
    pub record_id: u64,
    pub absolute_data_offset: u64,
    pub data_len: u64,
    pub valid_flag: u64,
}

/// Producer and consumer positions of the output ring. The ring is full when
/// advancing `head` would make it equal to `tail`.
#[derive(Clone, Copy, Debug, PartialEq, Eq, Structural)]
pub struct ScraperControlRing {
    pub head: u32,
    pub tail: u32,
}

/// One descriptor that goes into one slot of the output ring.
#[derive(Clone, Copy, Debug, PartialEq, Eq, Structural)]
pub struct RingSlotWrite {
    pub slot: u32,
    pub address: u64,
    pub descriptor: ScrapedRecordDescriptor,
}

/// Why a page could not be scraped.
#[derive(Clone, Copy, Debug, PartialEq, Eq, Structural)]
pub enum ScrapeError {
    /// The page lies (partly) outside the memory-mapped file.
    PageOutOfBounds,
    /// The ring's head caught up with its tail before the page was done.
    RingSaturated,
}

/// What scraping a page did: its result, and the descriptors to be written
/// into the ring, in order (also those written before the ring saturated).
pub struct ScrapeOutcome {
    pub result: Result<u32, ScrapeError>,
    pub writes: Vec<RingSlotWrite>,
}

/// The state of a scan after a prefix of the page's cells.
pub ghost struct ScanState {
    pub head: int,
    pub count: nat,
    pub writes: Seq<RingSlotWrite>,
    pub saturated: bool,
}

pub open spec fn page_in_bounds(file_page_index: u32) -> bool {
    DB_MMAP_BASE + file_page_index * DB_PAGE_SIZE + DB_PAGE_SIZE <= DB_MMAP_END
}

pub open spec fn page_address(file_page_index: u32) -> int {
    DB_MMAP_BASE + file_page_index * DB_PAGE_SIZE
}

pub open spec fn cell_address(file_page_index: u32, k: int) -> int {
    page_address(file_page_index) + k * CELL_STRIDE
}

pub open spec fn ring_successor(head: int) -> int {
    (head + 1) % (MAX_SCRAPE_ENTRIES as int)
}

pub open spec fn slot_address(slot: int) -> int {
    SCRAPE_RING_BASE + slot * RING_ENTRY_STRIDE
}

/// The descriptor of the `j`-th record of a page, found at cell `k`.
pub open spec fn record_descriptor(file_page_index: u32, j: int, k: int) -> ScrapedRecordDescriptor {
    ScrapedRecordDescriptor {
        record_id: (file_page_index * RECORD_ID_PAGE_SPAN + j) as u64,
        absolute_data_offset: cell_address(file_page_index, k) as u64,
        data_len: RECORD_DATA_LEN,
        valid_flag: 1,
    }
}

pub open spec fn slot_write(file_page_index: u32, slot: int, j: int, k: int) -> RingSlotWrite {
    RingSlotWrite {
        slot: slot as u32,
        address: slot_address(slot) as u64,
        descriptor: record_descriptor(file_page_index, j, k),
    }
}

/// The scan over the cells `cells` of page `file_page_index`, one cell at a
/// time: a cell that holds `marker` fills the slot at the head and advances
/// the head, unless advancing it would reach the tail, which stops the scan.
pub open spec fn scan_cells(
    ring: ScraperControlRing,
    file_page_index: u32,
    marker: u8,
    cells: Seq<u8>,
) -> ScanState
    decreases cells.len(),
{
    if cells.len() == 0 {
        ScanState { head: ring.head as int, count: 0, writes: seq![], saturated: false }
    } else {
        let prev = scan_cells(ring, file_page_index, marker, cells.drop_last());
        let k = cells.len() - 1;
        if prev.saturated || cells.last() != marker {
            prev
        } else if ring_successor(prev.head) == ring.tail {
            ScanState { saturated: true, ..prev }
        } else {
            ScanState {
                head: ring_successor(prev.head),
                count: prev.count + 1,
                writes: prev.writes.push(slot_write(file_page_index, prev.head, prev.count as int, k)),
                saturated: false,
            }
        }
    }
}

/// The scan runs without fault: the head lies inside the ring, or no cell
/// holds the marker, or the first marked cell finds the ring full.
pub open spec fn scan_is_defined(ring: ScraperControlRing, marker: u8, cells: Seq<u8>) -> bool {
    ||| ring.head < MAX_SCRAPE_ENTRIES
    ||| !cells.contains(marker)
    ||| (ring.head < u32::MAX && ring_successor(ring.head as int) == ring.tail)
}

/// How many of `cells` hold `marker`.
pub open spec fn marker_count(cells: Seq<u8>, marker: u8) -> nat
    decreases cells.len(),
{
    if cells.len() == 0 {
        0
    } else {
        marker_count(cells.drop_last(), marker) + if cells.last() == marker {
            1nat
        } else {
            0nat
        }
    }
}

/// How many slots can be filled before advancing the head would reach the
/// tail (a tail outside the ring is never reached).
pub open spec fn ring_room(ring: ScraperControlRing) -> int {
    if ring.tail < MAX_SCRAPE_ENTRIES {
        (ring.tail - ring.head - 1 + MAX_SCRAPE_ENTRIES) % (MAX_SCRAPE_ENTRIES as int)
    } else {
        MAX_SCRAPE_ENTRIES as int
    }
}

/// `offset` is the address of the cell of page `file_page_index` that is the
/// `j`-th (from 0) of `cells` to hold `marker`.
pub open spec fn offset_of_jth_marked_cell(
    file_page_index: u32,
    marker: u8,
    cells: Seq<u8>,
    j: int,
    offset: int,
) -> bool {
    exists|k: int|
        0 <= k < cells.len() && #[trigger] cells[k] == marker && marker_count(cells.take(k), marker)
            == j && offset == cell_address(file_page_index, k)
}

impl ScraperControlRing {
    /// The head designates a slot of the ring.
    pub open spec fn well_formed(self) -> bool {
        self.head < MAX_SCRAPE_ENTRIES
    }
}

impl ScrapeError {
    /// The diagnostic text of the error.
    pub fn message(&self) -> (text: &'static str)
        ensures
            *self == ScrapeError::PageOutOfBounds ==> text@
                == "FAIL: Targeted DB Page allocation exceeds current memory-mapped file bounds"@,
            *self == ScrapeError::RingSaturated ==> text@
                == "FAIL: Output Extraction Ring Buffer is entirely saturated (Head caught Tail)"@,
    {
        match self {
            ScrapeError::PageOutOfBounds =>
                "FAIL: Targeted DB Page allocation exceeds current memory-mapped file bounds",
            ScrapeError::RingSaturated =>
                "FAIL: Output Extraction Ring Buffer is entirely saturated (Head caught Tail)",
        }
    }
}

/// The address of page `file_page_index` of the database file, if the whole
/// page lies inside the file.
pub fn database_page_address(file_page_index: u32) -> (r: Result<u64, ScrapeError>)
    ensures
        r is Ok <==> page_in_bounds(file_page_index),
        r is Ok <==> file_page_index < DB_MMAP_SIZE / (DB_PAGE_SIZE as u64),
        r matches Ok(addr) ==> addr == page_address(file_page_index),
        r matches Err(e) ==> e == ScrapeError::PageOutOfBounds,
{
    let page_byte_offset: u64 = (file_page_index as u64) * (DB_PAGE_SIZE as u64);
    assert(page_byte_offset <= 0xffff_ffffu64 * 4096) by (nonlinear_arith)
        requires
            page_byte_offset == file_page_index * 4096,
            file_page_index <= 0xffff_ffffu64,
    ;
    let absolute_page_addr: u64 = DB_MMAP_BASE + page_byte_offset;
    let page_end_addr: u64 = absolute_page_addr + (DB_PAGE_SIZE as u64);
    if page_end_addr > DB_MMAP_END {
        return Err(ScrapeError::PageOutOfBounds);
    }
    Ok(absolute_page_addr)
}

proof fn lemma_take_step(cells: Seq<u8>, k: int)
    requires
        0 <= k < cells.len(),
    ensures
        cells.take(k + 1).drop_last() == cells.take(k),
        cells.take(k + 1).last() == cells[k],
        cells.take(k + 1).len() == k + 1,
{
    assert(cells.take(k + 1).drop_last() =~= cells.take(k));
}

/// Once a scan saturates, the cells after that point change nothing.
proof fn lemma_saturation_is_final(
    ring: ScraperControlRing,
    file_page_index: u32,
    marker: u8,
    cells: Seq<u8>,
    j: int,
    n: int,
)
    requires
        0 <= j <= n <= cells.len(),
        scan_cells(ring, file_page_index, marker, cells.take(j)).saturated,
    ensures
        scan_cells(ring, file_page_index, marker, cells.take(n)) == scan_cells(
            ring,
            file_page_index,
            marker,
            cells.take(j),
        ),
    decreases n - j,
{
    if n > j {
        lemma_saturation_is_final(ring, file_page_index, marker, cells, j, n - 1);
        lemma_take_step(cells, n - 1);
    }
}

/// Everything the scan keeps true, by induction over the cells.
proof fn lemma_scan_invariant(
    ring: ScraperControlRing,
    file_page_index: u32,
    marker: u8,
    cells: Seq<u8>,
)
    requires
        ring.well_formed(),
        cells.len() <= CELLS_PER_PAGE,
    ensures
        ({
            let s = scan_cells(ring, file_page_index, marker, cells);
            let mc = marker_count(cells, marker);
            let room = ring_room(ring);
            &&& s.count == s.writes.len()
            &&& s.count <= cells.len()
            &&& s.head == (ring.head + s.count) % (MAX_SCRAPE_ENTRIES as int)
            &&& s.saturated == (mc > room)
            &&& s.count == if mc > room { room } else { mc as int }
            &&& forall|j: int|
                #![trigger s.writes[j]]
                0 <= j < s.count ==> {
                    let w = s.writes[j];
                    &&& w.slot == (ring.head + j) % (MAX_SCRAPE_ENTRIES as int)
                    &&& w.address == slot_address(w.slot as int)
                    &&& w.descriptor.record_id == file_page_index * RECORD_ID_PAGE_SPAN + j
                    &&& w.descriptor.data_len == RECORD_DATA_LEN
                    &&& w.descriptor.valid_flag == 1
                    &&& ring_successor(w.slot as int) != ring.tail
                    &&& offset_of_jth_marked_cell(
                        file_page_index,
                        marker,
                        cells,
                        j,
                        w.descriptor.absolute_data_offset as int,
                    )
                }
            &&& forall|i: int, j: int|
                #![trigger s.writes[i], s.writes[j]]
                0 <= i < j < s.count ==> s.writes[i].descriptor.absolute_data_offset
                    < s.writes[j].descriptor.absolute_data_offset
            &&& forall|j: int|
                #![trigger s.writes[j]]
                0 <= j < s.count ==> s.writes[j].descriptor.absolute_data_offset < cell_address(
                    file_page_index,
                    cells.len() as int,
                )
        }),
    decreases cells.len(),
{
    let m = MAX_SCRAPE_ENTRIES as int;
    if cells.len() > 0 {
        let prefix = cells.drop_last();
        let k = cells.len() - 1;
        lemma_scan_invariant(ring, file_page_index, marker, prefix);
        let prev = scan_cells(ring, file_page_index, marker, prefix);
        let s = scan_cells(ring, file_page_index, marker, cells);
        let room = ring_room(ring);
        assert forall|j: int| #![trigger prev.writes[j]] 0 <= j < prev.count implies offset_of_jth_marked_cell(
            file_page_index,
            marker,
            cells,
            j,
            prev.writes[j].descriptor.absolute_data_offset as int,
        ) by {
            let i = choose|i: int|
                0 <= i < prefix.len() && #[trigger] prefix[i] == marker
                    && marker_count(prefix.take(i), marker) == j
                    && prev.writes[j].descriptor.absolute_data_offset == cell_address(file_page_index, i);
            assert(cells[i] == prefix[i]);
            assert(cells.take(i) =~= prefix.take(i));
        }
        if !prev.saturated && cells.last() == marker && ring_successor(prev.head) != ring.tail {
            assert(cells.take(k) =~= prefix);
            assert(cells[k] == marker);
        }
        if !prev.saturated && cells.last() == marker {
            let h = ring.head as int;
            let c = prev.count as int;
            let t = ring.tail as int;
            assert(prev.head == (h + c) % m);
            assert(ring_successor(prev.head) == (h + c + 1) % m);
            assert((ring_successor(prev.head) == t) == (c == room)) by {
                if t >= m {
                } else if t > h {
                    assert(room == t - h - 1);
                    assert((h + c + 1) % m == h + c + 1);
                } else {
                    assert(room == t - h - 1 + m);
                    if h + c + 1 < m {
                        assert((h + c + 1) % m == h + c + 1);
                    } else {
                        assert((h + c + 1) % m == h + c + 1 - m);
                    }
                }
            }
            if ring_successor(prev.head) != t {
                let w = s.writes[c];
                assert(w == slot_write(file_page_index, prev.head, c, k));
                assert(cells[k] == marker);
                assert(cells.take(k) =~= prefix);
                assert(marker_count(cells.take(k), marker) == c);
                assert(prev.head < m);
                assert(w.slot == prev.head);
                assert(s.head == (h + c + 1) % m);
            }
        }
    }
}

/// A page lies inside the file exactly when it ends at or before the file's
/// end: pages 0 to 16383 of the 64 MiB file, and no others.
pub proof fn lemma_pages_inside_the_file(file_page_index: u32)
    ensures
        page_in_bounds(file_page_index) <==> DB_MMAP_BASE + file_page_index * DB_PAGE_SIZE
            + DB_PAGE_SIZE <= DB_MMAP_BASE + DB_MMAP_SIZE,
        page_in_bounds(file_page_index) <==> file_page_index < 16384,
        page_in_bounds(file_page_index) ==> page_address(file_page_index) == 0x7000_0000
            + file_page_index * 4096,
{
}

/// Scraping fills consecutive slots of the ring, starting at the head: the
/// `j`-th record found goes to slot `head + j` (modulo the ring's size), at
/// that slot's address, with record identifier `page * 10000 + j`; the head
/// ends up advanced by the number of records, and no slot is filled whose
/// successor is the tail, so the head never catches up with the tail.
pub proof fn lemma_scrape_fills_consecutive_slots(
    ring: ScraperControlRing,
    file_page_index: u32,
    marker: u8,
    cells: Seq<u8>,
)
    requires
        ring.well_formed(),
        cells.len() <= CELLS_PER_PAGE,
    ensures
        ({
            let s = scan_cells(ring, file_page_index, marker, cells);
            &&& s.count == s.writes.len()
            &&& s.head == (ring.head + s.count) % (MAX_SCRAPE_ENTRIES as int)
            &&& forall|j: int|
                #![trigger s.writes[j]]
                0 <= j < s.count ==> {
                    let w = s.writes[j];
                    &&& w.slot == (ring.head + j) % (MAX_SCRAPE_ENTRIES as int)
                    &&& w.address == slot_address(w.slot as int)
                    &&& w.descriptor.record_id == file_page_index * RECORD_ID_PAGE_SPAN + j
                    &&& w.descriptor.data_len == RECORD_DATA_LEN
                    &&& w.descriptor.valid_flag == 1
                    &&& ring_successor(w.slot as int) != ring.tail
                }
        }),
{
    lemma_scan_invariant(ring, file_page_index, marker, cells);
}

/// Every record points at a cell of the page that holds the marker: the
/// `j`-th record at the cell with exactly `j` marked cells before it. So the
/// records come in the order of their cells, and none is skipped.
pub proof fn lemma_scrape_records_point_at_marked_cells(
    ring: ScraperControlRing,
    file_page_index: u32,
    marker: u8,
    cells: Seq<u8>,
)
    requires
        ring.well_formed(),
        cells.len() <= CELLS_PER_PAGE,
    ensures
        ({
            let s = scan_cells(ring, file_page_index, marker, cells);
            &&& forall|j: int|
                #![trigger s.writes[j]]
                0 <= j < s.count ==> offset_of_jth_marked_cell(
                    file_page_index,
                    marker,
                    cells,
                    j,
                    s.writes[j].descriptor.absolute_data_offset as int,
                )
            &&& forall|i: int, j: int|
                #![trigger s.writes[i], s.writes[j]]
                0 <= i < j < s.count ==> s.writes[i].descriptor.absolute_data_offset
                    < s.writes[j].descriptor.absolute_data_offset
        }),
{
    lemma_scan_invariant(ring, file_page_index, marker, cells);
}

/// The ring saturates exactly when the page holds more marked cells than the
/// ring has room for; the number of records placed is the smaller of the two.
pub proof fn lemma_scrape_saturates_exactly_when_room_runs_out(
    ring: ScraperControlRing,
    file_page_index: u32,
    marker: u8,
    cells: Seq<u8>,
)
    requires
        ring.well_formed(),
        cells.len() <= CELLS_PER_PAGE,
    ensures
        ({
            let s = scan_cells(ring, file_page_index, marker, cells);
            let found = marker_count(cells, marker);
            &&& s.saturated <==> found > ring_room(ring)
            &&& s.count == if found > ring_room(ring) { ring_room(ring) } else { found as int }
        }),
{
    lemma_scan_invariant(ring, file_page_index, marker, cells);
}

/// Every slot of the ring lies inside the ring's partition, aligned; every
/// sampled cell of a page inside the file lies inside that page; and the ring's
/// partition does not overlap the file, so the descriptors written never
/// change the cells read.
pub proof fn lemma_scrape_addresses_stay_in_their_partitions(
    file_page_index: u32,
    slot: int,
    k: int,
)
    requires
        0 <= slot < MAX_SCRAPE_ENTRIES,
        page_in_bounds(file_page_index),
        0 <= k < CELLS_PER_PAGE,
    ensures
        SCRAPE_RING_BASE <= slot_address(slot),
        slot_address(slot) + RING_ENTRY_STRIDE <= SCRAPE_RING_END,
        slot_address(slot) % (DESCRIPTOR_ALIGN as int) == 0,
        page_address(file_page_index) <= cell_address(file_page_index, k),
        cell_address(file_page_index, k) < page_address(file_page_index) + DB_PAGE_SIZE,
        DB_MMAP_BASE <= cell_address(file_page_index, k) < DB_MMAP_END,
        DB_MMAP_END <= SCRAPE_RING_BASE,
        slot_address(slot) == 0x7800_0000 + 32 * slot,
        cell_address(file_page_index, k) == 0x7000_0000 + 4096 * file_page_index + 16 * k,
{
}

/// Scrapes page `file_page_index`, whose sampled cells are `page_cells`
/// (cell `k` is the byte at `CELL_STRIDE * k` past the page's start).
///
/// For each cell that holds `target_magic_marker`, in order, the descriptor
/// of the next record goes to the slot at the ring's head and the head
/// advances; the result is the number of records found. If advancing the head
/// would make it equal to the tail, scraping stops with `RingSaturated`, the
/// descriptors already placed kept. A page outside the file is refused with
/// `PageOutOfBounds` and nothing changes.
pub fn scrape_database_page_block(
    control_ring: &mut ScraperControlRing,
    file_page_index: u32,
    target_magic_marker: u8,
    page_cells: &[u8],
) -> (outcome: ScrapeOutcome)
    requires
        page_in_bounds(file_page_index) ==> page_cells@.len() == CELLS_PER_PAGE,
        page_in_bounds(file_page_index) ==> scan_is_defined(
            *old(control_ring),
            target_magic_marker,
            page_cells@,
        ),
    ensures
        file_page_index < 16384 ==> outcome.result != Err::<u32, ScrapeError>(
            ScrapeError::PageOutOfBounds,
        ),
        file_page_index >= 16384 ==> outcome.result == Err::<u32, ScrapeError>(
            ScrapeError::PageOutOfBounds,
        ),
        !page_in_bounds(file_page_index) ==> {
            &&& outcome.result == Err::<u32, ScrapeError>(ScrapeError::PageOutOfBounds)
            &&& outcome.writes@.len() == 0
            &&& *final(control_ring) == *old(control_ring)
        },
        page_in_bounds(file_page_index) ==> {
            let s = scan_cells(*old(control_ring), file_page_index, target_magic_marker, page_cells@);
            &&& final(control_ring).head == s.head
            &&& final(control_ring).tail == old(control_ring).tail
            &&& outcome.writes@ == s.writes
            &&& outcome.result == if s.saturated {
                Err::<u32, ScrapeError>(ScrapeError::RingSaturated)
            } else {
                Ok::<u32, ScrapeError>(s.count as u32)
            }
        },
        old(control_ring).well_formed() ==> final(control_ring).well_formed(),
{
    let ghost ring0 = *control_ring;
    proof {
        if ring0.well_formed() && page_in_bounds(file_page_index) {
            lemma_scan_invariant(ring0, file_page_index, target_magic_marker, page_cells@);
        }
    }
    let page_addr = match database_page_address(file_page_index) {
        Ok(a) => a,
        Err(e) => {
            return ScrapeOutcome { result: Err(e), writes: Vec::new() };
        },
    };
    let mut writes: Vec<RingSlotWrite> = Vec::new();
    let mut extraction_count: u32 = 0;
    let mut k: usize = 0;
    while k < CELLS_PER_PAGE
        invariant
            page_in_bounds(file_page_index),
            ring0 == *old(control_ring),
            page_addr == page_address(file_page_index),
            page_cells@.len() == CELLS_PER_PAGE,
            scan_is_defined(ring0, target_magic_marker, page_cells@),
            0 <= k <= CELLS_PER_PAGE,
            extraction_count <= k,
            control_ring.tail == ring0.tail,
            extraction_count == 0 ==> control_ring.head == ring0.head,
            extraction_count > 0 ==> control_ring.head < MAX_SCRAPE_ENTRIES,
            extraction_count == 0 && ring0.head >= MAX_SCRAPE_ENTRIES ==> !page_cells@.take(
                k as int,
            ).contains(target_magic_marker),
            scan_cells(ring0, file_page_index, target_magic_marker, page_cells@.take(k as int))
                == (ScanState {
                head: control_ring.head as int,
                count: extraction_count as nat,
                writes: writes@,
                saturated: false,
            }),
        decreases CELLS_PER_PAGE - k,
    {
        proof {
            lemma_take_step(page_cells@, k as int);
        }
        let cell = page_cells[k];
        if cell == target_magic_marker {
            proof {
                if extraction_count == 0 && ring0.head >= MAX_SCRAPE_ENTRIES {
                    assert(page_cells@.contains(target_magic_marker)) by {
                        assert(page_cells@[k as int] == target_magic_marker);
                    }
                }
            }
            let next_head: u32 = (control_ring.head + 1) % MAX_SCRAPE_ENTRIES;
            if next_head == control_ring.tail {
                proof {
                    lemma_saturation_is_final(
                        ring0,
                        file_page_index,
                        target_magic_marker,
                        page_cells@,
                        k + 1,
                        CELLS_PER_PAGE as int,
                    );
                    assert(page_cells@.take(CELLS_PER_PAGE as int) =~= page_cells@);
                }
                return ScrapeOutcome { result: Err(ScrapeError::RingSaturated), writes };
            }
            let slot: u32 = control_ring.head;
            let address: u64 = SCRAPE_RING_BASE + (slot as u64) * RING_ENTRY_STRIDE;
            let record_id: u64 = (file_page_index as u64) * RECORD_ID_PAGE_SPAN
                + (extraction_count as u64);
            let data_offset: u64 = page_addr + (k as u64) * CELL_STRIDE;
            let descriptor = ScrapedRecordDescriptor {
                record_id,
                absolute_data_offset: data_offset,
                data_len: RECORD_DATA_LEN,
                valid_flag: 1,
            };
            writes.push(RingSlotWrite { slot, address, descriptor });
            control_ring.head = next_head;
            extraction_count = extraction_count + 1;
        } else {
            proof {
                if extraction_count == 0 && ring0.head >= MAX_SCRAPE_ENTRIES {
                    assert(!page_cells@.take(k + 1).contains(target_magic_marker)) by {
                        if page_cells@.take(k + 1).contains(target_magic_marker) {
                            let i = choose|i: int|
                                0 <= i < k + 1 && #[trigger] page_cells@.take(k + 1)[i] == target_magic_marker;
                            if i < k {
                                assert(page_cells@.take(k as int)[i] == target_magic_marker);
                            }
                        }
                    }
                }
            }
        }
        k = k + 1;
    }
    proof {
        assert(page_cells@.take(CELLS_PER_PAGE as int) =~= page_cells@);
    }
    ScrapeOutcome { result: Ok(extraction_count), writes }
}

} // verus!
