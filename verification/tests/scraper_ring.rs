use native_high_performance::scraper::{
    database_page_address, scrape_database_page_block, RingSlotWrite, ScrapeError,
    ScrapedRecordDescriptor, ScraperControlRing, CELLS_PER_PAGE, DB_MMAP_END, SCRAPE_RING_BASE,
    SCRAPE_RING_END,
};

fn page_with_markers(marker: u8, at: &[usize]) -> Vec<u8> {
    let mut cells = vec![0u8; CELLS_PER_PAGE];
    for &k in at {
        cells[k] = marker;
    }
    cells
}

fn write(slot: u32, record_id: u64, offset: u64) -> RingSlotWrite {
    RingSlotWrite {
        slot,
        address: 0x7800_0000 + slot as u64 * 32,
        descriptor: ScrapedRecordDescriptor {
            record_id,
            absolute_data_offset: offset,
            data_len: 128,
            valid_flag: 1,
        },
    }
}

#[test]
fn page_addresses_inside_the_file() {
    assert_eq!(database_page_address(0), Ok(0x7000_0000));
    assert_eq!(database_page_address(1), Ok(0x7000_1000));
    assert_eq!(database_page_address(16383), Ok(0x73FF_F000));
    assert_eq!(database_page_address(16383).unwrap() + 4096, DB_MMAP_END);
}

#[test]
fn pages_past_the_file_are_refused() {
    assert_eq!(database_page_address(16384), Err(ScrapeError::PageOutOfBounds));
    assert_eq!(database_page_address(u32::MAX), Err(ScrapeError::PageOutOfBounds));
    let mut ring = ScraperControlRing { head: 3, tail: 9 };
    let out = scrape_database_page_block(&mut ring, 20000, 0xAB, &[]);
    assert_eq!(out.result, Err(ScrapeError::PageOutOfBounds));
    assert!(out.writes.is_empty());
    assert_eq!(ring, ScraperControlRing { head: 3, tail: 9 });
    assert_eq!(
        ScrapeError::PageOutOfBounds.message(),
        "FAIL: Targeted DB Page allocation exceeds current memory-mapped file bounds"
    );
}

#[test]
fn page_without_markers_yields_nothing() {
    let mut ring = ScraperControlRing { head: 10, tail: 4 };
    let cells = page_with_markers(0xAB, &[]);
    let out = scrape_database_page_block(&mut ring, 2, 0xAB, &cells);
    assert_eq!(out.result, Ok(0));
    assert!(out.writes.is_empty());
    assert_eq!(ring, ScraperControlRing { head: 10, tail: 4 });
}

#[test]
fn markers_fill_consecutive_slots() {
    let mut ring = ScraperControlRing { head: 0, tail: 0 };
    let cells = page_with_markers(0xAB, &[3, 10, 255]);
    let out = scrape_database_page_block(&mut ring, 7, 0xAB, &cells);
    let page = 0x7000_0000u64 + 7 * 4096;
    assert_eq!(out.result, Ok(3));
    assert_eq!(
        out.writes,
        vec![
            write(0, 70000, page + 3 * 16),
            write(1, 70001, page + 10 * 16),
            write(2, 70002, page + 255 * 16),
        ]
    );
    assert_eq!(ring, ScraperControlRing { head: 3, tail: 0 });
}

#[test]
fn ring_saturation_stops_the_scan() {
    let mut ring = ScraperControlRing { head: 5, tail: 7 };
    let cells = page_with_markers(0x5A, &[1, 2, 3]);
    let out = scrape_database_page_block(&mut ring, 0, 0x5A, &cells);
    assert_eq!(out.result, Err(ScrapeError::RingSaturated));
    assert_eq!(out.writes, vec![write(5, 0, 0x7000_0000 + 16)]);
    assert_eq!(ring, ScraperControlRing { head: 6, tail: 7 });
    assert_eq!(
        ScrapeError::RingSaturated.message(),
        "FAIL: Output Extraction Ring Buffer is entirely saturated (Head caught Tail)"
    );
}

#[test]
fn head_wraps_around_the_ring() {
    let mut ring = ScraperControlRing { head: 32767, tail: 5 };
    let cells = page_with_markers(1, &[0, 1]);
    let out = scrape_database_page_block(&mut ring, 1, 1, &cells);
    let page = 0x7000_1000u64;
    assert_eq!(out.result, Ok(2));
    assert_eq!(out.writes, vec![write(32767, 10000, page), write(0, 10001, page + 16)]);
    assert_eq!(ring.head, 1);
    let last = out.writes[0].address;
    assert_eq!(last + 32, SCRAPE_RING_END);
    assert!(out.writes[1].address >= SCRAPE_RING_BASE);
}

#[test]
fn full_ring_refuses_the_first_record() {
    let mut ring = ScraperControlRing { head: 32767, tail: 0 };
    let cells = page_with_markers(9, &[4]);
    let out = scrape_database_page_block(&mut ring, 3, 9, &cells);
    assert_eq!(out.result, Err(ScrapeError::RingSaturated));
    assert!(out.writes.is_empty());
    assert_eq!(ring.head, 32767);
}

#[test]
fn records_placed_are_bounded_by_the_room_left() {
    // Room for two records between head 100 and tail 103.
    let mut ring = ScraperControlRing { head: 100, tail: 103 };
    let all: Vec<usize> = (0..CELLS_PER_PAGE).collect();
    let cells = page_with_markers(0xFF, &all);
    let out = scrape_database_page_block(&mut ring, 4, 0xFF, &cells);
    assert_eq!(out.result, Err(ScrapeError::RingSaturated));
    assert_eq!(out.writes.len(), 2);
    assert_eq!(ring.head, 102);
    // A tail outside the ring is never reached.
    let mut open_ring = ScraperControlRing { head: 0, tail: 40000 };
    let out = scrape_database_page_block(&mut open_ring, 4, 0xFF, &cells);
    assert_eq!(out.result, Ok(256));
    assert_eq!(open_ring.head, 256);
}
