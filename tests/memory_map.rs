use efi_shell::memory_map::{
    decode_memory_map, enumerate_usable_memory, map_buffer_len, memory_map_report, MapError,
    MemoryRegion, UsableRange, CONVENTIONAL, MAP_MARGIN,
};

const DESC_SIZE: usize = 48;

/// A firmware stand-in: it knows its regions and fills a caller's buffer the
/// way the boot services do.
struct StubFirmware {
    regions: Vec<MemoryRegion>,
}

impl StubFirmware {
    fn map_size(&self) -> usize {
        self.regions.len() * DESC_SIZE
    }

    /// Writes the map if it fits, and reports the size the map needs.
    fn fetch(&self, buf: &mut [u8]) -> usize {
        let needed = self.map_size();
        if needed <= buf.len() {
            for (i, r) in self.regions.iter().enumerate() {
                let d = &mut buf[i * DESC_SIZE..(i + 1) * DESC_SIZE];
                d.fill(0xAA);
                d[0..4].copy_from_slice(&r.ty.to_le_bytes());
                d[4..8].copy_from_slice(&[0; 4]);
                d[8..16].copy_from_slice(&r.phys_start.to_le_bytes());
                d[16..24].copy_from_slice(&0u64.to_le_bytes());
                d[24..32].copy_from_slice(&r.page_count.to_le_bytes());
                d[32..40].copy_from_slice(&0xFu64.to_le_bytes());
            }
        }
        needed
    }
}

fn region(ty: u32, phys_start: u64, page_count: u64) -> MemoryRegion {
    MemoryRegion { ty, phys_start, page_count }
}

fn sample() -> StubFirmware {
    StubFirmware {
        regions: vec![
            region(3, 0x0, 1),
            region(CONVENTIONAL, 0x1000, 0x9F),
            region(0, 0xA0000, 0x60),
            region(CONVENTIONAL, 0x10_0000, 0x700),
            region(4, 0x80_0000, 0x10),
        ],
    }
}

fn run(fw: &StubFirmware, hint: usize) -> Result<efi_shell::memory_map::MemoryMapReport, MapError> {
    let len = map_buffer_len(hint).unwrap();
    let mut buf = vec![0u8; len];
    let map_size = fw.fetch(&mut buf);
    enumerate_usable_memory(&buf, map_size, DESC_SIZE)
}

#[test]
fn report_counts_all_and_lists_usable() {
    let fw = sample();
    let report = run(&fw, fw.map_size()).unwrap();
    assert_eq!(report.total, 5);
    assert_eq!(report.usable.len(), 2);
    assert_eq!(
        report.usable[0],
        UsableRange { ty: CONVENTIONAL, start: 0x1000, end: 0xA0000, page_count: 0x9F, size_kib: 636 }
    );
    assert_eq!(
        report.usable[1],
        UsableRange { ty: CONVENTIONAL, start: 0x10_0000, end: 0x80_0000, page_count: 0x700, size_kib: 7168 }
    );
    for r in &report.usable {
        assert_eq!(r.end, r.start + r.page_count * 4096);
        assert_eq!(r.size_kib, r.page_count * 4096 / 1024);
    }
}

#[test]
fn map_with_no_usable_region() {
    let fw = StubFirmware { regions: vec![region(1, 0, 4), region(2, 0x4000, 4)] };
    let report = run(&fw, fw.map_size()).unwrap();
    assert_eq!(report.total, 2);
    assert!(report.usable.is_empty());
}

#[test]
fn stale_hint_within_margin_still_fits() {
    let mut fw = sample();
    let hint = fw.map_size();
    fw.regions.push(region(CONVENTIONAL, 0x100_0000, 2));
    assert!(fw.map_size() <= hint + MAP_MARGIN);
    let report = run(&fw, hint).unwrap();
    assert_eq!(report.total, 6);
    assert_eq!(report.usable.len(), 3);
    assert_eq!(report.usable[2].end, 0x100_2000);
    assert_eq!(report.usable[2].size_kib, 8);
}

#[test]
fn growth_beyond_margin_is_buffer_too_small() {
    let mut fw = sample();
    let hint = fw.map_size();
    fw.regions.push(region(CONVENTIONAL, 0x100_0000, 2));
    fw.regions.push(region(CONVENTIONAL, 0x200_0000, 2));
    assert_eq!(
        run(&fw, hint).unwrap_err(),
        MapError::BufferTooSmall { required: 7 * DESC_SIZE, available: hint + MAP_MARGIN }
    );
}

#[test]
fn buffer_smaller_than_map_is_refused() {
    let fw = sample();
    let mut buf = vec![0u8; 100];
    let map_size = fw.fetch(&mut buf);
    assert_eq!(
        decode_memory_map(&buf, map_size, DESC_SIZE).unwrap_err(),
        MapError::BufferTooSmall { required: 240, available: 100 }
    );
}

#[test]
fn decode_reads_each_descriptor_at_its_stride() {
    let fw = sample();
    let mut buf = vec![0u8; fw.map_size()];
    let map_size = fw.fetch(&mut buf);
    assert_eq!(decode_memory_map(&buf, map_size, DESC_SIZE).unwrap(), fw.regions);
}

#[test]
fn short_descriptor_stride_is_refused() {
    let buf = vec![0u8; 64];
    assert_eq!(
        decode_memory_map(&buf, 64, 32).unwrap_err(),
        MapError::BadDescriptorSize { desc_size: 32 }
    );
}

#[test]
fn empty_map_is_refused() {
    let fw = StubFirmware { regions: Vec::new() };
    assert_eq!(run(&fw, 0).unwrap_err(), MapError::EmptyMap);
}

#[test]
fn region_past_address_space_is_refused() {
    let regions = vec![region(CONVENTIONAL, u64::MAX - 0xFFF, 2)];
    assert_eq!(memory_map_report(&regions).unwrap_err(), MapError::AddressOverflow);
    let regions = vec![region(CONVENTIONAL, 0, u64::MAX / 2)];
    assert_eq!(memory_map_report(&regions).unwrap_err(), MapError::AddressOverflow);
}

#[test]
fn region_ending_at_top_of_address_space_is_kept() {
    let regions = vec![region(0, 0, 1), region(CONVENTIONAL, u64::MAX - 0xFFF - 0x1000, 1)];
    let report = memory_map_report(&regions).unwrap();
    assert_eq!(report.total, 2);
    assert_eq!(report.usable[0].end, u64::MAX - 0xFFF);
    let unusable_overflow = vec![region(5, u64::MAX, 10)];
    assert!(memory_map_report(&unusable_overflow).unwrap().usable.is_empty());
}

#[test]
fn buffer_len_adds_margin() {
    assert_eq!(map_buffer_len(100), Some(164));
    assert_eq!(map_buffer_len(0), Some(MAP_MARGIN));
    assert_eq!(map_buffer_len(usize::MAX), None);
    assert_eq!(map_buffer_len(usize::MAX - 64), Some(usize::MAX));
}
