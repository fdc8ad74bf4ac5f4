//! The firmware memory map: walking the raw descriptor buffer that the firmware
//! filled, and reducing it to the usable (conventional) ranges.
use vstd::prelude::*;

verus! {

/// Size in bytes of one page of physical memory, as the firmware counts them.
pub const PAGE_SIZE: u64 = 4096;

/// Bytes added to the firmware's size hint when the buffer is allocated, so that
/// a map that grew between the size query and the fetch still fits.
pub const MAP_MARGIN: usize = 64;

/// Region type of conventional memory, free for general use.
pub const CONVENTIONAL: u32 = 7;

/// Bytes of one descriptor as laid out by the firmware: type (u32), padding,
/// physical start, virtual start, page count, attributes (each u64).
pub const DESCRIPTOR_LEN: usize = 40;

/// One region of physical memory, as the firmware reports it.
#[derive(Clone, Copy, Debug, PartialEq, Eq, Structural)]
pub struct MemoryRegion {
    pub ty: u32,
    pub phys_start: u64,
    pub page_count: u64,
}

/// A usable region in the form the report lists it.
#[derive(Clone, Copy, Debug, PartialEq, Eq, Structural)]
pub struct UsableRange {
    pub ty: u32,
    pub start: u64,
    pub end: u64,
    pub page_count: u64,
    pub size_kib: u64,
}

/// What `memorymap` prints: the number of all regions, and the usable ones in
/// firmware order.
#[derive(Debug)]
pub struct MemoryMapReport {
    pub total: usize,
    pub usable: Vec<UsableRange>,
}

#[derive(Clone, Copy, Debug, PartialEq, Eq, Structural)]
pub enum MapError {
    /// The firmware needs `required` bytes for the map; the buffer has `available`.
    BufferTooSmall { required: usize, available: usize },
    /// The firmware reported a descriptor stride shorter than a descriptor.
    BadDescriptorSize { desc_size: usize },
    /// The firmware reported no region at all.
    EmptyMap,
    /// A usable region ends beyond the 64-bit address space.
    AddressOverflow,
}

pub open spec fn le_u32(b: Seq<u8>, off: int) -> u32 {
    (b[off] as u32) | ((b[off + 1] as u32) << 8u32) | ((b[off + 2] as u32) << 16u32) | ((
    b[off + 3] as u32) << 24u32)
}

pub open spec fn le_u64(b: Seq<u8>, off: int) -> u64 {
    (b[off] as u64) | ((b[off + 1] as u64) << 8u64) | ((b[off + 2] as u64) << 16u64) | ((
    b[off + 3] as u64) << 24u64) | ((b[off + 4] as u64) << 32u64) | ((b[off + 5] as u64)
        << 40u64) | ((b[off + 6] as u64) << 48u64) | ((b[off + 7] as u64) << 56u64)
}

/// The descriptor that starts at byte `off` of the buffer.
pub open spec fn region_at(b: Seq<u8>, off: int) -> MemoryRegion {
    MemoryRegion {
        ty: le_u32(b, off),
        phys_start: le_u64(b, off + 8),
        page_count: le_u64(b, off + 24),
    }
}

/// The descriptors of a map of `map_size` bytes with stride `desc_size`.
pub open spec fn regions_of(b: Seq<u8>, map_size: nat, desc_size: nat) -> Seq<MemoryRegion>
    recommends
        desc_size > 0,
{
    Seq::new(map_size / desc_size, |i: int| region_at(b, i * desc_size))
}

/// When the firmware's answer cannot be walked, and why.
pub open spec fn decode_error(buf_len: nat, map_size: nat, desc_size: nat) -> Option<MapError> {
    if map_size > buf_len {
        Some(MapError::BufferTooSmall { required: map_size as usize, available: buf_len as usize })
    } else if desc_size < DESCRIPTOR_LEN {
        Some(MapError::BadDescriptorSize { desc_size: desc_size as usize })
    } else {
        None
    }
}

/// End address of a region, one past its last byte.
pub open spec fn region_end(r: MemoryRegion) -> int {
    r.phys_start + r.page_count * PAGE_SIZE
}

pub open spec fn is_usable(r: MemoryRegion) -> bool {
    r.ty == CONVENTIONAL
}

/// A region whose end cannot be written as a 64-bit address.
pub open spec fn overflows(r: MemoryRegion) -> bool {
    region_end(r) > u64::MAX
}

pub open spec fn range_of(r: MemoryRegion) -> UsableRange {
    UsableRange {
        ty: r.ty,
        start: r.phys_start,
        end: region_end(r) as u64,
        page_count: r.page_count,
        size_kib: (r.page_count * PAGE_SIZE / 1024) as u64,
    }
}

/// The usable regions of `rs`, in order, as ranges.
pub open spec fn usable_ranges(rs: Seq<MemoryRegion>) -> Seq<UsableRange>
    decreases rs.len(),
{
    if rs.len() == 0 {
        seq![]
    } else {
        let rest = usable_ranges(rs.drop_last());
        if is_usable(rs.last()) {
            rest.push(range_of(rs.last()))
        } else {
            rest
        }
    }
}

/// Number of usable regions in `rs`.
pub open spec fn usable_count(rs: Seq<MemoryRegion>) -> nat
    decreases rs.len(),
{
    if rs.len() == 0 {
        0
    } else {
        usable_count(rs.drop_last()) + if is_usable(rs.last()) {
            1nat
        } else {
            0nat
        }
    }
}

pub open spec fn any_overflow(rs: Seq<MemoryRegion>) -> bool {
    exists|i: int| 0 <= i < rs.len() && is_usable(#[trigger] rs[i]) && overflows(rs[i])
}

/// Size of the buffer to allocate for a map of `hint` bytes: the hint plus the
/// margin, or `None` where that sum does not fit in `usize`.
pub fn map_buffer_len(hint: usize) -> (r: Option<usize>)
    ensures
        hint + MAP_MARGIN <= usize::MAX ==> r == Some((hint + MAP_MARGIN) as usize),
        hint + MAP_MARGIN > usize::MAX ==> r is None,
{
    hint.checked_add(MAP_MARGIN)
}

fn read_u32_le(buf: &Vec<u8>, off: usize) -> (r: u32)
    requires
        off + 4 <= buf@.len(),
    ensures
        r == le_u32(buf@, off as int),
{
    assert(buf@.len() <= usize::MAX) by { let _ = buf.len(); }
    (buf[off] as u32) | ((buf[off + 1] as u32) << 8u32) | ((buf[off + 2] as u32) << 16u32) | ((
    buf[off + 3] as u32) << 24u32)
}

fn read_u64_le(buf: &Vec<u8>, off: usize) -> (r: u64)
    requires
        off + 8 <= buf@.len(),
    ensures
        r == le_u64(buf@, off as int),
{
    assert(buf@.len() <= usize::MAX) by { let _ = buf.len(); }
    (buf[off] as u64) | ((buf[off + 1] as u64) << 8u64) | ((buf[off + 2] as u64) << 16u64) | ((
    buf[off + 3] as u64) << 24u64) | ((buf[off + 4] as u64) << 32u64) | ((buf[off + 5] as u64)
        << 40u64) | ((buf[off + 6] as u64) << 48u64) | ((buf[off + 7] as u64) << 56u64)
}

/// Walks the buffer that the firmware filled. `map_size` and `desc_size` are the
/// map size and descriptor stride that the firmware reported with it (on a
/// too-small buffer the firmware reports the size it needs).
pub fn decode_memory_map(buf: &Vec<u8>, map_size: usize, desc_size: usize) -> (r: Result<
    Vec<MemoryRegion>,
    MapError,
>)
    ensures
        decode_error(buf@.len(), map_size as nat, desc_size as nat) is Some ==> r == Err::<
            Vec<MemoryRegion>,
            MapError,
        >(decode_error(buf@.len(), map_size as nat, desc_size as nat)->Some_0),
        decode_error(buf@.len(), map_size as nat, desc_size as nat) is None ==> r is Ok
            && r->Ok_0@ == regions_of(buf@, map_size as nat, desc_size as nat),
{
    if map_size > buf.len() {
        return Err(MapError::BufferTooSmall { required: map_size, available: buf.len() });
    }
    if desc_size < DESCRIPTOR_LEN {
        return Err(MapError::BadDescriptorSize { desc_size });
    }
    let count: usize = map_size / desc_size;
    let mut out: Vec<MemoryRegion> = Vec::new();
    let mut i: usize = 0;
    let mut off: usize = 0;
    while i < count
        invariant
            count == map_size / desc_size,
            desc_size >= DESCRIPTOR_LEN,
            map_size <= buf@.len(),
            i <= count,
            off == i * desc_size,
            out@ == regions_of(buf@, map_size as nat, desc_size as nat).take(i as int),
        decreases count - i,
    {
        proof {
            assert((i + 1) * desc_size <= count * desc_size) by (nonlinear_arith)
                requires
                    i < count,
            ;
            assert(count * desc_size <= map_size) by (nonlinear_arith)
                requires
                    count == map_size / desc_size,
                    desc_size > 0,
            ;
            assert((i + 1) * desc_size == i * desc_size + desc_size) by (nonlinear_arith);
        }
        let region = MemoryRegion {
            ty: read_u32_le(buf, off),
            phys_start: read_u64_le(buf, off + 8),
            page_count: read_u64_le(buf, off + 24),
        };
        out.push(region);
        i = i + 1;
        off = off + desc_size;
        assert(out@ =~= regions_of(buf@, map_size as nat, desc_size as nat).take(i as int));
    }
    assert(out@ =~= regions_of(buf@, map_size as nat, desc_size as nat));
    Ok(out)
}

/// The report over a non-empty map: the count of all regions, and each usable
/// region as its range, in firmware order. Fails only where a usable region ends
/// beyond the 64-bit address space.
pub fn memory_map_report(regions: &Vec<MemoryRegion>) -> (r: Result<MemoryMapReport, MapError>)
    requires
        regions@.len() > 0,
    ensures
        any_overflow(regions@) ==> r == Err::<MemoryMapReport, MapError>(MapError::AddressOverflow),
        !any_overflow(regions@) ==> r is Ok && r->Ok_0.total == regions@.len()
            && r->Ok_0.usable@ == usable_ranges(regions@),
{
    let mut usable: Vec<UsableRange> = Vec::new();
    let mut i: usize = 0;
    while i < regions.len()
        invariant
            i <= regions@.len(),
            usable@ == usable_ranges(regions@.take(i as int)),
            !any_overflow(regions@.take(i as int)),
        decreases regions@.len() - i,
    {
        let region = regions[i];
        assert(regions@.take(i + 1).drop_last() =~= regions@.take(i as int));
        if region.ty == CONVENTIONAL {
            let size = region.page_count.checked_mul(PAGE_SIZE);
            let end = match size {
                Some(bytes) => region.phys_start.checked_add(bytes),
                None => None,
            };
            match end {
                Some(end) => {
                    let bytes = region.page_count * PAGE_SIZE;
                    usable.push(
                        UsableRange {
                            ty: region.ty,
                            start: region.phys_start,
                            end,
                            page_count: region.page_count,
                            size_kib: bytes / 1024,
                        },
                    );
                },
                None => {
                    assert(overflows(regions@[i as int])) by (nonlinear_arith)
                        requires
                            region == regions@[i as int],
                            size is None ==> region.page_count * PAGE_SIZE > u64::MAX,
                            size is Some ==> size->Some_0 == region.page_count * PAGE_SIZE,
                            size is Some ==> region.phys_start + size->Some_0 > u64::MAX,
                            region.phys_start >= 0,
                    ;
                    assert(is_usable(regions@[i as int]));
                    return Err(MapError::AddressOverflow);
                },
            }
        }
        i = i + 1;
        assert(!any_overflow(regions@.take(i as int))) by {
            if any_overflow(regions@.take(i as int)) {
                let k = choose|k: int|
                    0 <= k < i && is_usable(#[trigger] regions@.take(i as int)[k]) && overflows(
                        regions@.take(i as int)[k],
                    );
                if k < i - 1 {
                    assert(regions@.take(i - 1)[k] == regions@.take(i as int)[k]);
                }
            }
        }
    }
    assert(regions@.take(regions@.len() as int) =~= regions@);
    Ok(MemoryMapReport { total: regions.len(), usable })
}

/// The whole walk: decode what the firmware wrote into `buf`, then report the
/// usable regions. A map with no region is refused as `EmptyMap`.
pub fn enumerate_usable_memory(buf: &Vec<u8>, map_size: usize, desc_size: usize) -> (r: Result<
    MemoryMapReport,
    MapError,
>)
    ensures
        decode_error(buf@.len(), map_size as nat, desc_size as nat) is Some ==> r == Err::<
            MemoryMapReport,
            MapError,
        >(decode_error(buf@.len(), map_size as nat, desc_size as nat)->Some_0),
        decode_error(buf@.len(), map_size as nat, desc_size as nat) is None ==> ({
            let rs = regions_of(buf@, map_size as nat, desc_size as nat);
            &&& rs.len() == 0 ==> r == Err::<MemoryMapReport, MapError>(MapError::EmptyMap)
            &&& rs.len() > 0 && any_overflow(rs) ==> r == Err::<MemoryMapReport, MapError>(
                MapError::AddressOverflow,
            )
            &&& rs.len() > 0 && !any_overflow(rs) ==> r is Ok && r->Ok_0.total == rs.len()
                && r->Ok_0.usable@ == usable_ranges(rs)
        }),
{
    let regions = match decode_memory_map(buf, map_size, desc_size) {
        Ok(regions) => regions,
        Err(e) => return Err(e),
    };
    if regions.len() == 0 {
        return Err(MapError::EmptyMap);
    }
    memory_map_report(&regions)
}

/// The report lists one line per usable region, no more and no fewer, and each
/// line's end address and size follow from its start and page count.
pub proof fn lemma_report_lines(rs: Seq<MemoryRegion>)
    requires
        !any_overflow(rs),
    ensures
        usable_ranges(rs).len() == usable_count(rs),
        forall|i: int|
            0 <= i < usable_ranges(rs).len() ==> {
                let l = #[trigger] usable_ranges(rs)[i];
                &&& l.ty == CONVENTIONAL
                &&& l.end == l.start + l.page_count * PAGE_SIZE
                &&& l.size_kib == l.page_count * PAGE_SIZE / 1024
            },
    decreases rs.len(),
{
    if rs.len() > 0 {
        let init = rs.drop_last();
        assert(!any_overflow(init)) by {
            if any_overflow(init) {
                let k = choose|k: int| 0 <= k < init.len() && is_usable(#[trigger] init[k]) && overflows(init[k]);
                assert(rs[k] == init[k]);
            }
        }
        lemma_report_lines(init);
        if is_usable(rs.last()) {
            assert(!overflows(rs[rs.len() - 1]));
            let r = rs.last();
            assert(r.page_count * PAGE_SIZE / 1024 <= u64::MAX) by (nonlinear_arith)
                requires
                    r.phys_start + r.page_count * PAGE_SIZE <= u64::MAX,
                    r.phys_start >= 0,
            ;
        }
    }
}

/// A map that grew after the size query by no more than the margin still fits
/// the buffer allocated from the hint; one larger than the buffer is refused
/// as too small, with the size the firmware asked for.
pub proof fn lemma_margin_absorbs_growth(hint: nat, map_size: nat, desc_size: nat)
    requires
        hint + MAP_MARGIN <= usize::MAX,
        desc_size >= DESCRIPTOR_LEN,
    ensures
        map_size <= hint + MAP_MARGIN ==> decode_error((hint + MAP_MARGIN) as nat, map_size, desc_size) is None,
        map_size > hint + MAP_MARGIN ==> decode_error((hint + MAP_MARGIN) as nat, map_size, desc_size)
            == Some(
            MapError::BufferTooSmall {
                required: map_size as usize,
                available: (hint + MAP_MARGIN) as usize,
            },
        ),
{
}

} // verus!
