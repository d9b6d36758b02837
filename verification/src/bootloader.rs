//! Where the kernel's ELF image wants to be loaded.
use vstd::prelude::*;
use elf::endian::AnyEndian;
use elf::ElfBytes;

verus! {

/// The fields of an ELF program header that loading reads.
#[derive(Clone, Copy, Debug, PartialEq, Eq, Structural)]
pub struct ProgramSegment {
    pub p_type: u32,
    pub p_offset: u64,
    pub p_vaddr: u64,
    pub p_memsz: u64,
}

/// Program header type of a loadable segment.
pub const PT_LOAD: u32 = 1;

/// The program headers that the `elf` crate reads from the ELF file `data`,
/// `None` when it cannot parse the file header or the file has no program
/// header table.
pub uninterp spec fn elf_segments_spec(data: Seq<u8>) -> Option<Seq<ProgramSegment>>;

/// `ElfBytes::<AnyEndian>::minimal_parse` and `segments` of the `elf` crate,
/// with each program header reduced to the fields loading reads. The result
/// is named `elf_segments_spec`; nothing more is stated of it.
#[verifier::external_body]
fn elf_segments(data: &[u8]) -> (r: Option<Vec<ProgramSegment>>)
    ensures
        match r {
            Some(v) => elf_segments_spec(data@) == Some(v@),
            None => elf_segments_spec(data@) is None,
        },
{
    let file = ElfBytes::<AnyEndian>::minimal_parse(data).ok()?;
    let table = file.segments()?;
    Some(table.iter().map(|ph| ProgramSegment {
        p_type: ph.p_type, p_offset: ph.p_offset, p_vaddr: ph.p_vaddr, p_memsz: ph.p_memsz,
    }).collect())
}

/// The lowest start address of a loadable segment of `s`, `u64::MAX` when
/// there is none.
pub open spec fn load_start(s: Seq<ProgramSegment>) -> u64
    decreases s.len(),
{
    if s.len() == 0 {
        u64::MAX
    } else {
        let m = load_start(s.drop_last());
        let p = s.last();
        if p.p_type == PT_LOAD && p.p_vaddr < m {
            p.p_vaddr
        } else {
            m
        }
    }
}

/// The highest end address of a loadable segment of `s`, 0 when there is
/// none.
pub open spec fn load_end(s: Seq<ProgramSegment>) -> u64
    decreases s.len(),
{
    if s.len() == 0 {
        0
    } else {
        let m = load_end(s.drop_last());
        let p = s.last();
        if p.p_type == PT_LOAD && p.p_vaddr + p.p_memsz > m {
            (p.p_vaddr + p.p_memsz) as u64
        } else {
            m
        }
    }
}

/// No loadable segment of `s` ends beyond the 64-bit address space.
pub open spec fn ends_fit(s: Seq<ProgramSegment>) -> bool {
    forall|i: int| 0 <= i < s.len() && (#[trigger] s[i]).p_type == PT_LOAD ==> s[i].p_vaddr
        + s[i].p_memsz <= u64::MAX
}

/// The address range that the loadable segments of `segments` cover: the
/// start of the first and the end of the last.
pub fn calc_load_address_range(segments: &Vec<ProgramSegment>) -> (r: (u64, u64))
    requires
        ends_fit(segments@),
    ensures
        r == (load_start(segments@), load_end(segments@)),
{
    let mut min: u64 = u64::MAX;
    let mut max: u64 = 0;
    let mut i: usize = 0;
    while i < segments.len()
        invariant
            i <= segments@.len(),
            ends_fit(segments@),
            min == load_start(segments@.take(i as int)),
            max == load_end(segments@.take(i as int)),
        decreases segments@.len() - i,
    {
        let p = segments[i];
        assert(segments@.take(i + 1).drop_last() =~= segments@.take(i as int));
        if p.p_type == PT_LOAD {
            if p.p_vaddr < min {
                min = p.p_vaddr;
            }
            let end = p.p_vaddr + p.p_memsz;
            if end > max {
                max = end;
            }
        }
        i = i + 1;
    }
    assert(segments@.take(i as int) =~= segments@);
    (min, max)
}

/// Whether no loadable segment of `segments` ends beyond the address space.
pub fn segment_ends_fit(segments: &Vec<ProgramSegment>) -> (b: bool)
    ensures
        b == ends_fit(segments@),
{
    let mut i: usize = 0;
    while i < segments.len()
        invariant
            i <= segments@.len(),
            forall|j: int| 0 <= j < i && (#[trigger] segments@[j]).p_type == PT_LOAD ==> segments@[j].p_vaddr
                + segments@[j].p_memsz <= u64::MAX,
        decreases segments@.len() - i,
    {
        let p = segments[i];
        if p.p_type == PT_LOAD && p.p_memsz > u64::MAX - p.p_vaddr {
            return false;
        }
        i = i + 1;
    }
    true
}

/// The address range that the kernel image `elf_file` is loaded to; `None`
/// when its program headers cannot be read or a segment ends beyond the
/// address space.
pub fn kernel_load_range(elf_file: &[u8]) -> (r: Option<(u64, u64)>)
    ensures
        match elf_segments_spec(elf_file@) {
            None => r is None,
            Some(s) => if ends_fit(s) {
                r == Some((load_start(s), load_end(s)))
            } else {
                r is None
            },
        },
{
    let segments = match elf_segments(elf_file) {
        Some(s) => s,
        None => {
            return None;
        },
    };
    if !segment_ends_fit(&segments) {
        return None;
    }
    Some(calc_load_address_range(&segments))
}

} // verus!
