use vstd::prelude::*;
use crate::error::{Error, ErrorKind};
use crate::memory::{align_up, page_align, PAGE_SIZE};

verus! {

/// Size in bytes of the image header.
pub const NRO_HEADER_SIZE: usize = 0x80;

/// Size in bytes of the module header.
pub const MOD_HEADER_SIZE: usize = 0x24;

/// "NRO0", read as a little-endian word.
pub const NRO_MAGIC: u32 = 0x304f_524e;

/// "MOD0", read as a little-endian word.
pub const MOD_MAGIC: u32 = 0x3044_4f4d;

/// The little-endian word at `off` in `b`.
pub open spec fn u32_le(b: Seq<u8>, off: int) -> u32 {
    (b[off] as int + b[off + 1] as int * 0x100 + b[off + 2] as int * 0x1_0000 + b[off + 3] as int * 0x100_0000) as u32
}

fn read_u32_le(b: &Vec<u8>, off: usize) -> (r: u32)
    requires
        off + 4 <= b@.len(),
    ensures
        r == u32_le(b@, off as int),
{
    let len = b.len();
    let v: u64 = b[off] as u64 + b[off + 1] as u64 * 0x100 + b[off + 2] as u64 * 0x1_0000 + b[off + 3] as u64
        * 0x100_0000;
    v as u32
}

/// Where a segment lies: its offset after the header and its size.
#[derive(Clone, Copy, Debug, PartialEq, Eq, Structural)]
pub struct NroSegmentHeader {
    pub memory_offset: u32,
    pub size: u32,
}

/// The fields of the image header that the loader reads.
#[derive(Clone, Copy, Debug, PartialEq, Eq, Structural)]
pub struct NroHeader {
    pub mod0_offset: u32,
    pub magic: u32,
    pub size: u32,
    pub text_segment_header: NroSegmentHeader,
    pub ro_segment_header: NroSegmentHeader,
    pub data_segment_header: NroSegmentHeader,
    pub bss_size: u32,
}

/// The fields of the module header that the loader reads.
#[derive(Clone, Copy, Debug, PartialEq, Eq, Structural)]
pub struct ModHeader {
    pub magic: u32,
    pub bss_start_offset: u32,
    pub bss_end_offset: u32,
}

pub open spec fn segment_at(b: Seq<u8>, off: int) -> NroSegmentHeader {
    NroSegmentHeader { memory_offset: u32_le(b, off), size: u32_le(b, off + 4) }
}

/// The header that the first bytes of `b` hold.
pub open spec fn header_of(b: Seq<u8>) -> NroHeader {
    NroHeader {
        mod0_offset: u32_le(b, 4),
        magic: u32_le(b, 16),
        size: u32_le(b, 24),
        text_segment_header: segment_at(b, 32),
        ro_segment_header: segment_at(b, 40),
        data_segment_header: segment_at(b, 48),
        bss_size: u32_le(b, 56),
    }
}

/// A loaded executable image.
pub struct Nro {
    file_content: Vec<u8>,
}

impl View for Nro {
    type V = Seq<u8>;

    closed spec fn view(&self) -> Seq<u8> {
        self.file_content@
    }
}

fn segment(b: &Vec<u8>, off: usize) -> (r: NroSegmentHeader)
    requires
        off + 8 <= b@.len(),
    ensures
        r == segment_at(b@, off as int),
{
    let len = b.len();
    NroSegmentHeader { memory_offset: read_u32_le(b, off), size: read_u32_le(b, off + 4) }
}

impl Nro {
    pub open spec fn wf(&self) -> bool {
        self@.len() >= NRO_HEADER_SIZE && header_of(self@).magic == NRO_MAGIC
    }

    /// The image held by `file_content`, if it is long enough for a header and carries
    /// the image magic.
    pub fn new(file_content: Vec<u8>) -> (r: Result<Nro, Error>)
        ensures
            match r {
                Ok(n) => n@ == file_content@ && n.wf(),
                Err(e) => e.kind == ErrorKind::Image && !(file_content@.len() >= NRO_HEADER_SIZE
                    && header_of(file_content@).magic == NRO_MAGIC),
            },
    {
        if file_content.len() >= NRO_HEADER_SIZE && read_u32_le(&file_content, 16) == NRO_MAGIC {
            Ok(Nro { file_content })
        } else {
            Err(Error::with_kind(ErrorKind::Image, "Invalid nro file".to_owned()))
        }
    }

    pub fn get_header(&self) -> (r: NroHeader)
        requires
            self.wf(),
        ensures
            r == header_of(self@),
    {
        let b = &self.file_content;
        NroHeader {
            mod0_offset: read_u32_le(b, 4),
            magic: read_u32_le(b, 16),
            size: read_u32_le(b, 24),
            text_segment_header: segment(b, 32),
            ro_segment_header: segment(b, 40),
            data_segment_header: segment(b, 48),
            bss_size: read_u32_le(b, 56),
        }
    }

    /// The module header, if the image holds one where its header says.
    pub open spec fn spec_mod_header(&self) -> Option<ModHeader> {
        let off = header_of(self@).mod0_offset as int;
        if off + MOD_HEADER_SIZE <= self@.len() && u32_le(self@, off + 8) == MOD_MAGIC {
            Some(ModHeader { magic: MOD_MAGIC, bss_start_offset: u32_le(self@, off + 16), bss_end_offset: u32_le(self@, off + 20) })
        } else {
            None
        }
    }

    /// The module header, if the image holds one where its header says.
    pub fn get_mod_header(&self) -> (r: Option<ModHeader>)
        requires
            self.wf(),
        ensures
            r == self.spec_mod_header(),
    {
        let b = &self.file_content;
        let off = read_u32_le(b, 4) as usize;
        if off > b.len() || b.len() - off < MOD_HEADER_SIZE {
            return None;
        }
        let magic = read_u32_le(b, off + 8);
        if magic != MOD_MAGIC {
            return None;
        }
        Some(ModHeader { magic, bss_start_offset: read_u32_le(b, off + 16), bss_end_offset: read_u32_le(b, off + 20) })
    }

    /// The bytes of a segment, if they lie within the image.
    pub fn get_segment(&self, segment: &NroSegmentHeader) -> (r: Option<Vec<u8>>)
        ensures
            ({
                let start = NRO_HEADER_SIZE + segment.memory_offset;
                let end = start + segment.size;
                &&& end <= self@.len() ==> r is Some && r->Some_0@ == self@.subrange(start, end)
                &&& end > self@.len() ==> r is None
            }),
    {
        let len = self.file_content.len();
        let off = segment.memory_offset as usize;
        let size = segment.size as usize;
        if len < NRO_HEADER_SIZE || off > len - NRO_HEADER_SIZE {
            return None;
        }
        let start = NRO_HEADER_SIZE + off;
        if len - start < size {
            return None;
        }
        let mut out: Vec<u8> = Vec::new();
        let mut i: usize = 0;
        while i < size
            invariant
                len == self.file_content@.len(),
                start + size <= len,
                i <= size,
                out@ == self.file_content@.subrange(start as int, start + i),
            decreases size - i,
        {
            out.push(self.file_content[start + i]);
            i = i + 1;
            assert(out@ =~= self.file_content@.subrange(start as int, start + i));
        }
        Some(out)
    }
}

/// `v` read as a signed 32-bit number.
pub open spec fn signed32(v: u32) -> int {
    if v < 0x8000_0000 { v as int } else { v - 0x1_0000_0000 }
}

fn to_signed32(v: u32) -> (r: i64)
    ensures
        r == signed32(v),
{
    if v < 0x8000_0000 { v as i64 } else { v as i64 - 0x1_0000_0000 }
}

/// The unaligned size of the zero-filled area after the image: from the module header
/// when there is one, else from the image header; `None` when the module header gives a
/// negative or oversized span.
pub open spec fn raw_bss_size(h: NroHeader, m: Option<ModHeader>) -> Option<u32> {
    match m {
        None => Some(h.bss_size),
        Some(mh) => {
            let d = signed32(mh.bss_end_offset) - signed32(mh.bss_start_offset);
            if 0 <= d <= u32::MAX { Some(d as u32) } else { None }
        },
    }
}

/// Whether `size` can be rounded up to a page within 32 bits.
pub open spec fn alignable(size: u32) -> bool {
    size <= u32::MAX - (PAGE_SIZE - 1)
}

impl Nro {
    /// Whether the guest memory can be built: both sizes can be rounded up to a page, the
    /// zero-filled area's span is not negative, and the total fits in memory.
    pub open spec fn memory_fits(&self) -> bool {
        let h = header_of(self@);
        &&& alignable(h.size)
        &&& raw_bss_size(h, self.spec_mod_header()) matches Some(raw) && alignable(raw)
            && align_up(h.size) + align_up(raw) <= usize::MAX
    }

    /// The guest memory: the image's first `size` bytes rounded up to a page (zero where
    /// the file is shorter), then the zero-filled area rounded up to a page. An error
    /// exactly when the sizes do not fit (`memory_fits`).
    pub fn build_memory(&self) -> (r: Result<Vec<u8>, Error>)
        requires
            self.wf(),
        ensures
            match r {
                Ok(mem) => {
                    let h = header_of(self@);
                    let ms = align_up(h.size);
                    &&& raw_bss_size(h, self.spec_mod_header()) matches Some(raw)
                    &&& mem@.len() == ms + align_up(raw)
                    &&& forall|i: int| 0 <= i < mem@.len() ==> #[trigger] mem@[i] == (if i < ms && i < self@.len() { self@[i] } else { 0u8 })
                },
                Err(e) => e.kind == ErrorKind::Image,
            },
            r is Ok <==> self.memory_fits(),
    {
        let header = self.get_header();
        if header.size > u32::MAX - (PAGE_SIZE - 1) {
            return Err(Error::with_kind(ErrorKind::Image, "Image size too large".to_owned()));
        }
        let memory_size = page_align(header.size);
        let raw = match self.get_mod_header() {
            None => header.bss_size,
            Some(mod_header) => {
                let d = to_signed32(mod_header.bss_end_offset) - to_signed32(mod_header.bss_start_offset);
                if d < 0 || d > u32::MAX as i64 {
                    return Err(Error::with_kind(ErrorKind::Image, "Invalid bss span".to_owned()));
                }
                d as u32
            },
        };
        if raw > u32::MAX - (PAGE_SIZE - 1) {
            return Err(Error::with_kind(ErrorKind::Image, "Bss size too large".to_owned()));
        }
        let bss_size = page_align(raw);
        let total: u64 = memory_size as u64 + bss_size as u64;
        if total > usize::MAX as u64 {
            return Err(Error::with_kind(ErrorKind::Image, "Image does not fit in memory".to_owned()));
        }
        let total = total as usize;
        let ms = memory_size as usize;
        let len = self.file_content.len();
        let mut mem: Vec<u8> = Vec::new();
        let mut i: usize = 0;
        while i < total
            invariant
                len == self@.len(),
                ms == memory_size,
                i <= total,
                mem@.len() == i,
                forall|k: int| 0 <= k < i ==> #[trigger] mem@[k] == (if k < ms && k < len { self@[k] } else { 0u8 }),
            decreases total - i,
        {
            if i < ms && i < len {
                mem.push(self.file_content[i]);
            } else {
                mem.push(0);
            }
            i = i + 1;
        }
        assert(raw_bss_size(header, self.spec_mod_header()) == Some(raw));
        Ok(mem)
    }
}

/// The guest instruction words that `bytes` holds, little-endian, four bytes each; a
/// trailing partial word is dropped.
pub fn text_words(bytes: &Vec<u8>) -> (r: Vec<u32>)
    ensures
        r@.len() == bytes@.len() / 4,
        forall|i: int| 0 <= i < r@.len() ==> #[trigger] r@[i] == u32_le(bytes@, 4 * i),
{
    let len = bytes.len();
    let n = len / 4;
    let mut out: Vec<u32> = Vec::new();
    let mut i: usize = 0;
    while i < n
        invariant
            len == bytes@.len(),
            n == len / 4,
            i <= n,
            out@.len() == i,
            forall|k: int| 0 <= k < i ==> #[trigger] out@[k] == u32_le(bytes@, 4 * k),
        decreases n - i,
    {
        out.push(read_u32_le(bytes, 4 * i));
        i = i + 1;
    }
    out
}

} // verus!
