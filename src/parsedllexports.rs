//! The export-name parser.
use vstd::prelude::*;
use vstd::utf8::{decode_utf8, valid_utf8};
use crate::bytes::{fits, in_bounds, le16, le32, read_u16, read_u32, to_index};

verus! {

/// `std::io::Error`, carried unchanged by `DllParserError::IoError`.
#[verifier::external_type_specification]
#[verifier::external_body]
pub struct ExIoError(std::io::Error);

/// Why no export list could be read.
#[derive(Debug)]
pub enum DllParserError {
    /// Obtaining the image bytes failed; the parser itself never produces this.
    IoError(std::io::Error),
    /// A structural check failed, or a read would leave the buffer.
    InvalidPeFormat,
    /// An address lies in none of the declared sections.
    UnsupportedFormat,
}

impl From<std::io::Error> for DllParserError {
    fn from(error: std::io::Error) -> (r: DllParserError)
        ensures
            r == DllParserError::IoError(error),
    {
        DllParserError::IoError(error)
    }
}

impl vstd::std_specs::convert::FromSpecImpl<std::io::Error> for DllParserError {
    open spec fn obeys_from_spec() -> bool {
        true
    }

    open spec fn from_spec(v: std::io::Error) -> DllParserError {
        DllParserError::IoError(v)
    }
}

/// Size in bytes of one section descriptor.
pub const SECTION_SIZE: u64 = 40;

/// File offset of descriptor `i` of the section table at `sho`.
pub open spec fn descriptor_at(sho: int, i: int) -> int {
    sho + 40 * i
}

/// Whether the section descriptor at file offset `s` covers `rva`, that is
/// `virtualAddress <= rva < virtualAddress + virtualSize`.
pub open spec fn section_holds(b: Seq<u8>, s: int, rva: int) -> bool {
    le32(b, s + 12) <= rva < le32(b, s + 12) + le32(b, s + 16)
}

/// Resolution of `rva` against the descriptors `i..n` of the section table at
/// `sho`: the first descriptor that covers it gives
/// `rawDataPointer + (rva - virtualAddress)`.
pub open spec fn resolve_from(b: Seq<u8>, sho: int, n: int, rva: int, i: int) -> Result<
    int,
    DllParserError,
>
    decreases n - i,
{
    if i >= n {
        Err(DllParserError::UnsupportedFormat)
    } else if !fits(b, descriptor_at(sho, i), 40) {
        Err(DllParserError::InvalidPeFormat)
    } else if section_holds(b, descriptor_at(sho, i), rva) {
        Ok(le32(b, descriptor_at(sho, i) + 20) + (rva - le32(b, descriptor_at(sho, i) + 12)))
    } else {
        resolve_from(b, sho, n, rva, i + 1)
    }
}

/// The file offset of `rva` according to the `n` section descriptors at `sho`.
pub open spec fn resolve_rva(b: Seq<u8>, sho: int, n: int, rva: int) -> Result<int, DllParserError> {
    resolve_from(b, sho, n, rva, 0)
}

/// Maps a relative virtual address to a file offset, by the first section in
/// table order whose address range holds it.
pub fn rva_to_file_offset(
    buffer: &[u8],
    section_header_offset: u64,
    num_sections: usize,
    rva: u32,
) -> (r: Result<u64, DllParserError>)
    ensures
        match r {
            Ok(off) => resolve_rva(buffer@, section_header_offset as int, num_sections as int, rva as int)
                == Ok::<int, DllParserError>(off as int),
            Err(e) => resolve_rva(buffer@, section_header_offset as int, num_sections as int, rva as int)
                == Err::<int, DllParserError>(e),
        },
        r is Ok ==> r->Ok_0 < 0x2_0000_0000,
{
    let ghost b = buffer@;
    let ghost sho = section_header_offset as int;
    let ghost n = num_sections as int;
    let mut i: usize = 0;
    let mut section_offset: u64 = section_header_offset;
    while i < num_sections
        invariant
            i <= num_sections,
            section_offset as int == sho + 40 * i,
            b == buffer@,
            sho == section_header_offset as int,
            n == num_sections as int,
            resolve_rva(b, sho, n, rva as int) == resolve_from(b, sho, n, rva as int, i as int),
        decreases num_sections - i,
    {
        if !in_bounds(buffer, section_offset, SECTION_SIZE) {
            return Err(DllParserError::InvalidPeFormat);
        }
        let s = to_index(buffer, section_offset, SECTION_SIZE);
        let section_rva = read_u32(buffer, s + 12);
        let section_size = read_u32(buffer, s + 16);
        let raw_data = read_u32(buffer, s + 20);
        if section_rva <= rva && rva - section_rva < section_size {
            assert(raw_data as int + (rva - section_rva) < 0x2_0000_0000);
            return Ok(raw_data as u64 + (rva - section_rva) as u64);
        }
        i = i + 1;
        section_offset = section_offset + SECTION_SIZE;
    }
    Err(DllParserError::UnsupportedFormat)
}

/// Machine type of a 64-bit (x86-64) image.
pub const MACHINE_AMD64: u16 = 0x8664;

/// Optional-header magic of the 32-bit layout.
pub const PE32_MAGIC: u16 = 0x10B;

/// Optional-header magic of the 64-bit layout.
pub const PE32_PLUS_MAGIC: u16 = 0x20B;

/// Offset of the image-header pointer inside the stub header.
pub const STUB_POINTER_OFFSET: usize = 0x3C;

/// The image-header offset that the stub header holds.
pub open spec fn pe_offset(b: Seq<u8>) -> int {
    le32(b, STUB_POINTER_OFFSET as int)
}

/// The buffer holds a 64-byte stub header that starts with `MZ`.
pub open spec fn stub_ok(b: Seq<u8>) -> bool {
    b.len() >= 64 && b[0] == 0x4D && b[1] == 0x5A
}

/// The buffer holds `PE\0\0` at `pe`.
pub open spec fn signature_ok(b: Seq<u8>, pe: int) -> bool {
    fits(b, pe, 4) && b[pe] == 0x50 && b[pe + 1] == 0x45 && b[pe + 2] == 0 && b[pe + 3] == 0
}

/// The machine type names the 64-bit architecture.
pub open spec fn is_64bit(b: Seq<u8>) -> bool {
    le16(b, pe_offset(b) + 4) == MACHINE_AMD64
}

/// File offset of the optional header.
pub open spec fn optional_offset(b: Seq<u8>) -> int {
    pe_offset(b) + 24
}

/// The optional-header magic agrees with the machine's word size.
pub open spec fn magic_ok(b: Seq<u8>) -> bool {
    if is_64bit(b) {
        le16(b, optional_offset(b)) == PE32_PLUS_MAGIC
    } else {
        le16(b, optional_offset(b)) == PE32_MAGIC
    }
}

/// File offset of the export directory descriptor (its address, then its size).
pub open spec fn descriptor_offset(b: Seq<u8>) -> int {
    optional_offset(b) + if is_64bit(b) {
        112int
    } else {
        96int
    }
}

/// Number of section descriptors that the image header declares.
pub open spec fn section_count(b: Seq<u8>) -> int {
    le16(b, pe_offset(b) + 6)
}

/// File offset of the section table, right after the optional header.
pub open spec fn section_table(b: Seq<u8>) -> int {
    optional_offset(b) + le16(b, pe_offset(b) + 20)
}

/// Every header check passes and every header field read lies inside the buffer.
pub open spec fn headers_ok(b: Seq<u8>) -> bool {
    &&& stub_ok(b)
    &&& signature_ok(b, pe_offset(b))
    &&& fits(b, pe_offset(b), 26)
    &&& magic_ok(b)
    &&& fits(b, descriptor_offset(b), 8)
}

/// Relative virtual address of the export directory.
pub open spec fn export_rva(b: Seq<u8>) -> int {
    le32(b, descriptor_offset(b))
}

/// Declared size of the export directory.
pub open spec fn export_size(b: Seq<u8>) -> int {
    le32(b, descriptor_offset(b) + 4)
}

/// End of the zero-terminated byte string that starts at `i`: the index of
/// the first zero byte from `i` on, or the buffer's length.
pub open spec fn cstr_end(b: Seq<u8>, i: int) -> int
    decreases b.len() - i,
{
    if i < 0 || i >= b.len() || b[i] == 0 {
        i
    } else {
        cstr_end(b, i + 1)
    }
}

/// The bytes from `o` up to the first zero byte or the end of the buffer.
pub open spec fn cstr(b: Seq<u8>, o: int) -> Seq<u8> {
    if 0 <= o < b.len() {
        b.subrange(o, cstr_end(b, o))
    } else {
        seq![]
    }
}

/// Where the address in slot `i` of the name-pointer array at `a` resolves to.
pub open spec fn slot_target(b: Seq<u8>, sho: int, n: int, a: int, i: int) -> Result<int, DllParserError> {
    resolve_rva(b, sho, n, le32(b, a + 4 * i))
}

/// The name that slot `i` of the name-pointer array at file offset `a` leads to.
pub open spec fn name_at(b: Seq<u8>, sho: int, n: int, a: int, i: int) -> Result<Seq<u8>, DllParserError> {
    if !fits(b, a + 4 * i, 4) {
        Err(DllParserError::InvalidPeFormat)
    } else {
        match slot_target(b, sho, n, a, i) {
            Err(e) => Err(e),
            Ok(o) => Ok(cstr(b, o)),
        }
    }
}

/// The names of the first `k` slots of the name-pointer array at `a`, in
/// array order, or the error of the first slot that fails.
pub open spec fn names_upto(b: Seq<u8>, sho: int, n: int, a: int, k: int) -> Result<Seq<Seq<u8>>, DllParserError>
    decreases k,
{
    if k <= 0 {
        Ok(seq![])
    } else {
        match names_upto(b, sho, n, a, k - 1) {
            Err(e) => Err(e),
            Ok(p) => match name_at(b, sho, n, a, k - 1) {
                Err(e) => Err(e),
                Ok(x) => Ok(p.push(x)),
            },
        }
    }
}

/// The raw export names reached from the export directory at `rva`.
pub open spec fn walk_spec(b: Seq<u8>, sho: int, n: int, rva: int) -> Result<Seq<Seq<u8>>, DllParserError> {
    match resolve_rva(b, sho, n, rva) {
        Err(e) => Err(e),
        Ok(d) => if !fits(b, d + 24, 4) || !fits(b, d + 32, 4) {
            Err(DllParserError::InvalidPeFormat)
        } else {
            match resolve_rva(b, sho, n, le32(b, d + 32)) {
                Err(e) => Err(e),
                Ok(a) => names_upto(b, sho, n, a, le32(b, d + 24)),
            }
        },
    }
}

/// The raw bytes of every export name of the image `b`, in name-pointer array
/// order, or why they cannot be read.
pub open spec fn export_name_bytes_spec(b: Seq<u8>) -> Result<Seq<Seq<u8>>, DllParserError> {
    if !headers_ok(b) {
        Err(DllParserError::InvalidPeFormat)
    } else if export_rva(b) == 0 || export_size(b) == 0 {
        Ok(seq![])
    } else {
        walk_spec(b, section_table(b), section_count(b), export_rva(b))
    }
}

proof fn lemma_names_err_stays(b: Seq<u8>, sho: int, n: int, a: int, k: int, m: int)
    requires
        0 <= k <= m,
        names_upto(b, sho, n, a, k) is Err,
    ensures
        names_upto(b, sho, n, a, m) == names_upto(b, sho, n, a, k),
    decreases m - k,
{
    if k < m {
        lemma_names_err_stays(b, sho, n, a, k, m - 1);
    }
}

/// Reads the zero-terminated byte string at file offset `off`; empty when the
/// offset lies past the buffer.
fn read_name(buffer: &[u8], off: u64) -> (r: Vec<u8>)
    ensures
        r@ == cstr(buffer@, off as int),
{
    let mut name: Vec<u8> = Vec::new();
    let len = buffer.len();
    if off < len as u64 {
        let mut k = off as usize;
        while k < len && buffer[k] != 0
            invariant
                off <= k <= len,
                len == buffer@.len(),
                cstr_end(buffer@, k as int) == cstr_end(buffer@, off as int),
                name@ == buffer@.subrange(off as int, k as int),
            decreases len - k,
        {
            name.push(buffer[k]);
            k = k + 1;
            assert(name@ =~= buffer@.subrange(off as int, k as int));
        }
    }
    name
}

/// Walks the export directory at `export_rva`: its name count and the
/// name-pointer array, then each name in array order.
fn walk_exports(buffer: &[u8], sho: u64, num_sections: usize, export_rva: u32) -> (r: Result<
    Vec<Vec<u8>>,
    DllParserError,
>)
    ensures
        match r {
            Ok(names) => walk_spec(buffer@, sho as int, num_sections as int, export_rva as int)
                == Ok::<Seq<Seq<u8>>, DllParserError>(names.deep_view()),
            Err(e) => walk_spec(buffer@, sho as int, num_sections as int, export_rva as int)
                == Err::<Seq<Seq<u8>>, DllParserError>(e),
        },
{
    let ghost b = buffer@;
    let dir = match rva_to_file_offset(buffer, sho, num_sections, export_rva) {
        Ok(d) => d,
        Err(e) => return Err(e),
    };
    if !in_bounds(buffer, dir + 24, 4) || !in_bounds(buffer, dir + 32, 4) {
        return Err(DllParserError::InvalidPeFormat);
    }
    let number_of_names = read_u32(buffer, to_index(buffer, dir + 24, 4));
    let name_pointer_rva = read_u32(buffer, to_index(buffer, dir + 32, 4));
    let array = match rva_to_file_offset(buffer, sho, num_sections, name_pointer_rva) {
        Ok(a) => a,
        Err(e) => return Err(e),
    };
    let ghost total = number_of_names as int;
    let mut names: Vec<Vec<u8>> = Vec::new();
    let mut i: u64 = 0;
    assert(names.deep_view() =~= Seq::<Seq<u8>>::empty());
    while i < number_of_names as u64
        invariant
            i <= number_of_names,
            b == buffer@,
            array < 0x2_0000_0000,
            walk_spec(b, sho as int, num_sections as int, export_rva as int)
                == names_upto(b, sho as int, num_sections as int, array as int, total),
            total == number_of_names as int,
            names_upto(b, sho as int, num_sections as int, array as int, i as int)
                == Ok::<Seq<Seq<u8>>, DllParserError>(names.deep_view()),
        decreases number_of_names - i,
    {
        let slot = array + 4 * i;
        if !in_bounds(buffer, slot, 4) {
            proof {
                lemma_names_err_stays(b, sho as int, num_sections as int, array as int, i + 1, total);
            }
            return Err(DllParserError::InvalidPeFormat);
        }
        let name_rva = read_u32(buffer, to_index(buffer, slot, 4));
        let off = match rva_to_file_offset(buffer, sho, num_sections, name_rva) {
            Ok(o) => o,
            Err(e) => {
                proof {
                    lemma_names_err_stays(b, sho as int, num_sections as int, array as int, i + 1, total);
                }
                return Err(e);
            },
        };
        let name = read_name(buffer, off);
        let ghost before = names.deep_view();
        assert(name.deep_view() =~= name@);
        names.push(name);
        assert(names.deep_view() =~= before.push(name@));
        i = i + 1;
    }
    Ok(names)
}

/// The raw bytes of each exported name, in name-pointer array order.
pub fn export_name_bytes(buffer: &[u8]) -> (r: Result<Vec<Vec<u8>>, DllParserError>)
    ensures
        match r {
            Ok(names) => export_name_bytes_spec(buffer@) == Ok::<Seq<Seq<u8>>, DllParserError>(
                names.deep_view(),
            ),
            Err(e) => export_name_bytes_spec(buffer@) == Err::<Seq<Seq<u8>>, DllParserError>(e),
        },
{
    let ghost b = buffer@;
    if buffer.len() < 64 || buffer[0] != 0x4D || buffer[1] != 0x5A {
        return Err(DllParserError::InvalidPeFormat);
    }
    let pe = read_u32(buffer, STUB_POINTER_OFFSET) as u64;
    if !in_bounds(buffer, pe, 4) {
        return Err(DllParserError::InvalidPeFormat);
    }
    let p = to_index(buffer, pe, 4);
    if buffer[p] != 0x50 || buffer[p + 1] != 0x45 || buffer[p + 2] != 0 || buffer[p + 3] != 0 {
        return Err(DllParserError::InvalidPeFormat);
    }
    if !in_bounds(buffer, pe, 26) {
        return Err(DllParserError::InvalidPeFormat);
    }
    let p = to_index(buffer, pe, 26);
    let machine = read_u16(buffer, p + 4);
    let is_64bit = machine == MACHINE_AMD64;
    let num_sections = read_u16(buffer, p + 6) as usize;
    let optional_header_size = read_u16(buffer, p + 20) as u64;
    let optional_header_offset = pe + 24;
    let magic = read_u16(buffer, p + 24);
    if (is_64bit && magic != PE32_PLUS_MAGIC) || (!is_64bit && magic != PE32_MAGIC) {
        return Err(DllParserError::InvalidPeFormat);
    }
    let descriptor = if is_64bit {
        optional_header_offset + 112
    } else {
        optional_header_offset + 96
    };
    if !in_bounds(buffer, descriptor, 8) {
        return Err(DllParserError::InvalidPeFormat);
    }
    let d = to_index(buffer, descriptor, 8);
    let export_dir_rva = read_u32(buffer, d);
    let export_dir_size = read_u32(buffer, d + 4);
    if export_dir_rva == 0 || export_dir_size == 0 {
        let empty: Vec<Vec<u8>> = Vec::new();
        assert(empty.deep_view() =~= Seq::<Seq<u8>>::empty());
        return Ok(empty);
    }
    let section_header_offset = optional_header_offset + optional_header_size;
    walk_exports(buffer, section_header_offset, num_sections, export_dir_rva)
}

/// The text of each raw name, in order, leaving out the names that are not
/// well-formed UTF-8.
pub open spec fn decoded_names(raw: Seq<Seq<u8>>) -> Seq<Seq<char>> {
    raw.filter(|x: Seq<u8>| valid_utf8(x)).map_values(|x: Seq<u8>| decode_utf8(x))
}

/// What `parse_exports` returns for the image `b`.
pub open spec fn parse_exports_spec(b: Seq<u8>) -> Result<Seq<Seq<char>>, DllParserError> {
    match export_name_bytes_spec(b) {
        Ok(raw) => Ok(decoded_names(raw)),
        Err(e) => Err(e),
    }
}

/// The text of each string of `v`.
pub open spec fn texts(v: Seq<String>) -> Seq<Seq<char>> {
    v.map_values(|s: String| s@)
}

/// Relies on `String::from_utf8`: it succeeds exactly when the bytes are
/// well-formed UTF-8, and the string then holds the characters they encode.
#[verifier::external_body]
fn text_from_bytes(bytes: &[u8]) -> (r: Option<String>)
    ensures
        r is Some <==> valid_utf8(bytes@),
        r is Some ==> r->Some_0@ == decode_utf8(bytes@),
{
    String::from_utf8(bytes.to_vec()).ok()
}

/// Decodes each raw name as UTF-8, in order; a name that does not decode is
/// left out and the others are kept.
pub fn decode_names(raw: &Vec<Vec<u8>>) -> (r: Vec<String>)
    ensures
        texts(r@) == decoded_names(raw.deep_view()),
{
    let ghost whole = raw.deep_view();
    let mut out: Vec<String> = Vec::new();
    let mut i: usize = 0;
    proof {
        reveal(Seq::filter);
        assert(whole.take(0) =~= Seq::<Seq<u8>>::empty());
        assert(texts(out@) =~= decoded_names(whole.take(0)));
    }
    while i < raw.len()
        invariant
            i <= raw.len(),
            whole == raw.deep_view(),
            texts(out@) == decoded_names(whole.take(i as int)),
        decreases raw.len() - i,
    {
        let item = &raw[i];
        assert(item@ =~= whole[i as int]);
        let decoded = text_from_bytes(item.as_slice());
        let ghost prefix = whole.take(i as int);
        let ghost next = whole.take(i + 1);
        proof {
            reveal(Seq::filter);
            assert(next.drop_last() =~= prefix);
            assert(next.last() == item@);
        }
        match decoded {
            Some(text) => {
                let ghost before = out@;
                out.push(text);
                proof {
                    let f = |x: Seq<u8>| valid_utf8(x);
                    let g = |x: Seq<u8>| decode_utf8(x);
                    assert(next.filter(f) == prefix.filter(f).push(item@));
                    assert(prefix.filter(f).push(item@).map_values(g) =~= prefix.filter(f).map_values(g).push(
                        decode_utf8(item@),
                    ));
                    assert(texts(out@) =~= texts(before).push(text@));
                    assert(texts(out@) =~= decoded_names(next));
                }
            },
            None => {
                proof {
                    let f = |x: Seq<u8>| valid_utf8(x);
                    assert(next.filter(f) == prefix.filter(f));
                }
            },
        }
        i = i + 1;
    }
    assert(whole.take(raw.len() as int) =~= whole);
    out
}

/// Lists the names that the image in `buffer` exports, in name-pointer array
/// order. Fails with `InvalidPeFormat` when a structural check fails or a read
/// would leave the buffer, and with `UnsupportedFormat` when an address lies in
/// no section; names that are not well-formed UTF-8 are left out.
pub fn parse_exports(buffer: &[u8]) -> (r: Result<Vec<String>, DllParserError>)
    ensures
        match r {
            Ok(names) => parse_exports_spec(buffer@) == Ok::<Seq<Seq<char>>, DllParserError>(
                texts(names@),
            ),
            Err(e) => parse_exports_spec(buffer@) == Err::<Seq<Seq<char>>, DllParserError>(e),
        },
{
    match export_name_bytes(buffer) {
        Ok(raw) => Ok(decode_names(&raw)),
        Err(e) => Err(e),
    }
}

} // verus!
