//! Facts about the parser as a whole, proved from its specification.
use vstd::prelude::*;
use vstd::utf8::{decode_utf8, valid_utf8};
use crate::bytes::{fits, le16, le32};
use crate::parsedllexports::{
    cstr, cstr_end, decoded_names, descriptor_at, is_64bit, names_upto, optional_offset, pe_offset,
    name_at, resolve_rva, slot_target, walk_spec, PE32_MAGIC, PE32_PLUS_MAGIC, export_name_bytes_spec, export_rva, export_size, headers_ok, parse_exports_spec,
    resolve_from, section_count, section_holds, section_table, DllParserError,
};

verus! {

/// A buffer shorter than the stub header, or one that does not start with
/// `MZ`, is rejected as malformed.
pub proof fn lemma_bad_stub_rejected(b: Seq<u8>)
    requires
        b.len() < 64 || b[0] != 0x4D || b[1] != 0x5A,
    ensures
        parse_exports_spec(b) == Err::<Seq<Seq<char>>, DllParserError>(DllParserError::InvalidPeFormat),
{
}

/// An image with well-formed headers whose export directory descriptor has a
/// zero address or a zero size exports nothing, and that is a success.
pub proof fn lemma_no_export_directory(b: Seq<u8>)
    requires
        headers_ok(b),
        export_rva(b) == 0 || export_size(b) == 0,
    ensures
        parse_exports_spec(b) == Ok::<Seq<Seq<char>>, DllParserError>(seq![]),
{
    reveal(Seq::filter);
    assert(decoded_names(seq![]) =~= seq![]);
}

proof fn lemma_resolve_misses(b: Seq<u8>, sho: int, n: int, rva: int, i: int)
    requires
        0 <= i,
        forall|k: int|
            i <= k < n ==> fits(b, #[trigger] descriptor_at(sho, k), 40) && !section_holds(
                b,
                descriptor_at(sho, k),
                rva,
            ),
    ensures
        resolve_from(b, sho, n, rva, i) == Err::<int, DllParserError>(DllParserError::UnsupportedFormat),
    decreases n - i,
{
    if i < n {
        assert(fits(b, descriptor_at(sho, i), 40) && !section_holds(b, descriptor_at(sho, i), rva));
        lemma_resolve_misses(b, sho, n, rva, i + 1);
    }
}

/// When every section descriptor lies inside the buffer and none of them
/// covers the export directory's address, the image is unsupported.
pub proof fn lemma_export_directory_unplaced(b: Seq<u8>)
    requires
        headers_ok(b),
        export_rva(b) != 0,
        export_size(b) != 0,
        forall|k: int|
            0 <= k < section_count(b) ==> fits(b, #[trigger] descriptor_at(section_table(b), k), 40)
                && !section_holds(
                b,
                descriptor_at(section_table(b), k),
                export_rva(b),
            ),
    ensures
        parse_exports_spec(b) == Err::<Seq<Seq<char>>, DllParserError>(DllParserError::UnsupportedFormat),
{
    lemma_resolve_misses(b, section_table(b), section_count(b), export_rva(b), 0);
}

proof fn lemma_filter_all(s: Seq<Seq<u8>>)
    requires
        forall|k: int| 0 <= k < s.len() ==> valid_utf8(#[trigger] s[k]),
    ensures
        s.filter(|x: Seq<u8>| valid_utf8(x)) == s,
    decreases s.len(),
{
    reveal(Seq::filter);
    if s.len() > 0 {
        let d = s.drop_last();
        assert forall|k: int| 0 <= k < d.len() implies valid_utf8(#[trigger] d[k]) by {
            assert(d[k] == s[k]);
        }
        lemma_filter_all(d);
        assert(valid_utf8(s[s.len() - 1]));
        assert(d.push(s.last()) =~= s);
    }
}

/// When exactly one export name is not well-formed UTF-8, the parse still
/// succeeds and returns every other name, decoded, in its original order.
pub proof fn lemma_one_bad_name_skipped(b: Seq<u8>, raw: Seq<Seq<u8>>, j: int)
    requires
        export_name_bytes_spec(b) == Ok::<Seq<Seq<u8>>, DllParserError>(raw),
        0 <= j < raw.len(),
        !valid_utf8(raw[j]),
        forall|k: int| 0 <= k < raw.len() && k != j ==> valid_utf8(#[trigger] raw[k]),
    ensures
        parse_exports_spec(b) == Ok::<Seq<Seq<char>>, DllParserError>(
            raw.remove(j).map_values(|x: Seq<u8>| decode_utf8(x)),
        ),
        raw.remove(j).len() == raw.len() - 1,
{
    let f = |x: Seq<u8>| valid_utf8(x);
    let front = raw.take(j);
    let back = raw.skip(j + 1);
    assert(raw =~= front + seq![raw[j]] + back);
    assert(raw.remove(j) =~= front + back);
    assert forall|k: int| 0 <= k < front.len() implies valid_utf8(#[trigger] front[k]) by {
        assert(front[k] == raw[k]);
    }
    assert forall|k: int| 0 <= k < back.len() implies valid_utf8(#[trigger] back[k]) by {
        assert(back[k] == raw[k + j + 1]);
    }
    lemma_filter_all(front);
    lemma_filter_all(back);
    Seq::filter_distributes_over_add(front + seq![raw[j]], back, f);
    Seq::filter_distributes_over_add(front, seq![raw[j]], f);
    reveal(Seq::filter);
    assert(seq![raw[j]].drop_last() =~= Seq::<Seq<u8>>::empty());
    assert(Seq::<Seq<u8>>::empty().filter(f) =~= Seq::<Seq<u8>>::empty());
    assert(seq![raw[j]].filter(f) =~= Seq::<Seq<u8>>::empty());
    assert(raw.filter(f) =~= front + back);
}

/// Parsing is a function of the bytes alone: the same bytes give the same
/// ordered result every time.
pub proof fn lemma_parse_deterministic(b1: Seq<u8>, b2: Seq<u8>)
    requires
        b1 == b2,
    ensures
        parse_exports_spec(b1) == parse_exports_spec(b2),
{
}

/// `b1` and `b2` have the same length and the same bytes from index `m` on.
pub open spec fn agree_from(b1: Seq<u8>, b2: Seq<u8>, m: int) -> bool {
    b1.len() == b2.len() && forall|i: int| m <= i < b1.len() ==> #[trigger] b1[i] == b2[i]
}

/// Every file offset that the export walk of `b` derives lies at or beyond
/// `m`: the section table, the export directory, the name-pointer array and
/// the start of each name.
pub open spec fn walk_stays_from(b: Seq<u8>, sho: int, n: int, rva: int, m: int) -> bool {
    sho >= m && match resolve_rva(b, sho, n, rva) {
        Err(_) => true,
        Ok(d) => d >= m && (fits(b, d + 24, 4) && fits(b, d + 32, 4) ==> match resolve_rva(
            b,
            sho,
            n,
            le32(b, d + 32),
        ) {
            Err(_) => true,
            Ok(a) => a >= m && forall|i: int|
                0 <= i < le32(b, d + 24) && #[trigger] slot_target(b, sho, n, a, i) is Ok ==> slot_target(
                    b,
                    sho,
                    n,
                    a,
                    i,
                )->Ok_0 >= m,
        }),
    }
}

proof fn lemma_resolve_frame(b1: Seq<u8>, b2: Seq<u8>, sho: int, n: int, rva: int, m: int, i: int)
    requires
        agree_from(b1, b2, m),
        sho >= m,
        i >= 0,
    ensures
        resolve_from(b1, sho, n, rva, i) == resolve_from(b2, sho, n, rva, i),
    decreases n - i,
{
    if i < n {
        let s = descriptor_at(sho, i);
        if fits(b1, s, 40) {
            assert(le32(b1, s + 12) == le32(b2, s + 12));
            assert(le32(b1, s + 16) == le32(b2, s + 16));
            assert(le32(b1, s + 20) == le32(b2, s + 20));
        }
        lemma_resolve_frame(b1, b2, sho, n, rva, m, i + 1);
    }
}

proof fn lemma_cstr_end_frame(b1: Seq<u8>, b2: Seq<u8>, m: int, i: int)
    requires
        agree_from(b1, b2, m),
        i >= m,
    ensures
        cstr_end(b1, i) == cstr_end(b2, i),
        0 <= i <= b1.len() ==> i <= cstr_end(b1, i) <= b1.len(),
    decreases b1.len() - i,
{
    if 0 <= i < b1.len() && b1[i] != 0 {
        lemma_cstr_end_frame(b1, b2, m, i + 1);
    }
}

proof fn lemma_cstr_frame(b1: Seq<u8>, b2: Seq<u8>, m: int, o: int)
    requires
        agree_from(b1, b2, m),
        o >= m,
    ensures
        cstr(b1, o) == cstr(b2, o),
{
    lemma_cstr_end_frame(b1, b2, m, o);
    if 0 <= o < b1.len() {
        assert(b1.subrange(o, cstr_end(b1, o)) =~= b2.subrange(o, cstr_end(b2, o)));
    }
}

proof fn lemma_names_frame(b1: Seq<u8>, b2: Seq<u8>, sho: int, n: int, a: int, m: int, k: int)
    requires
        agree_from(b1, b2, m),
        sho >= m,
        a >= m,
        forall|i: int|
            0 <= i < k && #[trigger] slot_target(b1, sho, n, a, i) is Ok ==> slot_target(
                b1,
                sho,
                n,
                a,
                i,
            )->Ok_0 >= m,
    ensures
        names_upto(b1, sho, n, a, k) == names_upto(b2, sho, n, a, k),
    decreases k,
{
    if k > 0 {
        lemma_names_frame(b1, b2, sho, n, a, m, k - 1);
        let i = k - 1;
        if fits(b1, a + 4 * i, 4) {
            assert(le32(b1, a + 4 * i) == le32(b2, a + 4 * i));
            lemma_resolve_frame(b1, b2, sho, n, le32(b1, a + 4 * i), m, 0);
            assert(slot_target(b1, sho, n, a, i) == slot_target(b2, sho, n, a, i));
            if slot_target(b1, sho, n, a, i) is Ok {
                lemma_cstr_frame(b1, b2, m, slot_target(b1, sho, n, a, i)->Ok_0);
            }
        }
    }
}

/// The export walk reads nothing before `m` when every offset it derives lies
/// at or beyond `m`, so two buffers that agree from `m` on walk alike.
pub proof fn lemma_walk_frame(b1: Seq<u8>, b2: Seq<u8>, sho: int, n: int, rva: int, m: int)
    requires
        agree_from(b1, b2, m),
        walk_stays_from(b1, sho, n, rva, m),
    ensures
        walk_spec(b1, sho, n, rva) == walk_spec(b2, sho, n, rva),
{
    lemma_resolve_frame(b1, b2, sho, n, rva, m, 0);
    if resolve_rva(b1, sho, n, rva) is Ok {
        let d = resolve_rva(b1, sho, n, rva)->Ok_0;
        if fits(b1, d + 24, 4) && fits(b1, d + 32, 4) {
            assert(le32(b1, d + 24) == le32(b2, d + 24));
            assert(le32(b1, d + 32) == le32(b2, d + 32));
            lemma_resolve_frame(b1, b2, sho, n, le32(b1, d + 32), m, 0);
            if resolve_rva(b1, sho, n, le32(b1, d + 32)) is Ok {
                let a = resolve_rva(b1, sho, n, le32(b1, d + 32))->Ok_0;
                lemma_names_frame(b1, b2, sho, n, a, m, le32(b1, d + 24));
            }
        }
    }
}

/// The bytes that tell a 32-bit image from its 64-bit twin, for an image
/// header at `pe`: the machine type, the optional-header magic, and the 32-bit
/// layout's export directory descriptor.
pub open spec fn word_size_byte(pe: int, i: int) -> bool {
    pe + 4 <= i < pe + 6 || pe + 24 <= i < pe + 26 || pe + 120 <= i < pe + 128
}

/// A 32-bit image and a 64-bit image that differ only in the machine type, the
/// optional-header magic and the place of the export directory descriptor
/// (96 against 112 bytes into the optional header) list the same exports,
/// provided the export walk reads nothing inside the optional header's first
/// 104 bytes and the buffer can hold the 64-bit descriptor.
pub proof fn lemma_word_size_agnostic(b32: Seq<u8>, b64: Seq<u8>)
    requires
        b32.len() == b64.len(),
        b64.len() >= optional_offset(b64) + 120,
        pe_offset(b32) == pe_offset(b64),
        is_64bit(b64),
        !is_64bit(b32),
        le16(b64, optional_offset(b64)) == PE32_PLUS_MAGIC,
        le16(b32, optional_offset(b32)) == PE32_MAGIC,
        le32(b32, optional_offset(b32) + 96) == le32(b64, optional_offset(b64) + 112),
        le32(b32, optional_offset(b32) + 100) == le32(b64, optional_offset(b64) + 116),
        forall|i: int|
            0 <= i < b32.len() && !word_size_byte(pe_offset(b64), i) ==> #[trigger] b32[i] == b64[i],
        walk_stays_from(
            b64,
            section_table(b64),
            section_count(b64),
            export_rva(b64),
            optional_offset(b64) + 104,
        ),
    ensures
        parse_exports_spec(b32) == parse_exports_spec(b64),
{
    let pe = pe_offset(b64);
    let m = optional_offset(b64) + 104;
    if pe >= 0 {
        assert(b32[0] == b64[0]);
        assert(b32[1] == b64[1]);
        assert(b32[pe] == b64[pe]);
        assert(b32[pe + 1] == b64[pe + 1]);
        assert(b32[pe + 2] == b64[pe + 2]);
        assert(b32[pe + 3] == b64[pe + 3]);
        assert(le16(b32, pe + 6) == le16(b64, pe + 6));
        assert(le16(b32, pe + 20) == le16(b64, pe + 20));
        assert(agree_from(b64, b32, m));
        lemma_walk_frame(b64, b32, section_table(b64), section_count(b64), export_rva(b64), m);
    }
}

proof fn lemma_resolve_no_io(b: Seq<u8>, sho: int, n: int, rva: int, i: int)
    ensures
        resolve_from(b, sho, n, rva, i) is Err ==> !(resolve_from(b, sho, n, rva, i)->Err_0 is IoError),
    decreases n - i,
{
    if i < n {
        lemma_resolve_no_io(b, sho, n, rva, i + 1);
    }
}

proof fn lemma_names_no_io(b: Seq<u8>, sho: int, n: int, a: int, k: int)
    ensures
        names_upto(b, sho, n, a, k) is Err ==> !(names_upto(b, sho, n, a, k)->Err_0 is IoError),
    decreases k,
{
    if k > 0 {
        lemma_names_no_io(b, sho, n, a, k - 1);
        lemma_resolve_no_io(b, sho, n, le32(b, a + 4 * (k - 1)), 0);
        assert(name_at(b, sho, n, a, k - 1) is Err ==> !(name_at(b, sho, n, a, k - 1)->Err_0 is IoError));
    }
}

/// The parser itself never fails with `IoError`: every failure it reports is
/// `InvalidPeFormat` or `UnsupportedFormat`.
pub proof fn lemma_no_io_error(b: Seq<u8>)
    ensures
        parse_exports_spec(b) is Err ==> !(parse_exports_spec(b)->Err_0 is IoError),
{
    let sho = section_table(b);
    let n = section_count(b);
    lemma_resolve_no_io(b, sho, n, export_rva(b), 0);
    if resolve_rva(b, sho, n, export_rva(b)) is Ok {
        let d = resolve_rva(b, sho, n, export_rva(b))->Ok_0;
        lemma_resolve_no_io(b, sho, n, le32(b, d + 32), 0);
        if resolve_rva(b, sho, n, le32(b, d + 32)) is Ok {
            let a = resolve_rva(b, sho, n, le32(b, d + 32))->Ok_0;
            lemma_names_no_io(b, sho, n, a, le32(b, d + 24));
        }
    }
}

} // verus!
