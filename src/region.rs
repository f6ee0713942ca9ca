//! Memory region descriptors, their table rows, and address lookup.
use vstd::prelude::*;
use vstd::string::StringExecFns;
use crate::text::{hex_fixed, dec, pad_left, push_char, push_hex, push_dec_padded, push_str};
use crate::size::{format_size, size_text};

verus! {

/// The region type of free, usable memory.
pub const CONVENTIONAL: u32 = 7;

/// One contiguous range of memory as the firmware reports it.
#[derive(Clone, Copy, Debug, PartialEq, Eq, Structural)]
pub struct MemoryRegion {
    pub phys_start: u64,
    pub virt_start: u64,
    pub page_count: u64,
    pub ty: u32,
    pub att: u64,
}

/// The name under which the firmware library shows a region type.
pub uninterp spec fn memory_type_name(ty: u32) -> Seq<char>;

/// The text under which the firmware library shows a set of attribute flags.
pub uninterp spec fn memory_attribute_name(att: u64) -> Seq<char>;

/// Relies on the `Debug` impl of uefi's `MemoryType`: the name depends on the value alone.
#[verifier::external_body]
fn type_text(ty: u32) -> (r: String)
    ensures
        r@ == memory_type_name(ty),
{
    format!("{:?}", uefi::table::boot::MemoryType(ty))
}

/// Relies on the `Debug` impl of uefi's `MemoryAttribute`: the text depends on the bits alone.
#[verifier::external_body]
fn attribute_text(att: u64) -> (r: String)
    ensures
        r@ == memory_attribute_name(att),
{
    format!("{:?}", uefi::table::boot::MemoryAttribute::from_bits_retain(att))
}

/// Relies on uefi's `MemoryType::CONVENTIONAL`, the type of free usable memory.
#[verifier::external_body]
fn conventional_type() -> (r: u32)
    ensures
        r == CONVENTIONAL,
{
    uefi::table::boot::MemoryType::CONVENTIONAL.0
}

/// Whether a region is free, usable memory.
pub fn is_conventional(r: &MemoryRegion) -> (b: bool)
    ensures
        b == (r.ty == CONVENTIONAL),
{
    r.ty == conventional_type()
}

/// The first address past the region.
pub open spec fn region_end(r: MemoryRegion) -> int {
    r.phys_start + r.page_count * 4096
}

/// Whether the region covers `addr`.
pub open spec fn contains(r: MemoryRegion, addr: int) -> bool {
    r.phys_start <= addr < region_end(r)
}

/// The index of the first region of `s` that covers `addr`, if any.
pub open spec fn first_containing(s: Seq<MemoryRegion>, addr: int) -> Option<int>
    decreases s.len(),
{
    if s.len() == 0 {
        None
    } else {
        match first_containing(s.drop_last(), addr) {
            Some(k) => Some(k),
            None => if contains(s.last(), addr) {
                Some(s.len() - 1)
            } else {
                None
            },
        }
    }
}

/// The table row of a region: physical and virtual start in sixteen hex digits, the page count
/// right-justified in twelve, the size, the type, and the attributes in parentheses.
pub open spec fn row_text(r: MemoryRegion) -> Seq<char> {
    hex_fixed(r.phys_start as nat, 16) + seq![' '] + hex_fixed(r.virt_start as nat, 16) + seq![' ']
        + pad_left(dec(r.page_count as nat), 12) + seq![' '] + size_text(r.page_count as nat)
        + seq![' '] + memory_type_name(r.ty) + seq![' ', '('] + memory_attribute_name(r.att)
        + seq![')']
}

/// What a lookup shows when no region covers the address.
pub open spec fn not_found_text() -> Seq<char> {
    seq!['-', '-', ' ', 'n', 'o', 't', ' ', 'f', 'o', 'u', 'n', 'd', ' ', '-', '-']
}

/// The table row of `r`.
pub fn region_row(r: &MemoryRegion) -> (s: String)
    ensures
        s@ == row_text(*r),
{
    let mut s = String::new();
    push_hex(&mut s, r.phys_start, 16);
    push_char(&mut s, ' ');
    push_hex(&mut s, r.virt_start, 16);
    push_char(&mut s, ' ');
    push_dec_padded(&mut s, r.page_count as u128, 12);
    push_char(&mut s, ' ');
    let size = format_size(r.page_count as u128);
    push_str(&mut s, size.as_str());
    push_char(&mut s, ' ');
    let ty = type_text(r.ty);
    push_str(&mut s, ty.as_str());
    push_char(&mut s, ' ');
    push_char(&mut s, '(');
    let att = attribute_text(r.att);
    push_str(&mut s, att.as_str());
    push_char(&mut s, ')');
    assert(s@ =~= row_text(*r));
    s
}

/// Whether `r` covers `addr`, computed without overflow.
pub fn region_contains(r: &MemoryRegion, addr: u64) -> (b: bool)
    ensures
        b == contains(*r, addr as int),
{
    let end: u128 = r.phys_start as u128 + r.page_count as u128 * 4096;
    r.phys_start <= addr && (addr as u128) < end
}

/// The index of the first region of `map` that covers `addr`, in snapshot order.
pub fn find_region(map: &Vec<MemoryRegion>, addr: u64) -> (r: Option<usize>)
    ensures
        match r {
            Some(i) => i < map.len() && first_containing(map@, addr as int) == Some(i as int),
            None => first_containing(map@, addr as int).is_none(),
        },
{
    let mut i: usize = 0;
    while i < map.len()
        invariant
            i <= map.len(),
            first_containing(map@.subrange(0, i as int), addr as int).is_none(),
        decreases map.len() - i,
    {
        let ghost pre = map@.subrange(0, i as int);
        assert(map@.subrange(0, i + 1).drop_last() =~= pre);
        if region_contains(&map[i], addr) {
            proof {
                lemma_first_containing_prefix(map@, i + 1, addr as int);
            }
            return Some(i);
        }
        i = i + 1;
    }
    assert(map@.subrange(0, i as int) =~= map@);
    None
}

/// The first match is a region that covers the address, and no earlier region does;
/// without a match, no region covers it.
pub proof fn lemma_first_containing(s: Seq<MemoryRegion>, addr: int)
    ensures
        match first_containing(s, addr) {
            Some(k) => 0 <= k < s.len() && contains(s[k], addr) && forall|j: int|
                0 <= j < k ==> !contains(#[trigger] s[j], addr),
            None => forall|j: int| 0 <= j < s.len() ==> !contains(#[trigger] s[j], addr),
        },
    decreases s.len(),
{
    if s.len() > 0 {
        let p = s.drop_last();
        lemma_first_containing(p, addr);
        assert forall|j: int| 0 <= j < p.len() implies p[j] == s[j] by {}
    }
}

/// A match found in a prefix is the match in the whole sequence.
proof fn lemma_first_containing_prefix(s: Seq<MemoryRegion>, n: int, addr: int)
    requires
        0 <= n <= s.len(),
        first_containing(s.subrange(0, n), addr).is_some(),
    ensures
        first_containing(s, addr) == first_containing(s.subrange(0, n), addr),
    decreases s.len() - n,
{
    if n < s.len() {
        assert(s.subrange(0, n + 1).drop_last() =~= s.subrange(0, n));
        lemma_first_containing_prefix(s, n + 1, addr);
    } else {
        assert(s.subrange(0, n) =~= s);
    }
}

/// The row of the region that covers `addr`, or the not-found line.
pub fn locate_line(map: &Vec<MemoryRegion>, addr: u64) -> (s: String)
    ensures
        s@ == match first_containing(map@, addr as int) {
            Some(i) => row_text(map@[i]),
            None => not_found_text(),
        },
{
    match find_region(map, addr) {
        Some(i) => region_row(&map[i]),
        None => {
            let s = String::from_str("-- not found --");
            proof {
                reveal_strlit("-- not found --");
            }
            assert(s@ =~= not_found_text());
            s
        },
    }
}

/// No two regions of the snapshot share an address.
pub open spec fn pairwise_disjoint(s: Seq<MemoryRegion>) -> bool {
    forall|j: int, k: int|
        0 <= j < s.len() && 0 <= k < s.len() && j != k ==> region_end(#[trigger] s[j])
            <= s[k].phys_start || region_end(#[trigger] s[k]) <= s[j].phys_start
}

/// In a snapshot of disjoint regions, looking up the first and the last address of a
/// non-empty region finds that region, and looking up the address just past its end finds
/// nothing unless another region starts exactly there.
pub proof fn lemma_lookup_bounds(s: Seq<MemoryRegion>, i: int)
    requires
        0 <= i < s.len(),
        s[i].page_count > 0,
        pairwise_disjoint(s),
    ensures
        first_containing(s, s[i].phys_start as int) == Some(i),
        first_containing(s, region_end(s[i]) - 1) == Some(i),
        (forall|j: int| 0 <= j < s.len() ==> s[j].phys_start != region_end(s[i])) ==> first_containing(
            s,
            region_end(s[i]),
        ).is_none(),
{
    let start = s[i].phys_start as int;
    let end = region_end(s[i]);
    lemma_first_containing(s, start);
    lemma_first_containing(s, end - 1);
    lemma_first_containing(s, end);
    assert(contains(s[i], start));
    assert(contains(s[i], end - 1));
    if (forall|j: int| 0 <= j < s.len() ==> s[j].phys_start != end) {
        match first_containing(s, end) {
            Some(k) => {
                assert(s[k].phys_start != end);
            },
            None => {},
        }
    }
}

} // verus!
