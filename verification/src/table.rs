//! The table of loaded kernel modules, as the kernel lays it out in memory.
//!
//! A table starts with the number of its entries, a 32-bit integer. The entries follow from the
//! first offset that a pointer may have. All integers are little-endian, as on every machine
//! that Windows runs on.

use vstd::prelude::*;

verus! {

/// The value of a little-endian integer.
pub open spec fn le_value(bytes: Seq<u8>) -> int
    decreases bytes.len(),
{
    if bytes.len() == 0 {
        0
    } else {
        bytes[0] + 0x100 * le_value(bytes.skip(1))
    }
}

/// The number of values that `n` bytes can have.
pub open spec fn byte_range(n: nat) -> int
    decreases n,
{
    if n == 0 {
        1
    } else {
        0x100 * byte_range((n - 1) as nat)
    }
}

pub(crate) proof fn lemma_le_value_bound(bytes: Seq<u8>)
    ensures
        0 <= le_value(bytes) < byte_range(bytes.len()),
    decreases bytes.len(),
{
    if bytes.len() > 0 {
        lemma_le_value_bound(bytes.skip(1));
    }
}

/// Reads the little-endian integer of `width` bytes at `at`.
fn read_le(data: &[u8], at: usize, width: usize) -> (value: u64)
    requires
        at + width <= data.len(),
        width <= 8,
    ensures
        value == le_value(data@.subrange(at as int, at + width)),
        value < byte_range(width as nat),
{
    let mut value: u64 = 0;
    let mut left: usize = width;
    proof {
        assert(data@.subrange(at + left, at + width).len() == 0);
    }
    while left > 0
        invariant
            left <= width <= 8,
            at + width <= data.len(),
            value == le_value(data@.subrange(at + left, at + width)),
        decreases left,
    {
        proof {
            let upper = data@.subrange(at + left, at + width);
            lemma_le_value_bound(upper);
            reveal_with_fuel(byte_range, 9);
            assert(data@.subrange(at + left - 1, at + width).skip(1) =~= upper);
        }
        left -= 1;
        value = value * 0x100 + data[at + left] as u64;
    }
    proof {
        lemma_le_value_bound(data@.subrange(at as int, at + width));
    }
    value
}

/// The size of a pointer.
pub open spec fn pointer_size() -> int {
    vstd::layout::size_of::<usize>() as int
}

/// A pointer has four or eight bytes, and its values are those of `usize`.
pub(crate) proof fn lemma_pointer_size()
    ensures
        pointer_size() == 4 || pointer_size() == 8,
        byte_range(pointer_size() as nat) == usize::MAX + 1,
{
    broadcast use vstd::layout::layout_of_primitives;

    reveal_with_fuel(byte_range, 9);
}

pub(crate) fn pointer_width() -> (width: usize)
    ensures
        width == pointer_size(),
        width == 4 || width == 8,
        byte_range(width as nat) == usize::MAX + 1,
{
    proof {
        lemma_pointer_size();
    }
    core::mem::size_of::<usize>()
}

/// The number of bytes that an entry has for the path of its module.
pub const PATH_CAPACITY: usize = 256;

/// The entry of one module: three pointers, two 32-bit integers, four 16-bit integers and the
/// path.
pub struct RtlProcessModuleInformation {
    pub section: usize,
    pub mapped_base: usize,
    /// Where the module is loaded.
    pub image_base: usize,
    pub image_size: u32,
    pub flags: u32,
    pub load_order_index: u16,
    pub init_order_index: u16,
    pub load_count: u16,
    /// Where the file's name starts in the path.
    pub offset_to_file_name: u16,
    /// The path, up to the first zero byte.
    pub full_path_name: [u8; 256],
}

/// An entry as numbers and bytes.
#[verifier::ext_equal]
pub struct ModuleEntry {
    pub section: int,
    pub mapped_base: int,
    pub image_base: int,
    pub image_size: int,
    pub flags: int,
    pub load_order_index: int,
    pub init_order_index: int,
    pub load_count: int,
    pub offset_to_file_name: int,
    pub full_path_name: Seq<u8>,
}

impl View for RtlProcessModuleInformation {
    type V = ModuleEntry;

    open spec fn view(&self) -> ModuleEntry {
        ModuleEntry {
            section: self.section as int,
            mapped_base: self.mapped_base as int,
            image_base: self.image_base as int,
            image_size: self.image_size as int,
            flags: self.flags as int,
            load_order_index: self.load_order_index as int,
            init_order_index: self.init_order_index as int,
            load_count: self.load_count as int,
            offset_to_file_name: self.offset_to_file_name as int,
            full_path_name: self.full_path_name@,
        }
    }
}

/// The size of an entry.
pub open spec fn entry_size() -> int {
    3 * pointer_size() + 16 + PATH_CAPACITY
}

/// The entry that `bytes` hold.
pub open spec fn decode_entry(bytes: Seq<u8>) -> ModuleEntry {
    let p = pointer_size();
    ModuleEntry {
        section: le_value(bytes.subrange(0, p)),
        mapped_base: le_value(bytes.subrange(p, 2 * p)),
        image_base: le_value(bytes.subrange(2 * p, 3 * p)),
        image_size: le_value(bytes.subrange(3 * p, 3 * p + 4)),
        flags: le_value(bytes.subrange(3 * p + 4, 3 * p + 8)),
        load_order_index: le_value(bytes.subrange(3 * p + 8, 3 * p + 10)),
        init_order_index: le_value(bytes.subrange(3 * p + 10, 3 * p + 12)),
        load_count: le_value(bytes.subrange(3 * p + 12, 3 * p + 14)),
        offset_to_file_name: le_value(bytes.subrange(3 * p + 14, 3 * p + 16)),
        full_path_name: bytes.subrange(3 * p + 16, 3 * p + 16 + PATH_CAPACITY),
    }
}

/// Reads the 16-bit integer at `at`.
fn read_u16(data: &[u8], at: usize) -> (value: u16)
    requires
        at + 2 <= data.len(),
    ensures
        value == le_value(data@.subrange(at as int, at + 2)),
{
    let value: u64 = read_le(data, at, 2);
    proof {
        reveal_with_fuel(byte_range, 9);
    }
    value as u16
}

/// Reads the 32-bit integer at `at`.
pub(crate) fn read_u32(data: &[u8], at: usize) -> (value: u32)
    requires
        at + 4 <= data.len(),
    ensures
        value == le_value(data@.subrange(at as int, at + 4)),
{
    let value: u64 = read_le(data, at, 4);
    proof {
        reveal_with_fuel(byte_range, 9);
    }
    value as u32
}

/// Reads the path of the entry whose path starts at `at`.
fn read_path(data: &[u8], at: usize) -> (path: [u8; 256])
    requires
        at + PATH_CAPACITY <= data.len(),
    ensures
        path@ == data@.subrange(at as int, at + PATH_CAPACITY),
{
    let mut path: [u8; 256] = [0u8; 256];
    let mut i: usize = 0;
    while i < PATH_CAPACITY
        invariant
            i <= PATH_CAPACITY,
            at + PATH_CAPACITY <= data.len(),
            forall|j: int| 0 <= j < i ==> path@[j] == data@[at + j],
        decreases PATH_CAPACITY - i,
    {
        path[i] = data[at + i];
        i += 1;
    }
    proof {
        assert(path@ =~= data@.subrange(at as int, at + PATH_CAPACITY));
    }
    path
}

/// Reads an entry from its bytes.
pub(crate) fn read_entry(bytes: &[u8]) -> (entry: RtlProcessModuleInformation)
    requires
        bytes.len() == entry_size(),
    ensures
        entry@ == decode_entry(bytes@),
{
    let p: usize = pointer_width();
    RtlProcessModuleInformation {
        section: read_le(bytes, 0, p) as usize,
        mapped_base: read_le(bytes, p, p) as usize,
        image_base: read_le(bytes, 2 * p, p) as usize,
        image_size: read_u32(bytes, 3 * p),
        flags: read_u32(bytes, 3 * p + 4),
        load_order_index: read_u16(bytes, 3 * p + 8),
        init_order_index: read_u16(bytes, 3 * p + 10),
        load_count: read_u16(bytes, 3 * p + 12),
        offset_to_file_name: read_u16(bytes, 3 * p + 14),
        full_path_name: read_path(bytes, 3 * p + 16),
    }
}

/// The `n` bytes of a little-endian integer.
pub open spec fn le_bytes(value: int, n: nat) -> Seq<u8>
    decreases n,
{
    if n == 0 {
        seq![]
    } else {
        seq![(value % 0x100) as u8] + le_bytes(value / 0x100, (n - 1) as nat)
    }
}

/// Reading gives back every integer that was written in enough bytes.
pub proof fn law_integer_reads_back(value: int, n: nat)
    requires
        0 <= value < byte_range(n),
    ensures
        le_bytes(value, n).len() == n,
        le_value(le_bytes(value, n)) == value,
    decreases n,
{
    if n > 0 {
        let rest = le_bytes(value / 0x100, (n - 1) as nat);
        law_integer_reads_back(value / 0x100, (n - 1) as nat);
        assert(le_bytes(value, n).skip(1) =~= rest);
    }
}

/// Whether the fields of an entry fit in their places.
pub open spec fn entry_fits(entry: ModuleEntry) -> bool {
    &&& 0 <= entry.section <= usize::MAX
    &&& 0 <= entry.mapped_base <= usize::MAX
    &&& 0 <= entry.image_base <= usize::MAX
    &&& 0 <= entry.image_size <= u32::MAX
    &&& 0 <= entry.flags <= u32::MAX
    &&& 0 <= entry.load_order_index <= u16::MAX
    &&& 0 <= entry.init_order_index <= u16::MAX
    &&& 0 <= entry.load_count <= u16::MAX
    &&& 0 <= entry.offset_to_file_name <= u16::MAX
    &&& entry.full_path_name.len() == PATH_CAPACITY
}

/// The bytes of an entry.
pub open spec fn encode_entry(entry: ModuleEntry) -> Seq<u8> {
    let p = pointer_size() as nat;
    le_bytes(entry.section, p) + le_bytes(entry.mapped_base, p) + le_bytes(entry.image_base, p)
        + le_bytes(entry.image_size, 4) + le_bytes(entry.flags, 4) + le_bytes(
        entry.load_order_index,
        2,
    ) + le_bytes(entry.init_order_index, 2) + le_bytes(entry.load_count, 2) + le_bytes(
        entry.offset_to_file_name,
        2,
    ) + entry.full_path_name
}

/// Reading gives back every entry that was written.
pub proof fn law_entry_reads_back(entry: ModuleEntry)
    requires
        entry_fits(entry),
    ensures
        encode_entry(entry).len() == entry_size(),
        decode_entry(encode_entry(entry)) == entry,
{
    lemma_pointer_size();
    reveal_with_fuel(byte_range, 9);
    let p = pointer_size();
    law_integer_reads_back(entry.section, p as nat);
    law_integer_reads_back(entry.mapped_base, p as nat);
    law_integer_reads_back(entry.image_base, p as nat);
    law_integer_reads_back(entry.image_size, 4);
    law_integer_reads_back(entry.flags, 4);
    law_integer_reads_back(entry.load_order_index, 2);
    law_integer_reads_back(entry.init_order_index, 2);
    law_integer_reads_back(entry.load_count, 2);
    law_integer_reads_back(entry.offset_to_file_name, 2);
    let bytes = encode_entry(entry);
    assert(bytes.subrange(0, p) =~= le_bytes(entry.section, p as nat));
    assert(bytes.subrange(p, 2 * p) =~= le_bytes(entry.mapped_base, p as nat));
    assert(bytes.subrange(2 * p, 3 * p) =~= le_bytes(entry.image_base, p as nat));
    assert(bytes.subrange(3 * p, 3 * p + 4) =~= le_bytes(entry.image_size, 4));
    assert(bytes.subrange(3 * p + 4, 3 * p + 8) =~= le_bytes(entry.flags, 4));
    assert(bytes.subrange(3 * p + 8, 3 * p + 10) =~= le_bytes(entry.load_order_index, 2));
    assert(bytes.subrange(3 * p + 10, 3 * p + 12) =~= le_bytes(entry.init_order_index, 2));
    assert(bytes.subrange(3 * p + 12, 3 * p + 14) =~= le_bytes(entry.load_count, 2));
    assert(bytes.subrange(3 * p + 14, 3 * p + 16) =~= le_bytes(entry.offset_to_file_name, 2));
    assert(bytes.subrange(3 * p + 16, 3 * p + 16 + PATH_CAPACITY) =~= entry.full_path_name);
}

/// The value of an integer of two, four or eight bytes: the first byte weighs least.
pub proof fn law_integer_value(b: Seq<u8>)
    ensures
        b.len() == 2 ==> le_value(b) == b[0] + 0x100 * b[1],
        b.len() == 4 ==> le_value(b) == b[0] + 0x100 * b[1] + 0x1_0000 * b[2] + 0x100_0000 * b[3],
        b.len() == 8 ==> le_value(b) == b[0] + 0x100 * b[1] + 0x1_0000 * b[2] + 0x100_0000 * b[3]
            + 0x1_0000_0000 * b[4] + 0x100_0000_0000 * b[5] + 0x1_0000_0000_0000 * b[6]
            + 0x100_0000_0000_0000 * b[7],
{
    lemma_le_value_step(b, 0);
    lemma_le_value_step(b, 1);
    lemma_le_value_step(b, 2);
    lemma_le_value_step(b, 3);
    lemma_le_value_step(b, 4);
    lemma_le_value_step(b, 5);
    lemma_le_value_step(b, 6);
    lemma_le_value_step(b, 7);
    assert(b.skip(0) =~= b);
}

proof fn lemma_le_value_step(b: Seq<u8>, i: int)
    requires
        0 <= i,
    ensures
        i < b.len() ==> le_value(b.skip(i)) == b[i] + 0x100 * le_value(b.skip(i + 1)),
        i + 1 == b.len() ==> le_value(b.skip(i + 1)) == 0,
{
    if i < b.len() {
        assert(b.skip(i).skip(1) =~= b.skip(i + 1));
    }
}

/// Where the fields of an entry are, counted from its start. Pointers come first, as many bytes as
/// an address has.
pub proof fn law_entry_fields(b: Seq<u8>, p: int)
    requires
        p == vstd::layout::size_of::<usize>(),
        b.len() == 3 * p + 272,
    ensures
        entry_size() == 3 * p + 272,
        decode_entry(b).section == le_value(b.subrange(0, p)),
        decode_entry(b).mapped_base == le_value(b.subrange(p, 2 * p)),
        decode_entry(b).image_base == le_value(b.subrange(2 * p, 3 * p)),
        decode_entry(b).image_size == le_value(b.subrange(3 * p, 3 * p + 4)),
        decode_entry(b).flags == le_value(b.subrange(3 * p + 4, 3 * p + 8)),
        decode_entry(b).load_order_index == le_value(b.subrange(3 * p + 8, 3 * p + 10)),
        decode_entry(b).init_order_index == le_value(b.subrange(3 * p + 10, 3 * p + 12)),
        decode_entry(b).load_count == le_value(b.subrange(3 * p + 12, 3 * p + 14)),
        decode_entry(b).offset_to_file_name == le_value(b.subrange(3 * p + 14, 3 * p + 16)),
        decode_entry(b).full_path_name == b.subrange(3 * p + 16, 3 * p + 272),
{
}

} // verus!
