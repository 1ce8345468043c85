//! The loaded kernel modules, out of the kernel's table.

use vstd::prelude::*;
use vstd::slice::slice_subrange;

use crate::error::{ErrorKind, ErrorOrigin, OsError};
use crate::table::{
    pointer_width, read_entry, read_u32, RtlProcessModuleInformation, PATH_CAPACITY,
};
use crate::text::{decode_utf8_lossy, split_basename};
use crate::types::Address;

verus! {

/// A loaded kernel module.
#[derive(Debug)]
pub struct KernelModule {
    pub base: Address,
    pub size: u64,
    pub path: String,
    pub name: String,
}

/// A `KernelModule` with its strings as sequences of characters.
#[verifier::ext_equal]
pub struct KernelModuleView {
    pub base: Address,
    pub size: u64,
    pub path: Seq<char>,
    pub name: Seq<char>,
}

impl View for KernelModule {
    type V = KernelModuleView;

    open spec fn view(&self) -> KernelModuleView {
        KernelModuleView {
            base: self.base,
            size: self.size,
            path: self.path@,
            name: self.name@,
        }
    }
}

/// The bytes of a path: those before the first zero.
pub open spec fn path_bytes(full_path_name: Seq<u8>) -> Seq<u8> {
    crate::text::before_first(full_path_name, 0u8)
}

/// The text of a path.
pub open spec fn path_text(full_path_name: Seq<u8>) -> Seq<char> {
    crate::text::utf8_lossy(path_bytes(full_path_name))
}

/// The text of the file's name, if `offset` lies inside the path.
pub open spec fn file_name_text(full_path_name: Seq<u8>, offset: int) -> Option<Seq<char>> {
    if offset < path_bytes(full_path_name).len() {
        Some(crate::text::utf8_lossy(path_bytes(full_path_name).skip(offset)))
    } else {
        None
    }
}

/// The name of a module with the path `path`: the file's name, or the end of the path if there
/// is no file name or an empty one.
pub open spec fn chosen_name(path: Seq<char>, file_name: Option<Seq<char>>) -> Seq<char> {
    match file_name {
        Some(name) if name.len() > 0 => name,
        _ => crate::text::basename(path),
    }
}

/// Picks the name of a module.
pub fn choose_name(path: &str, file_name: Option<String>) -> (name: String)
    ensures
        name@ == chosen_name(
            path@,
            match file_name {
                Some(text) => Some(text@),
                None => None,
            },
        ),
{
    match file_name {
        Some(text) => {
            if text.as_str().is_empty() {
                split_basename(path).to_owned()
            } else {
                text
            }
        },
        None => split_basename(path).to_owned(),
    }
}

/// The number of bytes before the first zero.
fn path_len(bytes: &[u8]) -> (len: usize)
    ensures
        len <= bytes.len(),
        bytes@.take(len as int) == path_bytes(bytes@),
        !path_bytes(bytes@).contains(0u8),
{
    let mut len: usize = 0;
    while len < bytes.len() && bytes[len] != 0
        invariant
            len <= bytes.len(),
            forall|j: int| 0 <= j < len ==> bytes@[j] != 0,
        decreases bytes.len() - len,
    {
        len += 1;
    }
    proof {
        crate::text::lemma_before_first(bytes@, 0u8, len as int);
    }
    len
}

/// Whether a path field holds the UTF-8 text of a directory and a file name, with `offset` at the
/// start of the file name.
pub open spec fn holds_path(
    full_path_name: Seq<u8>,
    offset: int,
    directory: Seq<char>,
    name: Seq<char>,
) -> bool {
    &&& path_bytes(full_path_name) == vstd::utf8::encode_utf8(directory + name)
    &&& offset == vstd::utf8::encode_utf8(directory).len()
}

/// Path and name of the module that an entry describes. The name is what follows the offset, or
/// the end of the path if the offset lies outside. Neither holds a NUL, and what was written as
/// UTF-8 is read back.
pub fn parse_module_path(info: &RtlProcessModuleInformation) -> (res: (String, String))
    ensures
        res.0@ == path_text(info.full_path_name@),
        res.1@ == chosen_name(
            path_text(info.full_path_name@),
            file_name_text(info.full_path_name@, info.offset_to_file_name as int),
        ),
        vstd::utf8::valid_utf8(path_bytes(info.full_path_name@)) ==> res.0@
            == vstd::utf8::decode_utf8(path_bytes(info.full_path_name@)),
        info.offset_to_file_name < path_bytes(info.full_path_name@).len() ==> {
            let tail = path_bytes(info.full_path_name@).skip(info.offset_to_file_name as int);
            &&& res.1@ == crate::text::utf8_lossy(tail)
            &&& res.1@.len() > 0
            &&& vstd::utf8::valid_utf8(tail) ==> res.1@ == vstd::utf8::decode_utf8(tail)
        },
        info.offset_to_file_name >= path_bytes(info.full_path_name@).len() ==> res.1@
            == crate::text::basename(res.0@),
        !res.0@.contains('\0'),
        !res.1@.contains('\0'),
        forall|directory: Seq<char>, name: Seq<char>| #[trigger]
            holds_path(
                info.full_path_name@,
                info.offset_to_file_name as int,
                directory,
                name,
            ) ==> res.0@ == directory + name && (name.len() > 0 ==> res.1@ == name),
{
    let full = info.full_path_name.as_slice();
    let path_end = path_len(full);
    let path_raw = slice_subrange(full, 0, path_end);
    let path = decode_utf8_lossy(path_raw);
    let offset = info.offset_to_file_name as usize;
    let file_name = if offset < path_end {
        let name_raw = slice_subrange(full, offset, path_end);
        proof {
            assert(name_raw@ =~= path_raw@.skip(offset as int));
            assert forall|j: int| 0 <= j < name_raw@.len() implies name_raw@[j] != 0u8 by {
                assert(path_raw@[j + offset] == name_raw@[j]);
            }
        }
        Some(decode_utf8_lossy(name_raw))
    } else {
        None
    };
    let name = choose_name(path.as_str(), file_name);
    proof {
        crate::text::lemma_after_last_without_nul(path@, '\\');
        crate::text::lemma_after_last_without_nul(path@, '/');
        assert forall|directory: Seq<char>, last: Seq<char>| #[trigger]
            holds_path(full@, offset as int, directory, last) implies path@ == directory + last && (
        last.len() > 0 ==> name@ == last) by {
            broadcast use vstd::utf8::encode_utf8_valid_utf8, vstd::utf8::encode_utf8_decode_utf8;

            crate::text::lemma_utf8_of_join(directory, last);
            if last.len() > 0 {
                vstd::utf8::encode_utf8_first_scalar(last);
                assert(path_raw@.skip(offset as int) =~= vstd::utf8::encode_utf8(last));
            }
        }
    }
    (path, name)
}

/// The module that an entry describes.
pub open spec fn module_of(entry: crate::table::ModuleEntry) -> KernelModuleView {
    KernelModuleView {
        base: Address(entry.image_base as u64),
        size: entry.image_size as u64,
        path: path_text(entry.full_path_name),
        name: chosen_name(
            path_text(entry.full_path_name),
            file_name_text(entry.full_path_name, entry.offset_to_file_name),
        ),
    }
}

/// Where the entries of a table start.
pub open spec fn table_offset() -> int {
    crate::table::pointer_size()
}

/// The number of entries that a table claims to have.
pub open spec fn table_count(data: Seq<u8>) -> int {
    crate::table::le_value(data.take(4))
}

/// Where the entries of a table end.
pub open spec fn table_end(data: Seq<u8>) -> int {
    table_offset() + table_count(data) * crate::table::entry_size()
}

/// Where the entry with the index `i` starts.
pub open spec fn entry_offset(i: int) -> int {
    table_offset() + i * crate::table::entry_size()
}

/// The entry with the index `i` of a table.
pub open spec fn table_entry(data: Seq<u8>, i: int) -> crate::table::ModuleEntry {
    crate::table::decode_entry(
        data.subrange(entry_offset(i), entry_offset(i) + crate::table::entry_size()),
    )
}

/// The modules of a table.
pub open spec fn table_modules(data: Seq<u8>) -> Seq<KernelModuleView> {
    Seq::new(table_count(data) as nat, |i: int| module_of(table_entry(data, i)))
}

/// What is wrong with a table: it is too short for its header, its end is no address, or its
/// entries are not all there.
pub open spec fn table_fault(data: Seq<u8>) -> Option<ErrorKind> {
    if data.len() < table_offset() {
        Some(ErrorKind::Unknown)
    } else if table_end(data) > usize::MAX {
        Some(ErrorKind::Unknown)
    } else if table_end(data) > data.len() {
        Some(ErrorKind::ArgValidation)
    } else {
        None
    }
}

/// The views of some modules.
pub open spec fn module_views(modules: Seq<KernelModule>) -> Seq<KernelModuleView> {
    Seq::new(modules.len(), |i: int| modules[i]@)
}

/// Whether the strings of a module are those of its entry. They hold no NUL, so that nothing of
/// them is lost in a NUL-terminated string. The name is what follows the offset, or the end of the
/// path if the offset lies outside. What was written as UTF-8 is read back.
pub open spec fn has_strings_of(
    module: KernelModuleView,
    entry: crate::table::ModuleEntry,
) -> bool {
    let bytes = path_bytes(entry.full_path_name);
    let tail = bytes.skip(entry.offset_to_file_name);
    &&& !module.path.contains('\0')
    &&& !module.name.contains('\0')
    &&& vstd::utf8::valid_utf8(bytes) ==> module.path == vstd::utf8::decode_utf8(bytes)
    &&& entry.offset_to_file_name < bytes.len() ==> {
        &&& module.name == crate::text::utf8_lossy(tail)
        &&& module.name.len() > 0
        &&& vstd::utf8::valid_utf8(tail) ==> module.name == vstd::utf8::decode_utf8(tail)
    }
    &&& entry.offset_to_file_name >= bytes.len() ==> module.name == crate::text::basename(
        module.path,
    )
    &&& forall|directory: Seq<char>, name: Seq<char>| #[trigger]
        holds_path(entry.full_path_name, entry.offset_to_file_name, directory, name)
            ==> module.path == directory + name && (name.len() > 0 ==> module.name == name)
}

/// Reads the table of kernel modules that `data` starts with.
pub fn parse_module_table(data: &[u8]) -> (res: Result<Vec<KernelModule>, OsError>)
    ensures
        match res {
            Ok(modules) => {
                &&& table_fault(data@) is None
                &&& module_views(modules@) == table_modules(data@)
                &&& forall|i: int|
                    0 <= i < modules@.len() ==> has_strings_of(
                        #[trigger] modules@[i]@,
                        table_entry(data@, i),
                    )
            },
            Err(error) => table_fault(data@) is Some && error == crate::error::os_error(
                table_fault(data@)->0,
            ),
        },
{
    let table_off: usize = pointer_width();
    let entry_size: usize = 3 * table_off + 16 + PATH_CAPACITY;
    if data.len() < table_off {
        return Err(OsError(ErrorOrigin::OsLayer, ErrorKind::Unknown));
    }
    let entries_len = read_u32(data, 0) as usize;
    proof {
        assert(data@.subrange(0, 4) =~= data@.take(4));
        assert(0 <= entries_len * entry_size) by (nonlinear_arith)
            requires
                entry_size > 0,
        ;
    }
    let table_len = match entries_len.checked_mul(entry_size) {
        Some(len) => len,
        None => {
            return Err(OsError(ErrorOrigin::OsLayer, ErrorKind::Unknown));
        },
    };
    let end = match table_off.checked_add(table_len) {
        Some(end) => end,
        None => {
            return Err(OsError(ErrorOrigin::OsLayer, ErrorKind::Unknown));
        },
    };
    if end > data.len() {
        return Err(OsError(ErrorOrigin::OsLayer, ErrorKind::ArgValidation));
    }
    let mut parsed: Vec<KernelModule> = Vec::with_capacity(entries_len);
    let mut idx: usize = 0;
    while idx < entries_len
        invariant
            idx <= entries_len,
            entries_len == table_count(data@),
            table_off == table_offset(),
            entry_size == crate::table::entry_size(),
            table_off + entries_len * entry_size <= data.len(),
            parsed@.len() == idx,
            forall|i: int|
                0 <= i < idx ==> {
                    &&& (#[trigger] parsed@[i])@ == module_of(table_entry(data@, i))
                    &&& has_strings_of(parsed@[i]@, table_entry(data@, i))
                },
        decreases entries_len - idx,
    {
        proof {
            assert(idx * entry_size + entry_size <= entries_len * entry_size) by (nonlinear_arith)
                requires
                    idx < entries_len,
            ;
            assert(0 <= idx * entry_size) by (nonlinear_arith);
        }
        let module_off = table_off + idx * entry_size;
        let module = read_entry(slice_subrange(data, module_off, module_off + entry_size));
        let (path, name) = parse_module_path(&module);
        parsed.push(
            KernelModule {
                base: Address(module.image_base as u64),
                size: module.image_size as u64,
                path,
                name,
            },
        );
        idx += 1;
    }
    proof {
        assert(module_views(parsed@) =~= table_modules(data@));
    }
    Ok(parsed)
}

/// The bytes of some entries, one behind the other.
pub open spec fn encode_entries(entries: Seq<crate::table::ModuleEntry>) -> Seq<u8>
    decreases entries.len(),
{
    if entries.len() == 0 {
        seq![]
    } else {
        encode_entries(entries.drop_last()) + crate::table::encode_entry(entries.last())
    }
}

/// The bytes of a table. The padding fills the space between the number of entries and the first
/// entry.
pub open spec fn encode_table(
    entries: Seq<crate::table::ModuleEntry>,
    padding: Seq<u8>,
) -> Seq<u8> {
    crate::table::le_bytes(entries.len() as int, 4) + padding + encode_entries(entries)
}

/// Entries take as much space as their number says.
pub(crate) proof fn lemma_entries_len(entries: Seq<crate::table::ModuleEntry>)
    requires
        forall|j: int|
            0 <= j < entries.len() ==> crate::table::entry_fits(#[trigger] entries[j]),
    ensures
        encode_entries(entries).len() == entries.len() * crate::table::entry_size(),
    decreases entries.len(),
{
    let size = crate::table::entry_size();
    let n = entries.len() as int;
    if n == 0 {
        assert(n * size == 0) by (nonlinear_arith)
            requires
                n == 0,
        ;
    } else {
        let before = entries.drop_last();
        assert forall|j: int| 0 <= j < before.len() implies crate::table::entry_fits(
            #[trigger] before[j],
        ) by {
            assert(before[j] == entries[j]);
        }
        lemma_entries_len(before);
        crate::table::law_entry_reads_back(entries.last());
        assert((n - 1) * size + size == n * size) by (nonlinear_arith);
    }
}

/// An entry is where its index says.
proof fn lemma_entry_in_entries(entries: Seq<crate::table::ModuleEntry>, i: int, at: int)
    requires
        0 <= i < entries.len(),
        at == i * crate::table::entry_size(),
        forall|j: int|
            0 <= j < entries.len() ==> crate::table::entry_fits(#[trigger] entries[j]),
    ensures
        0 <= at,
        at + crate::table::entry_size() <= encode_entries(entries).len(),
        encode_entries(entries).subrange(at, at + crate::table::entry_size())
            == crate::table::encode_entry(entries[i]),
    decreases entries.len(),
{
    let size = crate::table::entry_size();
    let before = entries.drop_last();
    let front = encode_entries(before);
    let back = crate::table::encode_entry(entries.last());
    assert forall|j: int| 0 <= j < before.len() implies crate::table::entry_fits(
        #[trigger] before[j],
    ) by {
        assert(before[j] == entries[j]);
    }
    crate::table::law_entry_reads_back(entries.last());
    lemma_entries_len(before);
    assert(encode_entries(entries) == front + back);
    if i < before.len() {
        lemma_entry_in_entries(before, i, at);
        assert((front + back).subrange(at, at + size) =~= front.subrange(at, at + size));
    } else {
        assert(at == front.len());
        assert((front + back).subrange(at, at + size) =~= back);
    }
}

/// Reading a table gives back the entries that were written, in their order, whatever follows
/// the table.
pub proof fn law_table_reads_back(
    entries: Seq<crate::table::ModuleEntry>,
    padding: Seq<u8>,
    rest: Seq<u8>,
)
    requires
        forall|j: int|
            0 <= j < entries.len() ==> crate::table::entry_fits(#[trigger] entries[j]),
        entries.len() <= u32::MAX,
        padding.len() == table_offset() - 4,
        entry_offset(entries.len() as int) <= usize::MAX,
    ensures
        table_fault(encode_table(entries, padding) + rest) is None,
        table_modules(encode_table(entries, padding) + rest) == entries.map_values(
            |entry: crate::table::ModuleEntry| module_of(entry),
        ),
{
    let data = encode_table(entries, padding) + rest;
    let size = crate::table::entry_size();
    let count = crate::table::le_bytes(entries.len() as int, 4);
    crate::table::lemma_pointer_size();
    reveal_with_fuel(crate::table::byte_range, 9);
    crate::table::law_integer_reads_back(entries.len() as int, 4);
    assert(data.take(4) =~= count);
    lemma_entries_len(entries);
    assert forall|i: int| 0 <= i < entries.len() implies table_entry(data, i) == entries[i] by {
        let at = i * size;
        lemma_entry_in_entries(entries, i, at);
        assert(data.subrange(entry_offset(i), entry_offset(i) + size) =~= encode_entries(
            entries,
        ).subrange(at, at + size));
        crate::table::law_entry_reads_back(entries[i]);
    }
    assert(table_modules(data) =~= entries.map_values(
        |entry: crate::table::ModuleEntry| module_of(entry),
    ));
}

/// What follows a table does not change what is read from it.
pub proof fn law_table_ignores_rest(data: Seq<u8>, rest: Seq<u8>)
    requires
        table_fault(data) is None,
    ensures
        table_fault(data + rest) is None,
        table_modules(data + rest) == table_modules(data),
{
    let longer = data + rest;
    let size = crate::table::entry_size();
    crate::table::lemma_pointer_size();
    crate::table::lemma_le_value_bound(data.take(4));
    assert(longer.take(4) =~= data.take(4));
    assert forall|i: int| 0 <= i < table_count(data) implies table_entry(longer, i) == table_entry(
        data,
        i,
    ) by {
        assert(0 <= i * size && i * size + size <= table_count(data) * size) by (nonlinear_arith)
            requires
                0 <= i < table_count(data),
                size > 0,
        ;
        assert(longer.subrange(entry_offset(i), entry_offset(i) + size) =~= data.subrange(
            entry_offset(i),
            entry_offset(i) + size,
        ));
    }
    assert(table_modules(longer) =~= table_modules(data));
}

/// A table that was cut off is refused.
pub proof fn law_cut_table_is_refused(data: Seq<u8>, len: int)
    requires
        table_fault(data) is None,
        0 <= len < table_end(data),
    ensures
        table_fault(data.take(len)) == Some(
            if len < table_offset() {
                ErrorKind::Unknown
            } else {
                ErrorKind::ArgValidation
            },
        ),
{
    crate::table::lemma_pointer_size();
    if len >= table_offset() {
        assert(data.take(len).take(4) =~= data.take(4));
    }
}

} // verus!
