//! What the operations do, stated on what goes into a call and what comes out of it.

use vstd::prelude::*;

use crate::error::{ErrorKind, ErrorOrigin, NtStatus, OsError};
use crate::modules::KernelModule;
use crate::os::{ProcessEntry, WindowsOs};
use crate::privilege::{Luid, PrivilegeAction, PrivilegeEvent, Token};
use crate::query::KernelModuleQuery;
use crate::table::RtlProcessModuleInformation;
use crate::types::{Address, ArchitectureIdent, ModuleInfo, OsInfo, ProcessInfo, ProcessState};
use crate::walk::AddressWalk;

verus! {

/// A failed Win32 call is an error of the operating system layer of no known kind.
pub proof fn law_conv_err(err: windows::core::Error, error: OsError)
    requires
        call_ensures(crate::error::conv_err, (err,), error),
    ensures
        error.0 == ErrorOrigin::OsLayer,
        error.1 == ErrorKind::Unknown,
{
}

/// Which statuses stand for which kind of error.
pub proof fn law_conv_ntstatus(status: NtStatus, error: OsError)
    requires
        call_ensures(crate::error::conv_ntstatus, (status,), error),
    ensures
        error.0 == ErrorOrigin::OsLayer,
        error.1 == ErrorKind::NotSupported <==> status.0 == 0xC000_0022u32 || status.0
            == 0xC000_0061u32 || status.0 == 0xC000_0002u32 || status.0 == 0xC000_0003u32,
        error.1 == ErrorKind::ArgValidation <==> status.0 == 0xC000_000Du32,
        error.1 == ErrorKind::ProcessNotFound <==> status.0 == 0xC000_0008u32,
        error.1 != ErrorKind::NotFound,
        error.1 != ErrorKind::NotImplemented,
{
}

/// A status is an error exactly if it is negative as a signed integer.
pub proof fn law_status_is_err(status: NtStatus, failed: bool)
    requires
        call_ensures(NtStatus::is_err, (status,), failed),
    ensures
        failed <==> (status.0 as i32) < 0,
        failed <==> status.0 >= 0x8000_0000,
{
    let code = status.0;
    assert((code as i32) < 0 <==> code >= 0x8000_0000u32) by (bit_vector);
}

/// The base name of a path: what was joined by a backslash, or by a slash where there is no
/// backslash, or else the whole path.
pub proof fn law_split_basename(path: &str, name: &str, directory: Seq<char>, last: Seq<char>)
    requires
        call_ensures(crate::text::split_basename, (path,), name),
    ensures
        path@ == directory.push('\\') + last && !last.contains('\\') ==> name@ == last,
        path@ == directory.push('/') + last && !path@.contains('\\') && !last.contains('/')
            ==> name@ == last,
        !path@.contains('\\') && !path@.contains('/') ==> name@ == path@,
{
    lemma_basename(path@, directory, last);
}

proof fn lemma_basename(path: Seq<char>, directory: Seq<char>, last: Seq<char>)
    ensures
        path == directory.push('\\') + last && !last.contains('\\') ==> crate::text::basename(path)
            == last,
        path == directory.push('/') + last && !path.contains('\\') && !last.contains('/')
            ==> crate::text::basename(path) == last,
        !path.contains('\\') && !path.contains('/') ==> crate::text::basename(path) == path,
{
    crate::text::law_basename_of_plain_name(path);
    if path == directory.push('\\') + last && !last.contains('\\') {
        crate::text::law_basename_of_join(directory, last);
    }
    if path == directory.push('/') + last && !path.contains('\\') && !last.contains('/') {
        assert forall|j: int| 0 <= j < directory.len() implies directory[j] != '\\' by {
            assert(path[j] == directory[j]);
        }
        assert forall|j: int| 0 <= j < last.len() implies last[j] != '\\' by {
            assert(path[directory.len() + 1 + j] == last[j]);
        }
        crate::text::law_basename_of_slash_join(directory, last);
    }
}

/// What follows the last backslash: what was joined by it, or the whole path if there is none.
pub proof fn law_after_backslash(path: &str, name: &str, directory: Seq<char>, last: Seq<char>)
    requires
        call_ensures(crate::text::after_backslash, (path,), name),
    ensures
        path@ == directory.push('\\') + last && !last.contains('\\') ==> name@ == last,
        !path@.contains('\\') ==> name@ == path@,
{
    lemma_after_backslash(path@, directory, last);
}

proof fn lemma_after_backslash(path: Seq<char>, directory: Seq<char>, last: Seq<char>)
    ensures
        path == directory.push('\\') + last && !last.contains('\\') ==> crate::text::after_last(
            path,
            '\\',
        ) == last,
        !path.contains('\\') ==> crate::text::after_last(path, '\\') == path,
{
    crate::text::law_basename_of_plain_name(path);
    if path == directory.push('\\') + last && !last.contains('\\') {
        crate::text::law_basename_of_join(directory, last);
    }
}

/// A text is what its code units decode to.
pub proof fn law_decode_utf16(units: &[u16], text: String, written: Seq<char>)
    requires
        call_ensures(crate::text::decode_utf16_lossy, (units,), text),
        units@ == crate::text::utf16_units(written),
    ensures
        text@ == written,
{
    crate::text::law_utf16_reads_back(written);
}

/// The name of a module is the file's name unless that is missing or empty, and then the base
/// name of the path.
pub proof fn law_choose_name(
    path: &str,
    file_name: Option<String>,
    name: String,
    directory: Seq<char>,
    last: Seq<char>,
)
    requires
        call_ensures(crate::modules::choose_name, (path, file_name), name),
    ensures
        file_name matches Some(text) ==> text@.len() > 0 ==> name@ == text@,
        file_name is None || file_name->0@.len() == 0 ==> {
            &&& path@ == directory.push('\\') + last && !last.contains('\\') ==> name@ == last
            &&& path@ == directory.push('/') + last && !path@.contains('\\') && !last.contains('/')
                ==> name@ == last
            &&& !path@.contains('\\') && !path@.contains('/') ==> name@ == path@
        },
{
    lemma_basename(path@, directory, last);
}

/// The path of an entry is the text of its bytes before the first zero. Its name is the text of
/// those from the offset on, or the base name of the path if the offset is not before their end.
pub proof fn law_parse_module_path(
    info: &RtlProcessModuleInformation,
    res: (String, String),
    end: int,
    directory: Seq<char>,
    last: Seq<char>,
)
    requires
        call_ensures(crate::modules::parse_module_path, (info,), res),
        0 <= end <= 256,
        forall|j: int| 0 <= j < end ==> info.full_path_name@[j] != 0,
        end < 256 ==> info.full_path_name@[end] == 0,
    ensures
        ({
            let field = info.full_path_name@;
            let offset = info.offset_to_file_name as int;
            let (path, name) = (res.0@, res.1@);
            &&& path == crate::text::utf8_lossy(field.take(end))
            &&& vstd::utf8::valid_utf8(field.take(end)) ==> path == vstd::utf8::decode_utf8(
                field.take(end),
            )
            &&& offset < end ==> name == crate::text::utf8_lossy(field.subrange(offset, end))
            &&& offset < end && vstd::utf8::valid_utf8(field.subrange(offset, end)) ==> name
                == vstd::utf8::decode_utf8(field.subrange(offset, end))
            &&& offset >= end ==> {
                &&& path == directory.push('\\') + last && !last.contains('\\') ==> name == last
                &&& path == directory.push('/') + last && !path.contains('\\') && !last.contains(
                    '/',
                ) ==> name == last
                &&& !path.contains('\\') && !path.contains('/') ==> name == path
            }
        }),
{
    let field = info.full_path_name@;
    let offset = info.offset_to_file_name as int;
    crate::text::lemma_before_first(field, 0u8, end);
    if offset < end {
        assert(field.take(end).skip(offset) =~= field.subrange(offset, end));
    }
    lemma_basename(res.0@, directory, last);
}

/// What a table of kernel modules holds. The number of entries is in its first four bytes. The
/// entries follow at the first offset that a pointer may have. A module is where its image base
/// says, and as large as its image size says, with all their bytes. Its path and its name are
/// those of the path field.
pub proof fn law_module_in_table(
    data: &[u8],
    modules: Vec<KernelModule>,
    i: int,
    p: int,
    at: int,
    end: int,
    directory: Seq<char>,
    last: Seq<char>,
)
    requires
        call_ensures(crate::modules::parse_module_table, (data,), Ok(modules)),
        p == vstd::layout::size_of::<usize>(),
        0 <= i < modules@.len(),
        at == p + i * (3 * p + 272),
        0 <= end <= 256,
        forall|j: int|
            at + 3 * p + 16 <= j < at + 3 * p + 16 + end ==> data@[j] != 0,
        end < 256 ==> data@[at + 3 * p + 16 + end] == 0,
    ensures
        modules@.len() == data@[0] + 0x100 * data@[1] + 0x1_0000 * data@[2] + 0x100_0000 * data@[3],
        0 <= at && at + 3 * p + 272 <= data@.len(),
        modules@[i].base.0 == crate::table::le_value(data@.subrange(at + 2 * p, at + 3 * p)),
        modules@[i].size == data@[at + 3 * p] + 0x100 * data@[at + 3 * p + 1] + 0x1_0000 * data@[at
            + 3 * p + 2] + 0x100_0000 * data@[at + 3 * p + 3],
        ({
            let start = at + 3 * p + 16;
            let offset = data@[at + 3 * p + 14] + 0x100 * data@[at + 3 * p + 15];
            let (path, name) = (modules@[i].path@, modules@[i].name@);
            &&& path == crate::text::utf8_lossy(data@.subrange(start, start + end))
            &&& vstd::utf8::valid_utf8(data@.subrange(start, start + end)) ==> path
                == vstd::utf8::decode_utf8(data@.subrange(start, start + end))
            &&& offset < end ==> name == crate::text::utf8_lossy(
                data@.subrange(start + offset, start + end),
            )
            &&& offset < end && vstd::utf8::valid_utf8(data@.subrange(start + offset, start + end))
                ==> name == vstd::utf8::decode_utf8(data@.subrange(start + offset, start + end))
            &&& offset >= end ==> {
                &&& path == directory.push('\\') + last && !last.contains('\\') ==> name == last
                &&& path == directory.push('/') + last && !path.contains('\\') && !last.contains(
                    '/',
                ) ==> name == last
                &&& !path.contains('\\') && !path.contains('/') ==> name == path
            }
        }),
{
    crate::table::lemma_pointer_size();
    let size = 3 * p + 272;
    let n = modules@.len() as int;
    let views = crate::modules::module_views(modules@);
    let entry = crate::modules::table_entry(data@, i);
    assert(views[i] == modules@[i]@);
    assert(views == crate::modules::table_modules(data@));
    crate::table::lemma_le_value_bound(data@.take(4));
    crate::table::law_integer_value(data@.take(4));
    assert(n == crate::modules::table_count(data@));
    assert(0 <= i * size && i * size + size <= n * size) by (nonlinear_arith)
        requires
            0 <= i < n,
            size > 0,
    ;
    let bytes = data@.subrange(at, at + size);
    crate::table::law_entry_fields(bytes, p);
    let base = data@.subrange(at + 2 * p, at + 3 * p);
    let image_size = data@.subrange(at + 3 * p, at + 3 * p + 4);
    let name_offset = data@.subrange(at + 3 * p + 14, at + 3 * p + 16);
    assert(bytes.subrange(2 * p, 3 * p) =~= base);
    assert(bytes.subrange(3 * p, 3 * p + 4) =~= image_size);
    assert(bytes.subrange(3 * p + 14, 3 * p + 16) =~= name_offset);
    crate::table::lemma_le_value_bound(base);
    crate::table::lemma_le_value_bound(image_size);
    reveal_with_fuel(crate::table::byte_range, 9);
    crate::table::law_integer_value(image_size);
    crate::table::law_integer_value(name_offset);
    let start = at + 3 * p + 16;
    let field = data@.subrange(start, start + 256);
    assert(bytes.subrange(3 * p + 16, 3 * p + 272) =~= field);
    assert(entry.full_path_name == field);
    assert forall|j: int| 0 <= j < end implies field[j] != 0u8 by {
        assert(field[j] == data@[start + j]);
    }
    crate::text::lemma_before_first(field, 0u8, end);
    assert(field.take(end) =~= data@.subrange(start, start + end));
    let offset = entry.offset_to_file_name;
    if offset < end {
        assert(field.take(end).skip(offset) =~= data@.subrange(start + offset, start + end));
    }
    lemma_basename(modules@[i].path@, directory, last);
}

/// Every module of an accepted table is where the image base of its entry says, and as large as
/// the image size of its entry says, with all their bytes, whatever the path is.
pub proof fn law_module_base_and_size(
    data: &[u8],
    modules: Vec<KernelModule>,
    i: int,
    p: int,
    at: int,
)
    requires
        call_ensures(crate::modules::parse_module_table, (data,), Ok(modules)),
        p == vstd::layout::size_of::<usize>(),
        0 <= i < modules@.len(),
        at == p + i * (3 * p + 272),
    ensures
        modules@[i].base.0 == crate::table::le_value(data@.subrange(at + 2 * p, at + 3 * p)),
        modules@[i].size == crate::table::le_value(data@.subrange(at + 3 * p, at + 3 * p + 4)),
{
    crate::table::lemma_pointer_size();
    let size = 3 * p + 272;
    let n = modules@.len() as int;
    let views = crate::modules::module_views(modules@);
    crate::table::lemma_le_value_bound(data@.take(4));
    assert(views.len() == n);
    assert(n == crate::modules::table_count(data@));
    assert(0 <= i * size && i * size + size <= n * size) by (nonlinear_arith)
        requires
            0 <= i < n,
            size > 0,
    ;
    let start = at + 3 * p + 16;
    let field = data@.subrange(start, start + 256);
    let before = crate::text::before_first(field, 0u8);
    let end = before.len() as int;
    crate::text::law_before_first(field, 0u8);
    assert forall|j: int| start <= j < start + end implies data@[j] != 0 by {
        assert(before[j - start] == data@[j]);
    }
    if end < 256 {
        assert(field[end] == data@[start + end]);
    }
    law_module_in_table(data, modules, i, p, at, end, seq![], seq![]);
    crate::table::law_integer_value(data@.subrange(at + 3 * p, at + 3 * p + 4));
}

/// When a table is accepted, and what is wrong with one that is not.
pub proof fn law_table_is_accepted(data: &[u8], res: Result<Vec<KernelModule>, OsError>, p: int)
    requires
        call_ensures(crate::modules::parse_module_table, (data,), res),
        p == vstd::layout::size_of::<usize>(),
    ensures
        data@.len() < p ==> res == Err::<Vec<KernelModule>, OsError>(
            OsError(ErrorOrigin::OsLayer, ErrorKind::Unknown),
        ),
        data@.len() >= p ==> {
            let count = data@[0] + 0x100 * data@[1] + 0x1_0000 * data@[2] + 0x100_0000 * data@[3];
            let needed = p + count * (3 * p + 272);
            &&& needed <= data@.len() ==> res is Ok && res->Ok_0@.len() == count
            &&& needed > data@.len() && needed <= usize::MAX ==> res == Err::<
                Vec<KernelModule>,
                OsError,
            >(OsError(ErrorOrigin::OsLayer, ErrorKind::ArgValidation))
            &&& needed > usize::MAX ==> res == Err::<Vec<KernelModule>, OsError>(
                OsError(ErrorOrigin::OsLayer, ErrorKind::Unknown),
            )
        },
{
    crate::table::lemma_pointer_size();
    if data@.len() >= p {
        crate::table::lemma_le_value_bound(data@.take(4));
        crate::table::law_integer_value(data@.take(4));
        assert(data.len() == data@.len());
        if res is Ok {
            let modules = res->Ok_0;
            assert(crate::modules::module_views(modules@).len() == modules@.len());
        }
    }
}

/// The modules that are read back from a written table are where the entries say, as large as they
/// say, one for each and in their order.
pub proof fn law_written_modules_read_back(
    data: &[u8],
    res: Result<Vec<KernelModule>, OsError>,
    entries: Seq<crate::table::ModuleEntry>,
    padding: Seq<u8>,
    rest: Seq<u8>,
    i: int,
)
    requires
        call_ensures(crate::modules::parse_module_table, (data,), res),
        data@ == crate::modules::encode_table(entries, padding) + rest,
        forall|j: int|
            0 <= j < entries.len() ==> crate::table::entry_fits(#[trigger] entries[j]),
        entries.len() <= u32::MAX,
        padding.len() == vstd::layout::size_of::<usize>() - 4,
    ensures
        res is Ok,
        res->Ok_0@.len() == entries.len(),
        0 <= i < entries.len() ==> {
            &&& res->Ok_0@[i].base.0 == entries[i].image_base
            &&& res->Ok_0@[i].size == entries[i].image_size
            &&& res->Ok_0@[i].path@ == crate::text::utf8_lossy(
                crate::text::before_first(entries[i].full_path_name, 0u8),
            )
        },
{
    crate::table::lemma_pointer_size();
    crate::modules::lemma_entries_len(entries);
    reveal_with_fuel(crate::table::byte_range, 9);
    crate::table::law_integer_reads_back(entries.len() as int, 4);
    assert(data.len() == data@.len());
    crate::modules::law_table_reads_back(entries, padding, rest);
    let modules = res->Ok_0;
    let views = crate::modules::module_views(modules@);
    assert(views.len() == modules@.len());
    if 0 <= i < entries.len() {
        assert(views[i] == modules@[i]@);
    }
}

/// The two addresses that no object has: no bit is set in one, and all 64 in the other.
pub proof fn law_special_addresses(null: Address, invalid: Address)
    requires
        call_ensures(Address::null, (), null),
        call_ensures(Address::invalid, (), invalid),
    ensures
        null.0 == 0,
        invalid.0 == 0xFFFF_FFFF_FFFF_FFFF,
{
}

/// A query starts with a buffer of 256 KiB of zeros, for six requests.
pub proof fn law_query_start(query: KernelModuleQuery, i: int)
    requires
        call_ensures(KernelModuleQuery::new, (), query),
        0 <= i < 262_144,
    ensures
        query@.buffer.len() == 262_144,
        query@.buffer[i] == 0,
        query@.attempts_left == 6,
{
}

/// A buffer that was too short is doubled, or gets the reported length and the offset of the first
/// entry if that is more, as far as lengths go.
pub proof fn law_longer_len(query: &KernelModuleQuery, return_len: u32, len: usize, p: int)
    requires
        call_ensures(KernelModuleQuery::longer_len, (query, return_len), len),
        p == vstd::layout::size_of::<usize>(),
    ensures
        len == usize::MAX || len == 2 * query@.buffer.len() || len == return_len + p,
        len == usize::MAX || (len >= 2 * query@.buffer.len() && len >= return_len + p),
        len == usize::MAX ==> 2 * query@.buffer.len() >= usize::MAX || return_len + p
            >= usize::MAX,
{
}

/// What is written to the buffer of a query is what the query then holds. The requests are not
/// touched.
pub proof fn law_buffer_is_written(query: &mut KernelModuleQuery, buffer: &mut [u8])
    requires
        call_ensures(KernelModuleQuery::buffer_mut, (query,), buffer),
    ensures
        old(buffer)@ == old(query)@.buffer,
        final(query)@.buffer == final(buffer)@,
        final(query)@.attempts_left == old(query)@.attempts_left,
{
}

/// A buffer below 4 GiB is announced with its length, and a longer one with what is left of its
/// length without whole multiples of that.
pub proof fn law_request_len(query: &KernelModuleQuery, len: u32)
    requires
        call_ensures(KernelModuleQuery::request_len, (query,), len),
    ensures
        query@.buffer.len() <= u32::MAX ==> len == query@.buffer.len(),
        (query@.buffer.len() - len) % 0x1_0000_0000 == 0,
{
}

/// A request is repeated exactly if the buffer was too short and another request may be made. The
/// buffer then keeps what it holds and is filled up with zeros. In all other cases nothing
/// changes.
pub proof fn law_step_retries(
    query: &mut KernelModuleQuery,
    status: NtStatus,
    return_len: u32,
    step: crate::query::QueryStep,
    p: int,
)
    requires
        call_ensures(KernelModuleQuery::step, (query, status, return_len), step),
        p == vstd::layout::size_of::<usize>(),
        old(query)@.buffer.len() <= isize::MAX,
    ensures
        step is Retry <==> status.0 == 0xC000_0004u32 && old(query)@.attempts_left > 1,
        step is Retry ==> {
            let before = old(query)@.buffer;
            let after = final(query)@.buffer;
            &&& final(query)@.attempts_left == old(query)@.attempts_left - 1
            &&& after.len() == usize::MAX || after.len() == 2 * before.len() || after.len()
                == return_len + p
            &&& after.len() == usize::MAX || (after.len() >= 2 * before.len() && after.len()
                >= return_len + p)
            &&& after.len() == usize::MAX ==> 2 * before.len() >= usize::MAX || return_len + p
                >= usize::MAX
            &&& forall|j: int| 0 <= j < before.len() ==> after[j] == before[j]
            &&& forall|j: int| before.len() <= j < after.len() ==> after[j] == 0
        },
        !(step is Retry) ==> final(query)@ == old(query)@,
{
    crate::table::lemma_pointer_size();
}

/// How a query fails: for want of requests, or with the kind of error that the status stands for.
pub proof fn law_step_fails(
    query: &mut KernelModuleQuery,
    status: NtStatus,
    return_len: u32,
    step: crate::query::QueryStep,
    error: OsError,
)
    requires
        call_ensures(KernelModuleQuery::step, (query, status, return_len), step),
        call_ensures(crate::error::conv_ntstatus, (status,), error),
    ensures
        status.0 == 0xC000_0004u32 && old(query)@.attempts_left <= 1 ==> step
            == crate::query::QueryStep::Finish(
            Err(OsError(ErrorOrigin::OsLayer, ErrorKind::Unknown)),
        ),
        status.0 >= 0x8000_0000u32 && status.0 != 0xC000_0004u32 ==> step
            == crate::query::QueryStep::Finish(Err(error)),
{
}

/// A successful reply gives what reading the filled part of the buffer gives.
pub proof fn law_step_reads_filled_buffer(
    query: &mut KernelModuleQuery,
    status: NtStatus,
    return_len: u32,
    step: crate::query::QueryStep,
    data: &[u8],
    res: Result<Vec<KernelModule>, OsError>,
    i: int,
)
    requires
        call_ensures(KernelModuleQuery::step, (query, status, return_len), step),
        call_ensures(crate::modules::parse_module_table, (data,), res),
        status.0 < 0x8000_0000,
        data@.is_prefix_of(old(query)@.buffer),
        data@.len() == return_len || (data@.len() < return_len && data@ == old(query)@.buffer),
    ensures
        match res {
            Ok(modules) => {
                &&& step matches crate::query::QueryStep::Finish(Ok(got))
                &&& got@.len() == modules@.len()
                &&& 0 <= i < got@.len() ==> {
                    &&& got@[i].base == modules@[i].base
                    &&& got@[i].size == modules@[i].size
                    &&& got@[i].path@ == modules@[i].path@
                    &&& got@[i].name@ == modules@[i].name@
                }
            },
            Err(error) => step == crate::query::QueryStep::Finish(Err(error)),
        },
{
    let filled = crate::query::filled(old(query)@.buffer, return_len as int);
    assert(filled =~= data@);
    if res is Ok {
        let modules = res->Ok_0;
        let views = crate::modules::module_views(modules@);
        match step {
            crate::query::QueryStep::Finish(Ok(got)) => {
                let got_views = crate::modules::module_views(got@);
                assert(got_views == views);
                assert(got_views.len() == got@.len());
                if 0 <= i < got@.len() {
                    assert(got_views[i] == got@[i]@);
                    assert(views[i] == modules@[i]@);
                }
            },
            _ => {},
        }
    }
}

/// A new walk is over all the addresses, in their order.
pub proof fn law_walk_start(addresses: &[Address], walk: AddressWalk, i: int)
    requires
        call_ensures(AddressWalk::new, (addresses,), walk),
    ensures
        walk@.len() == addresses@.len(),
        0 <= i < addresses@.len() ==> walk@[i].0 == addresses@[i].0,
{
}

/// A walk hands out its addresses from the front, one by one.
pub proof fn law_walk_hands_out(walk: &mut AddressWalk, address: Option<Address>)
    requires
        call_ensures(AddressWalk::next_address, (walk,), address),
    ensures
        old(walk)@.len() == 0 ==> address is None && final(walk)@.len() == 0,
        old(walk)@.len() > 0 ==> address == Some(old(walk)@[0]) && old(walk)@ == seq![
            old(walk)@[0],
        ] + final(walk)@,
{
    if old(walk)@.len() > 0 {
        assert(old(walk)@ =~= seq![old(walk)@[0]] + old(walk)@.skip(1));
    }
}

/// A refusal ends a walk, and an acceptance changes nothing.
pub proof fn law_walk_reply(walk: &mut AddressWalk, keep_going: bool)
    requires
        call_ensures(AddressWalk::reply, (walk, keep_going), ()),
    ensures
        keep_going ==> final(walk)@ == old(walk)@,
        !keep_going ==> final(walk)@.len() == 0,
{
}

/// The debug privilege is declined by six values and by nothing else.
pub proof fn law_wants_elevation(value: Option<&str>, wanted: bool)
    requires
        call_ensures(crate::args::wants_elevation, (value,), wanted),
    ensures
        value is None ==> wanted,
        value matches Some(text) ==> (!wanted <==> text@ == "off"@ || text@ == "OFF"@ || text@
            == "Off"@ || text@ == "n"@ || text@ == "N"@ || text@ == "0"@),
{
}

/// Only the argument of that name declines the debug privilege.
pub proof fn law_elevation_requested(args: &memflow::plugins::OsArgs, wanted: bool)
    requires
        call_ensures(crate::args::elevation_requested, (args,), wanted),
    ensures
        ({
            let values = crate::args::extra_args(*args);
            let value = values["elevate_token"@];
            !wanted <==> values.contains_key("elevate_token"@) && (value == "off"@ || value
                == "OFF"@ || value == "Off"@ || value == "n"@ || value == "N"@ || value == "0"@)
        }),
{
}

/// The layer is made unless the debug privilege was asked for and could not be enabled, which is
/// then the error.
pub proof fn law_new(
    args: &memflow::plugins::OsArgs,
    elevation: Result<(), OsError>,
    res: Result<WindowsOs, OsError>,
    wanted: bool,
)
    requires
        call_ensures(WindowsOs::new, (args, elevation), res),
        call_ensures(crate::args::elevation_requested, (args,), wanted),
    ensures
        res is Err <==> wanted && elevation is Err,
        res is Err ==> res->Err_0 == elevation->Err_0,
        res is Ok ==> res->Ok_0@ == (OsInfo {
            base: Address(0),
            size: 0,
            arch: ArchitectureIdent::X86(64, false),
        }),
{
}

/// The layer reports a 64-bit x86 system without address extensions, whose kernel is nowhere, and
/// a copy reports the same.
pub proof fn law_default(
    os: WindowsOs,
    copy: WindowsOs,
    info: &OsInfo,
    copy_info: &OsInfo,
)
    requires
        call_ensures(WindowsOs::default, (), os),
        call_ensures(WindowsOs::clone, (&os,), copy),
        call_ensures(WindowsOs::info, (&os,), info),
        call_ensures(WindowsOs::info, (&copy,), copy_info),
    ensures
        info.base.0 == 0,
        info.size == 0,
        info.arch == ArchitectureIdent::X86(64, false),
        *copy_info == *info,
{
}

/// A walk over processes has one address for each process of the snapshot, in its order: the
/// identifier.
pub proof fn law_process_walk(
    entries: Vec<ProcessEntry>,
    res: Result<AddressWalk, OsError>,
    i: int,
)
    requires
        call_ensures(WindowsOs::process_address_walk, (Ok(entries),), res),
    ensures
        res is Ok,
        res->Ok_0@.len() == entries@.len(),
        0 <= i < entries@.len() ==> res->Ok_0@[i].0 == entries@[i].pid,
{
}

/// Without a snapshot there is neither a walk nor a process.
pub proof fn law_snapshot_fails(
    os: &WindowsOs,
    address: Address,
    err: windows::core::Error,
    walk: Result<AddressWalk, OsError>,
    info: Result<ProcessInfo, OsError>,
)
    requires
        call_ensures(WindowsOs::process_address_walk, (Err(err),), walk),
        call_ensures(WindowsOs::process_info_by_address, (os, address, Err(err)), info),
    ensures
        walk is Err && walk->Err_0 == OsError(ErrorOrigin::OsLayer, ErrorKind::Unknown),
        info is Err && info->Err_0 == OsError(ErrorOrigin::OsLayer, ErrorKind::Unknown),
{
}

/// The process that is reported is the first of the snapshot whose identifier is the lower half of
/// the address. Its path is the text that was written before the first zero, and its name what
/// follows the last backslash, at whatever length.
pub proof fn law_process_info(
    os: &WindowsOs,
    address: Address,
    entries: Vec<ProcessEntry>,
    res: Result<ProcessInfo, OsError>,
    i: int,
    end: int,
    written: Seq<char>,
    directory: Seq<char>,
    last: Seq<char>,
)
    requires
        call_ensures(WindowsOs::process_info_by_address, (os, address, Ok(entries)), res),
        0 <= i < entries@.len(),
        entries@[i].pid == address.0 % 0x1_0000_0000,
        forall|j: int|
            0 <= j < i ==> (#[trigger] entries@[j]).pid != address.0 % 0x1_0000_0000,
        0 <= end <= 260,
        forall|j: int| 0 <= j < end ==> entries@[i].exe_file@[j] != 0,
        end < 260 ==> entries@[i].exe_file@[end] == 0,
    ensures
        res is Ok,
        ({
            let info = res->Ok_0;
            &&& info.address == address
            &&& info.pid == entries@[i].pid
            &&& info.state == ProcessState::Alive
            &&& info.path@ == crate::text::utf16_lossy(entries@[i].exe_file@.take(end))
            &&& entries@[i].exe_file@.take(end) == crate::text::utf16_units(written) ==> info.path@
                == written
            &&& info.path@ == directory.push('\\') + last && !last.contains('\\') ==> info.name@
                == last
            &&& !info.path@.contains('\\') ==> info.name@ == info.path@
            &&& info.command_line@.len() == 0
            &&& info.sys_arch == os@.arch
            &&& info.proc_arch == os@.arch
            &&& info.dtb1.0 == 0xFFFF_FFFF_FFFF_FFFF
            &&& info.dtb2.0 == 0xFFFF_FFFF_FFFF_FFFF
        }),
{
    let pid = crate::os::address_pid(address);
    crate::os::law_first_process_is_found(entries@, pid);
    assert(entries@[i].pid == pid);
    let found = crate::os::first_with_pid(entries@, pid);
    assert(found is Some);
    let k = choose|k: int|
        0 <= k < entries@.len() && #[trigger] entries@[k] == found->0 && found->0.pid == pid
            && forall|j: int| 0 <= j < k ==> (#[trigger] entries@[j]).pid != pid;
    assert(k == i);
    crate::text::lemma_before_first(entries@[i].exe_file@, 0u16, end);
    crate::text::law_utf16_reads_back(written);
    lemma_after_backslash(res->Ok_0.path@, directory, last);
}

/// Every address of a walk over processes leads to a process: the first with that identifier.
pub proof fn law_walked_process_is_found(
    os: &WindowsOs,
    entries: Vec<ProcessEntry>,
    walk: AddressWalk,
    i: int,
    res: Result<ProcessInfo, OsError>,
)
    requires
        call_ensures(WindowsOs::process_address_walk, (Ok(entries),), Ok(walk)),
        0 <= i < walk@.len(),
        call_ensures(WindowsOs::process_info_by_address, (os, walk@[i], Ok(entries)), res),
    ensures
        res is Ok,
        res->Ok_0.address == walk@[i],
        res->Ok_0.pid == entries@[i].pid,
{
    let pid = entries@[i].pid;
    crate::os::law_process_address_holds_pid(pid);
    crate::os::law_first_process_is_found(entries@, pid);
    assert(walk@[i].0 == pid);
}

/// No process is reported of which the snapshot holds no identifier.
pub proof fn law_process_is_missing(
    os: &WindowsOs,
    address: Address,
    entries: Vec<ProcessEntry>,
    res: Result<ProcessInfo, OsError>,
)
    requires
        call_ensures(WindowsOs::process_info_by_address, (os, address, Ok(entries)), res),
        forall|j: int|
            0 <= j < entries@.len() ==> (#[trigger] entries@[j]).pid != address.0 % 0x1_0000_0000,
    ensures
        res is Err && res->Err_0 == OsError(ErrorOrigin::OsLayer, ErrorKind::NotFound),
{
    let pid = crate::os::address_pid(address);
    crate::os::law_first_process_is_found(entries@, pid);
    if crate::os::first_with_pid(entries@, pid) is Some {
        let entry = crate::os::first_with_pid(entries@, pid)->0;
        let k = choose|k: int|
            0 <= k < entries@.len() && #[trigger] entries@[k] == entry && entry.pid == pid
                && forall|j: int| 0 <= j < k ==> (#[trigger] entries@[j]).pid != pid;
        assert(entries@[k].pid == pid);
    }
}

/// A walk over modules has one address for each module, in their order: its base.
pub proof fn law_module_walk(
    modules: Vec<KernelModule>,
    res: Result<AddressWalk, OsError>,
    i: int,
)
    requires
        call_ensures(WindowsOs::module_address_walk, (Ok(modules),), res),
    ensures
        res is Ok,
        res->Ok_0@.len() == modules@.len(),
        0 <= i < modules@.len() ==> res->Ok_0@[i] == modules@[i].base,
{
    if 0 <= i < modules@.len() {
        assert(crate::modules::module_views(modules@)[i] == modules@[i]@);
    }
}

/// Without the modules there is neither a walk nor a module, but the error that stood in their
/// way.
pub proof fn law_modules_fail(
    os: &WindowsOs,
    address: Address,
    error: OsError,
    walk: Result<AddressWalk, OsError>,
    info: Result<ModuleInfo, OsError>,
)
    requires
        call_ensures(WindowsOs::module_address_walk, (Err(error),), walk),
        call_ensures(WindowsOs::module_by_address, (os, address, Err(error)), info),
    ensures
        walk is Err && walk->Err_0 == error,
        info is Err && info->Err_0 == error,
{
}

/// The module that is reported is the first one at the address, with its size, name and path.
pub proof fn law_module_info(
    os: &WindowsOs,
    address: Address,
    modules: Vec<KernelModule>,
    res: Result<ModuleInfo, OsError>,
    i: int,
)
    requires
        call_ensures(WindowsOs::module_by_address, (os, address, Ok(modules)), res),
        0 <= i < modules@.len(),
        modules@[i].base == address,
        forall|j: int| 0 <= j < i ==> (#[trigger] modules@[j]).base != address,
    ensures
        res is Ok,
        res->Ok_0.address == address,
        res->Ok_0.base == address,
        res->Ok_0.size == modules@[i].size,
        res->Ok_0.name@ == modules@[i].name@,
        res->Ok_0.path@ == modules@[i].path@,
        res->Ok_0.arch == os@.arch,
        res->Ok_0.parent_process.0 == 0xFFFF_FFFF_FFFF_FFFF,
{
    let views = crate::modules::module_views(modules@);
    assert forall|j: int| 0 <= j < modules@.len() implies views[j] == (
    #[trigger] modules@[j])@ by {}
    crate::os::law_first_module_is_found(views, address);
    assert(views[i] == modules@[i]@);
    assert(crate::os::module_addresses(views)[i] == address);
    let found = crate::os::first_with_base(views, address);
    assert(found is Some);
    let k = choose|k: int|
        0 <= k < views.len() && #[trigger] views[k] == found->0 && found->0.base == address
            && forall|j: int| 0 <= j < k ==> (#[trigger] views[j]).base != address;
    if k < i {
        assert(modules@[k].base != address);
    } else if i < k {
        assert(views[i].base != address);
    }
    assert(k == i);
}

/// Every address of a walk over modules leads to a module that is loaded there.
pub proof fn law_walked_module_is_found(
    os: &WindowsOs,
    modules: Vec<KernelModule>,
    walk: AddressWalk,
    i: int,
    res: Result<ModuleInfo, OsError>,
)
    requires
        call_ensures(WindowsOs::module_address_walk, (Ok(modules),), Ok(walk)),
        0 <= i < walk@.len(),
        call_ensures(WindowsOs::module_by_address, (os, walk@[i], Ok(modules)), res),
    ensures
        res is Ok,
        res->Ok_0.base == walk@[i],
{
    let views = crate::modules::module_views(modules@);
    assert(views[i] == modules@[i]@);
    crate::os::law_first_module_is_found(views, walk@[i]);
}

/// No module is reported at an address where none is loaded.
pub proof fn law_module_is_missing(
    os: &WindowsOs,
    address: Address,
    modules: Vec<KernelModule>,
    res: Result<ModuleInfo, OsError>,
)
    requires
        call_ensures(WindowsOs::module_by_address, (os, address, Ok(modules)), res),
        forall|j: int| 0 <= j < modules@.len() ==> (#[trigger] modules@[j]).base != address,
    ensures
        res is Err && res->Err_0 == OsError(ErrorOrigin::OsLayer, ErrorKind::NotFound),
{
    let views = crate::modules::module_views(modules@);
    crate::os::law_first_module_is_found(views, address);
    if crate::os::first_with_base(views, address) is Some {
        let found = crate::os::first_with_base(views, address)->0;
        let k = choose|k: int|
            0 <= k < views.len() && #[trigger] views[k] == found && found.base == address
                && forall|j: int| 0 <= j < k ==> (#[trigger] views[j]).base != address;
        assert(modules@[k].base == address);
    }
}

/// Imports, exports and sections are not read, and the kernel's own module has its usual name.
pub proof fn law_module_contents(
    os: &WindowsOs,
    imports: Result<(), OsError>,
    exports: Result<(), OsError>,
    sections: Result<(), OsError>,
    name: &'static str,
)
    requires
        call_ensures(WindowsOs::module_import_list, (os,), imports),
        call_ensures(WindowsOs::module_export_list, (os,), exports),
        call_ensures(WindowsOs::module_section_list, (os,), sections),
        call_ensures(WindowsOs::primary_module_name, (), name),
    ensures
        imports is Err && imports->Err_0 == OsError(
            ErrorOrigin::OsLayer,
            ErrorKind::NotImplemented,
        ),
        exports == imports,
        sections == imports,
        name@ == "ntoskrnl.exe"@,
{
}

/// The token is opened for changes to its privileges, and then the debug privilege is looked up
/// for it on the local system.
pub proof fn law_privilege_is_looked_up(
    first: PrivilegeAction,
    token: Token,
    next: PrivilegeAction,
)
    requires
        call_ensures(crate::privilege::enable_debug_privilege, (), first),
        call_ensures(
            crate::privilege::next_action,
            (PrivilegeEvent::TokenOpened(Ok(token)),),
            next,
        ),
    ensures
        first matches PrivilegeAction::OpenCurrentProcessToken(access) && access == 0x20,
        next matches PrivilegeAction::LookupPrivilege { token: t, system, name } && {
            &&& t == token
            &&& system is None
            &&& name@ == "SeDebugPrivilege\0"@
        },
{
}

/// The privilege that was found is the one that is enabled, with both halves of its identifier, on
/// the token that it was looked up for, and no other is touched.
pub proof fn law_found_privilege_is_enabled(token: Token, luid: Luid, next: PrivilegeAction)
    requires
        call_ensures(
            crate::privilege::next_action,
            (PrivilegeEvent::PrivilegeFound { token, found: Ok(luid) },),
            next,
        ),
    ensures
        next matches PrivilegeAction::AdjustPrivileges(a) && {
            &&& a.token.0 == token.0
            &&& a.disable_all == false
            &&& a.wants_previous_state == false
            &&& a.new_state.privilege_count == 1
            &&& a.new_state.luid.low == luid.low
            &&& a.new_state.luid.high == luid.high
            &&& a.new_state.attributes == 2
        },
{
}

/// An adjusted token ends the actions well, and a failure of any of them ends them with an error.
pub proof fn law_privilege_ends(
    done: PrivilegeAction,
    event: PrivilegeEvent,
    refused: PrivilegeAction,
)
    requires
        call_ensures(
            crate::privilege::next_action,
            (PrivilegeEvent::PrivilegesAdjusted(Ok(())),),
            done,
        ),
        call_ensures(crate::privilege::next_action, (event,), refused),
        match event {
            PrivilegeEvent::TokenOpened(opened) => opened is Err,
            PrivilegeEvent::PrivilegeFound { token: _, found } => found is Err,
            PrivilegeEvent::PrivilegesAdjusted(adjusted) => adjusted is Err,
        },
    ensures
        done matches PrivilegeAction::Finish(result) && result is Ok,
        refused matches PrivilegeAction::Finish(result) && result is Err && result->Err_0
            == OsError(ErrorOrigin::OsLayer, ErrorKind::Unknown),
{
}

} // verus!
