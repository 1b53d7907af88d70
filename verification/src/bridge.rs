//! The host-call bridge: the guest-facing halves of the host service
//! operations. Every guest-supplied offset/length pair is translated through
//! the memory address validator before any host effect, and every host
//! outcome is translated back into a guest-representable value.
//!
//! The host effects themselves — the environment lookup and the file
//! descriptor syscalls — happen outside this crate; the embedder performs
//! them between the `*_request`/`get_env` half that validates and extracts
//! guest arguments and the `*_commit`/`*_reply` half that takes the host
//! outcome, updates instance state, and builds the guest-visible result.

use vstd::prelude::*;

use crate::instance::Instance;
use crate::memory::MemoryError;
use crate::memory::range_ok;
use crate::memory::read_bytes;
use crate::memory::write_bytes;

verus! {

/// Guest-visible sentinel for an environment variable that is not present,
/// distinct from an empty value (which reports a zero length at a valid
/// offset).
pub const ENV_MISSING: i32 = -1;

/// Guest-visible error: a supplied range failed the memory validator.
pub const ERR_OUT_OF_BOUNDS: i32 = -2;

/// Guest-visible error: the handle does not name an open host resource.
pub const ERR_BAD_HANDLE: i32 = -3;

/// Guest-visible error: the argument bytes cannot be handed to the host
/// (a path with an interior NUL byte cannot become a C string).
pub const ERR_INVALID_ARG: i32 = -4;

/// Guest-visible error: no free slot is left in the handle table.
pub const ERR_TABLE_FULL: i32 = -5;

/// `fd` names a live slot of the handle table.
pub open spec fn handle_ok(handles: Seq<Option<i32>>, fd: i32) -> bool {
    0 <= fd < handles.len() && handles[fd as int] is Some
}

/// Index of the first free slot of the handle table, or its length when
/// every slot is live.
pub open spec fn first_free(handles: Seq<Option<i32>>) -> int
    decreases handles.len(),
{
    if handles.len() == 0 {
        0
    } else if handles[0] is None {
        0
    } else {
        1 + first_free(handles.drop_first())
    }
}

proof fn lemma_first_free_at(handles: Seq<Option<i32>>, i: int)
    requires
        0 <= i <= handles.len(),
        forall|j: int| 0 <= j < i ==> handles[j] is Some,
        i == handles.len() || handles[i] is None,
    ensures
        first_free(handles) == i,
    decreases i,
{
    if i > 0 {
        lemma_first_free_at(handles.drop_first(), i - 1);
    }
}

/// Reads the name of the environment variable the guest asks about: the
/// name range is validated against linear memory before a single byte is
/// read, and on failure the guest sees an error value, never a host fault.
pub fn get_env(instance: &Instance, name_ptr: u32, name_len: u32) -> (r: Result<Vec<u8>, i32>)
    ensures
        r is Ok <==> range_ok(name_ptr, name_len, instance.mem().len() as int),
        r is Ok ==> r->Ok_0@ == instance.mem().subrange(
            name_ptr as int,
            name_ptr as int + name_len as int,
        ),
        r is Err ==> r->Err_0 == ERR_OUT_OF_BOUNDS,
{
    match read_bytes(instance, name_ptr, name_len) {
        Ok(name) => Ok(name),
        Err(MemoryError::OutOfBounds) => Err(ERR_OUT_OF_BOUNDS),
    }
}

/// Delivers the host's environment lookup outcome to the guest: a missing
/// variable becomes the `ENV_MISSING` sentinel, and a present value is
/// written into linear memory at `dest_ptr` — after validating that range —
/// with its offset and length reported back. An undeliverable value (the
/// destination fails the validator, or the offset or length cannot be
/// represented to the guest) leaves memory untouched and reports an error.
pub fn get_env_reply(instance: &mut Instance, value: Option<&Vec<u8>>, dest_ptr: u32) -> (r: (
    i32,
    u32,
))
    ensures
        final(instance).points() == old(instance).points(),
        final(instance).is_faulted() == old(instance).is_faulted(),
        final(instance).handles() == old(instance).handles(),
        final(instance).mem().len() == old(instance).mem().len(),
        value is None ==> r == (ENV_MISSING, 0u32) && final(instance).mem() == old(instance).mem(),
        value matches Some(v) ==> (if dest_ptr <= i32::MAX && v@.len() <= u32::MAX && dest_ptr
            + v@.len() <= old(instance).mem().len() {
            &&& r == (dest_ptr as i32, v@.len() as u32)
            &&& forall|j: int|
                0 <= j < v@.len() ==> final(instance).mem()[dest_ptr + j] == v@[j]
            &&& forall|j: int|
                0 <= j < old(instance).mem().len() && !(dest_ptr <= j < dest_ptr + v@.len())
                    ==> final(instance).mem()[j] == old(instance).mem()[j]
        } else {
            r == (ERR_OUT_OF_BOUNDS, 0u32) && final(instance).mem() == old(instance).mem()
        }),
{
    match value {
        None => (ENV_MISSING, 0u32),
        Some(v) => {
            if dest_ptr > i32::MAX as u32 || v.len() as u64 > u32::MAX as u64 {
                return (ERR_OUT_OF_BOUNDS, 0u32);
            }
            match write_bytes(instance, dest_ptr, v) {
                Ok(()) => (dest_ptr as i32, v.len() as u32),
                Err(MemoryError::OutOfBounds) => (ERR_OUT_OF_BOUNDS, 0u32),
            }
        },
    }
}

/// The path the guest wants opened contains an interior NUL byte and so can
/// never reach the host as a C string.
pub open spec fn has_nul(bytes: Seq<u8>) -> bool {
    exists|j: int| 0 <= j < bytes.len() && bytes[j] == 0
}

/// Reads and checks the path for an `open` request: the path range is
/// validated against linear memory, and the bytes are refused if they hold
/// an interior NUL, since the host expects a NUL-terminated string. No host
/// file is touched here; on success the embedder performs the host open and
/// hands the outcome to `open_commit`.
pub fn open_path(instance: &Instance, path_ptr: u32, path_len: u32) -> (r: Result<Vec<u8>, i32>)
    ensures
        r is Ok <==> range_ok(path_ptr, path_len, instance.mem().len() as int) && !has_nul(
            instance.mem().subrange(path_ptr as int, path_ptr as int + path_len as int),
        ),
        r is Ok ==> r->Ok_0@ == instance.mem().subrange(
            path_ptr as int,
            path_ptr as int + path_len as int,
        ),
        !range_ok(path_ptr, path_len, instance.mem().len() as int) ==> r == Err::<
            Vec<u8>,
            i32,
        >(ERR_OUT_OF_BOUNDS),
        range_ok(path_ptr, path_len, instance.mem().len() as int) && has_nul(
            instance.mem().subrange(path_ptr as int, path_ptr as int + path_len as int),
        ) ==> r == Err::<Vec<u8>, i32>(ERR_INVALID_ARG),
{
    let path = match read_bytes(instance, path_ptr, path_len) {
        Ok(path) => path,
        Err(MemoryError::OutOfBounds) => {
            return Err(ERR_OUT_OF_BOUNDS);
        },
    };
    let n = path.len();
    let mut i: usize = 0;
    while i < n
        invariant
            0 <= i <= n,
            n == path@.len(),
            range_ok(path_ptr, path_len, instance.mem().len() as int),
            path@ == instance.mem().subrange(path_ptr as int, path_ptr as int + path_len as int),
            forall|j: int| 0 <= j < i ==> path@[j] != 0,
        decreases n - i,
    {
        if path[i] == 0 {
            return Err(ERR_INVALID_ARG);
        }
        i = i + 1;
    }
    Ok(path)
}

/// Translates the host's outcome of an `open` back to the guest. A host
/// failure (a negative host result) passes through unchanged. A host file
/// descriptor is recorded in the first free slot of the handle table — or a
/// fresh slot when none is free — and the guest sees that slot's index as
/// its handle; the table itself never leaves the bridge.
pub fn open_commit(instance: &mut Instance, host_result: i32) -> (r: i32)
    ensures
        final(instance).points() == old(instance).points(),
        final(instance).is_faulted() == old(instance).is_faulted(),
        final(instance).mem() == old(instance).mem(),
        host_result < 0 ==> r == host_result && final(instance).handles() == old(
            instance,
        ).handles(),
        host_result >= 0 && first_free(old(instance).handles()) < old(instance).handles().len()
            && first_free(old(instance).handles()) <= i32::MAX ==> {
            &&& r == first_free(old(instance).handles())
            &&& final(instance).handles() == old(instance).handles().update(
                first_free(old(instance).handles()),
                Some(host_result),
            )
        },
        host_result >= 0 && first_free(old(instance).handles()) == old(instance).handles().len()
            && old(instance).handles().len() <= i32::MAX ==> {
            &&& r == old(instance).handles().len()
            &&& final(instance).handles() == old(instance).handles().push(Some(host_result))
        },
        host_result >= 0 && first_free(old(instance).handles()) > i32::MAX ==> r == ERR_TABLE_FULL
            && final(instance).handles() == old(instance).handles(),
        host_result >= 0 ==> handle_ok(final(instance).handles(), r) || r == ERR_TABLE_FULL,
{
    if host_result < 0 {
        return host_result;
    }
    let n = instance.files.len();
    let mut i: usize = 0;
    while i < n
        invariant
            n == instance.files@.len(),
            0 <= i <= n,
            host_result >= 0,
            instance.points() == old(instance).points(),
            instance.is_faulted() == old(instance).is_faulted(),
            instance.mem() == old(instance).mem(),
            instance.handles() == old(instance).handles(),
            forall|j: int| 0 <= j < i ==> instance.files@[j] is Some,
        decreases n - i,
    {
        let slot = instance.files[i];
        if slot.is_none() {
            proof {
                lemma_first_free_at(instance.files@, i as int);
            }
            if i > i32::MAX as usize {
                return ERR_TABLE_FULL;
            }
            instance.files[i] = Some(host_result);
            return i as i32;
        }
        i = i + 1;
    }
    proof {
        lemma_first_free_at(instance.files@, n as int);
    }
    if n > i32::MAX as usize {
        return ERR_TABLE_FULL;
    }
    instance.files.push(Some(host_result));
    n as i32
}

/// Validates a guest `read` request before any host read is issued: first
/// the destination buffer range is checked against linear memory — so a
/// short or failing host read can never write outside the validated range —
/// then the handle is looked up. On success the embedder reads at most the
/// returned length from the returned host descriptor and delivers the bytes
/// through `read_commit`; on failure the guest sees an error and no host
/// read happens.
pub fn read_request(instance: &Instance, fd: i32, buf_ptr: u32, buf_len: u32) -> (r: Result<
    (i32, u32),
    i32,
>)
    ensures
        !range_ok(buf_ptr, buf_len, instance.mem().len() as int) ==> r == Err::<
            (i32, u32),
            i32,
        >(ERR_OUT_OF_BOUNDS),
        range_ok(buf_ptr, buf_len, instance.mem().len() as int) && !handle_ok(
            instance.handles(),
            fd,
        ) ==> r == Err::<(i32, u32), i32>(ERR_BAD_HANDLE),
        range_ok(buf_ptr, buf_len, instance.mem().len() as int) && handle_ok(
            instance.handles(),
            fd,
        ) ==> r == Ok::<(i32, u32), i32>((instance.handles()[fd as int]->0, buf_len)),
{
    let end: u64 = (buf_ptr as u64) + (buf_len as u64);
    if end > instance.memory.len() as u64 {
        return Err(ERR_OUT_OF_BOUNDS);
    }
    if fd < 0 {
        return Err(ERR_BAD_HANDLE);
    }
    let idx = fd as usize;
    if idx >= instance.files.len() {
        return Err(ERR_BAD_HANDLE);
    }
    match instance.files[idx] {
        Some(host_fd) => Ok((host_fd, buf_len)),
        None => Err(ERR_BAD_HANDLE),
    }
}

/// Delivers the bytes of a host read into the validated destination buffer
/// and reports the byte count to the guest. The destination is validated
/// again before writing; an undeliverable result (out of bounds, or a count
/// beyond what the guest can represent) leaves memory untouched.
pub fn read_commit(instance: &mut Instance, buf_ptr: u32, data: &Vec<u8>) -> (r: i32)
    ensures
        final(instance).points() == old(instance).points(),
        final(instance).is_faulted() == old(instance).is_faulted(),
        final(instance).handles() == old(instance).handles(),
        final(instance).mem().len() == old(instance).mem().len(),
        data@.len() <= i32::MAX && buf_ptr + data@.len() <= old(instance).mem().len() ==> {
            &&& r == data@.len()
            &&& forall|j: int|
                0 <= j < data@.len() ==> final(instance).mem()[buf_ptr + j] == data@[j]
            &&& forall|j: int|
                0 <= j < old(instance).mem().len() && !(buf_ptr <= j < buf_ptr + data@.len())
                    ==> final(instance).mem()[j] == old(instance).mem()[j]
        },
        !(data@.len() <= i32::MAX && buf_ptr + data@.len() <= old(instance).mem().len()) ==> r
            == ERR_OUT_OF_BOUNDS && final(instance).mem() == old(instance).mem(),
{
    if data.len() as u64 > i32::MAX as u64 {
        return ERR_OUT_OF_BOUNDS;
    }
    match write_bytes(instance, buf_ptr, data) {
        Ok(()) => data.len() as i32,
        Err(MemoryError::OutOfBounds) => ERR_OUT_OF_BOUNDS,
    }
}

/// Releases a guest handle: the slot is freed and the host descriptor it
/// held is handed back so the embedder can close it on the host side. After
/// this, any further request on the same handle fails with
/// `ERR_BAD_HANDLE` until the slot is reused by a later `open`.
pub fn close(instance: &mut Instance, fd: i32) -> (r: Result<i32, i32>)
    ensures
        final(instance).points() == old(instance).points(),
        final(instance).is_faulted() == old(instance).is_faulted(),
        final(instance).mem() == old(instance).mem(),
        handle_ok(old(instance).handles(), fd) ==> r == Ok::<i32, i32>(
            old(instance).handles()[fd as int]->0,
        ) && final(instance).handles() == old(instance).handles().update(fd as int, None),
        !handle_ok(old(instance).handles(), fd) ==> r == Err::<i32, i32>(ERR_BAD_HANDLE)
            && final(instance).handles() == old(instance).handles(),
        !handle_ok(final(instance).handles(), fd),
{
    if fd < 0 {
        return Err(ERR_BAD_HANDLE);
    }
    let idx = fd as usize;
    if idx >= instance.files.len() {
        return Err(ERR_BAD_HANDLE);
    }
    match instance.files[idx] {
        Some(host_fd) => {
            instance.files[idx] = None;
            Ok(host_fd)
        },
        None => Err(ERR_BAD_HANDLE),
    }
}

} // verus!
