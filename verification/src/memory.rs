//! The memory address validator: every guest-supplied offset/length pair is
//! checked against the instance's linear memory before any byte is read or
//! written on the guest's behalf.

use vstd::prelude::*;

use crate::instance::Instance;

verus! {

/// Failure of the memory address validator.
#[derive(Clone, Copy, Debug, PartialEq, Eq, Structural)]
pub enum MemoryError {
    /// The requested range does not lie within the instance's current
    /// linear memory, or the offset/length addition wraps the 32-bit
    /// guest address space.
    OutOfBounds,
}

/// The range check behind the validator: the whole guest range
/// `[offset, offset + length)` lies within a linear memory of `size` bytes.
/// The sum is taken over unbounded integers, so a pair whose addition would
/// wrap the 32-bit guest address space can never pass.
pub open spec fn range_ok(offset: u32, length: u32, size: int) -> bool {
    offset + length <= size
}

/// Validates a guest-supplied range against the instance's current linear
/// memory and returns the host-side index of its first byte. Zero-length
/// ranges are checked like any other: the offset itself must lie within the
/// current memory size. Never called on trust: every bridge operation that
/// touches guest memory goes through this check before any host effect.
pub fn validate(instance: &Instance, offset: u32, length: u32) -> (r: Result<usize, MemoryError>)
    ensures
        r is Ok <==> range_ok(offset, length, instance.mem().len() as int),
        r is Ok ==> r->Ok_0 == offset as usize,
        r is Err ==> r->Err_0 == MemoryError::OutOfBounds,
{
    let end: u64 = (offset as u64) + (length as u64);
    if end <= instance.memory.len() as u64 {
        Ok(offset as usize)
    } else {
        Err(MemoryError::OutOfBounds)
    }
}

/// Copies a validated range of linear memory out to the host side. No byte
/// is read unless the whole range validates.
pub fn read_bytes(instance: &Instance, offset: u32, length: u32) -> (r: Result<
    Vec<u8>,
    MemoryError,
>)
    ensures
        r is Ok <==> range_ok(offset, length, instance.mem().len() as int),
        r is Ok ==> r->Ok_0@ == instance.mem().subrange(
            offset as int,
            offset as int + length as int,
        ),
        r is Err ==> r->Err_0 == MemoryError::OutOfBounds,
{
    let start = validate(instance, offset, length)?;
    let len = length as usize;
    let mlen = instance.memory.len();
    let mut out: Vec<u8> = Vec::new();
    let mut i: usize = 0;
    while i < len
        invariant
            0 <= i <= len,
            len == length as int,
            start == offset as usize,
            mlen == instance.memory@.len(),
            start + len <= mlen,
            out@.len() == i,
            forall|j: int| 0 <= j < i ==> out@[j] == instance.mem()[offset + j],
        decreases len - i,
    {
        let b = instance.memory[start + i];
        out.push(b);
        i = i + 1;
    }
    proof {
        assert(out@ =~= instance.mem().subrange(offset as int, offset as int + length as int));
    }
    Ok(out)
}

/// Writes host-side bytes into a validated range of linear memory. The
/// destination is validated first; on failure not one byte of guest memory
/// changes, and nothing outside the validated range is ever written.
pub fn write_bytes(instance: &mut Instance, offset: u32, data: &Vec<u8>) -> (r: Result<
    (),
    MemoryError,
>)
    ensures
        final(instance).points() == old(instance).points(),
        final(instance).is_faulted() == old(instance).is_faulted(),
        final(instance).handles() == old(instance).handles(),
        final(instance).mem().len() == old(instance).mem().len(),
        r is Ok <==> offset + data@.len() <= old(instance).mem().len(),
        r is Ok ==> forall|j: int|
            0 <= j < data@.len() ==> final(instance).mem()[offset + j] == data@[j],
        r is Ok ==> forall|j: int|
            0 <= j < old(instance).mem().len() && !(offset <= j < offset + data@.len())
                ==> final(instance).mem()[j] == old(instance).mem()[j],
        r is Err ==> final(instance).mem() == old(instance).mem() && r->Err_0
            == MemoryError::OutOfBounds,
{
    let len = data.len();
    let mlen = instance.memory.len();
    if (len as u64) > u64::MAX - (offset as u64) {
        return Err(MemoryError::OutOfBounds);
    }
    let end: u64 = (offset as u64) + (len as u64);
    if end > mlen as u64 {
        return Err(MemoryError::OutOfBounds);
    }
    let start = offset as usize;
    let mut i: usize = 0;
    while i < len
        invariant
            0 <= i <= len,
            len == data@.len(),
            start == offset as usize,
            mlen == instance.memory@.len(),
            start + len <= mlen,
            instance.points() == old(instance).points(),
            instance.is_faulted() == old(instance).is_faulted(),
            instance.handles() == old(instance).handles(),
            instance.mem().len() == old(instance).mem().len(),
            forall|j: int| 0 <= j < i ==> instance.mem()[offset + j] == data@[j],
            forall|j: int|
                0 <= j < old(instance).mem().len() && !(offset <= j < offset + i)
                    ==> instance.mem()[j] == old(instance).mem()[j],
        decreases len - i,
    {
        let b = data[i];
        instance.memory[start + i] = b;
        i = i + 1;
    }
    Ok(())
}

/// Grows the linear memory by `additional` zeroed bytes, keeping the whole
/// memory addressable by 32-bit guest offsets; returns whether it grew.
/// Growth never disturbs the bytes already present, but any host-side index
/// derived before a growth point must be re-derived by a fresh `validate`
/// call, since growth may relocate the backing storage.
pub fn grow_memory(instance: &mut Instance, additional: u32) -> (r: bool)
    ensures
        final(instance).points() == old(instance).points(),
        final(instance).is_faulted() == old(instance).is_faulted(),
        final(instance).handles() == old(instance).handles(),
        r <==> old(instance).mem().len() + additional <= u32::MAX,
        r ==> final(instance).mem().len() == old(instance).mem().len() + additional,
        r ==> forall|j: int|
            0 <= j < old(instance).mem().len()
                ==> final(instance).mem()[j] == old(instance).mem()[j],
        r ==> forall|j: int|
            old(instance).mem().len() <= j < final(instance).mem().len()
                ==> final(instance).mem()[j] == 0,
        !r ==> final(instance).mem() == old(instance).mem(),
{
    if instance.memory.len() as u64 > u32::MAX as u64 {
        return false;
    }
    let new_size: u64 = instance.memory.len() as u64 + additional as u64;
    if new_size > u32::MAX as u64 {
        return false;
    }
    let extra = additional as usize;
    let mut i: usize = 0;
    while i < extra
        invariant
            0 <= i <= extra,
            instance.points() == old(instance).points(),
            instance.is_faulted() == old(instance).is_faulted(),
            instance.handles() == old(instance).handles(),
            instance.mem().len() == old(instance).mem().len() + i,
            forall|j: int|
                0 <= j < old(instance).mem().len() ==> instance.mem()[j] == old(instance).mem()[j],
            forall|j: int|
                old(instance).mem().len() <= j < instance.mem().len() ==> instance.mem()[j] == 0,
        decreases extra - i,
    {
        instance.memory.push(0);
        i = i + 1;
    }
    true
}

} // verus!
