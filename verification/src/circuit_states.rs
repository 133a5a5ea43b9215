use crate::error::ChunkError;
use vstd::prelude::*;

verus! {

/// The boolean state of every cell of a chunk, eight cells to a byte.
///
/// Cell `i` lives in byte `i >> 3` at bit position `i & 7`. The capacity is
/// fixed by the length of the byte sequence: writes never grow it.
pub struct CircuitStates {
    pub vec: Vec<u8>,
}

/// Whether bit `pos` (0 is the least significant) of `byte` is set.
pub open spec fn byte_bit(byte: u8, pos: u8) -> bool {
    (byte >> pos) & 1 == 1
}

/// `byte` with bit `pos` replaced by `state`.
pub open spec fn byte_with_bit(byte: u8, pos: u8, state: bool) -> u8 {
    (byte & !(1u8 << pos)) | ((if state { 1u8 } else { 0u8 }) << pos)
}

/// Writing one bit of a byte sets that bit and leaves the seven others alone.
pub proof fn lemma_byte_with_bit(byte: u8, pos: u8, state: bool, other: u8)
    requires
        pos < 8,
        other < 8,
    ensures
        byte_bit(byte_with_bit(byte, pos, state), pos) == state,
        other != pos ==> byte_bit(byte_with_bit(byte, pos, state), other) == byte_bit(byte, other),
{
    assert(byte_bit(byte_with_bit(byte, pos, state), pos) == state) by (bit_vector)
        requires
            pos < 8,
    ;
    assert(other != pos ==> byte_bit(byte_with_bit(byte, pos, state), other) == byte_bit(
        byte,
        other,
    )) by (bit_vector)
        requires
            pos < 8,
            other < 8,
    ;
}

impl View for CircuitStates {
    type V = Seq<bool>;

    /// The set as a sequence of cell states, one entry per bit of storage.
    open spec fn view(&self) -> Seq<bool> {
        Seq::new(
            self.vec@.len() * 8,
            |i: int| byte_bit(self.vec@[i / 8], (i % 8) as u8),
        )
    }
}

impl CircuitStates {
    /// The number of cells the set can hold: eight per byte.
    pub open spec fn capacity(&self) -> nat {
        self.vec@.len() * 8
    }

    /// The state that `get` reports for cell `id`: the stored bit within
    /// capacity, `false` at and beyond it.
    pub open spec fn state_at(&self, id: int) -> bool {
        0 <= id < self.capacity() && self@[id]
    }

    /// The number of cells the set can hold, or `None` where that number does
    /// not fit a machine word.
    pub fn capacity_bits(&self) -> (bits: Option<usize>)
        ensures
            self.capacity() <= usize::MAX ==> bits == Some(self.capacity() as usize),
            self.capacity() > usize::MAX ==> bits.is_none(),
    {
        self.vec.len().checked_mul(8)
    }

    /// Reads the state of cell `id`. Cells at or beyond capacity read as `false`.
    pub fn get(&self, id: usize) -> (state: bool)
        ensures
            state == self.state_at(id as int),
            id >= self.capacity() ==> !state,
            id < self.capacity() ==> state == self@[id as int],
    {
        let vec_index = id >> 3;
        let byte_index = id & 0b111;
        proof {
            lemma_index_split(id);
        }
        if vec_index >= self.vec.len() {
            return false;
        }
        let byte = self.vec[vec_index];
        ((byte >> (byte_index as u8)) & 1) == 1
    }

    /// Writes the state of cell `id` by a read-modify-write of its byte.
    ///
    /// Fails with `OutOfRange`, leaving the set untouched, when `id` is at or
    /// beyond capacity.
    pub fn set(&mut self, id: usize, state: bool) -> (result: Result<(), ChunkError>)
        ensures
            id < old(self).capacity() ==> result == Ok::<(), ChunkError>(()) && final(self)@
                == old(self)@.update(id as int, state) && final(self).vec@ == old(self).vec@.update(
                id as int / 8,
                byte_with_bit(old(self).vec@[id as int / 8], (id as int % 8) as u8, state),
            ),
            id >= old(self).capacity() ==> result == Err::<(), ChunkError>(
                ChunkError::OutOfRange,
            ) && *final(self) == *old(self),
    {
        let vec_index = id >> 3;
        let byte_index = id & 0b111;
        proof {
            lemma_index_split(id);
        }
        if vec_index >= self.vec.len() {
            return Err(ChunkError::OutOfRange);
        }
        let byte = self.vec[vec_index];
        let pos = byte_index as u8;
        let bit: u8 = if state { 1 } else { 0 };
        let updated = (byte & !(1u8 << pos)) | (bit << pos);
        self.vec[vec_index] = updated;
        proof {
            assert(updated == byte_with_bit(byte, pos, state));
            assert forall|i: int| 0 <= i < self@.len() implies self@[i] == old(self)@.update(
                id as int,
                state,
            )[i] by {
                lemma_byte_with_bit(byte, pos, state, (i % 8) as u8);
            }
            assert(self@ =~= old(self)@.update(id as int, state));
        }
        Ok(())
    }
}

/// Bit round trip: after a write at `id` within capacity, a read at `id`
/// gives what was written, and a read at any other index, within capacity
/// or beyond it, gives what it gave before.
pub proof fn lemma_set_then_get(
    before: CircuitStates,
    after: CircuitStates,
    id: int,
    state: bool,
    other: int,
)
    requires
        0 <= id < before.capacity(),
        after@ == before@.update(id, state),
    ensures
        after.capacity() == before.capacity(),
        after.state_at(id) == state,
        other != id ==> after.state_at(other) == before.state_at(other),
{
    assert(after@.len() == after.capacity());
    assert(before@.len() == before.capacity());
}

/// Splitting a cell index by shift and mask is division and remainder by eight.
proof fn lemma_index_split(id: usize)
    ensures
        (id >> 3) == id / 8,
        (id & 0b111) == id % 8,
{
    assert((id >> 3) == id / 8) by (bit_vector);
    assert((id & 0b111) == id % 8) by (bit_vector);
}

} // verus!
