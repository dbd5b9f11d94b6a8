use vstd::prelude::*;

verus! {

/// The number of elements held by a buffer slot; an empty slot holds none.
pub open spec fn held_len(current_len: Option<usize>) -> nat {
    match current_len {
        Some(len) => len as nat,
        None => 0,
    }
}

/// The length of the buffer in a slot, zero for an empty slot.
pub fn current_len(slot: Option<usize>) -> (len: usize)
    ensures
        len == held_len(slot),
{
    match slot {
        Some(len) => len,
        None => 0,
    }
}

/// Whether the buffer in a slot (`None`: no buffer yet) is too short for
/// `len_needed` elements and has to be replaced by a new, longer one.
/// A slot whose buffer is long enough is kept as it is.
pub fn needs_reallocation(current: Option<usize>, len_needed: usize) -> (r: bool)
    ensures
        r == (held_len(current) < len_needed),
{
    current_len(current) < len_needed
}

/// A replacement buffer of at least the needed length is strictly longer than
/// the one it replaces (buffers only ever grow), and it needs no further
/// replacement for the same need.
pub proof fn lemma_reallocation_grows(current: Option<usize>, len_needed: usize, new_len: usize)
    requires
        held_len(current) < len_needed,
        len_needed <= new_len,
    ensures
        held_len(current) < new_len,
        !(held_len(Some(new_len)) < len_needed),
{
}

/// A slot that needs no replacement already holds at least the needed length.
pub proof fn lemma_kept_buffer_suffices(current: Option<usize>, len_needed: usize)
    requires
        !(held_len(current) < len_needed),
    ensures
        current is Some || len_needed == 0,
        current matches Some(len) ==> len_needed <= len,
{
}

} // verus!
