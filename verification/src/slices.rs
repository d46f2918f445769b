//! Copying bytes.

use vstd::prelude::*;

verus! {

/// Copies bytes to the front of a buffer; the rest of the buffer stays.
pub fn copy_to_front(buffer: &mut [u8], bytes: &[u8])
    requires
        bytes@.len() <= old(buffer)@.len(),
    ensures
        final(buffer)@ == bytes@ + old(buffer)@.skip(bytes@.len() as int),
{
    for i in 0..bytes.len()
        invariant
            bytes@.len() <= old(buffer)@.len(),
            buffer@.len() == old(buffer)@.len(),
            buffer@ =~= bytes@.take(i as int) + old(buffer)@.skip(i as int),
    {
        buffer[i] = bytes[i];
    }
    assert(bytes@.take(bytes@.len() as int) =~= bytes@);
}

} // verus!
