use vstd::prelude::*;

verus! {

/// An account address: the 32 bytes of a public key.
pub type Key = [u8; 32];

/// The default (all-zero) address, which marks an empty leaderboard slot.
pub open spec fn is_default_key(k: Key) -> bool {
    forall|i: int| 0 <= i < 32 ==> k[i] == 0u8
}

/// The all-zero address.
pub fn default_key() -> (k: Key)
    ensures
        is_default_key(k),
{
    [0u8; 32]
}

/// Byte-wise comparison of two addresses.
pub fn keys_equal(a: &Key, b: &Key) -> (r: bool)
    ensures
        r == (*a == *b),
{
    let mut i: usize = 0;
    while i < 32
        invariant
            i <= 32,
            forall|k: int| 0 <= k < i ==> a[k] == b[k],
        decreases 32 - i,
    {
        if a[i] != b[i] {
            return false;
        }
        i = i + 1;
    }
    assert(*a =~= *b);
    true
}

/// Whether an address is the all-zero address.
pub fn key_is_default(k: &Key) -> (r: bool)
    ensures
        r == is_default_key(*k),
{
    let zero = default_key();
    let r = keys_equal(k, &zero);
    proof {
        if is_default_key(*k) {
            assert(*k =~= zero);
        }
    }
    r
}

} // verus!
