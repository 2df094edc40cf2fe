//! Choosing the device memory type for a buffer or an image.

use vstd::prelude::*;

verus! {

/// Largest number of memory types a device reports.
pub const MAX_MEMORY_TYPES: usize = 32;

/// Whether memory type `i` is allowed by `type_bits` and has every flag of
/// `properties` among its own flags `type_flags[i]`.
pub open spec fn suitable(type_bits: u32, type_flags: Seq<u32>, properties: u32, i: int) -> bool {
    &&& type_bits & (1u32 << (i as u32)) != 0
    &&& type_flags[i] & properties == properties
}

/// The first memory type that `type_bits` allows and that has all of
/// `properties`, among memory types with flags `type_flags`; none when no
/// type fits.
fn first_memory_type(type_bits: u32, type_flags: &[u32], properties: u32) -> (r: Option<u32>)
    requires
        type_flags@.len() <= MAX_MEMORY_TYPES,
    ensures
        r matches Some(i) ==> i < type_flags@.len() && suitable(type_bits, type_flags@, properties, i as int)
            && forall|j: int| 0 <= j < i ==> !suitable(type_bits, type_flags@, properties, j),
        r is None ==> forall|j: int| 0 <= j < type_flags@.len() ==> !suitable(type_bits, type_flags@, properties, j),
{
    let count = type_flags.len() as u32;
    let mut i: u32 = 0;
    while i < count
        invariant
            count == type_flags@.len(),
            count <= 32,
            i <= count,
            forall|j: int| 0 <= j < i ==> !suitable(type_bits, type_flags@, properties, j),
        decreases count - i,
    {
        let allowed = (type_bits & (1u32 << i)) != 0;
        let has = (type_flags[i as usize] & properties) == properties;
        if allowed && has {
            return Some(i);
        }
        i = i + 1;
    }
    None
}

/// Some memory type among `type_flags` is allowed by `type_bits` and has
/// all of `properties`.
pub open spec fn has_suitable(type_bits: u32, type_flags: Seq<u32>, properties: u32) -> bool {
    exists|j: int| 0 <= j < type_flags.len() && suitable(type_bits, type_flags, properties, j)
}

/// Whether some memory type among the device's memory types, with property
/// flags `type_flags`, is allowed by the requirements' `type_bits` and has
/// all the requested `properties`.
pub fn has_memory_type(type_bits: u32, type_flags: &[u32], properties: u32) -> (r: bool)
    requires
        type_flags@.len() <= MAX_MEMORY_TYPES,
    ensures
        r == has_suitable(type_bits, type_flags@, properties),
        r == exists|j: int|
            0 <= j < type_flags@.len() && #[trigger] (type_flags@[j] & properties) == properties && type_bits & (1u32
                << (j as u32)) != 0,
{
    let r = first_memory_type(type_bits, type_flags, properties).is_some();
    proof {
        if r {
            let j = choose|j: int| 0 <= j < type_flags@.len() && suitable(type_bits, type_flags@, properties, j);
            assert((type_flags@[j] & properties) == properties && type_bits & (1u32 << (j as u32)) != 0);
        } else {
            assert forall|j: int| 0 <= j < type_flags@.len() implies !((#[trigger] (type_flags@[j] & properties))
                == properties && type_bits & (1u32 << (j as u32)) != 0) by {
                assert(!suitable(type_bits, type_flags@, properties, j));
            }
        }
    }
    r
}

/// The first memory type that the requirements' `type_bits` allow and that
/// has all the requested `properties`, among the device's memory types
/// with property flags `type_flags`, one of which fits.
pub fn find_memory_type(type_bits: u32, type_flags: &[u32], properties: u32) -> (r: u32)
    requires
        type_flags@.len() <= MAX_MEMORY_TYPES,
        has_suitable(type_bits, type_flags@, properties),
    ensures
        r < type_flags@.len(),
        suitable(type_bits, type_flags@, properties, r as int),
        forall|j: int| 0 <= j < r ==> !suitable(type_bits, type_flags@, properties, j),
        type_flags@[r as int] & properties == properties,
        (type_bits >> r) & 1 == 1,
{
    match first_memory_type(type_bits, type_flags, properties) {
        Some(i) => {
            proof {
                lemma_suitable_has_every_property(type_bits, type_flags@, properties, i as int);
            }
            i
        },
        None => {
            proof {
                let j = choose|j: int| 0 <= j < type_flags@.len() && suitable(type_bits, type_flags@, properties, j);
                assert(!suitable(type_bits, type_flags@, properties, j));
            }
            0
        },
    }
}

/// A suitable memory type has every requested property flag, not just some
/// of them, and its bit is set in `type_bits`.
pub proof fn lemma_suitable_has_every_property(type_bits: u32, type_flags: Seq<u32>, properties: u32, i: int)
    requires
        0 <= i < 32,
        i < type_flags.len(),
        suitable(type_bits, type_flags, properties, i),
    ensures
        type_flags[i] & properties == properties,
        forall|b: u32| b < 32 && #[trigger] ((properties >> b) & 1) == 1 ==> (type_flags[i] >> b) & 1 == 1,
        (type_bits >> (i as u32)) & 1 == 1,
{
    let f = type_flags[i];
    let n = i as u32;
    assert forall|b: u32| b < 32 && #[trigger] ((properties >> b) & 1) == 1 implies (f >> b) & 1 == 1 by {
        assert(f & properties == properties && b < 32 && (properties >> b) & 1 == 1 ==> (f >> b) & 1 == 1)
            by (bit_vector);
    }
    assert(type_bits & (1u32 << n) != 0 && n < 32 ==> (type_bits >> n) & 1 == 1) by (bit_vector);
}

} // verus!
