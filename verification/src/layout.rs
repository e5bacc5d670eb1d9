//! Layout rules shared by the buffer contract and the generator: what it
//! means for a `(size, align)` pair to be a valid buffer layout.

use vstd::prelude::*;
use vstd::string::StringExecFns;

verus! {

/// A number is a power of two when repeatedly halving it reaches one
/// without ever passing through an odd number other than one.
pub open spec fn is_power_of_two(n: nat) -> bool
    decreases n,
{
    if n == 0 {
        false
    } else if n == 1 {
        true
    } else {
        n % 2 == 0 && is_power_of_two(n / 2)
    }
}

/// A valid buffer layout: a nonzero size that is a multiple of a
/// power-of-two alignment.
pub open spec fn layout_ok(size: nat, align: nat) -> bool {
    &&& size > 0
    &&& is_power_of_two(align)
    &&& size % align == 0
}

/// Decides whether `n` is a power of two.
pub fn power_of_two(n: usize) -> (r: bool)
    ensures
        r == is_power_of_two(n as nat),
{
    let mut m: usize = n;
    while m > 1 && m % 2 == 0
        invariant
            is_power_of_two(n as nat) == is_power_of_two(m as nat),
        decreases m,
    {
        m = m / 2;
    }
    m == 1
}

/// The property of a type's layout that failed an attestation, in the order
/// the properties are checked: size first, then alignment, then the rules on
/// the declared pair itself.
#[derive(Clone, Copy, PartialEq, Eq, Structural, Debug)]
pub enum LayoutError {
    /// The type's real size differs from the declared size.
    WrongSize,
    /// The type's real alignment differs from the declared alignment.
    WrongAlignment,
    /// The declared size is not a multiple of the declared alignment.
    NotMultiple,
    /// The declared alignment is not a power of two.
    NotPowerOfTwo,
    /// The declared size is zero.
    ZeroSize,
}

impl LayoutError {
    /// The description naming the property that failed.
    pub open spec fn message_spec(&self) -> Seq<char> {
        match self {
            LayoutError::WrongSize => "invalid size"@,
            LayoutError::WrongAlignment => "invalid alignment"@,
            LayoutError::NotMultiple => "size is not a multiple of alignment"@,
            LayoutError::NotPowerOfTwo => "alignment is not a power of two"@,
            LayoutError::ZeroSize => "size cannot be zero"@,
        }
    }

    /// Renders the description of the failed property.
    pub fn message(&self) -> (s: String)
        ensures
            s@ == self.message_spec(),
    {
        match self {
            LayoutError::WrongSize => String::from_str("invalid size"),
            LayoutError::WrongAlignment => String::from_str("invalid alignment"),
            LayoutError::NotMultiple => String::from_str("size is not a multiple of alignment"),
            LayoutError::NotPowerOfTwo => String::from_str("alignment is not a power of two"),
            LayoutError::ZeroSize => String::from_str("size cannot be zero"),
        }
    }
}

/// Attests that the real layout of `T` is `SIZE` bytes aligned to `ALIGN`
/// bytes and that the pair obeys the layout rules, naming the first property
/// that fails. A verification hook independent of the generator, usable for
/// hand-written conforming types.
pub fn assert_layout<const SIZE: usize, const ALIGN: usize, T>() -> (r: Result<(), LayoutError>)
    ensures
        r == (if vstd::layout::size_of::<T>() != SIZE as nat {
            Err::<(), LayoutError>(LayoutError::WrongSize)
        } else if vstd::layout::align_of::<T>() != ALIGN as nat {
            Err::<(), LayoutError>(LayoutError::WrongAlignment)
        } else if SIZE as nat % ALIGN as nat != 0 {
            Err::<(), LayoutError>(LayoutError::NotMultiple)
        } else if !is_power_of_two(ALIGN as nat) {
            Err::<(), LayoutError>(LayoutError::NotPowerOfTwo)
        } else if SIZE == 0 {
            Err::<(), LayoutError>(LayoutError::ZeroSize)
        } else {
            Ok::<(), LayoutError>(())
        }),
        r is Ok <==> {
            &&& vstd::layout::size_of::<T>() == SIZE as nat
            &&& vstd::layout::align_of::<T>() == ALIGN as nat
            &&& layout_ok(SIZE as nat, ALIGN as nat)
        },
{
    vstd::layout::layout_for_type_is_valid::<T>();
    let size: usize = core::mem::size_of::<T>();
    let align: usize = core::mem::align_of::<T>();
    if size != SIZE {
        return Err(LayoutError::WrongSize);
    }
    if align != ALIGN {
        return Err(LayoutError::WrongAlignment);
    }
    if SIZE % ALIGN != 0 {
        return Err(LayoutError::NotMultiple);
    }
    if !power_of_two(ALIGN) {
        return Err(LayoutError::NotPowerOfTwo);
    }
    if SIZE == 0 {
        return Err(LayoutError::ZeroSize);
    }
    Ok(())
}

} // verus!
