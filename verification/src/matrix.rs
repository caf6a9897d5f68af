use vstd::prelude::*;

verus! {

/// The bit pattern of the single-precision number one.
pub const ONE_BITS: u32 = 0x3F80_0000;

/// A 4x4 matrix in column-major order.
///
/// Each element is kept as the 32-bit pattern of a single-precision number.
/// The library moves elements around and compares them; it never computes
/// with them.
#[derive(Clone, Copy, PartialEq, Eq, Debug)]
pub struct Matrix4 {
    pub columns: [[u32; 4]; 4],
}

impl Matrix4 {
    /// The element in column `column`, row `row`.
    pub open spec fn element(self, column: int, row: int) -> u32 {
        self.columns[column][row]
    }

    /// The identity: ones on the diagonal, zeros elsewhere.
    pub open spec fn spec_identity() -> Matrix4 {
        Matrix4 {
            columns: [
                [ONE_BITS, 0, 0, 0],
                [0, ONE_BITS, 0, 0],
                [0, 0, ONE_BITS, 0],
                [0, 0, 0, ONE_BITS],
            ],
        }
    }

    /// The identity matrix.
    pub fn identity() -> (m: Self)
        ensures
            m == Self::spec_identity(),
    {
        Matrix4 {
            columns: [
                [ONE_BITS, 0, 0, 0],
                [0, ONE_BITS, 0, 0],
                [0, 0, ONE_BITS, 0],
                [0, 0, 0, ONE_BITS],
            ],
        }
    }
}

} // verus!

