//! Error returned when a memory packer runs out of buffer space.

use vstd::prelude::*;

use crate::text::{decimal, push_decimal};

verus! {

/// Failure encountered while packing into a fixed-size IPC buffer.
#[derive(Debug, Clone, Copy, PartialEq, Eq)]
pub enum MemoryPackError {
    /// One or more writes were skipped because the destination buffer ran out of space.
    ///
    /// The first `needed`/`remaining` pair is captured at the point of overflow; later writes are
    /// ignored so the encoder cursor remains at the last complete value.
    BufferTooSmall {
        /// Short type name of the value whose write first ran out of room.
        ty: &'static str,
        /// Bytes the offending write required.
        needed: usize,
        /// Bytes still free at the moment of the offending write.
        remaining: usize,
    },
}

/// Displayed text of [`MemoryPackError::BufferTooSmall`].
pub open spec fn buffer_too_small_text(ty: Seq<char>, needed: nat, remaining: nat) -> Seq<char> {
    seq![
        'p', 'a', 'c', 'k', 'e', 'r', ' ', 'b', 'u', 'f', 'f', 'e', 'r', ' ', 't', 'o', 'o', ' ',
        's', 'm', 'a', 'l', 'l', ':', ' ', 'n', 'e', 'e', 'd', 'e', 'd', ' ',
    ] + decimal(needed) + seq![' ', 'b', 'y', 't', 'e', '(', 's', ')', ' ', 'f', 'o', 'r', ' ']
        + ty + seq![',', ' '] + decimal(remaining) + seq![
        ' ', 'b', 'y', 't', 'e', '(', 's', ')', ' ', 'r', 'e', 'm', 'a', 'i', 'n', 'i', 'n', 'g',
    ]
}

impl MemoryPackError {
    /// Displayed text of the error:
    /// `packer buffer too small: needed {needed} byte(s) for {ty}, {remaining} byte(s) remaining`.
    pub fn to_string(&self) -> (r: String)
        ensures
            r@ == (match *self {
                MemoryPackError::BufferTooSmall { ty, needed, remaining } => buffer_too_small_text(
                    ty@,
                    needed as nat,
                    remaining as nat,
                ),
            }),
    {
        match *self {
            MemoryPackError::BufferTooSmall { ty, needed, remaining } => {
                let mut r = "packer buffer too small: needed ".to_owned();
                push_decimal(&mut r, needed);
                r.append(" byte(s) for ");
                r.append(ty);
                r.append(", ");
                push_decimal(&mut r, remaining);
                r.append(" byte(s) remaining");
                proof {
                    reveal_strlit("packer buffer too small: needed ");
                    reveal_strlit(" byte(s) for ");
                    reveal_strlit(", ");
                    reveal_strlit(" byte(s) remaining");
                    assert(r@ =~= buffer_too_small_text(ty@, needed as nat, remaining as nat));
                }
                r
            },
        }
    }
}

} // verus!
