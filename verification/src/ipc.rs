//! Appending to an existing IPC file: where the new messages start.
//!
//! To append, a writer seeks past the last recorded message and writes from
//! there. The arithmetic deciding that position is verified here; the
//! reading and seeking themselves are I/O, outside the library.

use vstd::prelude::*;
use crate::error::DataError;

verus! {

/// One recorded message of an IPC file: its offset and lengths as the
/// footer stores them, signed as on disk.
#[derive(Debug, Clone, Copy, PartialEq, Eq, Structural)]
pub struct BlockLocation {
    pub offset: i64,
    pub meta_data_length: i64,
    pub body_length: i64,
}

/// Whether a recorded message is sound: every field non-negative.
pub open spec fn spec_block_sound(b: BlockLocation) -> bool {
    b.offset >= 0 && b.meta_data_length >= 0 && b.body_length >= 0
}

/// The position right after a recorded message.
pub open spec fn spec_end_of(b: BlockLocation) -> int {
    b.offset + b.meta_data_length + b.body_length
}

/// The position at which appended messages must start: right after the last
/// recorded message. Fails exactly when the file records no message at all
/// (a valid IPC file holds at least the schema message), or when a length of
/// the last message is negative.
pub fn append_position(blocks: &Vec<BlockLocation>) -> (r: Result<u64, DataError>)
    ensures
        r is Ok <==> blocks@.len() > 0 && spec_block_sound(blocks@[blocks@.len() - 1])
            && spec_end_of(blocks@[blocks@.len() - 1]) <= u64::MAX,
        r matches Ok(v) ==> v == spec_end_of(blocks@[blocks@.len() - 1]),
        r matches Err(e) ==> e is OutOfSpec,
{
    if blocks.len() == 0 {
        return Err(DataError::OutOfSpec {
            message: String::from_str(
                "an IPC file must record at least one message (the schema message)",
            ),
        });
    }
    let last = blocks[blocks.len() - 1];
    if last.offset < 0 {
        return Err(DataError::OutOfSpec {
            message: String::from_str("the last message's offset must not be negative"),
        });
    }
    if last.meta_data_length < 0 {
        return Err(DataError::OutOfSpec {
            message: String::from_str("the last message's meta length must not be negative"),
        });
    }
    if last.body_length < 0 {
        return Err(DataError::OutOfSpec {
            message: String::from_str("the last message's body length must not be negative"),
        });
    }
    let offset = last.offset as u64;
    let meta = last.meta_data_length as u64;
    let body = last.body_length as u64;
    if offset > u64::MAX - meta || offset + meta > u64::MAX - body {
        return Err(DataError::OutOfSpec {
            message: String::from_str("the end of the last message does not fit the machine"),
        });
    }
    Ok(offset + meta + body)
}

} // verus!
