use crate::task::{Task, TaskSpec};
use vstd::prelude::*;
use vstd::slice::{slice_index_get, slice_subrange, slice_to_vec};
use vstd::string::StrSliceExecFns;
use vstd::utf8::{decode_utf8, encode_utf8, encode_utf8_decode_utf8, encode_utf8_valid_utf8,
    valid_utf8};

verus! {

/// The single byte a flag is stored as.
pub open spec fn flag_byte(b: bool) -> u8 {
    if b {
        1
    } else {
        0
    }
}

/// The serialized form of a record: its identifier, its two flags (one
/// byte each, 0 or 1), then the UTF-8 bytes of its description.
pub open spec fn encode_spec(t: TaskSpec) -> Seq<u8> {
    seq![t.id, flag_byte(t.completed), flag_byte(t.editing)] + encode_utf8(t.description)
}

/// The record that stored bytes decode to: nothing unless the bytes are at
/// least three long, both flag bytes are 0 or 1, and the rest is valid
/// UTF-8.
pub open spec fn decode_spec(b: Seq<u8>) -> Option<TaskSpec> {
    if b.len() >= 3 && (b[1] == 0 || b[1] == 1) && (b[2] == 0 || b[2] == 1) && valid_utf8(
        b.skip(3),
    ) {
        Some(
            TaskSpec {
                id: b[0],
                completed: b[1] == 1,
                editing: b[2] == 1,
                description: decode_utf8(b.skip(3)),
            },
        )
    } else {
        None
    }
}

/// Serializes a record.
pub fn encode_task(t: &Task) -> (r: Vec<u8>)
    ensures
        r@ == encode_spec(t@),
{
    let mut out: Vec<u8> = Vec::new();
    out.push(t.id);
    out.push(if t.completed {
        1
    } else {
        0
    });
    out.push(if t.editing {
        1
    } else {
        0
    });
    let mut desc = t.description.as_str().as_bytes_vec();
    out.append(&mut desc);
    proof {
        assert(out@ =~= encode_spec(t@));
    }
    out
}

/// Relies on String::from_utf8: returns the string whose UTF-8 encoding is
/// the given bytes when they are valid UTF-8, and nothing otherwise.
#[verifier::external_body]
fn string_from_bytes(bytes: Vec<u8>) -> (r: Option<String>)
    ensures
        match r {
            Some(s) => valid_utf8(bytes@) && s@ == decode_utf8(bytes@),
            None => !valid_utf8(bytes@),
        },
{
    match String::from_utf8(bytes) {
        Ok(s) => Some(s),
        Err(_) => None,
    }
}

/// Deserializes stored bytes into a record, or reports that they do not
/// have the expected shape.
pub fn decode_task(bytes: &[u8]) -> (r: Option<Task>)
    ensures
        match (r, decode_spec(bytes@)) {
            (Some(t), Some(d)) => t@ == d,
            (None, None) => true,
            _ => false,
        },
{
    if bytes.len() < 3 {
        return None;
    }
    let b1 = *slice_index_get(bytes, 1);
    let b2 = *slice_index_get(bytes, 2);
    if b1 > 1 || b2 > 1 {
        return None;
    }
    let tail = slice_subrange(bytes, 3, bytes.len());
    match string_from_bytes(slice_to_vec(tail)) {
        None => None,
        Some(description) => {
            let id = *slice_index_get(bytes, 0);
            Some(Task { id, completed: b1 == 1, description, editing: b2 == 1 })
        },
    }
}

/// Decoding inverts encoding: the bytes written for a record decode to
/// exactly that record.
pub proof fn lemma_encode_decode(t: TaskSpec)
    ensures
        decode_spec(encode_spec(t)) == Some(t),
{
    let b = encode_spec(t);
    assert(b.skip(3) =~= encode_utf8(t.description));
    encode_utf8_valid_utf8(t.description);
    encode_utf8_decode_utf8(t.description);
    assert(decode_spec(b) == Some(t));
}

} // verus!
