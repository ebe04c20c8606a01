//! Rules on the ids that players choose for new rooms.
use vstd::prelude::*;
use crate::outside::{alphanumeric, is_alphanumeric, random_below, string_from_chars};
use vstd::std_specs::iter::IteratorSpec;

verus! {

broadcast use vstd::string::axiom_spec_iter, vstd::string::next_postcondition;

/// Longest custom room id, in bytes.
pub const MAX_ROOM_ID_BYTES: usize = 20;

/// A character that may appear in a room id: a letter, a digit, `_` or `-`.
pub open spec fn room_id_char(c: char) -> bool {
    alphanumeric(c) || c == '_' || c == '-'
}

/// Why a custom room id was refused.
#[derive(Debug, Clone, Copy, PartialEq, Eq, Structural)]
pub enum RoomIdProblem {
    Empty,
    TooLong,
    BadCharacter,
}

/// Checks a room id chosen by a player: not empty, at most
/// [`MAX_ROOM_ID_BYTES`] bytes, and made of letters, digits, `_` and `-`,
/// checked in that order.
pub fn check_room_id(id: &String) -> (r: Result<(), RoomIdProblem>)
    ensures
        r == if id@.len() == 0 {
            Err::<(), RoomIdProblem>(RoomIdProblem::Empty)
        } else if vstd::utf8::encode_utf8(id@).len() as usize > MAX_ROOM_ID_BYTES {
            Err(RoomIdProblem::TooLong)
        } else if exists|i: int| 0 <= i < id@.len() && !room_id_char(#[trigger] id@[i]) {
            Err(RoomIdProblem::BadCharacter)
        } else {
            Ok(())
        },
{
    let text = id.as_str();
    let mut chars = text.chars();
    let ghost all = id@;
    let ghost mut seen: int = 0;
    let mut first = true;
    let mut bad = false;
    loop
        invariant
            all == id@,
            chars.obeys_prophetic_iter_laws(),
            0 <= seen <= all.len(),
            chars.remaining() == all.subrange(seen, all.len() as int),
            first <==> seen == 0,
            bad <==> exists|i: int| 0 <= i < seen && !room_id_char(#[trigger] all[i]),
        ensures
            seen == all.len(),
            first <==> seen == 0,
            bad <==> exists|i: int| 0 <= i < seen && !room_id_char(#[trigger] all[i]),
        decreases all.len() - seen,
    {
        match chars.next() {
            Some(c) => {
                proof {
                    assert(c == all[seen]);
                    seen = seen + 1;
                }
                first = false;
                if !(is_alphanumeric(c) || c == '_' || c == '-') {
                    bad = true;
                }
            },
            None => {
                proof {
                    assert(all.subrange(seen, all.len() as int).len() == 0);
                }
                break ;
            },
        }
    }
    if first {
        return Err(RoomIdProblem::Empty);
    }
    if text.len() > MAX_ROOM_ID_BYTES {
        return Err(RoomIdProblem::TooLong);
    }
    if bad {
        return Err(RoomIdProblem::BadCharacter);
    }
    Ok(())
}

/// Length of a generated room id.
pub const GENERATED_ROOM_ID_LEN: usize = 6;

/// A generated room id: six capital letters.
pub open spec fn generated_room_id(id: Seq<char>) -> bool {
    &&& id.len() == GENERATED_ROOM_ID_LEN
    &&& forall|i: int| 0 <= i < id.len() ==> 'A' <= #[trigger] id[i] <= 'Z'
}

/// A fresh room id of six capital letters, each drawn uniformly at random.
pub fn generate_random_room_id() -> (r: String)
    ensures
        generated_room_id(r@),
{
    let letters: Vec<char> = vec![
        'A', 'B', 'C', 'D', 'E', 'F', 'G', 'H', 'I', 'J', 'K', 'L', 'M',
        'N', 'O', 'P', 'Q', 'R', 'S', 'T', 'U', 'V', 'W', 'X', 'Y', 'Z',
    ];
    assert(forall|i: int| 0 <= i < letters@.len() ==> 'A' <= #[trigger] letters@[i] <= 'Z');
    let mut picked: Vec<char> = Vec::new();
    while picked.len() < GENERATED_ROOM_ID_LEN
        invariant
            letters@.len() == 26,
            forall|i: int| 0 <= i < letters@.len() ==> 'A' <= #[trigger] letters@[i] <= 'Z',
            picked@.len() <= GENERATED_ROOM_ID_LEN,
            forall|i: int| 0 <= i < picked@.len() ==> 'A' <= #[trigger] picked@[i] <= 'Z',
        decreases GENERATED_ROOM_ID_LEN - picked@.len(),
    {
        let k = random_below(letters.len());
        picked.push(letters[k]);
    }
    string_from_chars(picked)
}

} // verus!
