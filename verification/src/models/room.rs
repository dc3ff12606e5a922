use rand::Rng;
use vstd::prelude::*;

verus! {

/// Where a stored room stands.
#[derive(Debug, Clone, Copy, PartialEq, Eq, Structural)]
pub enum RoomStatus {
    Waiting,
    InProgress,
    Completed,
}

/// The part a participant plays in a room.
#[derive(Debug, Clone, Copy, PartialEq, Eq, Structural)]
pub enum RoomRole {
    Player,
    Spectator,
}

/// A request to open a room.
#[derive(Debug)]
pub struct CreateRoomRequest {
    pub room_name: String,
    pub is_private: bool,
    pub max_spectators: i32,
}

/// A room listing, optionally only the rooms of one status.
#[derive(Debug)]
pub struct GetRoomsRequest {
    pub status: Option<RoomStatus>,
}

/// The characters a room code is drawn from.
pub const CODE_CHARSET: &'static str = "ABCDEFGHIJKLMNOPQRSTUVWXYZ0123456789";

/// How many characters a room code has.
pub const CODE_LEN: usize = 5;

/// rand's thread-local generator, carried through unread.
#[verifier::external_type_specification]
#[verifier::external_body]
pub struct ExThreadRng(rand::rngs::ThreadRng);

/// rand's `thread_rng`: the thread's generator, seeded by the system; nothing
/// is stated of it.
pub assume_specification[ rand::thread_rng ]() -> rand::rngs::ThreadRng;

/// rand's `Rng::gen_range` on `0..bound`: a random number below `bound`; the
/// range must not be empty, where rand panics.
#[verifier::external_body]
fn random_below(rng: &mut rand::rngs::ThreadRng, bound: usize) -> (r: usize)
    requires
        bound > 0,
    ensures
        r < bound,
{
    rng.gen_range(0..bound)
}

/// The code spelled by `indices` into the code charset.
pub open spec fn code_of(indices: Seq<usize>) -> Seq<char> {
    indices.map_values(|i: usize| CODE_CHARSET@[i as int])
}

/// The code whose characters are the charset's characters at `indices`.
pub fn code_from_indices(indices: &Vec<usize>) -> (code: String)
    requires
        forall|k: int| 0 <= k < indices@.len() ==> #[trigger] indices@[k] < 36,
    ensures
        code@ == code_of(indices@),
{
    proof {
        reveal_strlit("ABCDEFGHIJKLMNOPQRSTUVWXYZ0123456789");
    }
    let mut code = String::new();
    let mut k: usize = 0;
    while k < indices.len()
        invariant
            k <= indices@.len(),
            forall|j: int| 0 <= j < indices@.len() ==> #[trigger] indices@[j] < 36,
            code@ == code_of(indices@.take(k as int)),
            CODE_CHARSET@.len() == 36,
        decreases indices@.len() - k,
    {
        let i = indices[k];
        let ch = CODE_CHARSET.substring_char(i, i + 1);
        code.append(ch);
        assert(code_of(indices@.take(k + 1)) =~= code_of(indices@.take(k as int)).push(
            CODE_CHARSET@[i as int],
        ));
        k = k + 1;
    }
    assert(indices@.take(indices@.len() as int) =~= indices@);
    code
}

/// A fresh room code: `CODE_LEN` characters drawn at random from the charset.
pub fn generate_code() -> (code: String)
    ensures
        code@.len() == CODE_LEN,
        forall|k: int| 0 <= k < code@.len() ==> CODE_CHARSET@.contains(#[trigger] code@[k]),
{
    proof {
        reveal_strlit("ABCDEFGHIJKLMNOPQRSTUVWXYZ0123456789");
    }
    let mut rng = rand::thread_rng();
    let n = CODE_CHARSET.unicode_len();
    let mut indices: Vec<usize> = Vec::new();
    let mut k: usize = 0;
    while k < CODE_LEN
        invariant
            k <= CODE_LEN,
            n == 36,
            indices@.len() == k,
            forall|j: int| 0 <= j < indices@.len() ==> #[trigger] indices@[j] < 36,
        decreases CODE_LEN - k,
    {
        let idx = random_below(&mut rng, n);
        indices.push(idx);
        k = k + 1;
    }
    let code = code_from_indices(&indices);
    assert forall|k: int| 0 <= k < code@.len() implies CODE_CHARSET@.contains(#[trigger] code@[k]) by {
        assert(code@[k] == CODE_CHARSET@[indices@[k] as int]);
    }
    code
}

} // verus!
