//! Computer-driven players: the interface they implement, the one
//! strategy the game ships, and the parser for AI specifier strings.
//!
//! A specifier is the word `follower`, taking the default player, or
//! `follower:<id>` with an explicit actor id in decimal.  Anything else
//! names no AI; the command line treats that as fatal.

use vstd::prelude::*;

use vstd::string::StringSliceAdditionalSpecFns;

use crate::actors::{ActorId, PlayerGame};
use crate::input::Input;

verus! {

/// An input source computed from snapshots.
pub trait Ai {
    /// The next input, decided from the latest snapshot.
    fn move_(&self, game: &PlayerGame) -> Input;
}

/// The shipped strategy: follow an actor.  (Its steering is still a
/// stub: it pushes no buttons.)
#[derive(PartialEq, Eq, Structural, Clone, Copy, Debug)]
pub struct Follower {
    following: ActorId,
}

impl Follower {
    /// Which actor this follower chases.
    pub closed spec fn spec_following(self) -> ActorId {
        self.following
    }

    pub fn new(following: ActorId) -> (r: Follower)
        ensures
            r.spec_following() == following,
    {
        Follower { following }
    }

    /// Which actor this follower chases, as a value.
    pub fn following(&self) -> (r: ActorId)
        ensures
            r == self.spec_following(),
    {
        self.following
    }
}

impl Ai for Follower {
    fn move_(&self, _game: &PlayerGame) -> Input {
        Input::new()
    }
}

// ---------------------------------------------------------------------
// The specifier grammar.

/// The ASCII bytes of the word `follower`.
pub open spec fn follower_bytes() -> Seq<u8> {
    seq![102u8, 111u8, 108u8, 108u8, 111u8, 119u8, 101u8, 114u8]
}

/// The ASCII byte of `:`.
pub open spec fn colon_byte() -> u8 {
    58
}

pub open spec fn is_ascii_digit(b: u8) -> bool {
    48 <= b <= 57
}

pub open spec fn all_ascii_digits(s: Seq<u8>) -> bool {
    forall|i: int| 0 <= i < s.len() ==> is_ascii_digit(#[trigger] s[i])
}

/// The number a string of decimal digits denotes.
pub open spec fn digits_value(s: Seq<u8>) -> int
    decreases s.len(),
{
    if s.len() == 0 {
        0
    } else {
        digits_value(s.drop_last()) * 10 + (s.last() - 48)
    }
}

/// Which actor id an AI specifier names, given the default player:
/// bare `follower` takes the default, `follower:<id>` the given id,
/// anything else nothing.
pub open spec fn spec_parse_ai(s: Seq<u8>, player: Option<ActorId>) -> Option<ActorId> {
    if s == follower_bytes() {
        player
    } else if s.len() > 9 && s.take(8) == follower_bytes() && s[8] == colon_byte()
        && all_ascii_digits(s.skip(9)) && digits_value(s.skip(9)) <= u32::MAX {
        Some(digits_value(s.skip(9)) as ActorId)
    } else {
        None
    }
}

/// A digit string's value only grows as digits are appended.
proof fn lemma_digits_value_nonneg(s: Seq<u8>)
    requires
        all_ascii_digits(s),
    ensures
        digits_value(s) >= 0,
    decreases s.len(),
{
    if s.len() > 0 {
        assert(all_ascii_digits(s.drop_last())) by {
            assert(forall|i: int|
                0 <= i < s.len() - 1 ==> s.drop_last()[i] == (#[trigger] s[i]));
        }
        lemma_digits_value_nonneg(s.drop_last());
    }
}

/// The value of a prefix never exceeds the value of the whole.
proof fn lemma_digits_value_prefix(s: Seq<u8>, i: int)
    requires
        all_ascii_digits(s),
        0 <= i <= s.len(),
    ensures
        digits_value(s.take(i)) <= digits_value(s),
    decreases s.len() - i,
{
    if i < s.len() {
        lemma_digits_value_prefix(s, i + 1);
        assert(s.take(i + 1).drop_last() =~= s.take(i));
        assert(s.take(i + 1).last() == s[i]);
        assert(all_ascii_digits(s.take(i))) by {
            assert(forall|k: int| 0 <= k < i ==> s.take(i)[k] == (#[trigger] s[k]));
        }
        lemma_digits_value_nonneg(s.take(i));
        assert(digits_value(s.take(i + 1)) == digits_value(s.take(i)) * 10 + (s[i] - 48));
    } else {
        assert(s.take(i) =~= s);
    }
}

/// Parse an AI specifier.  Returns the follower it names, or nothing
/// when the string is malformed; the caller decides how fatal that is.
#[verifier::rlimit(50)]
#[verifier::loop_isolation(false)]
pub fn parse_ai_string(s: &str, player: Option<ActorId>) -> (r: Option<Follower>)
    ensures
        match spec_parse_ai(s.spec_bytes(), player) {
            Some(id) => (r matches Some(f) && f.spec_following() == id),
            None => r is None,
        },
{
    let b = s.as_bytes();
    let n = b.len();
    if n < 8 {
        proof {
            assert(b@ != follower_bytes());
        }
        return None;
    }
    let prefix_ok = b[0] == 102 && b[1] == 111 && b[2] == 108 && b[3] == 108 && b[4] == 111
        && b[5] == 119 && b[6] == 101 && b[7] == 114;
    if !prefix_ok {
        proof {
            assert(b@ != follower_bytes()) by {
                if b@ == follower_bytes() {
                    assert(b@[0] == 102 && b@[1] == 111 && b@[2] == 108 && b@[3] == 108 && b@[4]
                        == 111 && b@[5] == 119 && b@[6] == 101 && b@[7] == 114);
                }
            }
            assert(b@.take(8) != follower_bytes()) by {
                if b@.take(8) == follower_bytes() {
                    assert(b@[0] == 102 && b@[1] == 111 && b@[2] == 108 && b@[3] == 108 && b@[4]
                        == 111 && b@[5] == 119 && b@[6] == 101 && b@[7] == 114);
                }
            }
        }
        return None;
    }
    if n == 8 {
        proof {
            assert(b@ =~= follower_bytes());
        }
        return match player {
            Some(p) => Some(Follower::new(p)),
            None => None,
        };
    }
    // From here the string is longer than the word itself.
    proof {
        assert(b@ != follower_bytes());
        assert(b@.take(8) =~= follower_bytes());
    }
    if n == 9 || b[8] != 58 {
        return None;
    }
    let mut acc: u64 = 0;
    let mut i: usize = 9;
    proof {
        assert(b@.subrange(9, 9) =~= Seq::<u8>::empty());
    }
    while i < n
        invariant
            9 <= i <= n,
            all_ascii_digits(b@.subrange(9, i as int)),
            acc == digits_value(b@.subrange(9, i as int)),
            acc <= u32::MAX,
        decreases n - i,
    {
        let c = b[i];
        if c < 48 || c > 57 {
            proof {
                assert(!is_ascii_digit(b@.skip(9)[i - 9]));
            }
            return None;
        }
        let d = (c - 48) as u64;
        let next = acc * 10 + d;
        proof {
            assert(b@.subrange(9, i as int + 1).drop_last() =~= b@.subrange(9, i as int));
            assert(b@.subrange(9, i as int + 1).last() == b@[i as int]);
            assert(all_ascii_digits(b@.subrange(9, i as int + 1))) by {
                assert(forall|k: int|
                    0 <= k < i - 9 + 1 ==> b@.subrange(9, i as int + 1)[k] == (
                    #[trigger] b@.subrange(9, i as int)[k]) || k == i - 9);
            }
        }
        if next > 0xFFFF_FFFF {
            proof {
                if all_ascii_digits(b@.skip(9)) {
                    assert(b@.skip(9).take(i as int + 1 - 9) =~= b@.subrange(9, i as int + 1));
                    lemma_digits_value_prefix(b@.skip(9), i as int + 1 - 9);
                    assert(digits_value(b@.subrange(9, i as int + 1)) == acc * 10 + d);
                }
            }
            return None;
        }
        acc = next;
        i = i + 1;
    }
    proof {
        assert(b@.subrange(9, n as int) =~= b@.skip(9));
    }
    Some(Follower::new(acc as u32))
}

} // verus!
