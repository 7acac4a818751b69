//! The pieces of the offline-dinosaur easter egg that are not physics: its
//! random numbers, its sprites and field, and what the game-over screen is
//! handed.

pub mod art;
pub mod field;

use vstd::prelude::*;
use crate::scoreboard::Entry;

verus! {

/// One step of xorshift64: the state after `x`.
pub open spec fn xorshift(x: u64) -> u64 {
    let a = x ^ (x << 13u64);
    let b = a ^ (a >> 7u64);
    b ^ (b << 17u64)
}

/// `RandomState::new`: std seeds each new `RandomState` with random keys,
/// so nothing is said of what comes back.
#[verifier::external_body]
fn new_random_state() -> std::collections::hash_map::RandomState {
    std::collections::hash_map::RandomState::new()
}

/// `BuildHasher::build_hasher` on a `RandomState`: a hasher under its keys.
#[verifier::external_body]
fn hasher_of(state: &std::collections::hash_map::RandomState) -> std::collections::hash_map::DefaultHasher {
    std::hash::BuildHasher::build_hasher(state)
}

/// `Hasher::write_u64`: feeds a word to the hasher.
#[verifier::external_body]
fn feed_word(h: &mut std::collections::hash_map::DefaultHasher, x: u64) {
    std::hash::Hasher::write_u64(h, x)
}

/// `Hasher::finish`: the hash so far. It depends on the keys the hasher was
/// built with, which are random here, so nothing is said of it.
#[verifier::external_body]
fn hash_of(h: &std::collections::hash_map::DefaultHasher) -> u64 {
    std::hash::Hasher::finish(h)
}

/// A word drawn from a fresh `RandomState`'s keys.
fn random_state_word() -> u64 {
    let state = new_random_state();
    let mut h = hasher_of(&state);
    feed_word(&mut h, 0x9E37_79B9_7F4A_7C15);
    hash_of(&h)
}

/// xorshift64. The game needs no cryptographic randomness, only a different
/// run each time it is played and the same run for the same seed.
#[derive(Clone, Debug)]
pub struct Rng(pub u64);

impl Rng {
    /// A generator started from `seed`. The lowest bit is set, so that the
    /// state is never zero (xorshift would stay at zero for ever).
    pub fn from_seed(seed: u64) -> (r: Rng)
        ensures
            r.0 == seed | 1u64,
            r.0 != 0,
    {
        let s = seed | 1;
        assert(seed | 1u64 != 0) by (bit_vector);
        Rng(s)
    }

    /// A generator for real play, seeded from the process's hashing keys
    /// (the time would give two games started in the same second the same
    /// obstacles).
    pub fn from_entropy() -> (r: Rng)
        ensures
            r.0 != 0,
            r.0 & 1u64 == 1,
    {
        let w = random_state_word();
        let r = Rng::from_seed(w);
        assert((w | 1u64) & 1u64 == 1) by (bit_vector);
        r
    }

    /// The next number; it is also the new state.
    pub fn next(&mut self) -> (v: u64)
        ensures
            final(self).0 == xorshift(old(self).0),
            v == final(self).0,
    {
        let x = self.0;
        let a = x ^ (x << 13u64);
        let b = a ^ (a >> 7u64);
        let c = b ^ (b << 17u64);
        self.0 = c;
        c
    }

    /// A whole number in `[lo, hi]`, both ends included; `lo` when the range
    /// is empty or a single number, without drawing.
    pub fn range(&mut self, lo: i64, hi: i64) -> (v: i64)
        requires
            hi <= lo || hi - lo < i64::MAX,
        ensures
            hi <= lo ==> v == lo && final(self).0 == old(self).0,
            lo < hi ==> final(self).0 == xorshift(old(self).0)
                && v == lo + (xorshift(old(self).0) % ((hi - lo + 1) as u64)),
            lo < hi ==> lo <= v <= hi,
    {
        if hi <= lo {
            return lo;
        }
        let span = (hi - lo + 1) as u64;
        let x = self.next();
        let k = x % span;
        assert(k < span);
        lo + k as i64
    }
}

/// A state that is not zero never becomes zero: each xorshift step can be
/// undone, so the generator cannot get stuck.
pub proof fn lemma_xorshift_nonzero(x: u64)
    requires
        x != 0,
    ensures
        xorshift(x) != 0,
{
    let a = x ^ (x << 13u64);
    let b = a ^ (a >> 7u64);
    assert(x != 0 ==> x ^ (x << 13u64) != 0) by (bit_vector);
    assert(a != 0 ==> a ^ (a >> 7u64) != 0) by (bit_vector);
    assert(b != 0 ==> b ^ (b << 17u64) != 0) by (bit_vector);
}

/// What the game-over screen shows beside the field: the board, whether it
/// is shared, the name being typed and the message after it was sent.
///
/// The application fills it in; the game itself never touches a file.
pub struct OverPanel<'a> {
    pub top: &'a [Entry],
    /// Whether there is a shared board (if not, the title says it is yours only).
    pub shared: bool,
    /// The name being typed; `Some` while the input box is open.
    pub typed: Option<&'a str>,
    /// The sentence after sending or skipping.
    pub note: Option<&'a str>,
}

/// A key as the game sees it.
#[derive(Clone, Copy, Debug, PartialEq, Eq)]
pub enum Key {
    Char(char),
    Up,
    Down,
    Left,
    Right,
    Enter,
    Esc,
    Tab,
    Backspace,
}

/// What a key press does to the game.
#[derive(Clone, Copy, Debug, PartialEq, Eq)]
pub enum KeyAction {
    /// Nothing changes.
    Ignore,
    /// A new game starts (only after a crash).
    Restart,
    /// The dinosaur jumps.
    Jump,
    /// The dinosaur ducks (on the ground).
    Duck,
    /// The dinosaur dives out of the air, and ducks when it lands.
    Dive,
}

/// The jump keys: space, up, `w`, `k`.
pub open spec fn is_jump_key(k: Key) -> bool {
    k == Key::Char(' ') || k == Key::Up || k == Key::Char('w') || k == Key::Char('k')
}

/// The duck keys: down, `s`, `j`.
pub open spec fn is_duck_key(k: Key) -> bool {
    k == Key::Down || k == Key::Char('s') || k == Key::Char('j')
}

/// What a key does: after a crash only `r`, Enter, or a jump key once the
/// grace time has passed start again (a key still held from the crash must
/// not); a jump key jumps from the ground only; a duck key ducks on the
/// ground and dives in the air; anything else does nothing.
pub fn key_action(key: Key, dead: bool, grace: bool, grounded: bool) -> (a: KeyAction)
    ensures
        a == key_spec(key, dead, grace, grounded),
{
    let jump = match key {
        Key::Char(c) => c == ' ' || c == 'w' || c == 'k',
        Key::Up => true,
        _ => false,
    };
    let down = match key {
        Key::Char(c) => c == 's' || c == 'j',
        Key::Down => true,
        _ => false,
    };
    let restart_key = match key {
        Key::Char(c) => c == 'r',
        Key::Enter => true,
        _ => false,
    };
    if dead {
        return if restart_key || (jump && grace) { KeyAction::Restart } else { KeyAction::Ignore };
    }
    if jump {
        return if grounded { KeyAction::Jump } else { KeyAction::Ignore };
    }
    if down {
        return if grounded { KeyAction::Duck } else { KeyAction::Dive };
    }
    KeyAction::Ignore
}

/// A crashed game restarts only on the keys its hint names (`r`, and Enter)
/// or, once the grace time has passed, on a jump key; any other key leaves
/// it over.
pub proof fn lemma_dead_game_restarts_only_as_promised(key: Key, grace: bool, grounded: bool)
    ensures
        (key == Key::Char('r') || key == Key::Enter) ==> key_spec(key, true, grace, grounded) == KeyAction::Restart,
        !grace && !(key == Key::Char('r') || key == Key::Enter) ==> key_spec(key, true, grace, grounded) == KeyAction::Ignore,
        !is_jump_key(key) && !(key == Key::Char('r') || key == Key::Enter) ==> key_spec(key, true, grace, grounded) == KeyAction::Ignore,
{
}

/// What [`key_action`] decides.
pub open spec fn key_spec(key: Key, dead: bool, grace: bool, grounded: bool) -> KeyAction {
    if dead {
        if key == Key::Char('r') || key == Key::Enter || (is_jump_key(key) && grace) { KeyAction::Restart } else { KeyAction::Ignore }
    } else if is_jump_key(key) {
        if grounded { KeyAction::Jump } else { KeyAction::Ignore }
    } else if is_duck_key(key) {
        if grounded { KeyAction::Duck } else { KeyAction::Dive }
    } else {
        KeyAction::Ignore
    }
}

} // verus!
