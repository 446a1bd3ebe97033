//! The 16-key keypad latch.
//!
//! Sixteen boolean flags indexed 0x0 to 0xF, repopulated once per scheduler
//! tick from the host's input source; the execution unit only reads them.
//! Translating physical keys to keypad indices is the host's job.

use vstd::prelude::*;

verus! {

/// The keyboard layout the host translates physical keys from.
#[derive(Clone, Copy, PartialEq, Eq, Structural, Debug)]
pub enum KeypadSetting {
    /// Dvorak bindings.
    DVORAK,
    /// Qwerty bindings.
    QWERTY,
}

/// The keypad state with every key released.
pub open spec fn no_keys() -> Seq<bool> {
    Seq::new(16, |i: int| false)
}

/// The lowest pressed key index at or above `i`, if any.
pub open spec fn first_pressed_from(keys: Seq<bool>, i: int) -> Option<u8>
    decreases 16 - i,
{
    if i < 0 || i >= 16 {
        None
    } else if keys[i] {
        Some(i as u8)
    } else {
        first_pressed_from(keys, i + 1)
    }
}

/// The lowest pressed key index, if any key is pressed.
pub open spec fn first_pressed(keys: Seq<bool>) -> Option<u8> {
    first_pressed_from(keys, 0)
}

/// The keypad latch.
pub struct Keypad {
    /// One flag per key, true while the key is pressed.  The keypad layout
    /// is
    /// ```text
    ///   1 2 3 C
    ///   4 5 6 D
    ///   7 8 9 E
    ///   A 0 B F
    /// ```
    pub keys: Vec<bool>,

    /// The layout the host maps physical keys from.
    pub setting: KeypadSetting,
}

impl View for Keypad {
    type V = Seq<bool>;

    open spec fn view(&self) -> Seq<bool> {
        self.keys@
    }
}

impl Keypad {
    /// The latch holds exactly one flag per key.
    pub open spec fn wf(&self) -> bool {
        self@.len() == 16
    }

    /// Creates a keypad with every key released.
    pub fn new(setting: KeypadSetting) -> (k: Keypad)
        ensures
            k.wf(),
            k@ == no_keys(),
            k.setting == setting,
    {
        let mut keys: Vec<bool> = Vec::new();
        let mut i: usize = 0;
        while i < 16
            invariant
                i <= 16,
                keys@.len() == i,
                forall|j: int| 0 <= j < i ==> !keys@[j],
            decreases 16 - i,
        {
            keys.push(false);
            i = i + 1;
        }
        let k = Keypad { keys, setting };
        proof {
            assert(k@ =~= no_keys());
        }
        k
    }

    /// Releases every key.
    pub fn clear(&mut self)
        requires
            old(self).wf(),
        ensures
            final(self).wf(),
            final(self)@ == no_keys(),
            final(self).setting == old(self).setting,
    {
        let mut i: usize = 0;
        while i < 16
            invariant
                self.wf(),
                self.setting == old(self).setting,
                i <= 16,
                forall|j: int| 0 <= j < i ==> !self@[j],
            decreases 16 - i,
        {
            self.keys.set(i, false);
            i = i + 1;
        }
        proof {
            assert(self@ =~= no_keys());
        }
    }

    /// True if the key with the given index is pressed.
    pub fn is_key_pressed(&self, key: u8) -> (pressed: bool)
        requires
            self.wf(),
            key < 16,
        ensures
            pressed == self@[key as int],
    {
        self.keys[key as usize]
    }

    /// Presses or releases the key with the given index.  This is the input
    /// collaborator's interface: the host latches the translated state of
    /// each physical key here once per tick.
    pub fn set_key(&mut self, key: u8, pressed: bool)
        requires
            old(self).wf(),
            key < 16,
        ensures
            final(self).wf(),
            final(self)@ == old(self)@.update(key as int, pressed),
            final(self).setting == old(self).setting,
    {
        self.keys.set(key as usize, pressed);
    }

    /// The lowest pressed key index, if any key is pressed.
    pub fn pressed(&self) -> (r: Option<u8>)
        requires
            self.wf(),
        ensures
            r == first_pressed(self@),
    {
        let mut i: usize = 0;
        while i < 16
            invariant
                i <= 16,
                self.wf(),
                first_pressed(self@) == first_pressed_from(self@, i as int),
            decreases 16 - i,
        {
            if self.keys[i] {
                return Some(i as u8);
            }
            i = i + 1;
        }
        None
    }
}

/// What `first_pressed_from` finds at or above `i`: either the lowest
/// pressed index in [i, 16), with everything below it in that range
/// released, or nothing, with every key in [i, 16) released.
proof fn lemma_first_pressed_from_is_lowest(keys: Seq<bool>, i: int)
    requires
        keys.len() == 16,
        0 <= i <= 16,
    ensures
        match first_pressed_from(keys, i) {
            Some(k) => i <= k < 16 && keys[k as int] && (forall|j: int|
                i <= j < k ==> !keys[j]),
            None => forall|j: int| i <= j < 16 ==> !keys[j],
        },
    decreases 16 - i,
{
    if i < 16 && !keys[i] {
        lemma_first_pressed_from_is_lowest(keys, i + 1);
    }
}

/// The key that a wait-for-key operation captures is the lowest pressed
/// index, and it captures nothing exactly when no key is pressed.
pub proof fn lemma_first_pressed_is_lowest(keys: Seq<bool>)
    requires
        keys.len() == 16,
    ensures
        match first_pressed(keys) {
            Some(k) => k < 16 && keys[k as int] && (forall|j: int| 0 <= j < k ==> !keys[j]),
            None => forall|j: int| 0 <= j < 16 ==> !keys[j],
        },
{
    lemma_first_pressed_from_is_lowest(keys, 0);
}

} // verus!
