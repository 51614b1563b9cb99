use vstd::prelude::*;

verus! {

/// Number of keys on the keypad.
pub const N_KEYS: usize = 16;

/// `k` is a pressed key and no key with a lower index is pressed.
pub open spec fn is_first_pressed(keys: Seq<bool>, k: int) -> bool {
    &&& 0 <= k < keys.len()
    &&& keys[k]
    &&& forall|j: int| 0 <= j < k ==> !keys[j]
}

/// The lowest-indexed pressed key, if any key is pressed.
pub open spec fn first_pressed(keys: Seq<bool>) -> Option<int> {
    if exists|k: int| is_first_pressed(keys, k) {
        Some(choose|k: int| is_first_pressed(keys, k))
    } else {
        None
    }
}

/// Two lowest pressed keys are the same key.
pub proof fn lemma_first_pressed_unique(keys: Seq<bool>, k: int)
    requires
        is_first_pressed(keys, k),
    ensures
        first_pressed(keys) == Some(k),
{
    let c = choose|c: int| is_first_pressed(keys, c);
    assert(is_first_pressed(keys, c));
    if c < k {
        assert(!keys[c]);
    } else if k < c {
        assert(!keys[k]);
    }
}

/// The sixteen keys of the keypad, each pressed or released.
pub struct Keyboard {
    keys: Vec<bool>,
}

impl View for Keyboard {
    type V = Seq<bool>;

    closed spec fn view(&self) -> Seq<bool> {
        self.keys@
    }
}

impl Keyboard {
    /// A keypad with every key released.
    pub fn new() -> (k: Keyboard)
        ensures
            k@.len() == N_KEYS,
            forall|j: int| 0 <= j < N_KEYS ==> !#[trigger] k@[j],
    {
        let keys = vec![false; N_KEYS];
        Keyboard { keys }
    }

    /// Records that `key` was pressed or released.
    pub fn key_change(&mut self, key: usize, pressed: bool)
        requires
            key < old(self)@.len(),
        ensures
            final(self)@ == old(self)@.update(key as int, pressed),
    {
        self.keys.set(key, pressed);
    }

    pub fn is_pressed(&self, key: usize) -> (r: bool)
        requires
            key < self@.len(),
        ensures
            r == self@[key as int],
    {
        self.keys[key]
    }

    /// The lowest-indexed key that is pressed, or `None` when no key is.
    pub fn current_key(&self) -> (r: Option<usize>)
        ensures
            r matches Some(k) ==> is_first_pressed(self@, k as int),
            r is None ==> forall|j: int| 0 <= j < self@.len() ==> !#[trigger] self@[j],
            first_pressed(self@) == match r {
                Some(k) => Some(k as int),
                None => None::<int>,
            },
    {
        let mut idx: usize = 0;
        while idx < self.keys.len()
            invariant
                idx <= self.keys@.len(),
                forall|j: int| 0 <= j < idx ==> !self.keys@[j],
            decreases self.keys@.len() - idx,
        {
            if self.keys[idx] {
                proof {
                    lemma_first_pressed_unique(self@, idx as int);
                }
                return Some(idx);
            }
            idx += 1;
        }
        assert(!exists|k: int| is_first_pressed(self@, k));
        None
    }
}

} // verus!
