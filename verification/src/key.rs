//! The keys that are held down.

use vstd::prelude::*;
use vstd::hash_set::StringHashSet;

verus! {

/// Keeps track of which keys are held down at the moment.
pub struct KeyManager {
    pressed: StringHashSet,
}

impl View for KeyManager {
    type V = Set<Seq<char>>;

    /// The names of the keys that are held down.
    closed spec fn view(&self) -> Set<Seq<char>> {
        self.pressed@
    }
}

impl Default for KeyManager {
    fn default() -> (k: KeyManager)
        ensures
            k@ == Set::<Seq<char>>::empty(),
    {
        KeyManager::new()
    }
}

impl KeyManager {
    /// No key is held down.
    pub fn new() -> (k: KeyManager)
        ensures
            k@ == Set::<Seq<char>>::empty(),
    {
        KeyManager { pressed: StringHashSet::new() }
    }

    /// `key` goes down. A key that is down already stays down.
    pub fn down(&mut self, key: String)
        ensures
            final(self)@ == old(self)@.insert(key@),
    {
        self.pressed.insert(key);
    }

    /// `key` comes up. A key that is not down stays up.
    pub fn up(&mut self, key: String)
        ensures
            final(self)@ == old(self)@.remove(key@),
    {
        self.pressed.remove(key.as_str());
    }

    /// Every key comes up.
    pub fn clear(&mut self)
        ensures
            final(self)@ == Set::<Seq<char>>::empty(),
    {
        self.pressed = StringHashSet::new();
    }

    pub fn is_pressed(&self, key: &str) -> (r: bool)
        ensures
            r == self@.contains(key@),
    {
        self.pressed.contains(key)
    }
}

} // verus!
