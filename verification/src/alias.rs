//! The alias store: an ordered collection of named shell commands, each with
//! an optional single-character hotkey. Insertion order is display order, and
//! hotkey lookup always answers with the earliest match.

use vstd::prelude::*;

verus! {

/// Mathematical value of an [`Alias`].
#[verifier::ext_equal]
pub struct AliasV {
    pub name: Seq<char>,
    pub command: Seq<char>,
    pub keybind: Option<char>,
}

/// A named shell command with an optional single-character hotkey.
/// Text is held as a sequence of characters.
#[derive(Clone)]
pub struct Alias {
    pub name: Vec<char>,
    pub command: Vec<char>,
    pub keybind: Option<char>,
}

impl View for Alias {
    type V = AliasV;

    open spec fn view(&self) -> AliasV {
        AliasV { name: self.name@, command: self.command@, keybind: self.keybind }
    }
}

/// Errors raised by the store's index-based operations.
#[derive(Clone, Copy, Debug, PartialEq, Eq, Structural)]
pub enum StoreError {
    IndexOutOfRange,
}

/// Copies a text buffer character by character.
pub fn copy_text(v: &Vec<char>) -> (r: Vec<char>)
    ensures
        r@ == v@,
{
    let mut r: Vec<char> = Vec::new();
    let mut i: usize = 0;
    while i < v.len()
        invariant
            i <= v.len(),
            r@ == v@.subrange(0, i as int),
        decreases v.len() - i,
    {
        r.push(v[i]);
        i = i + 1;
        proof {
            assert(r@ =~= v@.subrange(0, i as int));
        }
    }
    proof {
        assert(r@ =~= v@);
    }
    r
}

/// The ordered in-memory collection of aliases.
pub struct AliasStore {
    pub items: Vec<Alias>,
}

impl View for AliasStore {
    type V = Seq<AliasV>;

    open spec fn view(&self) -> Seq<AliasV> {
        self.items@.map_values(|a: Alias| a@)
    }
}

/// First index in `s` whose keybind is exactly `ch`, if any.
pub open spec fn first_keybind_index(s: Seq<AliasV>, ch: char) -> Option<int>
    decreases s.len(),
{
    if s.len() == 0 {
        Option::None
    } else if s[0].keybind == Option::Some(ch) {
        Option::Some(0int)
    } else {
        match first_keybind_index(s.drop_first(), ch) {
            Option::Some(i) => Option::Some(i + 1),
            Option::None => Option::None,
        }
    }
}

impl AliasStore {
    /// A store with no aliases.
    pub fn new() -> (r: AliasStore)
        ensures
            r@ == Seq::<AliasV>::empty(),
    {
        let r = AliasStore { items: Vec::new() };
        proof {
            assert(r@ =~= Seq::<AliasV>::empty());
        }
        r
    }

    pub fn len(&self) -> (r: usize)
        ensures
            r == self@.len(),
    {
        self.items.len()
    }

    pub fn get(&self, i: usize) -> (r: &Alias)
        requires
            i < self@.len(),
        ensures
            r@ == self@[i as int],
    {
        &self.items[i]
    }

    /// Appends a new alias; duplicate names and duplicate keybinds are
    /// deliberately allowed.
    pub fn add(&mut self, name: Vec<char>, command: Vec<char>, keybind: Option<char>)
        ensures
            final(self)@ == old(self)@.push(AliasV { name: name@, command: command@, keybind }),
    {
        self.items.push(Alias { name, command, keybind });
        proof {
            assert(self@ =~= old(self)@.push(
                AliasV { name: self.items@.last().name@, command: self.items@.last().command@, keybind: self.items@.last().keybind },
            ));
        }
    }

    /// Replaces the command of the alias at `index`, leaving its name and
    /// keybind unchanged; rejects an out-of-range index.
    pub fn update_command(&mut self, index: usize, new_command: Vec<char>) -> (r: Result<
        (),
        StoreError,
    >)
        ensures
            index < old(self)@.len() ==> r == Result::<(), StoreError>::Ok(()) && final(self)@
                == old(self)@.update(
                index as int,
                AliasV {
                    name: old(self)@[index as int].name,
                    command: new_command@,
                    keybind: old(self)@[index as int].keybind,
                },
            ),
            index >= old(self)@.len() ==> r == Result::<(), StoreError>::Err(
                StoreError::IndexOutOfRange,
            ) && final(self)@ == old(self)@,
    {
        if index < self.items.len() {
            let name = copy_text(&self.items[index].name);
            let keybind = self.items[index].keybind;
            self.items.set(index, Alias { name, command: new_command, keybind });
            proof {
                assert(self@ =~= old(self)@.update(
                    index as int,
                    AliasV {
                        name: old(self)@[index as int].name,
                        command: new_command@,
                        keybind: old(self)@[index as int].keybind,
                    },
                ));
            }
            Result::Ok(())
        } else {
            Result::Err(StoreError::IndexOutOfRange)
        }
    }

    /// Deletes the alias at `index`, keeping the order of the rest;
    /// rejects an out-of-range index.
    pub fn remove(&mut self, index: usize) -> (r: Result<(), StoreError>)
        ensures
            index < old(self)@.len() ==> r == Result::<(), StoreError>::Ok(()) && final(self)@
                == old(self)@.remove(index as int),
            index >= old(self)@.len() ==> r == Result::<(), StoreError>::Err(
                StoreError::IndexOutOfRange,
            ) && final(self)@ == old(self)@,
    {
        if index < self.items.len() {
            self.items.remove(index);
            proof {
                assert(self@ =~= old(self)@.remove(index as int));
            }
            Result::Ok(())
        } else {
            Result::Err(StoreError::IndexOutOfRange)
        }
    }

    /// Index of the first alias (in insertion order) whose keybind is `ch`.
    /// When several aliases share a keybind, the earliest added one wins.
    pub fn find_by_keybind(&self, ch: char) -> (r: Option<usize>)
        ensures
            match r {
                Option::Some(i) => first_keybind_index(self@, ch) == Option::Some(i as int) && i
                    < self@.len() && self@[i as int].keybind == Option::Some(ch) && forall|j: int|
                    0 <= j < i ==> self@[j].keybind != Option::Some(ch),
                Option::None => first_keybind_index(self@, ch) is None && forall|j: int|
                    0 <= j < self@.len() ==> self@[j].keybind != Option::Some(ch),
            },
    {
        proof {
            lemma_first_keybind_index(self@, ch);
        }
        let mut i: usize = 0;
        while i < self.items.len()
            invariant
                i <= self@.len(),
                self@.len() == self.items@.len(),
                forall|j: int| 0 <= j < i ==> #[trigger] self@[j].keybind != Option::Some(ch),
                match first_keybind_index(self@, ch) {
                    Option::Some(k) => 0 <= k < self@.len() && self@[k].keybind == Option::Some(
                        ch,
                    ) && forall|j: int|
                        0 <= j < k ==> #[trigger] self@[j].keybind != Option::Some(ch),
                    Option::None => forall|j: int|
                        0 <= j < self@.len() ==> #[trigger] self@[j].keybind != Option::Some(ch),
                },
            decreases self.items@.len() - i,
        {
            proof {
                assert(self@[i as int] == self.items@[i as int]@);
            }
            let found = match self.items[i].keybind {
                Option::Some(k) => k == ch,
                Option::None => false,
            };
            if found {
                proof {
                    assert(self@[i as int].keybind == Option::Some(ch));
                    let r = first_keybind_index(self@, ch);
                    assert(r is Some);
                    let k = r->0;
                    if k < i as int {
                        assert(self@[k].keybind != Option::Some(ch));
                    }
                    if (i as int) < k {
                        assert(self@[i as int].keybind != Option::Some(ch));
                    }
                    assert(k == i as int);
                }
                return Option::Some(i);
            }
            i = i + 1;
        }
        Option::None
    }
}

/// What `first_keybind_index` answers: a hit is in range, matches, and
/// nothing before it matches; a miss means nothing matches at all.
pub proof fn lemma_first_keybind_index(s: Seq<AliasV>, ch: char)
    ensures
        match first_keybind_index(s, ch) {
            Option::Some(i) => 0 <= i < s.len() && s[i].keybind == Option::Some(ch) && forall|
                j: int,
            |
                0 <= j < i ==> #[trigger] s[j].keybind != Option::Some(ch),
            Option::None => forall|j: int|
                0 <= j < s.len() ==> #[trigger] s[j].keybind != Option::Some(ch),
        },
    decreases s.len(),
{
    if s.len() == 0 {
    } else if s[0].keybind == Option::Some(ch) {
    } else {
        lemma_first_keybind_index(s.drop_first(), ch);
        assert(forall|j: int| 1 <= j < s.len() ==> s[j] == #[trigger] s.drop_first()[j - 1]);
        match first_keybind_index(s.drop_first(), ch) {
            Option::Some(i) => {
                assert(s[i + 1].keybind == Option::Some(ch));
                assert forall|j: int| 0 <= j < i + 1 implies #[trigger] s[j].keybind
                    != Option::Some(ch) by {
                    if j >= 1 {
                        assert(s[j] == s.drop_first()[j - 1]);
                        assert(s.drop_first()[j - 1].keybind != Option::Some(ch));
                    }
                }
            },
            Option::None => {
                assert forall|j: int| 0 <= j < s.len() implies #[trigger] s[j].keybind
                    != Option::Some(ch) by {
                    if j >= 1 {
                        assert(s[j] == s.drop_first()[j - 1]);
                        assert(s.drop_first()[j - 1].keybind != Option::Some(ch));
                    }
                }
            },
        }
    }
}

} // verus!
