use vstd::prelude::*;
use crate::word::{Word, WordModel};

verus! {

/// The definitions of a symbol table: each variable with its word, in the
/// order in which the variables were first defined.
pub type Definitions = Seq<(Seq<char>, WordModel)>;

/// No variable is defined twice.
pub open spec fn distinct_keys(s: Definitions) -> bool {
    forall|i: int, j: int| 0 <= i < s.len() && 0 <= j < s.len() && i != j ==> s[i].0 != s[j].0
}

/// `k` is defined in `s`.
pub open spec fn has_key(s: Definitions, k: Seq<char>) -> bool {
    exists|i: int| 0 <= i < s.len() && #[trigger] s[i].0 == k
}

/// The position of the definition of `k` in `s`.
pub open spec fn key_index(s: Definitions, k: Seq<char>) -> int {
    choose|i: int| 0 <= i < s.len() && #[trigger] s[i].0 == k
}

/// The word that `s` gives to `k`.
pub open spec fn lookup(s: Definitions, k: Seq<char>) -> WordModel {
    s[key_index(s, k)].1
}

/// The variables of `s`, in the order of their first definition.
pub open spec fn keys(s: Definitions) -> Seq<Seq<char>> {
    s.map_values(|e: (Seq<char>, WordModel)| e.0)
}

/// `s` after `k` is (re)defined as `w`: a variable defined again keeps its
/// place and takes the new word; a new variable comes last.
pub open spec fn define(s: Definitions, k: Seq<char>, w: WordModel) -> Definitions {
    if has_key(s, k) {
        s.update(key_index(s, k), (k, w))
    } else {
        s.push((k, w))
    }
}

proof fn lemma_key_index(s: Definitions, k: Seq<char>, i: int)
    requires
        distinct_keys(s),
        0 <= i < s.len(),
        s[i].0 == k,
    ensures
        has_key(s, k),
        key_index(s, k) == i,
{
    assert(s[i].0 == k);
    let j = key_index(s, k);
    assert(0 <= j < s.len() && s[j].0 == k);
}

/// A definition can always be read back: after `k` is defined as `w`, `k`
/// is defined, it reads `w`, and no variable is defined twice.
pub proof fn law_lookup_after_define(s: Definitions, k: Seq<char>, w: WordModel)
    requires
        distinct_keys(s),
    ensures
        distinct_keys(define(s, k, w)),
        has_key(define(s, k, w), k),
        lookup(define(s, k, w), k) == w,
{
    let t = define(s, k, w);
    if has_key(s, k) {
        let i = key_index(s, k);
        assert(distinct_keys(t));
        lemma_key_index(t, k, i);
    } else {
        assert(distinct_keys(t)) by {
            assert forall|a: int, b: int| 0 <= a < t.len() && 0 <= b < t.len() && a != b implies t[a].0
                != t[b].0 by {
                if a == s.len() as int {
                    assert(s[b].0 == t[b].0);
                } else if b == s.len() as int {
                    assert(s[a].0 == t[a].0);
                }
            }
        }
        lemma_key_index(t, k, s.len() as int);
    }
}

/// Defining one variable leaves every other variable as it was.
pub proof fn law_define_keeps_others(s: Definitions, k: Seq<char>, w: WordModel, k2: Seq<char>)
    requires
        distinct_keys(s),
        k2 != k,
    ensures
        has_key(define(s, k, w), k2) == has_key(s, k2),
        has_key(s, k2) ==> lookup(define(s, k, w), k2) == lookup(s, k2),
{
    let t = define(s, k, w);
    law_lookup_after_define(s, k, w);
    if has_key(s, k2) {
        let i = key_index(s, k2);
        assert(t[i].0 == k2);
        lemma_key_index(t, k2, i);
    }
    if has_key(t, k2) {
        let i = key_index(t, k2);
        assert(s[i].0 == k2);
    }
}

/// Variables keep the place of their first definition: a new variable is
/// appended to the order, a redefined one does not move.
pub proof fn law_define_order(s: Definitions, k: Seq<char>, w: WordModel)
    ensures
        keys(define(s, k, w)) == (if has_key(s, k) {
            keys(s)
        } else {
            keys(s).push(k)
        }),
{
    let t = define(s, k, w);
    if has_key(s, k) {
        let i = key_index(s, k);
        assert(keys(t) =~= keys(s));
    } else {
        assert(keys(t) =~= keys(s).push(k));
    }
}

/// A table of variables and the words they name; it keeps the order in which
/// the variables were first defined.
#[derive(Debug, Clone)]
pub struct SymbolTable {
    entries: Vec<(String, Word)>,
}

impl View for SymbolTable {
    type V = Definitions;

    closed spec fn view(&self) -> Definitions {
        self.entries@.map_values(|e: (String, Word)| (e.0@, e.1@))
    }
}

impl SymbolTable {
    /// No variable is defined twice.
    pub open spec fn wf(&self) -> bool {
        distinct_keys(self@)
    }

    /// An empty table.
    pub fn new() -> (t: SymbolTable)
        ensures
            t@ == Seq::<(Seq<char>, WordModel)>::empty(),
            t.wf(),
    {
        let t = SymbolTable { entries: Vec::new() };
        assert(t@ =~= Seq::<(Seq<char>, WordModel)>::empty());
        t
    }

    /// The number of variables defined.
    pub fn len(&self) -> (n: usize)
        ensures
            n == self@.len(),
    {
        self.entries.len()
    }

    /// The `i`-th definition, in the order of first definition.
    pub fn entry(&self, i: usize) -> (r: (&String, &Word))
        requires
            i < self@.len(),
        ensures
            r.0@ == self@[i as int].0,
            r.1@ == self@[i as int].1,
    {
        let e = &self.entries[i];
        (&e.0, &e.1)
    }

    fn find(&self, k: &String) -> (r: Option<usize>)
        ensures
            match r {
                Some(i) => i < self@.len() && self@[i as int].0 == k@,
                None => !has_key(self@, k@),
            },
    {
        let n = self.entries.len();
        let mut i: usize = 0;
        while i < n
            invariant
                n == self.entries@.len(),
                n == self@.len(),
                0 <= i <= n,
                forall|j: int| 0 <= j < i ==> #[trigger] self@[j].0 != k@,
            decreases n - i,
        {
            if self.entries[i].0.eq(k) {
                return Some(i);
            }
            i = i + 1;
        }
        None
    }

    /// Whether `k` is defined.
    pub fn contains_key(&self, k: &String) -> (b: bool)
        ensures
            b == has_key(self@, k@),
    {
        self.find(k).is_some()
    }

    /// The word that `k` names, if `k` is defined.
    pub fn get(&self, k: &String) -> (r: Option<&Word>)
        requires
            self.wf(),
        ensures
            match r {
                Some(w) => has_key(self@, k@) && w@ == lookup(self@, k@),
                None => !has_key(self@, k@),
            },
    {
        match self.find(k) {
            Some(i) => {
                proof {
                    lemma_key_index(self@, k@, i as int);
                }
                Some(&self.entries[i].1)
            },
            None => None,
        }
    }

    /// Defines `k` as `w`; a variable that was defined already takes the new
    /// word and keeps its place.
    pub fn insert(&mut self, k: String, w: Word)
        requires
            old(self).wf(),
        ensures
            final(self).wf(),
            final(self)@ == define(old(self)@, k@, w@),
    {
        proof {
            law_lookup_after_define(old(self)@, k@, w@);
        }
        match self.find(&k) {
            Some(i) => {
                proof {
                    lemma_key_index(self@, k@, i as int);
                }
                self.entries.set(i, (k, w));
                assert(self@ =~= define(old(self)@, k@, w@));
            },
            None => {
                self.entries.push((k, w));
                assert(self@ =~= define(old(self)@, k@, w@));
            },
        }
    }
}

} // verus!
