//! The function table: an ordered map from function names to what is known of each function,
//! kept sorted by name.
use vstd::prelude::*;

use crate::parse::{FunctionData, FunctionDataView};
use crate::text::str_eq;

verus! {

/// Lexicographic order on texts, by character code.
pub open spec fn text_lt(a: Seq<char>, b: Seq<char>) -> bool
    decreases a.len(),
{
    if a.len() == 0 {
        b.len() > 0
    } else if b.len() == 0 {
        false
    } else if a[0] != b[0] {
        (a[0] as int) < (b[0] as int)
    } else {
        text_lt(a.drop_first(), b.drop_first())
    }
}

pub proof fn lemma_text_lt_irreflexive(a: Seq<char>)
    ensures
        !text_lt(a, a),
    decreases a.len(),
{
    if a.len() > 0 {
        lemma_text_lt_irreflexive(a.drop_first());
    }
}

pub proof fn lemma_text_lt_transitive(a: Seq<char>, b: Seq<char>, c: Seq<char>)
    requires
        text_lt(a, b),
        text_lt(b, c),
    ensures
        text_lt(a, c),
    decreases a.len(),
{
    if a.len() > 0 && b.len() > 0 && c.len() > 0 && a[0] == b[0] && b[0] == c[0] {
        lemma_text_lt_transitive(a.drop_first(), b.drop_first(), c.drop_first());
    }
}

pub proof fn lemma_text_lt_total(a: Seq<char>, b: Seq<char>)
    requires
        a != b,
    ensures
        text_lt(a, b) || text_lt(b, a),
    decreases a.len(),
{
    if a.len() > 0 && b.len() > 0 {
        if a[0] == b[0] {
            if a.drop_first() == b.drop_first() {
                assert(a =~= seq![a[0]] + a.drop_first());
                assert(b =~= seq![b[0]] + b.drop_first());
            }
            lemma_text_lt_total(a.drop_first(), b.drop_first());
        }
    } else if a.len() == 0 && b.len() == 0 {
        assert(a =~= b);
    }
}

/// Whether `a` comes before `b` in lexicographic order.
pub fn text_less(a: &str, b: &str) -> (r: bool)
    ensures
        r == text_lt(a@, b@),
{
    let n = a.unicode_len();
    let m = b.unicode_len();
    let mut i: usize = 0;
    assert(a@.skip(0) =~= a@);
    assert(b@.skip(0) =~= b@);
    while i < n && i < m && a.get_char(i) == b.get_char(i)
        invariant
            n == a@.len(),
            m == b@.len(),
            i <= n,
            i <= m,
            text_lt(a@, b@) == text_lt(a@.skip(i as int), b@.skip(i as int)),
        decreases n - i,
    {
        assert(a@.skip(i as int).drop_first() =~= a@.skip(i + 1));
        assert(b@.skip(i as int).drop_first() =~= b@.skip(i + 1));
        i = i + 1;
    }
    if i == n {
        i < m
    } else if i == m {
        false
    } else {
        let x = a.get_char(i);
        let y = b.get_char(i);
        assert(a@.skip(i as int)[0] == x);
        assert(b@.skip(i as int)[0] == y);
        (x as u32) < (y as u32)
    }
}

/// Functions by name, sorted by name, each name once.
pub struct FunctionTable {
    names: Vec<String>,
    data: Vec<FunctionData>,
}

impl FunctionTable {
    /// The names, in order.
    pub closed spec fn keys(&self) -> Seq<Seq<char>> {
        self.names@.map_values(|s: String| s@)
    }

    /// The entry of a name.
    pub closed spec fn index_of(&self, k: Seq<char>) -> int {
        choose|i: int| 0 <= i < self.names@.len() && self.names@[i]@ == k
    }

    /// The names are sorted and unique, each with its data.
    pub closed spec fn wf(&self) -> bool {
        &&& self.names@.len() == self.data@.len()
        &&& forall|i: int, j: int|
            0 <= i < j < self.names@.len() ==> text_lt(
                #[trigger] self.names@[i]@,
                #[trigger] self.names@[j]@,
            )
    }

    /// What the table maps each name to.
    pub closed spec fn view(&self) -> Map<Seq<char>, FunctionDataView> {
        Map::new(
            |k: Seq<char>| exists|i: int| 0 <= i < self.names@.len() && self.names@[i]@ == k,
            |k: Seq<char>| self.data@[self.index_of(k)]@,
        )
    }

    proof fn lemma_lookup(&self, i: int)
        requires
            self.wf(),
            0 <= i < self.names@.len(),
        ensures
            self@.contains_key(self.names@[i]@),
            self.index_of(self.names@[i]@) == i,
            self@[self.names@[i]@] == self.data@[i]@,
    {
        let k = self.names@[i]@;
        assert(self@.contains_key(k));
        let j = self.index_of(k);
        if j != i {
            lemma_text_lt_irreflexive(k);
        }
    }

    /// The names stand in strictly increasing order, and they are exactly the table's keys.
    pub proof fn lemma_keys(&self)
        requires
            self.wf(),
        ensures
            self.keys().len() == self@.len(),
            forall|i: int, j: int|
                0 <= i < j < self.keys().len() ==> text_lt(
                    #[trigger] self.keys()[i],
                    #[trigger] self.keys()[j],
                ),
            forall|k: Seq<char>| #[trigger] self@.contains_key(k) <==> self.keys().contains(k),
    {
        self.lemma_len();
        assert forall|i: int, j: int| 0 <= i < j < self.keys().len() implies text_lt(
            #[trigger] self.keys()[i],
            #[trigger] self.keys()[j],
        ) by {
            assert(text_lt(self.names@[i]@, self.names@[j]@));
        }
        assert forall|k: Seq<char>| #[trigger] self@.contains_key(k) <==> self.keys().contains(k) by {
            assert(self@.dom().contains(k) == self.keys().to_set().contains(k));
        }
    }

    pub fn new() -> (r: FunctionTable)
        ensures
            r.wf(),
            r@ == Map::<Seq<char>, FunctionDataView>::empty(),
    {
        let r = FunctionTable { names: Vec::new(), data: Vec::new() };
        assert(r@ =~= Map::<Seq<char>, FunctionDataView>::empty());
        r
    }

    /// The number of functions in the table.
    pub fn len(&self) -> (r: usize)
        requires
            self.wf(),
        ensures
            r == self@.len(),
    {
        proof {
            self.lemma_len();
        }
        self.names.len()
    }

    proof fn lemma_len(&self)
        requires
            self.wf(),
        ensures
            self@.dom().len() == self.names@.len(),
            self@.dom() == self.keys().to_set(),
    {
        assert(self@.dom() =~= self.keys().to_set()) by {
            assert forall|k: Seq<char>| self@.dom().contains(k) implies self.keys().to_set().contains(
                k,
            ) by {
                let i = choose|i: int| 0 <= i < self.names@.len() && self.names@[i]@ == k;
                assert(self.keys()[i] == k);
            }
            assert forall|k: Seq<char>| self.keys().to_set().contains(k) implies self@.dom().contains(
                k,
            ) by {
                let i = choose|i: int| 0 <= i < self.keys().len() && self.keys()[i] == k;
                assert(self.names@[i]@ == k);
            }
        }
        assert(self.keys().no_duplicates()) by {
            assert forall|i: int, j: int|
                0 <= i < self.keys().len() && 0 <= j < self.keys().len() && i != j implies self.keys()[i]
                != self.keys()[j] by {
                if i < j {
                    assert(text_lt(self.names@[i]@, self.names@[j]@));
                    lemma_text_lt_irreflexive(self.names@[i]@);
                } else {
                    assert(text_lt(self.names@[j]@, self.names@[i]@));
                    lemma_text_lt_irreflexive(self.names@[j]@);
                }
            }
        }
        self.keys().unique_seq_to_set();
    }

    /// The data of the function with the given name, if the table has it.
    pub fn get(&self, name: &str) -> (r: Option<&FunctionData>)
        requires
            self.wf(),
        ensures
            r is Some == self@.contains_key(name@),
            r is Some ==> r->0@ == self@[name@],
    {
        let mut i: usize = 0;
        while i < self.names.len()
            invariant
                self.wf(),
                i <= self.names@.len(),
                forall|j: int| 0 <= j < i ==> self.names@[j]@ != name@,
            decreases self.names@.len() - i,
        {
            if str_eq(self.names[i].as_str(), name) {
                proof {
                    self.lemma_lookup(i as int);
                }
                return Some(&self.data[i]);
            }
            i = i + 1;
        }
        None
    }

    /// Whether the table has a function with the given name.
    pub fn contains_key(&self, name: &str) -> (r: bool)
        requires
            self.wf(),
        ensures
            r == self@.contains_key(name@),
    {
        self.get(name).is_some()
    }

    /// The name at the given position in name order.
    pub fn key_at(&self, i: usize) -> (r: &String)
        requires
            self.wf(),
            i < self@.len(),
        ensures
            r@ == self.keys()[i as int],
    {
        proof {
            self.lemma_len();
        }
        &self.names[i]
    }

    /// The data at the given position in name order.
    pub fn value_at(&self, i: usize) -> (r: &FunctionData)
        requires
            self.wf(),
            i < self@.len(),
        ensures
            r@ == self@[self.keys()[i as int]],
    {
        proof {
            self.lemma_len();
            self.lemma_lookup(i as int);
        }
        &self.data[i]
    }

    /// Records the data of a function under its name, replacing what the name had.
    pub fn insert(&mut self, name: String, value: FunctionData)
        requires
            old(self).wf(),
        ensures
            final(self).wf(),
            final(self)@ == old(self)@.insert(name@, value@),
    {
        let ghost k = name@;
        let ghost old_self = *self;
        let mut i: usize = 0;
        loop
            invariant
                k == name@,
                *self == old_self,
                self.wf(),
                i <= self.names@.len(),
                forall|j: int| 0 <= j < i ==> text_lt(#[trigger] self.names@[j]@, k),
            ensures
                k == name@,
                *self == old_self,
                self.wf(),
                i <= self.names@.len(),
                forall|j: int| 0 <= j < i ==> text_lt(#[trigger] self.names@[j]@, k),
                i < self.names@.len() ==> !text_lt(self.names@[i as int]@, k),
            decreases self.names@.len() - i,
        {
            if i >= self.names.len() {
                break;
            }
            let less = text_less(self.names[i].as_str(), name.as_str());
            if !less {
                break;
            }
            i = i + 1;
        }
        if i < self.names.len() && str_eq(self.names[i].as_str(), name.as_str()) {
            self.data[i] = value;
            proof {
                assert(self.names@ == old_self.names@);
                assert(self.data@ == old_self.data@.update(i as int, value));
                assert(self.wf());
                assert forall|kk: Seq<char>| #[trigger] self@.contains_key(kk) == old_self@.insert(
                    k,
                    value@,
                ).contains_key(kk) by {
                    if old_self@.contains_key(kk) {
                        let j = old_self.index_of(kk);
                        assert(self.names@[j]@ == kk);
                    }
                    if self@.contains_key(kk) {
                        let j = self.index_of(kk);
                        assert(old_self.names@[j]@ == kk);
                    }
                }
                assert forall|kk: Seq<char>| #[trigger] self@.contains_key(kk) implies self@[kk]
                    == old_self@.insert(k, value@)[kk] by {
                    let j = self.index_of(kk);
                    self.lemma_lookup(j);
                    if j != i {
                        old_self.lemma_lookup(j);
                    }
                }
                assert(self@ =~= old_self@.insert(k, value@));
            }
        } else {
            proof {
                assert forall|j: int| i <= j < self.names@.len() implies text_lt(
                    k,
                    #[trigger] self.names@[j]@,
                ) by {
                    if k != self.names@[i as int]@ {
                        lemma_text_lt_total(k, self.names@[i as int]@);
                    }
                    if j > i {
                        lemma_text_lt_transitive(k, self.names@[i as int]@, self.names@[j]@);
                    }
                }
            }
            self.names.insert(i, name);
            self.data.insert(i, value);
            proof {
                assert forall|a: int, b: int|
                    0 <= a < b < self.names@.len() implies text_lt(
                    #[trigger] self.names@[a]@,
                    #[trigger] self.names@[b]@,
                ) by {
                    if a < i && b > i {
                        assert(self.names@[b] == old_self.names@[b - 1]);
                    } else if a > i {
                        assert(self.names@[a] == old_self.names@[a - 1]);
                        assert(self.names@[b] == old_self.names@[b - 1]);
                    } else if b < i {
                    } else if a == i {
                        assert(self.names@[b] == old_self.names@[b - 1]);
                    }
                }
                assert forall|kk: Seq<char>| #[trigger] self@.contains_key(kk) == old_self@.insert(
                    k,
                    value@,
                ).contains_key(kk) by {
                    if old_self@.contains_key(kk) {
                        let j = old_self.index_of(kk);
                        if j < i {
                            assert(self.names@[j]@ == kk);
                        } else {
                            assert(self.names@[j + 1]@ == kk);
                        }
                    }
                    if kk == k {
                        assert(self.names@[i as int]@ == kk);
                    }
                    if self@.contains_key(kk) {
                        let j = self.index_of(kk);
                        if j < i {
                            assert(old_self.names@[j]@ == kk);
                        } else if j > i {
                            assert(old_self.names@[j - 1]@ == kk);
                        }
                    }
                }
                assert forall|kk: Seq<char>| #[trigger] self@.contains_key(kk) implies self@[kk]
                    == old_self@.insert(k, value@)[kk] by {
                    let j = self.index_of(kk);
                    self.lemma_lookup(j);
                    lemma_text_lt_irreflexive(k);
                    if j < i {
                        old_self.lemma_lookup(j);
                        assert(self.names@[j] == old_self.names@[j]);
                        assert(self.data@[j] == old_self.data@[j]);
                    } else if j > i {
                        old_self.lemma_lookup(j - 1);
                        assert(self.names@[j] == old_self.names@[j - 1]);
                        assert(self.data@[j] == old_self.data@[j - 1]);
                    }
                }
                assert(self@ =~= old_self@.insert(k, value@));
            }
        }
    }
}

} // verus!
