//! The working memory: a deduplicated collection of facts, kept in the
//! order in which they were first inserted.
use vstd::prelude::*;
use crate::symbolic::{Fact, FactModel};

verus! {

/// The facts of `s` after inserting `f`: unchanged when it is already there.
pub open spec fn inserted(s: Seq<FactModel>, f: FactModel) -> Seq<FactModel> {
    if s.contains(f) {
        s
    } else {
        s.push(f)
    }
}

/// The test "is about `entity`" on facts.
pub open spec fn about(entity: Seq<char>) -> spec_fn(FactModel) -> bool {
    |f: FactModel| f.entity == entity
}

pub open spec fn facts_view(v: Seq<Fact>) -> Seq<FactModel> {
    v.map_values(|f: Fact| f@)
}

/// Inserting keeps the facts already there, in place, and adds `f` to the
/// set of facts held.
pub proof fn lemma_inserted(s: Seq<FactModel>, f: FactModel, n: int)
    requires
        0 <= n <= s.len(),
    ensures
        inserted(s, f).to_set() == s.to_set().insert(f),
        inserted(s, f).subrange(0, n) == s.subrange(0, n),
        s.no_duplicates() ==> inserted(s, f).no_duplicates(),
        s.len() <= inserted(s, f).len(),
{
    if !s.contains(f) {
        assert(s.push(f).subrange(0, n) =~= s.subrange(0, n));
        assert forall|x: FactModel| #[trigger] s.push(f).contains(x) <==> s.contains(x) || x == f by {
            if s.push(f).contains(x) && x != f {
                let k = choose|k: int| 0 <= k < s.len() + 1 && s.push(f)[k] == x;
                assert(s[k] == x);
            }
            if s.contains(x) {
                let k = choose|k: int| 0 <= k < s.len() && s[k] == x;
                assert(s.push(f)[k] == x);
            }
            if x == f {
                assert(s.push(f)[s.len() as int] == x);
            }
        }
    }
    assert(inserted(s, f).to_set() =~= s.to_set().insert(f));
}

/// Inserting the same fact a second time changes nothing, and the second
/// insertion reports that nothing was added.
pub proof fn lemma_insert_twice(s: Seq<FactModel>, f: FactModel)
    ensures
        inserted(s, f).contains(f),
        inserted(inserted(s, f), f) == inserted(s, f),
{
    if !s.contains(f) {
        assert(s.push(f)[s.len() as int] == f);
    }
}

/// A set of facts without duplicates.
pub struct FactStore {
    facts: Vec<Fact>,
}

impl View for FactStore {
    type V = Seq<FactModel>;

    closed spec fn view(&self) -> Seq<FactModel> {
        facts_view(self.facts@)
    }
}

impl FactStore {
    /// No fact is stored twice.
    pub open spec fn wf(&self) -> bool {
        self@.no_duplicates()
    }

    pub fn new() -> (r: FactStore)
        ensures
            r@ == Seq::<FactModel>::empty(),
            r.wf(),
    {
        let r = FactStore { facts: Vec::new() };
        assert(r@ =~= Seq::<FactModel>::empty());
        r
    }

    pub fn len(&self) -> (r: usize)
        ensures
            r == self@.len(),
    {
        self.facts.len()
    }

    /// The fact at position `i` in insertion order.
    pub fn get(&self, i: usize) -> (r: &Fact)
        requires
            i < self@.len(),
        ensures
            r@ == self@[i as int],
    {
        &self.facts[i]
    }

    /// Membership by four-field equality.
    pub fn contains(&self, fact: &Fact) -> (r: bool)
        ensures
            r == self@.contains(fact@),
    {
        let mut i: usize = 0;
        while i < self.facts.len()
            invariant
                i <= self.facts@.len(),
                forall|k: int| 0 <= k < i ==> self@[k] != fact@,
            decreases self.facts@.len() - i,
        {
            if self.facts[i].same_as(fact) {
                assert(self@[i as int] == fact@);
                return true;
            }
            i += 1;
        }
        assert(!self@.contains(fact@));
        false
    }

    /// Adds `fact` unless an identical fact is already stored; tells whether
    /// it was added.
    pub fn insert(&mut self, fact: Fact) -> (added: bool)
        requires
            old(self).wf(),
        ensures
            final(self).wf(),
            added == !old(self)@.contains(fact@),
            final(self)@ == inserted(old(self)@, fact@),
    {
        if self.contains(&fact) {
            false
        } else {
            let ghost f = fact@;
            self.facts.push(fact);
            assert(self@ =~= old(self)@.push(f));
            true
        }
    }

    /// Copies of every stored fact, in insertion order.
    pub fn all(&self) -> (r: Vec<Fact>)
        ensures
            facts_view(r@) == self@,
    {
        let mut r: Vec<Fact> = Vec::new();
        let mut i: usize = 0;
        while i < self.facts.len()
            invariant
                i <= self.facts@.len(),
                facts_view(r@) == self@.subrange(0, i as int),
            decreases self.facts@.len() - i,
        {
            let ghost prev = r@;
            let c = self.facts[i].clone();
            assert(c@ == self@[i as int]);
            r.push(c);
            assert(facts_view(r@) =~= facts_view(prev).push(self@[i as int]));
            assert(self@.subrange(0, i + 1 as int) =~= self@.subrange(0, i as int).push(self@[i as int]));
            i += 1;
            assert(facts_view(r@) =~= self@.subrange(0, i as int));
        }
        assert(self@.subrange(0, i as int) =~= self@);
        r
    }

    /// Copies of the stored facts about `entity`, in insertion order.
    pub fn by_entity(&self, entity: &str) -> (r: Vec<Fact>)
        ensures
            facts_view(r@) == self@.filter(about(entity@)),
    {
        let mut r: Vec<Fact> = Vec::new();
        let mut i: usize = 0;
        let ghost pred = about(entity@);
        let wanted = entity.to_string();
        while i < self.facts.len()
            invariant
                i <= self.facts@.len(),
                wanted@ == entity@,
                pred == about(entity@),
                facts_view(r@) == self@.subrange(0, i as int).filter(pred),
            decreases self.facts@.len() - i,
        {
            let ghost prev = r@;
            if self.facts[i].entity == wanted {
                let c = self.facts[i].clone();
                assert(c@ == self@[i as int]);
                r.push(c);
                assert(facts_view(r@) =~= facts_view(prev).push(self@[i as int]));
            }
            proof {
                reveal(Seq::filter);
                let sub = self@.subrange(0, i + 1 as int);
                assert(sub.drop_last() =~= self@.subrange(0, i as int));
                assert(sub.last() == self@[i as int]);
                let before = self@.subrange(0, i as int).filter(pred);
                assert(sub.filter(pred) == if pred(self@[i as int]) {
                    before.push(self@[i as int])
                } else {
                    before
                });
                assert(self@[i as int] == self.facts@[i as int]@);
                assert(facts_view(r@) =~= sub.filter(pred));
            }
            i += 1;
        }
        assert(self@.subrange(0, i as int) =~= self@);
        r
    }
}

} // verus!
