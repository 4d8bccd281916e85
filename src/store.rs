use vstd::prelude::*;

verus! {

/// The value that `log` holds for `key`: the most recent write wins.
pub open spec fn lookup<V: View>(log: Seq<(String, V)>, key: Seq<char>) -> Option<V::V>
    decreases log.len(),
{
    if log.len() == 0 {
        None
    } else if log.last().0@ == key {
        Some(log.last().1@)
    } else {
        lookup(log.drop_last(), key)
    }
}

/// A key/value store addressed by path strings. Writes are appended to a log,
/// so no key is ever physically removed: overwriting is the only way to change
/// what a key holds.
pub struct Store<V> {
    log: Vec<(String, V)>,
}

impl<V: View> View for Store<V> {
    type V = Map<Seq<char>, V::V>;

    closed spec fn view(&self) -> Map<Seq<char>, V::V> {
        Map::new(|k: Seq<char>| lookup(self.log@, k) is Some, |k: Seq<char>| lookup(self.log@, k)->0)
    }
}

impl<V: View> Store<V> {
    pub fn new() -> (r: Self)
        ensures
            r@ == Map::<Seq<char>, V::V>::empty(),
    {
        let r = Store { log: Vec::new() };
        assert(r@ =~= Map::<Seq<char>, V::V>::empty());
        r
    }

    /// The value stored under `key`, if any.
    pub fn get(&self, key: &String) -> (r: Option<&V>)
        ensures
            match r {
                Some(v) => self@.contains_key(key@) && v@ == self@[key@],
                None => !self@.contains_key(key@),
            },
    {
        let mut i: usize = self.log.len();
        assert(self.log@.subrange(0, i as int) =~= self.log@);
        while i > 0
            invariant
                i <= self.log@.len(),
                lookup(self.log@, key@) == lookup(self.log@.subrange(0, i as int), key@),
            decreases i,
        {
            let ghost prefix = self.log@.subrange(0, i as int);
            assert(prefix.drop_last() =~= self.log@.subrange(0, i - 1));
            if self.log[i - 1].0 == *key {
                return Some(&self.log[i - 1].1);
            }
            i = i - 1;
        }
        None
    }

    /// Writes `value` under `key`, replacing what was there.
    pub fn put(&mut self, key: String, value: V)
        ensures
            final(self)@ == old(self)@.insert(key@, value@),
    {
        let ghost k = key@;
        let ghost v = value@;
        self.log.push((key, value));
        assert(self.log@.drop_last() =~= old(self).log@);
        assert(self@ =~= old(self)@.insert(k, v));
    }
}

} // verus!
