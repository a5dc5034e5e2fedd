use vstd::prelude::*;
use vstd::set_lib::{lemma_int_range, lemma_len_subset, set_int_range};

verus! {

/// Relies on `uuid::Uuid::new_v4` and `Uuid::as_u128`: a random version-4
/// identifier as its 128-bit value. Nothing is promised of the value.
#[verifier::external_body]
pub(crate) fn random_id() -> (r: u128) {
    uuid::Uuid::new_v4().as_u128()
}

/// The identifiers issued to calls over one client's lifetime, in the order
/// they were issued.
pub struct CallIds {
    issued: Vec<u128>,
}

impl View for CallIds {
    type V = Seq<u128>;

    closed spec fn view(&self) -> Seq<u128> {
        self.issued@
    }
}

/// If every value below `n` lies in `s`, then `s` has at least `n` entries.
proof fn lemma_covering_is_long(s: Seq<u128>, n: int)
    requires
        0 <= n,
        forall|k: u128| k < n ==> #[trigger] s.contains(k),
        n <= u128::MAX as int + 1,
    ensures
        n <= s.len(),
{
    let wide = s.map_values(|x: u128| x as int);
    lemma_int_range(0, n);
    assert(set_int_range(0, n).subset_of(wide.to_set())) by {
        assert forall|k: int| set_int_range(0, n).contains(k) implies wide.to_set().contains(k) by {
            assert(s.contains(k as u128));
            let i = choose|i: int| 0 <= i < s.len() && s[i] == k as u128;
            assert(wide[i] == k);
        }
    }
    wide.lemma_cardinality_of_set();
    lemma_len_subset(set_int_range(0, n), wide.to_set());
}

impl CallIds {
    /// No identifier has been issued twice.
    pub open spec fn wf(&self) -> bool {
        self@.no_duplicates()
    }

    pub fn new() -> (r: CallIds)
        ensures
            r.wf(),
            r@ == Seq::<u128>::empty(),
    {
        CallIds { issued: Vec::new() }
    }

    /// Whether `id` has been issued.
    pub fn contains(&self, id: u128) -> (r: bool)
        ensures
            r == self@.contains(id),
    {
        let mut i: usize = 0;
        while i < self.issued.len()
            invariant
                0 <= i <= self.issued@.len(),
                forall|k: int| 0 <= k < i ==> self.issued@[k] != id,
            decreases self.issued@.len() - i,
        {
            if self.issued[i] == id {
                return true;
            }
            i = i + 1;
        }
        false
    }

    /// Issues an identifier that was never issued before. It is a random
    /// identifier unless that one was already taken, in which case it is the
    /// smallest value not yet taken.
    pub fn issue(&mut self) -> (id: u128)
        requires
            old(self).wf(),
        ensures
            final(self).wf(),
            !old(self)@.contains(id),
            final(self)@ == old(self)@.push(id),
    {
        let candidate = random_id();
        let id = if !self.contains(candidate) {
            candidate
        } else {
            self.smallest_unused()
        };
        self.issued.push(id);
        proof {
            assert forall|i: int, j: int|
                0 <= i < self@.len() && 0 <= j < self@.len() && i != j implies self@[i]
                != self@[j] by {
                if i == self@.len() - 1 || j == self@.len() - 1 {
                    if i == self@.len() - 1 {
                        assert(old(self)@.contains(self@[j]) || j == i);
                    } else {
                        assert(old(self)@[i] == self@[i]);
                    }
                }
            }
        }
        id
    }

    fn smallest_unused(&self) -> (id: u128)
        requires
            self.wf(),
        ensures
            !self@.contains(id),
    {
        let n = self.issued.len();
        let mut c: u128 = 0;
        while self.contains(c)
            invariant
                n == self@.len(),
                forall|k: u128| k < c ==> #[trigger] self@.contains(k),
                c <= self@.len(),
            decreases self@.len() - c,
        {
            proof {
                assert forall|k: u128| k < c + 1 implies #[trigger] self@.contains(k) by {
                    if k == c {
                        assert(self@.contains(c));
                    }
                }
                lemma_covering_is_long(self@, c + 1);
            }
            c = c + 1;
        }
        c
    }
}

} // verus!
