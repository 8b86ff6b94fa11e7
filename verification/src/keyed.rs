//! Lookup by id in lists of objects.
use vstd::prelude::*;

verus! {

/// An object named by a protocol id.
pub trait Keyed {
    spec fn key(&self) -> u32;

    fn get_key(&self) -> (k: u32)
        ensures
            k == self.key(),
    ;
}

/// The ids of the objects, in order.
pub open spec fn keys<T: Keyed>(s: Seq<T>) -> Seq<u32> {
    s.map_values(|x: T| x.key())
}

/// `i` is the first position of `id` in `ids`.
pub open spec fn is_first(ids: Seq<u32>, id: u32, i: int) -> bool {
    &&& 0 <= i < ids.len()
    &&& ids[i] == id
    &&& forall|j: int| 0 <= j < i ==> #[trigger] ids[j] != id
}

/// The first position of `id` in `ids`, if any.
pub open spec fn first_index(ids: Seq<u32>, id: u32) -> Option<int> {
    if exists|i: int| is_first(ids, id, i) {
        Some(choose|i: int| is_first(ids, id, i))
    } else {
        None
    }
}

/// The first position of `id` is where `id` occurs with no earlier
/// occurrence; there is none exactly when `id` does not occur.
pub proof fn lemma_first_index(ids: Seq<u32>, id: u32)
    ensures
        match first_index(ids, id) {
            Some(i) => is_first(ids, id, i),
            None => forall|j: int| 0 <= j < ids.len() ==> #[trigger] ids[j] != id,
        },
        forall|i: int| is_first(ids, id, i) ==> first_index(ids, id) == Some(i),
{
    assert forall|i: int| is_first(ids, id, i) implies first_index(ids, id) == Some(i) by {
        let c = choose|c: int| is_first(ids, id, c);
        if c < i {
            assert(ids[c] != id);
        }
        if c > i {
            assert(ids[i] != id);
        }
    }
    if first_index(ids, id) is None {
        assert forall|j: int| 0 <= j < ids.len() implies #[trigger] ids[j] != id by {
            lemma_absent_before(ids, id, j);
        }
    }
}

proof fn lemma_absent_before(ids: Seq<u32>, id: u32, j: int)
    requires
        first_index(ids, id) is None,
        0 <= j < ids.len(),
    ensures
        ids[j] != id,
    decreases j,
{
    if ids[j] == id {
        if forall|k: int| 0 <= k < j ==> #[trigger] ids[k] != id {
            assert(is_first(ids, id, j));
        } else {
            let k = choose|k: int| 0 <= k < j && #[trigger] ids[k] == id;
            lemma_absent_before(ids, id, k);
        }
    }
}

/// Finds the first object with id `id`.
pub fn find_by_key<T: Keyed>(v: &Vec<T>, id: u32) -> (r: Option<usize>)
    ensures
        r matches Some(i) ==> first_index(keys(v@), id) == Some(i as int),
        r is None ==> first_index(keys(v@), id) is None,
{
    let ghost ids = keys(v@);
    let mut i: usize = 0;
    while i < v.len()
        invariant
            ids == keys(v@),
            i <= v@.len(),
            forall|j: int| 0 <= j < i ==> #[trigger] ids[j] != id,
        decreases v@.len() - i,
    {
        if v[i].get_key() == id {
            proof {
                lemma_first_index(ids, id);
                assert(is_first(ids, id, i as int));
            }
            return Some(i);
        }
        assert(ids[i as int] != id);
        i += 1;
    }
    proof {
        lemma_first_index(ids, id);
        if first_index(ids, id) is Some {
            let k = first_index(ids, id)->Some_0;
            assert(ids[k] != id);
        }
    }
    None
}

/// Appending an id that does not occur makes its first position the end and
/// leaves the first position of every other id where it was.
pub proof fn lemma_push_absent(ids: Seq<u32>, id: u32, other: u32)
    requires
        first_index(ids, id) is None,
    ensures
        first_index(ids.push(id), id) == Some(ids.len() as int),
        other != id ==> first_index(ids.push(id), other) == first_index(ids, other),
{
    let r = ids.push(id);
    lemma_first_index(ids, id);
    lemma_first_index(r, id);
    assert(is_first(r, id, ids.len() as int));
    if other != id {
        lemma_first_index(ids, other);
        lemma_first_index(r, other);
        match first_index(ids, other) {
            Some(i) => {
                assert(is_first(r, other, i));
            },
            None => {
                if first_index(r, other) is Some {
                    let k = first_index(r, other)->Some_0;
                    if k < ids.len() {
                        assert(ids[k] != other);
                    }
                }
            },
        }
    }
}

} // verus!
