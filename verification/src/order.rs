//! Lexicographic order on the keys of a [`crate::sorted_map::SortedMap`].

use vstd::prelude::*;

verus! {

/// How one key stands to another.
#[derive(Clone, Copy, Debug, PartialEq, Eq, Structural)]
pub enum Rank {
    Before,
    Same,
    After,
}

/// `a` and `b` agree below `i`, and at `i` either `a` has ended or its item is the smaller one.
pub open spec fn precedes_at(a: Seq<int>, b: Seq<int>, i: int) -> bool {
    &&& 0 <= i <= a.len()
    &&& i < b.len()
    &&& forall|j: int|
        #![trigger a[j]]
        #![trigger b[j]]
        0 <= j < i ==> a[j] == b[j]
    &&& i < a.len() ==> a[i] < b[i]
}

/// `a` stands before `b` in lexicographic order.
pub open spec fn precedes(a: Seq<int>, b: Seq<int>) -> bool {
    exists|i: int| #[trigger] precedes_at(a, b, i)
}

/// Nothing stands before itself.
pub proof fn lemma_precedes_irreflexive(a: Seq<int>)
    ensures
        !precedes(a, a),
{
}

/// What stands before what stands before another stands before that other.
pub proof fn lemma_precedes_transitive(a: Seq<int>, b: Seq<int>, c: Seq<int>)
    requires
        precedes(a, b),
        precedes(b, c),
    ensures
        precedes(a, c),
{
    let i = choose|i: int| #[trigger] precedes_at(a, b, i);
    let j = choose|j: int| #[trigger] precedes_at(b, c, j);
    if i <= j {
        assert(precedes_at(a, c, i));
    } else {
        assert(precedes_at(a, c, j));
    }
}

/// A type whose values can be the keys of a sorted map: each has a code, and two keys stand to
/// each other as their codes do in lexicographic order.
pub trait Key: View + Sized {
    spec fn code(key: Self::V) -> Seq<int>;

    fn rank(&self, other: &Self) -> (rank: Rank)
        ensures
            match rank {
                Rank::Before => precedes(Self::code(self@), Self::code(other@)),
                Rank::Same => self@ == other@,
                Rank::After => precedes(Self::code(other@), Self::code(self@)),
            },
    ;
}

/// The code of a text: its characters in order, by their scalar values.
pub open spec fn text_code(text: Seq<char>) -> Seq<int> {
    text.map_values(|c: char| c as int)
}

/// The code of a byte string: its bytes in order.
pub open spec fn bytes_code(bytes: Seq<u8>) -> Seq<int> {
    bytes.map_values(|b: u8| b as int)
}

impl Key for String {
    open spec fn code(key: Seq<char>) -> Seq<int> {
        text_code(key)
    }

    fn rank(&self, other: &Self) -> (rank: Rank) {
        rank_text(self.as_str(), other.as_str())
    }
}

/// How `a` stands to `b`, by the scalar values of their characters.
pub fn rank_text(a: &str, b: &str) -> (rank: Rank)
    ensures
        match rank {
            Rank::Before => precedes(text_code(a@), text_code(b@)),
            Rank::Same => a@ == b@,
            Rank::After => precedes(text_code(b@), text_code(a@)),
        },
{
    let mut left = a.chars();
    let mut right = b.chars();
    let ghost (s, t) = (a@, b@);
    let ghost mut i: int = 0;
    loop
        invariant
            s == a@,
            t == b@,
            0 <= i <= s.len(),
            i <= t.len(),
            vstd::std_specs::iter::IteratorSpec::remaining(&left) == s.skip(i),
            vstd::std_specs::iter::IteratorSpec::remaining(&right) == t.skip(i),
            forall|j: int|
    #![trigger s[j]]
    #![trigger t[j]]
    0 <= j < i ==> s[j] == t[j],
        decreases s.len() - i,
    {
        let x = left.next();
        let y = right.next();
        match (x, y) {
            (None, None) => {
                assert(s =~= t);
                return Rank::Same;
            },
            (None, Some(_)) => {
                assert(precedes_at(text_code(s), text_code(t), i));
                return Rank::Before;
            },
            (Some(_), None) => {
                assert(precedes_at(text_code(t), text_code(s), i));
                return Rank::After;
            },
            (Some(c), Some(d)) => {
                assert(c == s[i] && d == t[i]);
                if c < d {
                    assert(precedes_at(text_code(s), text_code(t), i));
                    return Rank::Before;
                }
                if d < c {
                    assert(precedes_at(text_code(t), text_code(s), i));
                    return Rank::After;
                }
                proof {
                    assert(s.skip(i).drop_first() =~= s.skip(i + 1));
                    assert(t.skip(i).drop_first() =~= t.skip(i + 1));
                    i = i + 1;
                }
            },
        }
    }
}

/// How `a` stands to `b`, by their bytes.
pub fn rank_bytes(a: &[u8], b: &[u8]) -> (rank: Rank)
    ensures
        match rank {
            Rank::Before => precedes(bytes_code(a@), bytes_code(b@)),
            Rank::Same => a@ == b@,
            Rank::After => precedes(bytes_code(b@), bytes_code(a@)),
        },
{
    let mut i: usize = 0;
    while i < a.len() && i < b.len()
        invariant
            i <= a@.len(),
            i <= b@.len(),
            forall|j: int|
                #![trigger a@[j]]
                #![trigger b@[j]]
                0 <= j < i ==> a@[j] == b@[j],
        decreases a@.len() - i,
    {
        if a[i] < b[i] {
            assert(precedes_at(bytes_code(a@), bytes_code(b@), i as int));
            return Rank::Before;
        }
        if b[i] < a[i] {
            assert(precedes_at(bytes_code(b@), bytes_code(a@), i as int));
            return Rank::After;
        }
        i += 1;
    }
    if i < b.len() {
        assert(precedes_at(bytes_code(a@), bytes_code(b@), i as int));
        Rank::Before
    } else if i < a.len() {
        assert(precedes_at(bytes_code(b@), bytes_code(a@), i as int));
        Rank::After
    } else {
        assert(a@ =~= b@);
        Rank::Same
    }
}

} // verus!
