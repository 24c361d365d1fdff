//! Fixed-width values that travel through the pending state: hashes, addresses and words.

use vstd::prelude::*;

verus! {

/// A 32-byte hash or storage key.
#[derive(Clone, Copy, Debug, PartialEq, Eq)]
pub struct B256(pub [u8; 32]);

/// A 20-byte account address.
#[derive(Clone, Copy, Debug, PartialEq, Eq)]
pub struct Address(pub [u8; 20]);

/// A 256-bit word, most significant byte first.
#[derive(Clone, Copy, Debug, PartialEq, Eq)]
pub struct U256(pub [u8; 32]);

impl View for B256 {
    type V = Seq<u8>;

    open spec fn view(&self) -> Seq<u8> {
        self.0@
    }
}

impl View for Address {
    type V = Seq<u8>;

    open spec fn view(&self) -> Seq<u8> {
        self.0@
    }
}

impl View for U256 {
    type V = Seq<u8>;

    open spec fn view(&self) -> Seq<u8> {
        self.0@
    }
}

/// Where one key stands relative to another.
#[derive(Clone, Copy, Debug, PartialEq, Eq)]
pub enum Position {
    /// The first key is the smaller one.
    Before,
    /// The keys are equal.
    Same,
    /// The first key is the larger one.
    After,
}

/// Lexicographic order on byte strings of one length.
pub open spec fn precedes(a: Seq<u8>, b: Seq<u8>) -> bool {
    exists|i: int| #[trigger] differs_first_at(a, b, i) && a[i] < b[i]
}

/// The first position at which `a` and `b` differ is `i`.
pub open spec fn differs_first_at(a: Seq<u8>, b: Seq<u8>, i: int) -> bool {
    &&& 0 <= i < a.len()
    &&& i < b.len()
    &&& a[i] != b[i]
    &&& forall|j: int| 0 <= j < i ==> a[j] == b[j]
}

/// The order is strict: no two keys precede each other, and no key precedes itself.
pub proof fn lemma_precedes_is_strict(a: Seq<u8>, b: Seq<u8>)
    requires
        precedes(a, b),
    ensures
        a != b,
        !precedes(b, a),
{
    let i = choose|i: int| #[trigger] differs_first_at(a, b, i) && a[i] < b[i];
    if precedes(b, a) {
        let j = choose|j: int| #[trigger] differs_first_at(b, a, j) && b[j] < a[j];
        assert(i == j);
    }
}

/// The order is transitive.
pub proof fn lemma_precedes_is_transitive(a: Seq<u8>, b: Seq<u8>, c: Seq<u8>)
    requires
        precedes(a, b),
        precedes(b, c),
    ensures
        precedes(a, c),
{
    let i = choose|i: int| #[trigger] differs_first_at(a, b, i) && a[i] < b[i];
    let j = choose|j: int| #[trigger] differs_first_at(b, c, j) && b[j] < c[j];
    let k = if i < j { i } else { j };
    assert(differs_first_at(a, c, k));
}

/// The order is total on byte strings of one length.
pub proof fn lemma_precedes_is_total(a: Seq<u8>, b: Seq<u8>)
    requires
        a.len() == b.len(),
        a != b,
    ensures
        precedes(a, b) || precedes(b, a),
{
    lemma_some_difference(a, b, 0);
}

/// Equal up to `from` but not throughout, two byte strings of one length differ somewhere.
proof fn lemma_some_difference(a: Seq<u8>, b: Seq<u8>, from: int)
    requires
        a.len() == b.len(),
        a != b,
        0 <= from <= a.len(),
        forall|j: int| 0 <= j < from ==> a[j] == b[j],
    ensures
        precedes(a, b) || precedes(b, a),
    decreases a.len() - from,
{
    if from == a.len() {
        assert(a =~= b);
    } else if a[from] == b[from] {
        lemma_some_difference(a, b, from + 1);
    } else {
        assert(differs_first_at(a, b, from));
        assert(differs_first_at(b, a, from));
    }
}

/// An address as a 32-byte key, zeros in front.
pub open spec fn padded(address: Seq<u8>) -> Seq<u8> {
    Seq::new(12, |i: int| 0u8) + address
}

/// Padding keeps the order, and no two addresses become one key.
pub proof fn lemma_padding_keeps_order(a: Seq<u8>, b: Seq<u8>)
    ensures
        precedes(padded(a), padded(b)) ==> precedes(a, b),
        padded(a) == padded(b) ==> a == b,
{
    if precedes(padded(a), padded(b)) {
        let i = choose|i: int| #[trigger]
            differs_first_at(padded(a), padded(b), i) && padded(a)[i] < padded(b)[i];
        assert forall|j: int| 0 <= j < i - 12 implies a[j] == b[j] by {
            assert(padded(a)[j + 12] == padded(b)[j + 12]);
        }
        assert(differs_first_at(a, b, i - 12));
    }
    if padded(a) == padded(b) {
        assert(padded(a).skip(12) =~= a);
        assert(padded(b).skip(12) =~= b);
    }
}

impl Address {
    /// The address as a 32-byte key, zeros in front.
    pub fn padded(&self) -> (key: B256)
        ensures
            key@ == padded(self@),
    {
        let mut bytes: [u8; 32] = [0u8; 32];
        let mut i: usize = 0;
        while i < 20
            invariant
                i <= 20,
                forall|j: int| 0 <= j < 12 ==> bytes@[j] == 0,
                forall|j: int| 0 <= j < i ==> bytes@[j + 12] == self@[j],
            decreases 20 - i,
        {
            bytes[i + 12] = self.0[i];
            i += 1;
        }
        assert(bytes@ =~= padded(self@)) by {
            assert forall|k: int| 0 <= k < 32 implies bytes@[k] == padded(self@)[k] by {
                if k >= 12 {
                    assert(bytes@[(k - 12) + 12] == self@[k - 12]);
                }
            }
        }
        B256(bytes)
    }
}

impl B256 {
    /// Finds where this key stands relative to `other`.
    pub fn position(&self, other: &B256) -> (place: Position)
        ensures
            place is Before <==> precedes(self@, other@),
            place is Same <==> self@ == other@,
            place is After <==> precedes(other@, self@),
    {
        let mut i: usize = 0;
        while i < 32
            invariant
                i <= 32,
                forall|j: int| 0 <= j < i ==> self@[j] == other@[j],
            decreases 32 - i,
        {
            if self.0[i] != other.0[i] {
                proof {
                    assert(differs_first_at(self@, other@, i as int));
                    assert(differs_first_at(other@, self@, i as int));
                    if self@[i as int] < other@[i as int] {
                        lemma_precedes_is_strict(self@, other@);
                    } else {
                        lemma_precedes_is_strict(other@, self@);
                    }
                }
                if self.0[i] < other.0[i] {
                    return Position::Before;
                }
                return Position::After;
            }
            i += 1;
        }
        assert(self@ =~= other@);
        Position::Same
    }
}

} // verus!
