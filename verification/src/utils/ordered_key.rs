//! Keys that can be put in order.
use vstd::prelude::*;

verus! {

/// Keys with a strict total order.
pub trait OrderedKey: Sized {
    /// Whether this key comes before the other.
    spec fn before(self, other: Self) -> bool;

    fn is_before(&self, other: &Self) -> (r: bool)
        ensures
            r == self.before(*other),
    ;

    fn is_same(&self, other: &Self) -> (r: bool)
        ensures
            r == (*self == *other),
    ;

    proof fn order_laws(a: Self, b: Self, c: Self)
        ensures
            !a.before(a),
            a.before(b) && b.before(c) ==> a.before(c),
            a.before(b) || a == b || b.before(a),
    ;
}

impl OrderedKey for u64 {
    open spec fn before(self, other: Self) -> bool {
        self < other
    }

    fn is_before(&self, other: &Self) -> (r: bool) {
        *self < *other
    }

    fn is_same(&self, other: &Self) -> (r: bool) {
        *self == *other
    }

    proof fn order_laws(a: Self, b: Self, c: Self) {
    }
}

impl OrderedKey for u32 {
    open spec fn before(self, other: Self) -> bool {
        self < other
    }

    fn is_before(&self, other: &Self) -> (r: bool) {
        *self < *other
    }

    fn is_same(&self, other: &Self) -> (r: bool) {
        *self == *other
    }

    proof fn order_laws(a: Self, b: Self, c: Self) {
    }
}

/// Whether `a` comes before `b`: by the first number, then by the second.
pub open spec fn pair_before(a: (u64, u64), b: (u64, u64)) -> bool {
    a.0 < b.0 || (a.0 == b.0 && a.1 < b.1)
}

impl OrderedKey for (u64, u64) {
    open spec fn before(self, other: Self) -> bool {
        pair_before(self, other)
    }

    fn is_before(&self, other: &Self) -> (r: bool) {
        self.0 < other.0 || (self.0 == other.0 && self.1 < other.1)
    }

    fn is_same(&self, other: &Self) -> (r: bool) {
        self.0 == other.0 && self.1 == other.1
    }

    proof fn order_laws(a: Self, b: Self, c: Self) {
    }
}

pub broadcast proof fn before_is_irreflexive<K: OrderedKey>(a: K)
    ensures
        !(#[trigger] a.before(a)),
{
    K::order_laws(a, a, a);
}

pub broadcast proof fn before_is_transitive<K: OrderedKey>(a: K, b: K, c: K)
    requires
        #[trigger] a.before(b),
        #[trigger] b.before(c),
    ensures
        a.before(c),
{
    K::order_laws(a, b, c);
}

} // verus!
