use vstd::prelude::*;

verus! {

/// The outcome of comparing two values.
#[derive(Debug, Clone, Copy, PartialEq, Eq, Structural)]
pub enum Order {
    Less,
    Equal,
    Greater,
}

/// Lexicographic comparison of two byte sequences; a proper prefix comes first.
pub open spec fn lex_order(a: Seq<u8>, b: Seq<u8>) -> Order
    decreases a.len(),
{
    if a.len() == 0 {
        if b.len() == 0 {
            Order::Equal
        } else {
            Order::Less
        }
    } else if b.len() == 0 {
        Order::Greater
    } else if a[0] < b[0] {
        Order::Less
    } else if a[0] > b[0] {
        Order::Greater
    } else {
        lex_order(a.drop_first(), b.drop_first())
    }
}

/// Law: the comparison finds two sequences equal exactly when they are equal.
pub proof fn law_lex_equal(a: Seq<u8>, b: Seq<u8>)
    ensures
        lex_order(a, b) == Order::Equal <==> a == b,
    decreases a.len(),
{
    if a.len() > 0 && b.len() > 0 && a[0] == b[0] {
        law_lex_equal(a.drop_first(), b.drop_first());
        if a.drop_first() == b.drop_first() {
            assert(a =~= seq![a[0]] + a.drop_first());
            assert(b =~= seq![b[0]] + b.drop_first());
        }
        if a == b {
            assert(a.drop_first() =~= b.drop_first());
        }
    } else if a.len() == 0 && b.len() == 0 {
        assert(a =~= b);
    }
}

/// Law: `a` comes before `b` exactly when `b` comes after `a`.
pub proof fn law_lex_antisymmetric(a: Seq<u8>, b: Seq<u8>)
    ensures
        lex_order(a, b) == Order::Less <==> lex_order(b, a) == Order::Greater,
    decreases a.len(),
{
    if a.len() > 0 && b.len() > 0 && a[0] == b[0] {
        law_lex_antisymmetric(a.drop_first(), b.drop_first());
    }
}

/// Law: coming before is transitive.
pub proof fn law_lex_transitive(a: Seq<u8>, b: Seq<u8>, c: Seq<u8>)
    requires
        lex_order(a, b) == Order::Less,
        lex_order(b, c) == Order::Less,
    ensures
        lex_order(a, c) == Order::Less,
    decreases a.len(),
{
    if a.len() > 0 && b.len() > 0 && c.len() > 0 && a[0] == b[0] && b[0] == c[0] {
        law_lex_transitive(a.drop_first(), b.drop_first(), c.drop_first());
    }
}

/// Compares two byte slices lexicographically.
pub fn compare_bytes(a: &[u8], b: &[u8]) -> (r: Order)
    ensures
        r == lex_order(a@, b@),
{
    let mut k: usize = 0;
    assert(a@.skip(0) =~= a@);
    assert(b@.skip(0) =~= b@);
    while k < a.len() && k < b.len()
        invariant
            k <= a@.len(),
            k <= b@.len(),
            lex_order(a@, b@) == lex_order(a@.skip(k as int), b@.skip(k as int)),
        decreases a@.len() - k,
    {
        if a[k] < b[k] {
            return Order::Less;
        } else if a[k] > b[k] {
            return Order::Greater;
        }
        assert(a@.skip(k as int).drop_first() =~= a@.skip(k + 1));
        assert(b@.skip(k as int).drop_first() =~= b@.skip(k + 1));
        k = k + 1;
    }
    if k < a.len() {
        Order::Greater
    } else if k < b.len() {
        Order::Less
    } else {
        Order::Equal
    }
}

} // verus!
