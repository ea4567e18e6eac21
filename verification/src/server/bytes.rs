//! Comparing rows of bytes.
use vstd::prelude::*;

verus! {

/// Whether two rows of bytes agree as far as both go.
pub open spec fn agree(a: Seq<u8>, b: Seq<u8>) -> bool {
    forall|i: int| 0 <= i < a.len() && i < b.len() ==> #[trigger] a[i] == b[i]
}

/// Whether two rows of bytes agree as far as both go.
pub fn bytes_agree(a: &[u8], b: &[u8]) -> (r: bool)
    ensures
        r == agree(a@, b@),
{
    let mut i: usize = 0;
    while i < a.len() && i < b.len()
        invariant
            i <= a.len(),
            i <= b.len(),
            forall|j: int| 0 <= j < i ==> #[trigger] a@[j] == b@[j],
        decreases a.len() - i,
    {
        if a[i] != b[i] {
            assert(a@[i as int] != b@[i as int]);
            return false;
        }
        i += 1;
    }
    true
}

/// Whether two rows of bytes are the same.
pub fn bytes_eq(a: &[u8], b: &[u8]) -> (r: bool)
    ensures
        r == (a@ == b@),
{
    let r = a.len() == b.len() && bytes_agree(a, b);
    assert(r ==> a@ =~= b@);
    r
}

/// Whether the row `a` comes before the row `b` in the order of a dictionary, or is `b`.
pub open spec fn ordered(a: Seq<u8>, b: Seq<u8>) -> bool
    decreases a.len(),
{
    if a.len() == 0 {
        true
    } else if b.len() == 0 {
        false
    } else if a[0] != b[0] {
        a[0] < b[0]
    } else {
        ordered(a.drop_first(), b.drop_first())
    }
}

/// Whether the row `a` comes before the row `b` in the order of a dictionary, or is `b`.
pub fn bytes_ordered(a: &[u8], b: &[u8]) -> (r: bool)
    ensures
        r == ordered(a@, b@),
{
    let mut i: usize = 0;
    assert(a@.skip(0) =~= a@ && b@.skip(0) =~= b@);
    while i < a.len() && i < b.len()
        invariant
            i <= a.len(),
            i <= b.len(),
            ordered(a@, b@) == ordered(a@.skip(i as int), b@.skip(i as int)),
        decreases a.len() - i,
    {
        let ghost x = a@.skip(i as int);
        let ghost y = b@.skip(i as int);
        assert(x[0] == a@[i as int] && y[0] == b@[i as int]);
        if a[i] != b[i] {
            return a[i] < b[i];
        }
        assert(x.drop_first() =~= a@.skip(i + 1));
        assert(y.drop_first() =~= b@.skip(i + 1));
        i += 1;
    }
    i == a.len()
}

/// Of two rows, one comes before the other or is the same.
pub proof fn order_is_total(a: Seq<u8>, b: Seq<u8>)
    ensures
        ordered(a, b) || ordered(b, a),
        ordered(a, b) && ordered(b, a) ==> a == b,
    decreases a.len(),
{
    if a.len() > 0 && b.len() > 0 && a[0] == b[0] {
        order_is_total(a.drop_first(), b.drop_first());
        if ordered(a, b) && ordered(b, a) {
            assert(a =~= seq![a[0]] + a.drop_first());
            assert(b =~= seq![b[0]] + b.drop_first());
        }
    } else if a.len() == 0 && b.len() == 0 {
        assert(a =~= b);
    }
}

/// What comes before something that comes before a third comes before that third.
pub proof fn order_is_transitive(a: Seq<u8>, b: Seq<u8>, c: Seq<u8>)
    requires
        ordered(a, b),
        ordered(b, c),
    ensures
        ordered(a, c),
    decreases a.len(),
{
    if a.len() > 0 && b.len() > 0 && c.len() > 0 && a[0] == b[0] && b[0] == c[0] {
        order_is_transitive(a.drop_first(), b.drop_first(), c.drop_first());
    }
}

/// Bytes agree where the shorter row begins the longer one.
pub proof fn agreeing_bytes_begin_alike(a: Seq<u8>, b: Seq<u8>)
    ensures
        a.len() <= b.len() ==> (agree(a, b) <==> b.take(a.len() as int) == a),
        b.len() <= a.len() ==> (agree(a, b) <==> a.take(b.len() as int) == b),
{
    if a.len() <= b.len() {
        let t = b.take(a.len() as int);
        if agree(a, b) {
            assert(t =~= a);
        } else {
            let i = choose|i: int| 0 <= i < a.len() && i < b.len() && a[i] != b[i];
            assert(t[i] == b[i]);
        }
    }
    if b.len() <= a.len() {
        let t = a.take(b.len() as int);
        if agree(a, b) {
            assert(t =~= b);
        } else {
            let i = choose|i: int| 0 <= i < a.len() && i < b.len() && a[i] != b[i];
            assert(t[i] == a[i]);
        }
    }
}

/// The first byte that differs decides the order; where none does, the shorter row comes first.
pub proof fn first_difference_decides(p: Seq<u8>, x: u8, y: u8, a: Seq<u8>, b: Seq<u8>)
    ensures
        x != y ==> (ordered(p + seq![x] + a, p + seq![y] + b) <==> x < y),
        ordered(p, p + b),
        ordered(p + b, p) <==> b.len() == 0,
    decreases p.len(),
{
    let s = p + seq![x] + a;
    let t = p + seq![y] + b;
    if p.len() > 0 {
        let q = p.drop_first();
        first_difference_decides(q, x, y, a, b);
        assert(s.drop_first() =~= q + seq![x] + a);
        assert(t.drop_first() =~= q + seq![y] + b);
        assert((p + b).drop_first() =~= q + b);
        assert(s[0] == p[0] && t[0] == p[0] && (p + b)[0] == p[0]);
    } else {
        assert(s[0] == x && t[0] == y);
        assert(p + b =~= b);
    }
}

} // verus!
