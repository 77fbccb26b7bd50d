//! The order in which names are listed.
//!
//! Names are compared by their UTF-8 bytes, position by position, the way Rust
//! compares strings. Everything that keeps names in order (the attendance
//! sheet, the scoreboard) rests on the facts proved here.

use vstd::prelude::*;
use vstd::utf8::*;

verus! {

/// A voter's or a candidate's name, as contracts see it.
pub type Name = Seq<char>;

/// `a` and `b` agree on their first `k` bytes, and at position `k` either `a`
/// ends while `b` goes on, or `a` holds the smaller byte.
pub open spec fn parts_at(a: Seq<u8>, b: Seq<u8>, k: int) -> bool {
    &&& 0 <= k <= a.len()
    &&& k < b.len()
    &&& forall|i: int| 0 <= i < k ==> a[i] == b[i]
    &&& k < a.len() ==> a[k] < b[k]
}

/// `a` comes strictly before `b` in byte-wise lexicographic order.
pub open spec fn bytes_before(a: Seq<u8>, b: Seq<u8>) -> bool {
    exists|k: int| parts_at(a, b, k)
}

/// `a` is listed strictly before `b`.
pub open spec fn name_before(a: Name, b: Name) -> bool {
    bytes_before(encode_utf8(a), encode_utf8(b))
}

/// Every name in `names` is listed before every later one; in particular no
/// name occurs twice.
pub open spec fn ascending(names: Seq<Name>) -> bool {
    forall|i: int, j: int| 0 <= i < j < names.len() ==> name_before(names[i], names[j])
}

/// How one name stands to another.
#[derive(Clone, Copy, Debug, PartialEq, Eq, Structural)]
pub enum Rank {
    Before,
    Same,
    After,
}

/// How `a` stands to `b`: before it, the same name, or after it. By
/// `lemma_before_total`, "after" means that `b` is listed before `a`.
pub open spec fn rank_of(a: Name, b: Name) -> Rank {
    if name_before(a, b) {
        Rank::Before
    } else if a == b {
        Rank::Same
    } else {
        Rank::After
    }
}

/// No name comes before itself.
pub proof fn lemma_before_irreflexive(a: Name)
    ensures
        !name_before(a, a),
{
}

/// A name cannot both precede and follow another.
pub proof fn lemma_before_asymmetric(a: Name, b: Name)
    requires
        name_before(a, b),
    ensures
        !name_before(b, a),
{
    let x = encode_utf8(a);
    let y = encode_utf8(b);
    if bytes_before(y, x) {
        // Where the two first differ, each would hold the smaller byte.
        let k = choose|k: int| parts_at(x, y, k);
        let l = choose|l: int| parts_at(y, x, l);
        assert(k == l);
    }
}

/// "Listed before" is transitive.
pub proof fn lemma_before_transitive(a: Name, b: Name, c: Name)
    requires
        name_before(a, b),
        name_before(b, c),
    ensures
        name_before(a, c),
{
    let x = encode_utf8(a);
    let y = encode_utf8(b);
    let z = encode_utf8(c);
    let k = choose|k: int| parts_at(x, y, k);
    let l = choose|l: int| parts_at(y, z, l);
    let m = if k <= l { k } else { l };
    assert(parts_at(x, z, m));
}

/// Of two names one comes first, unless they are the same name.
pub proof fn lemma_before_total(a: Name, b: Name)
    ensures
        name_before(a, b) || a == b || name_before(b, a),
{
    lemma_bytes_total(encode_utf8(a), encode_utf8(b), 0);
    if encode_utf8(a) == encode_utf8(b) {
        lemma_same_bytes_same_name(a, b);
    }
}

proof fn lemma_bytes_total(x: Seq<u8>, y: Seq<u8>, k: int)
    requires
        0 <= k <= x.len(),
        k <= y.len(),
        forall|i: int| 0 <= i < k ==> x[i] == y[i],
    ensures
        bytes_before(x, y) || x == y || bytes_before(y, x),
    decreases x.len() - k,
{
    if k == x.len() {
        if k == y.len() {
            assert(x =~= y);
        } else {
            assert(parts_at(x, y, k));
        }
    } else if k == y.len() {
        assert(parts_at(y, x, k));
    } else if x[k] < y[k] {
        assert(parts_at(x, y, k));
    } else if y[k] < x[k] {
        assert(parts_at(y, x, k));
    } else {
        lemma_bytes_total(x, y, k + 1);
    }
}

/// Two names with the same bytes are the same name.
pub proof fn lemma_same_bytes_same_name(a: Name, b: Name)
    requires
        encode_utf8(a) == encode_utf8(b),
    ensures
        a == b,
{
    encode_utf8_decode_utf8(a);
    encode_utf8_decode_utf8(b);
}

/// In an ascending list a name stands at one place at most.
pub proof fn lemma_ascending_distinct(names: Seq<Name>)
    requires
        ascending(names),
    ensures
        names.no_duplicates(),
{
    assert forall|i: int, j: int|
        0 <= i < names.len() && 0 <= j < names.len() && i != j implies names[i] != names[j] by {
        if i < j {
            assert(name_before(names[i], names[j]));
        } else {
            assert(name_before(names[j], names[i]));
        }
    }
}

/// `name` belongs at `place` in `list`: every name before that place is
/// listed before it, every name from there on after it.
pub open spec fn belongs_at(list: Seq<Name>, name: Name, place: int) -> bool {
    &&& 0 <= place <= list.len()
    &&& forall|i: int| 0 <= i < place ==> name_before(#[trigger] list[i], name)
    &&& forall|i: int| place <= i < list.len() ==> name_before(name, #[trigger] list[i])
}

/// A name put where it belongs keeps the list ascending, and is the one
/// name that the list gains.
pub proof fn lemma_insert_name(list: Seq<Name>, name: Name, place: int)
    requires
        ascending(list),
        belongs_at(list, name, place),
    ensures
        ascending(list.insert(place, name)),
        list.insert(place, name).to_set() == list.to_set().insert(name),
{
    let after = list.insert(place, name);
    list.insert_ensures(place, name);
    assert forall|i: int, j: int| 0 <= i < j < after.len() implies name_before(
        after[i],
        after[j],
    ) by {
        // Each of the two is the new name or a name of the old list.
        let a = if i < place { i } else { i - 1 };
        let b = if j < place { j } else { j - 1 };
        if i != place && j != place {
            assert(name_before(list[a], list[b]));
        }
    }
    assert forall|x: Name| after.contains(x) <==> (list.contains(x) || x == name) by {
        if list.contains(x) {
            let i = choose|i: int| 0 <= i < list.len() && list[i] == x;
            if i < place {
                assert(after[i] == x);
            } else {
                assert(after[i + 1] == x);
            }
        }
    }
    assert(after.to_set() =~= list.to_set().insert(name));
}

/// Without its first name an ascending list is still ascending, and holds
/// no name that the whole list lacks.
pub proof fn lemma_rest_ascending(list: Seq<Name>)
    requires
        ascending(list),
        list.len() > 0,
    ensures
        ascending(list.drop_first()),
        forall|name: Name| list.drop_first().contains(name) ==> list.contains(name),
{
    let rest = list.drop_first();
    assert forall|a: int, b: int| 0 <= a < b < rest.len() implies name_before(
        rest[a],
        rest[b],
    ) by {
        assert(name_before(list[a + 1], list[b + 1]));
    }
    assert forall|name: Name| rest.contains(name) implies list.contains(name) by {
        let k = choose|k: int| 0 <= k < rest.len() && rest[k] == name;
        assert(list[k + 1] == name);
    }
}

/// The number of names at the head of `list` that are listed before `name`.
pub open spec fn place_for(list: Seq<Name>, name: Name) -> int
    decreases list.len(),
{
    if list.len() == 0 || !name_before(list[0], name) {
        0
    } else {
        1 + place_for(list.drop_first(), name)
    }
}

/// A name that an ascending list lacks belongs behind those listed
/// before it.
pub proof fn lemma_place_for(list: Seq<Name>, name: Name)
    requires
        ascending(list),
        !list.contains(name),
    ensures
        belongs_at(list, name, place_for(list, name)),
    decreases list.len(),
{
    if list.len() > 0 && !name_before(list[0], name) {
        // The name comes before the first of the list, and so before all.
        lemma_before_total(list[0], name);
        assert forall|i: int| 0 <= i < list.len() implies name_before(name, #[trigger] list[i]) by {
            if i > 0 {
                lemma_before_transitive(name, list[0], list[i]);
            }
        }
    } else if list.len() > 0 {
        // The name comes after the first, and has its place among the rest.
        let rest = list.drop_first();
        lemma_rest_ascending(list);
        lemma_place_for(rest, name);
        let place = place_for(rest, name);
        assert forall|i: int| 0 <= i < place + 1 implies name_before(#[trigger] list[i], name) by {
            if i > 0 {
                assert(list[i] == rest[i - 1]);
            }
        }
        assert forall|i: int| place + 1 <= i < list.len() implies name_before(
            name,
            #[trigger] list[i],
        ) by {
            assert(list[i] == rest[i - 1]);
        }
    }
}

/// The names of `set`, each once, in the order in which they are listed.
pub open spec fn in_order(set: Set<Name>) -> Seq<Name> {
    choose|list: Seq<Name>| ascending(list) && list.to_set() == set
}

/// Two ascending lists of the same names are the same list.
pub proof fn lemma_ascending_unique(p: Seq<Name>, q: Seq<Name>)
    requires
        ascending(p),
        ascending(q),
        p.to_set() == q.to_set(),
    ensures
        p == q,
    decreases p.len(),
{
    lemma_ascending_distinct(p);
    lemma_ascending_distinct(q);
    p.unique_seq_to_set();
    q.unique_seq_to_set();
    if p.len() == 0 {
        assert(p =~= q);
    } else {
        // Both lists start with the name that is listed before all others.
        assert(q.to_set().contains(p[0]));
        let j = choose|j: int| 0 <= j < q.len() && q[j] == p[0];
        assert(p.to_set().contains(q[0]));
        let i = choose|i: int| 0 <= i < p.len() && p[i] == q[0];
        if j > 0 && i > 0 {
            lemma_before_asymmetric(q[0], q[j]);
        }
        assert(p[0] == q[0]);
        // What follows holds the same names in both, so it is the same.
        let pt = p.drop_first();
        let qt = q.drop_first();
        lemma_rest_ascending(p);
        lemma_rest_ascending(q);
        assert forall|x: Name| pt.contains(x) <==> qt.contains(x) by {
            if pt.contains(x) {
                assert(q.to_set().contains(x));
                let n = choose|n: int| 0 <= n < q.len() && q[n] == x;
                assert(qt[n - 1] == x);
            }
            if qt.contains(x) {
                assert(p.to_set().contains(x));
                let n = choose|n: int| 0 <= n < p.len() && p[n] == x;
                assert(pt[n - 1] == x);
            }
        }
        assert(pt.to_set() =~= qt.to_set());
        lemma_ascending_unique(pt, qt);
        assert forall|k: int| 0 <= k < p.len() implies p[k] == q[k] by {
            if k > 0 {
                assert(p[k] == pt[k - 1]);
                assert(q[k] == qt[k - 1]);
            }
        }
        assert(p =~= q);
    }
}

/// An ascending list is the listing of its own names.
pub proof fn lemma_in_order(list: Seq<Name>)
    requires
        ascending(list),
    ensures
        in_order(list.to_set()) == list,
{
    lemma_ascending_unique(in_order(list.to_set()), list);
}

/// Every finite set of names has its listing: `in_order` gives an
/// ascending list that holds just the names of the set.
pub proof fn lemma_listing_exists(set: Set<Name>)
    requires
        set.finite(),
    ensures
        ascending(in_order(set)),
        in_order(set).to_set() == set,
        in_order(set).len() == set.len(),
    decreases set.len(),
{
    // A list that will do; `in_order` then picks one that does.
    let list = if set.len() == 0 {
        Seq::<Name>::empty()
    } else {
        let name = set.choose();
        let shorter = in_order(set.remove(name));
        lemma_listing_exists(set.remove(name));
        lemma_place_for(shorter, name);
        lemma_insert_name(shorter, name, place_for(shorter, name));
        shorter.insert(place_for(shorter, name), name)
    };
    assert(list.to_set() =~= set);
    assert(ascending(list));
    lemma_ascending_distinct(in_order(set));
    in_order(set).unique_seq_to_set();
}

/// Compares two names.
pub fn rank(a: &str, b: &str) -> (r: Rank)
    ensures
        r == rank_of(a@, b@),
{
    let x = a.as_bytes();
    let y = b.as_bytes();
    let mut k: usize = 0;
    while k < x.len() && k < y.len()
        invariant
            k <= x.len(),
            k <= y.len(),
            x@ == encode_utf8(a@),
            y@ == encode_utf8(b@),
            forall|i: int| 0 <= i < k ==> x@[i] == y@[i],
        decreases x.len() - k,
    {
        if x[k] < y[k] {
            assert(parts_at(x@, y@, k as int));
            return Rank::Before;
        }
        if y[k] < x[k] {
            proof {
                assert(parts_at(y@, x@, k as int));
                lemma_before_asymmetric(b@, a@);
                lemma_before_irreflexive(a@);
            }
            return Rank::After;
        }
        k = k + 1;
    }
    if k < y.len() {
        assert(parts_at(x@, y@, k as int));
        Rank::Before
    } else if k < x.len() {
        proof {
            assert(parts_at(y@, x@, k as int));
            lemma_before_asymmetric(b@, a@);
            lemma_before_irreflexive(a@);
        }
        Rank::After
    } else {
        proof {
            assert(x@ =~= y@);
            lemma_same_bytes_same_name(a@, b@);
            lemma_before_irreflexive(a@);
        }
        Rank::Same
    }
}

/// Whether two texts are the same.
pub fn same_text(a: &str, b: &str) -> (same: bool)
    ensures
        same == (a@ == b@),
{
    match rank(a, b) {
        Rank::Same => true,
        _ => false,
    }
}

} // verus!
