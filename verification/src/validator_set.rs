//! Validators and validator sets.
use vstd::prelude::*;
use crate::address::Address;
use crate::keys::PublicKey;
use crate::threshold::VotingPower;

verus! {

/// A validator is a public key and voting power.
#[derive(Copy, Clone, Debug)]
pub struct Validator {
    pub address: Address,
    pub public_key: PublicKey,
    pub voting_power: VotingPower,
}

/// A validator set holds a list of validators sorted by address, in which no validator
/// directly follows an equal one.
#[derive(Clone, Debug)]
pub struct ValidatorSet {
    pub validators: Vec<Validator>,
}

/// `s` with every run of consecutive equal validators cut down to its first element.
pub open spec fn dedup(s: Seq<Validator>) -> Seq<Validator>
    decreases s.len(),
{
    if s.len() <= 1 {
        s
    } else {
        let d = dedup(s.drop_last());
        if s[s.len() - 1] == s[s.len() - 2] {
            d
        } else {
            d.push(s[s.len() - 1])
        }
    }
}

/// No validator in `s` directly follows an equal one.
pub open spec fn no_adjacent_duplicates(s: Seq<Validator>) -> bool {
    forall|i: int| 0 <= i < s.len() - 1 ==> #[trigger] s[i] != s[i + 1]
}

/// The sum of the voting powers in `s`.
pub open spec fn total_power(s: Seq<Validator>) -> int
    decreases s.len(),
{
    if s.len() == 0 {
        0
    } else {
        total_power(s.drop_last()) + s[s.len() - 1].voting_power
    }
}

/// The index of the first validator of `s` that satisfies `p`, or -1 if none does.
pub open spec fn first_match(s: Seq<Validator>, p: spec_fn(Validator) -> bool) -> int
    decreases s.len(),
{
    if s.len() == 0 {
        -1
    } else {
        let r = first_match(s.drop_last(), p);
        if r >= 0 {
            r
        } else if p(s[s.len() - 1]) {
            s.len() - 1
        } else {
            -1
        }
    }
}

/// The validators of `s` that do not satisfy `p`, in order.
pub open spec fn remove_matching(s: Seq<Validator>, p: spec_fn(Validator) -> bool) -> Seq<Validator>
    decreases s.len(),
{
    if s.len() == 0 {
        s
    } else {
        let w = remove_matching(s.drop_last(), p);
        if p(s[s.len() - 1]) {
            w
        } else {
            w.push(s[s.len() - 1])
        }
    }
}

/// Holds for the validators with address `a`.
pub open spec fn has_address(a: Address) -> spec_fn(Validator) -> bool {
    |v: Validator| v.address == a
}

/// Holds for the validators with public key `k`.
pub open spec fn has_public_key(k: PublicKey) -> spec_fn(Validator) -> bool {
    |v: Validator| v.public_key == k
}

/// `s` after setting the voting power of its first validator with the address of `val`
/// to the power of `val`; `s` itself when no validator has that address.
pub open spec fn with_power_updated(s: Seq<Validator>, val: Validator) -> Seq<Validator> {
    let i = first_match(s, has_address(val.address));
    if i >= 0 {
        s.update(i, Validator { voting_power: val.voting_power, ..s[i] })
    } else {
        s
    }
}

/// `a` comes strictly before `b` in lexicographic byte order.
pub open spec fn bytes_lt(a: Seq<u8>, b: Seq<u8>) -> bool
    decreases a.len(),
{
    if a.len() == 0 {
        b.len() > 0
    } else if b.len() == 0 {
        false
    } else if a[0] != b[0] {
        a[0] < b[0]
    } else {
        bytes_lt(a.drop_first(), b.drop_first())
    }
}

/// The address of `a` comes strictly before that of `b`, comparing key bytes in order.
pub open spec fn address_lt(a: Address, b: Address) -> bool {
    bytes_lt(a.0.bytes@, b.0.bytes@)
}

/// The validators of `s` are in order of address: none comes after one with a greater
/// address.
pub open spec fn sorted_by_address(s: Seq<Validator>) -> bool {
    forall|i: int, j: int| 0 <= i < j < s.len() ==> !address_lt(#[trigger] s[j].address, #[trigger] s[i].address)
}

/// After a common prefix, the order of two byte strings is that of what follows it.
proof fn lemma_bytes_lt_skip(a: Seq<u8>, b: Seq<u8>, i: int)
    requires
        0 <= i <= a.len(),
        i <= b.len(),
        a.take(i) == b.take(i),
    ensures
        bytes_lt(a, b) == bytes_lt(a.skip(i), b.skip(i)),
    decreases i,
{
    if i == 0 {
        assert(a.skip(0) =~= a);
        assert(b.skip(0) =~= b);
    } else {
        assert(a[0] == a.take(i)[0]);
        assert(b[0] == b.take(i)[0]);
        assert(a.drop_first().take(i - 1) =~= a.take(i).drop_first());
        assert(b.drop_first().take(i - 1) =~= b.take(i).drop_first());
        lemma_bytes_lt_skip(a.drop_first(), b.drop_first(), i - 1);
        assert(a.drop_first().skip(i - 1) =~= a.skip(i));
        assert(b.drop_first().skip(i - 1) =~= b.skip(i));
    }
}

/// Byte order is transitive.
pub proof fn lemma_bytes_lt_transitive(a: Seq<u8>, b: Seq<u8>, c: Seq<u8>)
    requires
        bytes_lt(a, b),
        bytes_lt(b, c),
    ensures
        bytes_lt(a, c),
    decreases a.len(),
{
    if a.len() > 0 && b.len() > 0 && c.len() > 0 && a[0] == b[0] && b[0] == c[0] {
        lemma_bytes_lt_transitive(a.drop_first(), b.drop_first(), c.drop_first());
    }
}

/// No byte string comes before itself.
pub proof fn lemma_bytes_lt_irreflexive(a: Seq<u8>)
    ensures
        !bytes_lt(a, a),
    decreases a.len(),
{
    if a.len() > 0 {
        lemma_bytes_lt_irreflexive(a.drop_first());
    }
}

/// Byte order is the unsigned lexicographic order: two byte strings that agree before
/// position `i` and differ there come in the order of their bytes at `i`, as numbers
/// from 0 to 255.
pub proof fn lemma_bytes_lt_first_difference(a: Seq<u8>, b: Seq<u8>, i: int)
    requires
        0 <= i < a.len(),
        i < b.len(),
        a.take(i) == b.take(i),
        a[i] != b[i],
    ensures
        bytes_lt(a, b) <==> (a[i] as int) < (b[i] as int),
{
    lemma_bytes_lt_skip(a, b, i);
    assert(a.skip(i)[0] == a[i]);
    assert(b.skip(i)[0] == b[i]);
}

/// Addresses are ordered by their key bytes, compared as unsigned numbers at the first
/// position where they differ.
pub proof fn lemma_address_lt_unsigned(x: Address, y: Address, i: int)
    requires
        0 <= i < 32,
        x.0.bytes@.take(i) == y.0.bytes@.take(i),
        x.0.bytes@[i] != y.0.bytes@[i],
    ensures
        address_lt(x, y) <==> (x.0.bytes@[i] as int) < (y.0.bytes@[i] as int),
{
    broadcast use vstd::array::group_array_axioms;
    lemma_bytes_lt_first_difference(x.0.bytes@, y.0.bytes@, i);
}

/// Whether the address of `a` comes strictly before that of `b`.
pub fn address_before(a: &Address, b: &Address) -> (r: bool)
    ensures
        r == address_lt(*a, *b),
{
    let x = a.as_bytes();
    let y = b.as_bytes();
    let mut i: usize = 0;
    while i < 32
        invariant
            i <= 32,
            x@ == a.0.bytes@,
            y@ == b.0.bytes@,
            x@.len() == 32,
            y@.len() == 32,
            x@.take(i as int) == y@.take(i as int),
        decreases 32 - i,
    {
        if x[i] != y[i] {
            proof {
                lemma_bytes_lt_skip(x@, y@, i as int);
                assert(x@.skip(i as int)[0] == x@[i as int]);
                assert(y@.skip(i as int)[0] == y@[i as int]);
            }
            return x[i] < y[i];
        }
        assert(x@.take(i as int + 1) =~= x@.take(i as int).push(x@[i as int]));
        assert(y@.take(i as int + 1) =~= y@.take(i as int).push(y@[i as int]));
        i += 1;
    }
    proof {
        lemma_bytes_lt_skip(x@, y@, 32);
        assert(x@.skip(32).len() == 0);
        assert(y@.skip(32).len() == 0);
    }
    false
}

/// Where `insert_by_address` puts `v` into `t`: before the first validator whose address
/// comes after that of `v`, or at the end.
pub open spec fn insert_position(t: Seq<Validator>, v: Validator) -> int
    decreases t.len(),
{
    if t.len() == 0 {
        0
    } else if address_lt(v.address, t[0].address) {
        0
    } else {
        1 + insert_position(t.drop_first(), v)
    }
}

/// `t` with `v` inserted before the first validator whose address comes after that of `v`.
pub open spec fn insert_by_address(t: Seq<Validator>, v: Validator) -> Seq<Validator> {
    t.insert(insert_position(t, v), v)
}

/// `s` stably sorted by address: validators with the same address keep their order.
pub open spec fn sort_by_address(s: Seq<Validator>) -> Seq<Validator>
    decreases s.len(),
{
    if s.len() == 0 {
        s
    } else {
        insert_by_address(sort_by_address(s.drop_last()), s[s.len() - 1])
    }
}

/// `insert_position` is the first position whose validator has an address after that
/// of `v`, or the length when there is none.
pub proof fn lemma_insert_position(t: Seq<Validator>, v: Validator)
    ensures
        0 <= insert_position(t, v) <= t.len(),
        forall|k: int| 0 <= k < insert_position(t, v) ==> !address_lt(v.address, #[trigger] t[k].address),
        insert_position(t, v) < t.len() ==> address_lt(v.address, t[insert_position(t, v)].address),
    decreases t.len(),
{
    if t.len() > 0 && !address_lt(v.address, t[0].address) {
        let r = t.drop_first();
        lemma_insert_position(r, v);
        assert forall|k: int| 0 <= k < insert_position(t, v) implies !address_lt(v.address, #[trigger] t[k].address) by {
            if k > 0 {
                assert(t[k] == r[k - 1]);
            }
        }
        if insert_position(t, v) < t.len() {
            assert(t[insert_position(t, v)] == r[insert_position(r, v)]);
        }
    }
}

/// The validator at position `k` of `insert_by_address(t, v)`.
pub proof fn lemma_insert_index(t: Seq<Validator>, v: Validator, k: int)
    requires
        0 <= k <= t.len(),
    ensures
        insert_by_address(t, v).len() == t.len() + 1,
        insert_by_address(t, v)[k] == if k < insert_position(t, v) {
            t[k]
        } else if k == insert_position(t, v) {
            v
        } else {
            t[k - 1]
        },
{
    lemma_insert_position(t, v);
    t.insert_ensures(insert_position(t, v), v);
}

/// The validators of `insert_by_address(t, v)` are `v` and those of `t`, and its voting
/// power is that of `t` and `v` together.
pub proof fn lemma_insert_by_address(t: Seq<Validator>, v: Validator)
    ensures
        insert_by_address(t, v).len() == t.len() + 1,
        forall|k: int| 0 <= k < insert_by_address(t, v).len() ==> (#[trigger] insert_by_address(t, v)[k] == v
            || t.contains(insert_by_address(t, v)[k])),
        total_power(insert_by_address(t, v)) == total_power(t) + v.voting_power,
{
    lemma_insert_position(t, v);
    let j = insert_position(t, v);
    let u = insert_by_address(t, v);
    assert forall|k: int| 0 <= k < u.len() implies (#[trigger] u[k] == v || t.contains(u[k])) by {
        lemma_insert_index(t, v, k);
        if k < j {
            assert(u[k] == t[k]);
        } else if k > j {
            assert(u[k] == t[k - 1]);
        }
    }
    let a = t.take(j);
    let c = t.skip(j);
    assert(total_power(seq![v]) == v.voting_power) by {
        assert(seq![v].drop_last() =~= Seq::<Validator>::empty());
        assert(total_power(Seq::<Validator>::empty()) == 0);
        assert(seq![v][0] == v);
    }
    lemma_total_power_concat(a, seq![v]);
    lemma_total_power_concat(a + seq![v], c);
    lemma_total_power_concat(a, c);
    assert(a + c =~= t);
    t.insert_ensures(j, v);
    assert(u =~= a + seq![v] + c);
}

/// The voting power of a concatenation is that of its parts.
pub proof fn lemma_total_power_concat(a: Seq<Validator>, b: Seq<Validator>)
    ensures
        total_power(a + b) == total_power(a) + total_power(b),
    decreases b.len(),
{
    if b.len() == 0 {
        assert(a + b =~= a);
    } else {
        assert((a + b).drop_last() =~= a + b.drop_last());
        lemma_total_power_concat(a, b.drop_last());
    }
}

/// Inserting into a sequence sorted by address keeps it sorted.
pub proof fn lemma_insert_keeps_sorted(t: Seq<Validator>, v: Validator)
    requires
        sorted_by_address(t),
    ensures
        sorted_by_address(insert_by_address(t, v)),
{
    lemma_insert_position(t, v);
    let j = insert_position(t, v);
    let u = insert_by_address(t, v);
    assert forall|a: int, b: int| 0 <= a < b < u.len() implies !address_lt(#[trigger] u[b].address, #[trigger] u[a].address) by {
        lemma_insert_index(t, v, a);
        lemma_insert_index(t, v, b);
        lemma_insert_pair(t, v, j, a, b);
    }
}

/// One pair of positions of `insert_by_address(t, v)`, `t` sorted, is in order.
proof fn lemma_insert_pair(t: Seq<Validator>, v: Validator, j: int, a: int, b: int)
    requires
        sorted_by_address(t),
        j == insert_position(t, v),
        0 <= j <= t.len(),
        forall|k: int| 0 <= k < j ==> !address_lt(v.address, #[trigger] t[k].address),
        j < t.len() ==> address_lt(v.address, t[j].address),
        0 <= a < b <= t.len(),
        insert_by_address(t, v)[a] == if a < j { t[a] } else if a == j { v } else { t[a - 1] },
        insert_by_address(t, v)[b] == if b < j { t[b] } else if b == j { v } else { t[b - 1] },
    ensures
        !address_lt(insert_by_address(t, v)[b].address, insert_by_address(t, v)[a].address),
{
    if a == j {
        let w = t[b - 1];
        if address_lt(w.address, v.address) {
            lemma_bytes_lt_transitive(w.address.0.bytes@, v.address.0.bytes@, t[j].address.0.bytes@);
            if j < b - 1 {
                assert(!address_lt(t[b - 1].address, t[j].address));
            } else {
                lemma_bytes_lt_irreflexive(w.address.0.bytes@);
            }
        }
    } else if a < j && b > j {
        assert(!address_lt(t[b - 1].address, t[a].address));
    } else if a > j {
        assert(!address_lt(t[b - 1].address, t[a - 1].address));
    } else if b < j {
        assert(!address_lt(t[b].address, t[a].address));
    }
}

/// Sorting by address gives a sorted sequence of the same validators and voting power.
pub proof fn lemma_sort_by_address(s: Seq<Validator>)
    ensures
        sorted_by_address(sort_by_address(s)),
        sort_by_address(s).len() == s.len(),
        forall|k: int| 0 <= k < sort_by_address(s).len() ==> s.contains(#[trigger] sort_by_address(s)[k]),
        total_power(sort_by_address(s)) == total_power(s),
    decreases s.len(),
{
    if s.len() > 0 {
        let d = s.drop_last();
        let v = s[s.len() - 1];
        lemma_sort_by_address(d);
        lemma_insert_keeps_sorted(sort_by_address(d), v);
        lemma_insert_by_address(sort_by_address(d), v);
        assert forall|k: int| 0 <= k < sort_by_address(s).len() implies s.contains(#[trigger] sort_by_address(s)[k]) by {
            let e = sort_by_address(s)[k];
            if e != v {
                let m = choose|m: int| 0 <= m < sort_by_address(d).len() && sort_by_address(d)[m] == e;
                let n = choose|n: int| 0 <= n < d.len() && d[n] == e;
                assert(s[n] == e);
            } else {
                assert(s[s.len() - 1] == e);
            }
        }
    }
}

/// A sequence sorted by address is its own sort.
pub proof fn lemma_sort_sorted_identity(s: Seq<Validator>)
    requires
        sorted_by_address(s),
    ensures
        sort_by_address(s) == s,
    decreases s.len(),
{
    if s.len() > 0 {
        let d = s.drop_last();
        let v = s[s.len() - 1];
        assert(sorted_by_address(d)) by {
            assert forall|a: int, b: int| 0 <= a < b < d.len() implies !address_lt(#[trigger] d[b].address, #[trigger] d[a].address) by {
                assert(d[a] == s[a] && d[b] == s[b]);
            }
        }
        lemma_sort_sorted_identity(d);
        lemma_insert_position(d, v);
        let j = insert_position(d, v);
        if j < d.len() {
            assert(d[j] == s[j]);
            assert(!address_lt(s[s.len() - 1].address, s[j].address));
        }
        assert(j == d.len());
        assert(d.insert(j, v) =~= s);
    }
}

/// `dedup` keeps a sequence sorted by address.
pub proof fn lemma_dedup_keeps_sorted(s: Seq<Validator>)
    requires
        sorted_by_address(s),
    ensures
        sorted_by_address(dedup(s)),
    decreases s.len(),
{
    if s.len() > 1 {
        let d = s.drop_last();
        assert(sorted_by_address(d)) by {
            assert forall|a: int, b: int| 0 <= a < b < d.len() implies !address_lt(#[trigger] d[b].address, #[trigger] d[a].address) by {
                assert(d[a] == s[a] && d[b] == s[b]);
            }
        }
        lemma_dedup_keeps_sorted(d);
        lemma_dedup_properties(d);
        let e = dedup(d);
        if !(s[s.len() - 1] == s[s.len() - 2]) {
            let u = e.push(s[s.len() - 1]);
            assert forall|a: int, b: int| 0 <= a < b < u.len() implies !address_lt(#[trigger] u[b].address, #[trigger] u[a].address) by {
                if b == u.len() - 1 {
                    let n = choose|n: int| 0 <= n < d.len() && d[n] == e[a];
                    assert(s[n] == u[a]);
                    assert(s[s.len() - 1] == u[b]);
                } else {
                    assert(u[a] == e[a] && u[b] == e[b]);
                }
            }
        }
    }
}

/// `first_match` names the least index that satisfies `p`, or -1 when none does.
pub proof fn lemma_first_match(s: Seq<Validator>, p: spec_fn(Validator) -> bool)
    ensures
        ({
            let r = first_match(s, p);
            ||| (r == -1 && forall|j: int| 0 <= j < s.len() ==> !p(#[trigger] s[j]))
            ||| (0 <= r < s.len() && p(s[r]) && forall|j: int| 0 <= j < r ==> !p(#[trigger] s[j]))
        }),
    decreases s.len(),
{
    if s.len() > 0 {
        lemma_first_match(s.drop_last(), p);
        let d = s.drop_last();
        assert forall|j: int| 0 <= j < d.len() implies d[j] == s[j] by {}
    }
}

/// Every validator of `remove_matching(s, p)` is one of `s` and does not satisfy `p`.
pub proof fn lemma_remove_matching(s: Seq<Validator>, p: spec_fn(Validator) -> bool)
    ensures
        forall|i: int| 0 <= i < remove_matching(s, p).len() ==> {
            &&& !p(#[trigger] remove_matching(s, p)[i])
            &&& s.contains(remove_matching(s, p)[i])
        },
    decreases s.len(),
{
    if s.len() > 0 {
        let d = s.drop_last();
        lemma_remove_matching(d, p);
        let w = remove_matching(d, p);
        assert forall|i: int| 0 <= i < remove_matching(s, p).len() implies {
            &&& !p(#[trigger] remove_matching(s, p)[i])
            &&& s.contains(remove_matching(s, p)[i])
        } by {
            if i < w.len() {
                assert(remove_matching(s, p)[i] == w[i]);
                let k = choose|k: int| 0 <= k < d.len() && d[k] == w[i];
                assert(s[k] == w[i]);
            } else {
                assert(s[s.len() - 1] == remove_matching(s, p)[i]);
            }
        }
    }
}

/// A nonempty sequence keeps its last element, and stays nonempty, under `dedup`.
pub proof fn lemma_dedup_last(s: Seq<Validator>)
    requires
        s.len() > 0,
    ensures
        dedup(s).len() > 0,
        dedup(s)[dedup(s).len() - 1] == s[s.len() - 1],
    decreases s.len(),
{
    if s.len() > 1 {
        lemma_dedup_last(s.drop_last());
    }
}

/// `dedup` leaves no validator directly following an equal one, keeps only validators
/// of its input, and is at most as long as its input.
pub proof fn lemma_dedup_properties(s: Seq<Validator>)
    ensures
        no_adjacent_duplicates(dedup(s)),
        dedup(s).len() <= s.len(),
        forall|i: int| 0 <= i < dedup(s).len() ==> s.contains(#[trigger] dedup(s)[i]),
    decreases s.len(),
{
    if s.len() > 1 {
        let d = s.drop_last();
        lemma_dedup_properties(d);
        lemma_dedup_last(d);
        assert forall|i: int| 0 <= i < dedup(s).len() implies s.contains(#[trigger] dedup(s)[i]) by {
            if i < dedup(d).len() {
                assert(dedup(s)[i] == dedup(d)[i]);
                let k = choose|k: int| 0 <= k < d.len() && d[k] == dedup(d)[i];
                assert(s[k] == dedup(s)[i]);
            } else {
                assert(s[s.len() - 1] == dedup(s)[i]);
            }
        }
    }
}

/// A sequence without adjacent duplicates is its own `dedup`.
pub proof fn lemma_dedup_identity(s: Seq<Validator>)
    requires
        no_adjacent_duplicates(s),
    ensures
        dedup(s) == s,
    decreases s.len(),
{
    if s.len() > 1 {
        let d = s.drop_last();
        assert forall|i: int| 0 <= i < d.len() - 1 implies #[trigger] d[i] != d[i + 1] by {
            assert(s[i] != s[i + 1]);
        }
        lemma_dedup_identity(d);
        assert(s[s.len() - 2] != s[s.len() - 1]);
        assert(d.push(s[s.len() - 1]) =~= s);
    }
}

/// Voting power sums over a prefix never exceed the sum over the whole sequence.
pub proof fn lemma_total_power_prefix(s: Seq<Validator>, i: int)
    requires
        0 <= i <= s.len(),
    ensures
        0 <= total_power(s.take(i)) <= total_power(s),
    decreases s.len() - i,
{
    if i < s.len() {
        lemma_total_power_prefix(s, i + 1);
        assert(s.take(i + 1).drop_last() =~= s.take(i));
        assert(s.take(i + 1)[i] == s[i]);
        lemma_total_power_nonneg(s.take(i));
    } else {
        assert(s.take(i) =~= s);
        lemma_total_power_nonneg(s);
    }
}

/// Voting power sums are never negative.
pub proof fn lemma_total_power_nonneg(s: Seq<Validator>)
    ensures
        total_power(s) >= 0,
    decreases s.len(),
{
    if s.len() > 0 {
        lemma_total_power_nonneg(s.drop_last());
    }
}

/// A well-formed validator set: sorted by address, with no validator directly following
/// an equal one.
pub open spec fn well_formed(s: Seq<Validator>) -> bool {
    sorted_by_address(s) && no_adjacent_duplicates(s)
}

/// Adding a validator whose address is new to a well-formed set raises the total voting
/// power by the validator's power.
pub proof fn lemma_add_total_power(s: Seq<Validator>, v: Validator)
    requires
        well_formed(s),
        forall|i: int| 0 <= i < s.len() ==> (#[trigger] s[i]).address != v.address,
    ensures
        total_power(dedup(sort_by_address(s.push(v)))) == total_power(s) + v.voting_power,
{
    let d = s.push(v).drop_last();
    assert(d =~= s);
    lemma_sort_sorted_identity(s);
    lemma_insert_by_address(s, v);
    lemma_insert_position(s, v);
    let j = insert_position(s, v);
    let u = insert_by_address(s, v);
    assert(sort_by_address(s.push(v)) == u);
    assert forall|k: int| 0 <= k < u.len() - 1 implies #[trigger] u[k] != u[k + 1] by {
        lemma_insert_index(s, v, k);
        lemma_insert_index(s, v, k + 1);
        if k + 1 < j {
            assert(s[k] != s[k + 1]);
        } else if k == j {
            assert(s[k].address != v.address);
        } else if k + 1 == j {
            assert(s[k].address != v.address);
        } else {
            assert(s[k - 1] != s[k]);
        }
    }
    lemma_dedup_identity(u);
}

/// No two validators of `s` have the same address.
pub open spec fn distinct_addresses(s: Seq<Validator>) -> bool {
    forall|i: int, j: int| 0 <= i < j < s.len() ==> (#[trigger] s[i]).address != (#[trigger] s[j]).address
}

/// Of two different byte strings of the same length, one comes before the other.
pub proof fn lemma_bytes_lt_total(a: Seq<u8>, b: Seq<u8>)
    requires
        a.len() == b.len(),
        a != b,
    ensures
        bytes_lt(a, b) || bytes_lt(b, a),
    decreases a.len(),
{
    if a.len() > 0 && a[0] == b[0] {
        if a.drop_first() == b.drop_first() {
            assert(a =~= b) by {
                assert forall|i: int| 0 <= i < a.len() implies a[i] == b[i] by {
                    if i > 0 {
                        assert(a[i] == a.drop_first()[i - 1]);
                        assert(b[i] == b.drop_first()[i - 1]);
                    }
                }
            }
        }
        lemma_bytes_lt_total(a.drop_first(), b.drop_first());
    } else if a.len() == 0 {
        assert(a =~= b);
    }
}

/// A sequence without adjacent duplicates, with one element repeated right after
/// itself, loses the repetition under `dedup`.
proof fn lemma_dedup_doubled(t: Seq<Validator>, m: int)
    requires
        no_adjacent_duplicates(t),
        1 <= m <= t.len(),
    ensures
        dedup(t.insert(m, t[m - 1])) == t,
    decreases t.len(),
{
    let w = t.insert(m, t[m - 1]);
    t.insert_ensures(m, t[m - 1]);
    if m == t.len() {
        assert(w.drop_last() =~= t);
        lemma_dedup_identity(t);
    } else {
        let d = t.drop_last();
        assert forall|i: int| 0 <= i < d.len() - 1 implies #[trigger] d[i] != d[i + 1] by {
            assert(t[i] != t[i + 1]);
        }
        assert(d[m - 1] == t[m - 1]);
        d.insert_ensures(m, t[m - 1]);
        assert(w.drop_last() =~= d.insert(m, t[m - 1]));
        lemma_dedup_doubled(d, m);
        assert(w[w.len() - 1] == t[t.len() - 1]);
        assert(w[w.len() - 2] == t[t.len() - 2]);
        assert(t[t.len() - 2] != t[t.len() - 1]);
        assert(d.push(t[t.len() - 1]) =~= t);
    }
}

/// Adding a validator to a set that is sorted by address with no address twice keeps it
/// so, when the set has no other validator with the new one's address: the set then holds
/// the new validator and all the old ones, one more than before unless the very same
/// validator was there already.
pub proof fn lemma_add_keeps_distinct_sorted(s: Seq<Validator>, v: Validator)
    requires
        sorted_by_address(s),
        distinct_addresses(s),
        forall|i: int| 0 <= i < s.len() ==> (#[trigger] s[i]).address != v.address || s[i] == v,
    ensures
        ({
            let r = dedup(sort_by_address(s.push(v)));
            &&& sorted_by_address(r)
            &&& distinct_addresses(r)
            &&& r.contains(v)
            &&& forall|i: int| 0 <= i < s.len() ==> r.contains(#[trigger] s[i])
            &&& r.len() == s.len() + if s.contains(v) { 0int } else { 1int }
        }),
{
    broadcast use vstd::array::group_array_axioms;
    assert(s.push(v).drop_last() =~= s);
    lemma_sort_sorted_identity(s);
    lemma_insert_position(s, v);
    let j = insert_position(s, v);
    let u = insert_by_address(s, v);
    assert(sort_by_address(s.push(v)) == u);
    assert(no_adjacent_duplicates(s)) by {
        assert forall|i: int| 0 <= i < s.len() - 1 implies #[trigger] s[i] != s[i + 1] by {
            assert(s[i].address != s[i + 1].address);
        }
    }
    if s.contains(v) {
        let k = choose|k: int| 0 <= k < s.len() && s[k] == v;
        assert forall|x: int| 0 <= x <= k implies !address_lt(v.address, #[trigger] s[x].address) by {
            if x == k {
                lemma_bytes_lt_irreflexive(v.address.0.bytes@);
            }
        }
        if k + 1 < s.len() {
            assert(s[k].address != s[k + 1].address);
            assert(s[k].address.0.bytes@ != s[k + 1].address.0.bytes@) by {
                if s[k].address.0.bytes@ == s[k + 1].address.0.bytes@ {
                    assert(s[k].address.0.bytes =~= s[k + 1].address.0.bytes);
                }
            }
            lemma_bytes_lt_total(s[k].address.0.bytes@, s[k + 1].address.0.bytes@);
        }
        if j < k + 1 {
            assert(!address_lt(v.address, s[j].address));
        }
        if j > k + 1 {
            assert(!address_lt(v.address, s[k + 1].address));
        }
        assert(j == k + 1);
        lemma_dedup_doubled(s, k + 1);
        assert(dedup(u) == s);
        assert(s[k] == v);
    } else {
        lemma_insert_keeps_sorted(s, v);
        assert forall|k: int| 0 <= k < u.len() - 1 implies #[trigger] u[k] != u[k + 1] by {
            lemma_insert_index(s, v, k);
            lemma_insert_index(s, v, k + 1);
            if k + 1 < j {
                assert(s[k] != s[k + 1]);
            } else if k == j || k + 1 == j {
            } else {
                assert(s[k - 1] != s[k]);
            }
        }
        lemma_dedup_identity(u);
        assert forall|a: int, b: int| 0 <= a < b < u.len() implies (#[trigger] u[a]).address != (#[trigger] u[b]).address by {
            lemma_insert_index(s, v, a);
            lemma_insert_index(s, v, b);
            if a < j && b < j {
            } else if a < j && b == j {
            } else if a < j {
                assert(s[a].address != s[b - 1].address);
            } else if a == j {
            } else {
                assert(s[a - 1].address != s[b - 1].address);
            }
        }
        lemma_insert_index(s, v, j);
        assert(u[j] == v);
        assert forall|i: int| 0 <= i < s.len() implies u.contains(#[trigger] s[i]) by {
            if i < j {
                lemma_insert_index(s, v, i);
                assert(u[i] == s[i]);
            } else {
                lemma_insert_index(s, v, i + 1);
                assert(u[i + 1] == s[i]);
            }
        }
        lemma_insert_by_address(s, v);
    }
}

/// `remove_matching` keeps every validator that does not satisfy `p`.
proof fn lemma_remove_matching_keeps(s: Seq<Validator>, p: spec_fn(Validator) -> bool)
    ensures
        forall|i: int| 0 <= i < s.len() && !p(s[i]) ==> remove_matching(s, p).contains(#[trigger] s[i]),
    decreases s.len(),
{
    if s.len() > 0 {
        let d = s.drop_last();
        lemma_remove_matching_keeps(d, p);
        let w = remove_matching(d, p);
        assert forall|i: int| 0 <= i < s.len() && !p(s[i]) implies remove_matching(s, p).contains(#[trigger] s[i]) by {
            if i < s.len() - 1 {
                assert(d[i] == s[i]);
                let k = choose|k: int| 0 <= k < w.len() && w[k] == d[i];
                assert(remove_matching(s, p)[k] == s[i]);
            } else {
                assert(remove_matching(s, p)[w.len() as int] == s[i]);
            }
        }
    }
}

/// Sorting keeps every validator.
proof fn lemma_sort_keeps(s: Seq<Validator>)
    ensures
        forall|i: int| 0 <= i < s.len() ==> sort_by_address(s).contains(#[trigger] s[i]),
    decreases s.len(),
{
    if s.len() > 0 {
        let d = s.drop_last();
        let v = s[s.len() - 1];
        let t = sort_by_address(d);
        lemma_sort_keeps(d);
        lemma_insert_position(t, v);
        let j = insert_position(t, v);
        assert forall|i: int| 0 <= i < s.len() implies sort_by_address(s).contains(#[trigger] s[i]) by {
            if i < s.len() - 1 {
                assert(d[i] == s[i]);
                let k = choose|k: int| 0 <= k < t.len() && t[k] == d[i];
                if k < j {
                    lemma_insert_index(t, v, k);
                    assert(sort_by_address(s)[k] == s[i]);
                } else {
                    lemma_insert_index(t, v, k + 1);
                    assert(sort_by_address(s)[k + 1] == s[i]);
                }
            } else {
                lemma_insert_index(t, v, j);
                assert(sort_by_address(s)[j] == s[i]);
            }
        }
    }
}

/// `dedup` keeps every validator, once.
proof fn lemma_dedup_keeps(s: Seq<Validator>)
    ensures
        forall|i: int| 0 <= i < s.len() ==> dedup(s).contains(#[trigger] s[i]),
    decreases s.len(),
{
    if s.len() > 1 {
        let d = s.drop_last();
        lemma_dedup_keeps(d);
        assert forall|i: int| 0 <= i < s.len() implies dedup(s).contains(#[trigger] s[i]) by {
            if i < s.len() - 1 {
                assert(d[i] == s[i]);
                let k = choose|k: int| 0 <= k < dedup(d).len() && dedup(d)[k] == d[i];
                assert(dedup(s)[k] == s[i]);
            } else if s[s.len() - 1] == s[s.len() - 2] {
                assert(d[s.len() - 2] == s[s.len() - 2]);
                let k = choose|k: int| 0 <= k < dedup(d).len() && dedup(d)[k] == d[s.len() - 2];
                assert(dedup(s)[k] == s[i]);
            } else {
                assert(dedup(s)[dedup(d).len() as int] == s[i]);
            }
        }
    }
}

/// Removing an address keeps exactly the validators with another address: a validator is
/// in the set after the removal if and only if it was there before and has another
/// address.
pub proof fn lemma_remove_keeps_others(s: Seq<Validator>, a: Address)
    ensures
        forall|x: Validator| #[trigger] dedup(sort_by_address(remove_matching(s, has_address(a)))).contains(x)
            <==> (s.contains(x) && x.address != a),
{
    let p = has_address(a);
    let w = remove_matching(s, p);
    let t = sort_by_address(w);
    let r = dedup(t);
    lemma_remove_matching_keeps(s, p);
    lemma_remove_matching(s, p);
    lemma_sort_keeps(w);
    lemma_sort_by_address(w);
    lemma_dedup_keeps(t);
    lemma_dedup_properties(t);
    assert forall|x: Validator| #[trigger] r.contains(x) <==> (s.contains(x) && x.address != a) by {
        if r.contains(x) {
            let k = choose|k: int| 0 <= k < r.len() && r[k] == x;
            let m = choose|m: int| 0 <= m < t.len() && t[m] == r[k];
            let n = choose|n: int| 0 <= n < w.len() && w[n] == t[m];
            assert(!p(w[n]));
        }
        if s.contains(x) && x.address != a {
            let i = choose|i: int| 0 <= i < s.len() && s[i] == x;
            assert(!p(s[i]));
            let n = choose|n: int| 0 <= n < w.len() && w[n] == s[i];
            assert(w[n] == x);
            let m = choose|m: int| 0 <= m < t.len() && t[m] == w[n];
            assert(t[m] == x);
        }
    }
}

/// Updating the power of an address that no validator has leaves a well-formed set as
/// it is.
pub proof fn lemma_update_absent_is_noop(s: Seq<Validator>, val: Validator)
    requires
        well_formed(s),
        forall|i: int| 0 <= i < s.len() ==> (#[trigger] s[i]).address != val.address,
    ensures
        dedup(sort_by_address(with_power_updated(s, val))) == s,
{
    lemma_first_match(s, has_address(val.address));
    if first_match(s, has_address(val.address)) >= 0 {
        let r = first_match(s, has_address(val.address));
        assert(s[r].address != val.address);
    }
    lemma_sort_sorted_identity(s);
    lemma_dedup_identity(s);
}

/// After removing an address, no validator of the set has it.
pub proof fn lemma_remove_leaves_no_match(s: Seq<Validator>, a: Address)
    ensures
        forall|i: int| 0 <= i < dedup(sort_by_address(remove_matching(s, has_address(a)))).len()
            ==> (#[trigger] dedup(sort_by_address(remove_matching(s, has_address(a))))[i]).address != a,
{
    let w = remove_matching(s, has_address(a));
    let t = sort_by_address(w);
    lemma_remove_matching(s, has_address(a));
    lemma_sort_by_address(w);
    lemma_dedup_properties(t);
    assert forall|i: int| 0 <= i < dedup(t).len() implies (#[trigger] dedup(t)[i]).address != a by {
        let k = choose|k: int| 0 <= k < t.len() && t[k] == dedup(t)[i];
        let m = choose|m: int| 0 <= m < w.len() && w[m] == t[k];
        assert(!has_address(a)(w[m]));
    }
}

impl Validator {
    /// A validator with the given public key and voting power; its address is the key.
    pub fn new(public_key: PublicKey, voting_power: VotingPower) -> (r: Self)
        ensures
            r.address == Address(public_key),
            r.public_key == public_key,
            r.voting_power == voting_power,
    {
        Validator { address: Address::from_public_key(public_key), public_key, voting_power }
    }

    /// Validator equality, field by field.
    pub fn eq(&self, other: &Self) -> (r: bool)
        ensures
            r == (*self == *other),
    {
        self.voting_power == other.voting_power && self.address.eq(&other.address)
            && self.public_key.eq(&other.public_key)
    }

    /// The address of the validator.
    pub fn address(&self) -> (r: &Address)
        ensures
            *r == self.address,
    {
        &self.address
    }

    /// The public key of the validator.
    pub fn public_key(&self) -> (r: &PublicKey)
        ensures
            *r == self.public_key,
    {
        &self.public_key
    }

    /// The voting power of the validator.
    pub fn voting_power(&self) -> (r: VotingPower)
        ensures
            r == self.voting_power,
    {
        self.voting_power
    }
}

impl ValidatorSet {
    /// The validators of the set.
    pub open spec fn view_seq(&self) -> Seq<Validator> {
        self.validators@
    }

    /// Removes, in place, every validator that directly follows an equal one.
    fn dedup_validators(vals: &mut Vec<Validator>)
        ensures
            final(vals)@ == dedup(old(vals)@),
            no_adjacent_duplicates(final(vals)@),
    {
        let mut out: Vec<Validator> = Vec::new();
        let mut i: usize = 0;
        while i < vals.len()
            invariant
                i <= vals@.len(),
                out@ == dedup(vals@.take(i as int)),
                i > 0 ==> out@.len() > 0 && out@[out@.len() - 1] == vals@[i - 1],
            decreases vals@.len() - i,
        {
            let v = vals[i];
            proof {
                assert(vals@.take(i as int + 1).drop_last() =~= vals@.take(i as int));
            }
            if out.len() == 0 || !out[out.len() - 1].eq(&v) {
                out.push(v);
            }
            i += 1;
            proof {
                lemma_dedup_last(vals@.take(i as int));
            }
        }
        assert(vals@.take(vals@.len() as int) =~= vals@);
        proof {
            lemma_dedup_properties(vals@);
        }
        *vals = out;
    }

    /// Sorts `vals` stably by address, in place, then removes every validator that directly
    /// follows an equal one.
    fn sort_validators(vals: &mut Vec<Validator>)
        ensures
            final(vals)@ == dedup(sort_by_address(old(vals)@)),
            no_adjacent_duplicates(final(vals)@),
            sorted_by_address(final(vals)@),
    {
        let mut sorted: Vec<Validator> = Vec::new();
        let mut i: usize = 0;
        while i < vals.len()
            invariant
                i <= vals@.len(),
                sorted@ == sort_by_address(vals@.take(i as int)),
            decreases vals@.len() - i,
        {
            let v = vals[i];
            let mut j: usize = 0;
            while j < sorted.len() && !address_before(&v.address, &sorted[j].address)
                invariant
                    j <= sorted@.len(),
                    forall|k: int| 0 <= k < j ==> !address_lt(v.address, #[trigger] sorted@[k].address),
                decreases sorted@.len() - j,
            {
                j += 1;
            }
            proof {
                lemma_insert_position(sorted@, v);
                let pos = insert_position(sorted@, v);
                if (j as int) < pos {
                    assert(!address_lt(v.address, sorted@[j as int].address));
                }
                if (j as int) > pos {
                    assert(!address_lt(v.address, sorted@[pos].address));
                }
                assert(vals@.take(i as int + 1).drop_last() =~= vals@.take(i as int));
                assert(vals@.take(i as int + 1)[i as int] == v);
            }
            sorted.insert(j, v);
            i += 1;
        }
        assert(vals@.take(vals@.len() as int) =~= vals@);
        proof {
            lemma_sort_by_address(vals@);
            lemma_dedup_keeps_sorted(sorted@);
        }
        Self::dedup_validators(&mut sorted);
        *vals = sorted;
    }

    /// A validator set of the given validators, sorted by address, after removing every
    /// validator that directly follows an equal one. The list must not be empty.
    pub fn new(validators: Vec<Validator>) -> (r: Self)
        requires
            validators@.len() > 0,
        ensures
            r.validators@ == dedup(sort_by_address(validators@)),
            r.validators@.len() > 0,
            sorted_by_address(r.validators@),
            no_adjacent_duplicates(r.validators@),
    {
        let mut validators = validators;
        proof {
            lemma_sort_by_address(validators@);
            lemma_dedup_last(sort_by_address(validators@));
        }
        Self::sort_validators(&mut validators);
        ValidatorSet { validators }
    }

    /// The total voting power of the validator set.
    pub fn total_voting_power(&self) -> (r: VotingPower)
        requires
            total_power(self.validators@) <= u64::MAX,
        ensures
            r == total_power(self.validators@),
    {
        let mut sum: u64 = 0;
        let mut i: usize = 0;
        while i < self.validators.len()
            invariant
                i <= self.validators@.len(),
                sum == total_power(self.validators@.take(i as int)),
                total_power(self.validators@) <= u64::MAX,
            decreases self.validators@.len() - i,
        {
            proof {
                assert(self.validators@.take(i as int + 1).drop_last() =~= self.validators@.take(i as int));
                lemma_total_power_prefix(self.validators@, i as int + 1);
            }
            sum = sum + self.validators[i].voting_power;
            i += 1;
        }
        assert(self.validators@.take(self.validators@.len() as int) =~= self.validators@);
        sum
    }

    /// Add a validator to the set, then sort by address and drop a validator that
    /// directly follows an equal one.
    pub fn add(&mut self, validator: Validator)
        ensures
            final(self).validators@ == dedup(sort_by_address(old(self).validators@.push(validator))),
            no_adjacent_duplicates(final(self).validators@),
            sorted_by_address(final(self).validators@),
    {
        self.validators.push(validator);
        Self::sort_validators(&mut self.validators);
    }

    /// Update the voting power of the first validator with the address of `val`.
    pub fn update(&mut self, val: Validator)
        ensures
            final(self).validators@ == dedup(sort_by_address(with_power_updated(old(self).validators@, val))),
            no_adjacent_duplicates(final(self).validators@),
            sorted_by_address(final(self).validators@),
    {
        let ghost p = has_address(val.address);
        proof {
            lemma_first_match(self.validators@, p);
        }
        let mut i: usize = 0;
        let mut found = false;
        while i < self.validators.len() && !found
            invariant
                i <= self.validators@.len(),
                self.validators@ == old(self).validators@,
                p == has_address(val.address),
                forall|j: int| 0 <= j < i ==> !p(#[trigger] self.validators@[j]),
                found ==> i < self.validators@.len() && p(self.validators@[i as int]),
            decreases self.validators@.len() - i + (if found { 0int } else { 1 }),
        {
            if self.validators[i].address.eq(&val.address) {
                found = true;
            } else {
                i += 1;
            }
        }
        if found {
            let mut v = self.validators[i];
            v.voting_power = val.voting_power;
            self.validators.set(i, v);
            proof {
                let r = first_match(old(self).validators@, p);
                assert(!p(old(self).validators@[r]) ==> r != i);
                assert(r == i as int);
                assert(self.validators@ =~= with_power_updated(old(self).validators@, val));
            }
        } else {
            proof {
                let r = first_match(old(self).validators@, p);
                if r >= 0 {
                    assert(!p(old(self).validators@[r]));
                }
                assert(self.validators@ =~= with_power_updated(old(self).validators@, val));
            }
        }
        Self::sort_validators(&mut self.validators);
    }

    /// Remove every validator with the given address from the set.
    pub fn remove(&mut self, address: &Address)
        ensures
            final(self).validators@ == dedup(sort_by_address(remove_matching(old(self).validators@, has_address(*address)))),
            no_adjacent_duplicates(final(self).validators@),
            sorted_by_address(final(self).validators@),
            forall|x: Validator| #[trigger] final(self).validators@.contains(x) <==> (old(self).validators@.contains(x)
                && x.address != *address),
    {
        proof {
            lemma_remove_keeps_others(self.validators@, *address);
        }
        let ghost p = has_address(*address);
        let mut out: Vec<Validator> = Vec::new();
        let mut i: usize = 0;
        while i < self.validators.len()
            invariant
                i <= self.validators@.len(),
                p == has_address(*address),
                out@ == remove_matching(self.validators@.take(i as int), p),
            decreases self.validators@.len() - i,
        {
            proof {
                assert(self.validators@.take(i as int + 1).drop_last() =~= self.validators@.take(i as int));
            }
            let v = self.validators[i];
            if !v.address.eq(address) {
                out.push(v);
            }
            i += 1;
        }
        assert(self.validators@.take(self.validators@.len() as int) =~= self.validators@);
        self.validators = out;
        Self::sort_validators(&mut self.validators);
    }

    /// The first validator with the given address, if any.
    pub fn get_by_address(&self, address: &Address) -> (r: Option<&Validator>)
        ensures
            ({
                let i = first_match(self.validators@, has_address(*address));
                match r {
                    Some(v) => i >= 0 && *v == self.validators@[i],
                    None => i == -1,
                }
            }),
    {
        let ghost p = has_address(*address);
        proof {
            lemma_first_match(self.validators@, p);
        }
        let mut i: usize = 0;
        while i < self.validators.len()
            invariant
                i <= self.validators@.len(),
                p == has_address(*address),
                forall|j: int| 0 <= j < i ==> !p(#[trigger] self.validators@[j]),
            decreases self.validators@.len() - i,
        {
            if self.validators[i].address.eq(address) {
                proof {
                    assert(p(self.validators@[i as int]));
                    lemma_first_match(self.validators@, p);
                    let r = first_match(self.validators@, p);
                    if r >= 0 && r < i {
                        assert(!p(self.validators@[r]));
                    }
                }
                return Some(&self.validators[i]);
            }
            i += 1;
        }
        None
    }

    /// The first validator with the given public key, if any.
    pub fn get_by_public_key(&self, public_key: &PublicKey) -> (r: Option<&Validator>)
        ensures
            ({
                let i = first_match(self.validators@, has_public_key(*public_key));
                match r {
                    Some(v) => i >= 0 && *v == self.validators@[i],
                    None => i == -1,
                }
            }),
    {
        let ghost p = has_public_key(*public_key);
        proof {
            lemma_first_match(self.validators@, p);
        }
        let mut i: usize = 0;
        while i < self.validators.len()
            invariant
                i <= self.validators@.len(),
                p == has_public_key(*public_key),
                forall|j: int| 0 <= j < i ==> !p(#[trigger] self.validators@[j]),
            decreases self.validators@.len() - i,
        {
            if self.validators[i].public_key.eq(public_key) {
                proof {
                    assert(p(self.validators@[i as int]));
                    lemma_first_match(self.validators@, p);
                    let r = first_match(self.validators@, p);
                    if r >= 0 && r < i {
                        assert(!p(self.validators@[r]));
                    }
                }
                return Some(&self.validators[i]);
            }
            i += 1;
        }
        None
    }

    /// The public keys of the validators, in order.
    pub fn get_keys(&self) -> (r: Vec<PublicKey>)
        ensures
            r@ == self.validators@.map_values(|v: Validator| v.public_key),
    {
        let mut keys: Vec<PublicKey> = Vec::new();
        let mut i: usize = 0;
        while i < self.validators.len()
            invariant
                i <= self.validators@.len(),
                keys@ == self.validators@.take(i as int).map_values(|v: Validator| v.public_key),
            decreases self.validators@.len() - i,
        {
            keys.push(self.validators[i].public_key);
            i += 1;
            assert(keys@ =~= self.validators@.take(i as int).map_values(|v: Validator| v.public_key));
        }
        assert(self.validators@.take(self.validators@.len() as int) =~= self.validators@);
        keys
    }

    /// The validator at position `index`, if there is one.
    pub fn get_by_index(&self, index: usize) -> (r: Option<&Validator>)
        ensures
            match r {
                Some(v) => index < self.validators@.len() && *v == self.validators@[index as int],
                None => index >= self.validators@.len(),
            },
    {
        if index < self.validators.len() {
            Some(&self.validators[index])
        } else {
            None
        }
    }

    /// The number of validators in the set.
    pub fn count(&self) -> (r: usize)
        ensures
            r == self.validators@.len(),
    {
        self.validators.len()
    }
}

} // verus!
