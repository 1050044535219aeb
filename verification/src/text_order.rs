//! The order of strings (lexicographic by their UTF-8 bytes, as `str`
//! orders them), and sorting lists of distinct strings.

use vstd::prelude::*;
use vstd::string::*;

verus! {

/// Is `a` before `b` in lexicographic byte order?
pub open spec fn bytes_less(a: Seq<u8>, b: Seq<u8>) -> bool
    decreases a.len(),
{
    if a.len() == 0 {
        b.len() > 0
    } else if b.len() == 0 {
        false
    } else if a[0] != b[0] {
        a[0] < b[0]
    } else {
        bytes_less(a.drop_first(), b.drop_first())
    }
}

/// Is the text `a` before the text `b`, comparing their UTF-8 encodings?
pub open spec fn text_less(a: Seq<char>, b: Seq<char>) -> bool {
    bytes_less(vstd::utf8::encode_utf8(a), vstd::utf8::encode_utf8(b))
}

/// No byte string comes before itself.
pub proof fn lemma_bytes_less_irreflexive(a: Seq<u8>)
    ensures
        !bytes_less(a, a),
    decreases a.len(),
{
    if a.len() > 0 {
        lemma_bytes_less_irreflexive(a.drop_first());
    }
}

/// The byte order is transitive.
pub proof fn lemma_bytes_less_transitive(a: Seq<u8>, b: Seq<u8>, c: Seq<u8>)
    requires
        bytes_less(a, b),
        bytes_less(b, c),
    ensures
        bytes_less(a, c),
    decreases a.len(),
{
    if a.len() > 0 && b.len() > 0 && c.len() > 0 && a[0] == b[0] && b[0] == c[0] {
        lemma_bytes_less_transitive(a.drop_first(), b.drop_first(), c.drop_first());
    }
}

/// Of two different byte strings, one comes first.
pub proof fn lemma_bytes_less_total(a: Seq<u8>, b: Seq<u8>)
    ensures
        a =~= b || bytes_less(a, b) || bytes_less(b, a),
    decreases a.len(),
{
    if a.len() > 0 && b.len() > 0 && a[0] == b[0] {
        lemma_bytes_less_total(a.drop_first(), b.drop_first());
        if a.drop_first() =~= b.drop_first() {
            assert(a =~= seq![a[0]] + a.drop_first());
            assert(b =~= seq![b[0]] + b.drop_first());
        }
    }
}

/// Of two byte strings, at most one comes first.
pub proof fn lemma_bytes_less_asymmetric(a: Seq<u8>, b: Seq<u8>)
    requires
        bytes_less(a, b),
    ensures
        !bytes_less(b, a),
{
    if bytes_less(b, a) {
        lemma_bytes_less_transitive(a, b, a);
        lemma_bytes_less_irreflexive(a);
    }
}

/// Texts with different characters have different encodings, so one of them
/// comes first.
pub proof fn lemma_text_less_total(a: Seq<char>, b: Seq<char>)
    ensures
        a == b || text_less(a, b) || text_less(b, a),
{
    let ea = vstd::utf8::encode_utf8(a);
    let eb = vstd::utf8::encode_utf8(b);
    lemma_bytes_less_total(ea, eb);
    if ea =~= eb {
        vstd::utf8::encode_utf8_decode_utf8(a);
        vstd::utf8::encode_utf8_decode_utf8(b);
    }
}

/// The order of texts is a strict order: irreflexive, asymmetric and
/// transitive.
pub proof fn lemma_text_less_order(a: Seq<char>, b: Seq<char>, c: Seq<char>)
    ensures
        !text_less(a, a),
        text_less(a, b) ==> !text_less(b, a),
        text_less(a, b) && text_less(b, c) ==> text_less(a, c),
{
    let ea = vstd::utf8::encode_utf8(a);
    let eb = vstd::utf8::encode_utf8(b);
    let ec = vstd::utf8::encode_utf8(c);
    lemma_bytes_less_irreflexive(ea);
    if bytes_less(ea, eb) {
        lemma_bytes_less_asymmetric(ea, eb);
        if bytes_less(eb, ec) {
            lemma_bytes_less_transitive(ea, eb, ec);
        }
    }
}

/// Calls `<` on two `str`s, which the documentation of `str`'s `Ord` says
/// compares them lexicographically by their bytes.
#[verifier::external_body]
fn str_less(a: &str, b: &str) -> (res: bool)
    ensures
        res == bytes_less(a.spec_bytes(), b.spec_bytes()),
{
    a < b
}

/// Is the text `a` before the text `b`?
pub fn text_before(a: &String, b: &String) -> (res: bool)
    ensures
        res == text_less(a@, b@),
{
    str_less(a.as_str(), b.as_str())
}

/// Are the texts at the positions `idx` strictly increasing?
pub open spec fn strictly_sorted(keys: Seq<Seq<char>>, idx: Seq<usize>) -> bool {
    forall|i: int, j: int|
        0 <= i < j < idx.len() ==> text_less(keys[idx[i] as int], keys[idx[j] as int])
}

/// The positions of the first occurrence of each text, in order.
pub open spec fn is_first_occurrence(keys: Seq<Seq<char>>, i: int) -> bool {
    0 <= i < keys.len() && forall|j: int| 0 <= j < i ==> keys[j] != keys[i]
}

/// Does `idx` list exactly the first occurrences, in increasing order?
pub open spec fn first_occurrences_spec(keys: Seq<Seq<char>>, idx: Seq<usize>) -> bool {
    &&& forall|i: int, j: int| 0 <= i < j < idx.len() ==> idx[i] < idx[j]
    &&& forall|i: int| 0 <= i < idx.len() ==> is_first_occurrence(keys, idx[i] as int)
    &&& forall|i: int| is_first_occurrence(keys, i) ==> exists|k: int| 0 <= k < idx.len() && idx[k] == i
}

/// Whether the text at `i` equals the text at one of the positions `idx`.
fn seen_before(keys: &Vec<String>, idx: &Vec<usize>, i: usize) -> (res: Option<usize>)
    requires
        i < keys@.len(),
        forall|a: int| 0 <= a < idx@.len() ==> idx@[a] < keys@.len(),
    ensures
        match res {
            Some(k) => k < idx@.len() && keys@[idx@[k as int] as int]@ == keys@[i as int]@,
            None => forall|a: int|
                0 <= a < idx@.len() ==> keys@[idx@[a] as int]@ != keys@[i as int]@,
        },
{
    let mut k: usize = 0;
    while k < idx.len()
        invariant
            k <= idx@.len(),
            i < keys@.len(),
            forall|a: int| 0 <= a < idx@.len() ==> idx@[a] < keys@.len(),
            forall|a: int| 0 <= a < k ==> keys@[idx@[a] as int]@ != keys@[i as int]@,
        decreases idx@.len() - k,
    {
        if keys[idx[k]] == keys[i] {
            return Some(k);
        }
        k = k + 1;
    }
    None
}

/// The positions at which each text occurs first.
pub fn first_occurrences(keys: &Vec<String>) -> (idx: Vec<usize>)
    ensures
        first_occurrences_spec(keys@.map_values(|s: String| s@), idx@),
{
    let ghost kv = keys@.map_values(|s: String| s@);
    let mut idx: Vec<usize> = Vec::new();
    let mut i: usize = 0;
    while i < keys.len()
        invariant
            i <= keys.len(),
            kv == keys@.map_values(|s: String| s@),
            forall|a: int, b: int| 0 <= a < b < idx@.len() ==> idx@[a] < idx@[b],
            forall|a: int| 0 <= a < idx@.len() ==> idx@[a] < i,
            forall|a: int| 0 <= a < idx@.len() ==> is_first_occurrence(kv, idx@[a] as int),
            forall|a: int|
                0 <= a < i && is_first_occurrence(kv, a) ==> exists|k: int|
                    0 <= k < idx@.len() && idx@[k] == a,
        decreases keys.len() - i,
    {
        let ghost old_idx = idx@;
        match seen_before(keys, &idx, i) {
            Some(k) => {
                assert(!is_first_occurrence(kv, i as int)) by {
                    assert(kv[idx@[k as int] as int] == kv[i as int]);
                }
            },
            None => {
                assert(is_first_occurrence(kv, i as int)) by {
                    assert forall|j: int| 0 <= j < i implies kv[j] != kv[i as int] by {
                        lemma_earlier_has_first(kv, j);
                        let f = choose|f: int| 0 <= f <= j && is_first_occurrence(kv, f) && kv[f]
                            == kv[j];
                        let m = choose|m: int| 0 <= m < idx@.len() && idx@[m] == f;
                        assert(kv[idx@[m] as int] != kv[i as int]);
                    }
                }
                idx.push(i);
            },
        }
        assert forall|a: int| 0 <= a <= i && is_first_occurrence(kv, a) implies exists|m: int|
            0 <= m < idx@.len() && idx@[m] == a by {
            if a == i {
                assert(idx@[idx@.len() - 1] == a);
            } else {
                let m = choose|m: int| 0 <= m < old_idx.len() && old_idx[m] == a;
                assert(idx@[m] == a);
            }
        }
        i = i + 1;
    }
    idx
}

/// Every text has a first occurrence at or before each of its positions.
pub proof fn lemma_earlier_has_first(kv: Seq<Seq<char>>, j: int)
    requires
        0 <= j < kv.len(),
    ensures
        exists|f: int| 0 <= f <= j && is_first_occurrence(kv, f) && kv[f] == kv[j],
    decreases j,
{
    if !is_first_occurrence(kv, j) {
        let g = choose|g: int| 0 <= g < j && kv[g] == kv[j];
        lemma_earlier_has_first(kv, g);
    } else {
        assert(is_first_occurrence(kv, j) && kv[j] == kv[j]);
    }
}

/// First occurrences hold pairwise different texts.
pub proof fn lemma_first_occurrences_distinct(kv: Seq<Seq<char>>, idx: Seq<usize>)
    requires
        first_occurrences_spec(kv, idx),
    ensures
        distinct_at(kv, idx),
{
    assert forall|i: int, j: int|
        0 <= i < idx.len() && 0 <= j < idx.len() && i != j implies kv[idx[i] as int]
        != kv[idx[j] as int] by {
        if i < j {
            assert(is_first_occurrence(kv, idx[j] as int));
        } else {
            assert(is_first_occurrence(kv, idx[i] as int));
        }
    }
}

/// Are the texts at the positions `idx` pairwise different?
pub open spec fn distinct_at(keys: Seq<Seq<char>>, idx: Seq<usize>) -> bool {
    forall|i: int, j: int|
        0 <= i < idx.len() && 0 <= j < idx.len() && i != j ==> keys[idx[i] as int]
            != keys[idx[j] as int]
}

/// Does `a` hold exactly the elements of `b`?
pub open spec fn same_elements(a: Seq<usize>, b: Seq<usize>) -> bool {
    &&& a.len() == b.len()
    &&& forall|i: int| 0 <= i < a.len() ==> b.contains(a[i])
    &&& forall|i: int| 0 <= i < b.len() ==> a.contains(b[i])
}

/// Orders the positions `idx`, whose texts differ, by their texts.
pub fn sorted_order(keys: &Vec<String>, idx: &Vec<usize>) -> (out: Vec<usize>)
    requires
        forall|i: int| 0 <= i < idx@.len() ==> idx@[i] < keys@.len(),
        distinct_at(keys@.map_values(|s: String| s@), idx@),
    ensures
        same_elements(out@, idx@),
        strictly_sorted(keys@.map_values(|s: String| s@), out@),
{
    let ghost kv = keys@.map_values(|s: String| s@);
    let mut out: Vec<usize> = Vec::new();
    let mut i: usize = 0;
    while i < idx.len()
        invariant
            i <= idx@.len(),
            kv == keys@.map_values(|s: String| s@),
            forall|a: int| 0 <= a < idx@.len() ==> idx@[a] < keys@.len(),
            distinct_at(kv, idx@),
            out@.len() == i,
            forall|a: int| 0 <= a < out@.len() ==> idx@.subrange(0, i as int).contains(out@[a]),
            forall|a: int| 0 <= a < i ==> out@.contains(idx@[a]),
            strictly_sorted(kv, out@),
        decreases idx@.len() - i,
    {
        let x = idx[i];
        let mut p: usize = 0;
        while p < out.len() && !text_before(&keys[x], &keys[out[p]])
            invariant
                p <= out@.len(),
                x < keys@.len(),
                kv == keys@.map_values(|s: String| s@),
                forall|a: int| 0 <= a < out@.len() ==> out@[a] < keys@.len(),
                forall|a: int| 0 <= a < p ==> !text_less(kv[x as int], kv[out@[a] as int]),
            decreases out@.len() - p,
        {
            p = p + 1;
        }
        proof {
            assert forall|a: int| 0 <= a < out@.len() implies kv[out@[a] as int] != kv[x as int] by {
                let b = choose|b: int| 0 <= b < i && idx@[b] == out@[a];
                assert(idx@.subrange(0, i as int)[b] == out@[a]);
            }
        }
        let ghost before = out@;
        out.insert(p, x);
        proof {
            assert forall|a: int, b: int| 0 <= a < b < out@.len() implies text_less(
                kv[out@[a] as int],
                kv[out@[b] as int],
            ) by {
                if a < p && b < p + 1 {
                    if b == p {
                        lemma_text_less_total(kv[before[a] as int], kv[x as int]);
                    }
                } else if a == p {
                    lemma_text_less_order(kv[x as int], kv[before[p as int] as int], kv[before[b - 1] as int]);
                } else if a < p {
                    lemma_text_less_total(kv[before[a] as int], kv[x as int]);
                    lemma_text_less_order(kv[before[a] as int], kv[x as int], kv[before[p as int] as int]);
                    lemma_text_less_order(kv[before[a] as int], kv[before[p as int] as int], kv[before[b - 1] as int]);
                }
            }
            assert forall|a: int| 0 <= a < out@.len() implies idx@.subrange(0, i + 1).contains(out@[a]) by {
                if a == p {
                    assert(idx@.subrange(0, i + 1)[i as int] == x);
                } else {
                    let q = if a < p { a } else { a - 1 };
                    assert(out@[a] == before[q]);
                    let b = choose|b: int| 0 <= b < i && idx@.subrange(0, i as int)[b] == before[q];
                    assert(idx@.subrange(0, i + 1)[b] == before[q]);
                }
            }
            assert forall|a: int| 0 <= a < i + 1 implies out@.contains(idx@[a]) by {
                if a == i {
                    assert(out@[p as int] == x);
                } else {
                    let q = choose|q: int| 0 <= q < before.len() && before[q] == idx@[a];
                    if q < p {
                        assert(out@[q] == idx@[a]);
                    } else {
                        assert(out@[q + 1] == idx@[a]);
                    }
                }
            }
        }
        i = i + 1;
    }
    proof {
        assert(idx@.subrange(0, i as int) =~= idx@);
    }
    out
}

} // verus!
