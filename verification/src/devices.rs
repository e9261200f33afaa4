//! Ordering of input-device listings. The platform layer enumerates the
//! host's input devices and their names; the sort that puts them into
//! non-decreasing lexicographic name order is verified here.

use vstd::prelude::*;
use vstd::seq_lib::group_to_multiset_ensures;

verus! {

/// Lexicographic order on character sequences, by code point: the empty
/// sequence comes first, and otherwise the first differing position decides.
pub open spec fn chars_le(a: Seq<char>, b: Seq<char>) -> bool
    decreases a.len(),
{
    if a.len() == 0 {
        true
    } else if b.len() == 0 {
        false
    } else if (a[0] as u32) < (b[0] as u32) {
        true
    } else if (b[0] as u32) < (a[0] as u32) {
        false
    } else {
        chars_le(a.skip(1), b.skip(1))
    }
}

/// The lexicographic order is total.
pub proof fn lemma_chars_le_total(a: Seq<char>, b: Seq<char>)
    ensures
        chars_le(a, b) || chars_le(b, a),
    decreases a.len(),
{
    if a.len() > 0 && b.len() > 0 && a[0] as u32 == b[0] as u32 {
        lemma_chars_le_total(a.skip(1), b.skip(1));
    }
}

/// The lexicographic order is transitive.
pub proof fn lemma_chars_le_trans(a: Seq<char>, b: Seq<char>, c: Seq<char>)
    requires
        chars_le(a, b),
        chars_le(b, c),
    ensures
        chars_le(a, c),
    decreases a.len(),
{
    if a.len() > 0 && b.len() > 0 && c.len() > 0 && a[0] as u32 == b[0] as u32 && b[0] as u32
        == c[0] as u32 {
        lemma_chars_le_trans(a.skip(1), b.skip(1), c.skip(1));
    }
}

/// Equal prefixes do not decide the order: it is settled past them.
proof fn lemma_chars_le_skip(a: Seq<char>, b: Seq<char>, i: int)
    requires
        0 <= i <= a.len(),
        i <= b.len(),
        forall|j: int| 0 <= j < i ==> a[j] == b[j],
    ensures
        chars_le(a, b) == chars_le(a.skip(i), b.skip(i)),
    decreases i,
{
    if i == 0 {
        assert(a.skip(0) =~= a);
        assert(b.skip(0) =~= b);
    } else {
        assert(a[0] == b[0]);
        lemma_chars_le_skip(a.skip(1), b.skip(1), i - 1);
        assert(a.skip(1).skip(i - 1) =~= a.skip(i));
        assert(b.skip(1).skip(i - 1) =~= b.skip(i));
    }
}

/// Compares two strings in lexicographic code-point order.
pub fn str_le(a: &str, b: &str) -> (r: bool)
    ensures
        r == chars_le(a@, b@),
{
    let na = a.unicode_len();
    let nb = b.unicode_len();
    let mut i: usize = 0;
    while i < na && i < nb
        invariant
            i <= na,
            i <= nb,
            na == a@.len(),
            nb == b@.len(),
            forall|j: int| 0 <= j < i ==> a@[j] == b@[j],
        decreases na - i,
    {
        let ca = a.get_char(i);
        let cb = b.get_char(i);
        if (ca as u32) < (cb as u32) {
            proof {
                lemma_chars_le_skip(a@, b@, i as int);
            }
            return true;
        }
        if (cb as u32) < (ca as u32) {
            proof {
                lemma_chars_le_skip(a@, b@, i as int);
            }
            return false;
        }
        i = i + 1;
    }
    proof {
        lemma_chars_le_skip(a@, b@, i as int);
    }
    na <= nb
}

/// A device listing in non-decreasing lexicographic order of device names.
pub open spec fn sorted_by_name<T>(s: Seq<(String, T)>) -> bool {
    forall|i: int, j: int| 0 <= i < j < s.len() ==> chars_le(s[i].0@, s[j].0@)
}

/// Whether the name at position `i` comes at or before the name at `j`.
fn name_le_at<T>(devs: &Vec<(String, T)>, i: usize, j: usize) -> (r: bool)
    requires
        i < devs@.len(),
        j < devs@.len(),
    ensures
        r == chars_le(devs@[i as int].0@, devs@[j as int].0@),
{
    str_le(devs[i].0.as_str(), devs[j].0.as_str())
}

/// Sorts a device listing by device name, into non-decreasing lexicographic
/// order. The result holds exactly the entries that went in.
pub fn sort_by_name<T>(devs: Vec<(String, T)>) -> (sorted: Vec<(String, T)>)
    ensures
        sorted_by_name(sorted@),
        sorted@.to_multiset() == devs@.to_multiset(),
        sorted@.len() == devs@.len(),
{
    broadcast use group_to_multiset_ensures;

    let ghost orig = devs@;
    let mut rest = devs;
    let mut sorted: Vec<(String, T)> = Vec::new();
    while rest.len() > 0
        invariant
            sorted_by_name(sorted@),
            sorted@.to_multiset().add(rest@.to_multiset()) =~= orig.to_multiset(),
            sorted@.len() + rest@.len() == orig.len(),
            forall|k: int, l: int|
                0 <= k < sorted@.len() && 0 <= l < rest@.len() ==> chars_le(
                    sorted@[k].0@,
                    rest@[l].0@,
                ),
        decreases rest@.len(),
    {
        let mut m: usize = 0;
        let mut l: usize = 1;
        proof {
            lemma_chars_le_total(rest@[0].0@, rest@[0].0@);
        }
        while l < rest.len()
            invariant
                m < l <= rest@.len(),
                forall|k: int| 0 <= k < l ==> chars_le(rest@[m as int].0@, rest@[k].0@),
            decreases rest@.len() - l,
        {
            if !name_le_at(&rest, m, l) {
                proof {
                    lemma_chars_le_total(rest@[m as int].0@, rest@[l as int].0@);
                    assert forall|k: int| 0 <= k < l + 1 implies chars_le(
                        rest@[l as int].0@,
                        rest@[k].0@,
                    ) by {
                        if k < l {
                            lemma_chars_le_trans(rest@[l as int].0@, rest@[m as int].0@, rest@[k].0@);
                        } else {
                            lemma_chars_le_total(rest@[k].0@, rest@[k].0@);
                        }
                    }
                }
                m = l;
            }
            l = l + 1;
        }
        let ghost rest_before = rest@;
        let ghost sorted_before = sorted@;
        let picked = rest.remove(m);
        sorted.push(picked);
        proof {
            rest_before.to_multiset_ensures();
            sorted_before.to_multiset_ensures();
            assert(rest@.to_multiset() =~= rest_before.remove(m as int).to_multiset());
            assert(rest_before.remove(m as int).to_multiset() =~= rest_before.to_multiset().remove(
                rest_before[m as int],
            ));
            assert(sorted@.to_multiset() =~= sorted_before.push(picked).to_multiset());
            assert(rest_before.contains(rest_before[m as int]));
            assert(rest_before.to_multiset().count(rest_before[m as int]) > 0);
            assert(sorted@.to_multiset().add(rest@.to_multiset()) =~= orig.to_multiset());
            assert forall|k: int, ll: int|
                0 <= k < sorted@.len() && 0 <= ll < rest@.len() implies chars_le(
                sorted@[k].0@,
                rest@[ll].0@,
            ) by {
                let moved = if ll < m { ll } else { ll + 1 };
                assert(rest@[ll] == rest_before[moved]);
                if k < sorted_before.len() {
                    assert(chars_le(sorted@[k].0@, rest_before[moved].0@));
                } else {
                    assert(sorted@[k] == picked);
                    assert(chars_le(picked.0@, rest_before[moved].0@));
                }
            }
            assert forall|i: int, j: int|
                0 <= i < j < sorted@.len() implies chars_le(sorted@[i].0@, sorted@[j].0@) by {
                if j == sorted@.len() - 1 {
                    assert(chars_le(sorted_before[i].0@, rest_before[m as int].0@));
                }
            }
        }
    }
    sorted
}

} // verus!
