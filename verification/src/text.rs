//! Small verified helpers on strings.

use vstd::prelude::*;
use vstd::utf8::encode_utf8;
use vstd::utf8::encode_utf8_decode_utf8;

verus! {

/// The character that shows the digit `d`.
pub open spec fn digit_char(d: nat) -> char {
    if d == 0 {
        '0'
    } else if d == 1 {
        '1'
    } else if d == 2 {
        '2'
    } else if d == 3 {
        '3'
    } else if d == 4 {
        '4'
    } else if d == 5 {
        '5'
    } else if d == 6 {
        '6'
    } else if d == 7 {
        '7'
    } else if d == 8 {
        '8'
    } else {
        '9'
    }
}

/// The decimal digits of `n`, most significant first, without leading zeros.
pub open spec fn decimal_digits(n: nat) -> Seq<char>
    decreases n,
{
    if n < 10 {
        seq![digit_char(n)]
    } else {
        decimal_digits(n / 10).push(digit_char(n % 10))
    }
}

/// The one-character text of the digit `d`.
fn digit_text(d: u64) -> (s: &'static str)
    requires
        d < 10,
    ensures
        s@ == seq![digit_char(d as nat)],
{
    proof {
        reveal_strlit("0");
        reveal_strlit("1");
        reveal_strlit("2");
        reveal_strlit("3");
        reveal_strlit("4");
        reveal_strlit("5");
        reveal_strlit("6");
        reveal_strlit("7");
        reveal_strlit("8");
        reveal_strlit("9");
    }
    let s = if d == 0 {
        "0"
    } else if d == 1 {
        "1"
    } else if d == 2 {
        "2"
    } else if d == 3 {
        "3"
    } else if d == 4 {
        "4"
    } else if d == 5 {
        "5"
    } else if d == 6 {
        "6"
    } else if d == 7 {
        "7"
    } else if d == 8 {
        "8"
    } else {
        "9"
    };
    assert(s@ =~= seq![digit_char(d as nat)]);
    s
}

/// Appends the decimal text of `n` to `out`.
pub fn push_decimal(out: &mut String, n: u64)
    ensures
        final(out)@ == old(out)@ + decimal_digits(n as nat),
    decreases n,
{
    if n >= 10 {
        push_decimal(out, n / 10);
        out.append(digit_text(n % 10));
        assert(out@ =~= old(out)@ + decimal_digits(n as nat));
    } else {
        out.append(digit_text(n));
    }
}

/// The character that shows the hexadecimal digit `d`, in lower case.
pub open spec fn hex_char(d: nat) -> char {
    if d < 10 {
        digit_char(d)
    } else if d == 10 {
        'a'
    } else if d == 11 {
        'b'
    } else if d == 12 {
        'c'
    } else if d == 13 {
        'd'
    } else if d == 14 {
        'e'
    } else {
        'f'
    }
}

/// The hexadecimal digits of `n` in lower case, most significant first,
/// without leading zeros.
pub open spec fn hex_digits(n: nat) -> Seq<char>
    decreases n,
{
    if n < 16 {
        seq![hex_char(n)]
    } else {
        hex_digits(n / 16).push(hex_char(n % 16))
    }
}

/// The one-character text of the hexadecimal digit `d`.
fn hex_text(d: u128) -> (s: &'static str)
    requires
        d < 16,
    ensures
        s@ == seq![hex_char(d as nat)],
{
    if d < 10 {
        digit_text(d as u64)
    } else {
        proof {
            reveal_strlit("a");
            reveal_strlit("b");
            reveal_strlit("c");
            reveal_strlit("d");
            reveal_strlit("e");
            reveal_strlit("f");
        }
        let s = if d == 10 {
            "a"
        } else if d == 11 {
            "b"
        } else if d == 12 {
            "c"
        } else if d == 13 {
            "d"
        } else if d == 14 {
            "e"
        } else {
            "f"
        };
        assert(s@ =~= seq![hex_char(d as nat)]);
        s
    }
}

/// Appends the lower-case hexadecimal text of `n` to `out`.
pub fn push_hex(out: &mut String, n: u128)
    ensures
        final(out)@ == old(out)@ + hex_digits(n as nat),
    decreases n,
{
    if n >= 16 {
        push_hex(out, n / 16);
        out.append(hex_text(n % 16));
        assert(out@ =~= old(out)@ + hex_digits(n as nat));
    } else {
        out.append(hex_text(n));
    }
}

/// Two character sequences with the same UTF-8 encoding are the same sequence.
pub proof fn lemma_utf8_injective(a: Seq<char>, b: Seq<char>)
    requires
        encode_utf8(a) == encode_utf8(b),
    ensures
        a == b,
{
    encode_utf8_decode_utf8(a);
    encode_utf8_decode_utf8(b);
}

/// Compares two strings by content.
pub fn same_text(a: &str, b: &str) -> (same: bool)
    ensures
        same == (a@ == b@),
{
    let x = a.as_bytes();
    let y = b.as_bytes();
    if x.len() != y.len() {
        return false;
    }
    let mut i: usize = 0;
    while i < x.len()
        invariant
            x.len() == y.len(),
            x@ == encode_utf8(a@),
            y@ == encode_utf8(b@),
            i <= x.len(),
            forall|k: int| 0 <= k < i ==> x@[k] == y@[k],
        decreases x.len() - i,
    {
        if x[i] != y[i] {
            return false;
        }
        i += 1;
    }
    proof {
        assert(x@ =~= y@);
        lemma_utf8_injective(a@, b@);
    }
    true
}

/// The character contents of a list of strings, in order.
pub open spec fn texts(items: Seq<String>) -> Seq<Seq<char>> {
    Seq::new(items.len(), |i: int| items[i]@)
}

/// Finds `wanted` in `items`: the first position that holds it, if any.
pub fn find_text(items: &Vec<String>, wanted: &str) -> (found: Option<usize>)
    ensures
        match found {
            Some(i) => i < items.len() && items[i as int]@ == wanted@ && forall|k: int|
                0 <= k < i ==> items[k]@ != wanted@,
            None => !texts(items@).contains(wanted@),
        },
{
    let mut i: usize = 0;
    while i < items.len()
        invariant
            i <= items.len(),
            forall|k: int| 0 <= k < i ==> items[k]@ != wanted@,
        decreases items.len() - i,
    {
        if same_text(items[i].as_str(), wanted) {
            return Some(i);
        }
        i += 1;
    }
    proof {
        let t = texts(items@);
        assert forall|k: int| 0 <= k < t.len() implies t[k] != wanted@ by {
            assert(t[k] == items[k]@);
        }
    }
    None
}

/// Whether `i` is the first position of `s` that holds `v`.
pub open spec fn is_first_at(s: Seq<Seq<char>>, v: Seq<char>, i: int) -> bool {
    &&& 0 <= i < s.len()
    &&& s[i] == v
    &&& forall|k: int| 0 <= k < i ==> s[k] != v
}

/// The list `s` without the first occurrence of `v`; `s` itself when `v` does
/// not occur.
pub open spec fn without(s: Seq<Seq<char>>, v: Seq<char>) -> Seq<Seq<char>> {
    if s.contains(v) {
        s.remove(choose|i: int| is_first_at(s, v, i))
    } else {
        s
    }
}

/// The list `s` with `v` added at the end unless it occurs already.
pub open spec fn with_text(s: Seq<Seq<char>>, v: Seq<char>) -> Seq<Seq<char>> {
    if s.contains(v) {
        s
    } else {
        s.push(v)
    }
}

/// There is exactly one first position of a value in a list.
pub proof fn lemma_first_position_unique(s: Seq<Seq<char>>, v: Seq<char>, i: int, j: int)
    requires
        is_first_at(s, v, i),
        is_first_at(s, v, j),
    ensures
        i == j,
{
    if i < j {
        assert(s[i] != v);
    } else if j < i {
        assert(s[j] != v);
    }
}

/// Removing a value from a duplicate-free list removes exactly that value:
/// the rest stays, in order and duplicate-free.
pub proof fn lemma_without(s: Seq<Seq<char>>, v: Seq<char>)
    requires
        s.no_duplicates(),
    ensures
        without(s, v).no_duplicates(),
        !without(s, v).contains(v),
        forall|x: Seq<char>| #[trigger] without(s, v).contains(x) <==> s.contains(x) && x != v,
        without(s, v).len() == if s.contains(v) { s.len() - 1 } else { s.len() as int },
{
    if s.contains(v) {
        let j = choose|j: int| 0 <= j < s.len() && s[j] == v;
        assert(is_first_at(s, v, j)) by {
            assert forall|k: int| 0 <= k < j implies s[k] != v by {
                if s[k] == v {
                    assert(s[k] == s[j]);
                }
            }
        }
        let i = choose|i: int| is_first_at(s, v, i);
        let r = s.remove(i);
        assert(r == without(s, v));
        assert forall|a: int, b: int| 0 <= a < r.len() && 0 <= b < r.len() && a != b implies r[a]
            != r[b] by {
            let a2 = if a < i { a } else { a + 1 };
            let b2 = if b < i { b } else { b + 1 };
            assert(r[a] == s[a2] && r[b] == s[b2]);
        }
        assert forall|x: Seq<char>| #[trigger] r.contains(x) <==> s.contains(x) && x != v by {
            if r.contains(x) {
                let k = choose|k: int| 0 <= k < r.len() && r[k] == x;
                let k2 = if k < i { k } else { k + 1 };
                assert(s[k2] == x);
                assert(k2 != i);
                if x == v {
                    assert(s[k2] == s[i]);
                }
            }
            if s.contains(x) && x != v {
                let k = choose|k: int| 0 <= k < s.len() && s[k] == x;
                assert(k != i);
                let k2 = if k < i { k } else { k - 1 };
                assert(r[k2] == x);
            }
        }
    } else {
        assert(without(s, v) == s);
    }
}

/// Adding a value to a duplicate-free list keeps it duplicate-free and adds
/// exactly that value.
pub proof fn lemma_with_text(s: Seq<Seq<char>>, v: Seq<char>)
    requires
        s.no_duplicates(),
    ensures
        with_text(s, v).no_duplicates(),
        with_text(s, v).contains(v),
        forall|x: Seq<char>| #[trigger] with_text(s, v).contains(x) <==> s.contains(x) || x == v,
        with_text(s, v).len() == if s.contains(v) { s.len() } else { s.len() + 1 },
{
    if !s.contains(v) {
        let r = s.push(v);
        assert(r[s.len() as int] == v);
        assert forall|a: int, b: int| 0 <= a < r.len() && 0 <= b < r.len() && a != b implies r[a]
            != r[b] by {
            if a == s.len() {
                assert(s[b] == r[b]);
            } else if b == s.len() {
                assert(s[a] == r[a]);
            } else {
                assert(s[a] == r[a] && s[b] == r[b]);
            }
        }
        assert forall|x: Seq<char>| #[trigger] r.contains(x) <==> s.contains(x) || x == v by {
            if r.contains(x) {
                let k = choose|k: int| 0 <= k < r.len() && r[k] == x;
                if k < s.len() {
                    assert(s[k] == x);
                }
            }
            if s.contains(x) {
                let k = choose|k: int| 0 <= k < s.len() && s[k] == x;
                assert(r[k] == x);
            }
        }
    } else {
        let k = choose|k: int| 0 <= k < s.len() && s[k] == v;
        assert(s[k] == v);
    }
}

/// Adds a copy of `text` to `items` unless a string with that content is
/// there already; tells whether it was added.
pub fn insert_text(items: &mut Vec<String>, text: &str) -> (added: bool)
    ensures
        added == !texts(old(items)@).contains(text@),
        texts(final(items)@) == with_text(texts(old(items)@), text@),
{
    match find_text(items, text) {
        Some(i) => {
            proof {
                assert(texts(items@)[i as int] == text@);
            }
            false
        },
        None => {
            items.push(text.to_owned());
            assert(texts(items@) =~= texts(old(items)@).push(text@));
            true
        },
    }
}

/// Removes the first string with the content of `text` from `items`; tells
/// whether there was one.
pub fn remove_text(items: &mut Vec<String>, text: &str) -> (removed: bool)
    ensures
        removed == texts(old(items)@).contains(text@),
        texts(final(items)@) == without(texts(old(items)@), text@),
{
    match find_text(items, text) {
        Some(i) => {
            let ghost before = texts(items@);
            proof {
                assert(before[i as int] == text@);
                assert(is_first_at(before, text@, i as int)) by {
                    assert forall|k: int| 0 <= k < i implies before[k] != text@ by {
                        assert(before[k] == items[k]@);
                    }
                }
                let j = choose|j: int| is_first_at(before, text@, j);
                lemma_first_position_unique(before, text@, i as int, j);
            }
            let _ = items.remove(i);
            assert(texts(items@) =~= before.remove(i as int));
            true
        },
        None => false,
    }
}

/// A copy of a list of strings, with the same contents in the same order.
pub fn copy_texts(items: &Vec<String>) -> (copy: Vec<String>)
    ensures
        texts(copy@) == texts(items@),
{
    let mut copy: Vec<String> = Vec::new();
    let mut i: usize = 0;
    while i < items.len()
        invariant
            i <= items.len(),
            copy.len() == i,
            forall|k: int| 0 <= k < i ==> copy[k]@ == items[k]@,
        decreases items.len() - i,
    {
        copy.push(items[i].clone());
        i += 1;
    }
    assert(texts(copy@) =~= texts(items@));
    copy
}

} // verus!
