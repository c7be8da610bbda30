//! Verified helpers over strings: equality, prefix and suffix tests,
//! slicing and concatenation, stated over the `Seq<char>` views.

use vstd::prelude::*;
use vstd::string::{StrSliceExecFns, StringExecFns};

verus! {

/// Whether `needle` occurs contiguously inside `hay`.
pub open spec fn text_contains(hay: Seq<char>, needle: Seq<char>) -> bool {
    exists|i: int|
        0 <= i && i + needle.len() <= hay.len() && #[trigger] hay.subrange(i, i + needle.len())
            == needle
}

/// The middle part of a three-way concatenation occurs in the whole.
pub proof fn lemma_concat_contains_middle(a: Seq<char>, b: Seq<char>, c: Seq<char>)
    ensures
        text_contains(a + b + c, b),
{
    let h = a + b + c;
    assert(h.subrange(a.len() as int, (a.len() + b.len()) as int) =~= b);
}

/// Whether `p` is a prefix of `s`.
pub open spec fn spec_starts_with(s: Seq<char>, p: Seq<char>) -> bool {
    p.len() <= s.len() && s.subrange(0, p.len() as int) == p
}

/// Whether `p` is a suffix of `s`.
pub open spec fn spec_ends_with(s: Seq<char>, p: Seq<char>) -> bool {
    p.len() <= s.len() && s.subrange(s.len() - p.len(), s.len() as int) == p
}

/// Character-for-character string equality.
pub fn str_eq(a: &str, b: &str) -> (r: bool)
    ensures
        r == (a@ == b@),
{
    let a_len = a.unicode_len();
    let b_len = b.unicode_len();
    if a_len != b_len {
        return false;
    }
    let mut i: usize = 0;
    while i < a_len
        invariant
            i <= a_len,
            a_len == a@.len(),
            b_len == b@.len(),
            a_len == b_len,
            forall|j: int| 0 <= j < i ==> a@[j] == b@[j],
        decreases a_len - i,
    {
        if a.get_char(i) != b.get_char(i) {
            assert(a@[i as int] != b@[i as int]);
            return false;
        }
        i = i + 1;
    }
    proof {
        assert(a@ =~= b@);
    }
    true
}

/// Whether `p` is a prefix of `s`.
pub fn str_starts_with(s: &str, p: &str) -> (r: bool)
    ensures
        r == spec_starts_with(s@, p@),
{
    let s_len = s.unicode_len();
    let p_len = p.unicode_len();
    if p_len > s_len {
        return false;
    }
    let head = s.substring_char(0, p_len);
    str_eq(head, p)
}

/// Whether `p` is a suffix of `s`.
pub fn str_ends_with(s: &str, p: &str) -> (r: bool)
    ensures
        r == spec_ends_with(s@, p@),
{
    let s_len = s.unicode_len();
    let p_len = p.unicode_len();
    if p_len > s_len {
        return false;
    }
    let tail = s.substring_char(s_len - p_len, s_len);
    str_eq(tail, p)
}

/// An owned copy of the characters of `s` from `from` (inclusive) to `to`
/// (exclusive).
pub fn str_slice(s: &str, from: usize, to: usize) -> (r: String)
    requires
        from <= to <= s@.len(),
    ensures
        r@ == s@.subrange(from as int, to as int),
{
    String::from_str(s.substring_char(from, to))
}

/// The concatenation of two strings.
pub fn str_concat(a: &str, b: &str) -> (r: String)
    ensures
        r@ == a@ + b@,
{
    let mut r = String::from_str(a);
    r.append(b);
    r
}

/// The concatenation of three strings.
pub fn str_concat3(a: &str, b: &str, c: &str) -> (r: String)
    ensures
        r@ == a@ + b@ + c@,
{
    let mut r = String::from_str(a);
    r.append(b);
    r.append(c);
    r
}

/// The number of characters of `s`, as a machine word.
pub fn str_len(s: &str) -> (r: usize)
    ensures
        r == s@.len(),
{
    s.unicode_len()
}

/// An owned copy of `s`.
pub fn str_copy(s: &str) -> (r: String)
    ensures
        r@ == s@,
{
    String::from_str(s)
}

/// Lexicographic order on character sequences, by code point, the order in
/// which an ordered map keyed by these names iterates.
pub open spec fn lex_leq(a: Seq<char>, b: Seq<char>) -> bool
    decreases a.len(),
{
    if a.len() == 0 {
        true
    } else if b.len() == 0 {
        false
    } else if (a[0] as u32) < (b[0] as u32) {
        true
    } else if (a[0] as u32) > (b[0] as u32) {
        false
    } else {
        lex_leq(a.drop_first(), b.drop_first())
    }
}

/// `n` inserted into `ns` before the first entry it precedes or equals.
pub open spec fn insert_name(n: Seq<char>, ns: Seq<Seq<char>>) -> Seq<Seq<char>>
    decreases ns.len(),
{
    if ns.len() == 0 {
        seq![n]
    } else if lex_leq(n, ns[0]) {
        seq![n] + ns
    } else {
        seq![ns[0]] + insert_name(n, ns.drop_first())
    }
}

/// The names of `ns` in ascending lexicographic order.
pub open spec fn sort_names(ns: Seq<Seq<char>>) -> Seq<Seq<char>>
    decreases ns.len(),
{
    if ns.len() == 0 {
        Seq::empty()
    } else {
        insert_name(ns[0], sort_names(ns.drop_first()))
    }
}

/// `insert_name` places `n` exactly at the first index it precedes.
pub proof fn lemma_insert_name_at(n: Seq<char>, ns: Seq<Seq<char>>, idx: int)
    requires
        0 <= idx <= ns.len(),
        forall|j: int| 0 <= j < idx ==> !lex_leq(n, #[trigger] ns[j]),
        idx < ns.len() ==> lex_leq(n, ns[idx]),
    ensures
        insert_name(n, ns) == ns.take(idx) + seq![n] + ns.skip(idx),
    decreases ns.len(),
{
    if ns.len() == 0 {
        assert(insert_name(n, ns) =~= ns.take(idx) + seq![n] + ns.skip(idx));
    } else if lex_leq(n, ns[0]) {
        assert(idx == 0);
        assert(insert_name(n, ns) =~= ns.take(0) + seq![n] + ns.skip(0));
    } else {
        assert(idx >= 1);
        lemma_insert_name_at(n, ns.drop_first(), idx - 1);
        assert forall|j: int| 0 <= j < idx - 1 implies !lex_leq(
            n,
            #[trigger] ns.drop_first()[j],
        ) by {
            assert(ns.drop_first()[j] == ns[j + 1]);
        }
        assert(idx - 1 < ns.drop_first().len() ==> lex_leq(n, ns.drop_first()[idx - 1]));
        assert(insert_name(n, ns) =~= ns.take(idx) + seq![n] + ns.skip(idx));
    }
}

/// `insert_name` holds exactly the old entries and the new one.
pub proof fn lemma_insert_name_contains(n: Seq<char>, ns: Seq<Seq<char>>, x: Seq<char>)
    ensures
        insert_name(n, ns).contains(x) <==> (x == n || ns.contains(x)),
    decreases ns.len(),
{
    if ns.len() != 0 && !lex_leq(n, ns[0]) {
        lemma_insert_name_contains(n, ns.drop_first(), x);
        let whole = insert_name(n, ns);
        let rest = insert_name(n, ns.drop_first());
        if whole.contains(x) {
            let q = choose|q: int| 0 <= q < whole.len() && whole[q] == x;
            if q > 0 {
                assert(rest[q - 1] == x);
                assert(rest.contains(x));
                if !(x == n) {
                    let w = choose|w: int|
                        0 <= w < ns.drop_first().len() && ns.drop_first()[w] == x;
                    assert(ns[w + 1] == x);
                }
            }
        }
        if x == n || ns.contains(x) {
            if x == ns[0] {
                assert(whole[0] == x);
            } else {
                if ns.contains(x) && x != ns[0] {
                    let w = choose|w: int| 0 <= w < ns.len() && ns[w] == x;
                    assert(ns.drop_first()[w - 1] == x);
                }
                assert(rest.contains(x));
                let q = choose|q: int| 0 <= q < rest.len() && rest[q] == x;
                assert(whole[q + 1] == x);
            }
        }
    } else if ns.len() != 0 {
        let whole = seq![n] + ns;
        if whole.contains(x) {
            let q = choose|q: int| 0 <= q < whole.len() && whole[q] == x;
            if q > 0 {
                assert(ns[q - 1] == x);
            }
        }
        if x == n {
            assert(whole[0] == x);
        }
        if ns.contains(x) {
            let w = choose|w: int| 0 <= w < ns.len() && ns[w] == x;
            assert(whole[w + 1] == x);
        }
    } else {
        if insert_name(n, ns).contains(x) {
            let q = choose|q: int| 0 <= q < seq![n].len() && seq![n][q] == x;
        }
        if x == n {
            assert(insert_name(n, ns)[0] == x);
        }
    }
}

/// `sort_names` holds exactly the names of `ns`.
pub proof fn lemma_sort_names_contains(ns: Seq<Seq<char>>, x: Seq<char>)
    ensures
        sort_names(ns).contains(x) <==> ns.contains(x),
    decreases ns.len(),
{
    if ns.len() != 0 {
        lemma_sort_names_contains(ns.drop_first(), x);
        lemma_insert_name_contains(ns[0], sort_names(ns.drop_first()), x);
        if ns.drop_first().contains(x) {
            let w = choose|w: int| 0 <= w < ns.drop_first().len() && ns.drop_first()[w] == x;
            assert(ns[w + 1] == x);
        }
        if ns.contains(x) && x != ns[0] {
            let w = choose|w: int| 0 <= w < ns.len() && ns[w] == x;
            assert(ns.drop_first()[w - 1] == x);
        }
    }
}

/// Whether `a` precedes or equals `b` in lexicographic order.
pub fn str_lex_leq(a: &str, b: &str) -> (r: bool)
    ensures
        r == lex_leq(a@, b@),
{
    let la = a.unicode_len();
    let lb = b.unicode_len();
    proof {
        assert(a@.skip(0) =~= a@);
        assert(b@.skip(0) =~= b@);
    }
    let mut i: usize = 0;
    while i < la && i < lb
        invariant
            i <= la,
            i <= lb,
            la == a@.len(),
            lb == b@.len(),
            lex_leq(a@, b@) == lex_leq(a@.skip(i as int), b@.skip(i as int)),
        decreases la - i,
    {
        let ca = a.get_char(i);
        let cb = b.get_char(i);
        proof {
            assert(a@.skip(i as int)[0] == a@[i as int]);
            assert(b@.skip(i as int)[0] == b@[i as int]);
        }
        if (ca as u32) < (cb as u32) {
            return true;
        }
        if (ca as u32) > (cb as u32) {
            return false;
        }
        proof {
            assert(a@.skip(i as int).drop_first() =~= a@.skip(i as int + 1));
            assert(b@.skip(i as int).drop_first() =~= b@.skip(i as int + 1));
        }
        i = i + 1;
    }
    proof {
        if i == la {
            assert(a@.skip(i as int).len() == 0);
        } else {
            assert(b@.skip(i as int).len() == 0);
            assert(a@.skip(i as int).len() > 0);
        }
    }
    la <= lb
}

/// The decimal digit character of `d`.
pub open spec fn spec_digit(d: int) -> char {
    if d == 0 {
        '0'
    } else if d == 1 {
        '1'
    } else if d == 2 {
        '2'
    } else if d == 3 {
        '3'
    } else if d == 4 {
        '4'
    } else if d == 5 {
        '5'
    } else if d == 6 {
        '6'
    } else if d == 7 {
        '7'
    } else if d == 8 {
        '8'
    } else {
        '9'
    }
}

/// The decimal text of a non-negative number.
pub open spec fn spec_decimal(n: int) -> Seq<char>
    decreases n,
{
    if n < 10 {
        seq![spec_digit(n)]
    } else {
        spec_decimal(n / 10).push(spec_digit(n % 10))
    }
}

/// The decimal digit of `d` as text.
fn digit_str(d: u16) -> (r: &'static str)
    requires
        d < 10,
    ensures
        r@ =~= seq![spec_digit(d as int)],
{
    proof {
        reveal_strlit("0");
        reveal_strlit("1");
        reveal_strlit("2");
        reveal_strlit("3");
        reveal_strlit("4");
        reveal_strlit("5");
        reveal_strlit("6");
        reveal_strlit("7");
        reveal_strlit("8");
        reveal_strlit("9");
    }
    match d {
        0 => "0",
        1 => "1",
        2 => "2",
        3 => "3",
        4 => "4",
        5 => "5",
        6 => "6",
        7 => "7",
        8 => "8",
        _ => "9",
    }
}

/// The decimal text of `n`.
pub fn decimal_string(n: u16) -> (r: String)
    ensures
        r@ == spec_decimal(n as int),
    decreases n,
{
    if n < 10 {
        let r = str_copy(digit_str(n));
        proof {
            assert(r@ =~= spec_decimal(n as int));
        }
        r
    } else {
        let mut r = decimal_string(n / 10);
        r.append(digit_str(n % 10));
        proof {
            assert(r@ =~= spec_decimal(n as int));
        }
        r
    }
}

} // verus!
