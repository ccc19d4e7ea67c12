//! Verified character-level utilities: equality, lexicographic order,
//! ASCII case folding, substring search and decimal rendering.
use vstd::prelude::*;

verus! {

/// The view of a list of strings.
pub open spec fn strings_view(s: Seq<String>) -> Seq<Seq<char>> {
    Seq::new(s.len(), |i: int| if 0 <= i < s.len() { s[i]@ } else { Seq::empty() })
}

/// Character-wise equality of two string slices.
pub fn str_eq(a: &str, b: &str) -> (r: bool)
    ensures
        r == (a@ == b@),
{
    let la = a.unicode_len();
    let lb = b.unicode_len();
    if la != lb {
        assert(a@ != b@) by {
            assert(a@.len() != b@.len());
        }
        return false;
    }
    for i in 0..la
        invariant
            la == a@.len(),
            la == b@.len(),
            forall|k: int| 0 <= k < i ==> a@[k] == b@[k],
    {
        if a.get_char(i) != b.get_char(i) {
            return false;
        }
    }
    assert(a@ =~= b@);
    true
}

/// ASCII lower-casing of one character; anything outside `A..Z` is unchanged.
pub open spec fn lower_char(c: char) -> char {
    if c == 'A' { 'a' } else if c == 'B' { 'b' } else if c == 'C' { 'c' }
    else if c == 'D' { 'd' } else if c == 'E' { 'e' } else if c == 'F' { 'f' }
    else if c == 'G' { 'g' } else if c == 'H' { 'h' } else if c == 'I' { 'i' }
    else if c == 'J' { 'j' } else if c == 'K' { 'k' } else if c == 'L' { 'l' }
    else if c == 'M' { 'm' } else if c == 'N' { 'n' } else if c == 'O' { 'o' }
    else if c == 'P' { 'p' } else if c == 'Q' { 'q' } else if c == 'R' { 'r' }
    else if c == 'S' { 's' } else if c == 'T' { 't' } else if c == 'U' { 'u' }
    else if c == 'V' { 'v' } else if c == 'W' { 'w' } else if c == 'X' { 'x' }
    else if c == 'Y' { 'y' } else if c == 'Z' { 'z' } else { c }
}

/// ASCII lower-casing of a character sequence.
pub open spec fn lower_ascii(s: Seq<char>) -> Seq<char> {
    Seq::new(s.len(), |i: int| lower_char(s[i]))
}

fn lower_char_exec(c: char) -> (r: char)
    ensures
        r == lower_char(c),
{
    if c == 'A' { 'a' } else if c == 'B' { 'b' } else if c == 'C' { 'c' }
    else if c == 'D' { 'd' } else if c == 'E' { 'e' } else if c == 'F' { 'f' }
    else if c == 'G' { 'g' } else if c == 'H' { 'h' } else if c == 'I' { 'i' }
    else if c == 'J' { 'j' } else if c == 'K' { 'k' } else if c == 'L' { 'l' }
    else if c == 'M' { 'm' } else if c == 'N' { 'n' } else if c == 'O' { 'o' }
    else if c == 'P' { 'p' } else if c == 'Q' { 'q' } else if c == 'R' { 'r' }
    else if c == 'S' { 's' } else if c == 'T' { 't' } else if c == 'U' { 'u' }
    else if c == 'V' { 'v' } else if c == 'W' { 'w' } else if c == 'X' { 'x' }
    else if c == 'Y' { 'y' } else if c == 'Z' { 'z' } else { c }
}

/// Does `s`, lower-cased ASCII-wise, equal `lit`?
pub fn eq_ignore_case(s: &str, lit: &str) -> (r: bool)
    ensures
        r == (lower_ascii(s@) == lit@),
{
    let ls = s.unicode_len();
    let ll = lit.unicode_len();
    if ls != ll {
        assert(lower_ascii(s@).len() != lit@.len());
        return false;
    }
    for i in 0..ls
        invariant
            ls == s@.len(),
            ls == lit@.len(),
            forall|k: int| 0 <= k < i ==> lower_char(s@[k]) == lit@[k],
    {
        if lower_char_exec(s.get_char(i)) != lit.get_char(i) {
            assert(lower_ascii(s@)[i as int] != lit@[i as int]);
            return false;
        }
    }
    assert(lower_ascii(s@) =~= lit@);
    true
}

/// Strict lexicographic order on character sequences, by code point.
pub open spec fn lex_lt(a: Seq<char>, b: Seq<char>) -> bool
    decreases a.len(),
{
    if b.len() == 0 {
        false
    } else if a.len() == 0 {
        true
    } else if (a[0] as int) < (b[0] as int) {
        true
    } else if (a[0] as int) > (b[0] as int) {
        false
    } else {
        lex_lt(a.drop_first(), b.drop_first())
    }
}

/// `lex_lt` is a strict total order: exactly one of `a < b`, `a == b`, `b < a`.
pub proof fn lemma_lex_trichotomy(a: Seq<char>, b: Seq<char>)
    ensures
        lex_lt(a, b) || lex_lt(b, a) || a == b,
        lex_lt(a, b) ==> !lex_lt(b, a) && a != b,
        lex_lt(b, a) ==> !lex_lt(a, b) && a != b,
    decreases a.len(),
{
    if a.len() == 0 && b.len() == 0 {
        assert(a =~= b);
    } else if a.len() != 0 && b.len() != 0 && a[0] == b[0] {
        lemma_lex_trichotomy(a.drop_first(), b.drop_first());
        if a.drop_first() == b.drop_first() {
            assert(a =~= b) by {
                assert(forall|i: int| 1 <= i < a.len() ==> a[i] == a.drop_first()[i - 1]);
            }
        }
        if a == b {
            assert(a.drop_first() =~= b.drop_first());
        }
    } else {
        if a.len() != 0 && b.len() != 0 && (a[0] as int) == (b[0] as int) {
            assert(a[0] == b[0]);
        }
        if a == b {
            assert(a.len() == b.len());
            if a.len() != 0 {
                assert(a[0] == b[0]);
            }
        }
    }
}

/// `lex_lt` is transitive.
pub proof fn lemma_lex_trans(a: Seq<char>, b: Seq<char>, c: Seq<char>)
    requires
        lex_lt(a, b),
        lex_lt(b, c),
    ensures
        lex_lt(a, c),
    decreases a.len(),
{
    if a.len() != 0 && b.len() != 0 && c.len() != 0 && a[0] == b[0] && b[0] == c[0] {
        lemma_lex_trans(a.drop_first(), b.drop_first(), c.drop_first());
    }
}

/// Character-wise strict lexicographic comparison of two string slices.
pub fn str_lt(a: &str, b: &str) -> (r: bool)
    ensures
        r == lex_lt(a@, b@),
{
    let la = a.unicode_len();
    let lb = b.unicode_len();
    let mut i: usize = 0;
    proof {
        assert(a@.skip(0) =~= a@);
        assert(b@.skip(0) =~= b@);
    }
    while i < la && i < lb
        invariant
            la == a@.len(),
            lb == b@.len(),
            i <= la,
            i <= lb,
            forall|k: int| 0 <= k < i ==> a@[k] == b@[k],
            lex_lt(a@, b@) == lex_lt(a@.skip(i as int), b@.skip(i as int)),
        decreases la - i,
    {
        let ca = a.get_char(i);
        let cb = b.get_char(i);
        proof {
            assert(a@.skip(i as int)[0] == a@[i as int]);
            assert(b@.skip(i as int)[0] == b@[i as int]);
            assert(a@.skip(i as int).drop_first() =~= a@.skip(i + 1));
            assert(b@.skip(i as int).drop_first() =~= b@.skip(i + 1));
        }
        if (ca as u32) < (cb as u32) {
            return true;
        }
        if ca != cb {
            return false;
        }
        i += 1;
    }
    proof {
        assert(a@.skip(i as int).len() == la - i);
        assert(b@.skip(i as int).len() == lb - i);
    }
    la < lb
}

/// Does `needle` occur contiguously inside `hay`?
pub open spec fn has_sub(hay: Seq<char>, needle: Seq<char>) -> bool {
    exists|k: int|
        0 <= k && k + needle.len() <= hay.len() && #[trigger] hay.subrange(k, k + needle.len())
            == needle
}

/// Character-wise substring search.
pub fn contains_str(hay: &str, needle: &str) -> (r: bool)
    ensures
        r == has_sub(hay@, needle@),
{
    let lh = hay.unicode_len();
    let ln = needle.unicode_len();
    if ln > lh {
        return false;
    }
    if ln == 0 {
        assert(hay@.subrange(0, 0 + needle@.len() as int) =~= needle@);
        return true;
    }
    for k in 0..(lh - ln) + 1
        invariant
            lh == hay@.len(),
            ln == needle@.len(),
            ln <= lh,
            forall|k2: int|
                0 <= k2 < k ==> #[trigger] hay@.subrange(k2, k2 + needle@.len()) != needle@,
    {
        let mut ok = true;
        for j in 0..ln
            invariant
                lh == hay@.len(),
                ln == needle@.len(),
                k + ln <= lh,
                ok ==> forall|j2: int| 0 <= j2 < j ==> hay@[k + j2] == needle@[j2],
                !ok ==> exists|j2: int|
                    0 <= j2 < needle@.len() && #[trigger] hay@[k + j2] != needle@[j2],
        {
            if hay.get_char(k + j) != needle.get_char(j) {
                ok = false;
            }
        }
        if ok {
            assert(hay@.subrange(k as int, k + needle@.len()) =~= needle@);
            return true;
        } else {
            assert(hay@.subrange(k as int, k + needle@.len()) != needle@) by {
                let j2 = choose|j2: int|
                    0 <= j2 < needle@.len() && #[trigger] hay@[k + j2] != needle@[j2];
                assert(hay@.subrange(k as int, k + needle@.len())[j2] == hay@[k + j2]);
            }
        }
    }
    false
}

/// The decimal digit character for `d`.
pub open spec fn digit_char(d: int) -> char {
    if d == 0 { '0' } else if d == 1 { '1' } else if d == 2 { '2' }
    else if d == 3 { '3' } else if d == 4 { '4' } else if d == 5 { '5' }
    else if d == 6 { '6' } else if d == 7 { '7' } else if d == 8 { '8' }
    else { '9' }
}

/// Decimal rendering of a natural number, most significant digit first.
pub open spec fn dec_str(n: nat) -> Seq<char>
    decreases n,
{
    if n < 10 {
        seq![digit_char(n as int)]
    } else {
        dec_str(n / 10) + seq![digit_char((n % 10) as int)]
    }
}

fn digit_str(d: u64) -> (r: &'static str)
    requires
        d < 10,
    ensures
        r@ == seq![digit_char(d as int)],
{
    let s = if d == 0 { "0" } else if d == 1 { "1" } else if d == 2 { "2" }
    else if d == 3 { "3" } else if d == 4 { "4" } else if d == 5 { "5" }
    else if d == 6 { "6" } else if d == 7 { "7" } else if d == 8 { "8" }
    else { "9" };
    proof {
        reveal_strlit("0"); reveal_strlit("1"); reveal_strlit("2");
        reveal_strlit("3"); reveal_strlit("4"); reveal_strlit("5");
        reveal_strlit("6"); reveal_strlit("7"); reveal_strlit("8");
        reveal_strlit("9");
        assert(s@ =~= seq![digit_char(d as int)]);
    }
    s
}

/// Renders `n` in decimal.
pub fn u64_dec(n: u64) -> (r: String)
    ensures
        r@ == dec_str(n as nat),
    decreases n,
{
    if n < 10 {
        String::from_str(digit_str(n))
    } else {
        let head = u64_dec(n / 10);
        head.concat(digit_str(n % 10))
    }
}

} // verus!
