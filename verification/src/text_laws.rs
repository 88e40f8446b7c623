//! What holds of texts, whatever they are.

use vstd::prelude::*;

use crate::number;
use crate::text;

verus! {

/// A text stands in another one exactly where the other one is made of it and of what is around it.
pub proof fn law_has(s: Seq<char>, pat: Seq<char>)
    ensures
        text::has(s, pat) <==> exists|a: Seq<char>, b: Seq<char>| s == #[trigger] (a + pat + b),
{
    if text::has(s, pat) {
        let i = choose|i: int| text::occurs_at(s, pat, i);
        let a = s.take(i);
        let b = s.skip(i + pat.len());
        assert(s =~= a + pat + b) by {
            assert forall|k: int| i <= k < i + pat.len() implies s[k] == pat[k - i] by {
                assert(s.subrange(i, i + pat.len())[k - i] == s[k]);
            }
        }
    }
    if exists|a: Seq<char>, b: Seq<char>| s == #[trigger] (a + pat + b) {
        let (a, b) = choose|a: Seq<char>, b: Seq<char>| s == #[trigger] (a + pat + b);
        assert(s.subrange(a.len() as int, (a.len() + pat.len()) as int) =~= pat);
        assert(text::occurs_at(s, pat, a.len() as int));
    }
}

/// Where `pat` stands first in `a + pat + b`, if not even a part of `a` and of the `pat` behind it
/// makes up another one.
proof fn lemma_first_place(a: Seq<char>, pat: Seq<char>, b: Seq<char>)
    requires
        pat.len() > 0,
        !text::has(a + pat.drop_last(), pat),
    ensures
        text::find_from(a + pat + b, pat, 0) == Some(a.len() as int),
{
    let s = a + pat + b;
    text::lemma_find_from(s, pat, 0);
    assert(s.subrange(a.len() as int, (a.len() + pat.len()) as int) =~= pat);
    assert(text::occurs_at(s, pat, a.len() as int));
    if let Some(i) = text::find_from(s, pat, 0) {
        if i < a.len() {
            let t = a + pat.drop_last();
            assert(t.subrange(i, i + pat.len()) =~= s.subrange(i, i + pat.len()));
            assert(text::occurs_at(t, pat, i));
        }
    }
}

proof fn lemma_find_shift(s: Seq<char>, pat: Seq<char>, from: int, k: int)
    requires
        0 <= k <= from,
        k <= s.len(),
    ensures
        text::find_from(s, pat, from) == (match text::find_from(s.skip(k), pat, from - k) {
            Some(i) => Some(i + k),
            None => None,
        }),
    decreases s.len() + 1 - from,
{
    let t = s.skip(k);
    if from + pat.len() <= s.len() {
        assert(s.subrange(from, from + pat.len()) =~= t.subrange(from - k, from - k + pat.len()));
        if !text::occurs_at(s, pat, from) {
            lemma_find_shift(s, pat, from + 1, k);
        }
    }
}

proof fn lemma_replaced_shift(
    s: Seq<char>,
    pat: Seq<char>,
    with: Seq<char>,
    from: int,
    k: int,
)
    requires
        pat.len() > 0,
        0 <= k <= from <= s.len(),
    ensures
        text::replaced_from(s, pat, with, from) == text::replaced_from(
            s.skip(k),
            pat,
            with,
            from - k,
        ),
    decreases s.len() - from,
{
    let t = s.skip(k);
    lemma_find_shift(s, pat, from, k);
    text::lemma_find_from(s, pat, from);
    match text::find_from(s, pat, from) {
        Some(i) => {
            lemma_replaced_shift(s, pat, with, i + pat.len(), k);
            assert(s.subrange(from, i) =~= t.subrange(from - k, i - k));
        },
        None => {
            assert(text::rest(s, from) =~= text::rest(t, from - k));
        },
    }
}

proof fn lemma_pieces_shift(s: Seq<char>, pat: Seq<char>, from: int, k: int)
    requires
        pat.len() > 0,
        0 <= k <= from <= s.len(),
    ensures
        text::pieces_from(s, pat, from) == text::pieces_from(s.skip(k), pat, from - k),
    decreases s.len() - from,
{
    let t = s.skip(k);
    lemma_find_shift(s, pat, from, k);
    text::lemma_find_from(s, pat, from);
    match text::find_from(s, pat, from) {
        Some(i) => {
            lemma_pieces_shift(s, pat, i + pat.len(), k);
            assert(s.subrange(from, i) =~= t.subrange(from - k, i - k));
        },
        None => {
            assert(text::rest(s, from) =~= text::rest(t, from - k));
        },
    }
}

/// A text without `pat` stays as it is where `pat` is replaced. Otherwise the first `pat` gives way
/// to `with`, what stands before it stays, and the rest is treated the same way.
pub proof fn law_replacing(a: Seq<char>, pat: Seq<char>, b: Seq<char>, with: Seq<char>)
    requires
        pat.len() > 0,
    ensures
        !text::has(a, pat) ==> text::replaced(a, pat, with) == a,
        !text::has(a + pat.drop_last(), pat) ==> text::replaced(a + pat + b, pat, with) == a + with
            + text::replaced(b, pat, with),
{
    if !text::has(a, pat) {
        text::lemma_find_from(a, pat, 0);
        assert(text::rest(a, 0) =~= a);
    }
    if !text::has(a + pat.drop_last(), pat) {
        let s = a + pat + b;
        lemma_first_place(a, pat, b);
        lemma_replaced_shift(s, pat, with, (a + pat).len() as int, (a + pat).len() as int);
        assert(s.skip((a + pat).len() as int) =~= b);
        assert(s.subrange(0, a.len() as int) =~= a);
    }
}

/// A text without `pat` is one piece. Otherwise the first piece is what stands before the first
/// `pat`, and what stands behind it is split the same way.
pub proof fn law_splitting(a: Seq<char>, pat: Seq<char>, b: Seq<char>)
    requires
        pat.len() > 0,
    ensures
        !text::has(a, pat) ==> text::pieces(a, pat) == seq![a],
        !text::has(a + pat.drop_last(), pat) ==> text::pieces(a + pat + b, pat) == seq![a]
            + text::pieces(b, pat),
{
    if !text::has(a, pat) {
        text::lemma_find_from(a, pat, 0);
        assert(text::rest(a, 0) =~= a);
    }
    if !text::has(a + pat.drop_last(), pat) {
        let s = a + pat + b;
        lemma_first_place(a, pat, b);
        lemma_pieces_shift(s, pat, (a + pat).len() as int, (a + pat).len() as int);
        assert(s.skip((a + pat).len() as int) =~= b);
        assert(s.subrange(0, a.len() as int) =~= a);
    }
}

/// A text starts and ends with what it is made of, and what follows its start is the rest of it. No
/// other text starts or ends that way.
pub proof fn law_affixes(s: Seq<char>, affix: Seq<char>, t: Seq<char>)
    ensures
        text::starts(affix + t, affix),
        text::stripped(affix + t, affix) == Some(t),
        text::starts(s, affix) ==> exists|r: Seq<char>| s == #[trigger] (affix + r),
        text::stripped(s, affix) is Some <==> text::starts(s, affix),
        text::ends(t + affix, affix),
        text::ends(s, affix) ==> exists|r: Seq<char>| s == #[trigger] (r + affix),
{
    assert((affix + t).take(affix.len() as int) =~= affix);
    assert((affix + t).skip(affix.len() as int) =~= t);
    assert((t + affix).skip(t.len() as int) =~= affix);
    if text::starts(s, affix) {
        let r = s.skip(affix.len() as int);
        assert(s =~= s.take(affix.len() as int) + r);
        assert(s == affix + r);
    }
    if text::ends(s, affix) {
        let r = s.take(s.len() - affix.len());
        assert(s =~= r + s.skip(s.len() - affix.len()));
        assert(s == r + affix);
    }
}

/// Joined texts stand one after another with the separator between each two: nothing is nothing,
/// one text is itself, and joining two lists is joining each and the two results.
pub proof fn law_joining(parts: Seq<Seq<char>>, more: Seq<Seq<char>>, one: Seq<char>, sep: Seq<char>)
    ensures
        text::joined(Seq::empty(), sep) == Seq::<char>::empty(),
        text::joined(seq![one], sep) == one,
        parts.len() > 0 && more.len() > 0 ==> text::joined(parts + more, sep) == text::joined(
            parts,
            sep,
        ) + sep + text::joined(more, sep),
    decreases more.len(),
{
    if parts.len() > 0 && more.len() > 0 {
        let all = parts + more;
        assert(all.drop_last() =~= parts + more.drop_last());
        if more.len() == 1 {
            assert(all.drop_last() =~= parts);
            assert(text::joined(more, sep) == more[0]);
        } else {
            law_joining(parts, more.drop_last(), one, sep);
            assert(text::joined(all, sep) =~= text::joined(parts, sep) + sep + text::joined(
                more,
                sep,
            ));
        }
    }
}

proof fn lemma_trimmed_start(s: Seq<char>) -> (n: int)
    ensures
        0 <= n <= s.len(),
        text::trimmed_start(s) == s.skip(n),
        forall|i: int| 0 <= i < n ==> text::whitespace(#[trigger] s[i]),
        n < s.len() ==> !text::whitespace(s[n]),
    decreases s.len(),
{
    if s.len() > 0 && text::whitespace(s[0]) {
        let m = lemma_trimmed_start(s.skip(1));
        assert(s.skip(1).skip(m) =~= s.skip(m + 1));
        assert forall|i: int| 0 <= i < m + 1 implies text::whitespace(#[trigger] s[i]) by {
            if i > 0 {
                assert(s[i] == s.skip(1)[i - 1]);
            }
        }
        m + 1
    } else {
        assert(s.skip(0) =~= s);
        0
    }
}

proof fn lemma_trimmed_end(s: Seq<char>) -> (n: int)
    ensures
        0 <= n <= s.len(),
        text::trimmed_end(s) == s.take(n),
        forall|i: int| n <= i < s.len() ==> text::whitespace(#[trigger] s[i]),
        n > 0 ==> !text::whitespace(s[n - 1]),
    decreases s.len(),
{
    if s.len() > 0 && text::whitespace(s.last()) {
        let m = lemma_trimmed_end(s.drop_last());
        assert(s.drop_last().take(m) =~= s.take(m));
        assert forall|i: int| m <= i < s.len() implies text::whitespace(#[trigger] s[i]) by {
            if i < s.len() - 1 {
                assert(s[i] == s.drop_last()[i]);
            }
        }
        m
    } else {
        assert(s.take(s.len() as int) =~= s);
        s.len() as int
    }
}

/// Trimming takes away nothing but whitespace, and leaves none at the ends that it trims.
pub proof fn law_trimming(s: Seq<char>)
    ensures
        exists|n: int|
            {
                &&& 0 <= n <= s.len()
                &&& text::trimmed_start(s) == #[trigger] s.skip(n)
                &&& forall|i: int| 0 <= i < n ==> text::whitespace(#[trigger] s[i])
                &&& n < s.len() ==> !text::whitespace(s[n])
            },
        exists|n: int|
            {
                &&& 0 <= n <= s.len()
                &&& text::trimmed_end(s) == #[trigger] s.take(n)
                &&& forall|i: int| n <= i < s.len() ==> text::whitespace(#[trigger] s[i])
                &&& n > 0 ==> !text::whitespace(s[n - 1])
            },
        exists|a: int, b: int|
            {
                &&& 0 <= a <= b <= s.len()
                &&& text::trimmed(s) == #[trigger] s.subrange(a, b)
                &&& forall|i: int| 0 <= i < a ==> text::whitespace(#[trigger] s[i])
                &&& forall|i: int| b <= i < s.len() ==> text::whitespace(#[trigger] s[i])
                &&& a < b ==> !text::whitespace(s[a]) && !text::whitespace(s[b - 1])
            },
{
    let n = lemma_trimmed_start(s);
    let m = lemma_trimmed_end(s);
    assert(text::trimmed_end(s) == s.take(m));
    let t = s.skip(n);
    let k = lemma_trimmed_end(t);
    assert(t.take(k) =~= s.subrange(n, n + k));
    assert forall|i: int| n + k <= i < s.len() implies text::whitespace(#[trigger] s[i]) by {
        assert(s[i] == t[i - n]);
    }
    if k > 0 {
        assert(s[n + k - 1] == t[k - 1]);
    }
    assert(text::trimmed(s) == s.subrange(n, n + k));
}

/// A numeral is made of the digits `0` to `9`, does not start with a 0 unless it is that of 0, and
/// stands for its number: each digit counts ten times what the one behind it counts. Different
/// numbers have different numerals.
pub proof fn law_numerals(n: nat, other: nat)
    ensures
        number::numeral(n).len() > 0,
        forall|i: int|
            0 <= i < number::numeral(n).len() ==> '0' <= #[trigger] number::numeral(n)[i]
                && number::numeral(n)[i] <= '9',
        n > 0 ==> number::numeral(n)[0] != '0',
        number::value(number::numeral(n)) == n,
        n != other ==> number::numeral(n) != number::numeral(other),
{
    number::lemma_numeral(n);
    number::lemma_numeral(other);
    assert forall|i: int| 0 <= i < number::numeral(n).len() implies '0'
        <= #[trigger] number::numeral(n)[i] && number::numeral(n)[i] <= '9' by {
        assert(number::is_digit(number::numeral(n)[i]));
    }
    if n > 0 {
        lemma_first_digit(n);
    }
}

proof fn lemma_first_digit(n: nat)
    requires
        n > 0,
    ensures
        number::numeral(n)[0] != '0',
    decreases n,
{
    if n >= 10 {
        lemma_first_digit(n / 10);
        number::lemma_numeral(n / 10);
        assert(number::numeral(n)[0] == number::numeral(n / 10)[0]);
    }
}

/// What digits stand for: no digit stands for nothing, and one more digit makes it ten times as much
/// and what the digit counts.
pub proof fn law_digits(s: Seq<char>, c: char)
    requires
        '0' <= c,
        c <= '9',
    ensures
        number::value(Seq::empty()) == 0,
        number::value(s.push(c)) == 10 * number::value(s) + (c as int - '0' as int),
{
    assert(s.push(c).drop_last() =~= s);
}

/// A number is read from digits alone, or from digits behind a plus sign, and only if it is not
/// greater than what is asked for.
pub proof fn law_reading_numbers(digits: Seq<char>, max: nat)
    ensures
        digits.len() > 0 && (forall|i: int|
            0 <= i < digits.len() ==> '0' <= #[trigger] digits[i] && digits[i] <= '9') ==> {
            &&& number::parsed(digits, max) == (if number::value(digits) <= max {
                Some(number::value(digits))
            } else {
                None
            })
            &&& number::parsed(seq!['+'] + digits, max) == number::parsed(digits, max)
        },
        digits.len() == 0 ==> number::parsed(digits, max) is None && number::parsed(
            seq!['+'] + digits,
            max,
        ) is None,
        (exists|i: int| 0 < i < digits.len() && !('0' <= #[trigger] digits[i] <= '9'))
            ==> number::parsed(digits, max) is None,
        digits.len() > 0 && digits[0] != '+' && !('0' <= digits[0] <= '9') ==> number::parsed(
            digits,
            max,
        ) is None,
{
    let plus = seq!['+'] + digits;
    assert(plus.skip(1) =~= digits);
    if digits.len() > 0 && (forall|i: int|
        0 <= i < digits.len() ==> '0' <= #[trigger] digits[i] && digits[i] <= '9') {
        assert(digits[0] != '+');
        assert(number::all_digits(digits));
    }
    if exists|i: int| 0 < i < digits.len() && !('0' <= #[trigger] digits[i] <= '9') {
        let i = choose|i: int| 0 < i < digits.len() && !('0' <= #[trigger] digits[i] <= '9');
        let u = number::unsigned_part(digits);
        if digits[0] == '+' {
            assert(u[i - 1] == digits[i]);
        }
    }
    if digits.len() > 0 && digits[0] != '+' && !('0' <= digits[0] <= '9') {
        assert(number::unsigned_part(digits)[0] == digits[0]);
    }
}

/// What two hexadecimal digits stand for: the first counts sixteen times what the second counts,
/// and small and capital letters count the same. A plus sign in the place of the first counts
/// nothing, and no other characters stand for a byte.
pub proof fn law_hexadecimal(a: char, b: char)
    ensures
        match (counted(a), counted(b)) {
            (Some(x), Some(y)) => number::hex_byte(a, b) == Some((16 * x + y) as nat),
            (None, Some(y)) => number::hex_byte(a, b) == (if a == '+' {
                Some(y as nat)
            } else {
                None
            }),
            (_, None) => number::hex_byte(a, b) is None,
        },
{
}

/// What a hexadecimal digit counts.
pub open spec fn counted(c: char) -> Option<int> {
    if '0' <= c <= '9' {
        Some(c as int - '0' as int)
    } else if 'a' <= c <= 'f' {
        Some(10 + (c as int - 'a' as int))
    } else if 'A' <= c <= 'F' {
        Some(10 + (c as int - 'A' as int))
    } else {
        None
    }
}

/// A text in which every opening brace is closed before another one opens.
pub open spec fn braces_close(s: Seq<char>) -> bool {
    forall|i: int| 0 <= i < s.len() && #[trigger] s[i] == '{' ==> closes(s, i)
}

/// The opening brace at index `i` is closed before another one opens.
pub open spec fn closes(s: Seq<char>, i: int) -> bool {
    exists|j: int|
        i < j < s.len() && #[trigger] s[j] == '}' && (forall|k: int|
            i < k < j ==> #[trigger] s[k] != '{')
}

/// A mark: a word in braces.
pub open spec fn is_mark(pat: Seq<char>) -> bool {
    &&& pat.len() >= 2
    &&& pat[0] == '{'
    &&& pat[pat.len() - 1] == '}'
    &&& forall|k: int| 0 < k < pat.len() - 1 ==> #[trigger] pat[k] != '{' && pat[k] != '}'
}

/// A text without an opening brace.
pub open spec fn has_no_brace(s: Seq<char>) -> bool {
    forall|i: int| 0 <= i < s.len() ==> #[trigger] s[i] != '{'
}

/// A text without an opening brace holds no mark and is closed.
pub proof fn lemma_no_brace(s: Seq<char>, pat: Seq<char>, with: Seq<char>)
    requires
        has_no_brace(s),
        is_mark(pat),
    ensures
        !text::has(s, pat),
        text::replaced(s, pat, with) == s,
        braces_close(s),
{
    if text::has(s, pat) {
        let i = choose|i: int| text::occurs_at(s, pat, i);
        assert(s.subrange(i, i + pat.len())[0] == s[i]);
    }
    law_replacing(s, pat, Seq::empty(), with);
}

proof fn lemma_closed_parts(a: Seq<char>, pat: Seq<char>, b: Seq<char>)
    requires
        braces_close(a + pat + b),
        is_mark(pat),
    ensures
        braces_close(a),
        braces_close(b),
{
    let s = a + pat + b;
    let n = a.len() as int;
    assert forall|i: int| 0 <= i < a.len() && #[trigger] a[i] == '{' implies closes(a, i) by {
        assert(s[i] == '{');
        assert(closes(s, i));
        let j = choose|j: int|
            i < j < s.len() && #[trigger] s[j] == '}' && (forall|k: int|
                i < k < j ==> #[trigger] s[k] != '{');
        assert(s[n] == pat[0]);
        if j > n {
            assert(s[n] != '{');
        }
        assert(j < n);
        assert(a[j] == '}');
        assert forall|k: int| i < k < j implies #[trigger] a[k] != '{' by {
            assert(s[k] != '{');
        }
    }
    let m = n + pat.len();
    assert forall|i: int| 0 <= i < b.len() && #[trigger] b[i] == '{' implies closes(b, i) by {
        assert(s[m + i] == '{');
        assert(closes(s, m + i));
        let j = choose|j: int|
            m + i < j < s.len() && #[trigger] s[j] == '}' && (forall|k: int|
                m + i < k < j ==> #[trigger] s[k] != '{');
        assert(b[j - m] == '}');
        assert forall|k: int| i < k < j - m implies #[trigger] b[k] != '{' by {
            assert(s[m + k] != '{');
        }
    }
}

/// Texts whose braces are closed make up another one.
pub proof fn lemma_closed_add(a: Seq<char>, b: Seq<char>)
    requires
        braces_close(a),
        braces_close(b),
    ensures
        braces_close(a + b),
{
    let s = a + b;
    let n = a.len() as int;
    assert forall|i: int| 0 <= i < s.len() && #[trigger] s[i] == '{' implies closes(s, i) by {
        if i < n {
            assert(a[i] == '{');
            assert(closes(a, i));
            let j = choose|j: int|
                i < j < a.len() && #[trigger] a[j] == '}' && (forall|k: int|
                    i < k < j ==> #[trigger] a[k] != '{');
            assert(s[j] == '}');
            assert forall|k: int| i < k < j implies #[trigger] s[k] != '{' by {
                assert(a[k] != '{');
            }
        } else {
            assert(b[i - n] == '{');
            assert(closes(b, i - n));
            let j = choose|j: int|
                i - n < j < b.len() && #[trigger] b[j] == '}' && (forall|k: int|
                    i - n < k < j ==> #[trigger] b[k] != '{');
            assert(s[j + n] == '}');
            assert forall|k: int| i < k < j + n implies #[trigger] s[k] != '{' by {
                assert(b[k - n] != '{');
            }
        }
    }
}

/// The first mark in a text, with what is before it and behind it.
proof fn lemma_first_mark(s: Seq<char>, pat: Seq<char>) -> (r: (Seq<char>, Seq<char>))
    requires
        pat.len() > 0,
        text::has(s, pat),
    ensures
        s == r.0 + pat + r.1,
        !text::has(r.0 + pat.drop_last(), pat),
        r.1.len() < s.len(),
{
    text::lemma_find_from(s, pat, 0);
    let k = choose|i: int| text::occurs_at(s, pat, i);
    assert(text::find_from(s, pat, 0) is Some);
    let i = text::find_from(s, pat, 0)->0;
    let a = s.take(i);
    let b = s.skip(i + pat.len());
    assert(s =~= a + pat + b) by {
        assert forall|k: int| i <= k < i + pat.len() implies s[k] == pat[k - i] by {
            assert(s.subrange(i, i + pat.len())[k - i] == s[k]);
        }
    }
    let t = a + pat.drop_last();
    if text::has(t, pat) {
        let j = choose|j: int| text::occurs_at(t, pat, j);
        assert(t.subrange(j, j + pat.len()) =~= s.subrange(j, j + pat.len()));
        assert(text::occurs_at(s, pat, j));
    }
    (a, b)
}

/// A text whose braces are closed keeps them closed where a mark is replaced by such a text.
pub proof fn lemma_closed_replaced(s: Seq<char>, pat: Seq<char>, with: Seq<char>)
    requires
        braces_close(s),
        braces_close(with),
        is_mark(pat),
    ensures
        braces_close(text::replaced(s, pat, with)),
    decreases s.len(),
{
    if text::has(s, pat) {
        let (a, b) = lemma_first_mark(s, pat);
        law_replacing(a, pat, b, with);
        lemma_closed_parts(a, pat, b);
        lemma_closed_replaced(b, pat, with);
        lemma_closed_add(a, with);
        lemma_closed_add(a + with, text::replaced(b, pat, with));
    } else {
        law_replacing(s, pat, Seq::empty(), with);
    }
}

/// Replacing a mark in a text is replacing it in its two halves, if the braces of the first half
/// are closed.
pub proof fn lemma_replaced_add(x: Seq<char>, y: Seq<char>, pat: Seq<char>, with: Seq<char>)
    requires
        braces_close(x),
        is_mark(pat),
    ensures
        text::replaced(x + y, pat, with) == text::replaced(x, pat, with) + text::replaced(
            y,
            pat,
            with,
        ),
    decreases x.len() + y.len(),
{
    if text::has(x, pat) {
        let (a, b) = lemma_first_mark(x, pat);
        law_replacing(a, pat, b, with);
        law_replacing(a, pat, b + y, with);
        lemma_closed_parts(a, pat, b);
        lemma_replaced_add(b, y, pat, with);
        assert(x + y =~= a + pat + (b + y));
        assert(a + with + (text::replaced(b, pat, with) + text::replaced(y, pat, with)) =~= a + with
            + text::replaced(b, pat, with) + text::replaced(y, pat, with));
    } else {
        law_replacing(x, pat, Seq::empty(), with);
        if text::has(y, pat) {
            let (a, b) = lemma_first_mark(y, pat);
            law_replacing(a, pat, b, with);
            let t = x + a + pat.drop_last();
            if text::has(t, pat) {
                let i = choose|i: int| text::occurs_at(t, pat, i);
                assert(t =~= x + (a + pat.drop_last()));
                lemma_no_straddle(x, a + pat.drop_last(), pat, i);
            }
            law_replacing(x + a, pat, b, with);
            assert(x + y =~= (x + a) + pat + b);
            assert((x + a) + with + text::replaced(b, pat, with) =~= x + (a + with
                + text::replaced(b, pat, with)));
        } else {
            if text::has(x + y, pat) {
                let i = choose|i: int| text::occurs_at(x + y, pat, i);
                lemma_no_straddle(x, y, pat, i);
            }
            law_replacing(y, pat, Seq::empty(), with);
            law_replacing(x + y, pat, Seq::empty(), with);
        }
    }
}

/// A mark that stands in a text stands in one of its halves, if the braces of the first are closed.
proof fn lemma_no_straddle(x: Seq<char>, y: Seq<char>, pat: Seq<char>, i: int)
    requires
        braces_close(x),
        is_mark(pat),
        text::occurs_at(x + y, pat, i),
    ensures
        text::has(x, pat) || text::has(y, pat),
{
    let s = x + y;
    let n = x.len() as int;
    if i + pat.len() <= n {
        assert(x.subrange(i, i + pat.len()) =~= s.subrange(i, i + pat.len()));
        assert(text::occurs_at(x, pat, i));
    } else if i >= n {
        assert(y.subrange(i - n, i - n + pat.len()) =~= s.subrange(i, i + pat.len()));
        assert(text::occurs_at(y, pat, i - n));
    } else {
        assert(s.subrange(i, i + pat.len())[0] == s[i]);
        assert(x[i] == '{');
        assert(closes(x, i));
        let j = choose|j: int|
            i < j < x.len() && #[trigger] x[j] == '}' && (forall|k: int|
                i < k < j ==> #[trigger] x[k] != '{');
        assert(s.subrange(i, i + pat.len())[j - i] == x[j]);
        assert(pat[j - i] == '}');
    }
}

/// Which characters are whitespace: in ASCII the space and those from the tab to the carriage return,
/// and beyond ASCII the other spaces and line breaks of Unicode.
pub proof fn law_whitespace(c: char)
    ensures
        c <= '\u{7f}' ==> (text::whitespace(c) <==> c == ' ' || c == '\t' || c == '\n' || c == '\u{b}'
            || c == '\u{c}' || c == '\r'),
        c > '\u{7f}' && c <= '\u{ff}' ==> (text::whitespace(c) <==> c == '\u{85}' || c == '\u{a0}'),
        c > '\u{ff}' && c < '\u{2000}' ==> (text::whitespace(c) <==> c == '\u{1680}'),
        c >= '\u{2000}' ==> (text::whitespace(c) <==> c <= '\u{200a}' || c == '\u{2028}' || c
            == '\u{2029}' || c == '\u{202f}' || c == '\u{205f}' || c == '\u{3000}'),
{
}

} // verus!
