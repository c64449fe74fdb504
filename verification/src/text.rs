//! Character-level helpers on strings: searching, counting, splitting
//! and decimal rendering and parsing, each proved against a spec function.
use vstd::prelude::*;
use vstd::string::*;

verus! {

/// Number of occurrences of `c` in `s`.
pub open spec fn count_char(s: Seq<char>, c: char) -> nat
    decreases s.len(),
{
    if s.len() == 0 {
        0
    } else {
        count_char(s.drop_last(), c) + if s.last() == c {
            1nat
        } else {
            0nat
        }
    }
}

/// Index of the first occurrence of `c` in `s`, or -1 when `c` does not occur.
pub open spec fn find_first(s: Seq<char>, c: char) -> int
    decreases s.len(),
{
    if s.len() == 0 {
        -1
    } else if s[0] == c {
        0
    } else {
        let r = find_first(s.drop_first(), c);
        if r < 0 {
            -1
        } else {
            r + 1
        }
    }
}

/// The part of `s` before the first `c` (all of `s` when `c` does not occur).
pub open spec fn before_first(s: Seq<char>, c: char) -> Seq<char> {
    if find_first(s, c) < 0 {
        s
    } else {
        s.take(find_first(s, c))
    }
}

/// The part of `s` after the first `c` (empty when `c` does not occur).
pub open spec fn after_first(s: Seq<char>, c: char) -> Seq<char> {
    if find_first(s, c) < 0 {
        Seq::empty()
    } else {
        s.skip(find_first(s, c) + 1)
    }
}

/// `find_first` is the least index holding `c`.
pub proof fn lemma_find_first(s: Seq<char>, c: char)
    ensures
        -1 <= find_first(s, c) < s.len(),
        find_first(s, c) >= 0 ==> s[find_first(s, c)] == c,
        forall|j: int| 0 <= j < s.len() && (find_first(s, c) < 0 || j < find_first(s, c)) ==> s[j] != c,
    decreases s.len(),
{
    if s.len() > 0 && s[0] != c {
        lemma_find_first(s.drop_first(), c);
        assert forall|j: int| 0 <= j < s.len() && (find_first(s, c) < 0 || j < find_first(s, c)) implies s[j] != c by {
            if j > 0 {
                assert(s[j] == s.drop_first()[j - 1]);
            }
        }
    }
}

/// Conversely, an index holding `c` with no earlier `c` is `find_first`.
pub proof fn lemma_find_first_at(s: Seq<char>, c: char, i: int)
    requires
        0 <= i < s.len(),
        s[i] == c,
        forall|j: int| 0 <= j < i ==> s[j] != c,
    ensures
        find_first(s, c) == i,
{
    lemma_find_first(s, c);
}

/// A sequence without `c` has no first `c`.
pub proof fn lemma_find_first_absent(s: Seq<char>, c: char)
    requires
        !s.contains(c),
    ensures
        find_first(s, c) == -1,
{
    lemma_find_first(s, c);
    if find_first(s, c) >= 0 {
        assert(s[find_first(s, c)] == c);
    }
}

/// The first `c` of `a + [c] + b` is at `a.len()` when `a` holds no `c`.
pub proof fn lemma_find_first_join(a: Seq<char>, c: char, b: Seq<char>)
    requires
        !a.contains(c),
    ensures
        find_first(a + seq![c] + b, c) == a.len(),
        before_first(a + seq![c] + b, c) =~= a,
        after_first(a + seq![c] + b, c) =~= b,
{
    let s = a + seq![c] + b;
    assert forall|j: int| 0 <= j < a.len() implies s[j] != c by {
        assert(s[j] == a[j]);
    }
    lemma_find_first_at(s, c, a.len() as int);
}

/// `count_char` of a concatenation.
pub proof fn lemma_count_char_add(a: Seq<char>, b: Seq<char>, c: char)
    ensures
        count_char(a + b, c) == count_char(a, c) + count_char(b, c),
    decreases b.len(),
{
    if b.len() > 0 {
        assert((a + b).drop_last() =~= a + b.drop_last());
        lemma_count_char_add(a, b.drop_last(), c);
    } else {
        assert(a + b =~= a);
    }
}

/// A sequence holds `c` exactly when it counts at least one `c`.
pub proof fn lemma_count_char_contains(s: Seq<char>, c: char)
    ensures
        (count_char(s, c) == 0) <==> !s.contains(c),
    decreases s.len(),
{
    if s.len() > 0 {
        lemma_count_char_contains(s.drop_last(), c);
        if s.drop_last().contains(c) {
            let j = choose|j: int| 0 <= j < s.drop_last().len() && s.drop_last()[j] == c;
            assert(s[j] == c);
        }
        if s.contains(c) && s.last() != c {
            let j = choose|j: int| 0 <= j < s.len() && s[j] == c;
            assert(s.drop_last()[j] == c);
        }
        if s.last() == c {
            assert(s[s.len() - 1] == c);
        }
    }
}

/// Splitting at the first `c`: the count of `c` drops by one.
pub proof fn lemma_count_char_split(s: Seq<char>, c: char)
    requires
        find_first(s, c) >= 0,
    ensures
        s =~= before_first(s, c) + seq![c] + after_first(s, c),
        !before_first(s, c).contains(c),
        count_char(s, c) == count_char(after_first(s, c), c) + 1,
{
    lemma_find_first(s, c);
    let i = find_first(s, c);
    let a = s.take(i);
    let b = s.skip(i + 1);
    assert(s =~= a + seq![c] + b);
    if a.contains(c) {
        let j = choose|j: int| 0 <= j < a.len() && a[j] == c;
        assert(s[j] == c);
    }
    lemma_count_char_add(a + seq![c], b, c);
    lemma_count_char_add(a, seq![c], c);
    lemma_count_char_contains(a, c);
    assert(seq![c].drop_last() =~= Seq::<char>::empty());
    assert(count_char(seq![c], c) == 1) by {
        reveal_with_fuel(count_char, 2);
    }
    assert(after_first(s, c) == b);
}

/// Returns the index of the first `c` in `s`, if any.
pub fn find_char(s: &str, c: char) -> (r: Option<usize>)
    ensures
        match r {
            Some(i) => find_first(s@, c) == i as int,
            None => find_first(s@, c) == -1,
        },
{
    let len = s.unicode_len();
    let mut i: usize = 0;
    while i < len
        invariant
            len == s@.len(),
            i <= len,
            forall|j: int| 0 <= j < i ==> s@[j] != c,
        decreases len - i,
    {
        if s.get_char(i) == c {
            proof {
                lemma_find_first_at(s@, c, i as int);
            }
            return Some(i);
        }
        i = i + 1;
    }
    proof {
        if s@.contains(c) {
            let j = choose|j: int| 0 <= j < s@.len() && s@[j] == c;
            assert(s@[j] != c);
        }
        lemma_find_first_absent(s@, c);
    }
    None
}

/// Counts the occurrences of `c` in `s`.
pub fn count_occurrences(s: &str, c: char) -> (n: usize)
    ensures
        n == count_char(s@, c),
{
    let len = s.unicode_len();
    let mut i: usize = 0;
    let mut n: usize = 0;
    while i < len
        invariant
            len == s@.len(),
            i <= len,
            n == count_char(s@.subrange(0, i as int), c),
            n <= i,
        decreases len - i,
    {
        let ch = s.get_char(i);
        assert(s@.subrange(0, i + 1).drop_last() =~= s@.subrange(0, i as int));
        if ch == c {
            n = n + 1;
        }
        i = i + 1;
    }
    assert(s@.subrange(0, len as int) =~= s@);
    n
}

/// A copy of the characters of `s` in positions `from..to`.
pub fn substring(s: &str, from: usize, to: usize) -> (r: String)
    requires
        from <= to <= s@.len(),
    ensures
        r@ == s@.subrange(from as int, to as int),
{
    String::from_str(s.substring_char(from, to))
}

/// Splits `s` at its first `c`: the part before and the part after.
pub fn split_first(s: &str, c: char) -> (r: Option<(String, String)>)
    ensures
        match r {
            Some((a, b)) => find_first(s@, c) >= 0 && a@ == before_first(s@, c) && b@ == after_first(
                s@,
                c,
            ),
            None => find_first(s@, c) < 0,
        },
{
    match find_char(s, c) {
        None => None,
        Some(i) => {
            let len = s.unicode_len();
            proof {
                lemma_find_first(s@, c);
            }
            let a = substring(s, 0, i);
            let b = substring(s, i + 1, len);
            assert(a@ =~= s@.take(i as int));
            assert(b@ =~= s@.skip(i + 1));
            Some((a, b))
        },
    }
}

/// `a + sep + b`, where `sep` is a single character.
pub open spec fn join_with(a: Seq<char>, sep: char, b: Seq<char>) -> Seq<char> {
    a + seq![sep] + b
}

/// Joins two strings with a slash between them.
pub fn join_slash(a: &str, b: &str) -> (r: String)
    ensures
        r@ == join_with(a@, '/', b@),
{
    let s = String::from_str(a);
    let s = s.concat("/");
    let s = s.concat(b);
    proof {
        reveal_strlit("/");
    }
    s
}

/// True when the two strings hold the same characters.
pub fn same_text(a: &str, b: &str) -> (r: bool)
    ensures
        r == (a@ == b@),
{
    let x = String::from_str(a);
    let y = String::from_str(b);
    x == y
}

// ---------------------------------------------------------------------------
// Decimal numbers
// ---------------------------------------------------------------------------

/// The character of a decimal digit.
pub open spec fn digit_char(d: nat) -> char
    recommends
        d < 10,
{
    if d == 0 { '0' }
    else if d == 1 { '1' }
    else if d == 2 { '2' }
    else if d == 3 { '3' }
    else if d == 4 { '4' }
    else if d == 5 { '5' }
    else if d == 6 { '6' }
    else if d == 7 { '7' }
    else if d == 8 { '8' }
    else { '9' }
}

/// The shortest decimal representation of `n`.
pub open spec fn decimal(n: nat) -> Seq<char>
    decreases n,
{
    if n < 10 {
        seq![digit_char(n)]
    } else {
        decimal(n / 10).push(digit_char(n % 10))
    }
}

/// Whether `c` is a decimal digit.
pub open spec fn is_digit(c: char) -> bool {
    '0' <= c <= '9'
}

/// The value of a decimal digit character.
pub open spec fn digit_value(c: char) -> nat {
    (c as int - '0' as int) as nat
}

/// The value of a string of decimal digits, most significant first.
pub open spec fn digits_value(s: Seq<char>) -> nat
    decreases s.len(),
{
    if s.len() == 0 {
        0
    } else {
        digits_value(s.drop_last()) * 10 + digit_value(s.last())
    }
}

/// The digits that std's unsigned parsing reads: an optional leading `+` is dropped.
pub open spec fn unsigned_digits(s: Seq<char>) -> Seq<char> {
    if s.len() > 0 && s[0] == '+' {
        s.drop_first()
    } else {
        s
    }
}

/// What `str::parse::<u128>` gives: `Some` of the value for a non-empty run of
/// decimal digits (with an optional leading `+`) whose value fits in a `u128`.
pub open spec fn spec_parse_u128(s: Seq<char>) -> Option<u128> {
    let d = unsigned_digits(s);
    if d.len() > 0 && (forall|i: int| 0 <= i < d.len() ==> is_digit(#[trigger] d[i])) && digits_value(
        d,
    ) <= u128::MAX {
        Some(digits_value(d) as u128)
    } else {
        None
    }
}

proof fn lemma_digits_value_monotone(s: Seq<char>, k: int)
    requires
        0 <= k <= s.len(),
        forall|i: int| 0 <= i < s.len() ==> is_digit(#[trigger] s[i]),
    ensures
        digits_value(s.take(k)) <= digits_value(s),
    decreases s.len() - k,
{
    if k < s.len() {
        lemma_digits_value_monotone(s, k + 1);
        assert(s.take(k + 1).drop_last() =~= s.take(k));
        assert(digits_value(s.take(k + 1)) == digits_value(s.take(k)) * 10 + digit_value(s[k]));
    } else {
        assert(s.take(k) =~= s);
    }
}

/// Parses a decimal `u128` as `str::parse::<u128>` does.
pub fn parse_u128(s: &str) -> (r: Option<u128>)
    ensures
        r == spec_parse_u128(s@),
{
    let len = s.unicode_len();
    let mut start: usize = 0;
    if len > 0 && s.get_char(0) == '+' {
        start = 1;
    }
    let ghost d = unsigned_digits(s@);
    assert(d =~= s@.subrange(start as int, len as int));
    if start == len {
        return None;
    }
    let mut value: u128 = 0;
    let mut i: usize = start;
    while i < len
        invariant
            len == s@.len(),
            start <= i <= len,
            d == unsigned_digits(s@),
            d =~= s@.subrange(start as int, len as int),
            forall|j: int| 0 <= j < i - start ==> is_digit(#[trigger] d[j]),
            value as nat == digits_value(d.take(i - start)),
        decreases len - i,
    {
        let ch = s.get_char(i);
        assert(ch == d[i - start]);
        if !('0' <= ch && ch <= '9') {
            assert(!is_digit(d[i - start]));
            return None;
        }
        let dv: u128 = (ch as u32 - '0' as u32) as u128;
        assert(d.take(i - start + 1).drop_last() =~= d.take(i - start));
        assert(digits_value(d.take(i - start + 1)) == value * 10 + dv);
        match value.checked_mul(10) {
            None => {
                proof {
                    if forall|j: int| 0 <= j < d.len() ==> is_digit(#[trigger] d[j]) {
                        lemma_digits_value_monotone(d, i - start + 1);
                    }
                }
                return None;
            },
            Some(v10) => match v10.checked_add(dv) {
                None => {
                    proof {
                        if forall|j: int| 0 <= j < d.len() ==> is_digit(#[trigger] d[j]) {
                            lemma_digits_value_monotone(d, i - start + 1);
                        }
                    }
                    return None;
                },
                Some(v) => {
                    value = v;
                },
            },
        }
        i = i + 1;
    }
    assert(d.take(len - start) =~= d);
    Some(value)
}

/// The one-character string of a decimal digit.
fn digit_text(d: u8) -> (r: &'static str)
    requires
        d < 10,
    ensures
        r@ == seq![digit_char(d as nat)],
{
    proof {
        reveal_strlit("0");
        reveal_strlit("1");
        reveal_strlit("2");
        reveal_strlit("3");
        reveal_strlit("4");
        reveal_strlit("5");
        reveal_strlit("6");
        reveal_strlit("7");
        reveal_strlit("8");
        reveal_strlit("9");
    }
    if d == 0 { "0" }
    else if d == 1 { "1" }
    else if d == 2 { "2" }
    else if d == 3 { "3" }
    else if d == 4 { "4" }
    else if d == 5 { "5" }
    else if d == 6 { "6" }
    else if d == 7 { "7" }
    else if d == 8 { "8" }
    else { "9" }
}

/// The decimal representation of `n`, as `u128::to_string` writes it.
pub fn u128_to_decimal(n: u128) -> (r: String)
    ensures
        r@ == decimal(n as nat),
    decreases n,
{
    if n < 10 {
        String::from_str(digit_text(n as u8))
    } else {
        let head = u128_to_decimal(n / 10);
        head.concat(digit_text((n % 10) as u8))
    }
}

/// The decimal representation of `n`, as `u64::to_string` writes it.
pub fn u64_to_decimal(n: u64) -> (r: String)
    ensures
        r@ == decimal(n as nat),
{
    u128_to_decimal(n as u128)
}


// ---------------------------------------------------------------------------
// Order
// ---------------------------------------------------------------------------

/// `a` comes strictly before `b` in the order of code points (which is the order
/// of their UTF-8 bytes).
pub open spec fn text_lt(a: Seq<char>, b: Seq<char>) -> bool
    decreases a.len(),
{
    if a.len() == 0 {
        b.len() > 0
    } else if b.len() == 0 {
        false
    } else if a[0] != b[0] {
        (a[0] as int) < (b[0] as int)
    } else {
        text_lt(a.drop_first(), b.drop_first())
    }
}

/// The order is strict: nothing comes before itself, and of two texts at most one
/// comes first.
pub proof fn lemma_text_lt_strict(a: Seq<char>, b: Seq<char>)
    ensures
        !text_lt(a, a),
        !(text_lt(a, b) && text_lt(b, a)),
    decreases a.len(),
{
    if a.len() > 0 && b.len() > 0 {
        lemma_text_lt_strict(a.drop_first(), b.drop_first());
        lemma_text_lt_strict(a.drop_first(), a.drop_first());
    } else if a.len() > 0 {
        lemma_text_lt_strict(a.drop_first(), a.drop_first());
    }
}

/// Of two different texts, one comes first.
pub proof fn lemma_text_lt_total(a: Seq<char>, b: Seq<char>)
    requires
        a != b,
    ensures
        text_lt(a, b) || text_lt(b, a),
    decreases a.len(),
{
    if a.len() > 0 && b.len() > 0 && a[0] == b[0] {
        if a.drop_first() == b.drop_first() {
            assert(a =~= seq![a[0]] + a.drop_first());
            assert(b =~= seq![b[0]] + b.drop_first());
        }
        lemma_text_lt_total(a.drop_first(), b.drop_first());
    } else if a.len() == 0 && b.len() == 0 {
        assert(a =~= b);
    }
}

/// The order is transitive.
pub proof fn lemma_text_lt_transitive(a: Seq<char>, b: Seq<char>, c: Seq<char>)
    requires
        text_lt(a, b),
        text_lt(b, c),
    ensures
        text_lt(a, c),
    decreases a.len(),
{
    if a.len() > 0 && b.len() > 0 && c.len() > 0 && a[0] == b[0] && b[0] == c[0] {
        lemma_text_lt_transitive(a.drop_first(), b.drop_first(), c.drop_first());
    }
}

proof fn lemma_text_lt_skip(a: Seq<char>, b: Seq<char>, i: int)
    requires
        0 <= i < a.len(),
        i < b.len(),
        a.take(i) == b.take(i),
    ensures
        text_lt(a, b) == text_lt(a.skip(i), b.skip(i)),
    decreases i,
{
    if i > 0 {
        assert(a[0] == a.take(i)[0]);
        assert(b[0] == b.take(i)[0]);
        assert(a.drop_first().take(i - 1) =~= a.take(i).drop_first());
        assert(b.drop_first().take(i - 1) =~= b.take(i).drop_first());
        lemma_text_lt_skip(a.drop_first(), b.drop_first(), i - 1);
        assert(a.drop_first().skip(i - 1) =~= a.skip(i));
        assert(b.drop_first().skip(i - 1) =~= b.skip(i));
    } else {
        assert(a.skip(0) =~= a);
        assert(b.skip(0) =~= b);
    }
}

proof fn lemma_text_lt_prefix(a: Seq<char>, b: Seq<char>)
    requires
        a.len() <= b.len(),
        b.take(a.len() as int) == a,
    ensures
        text_lt(a, b) == (a.len() < b.len()),
    decreases a.len(),
{
    if a.len() > 0 {
        assert(b[0] == b.take(a.len() as int)[0]);
        assert(b.drop_first().take(a.len() - 1) =~= a.drop_first());
        lemma_text_lt_prefix(a.drop_first(), b.drop_first());
    }
}

/// Whether `a` comes strictly before `b` in the order of code points.
pub fn text_less(a: &str, b: &str) -> (r: bool)
    ensures
        r == text_lt(a@, b@),
{
    let la = a.unicode_len();
    let lb = b.unicode_len();
    let mut i: usize = 0;
    while i < la && i < lb
        invariant
            la == a@.len(),
            lb == b@.len(),
            i <= la,
            i <= lb,
            a@.take(i as int) == b@.take(i as int),
        decreases la - i,
    {
        let ca = a.get_char(i);
        let cb = b.get_char(i);
        if ca != cb {
            proof {
                lemma_text_lt_skip(a@, b@, i as int);
                assert(a@.skip(i as int)[0] == ca);
                assert(b@.skip(i as int)[0] == cb);
            }
            return (ca as u32) < (cb as u32);
        }
        assert(a@.take(i + 1) =~= a@.take(i as int).push(ca));
        assert(b@.take(i + 1) =~= b@.take(i as int).push(cb));
        i = i + 1;
    }
    proof {
        if i == la {
            assert(a@.take(i as int) =~= a@);
            if la <= lb {
                lemma_text_lt_prefix(a@, b@);
            }
        } else {
            assert(b@.take(i as int) =~= b@);
            lemma_text_lt_prefix(b@, a@);
            lemma_text_lt_strict(a@, b@);
            if text_lt(a@, b@) {
                assert(!text_lt(b@, a@));
            }
            assert(b@.len() < a@.len());
        }
    }
    la < lb
}

} // verus!
