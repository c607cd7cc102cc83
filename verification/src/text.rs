//! Text as the library needs it: equality and lexicographic order of
//! strings by their UTF-8 bytes, and decimal numerals for cache keys.

use vstd::prelude::*;
use vstd::string::*;
use vstd::utf8::*;

verus! {

/// How one value stands to another in an order.
#[derive(Clone, Copy, Debug, PartialEq, Eq, Structural)]
pub enum Order {
    Before,
    Same,
    After,
}

/// `a` and `b` agree on their first `k` bytes.
pub open spec fn common_prefix(a: Seq<u8>, b: Seq<u8>, k: int) -> bool {
    &&& 0 <= k <= a.len()
    &&& k <= b.len()
    &&& forall|i: int| 0 <= i < k ==> a[i] == b[i]
}

/// `a` comes strictly before `b` in lexicographic order: at the first
/// place where they differ `a` has ended or holds the smaller byte.
pub open spec fn lex_before(a: Seq<u8>, b: Seq<u8>) -> bool {
    exists|k: int| #[trigger]
        common_prefix(a, b, k) && k < b.len() && (k == a.len() || a[k] < b[k])
}

/// The lexicographic order of two byte sequences.
pub open spec fn lex_order(a: Seq<u8>, b: Seq<u8>) -> Order {
    if lex_before(a, b) {
        Order::Before
    } else if a == b {
        Order::Same
    } else {
        Order::After
    }
}

/// The order of two texts: case-sensitive, lexicographic by UTF-8 bytes.
pub open spec fn text_order(a: Seq<char>, b: Seq<char>) -> Order {
    lex_order(encode_utf8(a), encode_utf8(b))
}

/// `a` comes strictly before `b` as text.
pub open spec fn text_before(a: Seq<char>, b: Seq<char>) -> bool {
    lex_before(encode_utf8(a), encode_utf8(b))
}

/// No byte sequence comes before itself.
pub proof fn lemma_lex_irreflexive(a: Seq<u8>)
    ensures
        !lex_before(a, a),
{
}

/// Of two sequences at most one comes before the other.
pub proof fn lemma_lex_asymmetric(a: Seq<u8>, b: Seq<u8>)
    ensures
        !(lex_before(a, b) && lex_before(b, a)),
{
    if lex_before(a, b) && lex_before(b, a) {
        let k = choose|k: int| #[trigger]
            common_prefix(a, b, k) && k < b.len() && (k == a.len() || a[k] < b[k]);
        let m = choose|m: int| #[trigger]
            common_prefix(b, a, m) && m < a.len() && (m == b.len() || b[m] < a[m]);
        if k < m {
            assert(b[k] == a[k]);
        } else if m < k {
            assert(a[m] == b[m]);
        }
    }
}

/// Lexicographic order is transitive.
pub proof fn lemma_lex_transitive(a: Seq<u8>, b: Seq<u8>, c: Seq<u8>)
    requires
        lex_before(a, b),
        lex_before(b, c),
    ensures
        lex_before(a, c),
{
    let k = choose|k: int| #[trigger]
        common_prefix(a, b, k) && k < b.len() && (k == a.len() || a[k] < b[k]);
    let m = choose|m: int| #[trigger]
        common_prefix(b, c, m) && m < c.len() && (m == b.len() || b[m] < c[m]);
    let n = if k <= m { k } else { m };
    assert forall|i: int| 0 <= i < n implies a[i] == c[i] by {
        assert(a[i] == b[i]);
        assert(b[i] == c[i]);
    }
    assert(common_prefix(a, c, n));
    if k < m {
        assert(b[k] == c[k]);
    } else if m < k {
        assert(a[m] == b[m]);
    }
}

proof fn lemma_lex_total_from(a: Seq<u8>, b: Seq<u8>, k: int)
    requires
        common_prefix(a, b, k),
        a != b,
    ensures
        lex_before(a, b) || lex_before(b, a),
    decreases a.len() - k,
{
    assert(common_prefix(b, a, k));
    if k == a.len() {
        if k == b.len() {
            assert(a =~= b);
        }
    } else if k == b.len() {
    } else if a[k] == b[k] {
        assert(common_prefix(a, b, k + 1));
        lemma_lex_total_from(a, b, k + 1);
    }
}

/// Of two different sequences one comes before the other.
pub proof fn lemma_lex_total(a: Seq<u8>, b: Seq<u8>)
    requires
        a != b,
    ensures
        lex_before(a, b) || lex_before(b, a),
{
    assert(common_prefix(a, b, 0));
    lemma_lex_total_from(a, b, 0);
}

/// Two texts with the same UTF-8 bytes are the same text.
pub proof fn lemma_bytes_determine_text(a: Seq<char>, b: Seq<char>)
    requires
        encode_utf8(a) == encode_utf8(b),
    ensures
        a == b,
{
    encode_utf8_decode_utf8(a);
    encode_utf8_decode_utf8(b);
}

/// Compares two byte slices lexicographically.
pub fn order_bytes(a: &[u8], b: &[u8]) -> (o: Order)
    ensures
        o == lex_order(a@, b@),
{
    let mut i: usize = 0;
    while i < a.len() && i < b.len()
        invariant
            common_prefix(a@, b@, i as int),
        decreases a.len() - i,
    {
        if a[i] < b[i] {
            return Order::Before;
        }
        if a[i] > b[i] {
            assert(!lex_before(a@, b@)) by {
                if lex_before(a@, b@) {
                    let k = choose|k: int| #[trigger]
                        common_prefix(a@, b@, k) && k < b@.len() && (k == a@.len() || a@[k]
                            < b@[k]);
                    if k < i {
                        assert(a@[k] == b@[k]);
                    } else if i < k {
                        assert(a@[i as int] == b@[i as int]);
                    }
                }
            }
            return Order::After;
        }
        i = i + 1;
    }
    if a.len() < b.len() {
        Order::Before
    } else {
        assert(!lex_before(a@, b@)) by {
            if lex_before(a@, b@) {
                let k = choose|k: int| #[trigger]
                    common_prefix(a@, b@, k) && k < b@.len() && (k == a@.len() || a@[k] < b@[k]);
                assert(a@[k] == b@[k]);
            }
        }
        if a.len() == b.len() {
            assert(a@ =~= b@);
            Order::Same
        } else {
            Order::After
        }
    }
}

/// Compares two texts: case-sensitive, lexicographic by UTF-8 bytes.
pub fn order_text(a: &str, b: &str) -> (o: Order)
    ensures
        o == text_order(a@, b@),
        (o == Order::Same) == (a@ == b@),
{
    proof {
        if encode_utf8(a@) == encode_utf8(b@) {
            lemma_bytes_determine_text(a@, b@);
        }
        lemma_lex_irreflexive(encode_utf8(a@));
    }
    order_bytes(a.as_bytes(), b.as_bytes())
}

/// Whether two texts are the same.
pub fn same_text(a: &str, b: &str) -> (same: bool)
    ensures
        same == (a@ == b@),
{
    match order_text(a, b) {
        Order::Same => true,
        _ => false,
    }
}

/// The character of one decimal digit.
pub open spec fn digit_char(d: int) -> char {
    if d == 0 {
        '0'
    } else if d == 1 {
        '1'
    } else if d == 2 {
        '2'
    } else if d == 3 {
        '3'
    } else if d == 4 {
        '4'
    } else if d == 5 {
        '5'
    } else if d == 6 {
        '6'
    } else if d == 7 {
        '7'
    } else if d == 8 {
        '8'
    } else {
        '9'
    }
}

/// The decimal numeral of a natural number, without leading zeros.
pub open spec fn decimal(n: nat) -> Seq<char>
    decreases n,
{
    if n < 10 {
        seq![digit_char(n as int)]
    } else {
        decimal(n / 10).push(digit_char((n % 10) as int))
    }
}

/// The decimal numeral of an integer, with a minus sign where it is negative.
pub open spec fn signed_decimal(n: int) -> Seq<char> {
    if n < 0 {
        seq!['-'] + decimal((-n) as nat)
    } else {
        decimal(n as nat)
    }
}

fn digit_text(d: u64) -> (t: &'static str)
    requires
        d < 10,
    ensures
        t@ == seq![digit_char(d as int)],
{
    proof {
        reveal_strlit("0");
        reveal_strlit("1");
        reveal_strlit("2");
        reveal_strlit("3");
        reveal_strlit("4");
        reveal_strlit("5");
        reveal_strlit("6");
        reveal_strlit("7");
        reveal_strlit("8");
        reveal_strlit("9");
    }
    let t: &'static str = if d == 0 {
        "0"
    } else if d == 1 {
        "1"
    } else if d == 2 {
        "2"
    } else if d == 3 {
        "3"
    } else if d == 4 {
        "4"
    } else if d == 5 {
        "5"
    } else if d == 6 {
        "6"
    } else if d == 7 {
        "7"
    } else if d == 8 {
        "8"
    } else {
        "9"
    };
    assert(t@ =~= seq![digit_char(d as int)]);
    t
}

/// Appends the decimal numeral of `n` to `text`.
pub fn push_decimal(text: &mut String, n: u64)
    ensures
        final(text)@ == old(text)@ + decimal(n as nat),
    decreases n,
{
    if n >= 10 {
        push_decimal(text, n / 10);
    }
    text.append(digit_text(n % 10));
    proof {
        if n >= 10 {
            assert(old(text)@ + decimal((n / 10) as nat) + seq![digit_char((n % 10) as int)]
                =~= old(text)@ + decimal(n as nat));
        } else {
            assert(old(text)@ + seq![digit_char((n % 10) as int)] =~= old(text)@ + decimal(
                n as nat,
            ));
        }
    }
}

/// Appends the decimal numeral of `n`, with its sign, to `text`.
pub fn push_signed_decimal(text: &mut String, n: i64)
    ensures
        final(text)@ == old(text)@ + signed_decimal(n as int),
{
    if n < 0 {
        proof {
            reveal_strlit("-");
        }
        text.append("-");
        let magnitude: u64 = ((-(n + 1)) as u64) + 1;
        push_decimal(text, magnitude);
        assert(old(text)@ + "-"@ + decimal(magnitude as nat) =~= old(text)@ + signed_decimal(
            n as int,
        ));
    } else {
        push_decimal(text, n as u64);
    }
}

/// A copy of an optional text.
pub fn copy_optional_text(text: &Option<String>) -> (copy: Option<String>)
    ensures
        copy == *text,
{
    match text {
        Some(t) => Some(t.clone()),
        None => None,
    }
}

/// Whether a character is a decimal digit.
pub open spec fn is_digit(c: char) -> bool {
    exists|d: int| 0 <= d < 10 && #[trigger] digit_char(d) == c
}

/// Different digits have different characters, and none is a colon or a
/// minus sign.
pub proof fn lemma_digit_chars(a: int, b: int)
    requires
        0 <= a < 10,
        0 <= b < 10,
    ensures
        digit_char(a) == digit_char(b) ==> a == b,
        digit_char(a) != ':',
        digit_char(a) != '-',
        is_digit(digit_char(a)),
{
}

/// A decimal numeral is not empty and holds digits only.
pub proof fn lemma_decimal_digits(n: nat)
    ensures
        decimal(n).len() >= 1,
        n >= 10 ==> decimal(n).len() >= 2,
        forall|i: int| 0 <= i < decimal(n).len() ==> is_digit(#[trigger] decimal(n)[i]),
    decreases n,
{
    if n < 10 {
        lemma_digit_chars(n as int, 0);
    } else {
        lemma_decimal_digits(n / 10);
        lemma_digit_chars((n % 10) as int, 0);
    }
}

/// Different numbers have different decimal numerals.
pub proof fn lemma_decimal_injective(n: nat, m: nat)
    requires
        decimal(n) == decimal(m),
    ensures
        n == m,
    decreases n,
{
    lemma_decimal_digits(n);
    lemma_decimal_digits(m);
    if n < 10 && m < 10 {
        assert(decimal(n)[0] == digit_char(n as int));
        assert(decimal(m)[0] == digit_char(m as int));
        lemma_digit_chars(n as int, m as int);
    } else if n >= 10 && m >= 10 {
        let a = decimal(n / 10);
        let b = decimal(m / 10);
        let x = digit_char((n % 10) as int);
        let y = digit_char((m % 10) as int);
        assert(decimal(n) == a.push(x));
        assert(decimal(m) == b.push(y));
        assert(a.push(x).last() == x);
        assert(b.push(y).last() == y);
        assert(x == y);
        assert(a =~= a.push(x).drop_last());
        assert(b =~= b.push(y).drop_last());
        assert(a == b);
        lemma_digit_chars((n % 10) as int, (m % 10) as int);
        lemma_decimal_injective(n / 10, m / 10);
        assert(n == 10 * (n / 10) + n % 10);
        assert(m == 10 * (m / 10) + m % 10);
    } else if n < 10 {
        assert(decimal(n).len() == 1);
    } else {
        assert(decimal(m).len() == 1);
    }
}

/// The numeral of an integer is not empty, and but for a minus sign at its
/// start it holds digits only.
pub proof fn lemma_signed_decimal_chars(n: int)
    ensures
        signed_decimal(n).len() >= 1,
        forall|i: int|
            0 <= i < signed_decimal(n).len() ==> (#[trigger] signed_decimal(n)[i]) != ':',
        n < 0 <==> signed_decimal(n)[0] == '-',
{
    if n < 0 {
        lemma_decimal_digits((-n) as nat);
        let digits = decimal((-n) as nat);
        assert forall|i: int| 0 <= i < signed_decimal(n).len() implies (#[trigger] signed_decimal(
            n,
        )[i]) != ':' by {
            if i > 0 {
                assert(signed_decimal(n)[i] == digits[i - 1]);
                assert(is_digit(digits[i - 1]));
                let d = choose|d: int| 0 <= d < 10 && #[trigger] digit_char(d) == digits[i - 1];
                lemma_digit_chars(d, 0);
            }
        }
    } else {
        lemma_decimal_digits(n as nat);
        let digits = decimal(n as nat);
        assert forall|i: int| 0 <= i < digits.len() implies (#[trigger] digits[i]) != ':'
            && digits[i] != '-' by {
            assert(is_digit(digits[i]));
            let d = choose|d: int| 0 <= d < 10 && #[trigger] digit_char(d) == digits[i];
            lemma_digit_chars(d, 0);
        }
    }
}

/// Different integers have different numerals.
pub proof fn lemma_signed_decimal_injective(n: int, m: int)
    requires
        signed_decimal(n) == signed_decimal(m),
    ensures
        n == m,
{
    lemma_signed_decimal_chars(n);
    lemma_signed_decimal_chars(m);
    if n < 0 {
        let a = decimal((-n) as nat);
        let b = decimal((-m) as nat);
        assert(a =~= signed_decimal(n).drop_first());
        assert(b =~= signed_decimal(m).drop_first());
        lemma_decimal_injective((-n) as nat, (-m) as nat);
    } else {
        lemma_decimal_injective(n as nat, m as nat);
    }
}

/// A decimal numeral holds no colon.
pub proof fn lemma_decimal_has_no_colon(n: nat)
    ensures
        forall|i: int| 0 <= i < decimal(n).len() ==> (#[trigger] decimal(n)[i]) != ':',
{
    lemma_decimal_digits(n);
    let digits = decimal(n);
    assert forall|i: int| 0 <= i < digits.len() implies (#[trigger] digits[i]) != ':' by {
        assert(is_digit(digits[i]));
        let d = choose|d: int| 0 <= d < 10 && #[trigger] digit_char(d) == digits[i];
        lemma_digit_chars(d, 0);
    }
}

/// Two texts that start alike and go on differently differ.
pub proof fn lemma_same_start(start: Seq<char>, a: Seq<char>, b: Seq<char>)
    requires
        start + a == start + b,
    ensures
        a == b,
{
    assert(a =~= (start + a).subrange(start.len() as int, (start + a).len() as int));
    assert(b =~= (start + b).subrange(start.len() as int, (start + b).len() as int));
}

/// A text that ends in a colon and a part without colons is taken apart in
/// one way only.
pub proof fn lemma_split_at_last_colon(a: Seq<char>, x: Seq<char>, b: Seq<char>, y: Seq<char>)
    requires
        a + seq![':'] + x == b + seq![':'] + y,
        forall|i: int| 0 <= i < x.len() ==> (#[trigger] x[i]) != ':',
        forall|i: int| 0 <= i < y.len() ==> (#[trigger] y[i]) != ':',
    ensures
        a == b,
        x == y,
{
    let left = a + seq![':'] + x;
    let right = b + seq![':'] + y;
    assert(left.len() == right.len());
    if x.len() < y.len() {
        let at = a.len() as int;
        assert(left[at] == ':');
        assert(right[at] == y[at - b.len() - 1]);
    } else if y.len() < x.len() {
        let at = b.len() as int;
        assert(right[at] == ':');
        assert(left[at] == x[at - a.len() - 1]);
    }
    assert(a.len() == b.len());
    assert(a =~= left.subrange(0, a.len() as int));
    assert(b =~= right.subrange(0, b.len() as int));
    assert(x =~= left.subrange(a.len() as int + 1, left.len() as int));
    assert(y =~= right.subrange(b.len() as int + 1, right.len() as int));
}

/// A text that starts with a part without colons and a colon is taken apart
/// in one way only.
pub proof fn lemma_split_at_first_colon(a: Seq<char>, x: Seq<char>, b: Seq<char>, y: Seq<char>)
    requires
        a + seq![':'] + x == b + seq![':'] + y,
        forall|i: int| 0 <= i < a.len() ==> (#[trigger] a[i]) != ':',
        forall|i: int| 0 <= i < b.len() ==> (#[trigger] b[i]) != ':',
    ensures
        a == b,
        x == y,
{
    let left = a + seq![':'] + x;
    let right = b + seq![':'] + y;
    assert(left.len() == right.len());
    if a.len() < b.len() {
        let at = a.len() as int;
        assert(left[at] == ':');
        assert(right[at] == b[at]);
    } else if b.len() < a.len() {
        let at = b.len() as int;
        assert(right[at] == ':');
        assert(left[at] == a[at]);
    }
    assert(a =~= left.subrange(0, a.len() as int));
    assert(b =~= right.subrange(0, b.len() as int));
    assert(x =~= left.subrange(a.len() as int + 1, left.len() as int));
    assert(y =~= right.subrange(b.len() as int + 1, right.len() as int));
}

/// `needle` stands in `haystack` at the place `at`.
pub open spec fn occurs_at(haystack: Seq<u8>, needle: Seq<u8>, at: int) -> bool {
    &&& 0 <= at
    &&& at + needle.len() <= haystack.len()
    &&& haystack.subrange(at, at + needle.len()) == needle
}

/// `needle` stands somewhere in `haystack`.
pub open spec fn occurs_in(haystack: Seq<u8>, needle: Seq<u8>) -> bool {
    exists|at: int| occurs_at(haystack, needle, at)
}

/// The text `needle` is a part of the text `haystack`, byte for byte.
pub open spec fn text_occurs_in(haystack: Seq<char>, needle: Seq<char>) -> bool {
    occurs_in(encode_utf8(haystack), encode_utf8(needle))
}

/// Whether `needle` stands in `haystack` at the place `at`.
fn bytes_match_at(haystack: &[u8], needle: &[u8], at: usize) -> (matches: bool)
    requires
        at + needle@.len() <= haystack@.len(),
    ensures
        matches == occurs_at(haystack@, needle@, at as int),
{
    let size: usize = haystack.len();
    let mut k: usize = 0;
    while k < needle.len()
        invariant
            k <= needle@.len(),
            at + needle@.len() <= haystack@.len(),
            size == haystack@.len(),
            forall|j: int| 0 <= j < k ==> haystack@[at + j] == needle@[j],
        decreases needle@.len() - k,
    {
        if haystack[at + k] != needle[k] {
            assert(haystack@.subrange(at as int, at + needle@.len())[k as int]
                != needle@[k as int]);
            return false;
        }
        k = k + 1;
    }
    assert(haystack@.subrange(at as int, at + needle@.len()) =~= needle@);
    true
}

/// Whether `needle` stands somewhere in `haystack`.
pub fn bytes_contain(haystack: &[u8], needle: &[u8]) -> (found: bool)
    ensures
        found == occurs_in(haystack@, needle@),
{
    if needle.len() > haystack.len() {
        return false;
    }
    let last: usize = haystack.len() - needle.len();
    let mut at: usize = 0;
    loop
        invariant
            at <= last,
            last + needle@.len() == haystack@.len(),
            forall|j: int| 0 <= j < at ==> !occurs_at(haystack@, needle@, j),
        decreases last - at,
    {
        if bytes_match_at(haystack, needle, at) {
            return true;
        }
        if at == last {
            return false;
        }
        at = at + 1;
    }
}

/// Whether the text `needle` is a part of the text `haystack`.
pub fn text_contains(haystack: &str, needle: &str) -> (found: bool)
    ensures
        found == text_occurs_in(haystack@, needle@),
{
    bytes_contain(haystack.as_bytes(), needle.as_bytes())
}

} // verus!
