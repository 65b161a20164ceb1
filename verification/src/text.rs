//! Character-level text handling: trimming, comparison, searching and
//! decimal rendering, all stated over the `Seq<char>` view of strings.
use vstd::prelude::*;

verus! {

broadcast use vstd::string::group_string_axioms;

// ---------------------------------------------------------------------
// Specifications
// ---------------------------------------------------------------------
/// The character views of a sequence of strings.
pub open spec fn strs(v: Seq<String>) -> Seq<Seq<char>> {
    v.map_values(|s: String| s@)
}

/// The view of an optional string.
pub open spec fn opt_str(o: Option<String>) -> Option<Seq<char>> {
    match o {
        Some(s) => Some(s@),
        None => None,
    }
}

/// The Unicode `White_Space` property, which `char::is_whitespace` tests.
pub open spec fn is_ws(c: char) -> bool {
    let u = c as u32;
    ||| 0x9 <= u <= 0xD
    ||| u == 0x20
    ||| u == 0x85
    ||| u == 0xA0
    ||| u == 0x1680
    ||| 0x2000 <= u <= 0x200A
    ||| u == 0x2028
    ||| u == 0x2029
    ||| u == 0x202F
    ||| u == 0x205F
    ||| u == 0x3000
}

/// `s` with its leading whitespace removed.
pub open spec fn trim_start_seq(s: Seq<char>) -> Seq<char>
    decreases s.len(),
{
    if s.len() > 0 && is_ws(s[0]) {
        trim_start_seq(s.drop_first())
    } else {
        s
    }
}

/// `s` with its trailing whitespace removed.
pub open spec fn trim_end_seq(s: Seq<char>) -> Seq<char>
    decreases s.len(),
{
    if s.len() > 0 && is_ws(s.last()) {
        trim_end_seq(s.drop_last())
    } else {
        s
    }
}

/// `s` with whitespace removed at both ends (what `str::trim` gives).
pub open spec fn trim_seq(s: Seq<char>) -> Seq<char> {
    trim_end_seq(trim_start_seq(s))
}

/// `s` with every trailing `c` removed (what `trim_end_matches(c)` gives).
pub open spec fn strip_end_char(s: Seq<char>, c: char) -> Seq<char>
    decreases s.len(),
{
    if s.len() > 0 && s.last() == c {
        strip_end_char(s.drop_last(), c)
    } else {
        s
    }
}

/// `s` with every leading `c` removed (what `trim_start_matches(c)` gives).
pub open spec fn strip_start_char(s: Seq<char>, c: char) -> Seq<char>
    decreases s.len(),
{
    if s.len() > 0 && s[0] == c {
        strip_start_char(s.drop_first(), c)
    } else {
        s
    }
}

/// `s` with every leading repetition of the non-empty pattern `p` removed
/// (what `trim_start_matches(p)` gives for a string pattern).
pub open spec fn strip_start_seq(s: Seq<char>, p: Seq<char>) -> Seq<char>
    decreases s.len(),
{
    if p.len() > 0 && p.is_prefix_of(s) {
        strip_start_seq(s.skip(p.len() as int), p)
    } else {
        s
    }
}

/// `s` with every trailing repetition of the non-empty pattern `p` removed
/// (what `trim_end_matches(p)` gives for a string pattern).
pub open spec fn strip_end_seq(s: Seq<char>, p: Seq<char>) -> Seq<char>
    decreases s.len(),
{
    if p.len() > 0 && p.is_suffix_of(s) {
        strip_end_seq(s.take(s.len() - p.len()), p)
    } else {
        s
    }
}

/// `a` comes strictly before `b` in the order of `str` (code point by code point).
pub open spec fn lex_lt(a: Seq<char>, b: Seq<char>) -> bool
    decreases a.len(),
{
    if a.len() == 0 {
        b.len() > 0
    } else if b.len() == 0 {
        false
    } else if a[0] != b[0] {
        (a[0] as int) < (b[0] as int)
    } else {
        lex_lt(a.drop_first(), b.drop_first())
    }
}

/// `p` occurs in `s` starting at position `i`.
pub open spec fn occurs_at(s: Seq<char>, p: Seq<char>, i: int) -> bool {
    0 <= i && i + p.len() <= s.len() && s.subrange(i, i + p.len()) == p
}

/// `p` occurs somewhere in `s`.
pub open spec fn contains_seq(s: Seq<char>, p: Seq<char>) -> bool {
    exists|i: int| occurs_at(s, p, i)
}

/// The decimal digit character for `d < 10`.
pub open spec fn digit_char(d: nat) -> char {
    if d == 0 {
        '0'
    } else if d == 1 {
        '1'
    } else if d == 2 {
        '2'
    } else if d == 3 {
        '3'
    } else if d == 4 {
        '4'
    } else if d == 5 {
        '5'
    } else if d == 6 {
        '6'
    } else if d == 7 {
        '7'
    } else if d == 8 {
        '8'
    } else {
        '9'
    }
}

/// The decimal rendering of a natural number, without leading zeros.
pub open spec fn nat_decimal(n: nat) -> Seq<char>
    decreases n,
{
    if n < 10 {
        seq![digit_char(n)]
    } else {
        nat_decimal(n / 10).push(digit_char(n % 10))
    }
}

/// The decimal rendering of an integer, as `Display` writes it.
pub open spec fn int_decimal(n: int) -> Seq<char> {
    if n < 0 {
        seq!['-'] + nat_decimal((-n) as nat)
    } else {
        nat_decimal(n as nat)
    }
}

/// Every character of `s` is an ASCII letter or digit.
pub open spec fn is_ascii_alphanumeric_seq(s: Seq<char>) -> bool {
    forall|i: int|
        0 <= i < s.len() ==> {
            let u = #[trigger] s[i] as u32;
            (0x30 <= u <= 0x39) || (0x41 <= u <= 0x5A) || (0x61 <= u <= 0x7A)
        }
}

/// ASCII lower-casing of one character; other characters are unchanged.
pub open spec fn ascii_lower(c: char) -> char {
    if 'A' <= c && c <= 'Z' {
        ((c as u32) + 32) as char
    } else {
        c
    }
}

/// ASCII lower-casing of a whole sequence.
pub open spec fn ascii_lower_seq(s: Seq<char>) -> Seq<char> {
    s.map_values(|c: char| ascii_lower(c))
}

// ---------------------------------------------------------------------
// Lemmas about the specifications
// ---------------------------------------------------------------------
/// Skipping one more leading character after skipping `i`.
pub proof fn lemma_skip_drop_first(s: Seq<char>, i: int)
    requires
        0 <= i < s.len(),
    ensures
        s.skip(i).drop_first() == s.skip(i + 1),
{
    assert(s.skip(i).drop_first() =~= s.skip(i + 1));
}

/// Leading whitespace at positions below `i` does not change `trim_start_seq`.
proof fn lemma_trim_start_skip(s: Seq<char>, i: int)
    requires
        0 <= i <= s.len(),
        forall|k: int| 0 <= k < i ==> is_ws(#[trigger] s[k]),
    ensures
        trim_start_seq(s.skip(i)) == trim_start_seq(s),
    decreases i,
{
    if i > 0 {
        lemma_trim_start_skip(s, i - 1);
        lemma_skip_drop_first(s, i - 1);
        assert(s.skip(i - 1)[0] == s[i - 1]);
    } else {
        assert(s.skip(0) =~= s);
    }
}

/// Trailing whitespace at positions from `j` on does not change `trim_end_seq`.
proof fn lemma_trim_end_take(s: Seq<char>, j: int)
    requires
        0 <= j <= s.len(),
        forall|k: int| j <= k < s.len() ==> is_ws(#[trigger] s[k]),
    ensures
        trim_end_seq(s.take(j)) == trim_end_seq(s),
    decreases s.len() - j,
{
    if j < s.len() {
        lemma_trim_end_take(s, j + 1);
        assert(s.take(j + 1).drop_last() =~= s.take(j));
        assert(s.take(j + 1).last() == s[j]);
    } else {
        assert(s.take(j) =~= s);
    }
}

/// Trailing copies of `c` at positions from `j` on do not change `strip_end_char`.
proof fn lemma_strip_end_char_take(s: Seq<char>, c: char, j: int)
    requires
        0 <= j <= s.len(),
        forall|k: int| j <= k < s.len() ==> #[trigger] s[k] == c,
    ensures
        strip_end_char(s.take(j), c) == strip_end_char(s, c),
    decreases s.len() - j,
{
    if j < s.len() {
        lemma_strip_end_char_take(s, c, j + 1);
        assert(s.take(j + 1).drop_last() =~= s.take(j));
        assert(s.take(j + 1).last() == s[j]);
    } else {
        assert(s.take(j) =~= s);
    }
}

/// Leading copies of `c` below position `i` do not change `strip_start_char`.
proof fn lemma_strip_start_char_skip(s: Seq<char>, c: char, i: int)
    requires
        0 <= i <= s.len(),
        forall|k: int| 0 <= k < i ==> #[trigger] s[k] == c,
    ensures
        strip_start_char(s.skip(i), c) == strip_start_char(s, c),
    decreases i,
{
    if i > 0 {
        lemma_strip_start_char_skip(s, c, i - 1);
        lemma_skip_drop_first(s, i - 1);
        assert(s.skip(i - 1)[0] == s[i - 1]);
    } else {
        assert(s.skip(0) =~= s);
    }
}

/// Comparing after a common prefix of length `i`.
proof fn lemma_lex_lt_skip(a: Seq<char>, b: Seq<char>, i: int)
    requires
        0 <= i <= a.len(),
        i <= b.len(),
        a.take(i) == b.take(i),
    ensures
        lex_lt(a.skip(i), b.skip(i)) == lex_lt(a, b),
    decreases i,
{
    if i > 0 {
        assert(a.take(i - 1) =~= a.take(i).take(i - 1));
        assert(b.take(i - 1) =~= b.take(i).take(i - 1));
        lemma_lex_lt_skip(a, b, i - 1);
        lemma_skip_drop_first(a, i - 1);
        lemma_skip_drop_first(b, i - 1);
        assert(a[i - 1] == a.take(i)[i - 1]);
        assert(b[i - 1] == b.take(i)[i - 1]);
    } else {
        assert(a.skip(0) =~= a);
        assert(b.skip(0) =~= b);
    }
}

/// `lex_lt` is irreflexive.
pub proof fn lemma_lex_lt_irreflexive(a: Seq<char>)
    ensures
        !lex_lt(a, a),
    decreases a.len(),
{
    if a.len() > 0 {
        lemma_lex_lt_irreflexive(a.drop_first());
    }
}

/// `lex_lt` is asymmetric.
pub proof fn lemma_lex_lt_asymmetric(a: Seq<char>, b: Seq<char>)
    ensures
        lex_lt(a, b) ==> !lex_lt(b, a),
    decreases a.len(),
{
    if a.len() > 0 && b.len() > 0 && a[0] == b[0] {
        lemma_lex_lt_asymmetric(a.drop_first(), b.drop_first());
    }
}

/// `lex_lt` is a total order: distinct sequences are comparable.
pub proof fn lemma_lex_lt_total(a: Seq<char>, b: Seq<char>)
    ensures
        a != b ==> lex_lt(a, b) || lex_lt(b, a),
    decreases a.len(),
{
    if a.len() > 0 && b.len() > 0 && a[0] == b[0] {
        lemma_lex_lt_total(a.drop_first(), b.drop_first());
        if a.drop_first() == b.drop_first() {
            assert(a =~= seq![a[0]] + a.drop_first());
            assert(b =~= seq![b[0]] + b.drop_first());
        }
    } else if a.len() == 0 && b.len() == 0 {
        assert(a =~= b);
    } else if a.len() > 0 && b.len() > 0 {
        assert((a[0] as int) != (b[0] as int));
    }
}

/// `lex_lt` is transitive.
pub proof fn lemma_lex_lt_transitive(a: Seq<char>, b: Seq<char>, c: Seq<char>)
    requires
        lex_lt(a, b),
        lex_lt(b, c),
    ensures
        lex_lt(a, c),
    decreases a.len(),
{
    if a.len() > 0 && b.len() > 0 && c.len() > 0 && a[0] == b[0] && b[0] == c[0] {
        lemma_lex_lt_transitive(a.drop_first(), b.drop_first(), c.drop_first());
    }
}

/// A decimal rendering is never empty and holds only digits.
pub proof fn lemma_nat_decimal_digits(n: nat)
    ensures
        nat_decimal(n).len() >= 1,
        forall|i: int|
            0 <= i < nat_decimal(n).len() ==> '0' <= #[trigger] nat_decimal(n)[i] && nat_decimal(
                n,
            )[i] <= '9',
    decreases n,
{
    if n >= 10 {
        lemma_nat_decimal_digits(n / 10);
    }
}

/// What `trim_start_seq` leaves: a suffix that does not begin with whitespace.
pub proof fn lemma_trim_start_shape(s: Seq<char>)
    ensures
        exists|k: int| 0 <= k <= s.len() && trim_start_seq(s) == s.skip(k),
        trim_start_seq(s).len() == 0 || !is_ws(trim_start_seq(s)[0]),
    decreases s.len(),
{
    if s.len() > 0 && is_ws(s[0]) {
        lemma_trim_start_shape(s.drop_first());
        let k = choose|k: int| 0 <= k <= s.drop_first().len() && trim_start_seq(s.drop_first()) == s.drop_first().skip(k);
        assert(s.drop_first().skip(k) =~= s.skip(k + 1));
    } else {
        assert(s.skip(0) =~= s);
    }
}

/// What `trim_end_seq` leaves: a prefix that does not end with whitespace.
pub proof fn lemma_trim_end_shape(s: Seq<char>)
    ensures
        exists|k: int| 0 <= k <= s.len() && trim_end_seq(s) == s.take(k),
        trim_end_seq(s).len() == 0 || !is_ws(trim_end_seq(s).last()),
    decreases s.len(),
{
    if s.len() > 0 && is_ws(s.last()) {
        lemma_trim_end_shape(s.drop_last());
        let k = choose|k: int| 0 <= k <= s.drop_last().len() && trim_end_seq(s.drop_last()) == s.drop_last().take(k);
        assert(s.drop_last().take(k) =~= s.take(k));
    } else {
        assert(s.take(s.len() as int) =~= s);
    }
}

/// A trimmed sequence is empty or has no whitespace at either end.
pub proof fn lemma_trim_shape(s: Seq<char>)
    ensures
        trim_seq(s).len() == 0 || (!is_ws(trim_seq(s)[0]) && !is_ws(trim_seq(s).last())),
{
    let v = trim_start_seq(s);
    lemma_trim_start_shape(s);
    lemma_trim_end_shape(v);
    let k = choose|k: int| 0 <= k <= v.len() && trim_end_seq(v) == v.take(k);
    if trim_seq(s).len() > 0 {
        assert(trim_seq(s)[0] == v[0]);
    }
}

/// Trimming twice is trimming once.
pub proof fn lemma_trim_idempotent(s: Seq<char>)
    ensures
        trim_seq(trim_seq(s)) == trim_seq(s),
{
    lemma_trim_shape(s);
    let u = trim_seq(s);
    assert(trim_start_seq(u) == u);
    assert(trim_end_seq(u) == u);
}

/// Every character of `s` is an ASCII digit.
pub open spec fn all_digits(s: Seq<char>) -> bool {
    forall|i: int| 0 <= i < s.len() ==> '0' <= #[trigger] s[i] && s[i] <= '9'
}

/// The value of a string of decimal digits.
pub open spec fn digits_value(s: Seq<char>) -> int
    decreases s.len(),
{
    if s.len() == 0 {
        0
    } else {
        digits_value(s.drop_last()) * 10 + (s.last() as int - '0' as int)
    }
}

/// The integer that text denotes as `str::parse` reads it: an optional `+`
/// or `-`, then at least one decimal digit and nothing else.
pub open spec fn int_text_value(s: Seq<char>) -> Option<int> {
    let neg = s.len() > 0 && s[0] == '-';
    let body = if s.len() > 0 && (s[0] == '-' || s[0] == '+') {
        s.drop_first()
    } else {
        s
    };
    if body.len() == 0 || !all_digits(body) {
        None
    } else if neg {
        Some(-digits_value(body))
    } else {
        Some(digits_value(body))
    }
}

/// `str::parse::<i32>`: the value, where it is in range.
pub open spec fn parse_i32_value(s: Seq<char>) -> Option<i32> {
    match int_text_value(s) {
        Some(v) => if i32::MIN <= v <= i32::MAX {
            Some(v as i32)
        } else {
            None
        },
        None => None,
    }
}

/// The value of digits is never negative.
pub proof fn lemma_digits_value_nonneg(s: Seq<char>)
    requires
        all_digits(s),
    ensures
        digits_value(s) >= 0,
    decreases s.len(),
{
    if s.len() > 0 {
        assert(all_digits(s.drop_last())) by {
            assert forall|i: int| 0 <= i < s.drop_last().len() implies '0' <= #[trigger] s.drop_last()[i] && s.drop_last()[i] <= '9' by {
                assert(s.drop_last()[i] == s[i]);
            }
        }
        lemma_digits_value_nonneg(s.drop_last());
        assert('0' <= s[s.len() - 1]);
    }
}

/// More digits never give a smaller value.
pub proof fn lemma_digits_value_prefix_bound(s: Seq<char>, k: int)
    requires
        all_digits(s),
        0 <= k <= s.len(),
    ensures
        digits_value(s) >= digits_value(s.take(k)),
    decreases s.len(),
{
    if k < s.len() {
        let d = s.drop_last();
        assert(all_digits(d)) by {
            assert forall|i: int| 0 <= i < d.len() implies '0' <= #[trigger] d[i] && d[i] <= '9' by {
                assert(d[i] == s[i]);
            }
        }
        lemma_digits_value_prefix_bound(d, k);
        lemma_digits_value_nonneg(d);
        assert(d.take(k) =~= s.take(k));
        assert('0' <= s[s.len() - 1]);
    } else {
        assert(s.take(k) =~= s);
    }
}

/// A digit character stands for its digit.
pub proof fn lemma_digit_char_value(d: nat)
    requires
        d < 10,
    ensures
        digit_char(d) as int - '0' as int == d,
        '0' <= digit_char(d) && digit_char(d) <= '9',
{
    assert('0' as int == 48);
    if d == 0 {
    } else if d == 1 {
        assert('1' as int == 49);
    } else if d == 2 {
        assert('2' as int == 50);
    } else if d == 3 {
        assert('3' as int == 51);
    } else if d == 4 {
        assert('4' as int == 52);
    } else if d == 5 {
        assert('5' as int == 53);
    } else if d == 6 {
        assert('6' as int == 54);
    } else if d == 7 {
        assert('7' as int == 55);
    } else if d == 8 {
        assert('8' as int == 56);
    } else {
        assert('9' as int == 57);
    }
}

/// Reading back a decimal rendering gives the number.
pub proof fn lemma_digits_value_of_decimal(n: nat)
    ensures
        digits_value(nat_decimal(n)) == n,
        all_digits(nat_decimal(n)),
        nat_decimal(n).len() > 0,
    decreases n,
{
    lemma_digit_char_value(n % 10);
    if n < 10 {
        let d = nat_decimal(n);
        assert(d.drop_last() =~= Seq::<char>::empty());
        assert(digits_value(d.drop_last()) == 0);
        assert(d.last() == digit_char(n));
        assert(digits_value(d) == digits_value(d.drop_last()) * 10 + (d.last() as int - '0' as int));
    }
    if n >= 10 {
        lemma_digits_value_of_decimal(n / 10);
        let d = nat_decimal(n);
        assert(d.drop_last() =~= nat_decimal(n / 10));
        assert(d.last() == digit_char(n % 10));
        assert(digits_value(d) == digits_value(nat_decimal(n / 10)) * 10 + (n % 10));
        assert((n / 10) * 10 + n % 10 == n);
        assert forall|i: int| 0 <= i < d.len() implies '0' <= #[trigger] d[i] && d[i] <= '9' by {
            if i < d.len() - 1 {
                assert(d[i] == nat_decimal(n / 10)[i]);
            }
        }
    }
}

/// Parsing the decimal rendering of an `i32` gives it back.
pub proof fn lemma_parse_i32_of_decimal(n: i32)
    ensures
        parse_i32_value(int_decimal(n as int)) == Some(n),
{
    if n < 0 {
        let m = (-n) as nat;
        lemma_digits_value_of_decimal(m);
        let s = int_decimal(n as int);
        assert(s.drop_first() =~= nat_decimal(m));
    } else {
        lemma_digits_value_of_decimal(n as nat);
        lemma_nat_decimal_digits(n as nat);
        let s = nat_decimal(n as nat);
        assert('0' <= s[0] && s[0] <= '9');
    }
}

// ---------------------------------------------------------------------
// Executable functions
// ---------------------------------------------------------------------
/// The characters of a string slice, in order.
pub fn chars_of(s: &str) -> (v: Vec<char>)
    ensures
        v@ == s@,
{
    let mut v: Vec<char> = Vec::new();
    for c in it: s.chars()
        invariant
            v@ == it.seq().take(it.index() as int),
            it.seq() == s@,
    {
        v.push(c);
    }
    v
}

/// Builds a `String` from its characters (std's `FromIterator<char>`).
#[verifier::external_body]
pub(crate) fn string_from_chars(v: &[char]) -> (s: String)
    ensures
        s@ == v@,
{
    v.iter().collect()
}

/// An owned copy of a string slice.
pub fn owned(s: &str) -> (r: String)
    ensures
        r@ == s@,
{
    s.to_string()
}

/// `char::is_whitespace`.
pub fn is_whitespace(c: char) -> (b: bool)
    ensures
        b == is_ws(c),
{
    let u = c as u32;
    (0x9 <= u && u <= 0xD) || u == 0x20 || u == 0x85 || u == 0xA0 || u == 0x1680 || (0x2000 <= u
        && u <= 0x200A) || u == 0x2028 || u == 0x2029 || u == 0x202F || u == 0x205F || u == 0x3000
}

/// The bounds of `v` once whitespace is trimmed from both ends.
pub fn trim_bounds(v: &[char]) -> (r: (usize, usize))
    ensures
        r.0 <= r.1 <= v@.len(),
        v@.subrange(r.0 as int, r.1 as int) == trim_seq(v@),
{
    let n = v.len();
    let mut i: usize = 0;
    while i < n && is_whitespace(v[i])
        invariant
            i <= n,
            n == v@.len(),
            forall|k: int| 0 <= k < i ==> is_ws(#[trigger] v@[k]),
        decreases n - i,
    {
        i = i + 1;
    }
    proof {
        lemma_trim_start_skip(v@, i as int);
        if i < n {
            assert(v@.skip(i as int)[0] == v@[i as int]);
        }
        assert(trim_start_seq(v@.skip(i as int)) == v@.skip(i as int));
    }
    let ghost t = v@.skip(i as int);
    let mut j: usize = n;
    while j > i && is_whitespace(v[j - 1])
        invariant
            i <= j <= n,
            n == v@.len(),
            t == v@.skip(i as int),
            forall|k: int| j <= k < n ==> is_ws(#[trigger] v@[k]),
        decreases j,
    {
        j = j - 1;
    }
    proof {
        assert forall|k: int| (j - i) <= k < t.len() implies is_ws(#[trigger] t[k]) by {
            assert(t[k] == v@[k + i]);
        }
        lemma_trim_end_take(t, (j - i) as int);
        if j > i {
            assert(t.take((j - i) as int).last() == v@[j - 1]);
        }
        assert(trim_end_seq(t.take((j - i) as int)) == t.take((j - i) as int));
        assert(v@.subrange(i as int, j as int) =~= t.take((j - i) as int));
    }
    (i, j)
}

/// `str::trim`: whitespace removed at both ends.
pub fn trim(s: &str) -> (r: String)
    ensures
        r@ == trim_seq(s@),
{
    let v = chars_of(s);
    let (a, b) = trim_bounds(v.as_slice());
    let sub = slice_range(v.as_slice(), a, b);
    string_from_chars(sub.as_slice())
}

/// The characters of `v` in the range `a..b`.
pub fn slice_range(v: &[char], a: usize, b: usize) -> (r: Vec<char>)
    requires
        a <= b <= v@.len(),
    ensures
        r@ == v@.subrange(a as int, b as int),
{
    let mut r: Vec<char> = Vec::new();
    let mut k = a;
    while k < b
        invariant
            a <= k <= b,
            b <= v@.len(),
            r@ == v@.subrange(a as int, k as int),
        decreases b - k,
    {
        r.push(v[k]);
        k = k + 1;
        assert(r@ =~= v@.subrange(a as int, k as int));
    }
    r
}

/// `trim_end_matches(c)` for a single character `c`.
pub fn strip_end_char_vec(v: &[char], c: char) -> (r: Vec<char>)
    ensures
        r@ == strip_end_char(v@, c),
{
    let mut j = v.len();
    while j > 0 && v[j - 1] == c
        invariant
            j <= v@.len(),
            forall|k: int| j <= k < v@.len() ==> #[trigger] v@[k] == c,
        decreases j,
    {
        j = j - 1;
    }
    proof {
        lemma_strip_end_char_take(v@, c, j as int);
        if j > 0 {
            assert(v@.take(j as int).last() == v@[j - 1]);
        }
        assert(strip_end_char(v@.take(j as int), c) == v@.take(j as int));
    }
    let r = slice_range(v, 0, j);
    assert(r@ =~= v@.take(j as int));
    r
}

/// `trim_start_matches(c)` for a single character `c`.
pub fn strip_start_char_vec(v: &[char], c: char) -> (r: Vec<char>)
    ensures
        r@ == strip_start_char(v@, c),
{
    let n = v.len();
    let mut i: usize = 0;
    while i < n && v[i] == c
        invariant
            i <= n,
            n == v@.len(),
            forall|k: int| 0 <= k < i ==> #[trigger] v@[k] == c,
        decreases n - i,
    {
        i = i + 1;
    }
    proof {
        lemma_strip_start_char_skip(v@, c, i as int);
        if i < n {
            assert(v@.skip(i as int)[0] == v@[i as int]);
        }
        assert(strip_start_char(v@.skip(i as int), c) == v@.skip(i as int));
    }
    let r = slice_range(v, i, n);
    assert(r@ =~= v@.skip(i as int));
    r
}

/// Whether `v` equals `w` character by character.
pub fn chars_eq(v: &[char], w: &[char]) -> (b: bool)
    ensures
        b == (v@ == w@),
{
    if v.len() != w.len() {
        return false;
    }
    let mut i: usize = 0;
    while i < v.len()
        invariant
            i <= v@.len(),
            v@.len() == w@.len(),
            forall|k: int| 0 <= k < i ==> v@[k] == w@[k],
        decreases v@.len() - i,
    {
        if v[i] != w[i] {
            return false;
        }
        i = i + 1;
    }
    assert(v@ =~= w@);
    true
}

/// String equality, stated over the character views.
pub fn str_eq(a: &str, b: &str) -> (r: bool)
    ensures
        r == (a@ == b@),
{
    let v = chars_of(a);
    let w = chars_of(b);
    chars_eq(v.as_slice(), w.as_slice())
}

/// Whether `p` is a prefix of `v` starting at offset `at`.
pub fn matches_at(v: &[char], p: &[char], at: usize) -> (b: bool)
    ensures
        b == occurs_at(v@, p@, at as int),
{
    if at > v.len() || p.len() > v.len() - at {
        return false;
    }
    let mut i: usize = 0;
    while i < p.len()
        invariant
            i <= p@.len(),
            at + p@.len() <= v@.len(),
            v@.len() == v.len(),
            forall|k: int| 0 <= k < i ==> v@[at + k] == p@[k],
        decreases p@.len() - i,
    {
        if v[at + i] != p[i] {
            assert(v@.subrange(at as int, at + p@.len())[i as int] != p@[i as int]);
            return false;
        }
        i = i + 1;
    }
    assert(v@.subrange(at as int, at + p@.len()) =~= p@);
    true
}

/// `str::starts_with` for a string pattern.
pub fn starts_with(v: &[char], p: &[char]) -> (b: bool)
    ensures
        b == p@.is_prefix_of(v@),
{
    let r = matches_at(v, p, 0);
    proof {
        if r {
            assert forall|k: int| 0 <= k < p@.len() implies p@[k] == v@[k] by {
                assert(v@.subrange(0, p@.len() as int)[k] == v@[k]);
            }
        } else if p@.is_prefix_of(v@) {
            assert(v@.subrange(0, p@.len() as int) =~= p@);
        }
    }
    r
}

/// `str::ends_with` for a string pattern.
pub fn ends_with(v: &[char], p: &[char]) -> (b: bool)
    ensures
        b == p@.is_suffix_of(v@),
{
    if p.len() > v.len() {
        return false;
    }
    let at = v.len() - p.len();
    let r = matches_at(v, p, at);
    proof {
        if r {
            assert forall|k: int| 0 <= k < p@.len() implies p@[k] == v@[v@.len() - p@.len() + k] by {
                assert(v@.subrange(at as int, at + p@.len())[k] == v@[at + k]);
            }
        } else if p@.is_suffix_of(v@) {
            assert(v@.subrange(at as int, at + p@.len()) =~= p@);
        }
    }
    r
}

/// `str::contains` for a string pattern.
pub fn contains_chars(v: &[char], p: &[char]) -> (b: bool)
    ensures
        b == contains_seq(v@, p@),
{
    if p.len() > v.len() {
        assert(!contains_seq(v@, p@));
        return false;
    }
    if p.len() == 0 {
        assert(v@.subrange(0, 0) =~= p@);
        assert(occurs_at(v@, p@, 0));
        return true;
    }
    let last = v.len() - p.len();
    let mut i: usize = 0;
    while i <= last
        invariant
            last == v@.len() - p@.len(),
            last < v.len(),
            i <= last + 1,
            forall|k: int| 0 <= k < i ==> !occurs_at(v@, p@, k),
        decreases last + 1 - i,
    {
        if matches_at(v, p, i) {
            return true;
        }
        i = i + 1;
    }
    assert forall|k: int| !occurs_at(v@, p@, k) by {
        if 0 <= k < i {
        }
    }
    false
}

/// `str::contains` for a single character.
pub fn contains_char(v: &[char], c: char) -> (b: bool)
    ensures
        b == v@.contains(c),
{
    let mut i: usize = 0;
    while i < v.len()
        invariant
            i <= v@.len(),
            forall|k: int| 0 <= k < i ==> v@[k] != c,
        decreases v@.len() - i,
    {
        if v[i] == c {
            return true;
        }
        i = i + 1;
    }
    false
}

/// Whether `a` comes strictly before `b` (`a < b` on strings).
pub fn chars_lt(a: &[char], b: &[char]) -> (r: bool)
    ensures
        r == lex_lt(a@, b@),
{
    let mut i: usize = 0;
    while i < a.len() && i < b.len() && a[i] == b[i]
        invariant
            i <= a@.len(),
            i <= b@.len(),
            a@.take(i as int) == b@.take(i as int),
        decreases a@.len() - i,
    {
        assert(a@.take(i + 1) =~= a@.take(i as int).push(a@[i as int]));
        assert(b@.take(i + 1) =~= b@.take(i as int).push(b@[i as int]));
        i = i + 1;
    }
    proof {
        lemma_lex_lt_skip(a@, b@, i as int);
        if i < a@.len() {
            assert(a@.skip(i as int)[0] == a@[i as int]);
        }
        if i < b@.len() {
            assert(b@.skip(i as int)[0] == b@[i as int]);
        }
    }
    if i == a.len() {
        i < b.len()
    } else if i == b.len() {
        false
    } else {
        a[i] < b[i]
    }
}

/// The decimal digit character for `d < 10`.
pub fn digit(d: u64) -> (c: char)
    requires
        d < 10,
    ensures
        c == digit_char(d as nat),
{
    if d == 0 {
        '0'
    } else if d == 1 {
        '1'
    } else if d == 2 {
        '2'
    } else if d == 3 {
        '3'
    } else if d == 4 {
        '4'
    } else if d == 5 {
        '5'
    } else if d == 6 {
        '6'
    } else if d == 7 {
        '7'
    } else if d == 8 {
        '8'
    } else {
        '9'
    }
}

/// The decimal digits of `n`.
pub fn u64_digits(n: u64) -> (v: Vec<char>)
    ensures
        v@ == nat_decimal(n as nat),
    decreases n,
{
    if n < 10 {
        let mut v: Vec<char> = Vec::new();
        v.push(digit(n));
        assert(v@ =~= seq![digit_char(n as nat)]);
        v
    } else {
        let mut v = u64_digits(n / 10);
        v.push(digit(n % 10));
        v
    }
}

/// The decimal rendering of an `i64`, as `to_string` writes it.
pub fn i64_digits(n: i64) -> (v: Vec<char>)
    ensures
        v@ == int_decimal(n as int),
{
    if n < 0 {
        let m: u64 = if n == i64::MIN {
            9223372036854775808u64
        } else {
            (-n) as u64
        };
        let d = u64_digits(m);
        let mut v: Vec<char> = Vec::new();
        v.push('-');
        let mut k: usize = 0;
        while k < d.len()
            invariant
                k <= d@.len(),
                v@ == seq!['-'] + d@.take(k as int),
            decreases d@.len() - k,
        {
            v.push(d[k]);
            k = k + 1;
            assert(v@ =~= seq!['-'] + d@.take(k as int));
        }
        assert(d@.take(d@.len() as int) =~= d@);
        v
    } else {
        u64_digits(n as u64)
    }
}

/// Appends all characters of `w` to `v`.
pub fn push_all(v: &mut Vec<char>, w: &[char])
    ensures
        final(v)@ == old(v)@ + w@,
{
    let ghost v0 = v@;
    let mut k: usize = 0;
    while k < w.len()
        invariant
            k <= w@.len(),
            v@ == v0 + w@.take(k as int),
        decreases w@.len() - k,
    {
        v.push(w[k]);
        k = k + 1;
        assert(v@ =~= v0 + w@.take(k as int));
    }
    assert(w@.take(w@.len() as int) =~= w@);
}

/// ASCII lower-casing (`to_ascii_lowercase`).
pub fn to_ascii_lower(v: &[char]) -> (r: Vec<char>)
    ensures
        r@ == ascii_lower_seq(v@),
{
    let mut r: Vec<char> = Vec::new();
    let mut k: usize = 0;
    while k < v.len()
        invariant
            k <= v@.len(),
            r@ == ascii_lower_seq(v@.take(k as int)),
        decreases v@.len() - k,
    {
        let c = v[k];
        let l = if 'A' <= c && c <= 'Z' {
            lower_ascii_letter(c)
        } else {
            c
        };
        r.push(l);
        k = k + 1;
        assert(r@ =~= ascii_lower_seq(v@.take(k as int)));
    }
    assert(v@.take(v@.len() as int) =~= v@);
    r
}

/// The lower-case form of an upper-case ASCII letter.
fn lower_ascii_letter(c: char) -> (l: char)
    requires
        'A' <= c && c <= 'Z',
    ensures
        l == ascii_lower(c),
{
    let u = c as u32 + 32;
    assert(0x61 <= u <= 0x7A);
    let l = char_from_ascii(u);
    l
}

/// The character with an ASCII code point.
fn char_from_ascii(u: u32) -> (c: char)
    requires
        u < 128,
    ensures
        c == u as char,
{
    let b: u8 = u as u8;
    b as char
}

/// `str::parse::<i32>`.
pub fn parse_i32(v: &[char]) -> (r: Option<i32>)
    ensures
        r == parse_i32_value(v@),
{
    let n = v.len();
    let neg = n > 0 && v[0] == '-';
    let start: usize = if n > 0 && (v[0] == '-' || v[0] == '+') {
        1
    } else {
        0
    };
    let ghost body = if v@.len() > 0 && (v@[0] == '-' || v@[0] == '+') {
        v@.drop_first()
    } else {
        v@
    };
    assert(body =~= v@.skip(start as int));
    if start == n {
        return None;
    }
    let mut acc: i64 = 0;
    let mut i = start;
    while i < n
        invariant
            start <= i <= n,
            n == v@.len(),
            body == v@.skip(start as int),
            body == (if v@.len() > 0 && (v@[0] == '-' || v@[0] == '+') {
                v@.drop_first()
            } else {
                v@
            }),
            neg == (v@.len() > 0 && v@[0] == '-'),
            all_digits(v@.subrange(start as int, i as int)),
            acc == digits_value(v@.subrange(start as int, i as int)),
            0 <= acc <= 2147483648,
        decreases n - i,
    {
        let c = v[i];
        if !('0' <= c && c <= '9') {
            proof {
                assert(body[i - start] == c);
                assert(!all_digits(body));
                assert(int_text_value(v@) is None);
            }
            return None;
        }
        let d = (c as u32 - '0' as u32) as i64;
        let next = acc * 10 + d;
        proof {
            let t = v@.subrange(start as int, i + 1);
            assert(t.drop_last() =~= v@.subrange(start as int, i as int));
            assert(t.last() == c);
            assert(d == c as int - '0' as int);
        }
        if next > 2147483648 {
            proof {
                let pre = body.take((i + 1 - start) as int);
                assert(pre =~= v@.subrange(start as int, i + 1));
                assert(digits_value(pre) == next);
                if all_digits(body) {
                    lemma_digits_value_prefix_bound(body, (i + 1 - start) as int);
                    assert(digits_value(body) > 2147483648);
                }
            }
            return None;
        }
        acc = next;
        i = i + 1;
    }
    assert(v@.subrange(start as int, n as int) =~= body);
    if neg {
        Some((-acc) as i32)
    } else if acc > 2147483647 {
        None
    } else {
        Some(acc as i32)
    }
}

} // verus!
