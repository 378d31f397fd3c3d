//! Character-level text toolkit: whitespace, trimming, searching, splitting
//! and decimal numbers, each with a specification over `Seq<char>`.
use vstd::prelude::*;
use vstd::string::*;

verus! {

// ---------------------------------------------------------------------------
// Character classes
// ---------------------------------------------------------------------------

/// Unicode `White_Space`, the class that `char::is_whitespace` tests.
pub open spec fn is_ws(c: char) -> bool {
    ('\t' <= c && c <= '\r') || c == ' ' || c == '\u{85}' || c == '\u{a0}' || c == '\u{1680}'
        || ('\u{2000}' <= c && c <= '\u{200a}') || c == '\u{2028}' || c == '\u{2029}'
        || c == '\u{202f}' || c == '\u{205f}' || c == '\u{3000}'
}

pub fn is_whitespace(c: char) -> (b: bool)
    ensures
        b == is_ws(c),
{
    ('\t' <= c && c <= '\r') || c == ' ' || c == '\u{85}' || c == '\u{a0}' || c == '\u{1680}'
        || ('\u{2000}' <= c && c <= '\u{200a}') || c == '\u{2028}' || c == '\u{2029}'
        || c == '\u{202f}' || c == '\u{205f}' || c == '\u{3000}'
}

pub open spec fn is_digit(c: char) -> bool {
    '0' <= c && c <= '9'
}

pub open spec fn is_upper_ascii(c: char) -> bool {
    'A' <= c && c <= 'Z'
}

pub open spec fn is_lower_ascii(c: char) -> bool {
    'a' <= c && c <= 'z'
}

/// `char::to_ascii_lowercase`.
pub open spec fn lower_char(c: char) -> char {
    if is_upper_ascii(c) {
        ((c as u32) + 32) as char
    } else {
        c
    }
}

/// `char::to_ascii_uppercase`.
pub open spec fn upper_char(c: char) -> char {
    if is_lower_ascii(c) {
        ((c as u32) - 32) as char
    } else {
        c
    }
}

pub fn to_lower_char(c: char) -> (r: char)
    ensures
        r == lower_char(c),
{
    if 'A' <= c && c <= 'Z' {
        let b = c as u8;
        (b + 32) as char
    } else {
        c
    }
}

pub fn to_upper_char(c: char) -> (r: char)
    ensures
        r == upper_char(c),
{
    if 'a' <= c && c <= 'z' {
        let b = c as u8;
        (b - 32) as char
    } else {
        c
    }
}

/// `str::to_ascii_lowercase`.
pub open spec fn lower(s: Seq<char>) -> Seq<char> {
    Seq::new(s.len(), |i: int| lower_char(s[i]))
}

/// Every character of `s` is ASCII.
pub open spec fn is_ascii_text(s: Seq<char>) -> bool {
    forall|i: int| 0 <= i < s.len() ==> #[trigger] s[i] <= '\u{7f}'
}

// ---------------------------------------------------------------------------
// Trimming
// ---------------------------------------------------------------------------

/// `str::trim_start`.
pub open spec fn trim_start(s: Seq<char>) -> Seq<char>
    decreases s.len(),
{
    if s.len() > 0 && is_ws(s[0]) {
        trim_start(s.drop_first())
    } else {
        s
    }
}

/// `str::trim_end`.
pub open spec fn trim_end(s: Seq<char>) -> Seq<char>
    decreases s.len(),
{
    if s.len() > 0 && is_ws(s.last()) {
        trim_end(s.drop_last())
    } else {
        s
    }
}

/// `str::trim`.
pub open spec fn trim(s: Seq<char>) -> Seq<char> {
    trim_end(trim_start(s))
}

// ---------------------------------------------------------------------------
// Searching
// ---------------------------------------------------------------------------

/// `n` occurs in `h` at position `i`.
pub open spec fn matches_at(h: Seq<char>, n: Seq<char>, i: int) -> bool {
    0 <= i && i + n.len() <= h.len() && h.subrange(i, i + n.len()) == n
}

/// `str::contains` for a string pattern.
pub open spec fn contains(h: Seq<char>, n: Seq<char>) -> bool {
    exists|i: int| #[trigger] matches_at(h, n, i)
}

/// `str::starts_with`.
pub open spec fn starts_with(s: Seq<char>, p: Seq<char>) -> bool {
    p.len() <= s.len() && s.take(p.len() as int) == p
}

/// `str::ends_with`.
pub open spec fn ends_with(s: Seq<char>, p: Seq<char>) -> bool {
    p.len() <= s.len() && s.skip(s.len() - p.len()) == p
}

/// `i` is where `str::find` locates `n` in `h`: the first occurrence.
pub open spec fn is_first_match(h: Seq<char>, n: Seq<char>, i: int) -> bool {
    matches_at(h, n, i) && forall|j: int| 0 <= j < i ==> !#[trigger] matches_at(h, n, j)
}

pub open spec fn has_ws(s: Seq<char>) -> bool {
    exists|i: int| 0 <= i < s.len() && is_ws(#[trigger] s[i])
}

pub open spec fn has_char(s: Seq<char>, c: char) -> bool {
    exists|i: int| 0 <= i < s.len() && #[trigger] s[i] == c
}

/// `i` is the first position of `c` in `s`.
pub open spec fn is_first_char(s: Seq<char>, c: char, i: int) -> bool {
    0 <= i < s.len() && s[i] == c && forall|j: int| 0 <= j < i ==> #[trigger] s[j] != c
}

/// `i` is the last position of `c` in `s`.
pub open spec fn is_last_char(s: Seq<char>, c: char, i: int) -> bool {
    0 <= i < s.len() && s[i] == c && forall|j: int| i < j < s.len() ==> #[trigger] s[j] != c
}

/// `i` is the last whitespace position in `s`.
pub open spec fn is_last_ws(s: Seq<char>, i: int) -> bool {
    0 <= i < s.len() && is_ws(s[i]) && forall|j: int| i < j < s.len() ==> !is_ws(#[trigger] s[j])
}

// ---------------------------------------------------------------------------
// Decimal numbers
// ---------------------------------------------------------------------------

pub open spec fn digit_value(c: char) -> int {
    (c as int) - ('0' as int)
}

pub open spec fn digit_char(d: int) -> char {
    ((d + ('0' as int)) as u32) as char
}

pub open spec fn all_digits(s: Seq<char>) -> bool {
    forall|i: int| 0 <= i < s.len() ==> is_digit(#[trigger] s[i])
}

/// The value of a string of decimal digits.
pub open spec fn digits_value(s: Seq<char>) -> nat
    decreases s.len(),
{
    if s.len() == 0 {
        0
    } else {
        (digits_value(s.drop_last()) * 10 + digit_value(s.last())) as nat
    }
}

/// The digits of an unsigned integer with an optional leading `+`, as
/// `<uN as FromStr>::from_str` reads them.
pub open spec fn unsigned_digits(s: Seq<char>) -> Seq<char> {
    if s.len() > 0 && s[0] == '+' {
        s.drop_first()
    } else {
        s
    }
}

/// `<uN as FromStr>::from_str` where `max` is `uN::MAX`.
pub open spec fn parse_unsigned(s: Seq<char>, max: nat) -> Option<nat> {
    let d = unsigned_digits(s);
    if d.len() > 0 && all_digits(d) && digits_value(d) <= max {
        Some(digits_value(d))
    } else {
        None
    }
}

/// The decimal representation of `n`, as `Display` writes it.
pub open spec fn decimal(n: nat) -> Seq<char>
    decreases n,
{
    if n < 10 {
        seq![digit_char(n as int)]
    } else {
        decimal(n / 10).push(digit_char((n % 10) as int))
    }
}

/// The decimal representation of a signed integer.
pub open spec fn signed_decimal(n: int) -> Seq<char> {
    if n < 0 {
        seq!['-'] + decimal((-n) as nat)
    } else {
        decimal(n as nat)
    }
}

// ---------------------------------------------------------------------------
// Conversions between `str`, `String` and `Vec<char>`
// ---------------------------------------------------------------------------

/// Appends one character to a string.
/// Calls `String::push`; its documentation states that the character is
/// appended at the end, which is what the contract claims.
#[verifier::external_body]
pub(crate) fn push_char(s: &mut String, c: char)
    ensures
        final(s)@ == old(s)@.push(c),
{
    s.push(c);
}

/// The characters of `s`, in order.
pub fn chars_of(s: &str) -> (v: Vec<char>)
    ensures
        v@ == s@,
{
    let mut v: Vec<char> = Vec::new();
    for c in it: s.chars()
        invariant
            v@ == it.seq().take(it.index() as int),
    {
        v.push(c);
    }
    v
}

/// Appends the characters of `cs` to `s`.
pub fn push_chars(s: &mut String, cs: &[char])
    ensures
        final(s)@ == old(s)@ + cs@,
{
    let mut i: usize = 0;
    while i < cs.len()
        invariant
            i <= cs.len(),
            s@ == old(s)@ + cs@.take(i as int),
        decreases cs.len() - i,
    {
        push_char(s, cs[i]);
        assert(cs@.take(i as int).push(cs@[i as int]) =~= cs@.take(i + 1));
        i += 1;
    }
    assert(cs@.take(cs.len() as int) =~= cs@);
}

/// A string holding exactly the characters of `cs`.
pub fn string_from(cs: &[char]) -> (s: String)
    ensures
        s@ == cs@,
{
    let mut s = String::new();
    push_chars(&mut s, cs);
    s
}

/// The characters of `s` from `a` up to `b`.
pub fn slice_of(s: &[char], a: usize, b: usize) -> (r: Vec<char>)
    requires
        a <= b <= s.len(),
    ensures
        r@ == s@.subrange(a as int, b as int),
{
    let mut r: Vec<char> = Vec::new();
    let mut i = a;
    while i < b
        invariant
            a <= i <= b <= s.len(),
            r@ == s@.subrange(a as int, i as int),
        decreases b - i,
    {
        r.push(s[i]);
        assert(s@.subrange(a as int, i as int).push(s@[i as int]) =~= s@.subrange(a as int, i + 1));
        i += 1;
    }
    r
}

/// The string of `s[a..b]`.
pub fn sub_string(s: &[char], a: usize, b: usize) -> (r: String)
    requires
        a <= b <= s.len(),
    ensures
        r@ == s@.subrange(a as int, b as int),
{
    let v = slice_of(s, a, b);
    string_from(&v)
}

/// `a == b` on character sequences.
pub fn eq_chars(a: &[char], b: &[char]) -> (r: bool)
    ensures
        r == (a@ == b@),
{
    if a.len() != b.len() {
        return false;
    }
    let mut i: usize = 0;
    while i < a.len()
        invariant
            i <= a.len() == b.len(),
            forall|j: int| 0 <= j < i ==> a@[j] == b@[j],
        decreases a.len() - i,
    {
        if a[i] != b[i] {
            return false;
        }
        i += 1;
    }
    assert(a@ =~= b@);
    true
}

/// `a == b` on strings.
pub fn str_eq(a: &str, b: &str) -> (r: bool)
    ensures
        r == (a@ == b@),
{
    let x = chars_of(a);
    let y = chars_of(b);
    eq_chars(&x, &y)
}

/// `s` equals the literal `lit`.
pub fn chars_eq_str(s: &[char], lit: &str) -> (r: bool)
    ensures
        r == (s@ == lit@),
{
    let l = chars_of(lit);
    eq_chars(s, &l)
}

/// ASCII-lowercased copy of `s`.
pub fn lower_chars(s: &[char]) -> (r: Vec<char>)
    ensures
        r@ == lower(s@),
{
    let mut r: Vec<char> = Vec::new();
    let mut i: usize = 0;
    while i < s.len()
        invariant
            i <= s.len(),
            r@ =~= lower(s@.take(i as int)),
        decreases s.len() - i,
    {
        let c = to_lower_char(s[i]);
        r.push(c);
        i += 1;
    }
    assert(s@.take(s.len() as int) =~= s@);
    r
}

// ---------------------------------------------------------------------------
// Trimming, executable
// ---------------------------------------------------------------------------

pub proof fn lemma_trim_start_skip(s: Seq<char>, i: int)
    requires
        0 <= i < s.len(),
        is_ws(s[i]),
    ensures
        trim_start(s.skip(i)) == trim_start(s.skip(i + 1)),
{
    assert(s.skip(i).drop_first() =~= s.skip(i + 1));
}

pub proof fn lemma_trim_end_take(s: Seq<char>, j: int)
    requires
        0 < j <= s.len(),
        is_ws(s[j - 1]),
    ensures
        trim_end(s.take(j)) == trim_end(s.take(j - 1)),
{
    assert(s.take(j).drop_last() =~= s.take(j - 1));
}

/// The number of leading whitespace characters: `trim_start` drops them.
pub fn trim_start_index(s: &[char]) -> (i: usize)
    ensures
        i <= s.len(),
        s@.skip(i as int) == trim_start(s@),
        forall|j: int| 0 <= j < i ==> is_ws(#[trigger] s@[j]),
        i < s.len() ==> !is_ws(s@[i as int]),
{
    let mut i: usize = 0;
    assert(s@.skip(0) =~= s@);
    while i < s.len() && is_whitespace(s[i])
        invariant
            i <= s.len(),
            trim_start(s@) == trim_start(s@.skip(i as int)),
            forall|j: int| 0 <= j < i ==> is_ws(#[trigger] s@[j]),
        decreases s.len() - i,
    {
        proof {
            lemma_trim_start_skip(s@, i as int);
        }
        i += 1;
    }
    if i < s.len() {
        assert(s@.skip(i as int)[0] == s@[i as int]);
    }
    i
}

/// Bounds of `trim(s[a..b])` inside `s`.
pub fn trim_range(s: &[char], a: usize, b: usize) -> (r: (usize, usize))
    requires
        a <= b <= s.len(),
    ensures
        a <= r.0 <= r.1 <= b,
        s@.subrange(r.0 as int, r.1 as int) == trim(s@.subrange(a as int, b as int)),
{
    let ghost t = s@.subrange(a as int, b as int);
    let mut i = a;
    assert(t.skip(0) =~= t);
    while i < b && is_whitespace(s[i])
        invariant
            a <= i <= b <= s.len(),
            t == s@.subrange(a as int, b as int),
            trim_start(t) == trim_start(t.skip(i - a)),
        decreases b - i,
    {
        proof {
            lemma_trim_start_skip(t, i - a);
        }
        i += 1;
    }
    let ghost u = t.skip(i - a);
    proof {
        if i < b {
            assert(u[0] == s@[i as int]);
        }
        assert(trim_start(t) == u);
        assert(u =~= s@.subrange(i as int, b as int));
    }
    let mut j = b;
    assert(u.take(u.len() as int) =~= u);
    while j > i && is_whitespace(s[j - 1])
        invariant
            a <= i <= j <= b <= s.len(),
            u == s@.subrange(i as int, b as int),
            trim_end(u) == trim_end(u.take(j - i)),
        decreases j - i,
    {
        proof {
            lemma_trim_end_take(u, j - i);
        }
        j -= 1;
    }
    proof {
        let w = u.take(j - i);
        if j > i {
            assert(w.last() == s@[j - 1]);
        }
        assert(trim_end(w) == w);
        assert(w =~= s@.subrange(i as int, j as int));
    }
    (i, j)
}

/// `trim(s)` as a vector.
pub fn trim_chars(s: &[char]) -> (r: Vec<char>)
    ensures
        r@ == trim(s@),
{
    let (a, b) = trim_range(s, 0, s.len());
    assert(s@.subrange(0, s.len() as int) =~= s@);
    slice_of(s, a, b)
}

/// `str::trim` returning an owned string.
pub fn trim_str(s: &str) -> (r: String)
    ensures
        r@ == trim(s@),
{
    let cs = chars_of(s);
    let t = trim_chars(&cs);
    string_from(&t)
}

// ---------------------------------------------------------------------------
// Searching, executable
// ---------------------------------------------------------------------------

/// Whether `n` occurs in `h` at `i`.
pub fn matches_at_exec(h: &[char], n: &[char], i: usize) -> (r: bool)
    ensures
        r == matches_at(h@, n@, i as int),
{
    if i > h.len() || n.len() > h.len() - i {
        return false;
    }
    let mut k: usize = 0;
    while k < n.len()
        invariant
            i + n.len() <= h.len(),
            k <= n.len(),
            forall|j: int| 0 <= j < k ==> h@[i + j] == n@[j],
        decreases n.len() - k,
    {
        if h[i + k] != n[k] {
            assert(h@.subrange(i as int, i + n.len())[k as int] != n@[k as int]);
            return false;
        }
        k += 1;
    }
    assert(h@.subrange(i as int, i + n.len()) =~= n@);
    true
}

/// `h.find(n)` starting the search at `from`.
pub fn find_from(h: &[char], n: &[char], from: usize) -> (r: Option<usize>)
    ensures
        match r {
            Some(i) => from <= i && matches_at(h@, n@, i as int) && forall|j: int|
                from <= j < i ==> !#[trigger] matches_at(h@, n@, j),
            None => forall|j: int| from <= j ==> !#[trigger] matches_at(h@, n@, j),
        },
{
    if n.len() > h.len() || from > h.len() - n.len() {
        return None;
    }
    let last = h.len() - n.len();
    let mut i = from;
    while i <= last
        invariant
            from <= i,
            last == h.len() - n.len(),
            forall|j: int| from <= j < i ==> !#[trigger] matches_at(h@, n@, j),
        decreases last + 1 - i,
    {
        if matches_at_exec(h, n, i) {
            return Some(i);
        }
        if i == last {
            return None;
        }
        i += 1;
    }
    None
}

/// `h.find(n)`.
pub fn find(h: &[char], n: &[char]) -> (r: Option<usize>)
    ensures
        match r {
            Some(i) => is_first_match(h@, n@, i as int),
            None => !contains(h@, n@),
        },
{
    let r = find_from(h, n, 0);
    match r {
        Some(i) => {
            assert forall|j: int| 0 <= j < i implies !#[trigger] matches_at(h@, n@, j) by {}
        },
        None => {
            assert forall|j: int| !#[trigger] matches_at(h@, n@, j) by {
                if j < 0 {
                }
            }
        },
    }
    r
}

/// `h.contains(n)`.
pub fn contains_exec(h: &[char], n: &[char]) -> (r: bool)
    ensures
        r == contains(h@, n@),
{
    match find(h, n) {
        Some(i) => {
            assert(matches_at(h@, n@, i as int));
            true
        },
        None => false,
    }
}

/// `h.contains(lit)` for a literal pattern.
pub fn contains_str(h: &[char], lit: &str) -> (r: bool)
    ensures
        r == contains(h@, lit@),
{
    let n = chars_of(lit);
    contains_exec(h, &n)
}

/// `s.starts_with(p)`.
pub fn starts_with_exec(s: &[char], p: &[char]) -> (r: bool)
    ensures
        r == starts_with(s@, p@),
{
    let r = matches_at_exec(s, p, 0);
    assert(s@.subrange(0, p@.len() as int) =~= s@.take(p@.len() as int));
    r
}

/// `s.starts_with(lit)` for a literal prefix.
pub fn starts_with_str(s: &[char], lit: &str) -> (r: bool)
    ensures
        r == starts_with(s@, lit@),
{
    let p = chars_of(lit);
    starts_with_exec(s, &p)
}

/// `s.ends_with(lit)` for a literal suffix.
pub fn ends_with_str(s: &[char], lit: &str) -> (r: bool)
    ensures
        r == ends_with(s@, lit@),
{
    let p = chars_of(lit);
    if p.len() > s.len() {
        return false;
    }
    let r = matches_at_exec(s, &p, s.len() - p.len());
    assert(s@.subrange(s.len() - p.len(), s.len() as int) =~= s@.skip(s.len() - p.len()));
    r
}

/// The first whitespace position in `s[from..]`.
pub fn find_ws_from(s: &[char], from: usize) -> (r: Option<usize>)
    requires
        from <= s.len(),
    ensures
        match r {
            Some(i) => from <= i < s.len() && is_ws(s@[i as int]) && forall|j: int|
                from <= j < i ==> !is_ws(#[trigger] s@[j]),
            None => forall|j: int| from <= j < s.len() ==> !is_ws(#[trigger] s@[j]),
        },
{
    let mut i = from;
    while i < s.len()
        invariant
            from <= i <= s.len(),
            forall|j: int| from <= j < i ==> !is_ws(#[trigger] s@[j]),
        decreases s.len() - i,
    {
        if is_whitespace(s[i]) {
            return Some(i);
        }
        i += 1;
    }
    None
}

/// The first position of `c` in `s[from..]`.
pub fn find_char_from(s: &[char], c: char, from: usize) -> (r: Option<usize>)
    requires
        from <= s.len(),
    ensures
        match r {
            Some(i) => from <= i < s.len() && s@[i as int] == c && forall|j: int|
                from <= j < i ==> #[trigger] s@[j] != c,
            None => forall|j: int| from <= j < s.len() ==> #[trigger] s@[j] != c,
        },
{
    let mut i = from;
    while i < s.len()
        invariant
            from <= i <= s.len(),
            forall|j: int| from <= j < i ==> #[trigger] s@[j] != c,
        decreases s.len() - i,
    {
        if s[i] == c {
            return Some(i);
        }
        i += 1;
    }
    None
}

/// The last position of `c` in `s`.
pub fn rfind_char(s: &[char], c: char) -> (r: Option<usize>)
    ensures
        match r {
            Some(i) => is_last_char(s@, c, i as int),
            None => !has_char(s@, c),
        },
{
    let mut j = s.len();
    while j > 0
        invariant
            j <= s.len(),
            forall|k: int| j <= k < s.len() ==> #[trigger] s@[k] != c,
        decreases j,
    {
        if s[j - 1] == c {
            return Some(j - 1);
        }
        j -= 1;
    }
    None
}

/// The last whitespace position in `s`.
pub fn rfind_ws(s: &[char]) -> (r: Option<usize>)
    ensures
        match r {
            Some(i) => is_last_ws(s@, i as int),
            None => !has_ws(s@),
        },
{
    let mut j = s.len();
    while j > 0
        invariant
            j <= s.len(),
            forall|k: int| j <= k < s.len() ==> !is_ws(#[trigger] s@[k]),
        decreases j,
    {
        if is_whitespace(s[j - 1]) {
            return Some(j - 1);
        }
        j -= 1;
    }
    None
}

// ---------------------------------------------------------------------------
// Decimal numbers, executable
// ---------------------------------------------------------------------------

pub proof fn lemma_digits_value_push(s: Seq<char>, c: char)
    requires
        is_digit(c),
    ensures
        digits_value(s.push(c)) == digits_value(s) * 10 + digit_value(c),
{
    assert(s.push(c).drop_last() =~= s);
}

pub proof fn lemma_digits_value_monotone(s: Seq<char>, k: int)
    requires
        0 <= k <= s.len(),
        all_digits(s),
    ensures
        digits_value(s.take(k)) <= digits_value(s),
    decreases s.len() - k,
{
    if k < s.len() {
        lemma_digits_value_monotone(s, k + 1);
        assert(s.take(k + 1) =~= s.take(k).push(s[k]));
        lemma_digits_value_push(s.take(k), s[k]);
        assert(is_digit(s[k]));
    } else {
        assert(s.take(k) =~= s);
    }
}

/// Reads `s[a..b]` as an unsigned decimal not above `max`, as
/// `<uN as FromStr>::from_str` does.
pub fn parse_unsigned_range(s: &[char], a: usize, b: usize, max: u64) -> (r: Option<u64>)
    requires
        a <= b <= s.len(),
        max >= 9,
    ensures
        match parse_unsigned(s@.subrange(a as int, b as int), max as nat) {
            Some(v) => r == Some(v as u64),
            None => r is None,
        },
{
    let ghost t = s@.subrange(a as int, b as int);
    let mut start = a;
    if a < b && s[a] == '+' {
        start = a + 1;
    }
    let ghost d = s@.subrange(start as int, b as int);
    assert(d =~= unsigned_digits(t));
    if start == b {
        return None;
    }
    let mut v: u64 = 0;
    let mut i = start;
    assert(d.take(0) =~= Seq::<char>::empty());
    while i < b
        invariant
            start <= i <= b <= s.len(),
            d == s@.subrange(start as int, b as int),
            d =~= unsigned_digits(t),
            t == s@.subrange(a as int, b as int),
            forall|j: int| 0 <= j < i - start ==> is_digit(#[trigger] d[j]),
            v == digits_value(d.take(i - start)),
            v <= max,
            max >= 9,
        decreases b - i,
    {
        let c = s[i];
        if !('0' <= c && c <= '9') {
            assert(!is_digit(d[i - start]));
            return None;
        }
        let dv = (c as u32 - '0' as u32) as u64;
        assert(dv <= 9);
        assert(d.take(i - start + 1) =~= d.take(i - start).push(c));
        proof {
            lemma_digits_value_push(d.take(i - start), c);
        }
        if v > (max - dv) / 10 {
            proof {
                assert(v * 10 + dv > max) by (nonlinear_arith)
                    requires
                        v > (max - dv) / 10,
                        dv <= 9,
                ;
                if all_digits(d) {
                    lemma_digits_value_monotone(d, i - start + 1);
                }
            }
            return None;
        }
        proof {
            assert(v * 10 + dv <= max) by (nonlinear_arith)
                requires
                    v <= (max - dv) / 10,
                    dv <= 9,
            ;
        }
        v = v * 10 + dv;
        i += 1;
    }
    assert(d.take(d.len() as int) =~= d);
    Some(v)
}

/// Appends the decimal representation of `n`.
pub fn push_decimal(s: &mut String, n: u64)
    ensures
        final(s)@ == old(s)@ + decimal(n as nat),
    decreases n,
{
    if n < 10 {
        let c = ((n as u8) + 48) as char;
        push_char(s, c);
        assert(seq![c] =~= decimal(n as nat));
    } else {
        push_decimal(s, n / 10);
        let c = (((n % 10) as u8) + 48) as char;
        push_char(s, c);
        assert(decimal(n as nat) == decimal((n / 10) as nat).push(c));
    }
}

/// The decimal representation of `n`.
pub fn decimal_string(n: u64) -> (r: String)
    ensures
        r@ == decimal(n as nat),
{
    let mut s = String::new();
    push_decimal(&mut s, n);
    assert(s@ =~= decimal(n as nat));
    s
}

/// Appends the decimal representation of a signed integer.
pub fn push_signed_decimal(s: &mut String, n: i64)
    ensures
        final(s)@ == old(s)@ + signed_decimal(n as int),
{
    if n < 0 {
        push_char(s, '-');
        let m: u64 = if n == i64::MIN {
            9223372036854775808u64
        } else {
            (-n) as u64
        };
        push_decimal(s, m);
        assert(old(s)@.push('-') + decimal(m as nat) =~= old(s)@ + (seq!['-'] + decimal(m as nat)));
    } else {
        push_decimal(s, n as u64);
    }
}


// ---------------------------------------------------------------------------
// Splitting into words and lines
// ---------------------------------------------------------------------------

/// The character sequences held by a vector of character vectors.
pub open spec fn vviews(v: Seq<Vec<char>>) -> Seq<Seq<char>> {
    Seq::new(v.len(), |i: int| v[i]@)
}

/// Length of the run of non-whitespace characters at the start of `s`.
pub open spec fn token_len(s: Seq<char>) -> nat
    decreases s.len(),
{
    if s.len() == 0 || is_ws(s[0]) {
        0
    } else {
        1 + token_len(s.drop_first())
    }
}

pub proof fn lemma_token_len_bound(s: Seq<char>)
    ensures
        token_len(s) <= s.len(),
        s.len() > 0 && !is_ws(s[0]) ==> token_len(s) >= 1,
    decreases s.len(),
{
    if s.len() > 0 && !is_ws(s[0]) {
        lemma_token_len_bound(s.drop_first());
    }
}

pub proof fn lemma_token_len_exact(t: Seq<char>, k: int)
    requires
        0 <= k <= t.len(),
        forall|m: int| 0 <= m < k ==> !is_ws(#[trigger] t[m]),
        k == t.len() || is_ws(t[k]),
    ensures
        token_len(t) == k,
    decreases k,
{
    if k > 0 {
        let u = t.drop_first();
        assert forall|m: int| 0 <= m < k - 1 implies !is_ws(#[trigger] u[m]) by {
            assert(u[m] == t[m + 1]);
        }
        if k - 1 < u.len() {
            assert(u[k - 1] == t[k]);
        }
        lemma_token_len_exact(u, k - 1);
    }
}

/// `str::split_whitespace`, as a sequence of words.
pub open spec fn split_ws(s: Seq<char>) -> Seq<Seq<char>>
    decreases s.len(),
{
    if s.len() == 0 {
        seq![]
    } else if is_ws(s[0]) {
        split_ws(s.drop_first())
    } else {
        let k = token_len(s);
        proof {
            lemma_token_len_bound(s);
        }
        seq![s.take(k as int)] + split_ws(s.skip(k as int))
    }
}

/// The words of `s`, as `str::split_whitespace` yields them.
pub fn split_whitespace(s: &[char]) -> (r: Vec<Vec<char>>)
    ensures
        vviews(r@) == split_ws(s@),
{
    let mut out: Vec<Vec<char>> = Vec::new();
    let mut i: usize = 0;
    assert(s@.skip(0) =~= s@);
    while i < s.len()
        invariant
            i <= s.len(),
            vviews(out@) + split_ws(s@.skip(i as int)) == split_ws(s@),
        decreases s.len() - i,
    {
        let ghost rest = s@.skip(i as int);
        if is_whitespace(s[i]) {
            assert(rest.drop_first() =~= s@.skip(i + 1));
            i += 1;
        } else {
            let j = match find_ws_from(s, i) {
                Some(j) => j,
                None => s.len(),
            };
            proof {
                assert forall|m: int| 0 <= m < j - i implies !is_ws(#[trigger] rest[m]) by {
                    assert(rest[m] == s@[i + m]);
                }
                if j < s.len() {
                    assert(rest[j - i] == s@[j as int]);
                }
                lemma_token_len_exact(rest, j - i);
                assert(rest.take(j - i) =~= s@.subrange(i as int, j as int));
                assert(rest.skip(j - i) =~= s@.skip(j as int));
            }
            let word = slice_of(s, i, j);
            let ghost before = vviews(out@);
            out.push(word);
            assert(vviews(out@) =~= before.push(word@));
            assert(before.push(word@) + split_ws(s@.skip(j as int)) =~= before + (seq![word@]
                + split_ws(s@.skip(j as int))));
            i = j;
        }
    }
    assert(split_ws(s@.skip(i as int)) =~= Seq::<Seq<char>>::empty());
    assert(vviews(out@) + Seq::<Seq<char>>::empty() =~= vviews(out@));
    out
}

/// Position of the first `c` in `s`, or -1.
pub open spec fn index_of(s: Seq<char>, c: char) -> int
    decreases s.len(),
{
    if s.len() == 0 {
        -1
    } else if s[0] == c {
        0
    } else {
        let r = index_of(s.drop_first(), c);
        if r < 0 {
            -1
        } else {
            r + 1
        }
    }
}

pub proof fn lemma_index_of_bound(s: Seq<char>, c: char)
    ensures
        -1 <= index_of(s, c) < s.len(),
    decreases s.len(),
{
    if s.len() > 0 && s[0] != c {
        lemma_index_of_bound(s.drop_first(), c);
    }
}

pub proof fn lemma_index_of_exact(s: Seq<char>, c: char, k: int)
    requires
        0 <= k <= s.len(),
        forall|m: int| 0 <= m < k ==> #[trigger] s[m] != c,
        k < s.len() ==> s[k] == c,
    ensures
        index_of(s, c) == (if k < s.len() {
            k
        } else {
            -1
        }),
    decreases k,
{
    if k > 0 {
        let u = s.drop_first();
        assert forall|m: int| 0 <= m < k - 1 implies #[trigger] u[m] != c by {
            assert(u[m] == s[m + 1]);
        }
        if k - 1 < u.len() {
            assert(u[k - 1] == s[k]);
        }
        lemma_index_of_exact(u, c, k - 1);
    }
}

/// A line without its `\r` before the line feed.
pub open spec fn strip_cr(l: Seq<char>) -> Seq<char> {
    if l.len() > 0 && l.last() == '\r' {
        l.drop_last()
    } else {
        l
    }
}

/// `str::lines`: split at `\n`, dropping a `\r` right before it; a final
/// line without `\n` is kept as it is, and a final `\n` adds no empty line.
pub open spec fn lines(s: Seq<char>) -> Seq<Seq<char>>
    decreases s.len(),
{
    if s.len() == 0 {
        seq![]
    } else {
        let i = index_of(s, '\n');
        proof {
            lemma_index_of_bound(s, '\n');
        }
        if i < 0 {
            seq![s]
        } else {
            seq![strip_cr(s.take(i))] + lines(s.skip(i + 1))
        }
    }
}

/// The lines of `s`, as `str::lines` yields them.
pub fn split_lines(s: &[char]) -> (r: Vec<Vec<char>>)
    ensures
        vviews(r@) == lines(s@),
{
    let mut out: Vec<Vec<char>> = Vec::new();
    let mut i: usize = 0;
    assert(s@.skip(0) =~= s@);
    while i < s.len()
        invariant
            i <= s.len(),
            vviews(out@) + lines(s@.skip(i as int)) == lines(s@),
        decreases s.len() - i,
    {
        let ghost rest = s@.skip(i as int);
        let ghost before = vviews(out@);
        match find_char_from(s, '\n', i) {
            Some(j) => {
                proof {
                    assert forall|m: int| 0 <= m < j - i implies #[trigger] rest[m] != '\n' by {
                        assert(rest[m] == s@[i + m]);
                    }
                    assert(rest[j - i] == s@[j as int]);
                    lemma_index_of_exact(rest, '\n', j - i);
                    assert(rest.skip(j - i + 1) =~= s@.skip(j + 1));
                    assert(rest.take(j - i) =~= s@.subrange(i as int, j as int));
                }
                let mut end = j;
                if j > i && s[j - 1] == '\r' {
                    end = j - 1;
                    assert(s@.subrange(i as int, j as int).drop_last() =~= s@.subrange(
                        i as int,
                        end as int,
                    ));
                }
                let line = slice_of(s, i, end);
                out.push(line);
                assert(vviews(out@) =~= before.push(line@));
                assert(before.push(line@) + lines(s@.skip(j + 1)) =~= before + (seq![line@]
                    + lines(s@.skip(j + 1))));
                i = j + 1;
            },
            None => {
                proof {
                    assert forall|m: int| 0 <= m < rest.len() implies #[trigger] rest[m]
                        != '\n' by {
                        assert(rest[m] == s@[i + m]);
                    }
                    lemma_index_of_exact(rest, '\n', rest.len() as int);
                    assert(rest =~= s@.subrange(i as int, s.len() as int));
                }
                let line = slice_of(s, i, s.len());
                out.push(line);
                assert(vviews(out@) =~= before.push(line@));
                assert(before + seq![rest] =~= before.push(line@));
                assert(lines(s@.skip(s.len() as int)) =~= Seq::<Seq<char>>::empty());
                assert(vviews(out@) + lines(s@.skip(s.len() as int)) =~= vviews(out@));
                i = s.len();
            },
        }
    }
    assert(lines(s@.skip(i as int)) =~= Seq::<Seq<char>>::empty());
    assert(vviews(out@) + Seq::<Seq<char>>::empty() =~= vviews(out@));
    out
}


// ---------------------------------------------------------------------------
// UTF-8 byte offsets
// ---------------------------------------------------------------------------

/// `char::len_utf8`.
pub open spec fn utf8_len(c: char) -> nat {
    if (c as u32) < 0x80 {
        1
    } else if (c as u32) < 0x800 {
        2
    } else if (c as u32) < 0x10000 {
        3
    } else {
        4
    }
}

/// `str::len`: the number of bytes of the UTF-8 encoding.
pub open spec fn byte_len(s: Seq<char>) -> nat
    decreases s.len(),
{
    if s.len() == 0 {
        0
    } else {
        utf8_len(s[0]) + byte_len(s.drop_first())
    }
}

/// The character index that starts at byte offset `b`, when `b` is a
/// character boundary of `s` (`str::is_char_boundary`).
pub open spec fn char_at_byte(s: Seq<char>, b: int) -> Option<int>
    decreases s.len(),
{
    if b == 0 {
        Some(0)
    } else if s.len() == 0 || b < utf8_len(s[0]) {
        None
    } else {
        match char_at_byte(s.drop_first(), b - utf8_len(s[0])) {
            Some(k) => Some(k + 1),
            None => None,
        }
    }
}

/// `str::get(a..b)`.
pub open spec fn byte_slice(s: Seq<char>, a: int, b: int) -> Option<Seq<char>> {
    match (char_at_byte(s, a), char_at_byte(s, b)) {
        (Some(i), Some(j)) => if i <= j {
            Some(s.subrange(i, j))
        } else {
            None
        },
        _ => None,
    }
}

pub fn utf8_len_exec(c: char) -> (n: usize)
    ensures
        n == utf8_len(c),
{
    let v = c as u32;
    if v < 0x80 {
        1
    } else if v < 0x800 {
        2
    } else if v < 0x10000 {
        3
    } else {
        4
    }
}

pub proof fn lemma_byte_len_push(s: Seq<char>, c: char)
    ensures
        byte_len(s.push(c)) == byte_len(s) + utf8_len(c),
    decreases s.len(),
{
    if s.len() > 0 {
        assert(s.push(c).drop_first() =~= s.drop_first().push(c));
        assert(s.push(c)[0] == s[0]);
        lemma_byte_len_push(s.drop_first(), c);
    } else {
        assert(s.push(c).drop_first() =~= Seq::<char>::empty());
        assert(s.push(c)[0] == c);
        assert(byte_len(Seq::<char>::empty()) == 0);
        assert(byte_len(s) == 0);
    }
}

pub proof fn lemma_char_at_byte_prefix(s: Seq<char>, k: int)
    requires
        0 <= k <= s.len(),
    ensures
        char_at_byte(s, byte_len(s.take(k)) as int) == Some(k),
    decreases k,
{
    if k > 0 {
        let u = s.drop_first();
        assert(s.take(k).drop_first() =~= u.take(k - 1));
        lemma_char_at_byte_prefix(u, k - 1);
        assert(s.take(k)[0] == s[0]);
    }
}

pub proof fn lemma_char_at_byte_none(s: Seq<char>, k: int, b: int)
    requires
        0 <= k < s.len(),
        byte_len(s.take(k)) < b < byte_len(s.take(k + 1)),
    ensures
        char_at_byte(s, b) is None,
    decreases k,
{
    assert(s.take(k + 1) =~= s.take(k).push(s[k]));
    lemma_byte_len_push(s.take(k), s[k]);
    if k > 0 {
        let u = s.drop_first();
        assert(s.take(k).drop_first() =~= u.take(k - 1));
        assert(s.take(k + 1).drop_first() =~= u.take(k));
        assert(s.take(k)[0] == s[0]);
        lemma_char_at_byte_none(u, k - 1, b - utf8_len(s[0]));
    } else {
        assert(s.take(1).drop_first() =~= Seq::<char>::empty());
    }
}

pub proof fn lemma_char_at_byte_beyond(s: Seq<char>, b: int)
    requires
        b > byte_len(s),
    ensures
        char_at_byte(s, b) is None,
    decreases s.len(),
{
    if s.len() > 0 {
        lemma_char_at_byte_beyond(s.drop_first(), b - utf8_len(s[0]));
    }
}

/// The character index at byte offset `b` of `s`, if `b` is a boundary.
pub fn char_index_at_byte(s: &[char], b: usize) -> (r: Option<usize>)
    ensures
        match r {
            Some(k) => char_at_byte(s@, b as int) == Some(k as int) && k <= s.len(),
            None => char_at_byte(s@, b as int) is None,
        },
{
    let mut i: usize = 0;
    let mut acc: usize = 0;
    assert(s@.take(0) =~= Seq::<char>::empty());
    while i < s.len() && acc < b
        invariant
            i <= s.len(),
            acc == byte_len(s@.take(i as int)),
            acc <= b,
        decreases s.len() - i,
    {
        let l = utf8_len_exec(s[i]);
        proof {
            assert(s@.take(i + 1) =~= s@.take(i as int).push(s@[i as int]));
            lemma_byte_len_push(s@.take(i as int), s@[i as int]);
        }
        if l > b - acc {
            proof {
                lemma_char_at_byte_none(s@, i as int, b as int);
            }
            return None;
        }
        acc = acc + l;
        i += 1;
    }
    proof {
        lemma_char_at_byte_prefix(s@, i as int);
    }
    if acc == b {
        Some(i)
    } else {
        proof {
            assert(s@.take(i as int) =~= s@);
            lemma_char_at_byte_beyond(s@, b as int);
        }
        None
    }
}

/// `str::len` of the string whose characters are `s`, saturating at `usize::MAX`.
pub fn byte_len_exec(s: &[char]) -> (n: usize)
    ensures
        byte_len(s@) <= usize::MAX ==> n == byte_len(s@),
        byte_len(s@) > usize::MAX ==> n == usize::MAX,
{
    let mut i: usize = 0;
    let mut acc: usize = 0;
    assert(s@.take(0) =~= Seq::<char>::empty());
    while i < s.len()
        invariant
            i <= s.len(),
            acc == byte_len(s@.take(i as int)),
        decreases s.len() - i,
    {
        let l = utf8_len_exec(s[i]);
        proof {
            assert(s@.take(i + 1) =~= s@.take(i as int).push(s@[i as int]));
            lemma_byte_len_push(s@.take(i as int), s@[i as int]);
            lemma_byte_len_mono(s@, i as int + 1);
        }
        if acc > usize::MAX - l {
            return usize::MAX;
        }
        acc = acc + l;
        i += 1;
    }
    assert(s@.take(i as int) =~= s@);
    acc
}

pub proof fn lemma_byte_len_mono(s: Seq<char>, k: int)
    requires
        0 <= k <= s.len(),
    ensures
        byte_len(s.take(k)) <= byte_len(s),
    decreases s.len() - k,
{
    if k < s.len() {
        lemma_byte_len_mono(s, k + 1);
        assert(s.take(k + 1) =~= s.take(k).push(s[k]));
        lemma_byte_len_push(s.take(k), s[k]);
    } else {
        assert(s.take(k) =~= s);
    }
}


// ---------------------------------------------------------------------------
// Functional forms of searches, and the first word of a string
// ---------------------------------------------------------------------------

/// Position of the first occurrence of `n` in `h` at or after `i`, or -1.
pub open spec fn find_index_from(h: Seq<char>, n: Seq<char>, i: int) -> int
    decreases h.len() + 1 - i,
{
    if i < 0 || i + n.len() > h.len() {
        -1
    } else if matches_at(h, n, i) {
        i
    } else {
        find_index_from(h, n, i + 1)
    }
}

/// `str::find` as a position, or -1.
pub open spec fn find_index(h: Seq<char>, n: Seq<char>) -> int {
    find_index_from(h, n, 0)
}

pub proof fn lemma_find_index_from(h: Seq<char>, n: Seq<char>, i: int, k: int)
    requires
        0 <= i <= k,
        forall|j: int| i <= j < k ==> !#[trigger] matches_at(h, n, j),
        matches_at(h, n, k) || k + n.len() > h.len(),
    ensures
        find_index_from(h, n, i) == (if matches_at(h, n, k) {
            k
        } else {
            -1
        }),
    decreases k - i,
{
    if i < k {
        assert(!matches_at(h, n, i));
        if i + n.len() <= h.len() {
            lemma_find_index_from(h, n, i + 1, k);
        }
    }
}

pub proof fn lemma_find_index_first(h: Seq<char>, n: Seq<char>, k: int)
    requires
        is_first_match(h, n, k),
    ensures
        find_index(h, n) == k,
{
    lemma_find_index_from(h, n, 0, k);
}

pub proof fn lemma_find_index_none(h: Seq<char>, n: Seq<char>)
    requires
        !contains(h, n),
    ensures
        find_index(h, n) == -1,
{
    let k = if h.len() >= n.len() {
        h.len() - n.len() + 1
    } else {
        0
    };
    assert forall|j: int| 0 <= j < k implies !#[trigger] matches_at(h, n, j) by {}
    lemma_find_index_from(h, n, 0, k);
}

/// `h.find(n)` for a literal pattern, as a position or -1 in the spec.
pub fn find_str(h: &[char], lit: &str) -> (r: Option<usize>)
    ensures
        match r {
            Some(i) => find_index(h@, lit@) == i && is_first_match(h@, lit@, i as int),
            None => find_index(h@, lit@) == -1 && !contains(h@, lit@),
        },
{
    let n = chars_of(lit);
    let r = find(h, &n);
    proof {
        match r {
            Some(i) => lemma_find_index_first(h@, lit@, i as int),
            None => lemma_find_index_none(h@, lit@),
        }
    }
    r
}

/// Position of the first whitespace character of `s`, or -1.
pub open spec fn ws_index(s: Seq<char>) -> int
    decreases s.len(),
{
    if s.len() == 0 {
        -1
    } else if is_ws(s[0]) {
        0
    } else {
        let r = ws_index(s.drop_first());
        if r < 0 {
            -1
        } else {
            r + 1
        }
    }
}

pub proof fn lemma_ws_index_exact(s: Seq<char>, k: int)
    requires
        0 <= k <= s.len(),
        forall|m: int| 0 <= m < k ==> !is_ws(#[trigger] s[m]),
        k < s.len() ==> is_ws(s[k]),
    ensures
        ws_index(s) == (if k < s.len() {
            k
        } else {
            -1
        }),
    decreases k,
{
    if k > 0 {
        let u = s.drop_first();
        assert forall|m: int| 0 <= m < k - 1 implies !is_ws(#[trigger] u[m]) by {
            assert(u[m] == s[m + 1]);
        }
        if k - 1 < u.len() {
            assert(u[k - 1] == s[k]);
        }
        lemma_ws_index_exact(u, k - 1);
    }
}

/// The first word of `s` and what follows it, as the parser helper
/// `split_first_whitespace` gives them: leading whitespace is skipped, and
/// the word must be followed by whitespace.
pub open spec fn first_word(s: Seq<char>) -> Option<(Seq<char>, Seq<char>)> {
    let t = trim_start(s);
    let e = ws_index(t);
    if e < 0 {
        None
    } else {
        Some((t.take(e), t.skip(e)))
    }
}

pub proof fn lemma_trim_start_idempotent(s: Seq<char>)
    ensures
        trim_start(trim_start(s)) == trim_start(s),
    decreases s.len(),
{
    if s.len() > 0 && is_ws(s[0]) {
        lemma_trim_start_idempotent(s.drop_first());
    }
}

/// Bounds of the first word of `s[from..]`: `first_word(s[from..])` is
/// `(s[a..b], s[b..])`.
pub fn split_first_word(s: &[char], from: usize) -> (r: Option<(usize, usize)>)
    requires
        from <= s.len(),
    ensures
        match r {
            Some((a, b)) => from <= a < b < s.len() && first_word(s@.skip(from as int)) == Some(
                (s@.subrange(a as int, b as int), s@.skip(b as int)),
            ),
            None => first_word(s@.skip(from as int)) is None,
        },
{
    let ghost t = s@.skip(from as int);
    let i = trim_start_index_from(s, from);
    let ghost u = trim_start(t);
    proof {
        assert(u =~= s@.skip(i as int));
    }
    match find_ws_from(s, i) {
        Some(b) => {
            proof {
                assert forall|m: int| 0 <= m < b - i implies !is_ws(#[trigger] u[m]) by {
                    assert(u[m] == s@[i + m]);
                }
                assert(u[b - i] == s@[b as int]);
                lemma_ws_index_exact(u, b - i);
                assert(u.take(b - i) =~= s@.subrange(i as int, b as int));
                assert(u.skip(b - i) =~= s@.skip(b as int));
                if b == i {
                    assert(is_ws(u[0]));
                    lemma_trim_start_idempotent(t);
                    assert(trim_start(u) == u);
                }
            }
            Some((i, b))
        },
        None => {
            proof {
                assert forall|m: int| 0 <= m < u.len() implies !is_ws(#[trigger] u[m]) by {
                    assert(u[m] == s@[i + m]);
                }
                lemma_ws_index_exact(u, u.len() as int);
            }
            None
        },
    }
}

/// Index of the first non-whitespace character at or after `from`.
pub fn trim_start_index_from(s: &[char], from: usize) -> (i: usize)
    requires
        from <= s.len(),
    ensures
        from <= i <= s.len(),
        s@.skip(i as int) == trim_start(s@.skip(from as int)),
        forall|j: int| from <= j < i ==> is_ws(#[trigger] s@[j]),
        i < s.len() ==> !is_ws(s@[i as int]),
{
    let ghost t = s@.skip(from as int);
    let mut i = from;
    assert(t.skip(0) =~= t);
    while i < s.len() && is_whitespace(s[i])
        invariant
            from <= i <= s.len(),
            t == s@.skip(from as int),
            trim_start(t) == trim_start(t.skip(i - from)),
            forall|j: int| from <= j < i ==> is_ws(#[trigger] s@[j]),
        decreases s.len() - i,
    {
        proof {
            lemma_trim_start_skip(t, i - from);
        }
        i += 1;
    }
    proof {
        assert(t.skip(i - from) =~= s@.skip(i as int));
        if i < s.len() {
            assert(s@.skip(i as int)[0] == s@[i as int]);
        }
    }
    i
}


// ---------------------------------------------------------------------------
// Joining
// ---------------------------------------------------------------------------

/// The character sequences held by a vector of strings.
pub open spec fn sviews(v: Seq<String>) -> Seq<Seq<char>> {
    Seq::new(v.len(), |i: int| v[i]@)
}

/// `parts.join(sep)`.
pub open spec fn join(parts: Seq<Seq<char>>, sep: Seq<char>) -> Seq<char>
    decreases parts.len(),
{
    if parts.len() == 0 {
        Seq::<char>::empty()
    } else if parts.len() == 1 {
        parts[0]
    } else {
        join(parts.drop_last(), sep) + sep + parts.last()
    }
}

/// `parts.join(sep)` for a vector of strings.
pub fn join_strings(parts: &Vec<String>, sep: &str) -> (r: String)
    ensures
        r@ == join(sviews(parts@), sep@),
{
    let mut r = String::new();
    let mut i: usize = 0;
    while i < parts.len()
        invariant
            i <= parts@.len(),
            r@ == join(sviews(parts@).take(i as int), sep@),
        decreases parts.len() - i,
    {
        let ghost pre = sviews(parts@).take(i as int);
        assert(sviews(parts@).take(i + 1).drop_last() =~= pre);
        assert(sviews(parts@).take(i + 1).last() == parts@[i as int]@);
        if i > 0 {
            r.append(sep);
        } else {
            assert(pre.len() == 0);
            assert(join(pre, sep@) =~= Seq::<char>::empty());
        }
        r.append(parts[i].as_str());
        if i == 0 {
            assert(r@ =~= sviews(parts@).take(1)[0]);
        }
        i += 1;
    }
    assert(sviews(parts@).take(i as int) =~= sviews(parts@));
    r
}


/// Appends the decimal representation of a 128-bit `n`.
pub fn push_decimal_u128(s: &mut String, n: u128)
    ensures
        final(s)@ == old(s)@ + decimal(n as nat),
    decreases n,
{
    if n < 10 {
        let c = ((n as u8) + 48) as char;
        push_char(s, c);
        assert(seq![c] =~= decimal(n as nat));
    } else {
        push_decimal_u128(s, n / 10);
        let c = (((n % 10) as u8) + 48) as char;
        push_char(s, c);
        assert(decimal(n as nat) == decimal((n / 10) as nat).push(c));
    }
}

/// The lossy UTF-8 decoding of `bytes` (`String::from_utf8_lossy`).
pub uninterp spec fn utf8_lossy(bytes: Seq<u8>) -> Seq<char>;

/// Calls `String::from_utf8_lossy`. Claims that the text is a function of
/// the bytes (named by `utf8_lossy`) and that ASCII bytes, being valid UTF-8,
/// decode to the same characters one for one; how other sequences decode
/// and how invalid ones are replaced is not stated.
#[verifier::external_body]
pub(crate) fn decode_lossy(bytes: &[u8]) -> (s: String)
    ensures
        s@ == utf8_lossy(bytes@),
        (forall|i: int| 0 <= i < bytes@.len() ==> #[trigger] bytes@[i] < 128) ==> s@ == bytes@.map_values(
            |b: u8| b as char,
        ),
{
    String::from_utf8_lossy(bytes).into_owned()
}

/// What `str::to_lowercase` gives for `s`: the full Unicode lowercase mapping
/// (which may change the length of the text).
pub uninterp spec fn unicode_lower(s: Seq<char>) -> Seq<char>;

/// Calls `str::to_lowercase`. Claims that the result is a function of the
/// text (named by `unicode_lower`), and that ASCII text comes out as
/// `to_ascii_lowercase` gives it: Unicode lowercases the capitals `A` to `Z`
/// to `a` to `z` and leaves every other ASCII character as it is. The rest
/// of the Unicode case tables is not stated.
#[verifier::external_body]
pub(crate) fn to_lowercase(s: &str) -> (r: String)
    ensures
        r@ == unicode_lower(s@),
        is_ascii_text(s@) ==> r@ == lower(s@),
{
    s.to_lowercase()
}

/// Whether the Unicode-lowercased `h` contains the Unicode-lowercased `n`.
pub fn contains_ignoring_case(h: &str, n: &str) -> (r: bool)
    ensures
        r == contains(unicode_lower(h@), unicode_lower(n@)),
        is_ascii_text(h@) && is_ascii_text(n@) ==> r == contains(lower(h@), lower(n@)),
{
    let hl = to_lowercase(h);
    let nl = to_lowercase(n);
    let hc = chars_of(hl.as_str());
    let nc = chars_of(nl.as_str());
    contains_exec(&hc, &nc)
}

} // verus!
