//! Text operations the SOAP logic is stated in: trimming, searching,
//! ASCII case folding, decimal numerals.

use vstd::prelude::*;
use vstd::string::*;
use vstd::utf8::*;

verus! {

/// `String::push` appends one character.
pub assume_specification [ String::push ](s: &mut String, c: char)
    ensures
        final(s)@ == old(s)@.push(c),
;

/// The text that `String::from_utf8_lossy` makes of bytes.
pub uninterp spec fn lossy_text(bytes: Seq<u8>) -> Seq<char>;

/// `String::from_utf8_lossy` reads bytes as UTF-8. Bytes that are UTF-8 are
/// read as the text that they encode; in others it puts replacement
/// characters where they are not.
#[verifier::external_body]
pub(crate) fn from_utf8_lossy(bytes: &Vec<u8>) -> (s: String)
    ensures
        s@ == lossy_text(bytes@),
        valid_utf8(bytes@) ==> s@ == decode_utf8(bytes@),
{
    String::from_utf8_lossy(bytes).into_owned()
}

/// The characters with Unicode's `White_Space` property.
pub open spec fn is_white_space(c: char) -> bool {
    let u = c as u32;
    ||| 0x09 <= u <= 0x0d
    ||| u == 0x20
    ||| u == 0x85
    ||| u == 0xa0
    ||| u == 0x1680
    ||| 0x2000 <= u <= 0x200a
    ||| u == 0x2028
    ||| u == 0x2029
    ||| u == 0x202f
    ||| u == 0x205f
    ||| u == 0x3000
}

/// `s` without its leading white space.
pub open spec fn trim_start(s: Seq<char>) -> Seq<char>
    decreases s.len(),
{
    if s.len() > 0 && is_white_space(s[0]) {
        trim_start(s.drop_first())
    } else {
        s
    }
}

/// `s` without its trailing white space.
pub open spec fn trim_end(s: Seq<char>) -> Seq<char>
    decreases s.len(),
{
    if s.len() > 0 && is_white_space(s.last()) {
        trim_end(s.drop_last())
    } else {
        s
    }
}

/// `s` without leading and trailing white space.
pub open spec fn trimmed(s: Seq<char>) -> Seq<char> {
    trim_end(trim_start(s))
}

/// Nothing is left of `s` once it is trimmed.
pub open spec fn is_blank(s: Seq<char>) -> bool {
    trimmed(s).len() == 0
}

/// `pattern` occurs in `s`.
pub open spec fn contains_text(s: Seq<char>, pattern: Seq<char>) -> bool {
    exists|i: int| occurs_at(s, pattern, i)
}

/// `pattern` stands in `s` at index `i`.
pub open spec fn occurs_at(s: Seq<char>, pattern: Seq<char>, i: int) -> bool {
    0 <= i && i + pattern.len() <= s.len() && s.subrange(i, i + pattern.len()) == pattern
}

/// `c` with the letters `A` to `Z` folded to lower case.
pub open spec fn ascii_lower(c: char) -> char {
    if 'A' <= c <= 'Z' {
        (c as u32 + 32) as char
    } else {
        c
    }
}

/// `s` with the letters `A` to `Z` folded to lower case.
pub open spec fn ascii_lowered(s: Seq<char>) -> Seq<char> {
    s.map_values(|c: char| ascii_lower(c))
}

/// What follows the last `c` of `s`; all of it where there is none.
pub open spec fn after_last(s: Seq<char>, c: char) -> Seq<char>
    decreases s.len(),
{
    if s.len() > 0 && s.contains(c) {
        after_last(s.drop_first(), c)
    } else {
        s
    }
}

/// What comes before the first `c` of `s`; all of it where there is none.
pub open spec fn before_first(s: Seq<char>, c: char) -> Seq<char>
    decreases s.len(),
{
    if s.len() == 0 || s[0] == c {
        Seq::empty()
    } else {
        seq![s[0]] + before_first(s.drop_first(), c)
    }
}

/// The decimal digit of `d`.
pub open spec fn digit(d: nat) -> char {
    (48 + d) as char
}

/// The decimal numeral of `n`, without leading zeros.
pub open spec fn decimal(n: nat) -> Seq<char>
    decreases n,
{
    if n < 10 {
        seq![digit(n)]
    } else {
        decimal(n / 10).push(digit(n % 10))
    }
}

/// `s` is a non-empty run of decimal digits.
pub open spec fn is_numeral(s: Seq<char>) -> bool {
    s.len() > 0 && forall|i: int| 0 <= i < s.len() ==> '0' <= #[trigger] s[i] <= '9'
}

/// The number that a run of decimal digits stands for.
pub open spec fn numeral_value(s: Seq<char>) -> nat
    decreases s.len(),
{
    if s.len() == 0 {
        0
    } else {
        numeral_value(s.drop_last()) * 10 + (s.last() as u32 - 48) as nat
    }
}

/// The number that `s` reads as: decimal digits, one `+` before them
/// allowed, and no more than `u64` can hold.
pub open spec fn read_as_u64(s: Seq<char>) -> Option<u64> {
    let digits = if s.len() > 0 && s[0] == '+' {
        s.drop_first()
    } else {
        s
    };
    if is_numeral(digits) && numeral_value(digits) <= u64::MAX {
        Some(numeral_value(digits) as u64)
    } else {
        None
    }
}

/// An optional text.
pub open spec fn optional(o: Option<String>) -> Option<Seq<char>> {
    match o {
        Some(s) => Some(s@),
        None => None,
    }
}

/// An optional text.
pub open spec fn optional_str(o: Option<&str>) -> Option<Seq<char>> {
    match o {
        Some(s) => Some(s@),
        None => None,
    }
}

/// The text, or the empty text where there is none.
pub open spec fn or_empty(o: Option<Seq<char>>) -> Seq<char> {
    match o {
        Some(s) => s,
        None => Seq::empty(),
    }
}

/// The texts of a list.
pub open spec fn texts(list: Seq<String>) -> Seq<Seq<char>> {
    list.map_values(|s: String| s@)
}

/// The pairs of texts of a list.
pub open spec fn pairs(list: Seq<(String, String)>) -> Seq<(Seq<char>, Seq<char>)> {
    list.map_values(|p: (String, String)| (p.0@, p.1@))
}

/// The empty text is blank.
pub proof fn lemma_empty_is_blank()
    ensures
        is_blank(Seq::empty()),
{
}

/// A text that begins with something other than white space is not blank.
pub proof fn lemma_starts_with_ink(s: Seq<char>)
    requires
        s.len() > 0,
        !is_white_space(s[0]),
    ensures
        !is_blank(s),
    decreases s.len(),
{
    if is_white_space(s.last()) {
        lemma_starts_with_ink(s.drop_last());
    }
}

/// `s` holds nothing but white space.
pub open spec fn is_white(s: Seq<char>) -> bool {
    forall|i: int| 0 <= i < s.len() ==> is_white_space(#[trigger] s[i])
}

/// A text is blank if and only if it holds nothing but white space.
pub proof fn lemma_blank_is_white(s: Seq<char>)
    ensures
        is_blank(s) <==> is_white(s),
    decreases s.len(),
{
    if s.len() > 0 {
        let tail = s.drop_first();
        lemma_blank_is_white(tail);
        if !is_white_space(s[0]) {
            lemma_starts_with_ink(s);
        } else if is_white(tail) {
            assert forall|i: int| 0 <= i < s.len() implies is_white_space(#[trigger] s[i]) by {
                if i > 0 {
                    assert(s[i] == tail[i - 1]);
                }
            }
        } else {
            let i = choose|i: int| 0 <= i < tail.len() && !is_white_space(#[trigger] tail[i]);
            assert(tail[i] == s[i + 1]);
        }
    }
}

/// Two texts joined are blank if and only if both are.
pub proof fn lemma_blank_joined(a: Seq<char>, b: Seq<char>)
    ensures
        is_blank(a + b) <==> is_blank(a) && is_blank(b),
{
    let s = a + b;
    lemma_blank_is_white(a);
    lemma_blank_is_white(b);
    lemma_blank_is_white(s);
    if is_white(s) {
        assert forall|i: int| 0 <= i < a.len() implies is_white_space(#[trigger] a[i]) by {
            assert(s[i] == a[i]);
        }
        assert forall|i: int| 0 <= i < b.len() implies is_white_space(#[trigger] b[i]) by {
            assert(s[a.len() + i] == b[i]);
        }
    }
}

proof fn lemma_trim_start_push(s: Seq<char>, c: char)
    requires
        is_white_space(c),
    ensures
        trim_start(s).len() > 0 ==> trim_start(s.push(c)) == trim_start(s).push(c),
        trim_start(s).len() == 0 ==> trim_start(s.push(c)).len() == 0,
    decreases s.len(),
{
    if s.len() == 0 {
        let one = s.push(c);
        assert(one.drop_first() =~= Seq::empty());
        assert(trim_start(one) == trim_start(one.drop_first()));
    } else if is_white_space(s[0]) {
        assert(s.push(c).drop_first() =~= s.drop_first().push(c));
        lemma_trim_start_push(s.drop_first(), c);
    }
}

/// Blank text at the end is trimmed away.
pub proof fn lemma_trimmed_of_blank_end(a: Seq<char>, b: Seq<char>)
    requires
        is_blank(b),
    ensures
        trimmed(a + b) == trimmed(a),
    decreases b.len(),
{
    if b.len() == 0 {
        assert(a + b =~= a);
    } else {
        lemma_blank_is_white(b);
        let c = b.last();
        let fewer = b.drop_last();
        assert(is_white_space(b[b.len() - 1]));
        assert(b =~= fewer + seq![c]);
        lemma_blank_joined(fewer, seq![c]);
        lemma_trimmed_of_blank_end(a, fewer);
        let s = a + fewer;
        assert(a + b =~= s.push(c));
        lemma_trim_start_push(s, c);
        assert(trim_start(s).push(c).drop_last() =~= trim_start(s));
    }
}

proof fn lemma_trim_start_from(s: Seq<char>, i: int)
    requires
        0 <= i <= s.len(),
        forall|k: int| 0 <= k < i ==> is_white_space(#[trigger] s[k]),
        i < s.len() ==> !is_white_space(s[i]),
    ensures
        trim_start(s) == s.skip(i),
    decreases i,
{
    if i == 0 {
        assert(s.skip(0) =~= s);
    } else {
        assert(is_white_space(s[0]));
        assert forall|k: int| 0 <= k < i - 1 implies is_white_space(
            #[trigger] s.drop_first()[k],
        ) by {
            assert(s.drop_first()[k] == s[k + 1]);
        }
        lemma_trim_start_from(s.drop_first(), i - 1);
        assert(s.drop_first().skip(i - 1) =~= s.skip(i));
    }
}

proof fn lemma_trim_end_to(s: Seq<char>, j: int)
    requires
        0 <= j <= s.len(),
        forall|k: int| j <= k < s.len() ==> is_white_space(#[trigger] s[k]),
        0 < j ==> !is_white_space(s[j - 1]),
    ensures
        trim_end(s) == s.take(j),
    decreases s.len() - j,
{
    if j == s.len() {
        assert(s.take(j) =~= s);
    } else {
        assert(is_white_space(s.last()));
        lemma_trim_end_to(s.drop_last(), j);
        assert(s.drop_last().take(j) =~= s.take(j));
    }
}

/// The characters of `s`.
pub fn chars_of(s: &str) -> (chars: Vec<char>)
    ensures
        chars@ == s@,
{
    let mut chars: Vec<char> = Vec::new();
    for c in it: s.chars()
        invariant
            it.seq() == s@,
            chars@ == s@.take(it.index() as int),
    {
        chars.push(c);
        assert(s@.take(it.index() as int).push(c) =~= s@.take(it.index() + 1));
    }
    assert(s@.take(s@.len() as int) =~= s@);
    chars
}

/// The string of the characters `from..to`.
pub fn string_of(chars: &Vec<char>, from: usize, to: usize) -> (s: String)
    requires
        from <= to <= chars@.len(),
    ensures
        s@ == chars@.subrange(from as int, to as int),
{
    let mut s = String::new();
    let mut i: usize = from;
    while i < to
        invariant
            from <= i <= to <= chars@.len(),
            s@ == chars@.subrange(from as int, i as int),
        decreases to - i,
    {
        s.push(chars[i]);
        i += 1;
        assert(chars@.subrange(from as int, i as int) =~= chars@.subrange(
            from as int,
            i - 1,
        ).push(chars@[i - 1]));
    }
    s
}

/// Whether `c` is white space.
fn white_space(c: char) -> (b: bool)
    ensures
        b == is_white_space(c),
{
    let u: u32 = c as u32;
    (0x09 <= u && u <= 0x0d) || u == 0x20 || u == 0x85 || u == 0xa0 || u == 0x1680 || (0x2000 <= u
        && u <= 0x200a) || u == 0x2028 || u == 0x2029 || u == 0x202f || u == 0x205f || u == 0x3000
}

/// `s` without leading and trailing white space.
pub fn trim(s: &str) -> (t: String)
    ensures
        t@ == trimmed(s@),
{
    let chars = chars_of(s);
    let n: usize = chars.len();
    let mut from: usize = 0;
    while from < n && white_space(chars[from])
        invariant
            from <= n == chars@.len(),
            forall|k: int| 0 <= k < from ==> is_white_space(#[trigger] chars@[k]),
        decreases n - from,
    {
        from += 1;
    }
    let mut to: usize = n;
    while from < to && white_space(chars[to - 1])
        invariant
            from <= to <= n == chars@.len(),
            forall|k: int| to <= k < n ==> is_white_space(#[trigger] chars@[k]),
        decreases to,
    {
        to -= 1;
    }
    proof {
        lemma_trim_start_from(chars@, from as int);
        let rest = chars@.skip(from as int);
        assert forall|k: int| to - from <= k < rest.len() implies is_white_space(
            #[trigger] rest[k],
        ) by {
            assert(rest[k] == chars@[k + from]);
        }
        lemma_trim_end_to(rest, to - from);
        assert(rest.take(to - from) =~= chars@.subrange(from as int, to as int));
    }
    string_of(&chars, from, to)
}

/// Whether `a` and `b` are the same text.
pub fn same_text(a: &str, b: &str) -> (same: bool)
    ensures
        same == (a@ == b@),
{
    let x = a.as_bytes();
    let y = b.as_bytes();
    proof {
        vstd::utf8::encode_utf8_decode_utf8(a@);
        vstd::utf8::encode_utf8_decode_utf8(b@);
    }
    if x.len() != y.len() {
        return false;
    }
    let mut i: usize = 0;
    while i < x.len()
        invariant
            i <= x@.len() == y@.len(),
            x@ == a.spec_bytes(),
            y@ == b.spec_bytes(),
            forall|k: int| 0 <= k < i ==> x@[k] == y@[k],
        decreases x@.len() - i,
    {
        if x[i] != y[i] {
            return false;
        }
        i += 1;
    }
    assert(x@ =~= y@);
    true
}

/// `s` with the letters `A` to `Z` folded to lower case.
pub fn to_ascii_lowercase(s: &str) -> (lower: String)
    ensures
        lower@ == ascii_lowered(s@),
{
    let mut lower = String::new();
    for c in it: s.chars()
        invariant
            it.seq() == s@,
            lower@ == ascii_lowered(s@.take(it.index() as int)),
    {
        let folded: char = if 'A' <= c && c <= 'Z' {
            (c as u8 + 32) as char
        } else {
            c
        };
        lower.push(folded);
        assert(ascii_lowered(s@.take(it.index() as int)).push(folded) =~= ascii_lowered(
            s@.take(it.index() + 1),
        ));
    }
    assert(s@.take(s@.len() as int) =~= s@);
    lower
}

/// Whether `a` and `b` are the same text when ASCII case is disregarded.
pub fn eq_ignore_ascii_case(a: &str, b: &str) -> (same: bool)
    ensures
        same == (ascii_lowered(a@) == ascii_lowered(b@)),
{
    let x = to_ascii_lowercase(a);
    let y = to_ascii_lowercase(b);
    same_text(&x, &y)
}

proof fn lemma_after_last(s: Seq<char>, c: char, from: int)
    requires
        0 <= from <= s.len(),
        from > 0 ==> s[from - 1] == c,
        forall|i: int| from <= i < s.len() ==> #[trigger] s[i] != c,
    ensures
        after_last(s, c) == s.skip(from),
    decreases from,
{
    if from == 0 {
        assert(s.skip(0) =~= s);
    } else {
        let tail = s.drop_first();
        assert(s.contains(c));
        assert(from > 1 ==> tail[from - 2] == s[from - 1]);
        assert forall|i: int| from - 1 <= i < tail.len() implies #[trigger] tail[i] != c by {
            assert(tail[i] == s[i + 1]);
        }
        lemma_after_last(tail, c, from - 1);
        assert(tail.skip(from - 1) =~= s.skip(from));
    }
}

proof fn lemma_before_first(s: Seq<char>, c: char, to: int)
    requires
        0 <= to <= s.len(),
        to < s.len() ==> s[to] == c,
        forall|i: int| 0 <= i < to ==> #[trigger] s[i] != c,
    ensures
        before_first(s, c) == s.take(to),
    decreases to,
{
    if to == 0 {
        assert(s.take(0) =~= Seq::empty());
    } else {
        let tail = s.drop_first();
        assert(s[0] != c);
        assert(to < s.len() ==> tail[to - 1] == s[to]);
        assert forall|i: int| 0 <= i < to - 1 implies #[trigger] tail[i] != c by {
            assert(tail[i] == s[i + 1]);
        }
        lemma_before_first(tail, c, to - 1);
        assert(seq![s[0]] + tail.take(to - 1) =~= s.take(to));
    }
}

/// What follows the last `c` of `s`; all of it where there is none.
pub fn part_after_last(s: &str, c: char) -> (part: String)
    ensures
        part@ == after_last(s@, c),
{
    let chars = chars_of(s);
    let n: usize = chars.len();
    let mut from: usize = n;
    while from > 0 && chars[from - 1] != c
        invariant
            from <= n == chars@.len(),
            forall|i: int| from <= i < n ==> #[trigger] chars@[i] != c,
        decreases from,
    {
        from -= 1;
    }
    proof {
        lemma_after_last(chars@, c, from as int);
        assert(chars@.subrange(from as int, n as int) =~= chars@.skip(from as int));
    }
    string_of(&chars, from, n)
}

/// What comes before the first `c` of `s`; all of it where there is none.
pub fn part_before_first(s: &str, c: char) -> (part: String)
    ensures
        part@ == before_first(s@, c),
{
    let chars = chars_of(s);
    let n: usize = chars.len();
    let mut to: usize = 0;
    while to < n && chars[to] != c
        invariant
            to <= n == chars@.len(),
            forall|i: int| 0 <= i < to ==> #[trigger] chars@[i] != c,
        decreases n - to,
    {
        to += 1;
    }
    proof {
        lemma_before_first(chars@, c, to as int);
        assert(chars@.subrange(0, to as int) =~= chars@.take(to as int));
    }
    string_of(&chars, 0, to)
}

/// Whether `pattern` stands in `chars` at index `at`.
fn matches_at(chars: &Vec<char>, pattern: &Vec<char>, at: usize) -> (found: bool)
    requires
        at + pattern@.len() <= chars@.len(),
    ensures
        found == occurs_at(chars@, pattern@, at as int),
{
    let ghost window = chars@.subrange(at as int, at + pattern@.len());
    let n: usize = chars.len();
    let mut k: usize = 0;
    while k < pattern.len()
        invariant
            k <= pattern@.len(),
            at + pattern@.len() <= n == chars@.len(),
            window == chars@.subrange(at as int, at + pattern@.len()),
            forall|j: int| 0 <= j < k ==> window[j] == pattern@[j],
        decreases pattern@.len() - k,
    {
        if chars[at + k] != pattern[k] {
            assert(window[k as int] != pattern@[k as int]);
            return false;
        }
        k += 1;
    }
    assert(window =~= pattern@);
    true
}

/// Whether `pattern` occurs in `s`.
pub fn contains(s: &str, pattern: &str) -> (found: bool)
    ensures
        found == contains_text(s@, pattern@),
{
    let chars = chars_of(s);
    let wanted = chars_of(pattern);
    if wanted.len() > chars.len() {
        return false;
    }
    let last: usize = chars.len() - wanted.len();
    let mut at: usize = 0;
    loop
        invariant
            chars@ == s@,
            wanted@ == pattern@,
            last + wanted@.len() == chars@.len(),
            at <= last,
            forall|i: int| 0 <= i < at ==> !occurs_at(s@, pattern@, i),
        decreases last - at,
    {
        if matches_at(&chars, &wanted, at) {
            return true;
        }
        if at == last {
            return false;
        }
        at += 1;
    }
}

/// Whether `s` begins with `prefix`.
pub fn starts_with(s: &str, prefix: &str) -> (found: bool)
    ensures
        found == occurs_at(s@, prefix@, 0),
{
    let chars = chars_of(s);
    let wanted = chars_of(prefix);
    wanted.len() <= chars.len() && matches_at(&chars, &wanted, 0)
}

/// The decimal numeral of `n`.
pub fn to_decimal(n: u128) -> (s: String)
    ensures
        s@ == decimal(n as nat),
    decreases n,
{
    let unit: char = ((n % 10) as u8 + 48) as char;
    let mut s = if n < 10 {
        String::new()
    } else {
        to_decimal(n / 10)
    };
    s.push(unit);
    assert(n < 10 ==> s@ =~= seq![digit(n as nat)]);
    s
}

proof fn lemma_numeral_value_grows(s: Seq<char>, k: int)
    requires
        0 <= k <= s.len(),
    ensures
        numeral_value(s.take(k)) <= numeral_value(s),
    decreases s.len() - k,
{
    if k < s.len() {
        lemma_numeral_value_grows(s, k + 1);
        assert(s.take(k + 1).drop_last() =~= s.take(k));
    } else {
        assert(s.take(k) =~= s);
    }
}

/// Reads `s` as a decimal number: digits, one `+` before them allowed.
pub fn parse_u64(s: &str) -> (n: Option<u64>)
    ensures
        n == read_as_u64(s@),
{
    let chars = chars_of(s);
    let from: usize = if chars.len() > 0 && chars[0] == '+' {
        1
    } else {
        0
    };
    let ghost digits = chars@.skip(from as int);
    assert(s@.skip(0) =~= s@);
    assert(from == 1 ==> digits =~= s@.drop_first());
    if from == chars.len() {
        return None;
    }
    let mut n: u64 = 0;
    let mut i: usize = from;
    while i < chars.len()
        invariant
            from <= i <= chars@.len(),
            digits == chars@.skip(from as int),
            n == numeral_value(digits.take(i - from)),
            forall|k: int| 0 <= k < i - from ==> '0' <= #[trigger] digits[k] <= '9',
            read_as_u64(s@) == (if is_numeral(digits) && numeral_value(digits) <= u64::MAX {
                Some(numeral_value(digits) as u64)
            } else {
                None
            }),
        decreases chars@.len() - i,
    {
        let c: char = chars[i];
        assert(digits[i - from] == c);
        if c < '0' || '9' < c {
            return None;
        }
        let d: u64 = (c as u32 - 48) as u64;
        proof {
            assert(digits.take(i - from + 1).drop_last() =~= digits.take(i - from));
            lemma_numeral_value_grows(digits, i - from + 1);
        }
        match n.checked_mul(10) {
            None => {
                return None;
            },
            Some(tenfold) => match tenfold.checked_add(d) {
                None => {
                    return None;
                },
                Some(next) => {
                    n = next;
                },
            },
        }
        i += 1;
    }
    assert(digits.take(digits.len() as int) =~= digits);
    Some(n)
}

/// Two texts, one after the other.
pub fn joined(a: &str, b: &str) -> (s: String)
    ensures
        s@ == a@ + b@,
{
    let mut s = a.to_owned();
    s.append(b);
    s
}

/// The optional text as a borrowed one.
pub fn borrowed(o: &Option<String>) -> (s: Option<&str>)
    ensures
        optional_str(s) == optional(*o),
{
    match o {
        Some(s) => Some(s.as_str()),
        None => None,
    }
}

/// White space is what Unicode counts as such: these characters and no others.
pub proof fn law_white_space(c: char)
    ensures
        is_white_space(c) <==> seq![
            0x09u32,
            0x0a,
            0x0b,
            0x0c,
            0x0d,
            0x20,
            0x85,
            0xa0,
            0x1680,
            0x2000,
            0x2001,
            0x2002,
            0x2003,
            0x2004,
            0x2005,
            0x2006,
            0x2007,
            0x2008,
            0x2009,
            0x200a,
            0x2028,
            0x2029,
            0x202f,
            0x205f,
            0x3000,
        ].contains(c as u32),
{
    let all = seq![
        0x09u32,
        0x0a,
        0x0b,
        0x0c,
        0x0d,
        0x20,
        0x85,
        0xa0,
        0x1680,
        0x2000,
        0x2001,
        0x2002,
        0x2003,
        0x2004,
        0x2005,
        0x2006,
        0x2007,
        0x2008,
        0x2009,
        0x200a,
        0x2028,
        0x2029,
        0x202f,
        0x205f,
        0x3000,
    ];
    let u = c as u32;
    if 0x09 <= u <= 0x0d {
        assert(all[u - 0x09] == u);
    } else if 0x2000 <= u <= 0x200a {
        assert(all[9 + (u - 0x2000)] == u);
    } else {
        assert(all[5] == 0x20 && all[6] == 0x85 && all[7] == 0xa0 && all[8] == 0x1680);
        assert(all[20] == 0x2028 && all[21] == 0x2029 && all[22] == 0x202f && all[23] == 0x205f);
        assert(all[24] == 0x3000);
    }
}

/// A trimmed text is a part of the text, with nothing but white space before
/// and after it, and neither begins nor ends with any.
pub proof fn law_trimmed_is_the_inside(s: Seq<char>)
    ensures
        exists|i: int, j: int|
            #![trigger s.subrange(i, j)]
            0 <= i <= j <= s.len() && trimmed(s) == s.subrange(i, j) && is_white(s.take(i))
                && is_white(s.skip(j)),
        trimmed(s).len() > 0 ==> !is_white_space(trimmed(s)[0]) && !is_white_space(
            trimmed(s).last(),
        ),
{
    let i = lemma_where_trim_start(s);
    let rest = s.skip(i);
    let j = lemma_where_trim_end(rest);
    assert(s.subrange(i, i + j) =~= rest.take(j));
    assert forall|k: int| 0 <= k < s.skip(i + j).len() implies is_white_space(
        #[trigger] s.skip(i + j)[k],
    ) by {
        assert(s.skip(i + j)[k] == rest.skip(j)[k]);
    }
    if trimmed(s).len() > 0 {
        assert(trimmed(s)[0] == rest[0]);
    }
}

proof fn lemma_where_trim_start(s: Seq<char>) -> (i: int)
    ensures
        0 <= i <= s.len(),
        trim_start(s) == s.skip(i),
        is_white(s.take(i)),
        i < s.len() ==> !is_white_space(s[i]),
    decreases s.len(),
{
    if s.len() > 0 && is_white_space(s[0]) {
        let k = lemma_where_trim_start(s.drop_first());
        assert(s.drop_first().skip(k) =~= s.skip(k + 1));
        assert forall|x: int| 0 <= x < s.take(k + 1).len() implies is_white_space(
            #[trigger] s.take(k + 1)[x],
        ) by {
            if x > 0 {
                assert(s.take(k + 1)[x] == s.drop_first().take(k)[x - 1]);
            }
        }
        k + 1
    } else {
        assert(s.skip(0) =~= s);
        0
    }
}

proof fn lemma_where_trim_end(s: Seq<char>) -> (j: int)
    ensures
        0 <= j <= s.len(),
        trim_end(s) == s.take(j),
        is_white(s.skip(j)),
        j > 0 ==> !is_white_space(s[j - 1]),
    decreases s.len(),
{
    if s.len() > 0 && is_white_space(s.last()) {
        let k = lemma_where_trim_end(s.drop_last());
        assert(s.drop_last().take(k) =~= s.take(k));
        assert forall|x: int| 0 <= x < s.skip(k).len() implies is_white_space(
            #[trigger] s.skip(k)[x],
        ) by {
            if x < s.len() - 1 - k {
                assert(s.skip(k)[x] == s.drop_last().skip(k)[x]);
            }
        }
        k
    } else {
        assert(s.take(s.len() as int) =~= s);
        s.len() as int
    }
}

/// A numeral reads back as the number that it is of, and has no leading zeros.
pub proof fn law_numerals_read_back(n: nat)
    ensures
        is_numeral(decimal(n)),
        numeral_value(decimal(n)) == n,
        n > 0 ==> decimal(n)[0] != '0',
        n == 0 ==> decimal(n) == seq!['0'],
        n <= u64::MAX ==> read_as_u64(decimal(n)) == Some(n as u64),
        n <= u64::MAX ==> read_as_u64(seq!['+'] + decimal(n)) == Some(n as u64),
    decreases n,
{
    reveal_with_fuel(numeral_value, 2);
    if n >= 10 {
        law_numerals_read_back(n / 10);
        let fewer = decimal(n / 10);
        assert(decimal(n).drop_last() =~= fewer);
        assert forall|i: int| 0 <= i < decimal(n).len() implies '0' <= #[trigger] decimal(n)[i]
            <= '9' by {
            if i < fewer.len() {
                assert(decimal(n)[i] == fewer[i]);
            }
        }
    } else {
        assert(decimal(n).drop_last() =~= Seq::empty());
    }
    assert('0' <= decimal(n)[0] <= '9');
    assert((seq!['+'] + decimal(n)).drop_first() =~= decimal(n));
}

/// What reads as a number is a run of digits, one `+` before them allowed.
/// Anything else, and what 64 bits cannot hold, does not.
pub proof fn law_what_reads_as_a_number(s: Seq<char>)
    ensures
        read_as_u64(s) matches Some(n) ==> {
            ||| is_numeral(s) && numeral_value(s) == n
            ||| s.len() > 0 && s[0] == '+' && is_numeral(s.drop_first()) && numeral_value(
                s.drop_first(),
            ) == n
        },
        is_numeral(s) && numeral_value(s) <= u64::MAX ==> read_as_u64(s) is Some,
        !is_numeral(s) && !(s.len() > 0 && is_numeral(s.drop_first())) ==> read_as_u64(s) is None,
{
}

/// What follows the last of a character, and what comes before the first.
pub proof fn law_parts_of_a_text(before: Seq<char>, c: char, after: Seq<char>)
    ensures
        !after.contains(c) ==> after_last(before.push(c) + after, c) == after,
        !after.contains(c) ==> after_last(after, c) == after,
        !before.contains(c) ==> before_first(before.push(c) + after, c) == before,
        !before.contains(c) ==> before_first(before, c) == before,
{
    let s = before.push(c) + after;
    if !after.contains(c) {
        assert forall|i: int| before.len() + 1 <= i < s.len() implies #[trigger] s[i] != c by {
            assert(s[i] == after[i - before.len() - 1]);
        }
        let from = before.len() as int + 1;
        lemma_after_last(s, c, from);
        assert(s.skip(from) =~= after);
        assert forall|i: int| 0 <= i < after.len() implies #[trigger] after[i] != c by {}
        lemma_after_last(after, c, 0);
        assert(after.skip(0) =~= after);
    }
    if !before.contains(c) {
        assert forall|i: int| 0 <= i < before.len() implies #[trigger] s[i] != c by {
            assert(s[i] == before[i]);
        }
        lemma_before_first(s, c, before.len() as int);
        assert(s.take(before.len() as int) =~= before);
        lemma_before_first(before, c, before.len() as int);
        assert(before.take(before.len() as int) =~= before);
    }
}

/// Folding to lower case changes the letters `A` to `Z`, each to the letter 32
/// code points on, and nothing else.
pub proof fn law_lower_case(s: Seq<char>, i: int)
    requires
        0 <= i < s.len(),
    ensures
        ascii_lowered(s).len() == s.len(),
        'A' <= s[i] <= 'Z' ==> ascii_lowered(s)[i] as u32 == s[i] as u32 + 32,
        !('A' <= s[i] <= 'Z') ==> ascii_lowered(s)[i] == s[i],
        ascii_lowered(ascii_lowered(s)) == ascii_lowered(s),
{
    assert forall|k: int| 0 <= k < s.len() implies ascii_lower(
        ascii_lower(#[trigger] s[k]),
    ) == ascii_lower(s[k]) by {
        let c = s[k];
        if 'A' <= c <= 'Z' {
            assert(ascii_lower(c) as u32 == c as u32 + 32);
        }
    }
    assert(ascii_lowered(ascii_lowered(s)) =~= ascii_lowered(s));
}

/// A text contains another if and only if it is some text, the other, and some
/// text again.
pub proof fn law_contained_texts(s: Seq<char>, pattern: Seq<char>)
    ensures
        contains_text(s, pattern) <==> exists|before: Seq<char>, after: Seq<char>|
            s == #[trigger] (before + pattern + after),
{
    if contains_text(s, pattern) {
        let i = choose|i: int| occurs_at(s, pattern, i);
        let before = s.take(i);
        let after = s.skip(i + pattern.len());
        assert(s =~= before + s.subrange(i, i + pattern.len()) + after);
        assert(s == before + pattern + after);
    }
    if exists|before: Seq<char>, after: Seq<char>| s == #[trigger] (before + pattern + after) {
        let (before, after): (Seq<char>, Seq<char>) = choose|before: Seq<char>, after: Seq<char>|
            s == #[trigger] (before + pattern + after);
        let i = before.len() as int;
        assert(s.subrange(i, i + pattern.len()) =~= pattern);
        assert(occurs_at(s, pattern, i));
    }
}

/// A text stands at the start of another if and only if the other is that text
/// and what follows it.
pub proof fn law_texts_at_the_start(s: Seq<char>, prefix: Seq<char>)
    ensures
        occurs_at(s, prefix, 0) <==> prefix.len() <= s.len() && s == prefix + s.skip(
            prefix.len() as int,
        ),
{
    let n = prefix.len() as int;
    if occurs_at(s, prefix, 0) {
        assert(s =~= s.subrange(0, n) + s.skip(n));
    }
    if prefix.len() <= s.len() && s == prefix + s.skip(n) {
        assert((prefix + s.skip(n)).subrange(0, n) =~= prefix);
    }
}

} // verus!
