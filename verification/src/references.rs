//! What a reference in the text of a document stands for.

use crate::text;
use crate::text::{chars_of, same_text};
use vstd::prelude::*;
use vstd::string::*;

verus! {

/// `char::from_u32` gives the character with this code point, if there is
/// one: surrogates and what is above `0x10ffff` are none.
pub assume_specification [ char::from_u32 ](i: u32) -> (c: Option<char>)
    ensures
        c == (if i <= 0xd7ff || 0xe000 <= i <= 0x10ffff {
            Some(i as char)
        } else {
            None
        }),
;

/// The value of a digit, decimal or hexadecimal; 16 for what is no digit.
pub open spec fn digit_value(c: char) -> nat {
    if '0' <= c <= '9' {
        (c as u32 - 48) as nat
    } else if 'a' <= c <= 'f' {
        (c as u32 - 87) as nat
    } else if 'A' <= c <= 'F' {
        (c as u32 - 55) as nat
    } else {
        16
    }
}

/// `s` is a non-empty run of digits to this base.
pub open spec fn is_number(s: Seq<char>, base: nat) -> bool {
    s.len() > 0 && forall|i: int| 0 <= i < s.len() ==> digit_value(#[trigger] s[i]) < base
}

/// The number that a run of digits to this base stands for.
pub open spec fn number_value(s: Seq<char>, base: nat) -> nat
    decreases s.len(),
{
    if s.len() == 0 {
        0
    } else {
        number_value(s.drop_last(), base) * base + digit_value(s.last())
    }
}

/// The character with this code point. There is none with zero, which no
/// document may hold.
pub open spec fn character(code: nat) -> Option<char> {
    if 0 < code <= 0xd7ff || 0xe000 <= code <= 0x10ffff {
        Some(code as char)
    } else {
        None
    }
}

/// The character that digits to this base name.
pub open spec fn numbered(digits: Seq<char>, base: nat) -> Option<char> {
    if is_number(digits, base) {
        character(number_value(digits, base))
    } else {
        None
    }
}

/// The character that a reference names by its number: what follows `#`,
/// decimal, or hexadecimal after an `x`.
pub open spec fn character_reference(number: Seq<char>) -> Option<char> {
    if number.len() > 0 && number[0] == 'x' {
        numbered(number.skip(1), 16)
    } else {
        numbered(number, 10)
    }
}

/// The text that a reference stands for: the character of one of the five
/// predefined names, or the one that it names by its number. A reference to
/// anything else stands for nothing.
pub open spec fn referenced(name: Seq<char>) -> Seq<char> {
    if name == "lt"@ {
        seq!['<']
    } else if name == "gt"@ {
        seq!['>']
    } else if name == "amp"@ {
        seq!['&']
    } else if name == "apos"@ {
        seq!['\'']
    } else if name == "quot"@ {
        seq!['"']
    } else if name.len() > 0 && name[0] == '#' && character_reference(name.skip(1)) is Some {
        seq![character_reference(name.skip(1))->0]
    } else {
        Seq::empty()
    }
}

/// The value of a digit; 16 for what is no digit.
fn digit(c: char) -> (d: u32)
    ensures
        d == digit_value(c),
{
    if '0' <= c && c <= '9' {
        c as u32 - 48
    } else if 'a' <= c && c <= 'f' {
        c as u32 - 87
    } else if 'A' <= c && c <= 'F' {
        c as u32 - 55
    } else {
        16
    }
}

proof fn lemma_number_value_grows(s: Seq<char>, base: nat, k: int)
    requires
        0 <= k <= s.len(),
        base > 0,
    ensures
        number_value(s.take(k), base) <= number_value(s, base),
    decreases s.len() - k,
{
    if k < s.len() {
        lemma_number_value_grows(s, base, k + 1);
        assert(s.take(k + 1).drop_last() =~= s.take(k));
        let v = number_value(s.take(k), base);
        assert(v <= v * base) by (nonlinear_arith)
            requires
                base > 0,
                v >= 0,
        ;
    } else {
        assert(s.take(k) =~= s);
    }
}

/// The character that the digits from `from` on name.
fn read_number(chars: &Vec<char>, from: usize, base: u32) -> (c: Option<char>)
    requires
        from <= chars@.len(),
        base == 10 || base == 16,
    ensures
        c == numbered(chars@.skip(from as int), base as nat),
{
    let ghost digits = chars@.skip(from as int);
    if from == chars.len() {
        return None;
    }
    let mut code: u32 = 0;
    let mut i: usize = from;
    while i < chars.len()
        invariant
            from <= i <= chars@.len(),
            base == 10 || base == 16,
            digits == chars@.skip(from as int),
            code <= 0x10ffff,
            code == number_value(digits.take(i - from), base as nat),
            forall|k: int| 0 <= k < i - from ==> digit_value(#[trigger] digits[k]) < base,
        decreases chars@.len() - i,
    {
        let d: u32 = digit(chars[i]);
        assert(digits[i - from] == chars@[i as int]);
        if d >= base {
            return None;
        }
        proof {
            assert(digits.take(i - from + 1).drop_last() =~= digits.take(i - from));
            lemma_number_value_grows(digits, base as nat, i - from + 1);
        }
        let next: u32 = if base == 10 {
            code * 10 + d
        } else {
            code * 16 + d
        };
        if next > 0x10ffff {
            return None;
        }
        code = next;
        i += 1;
    }
    assert(digits.take(digits.len() as int) =~= digits);
    if code == 0 {
        None
    } else {
        char::from_u32(code)
    }
}

/// One character as a text.
fn single(c: char) -> (s: String)
    ensures
        s@ == seq![c],
{
    let mut s = String::new();
    s.push(c);
    assert(s@ =~= seq![c]);
    s
}

/// The text that a reference stands for; `name` is what it has between `&`
/// and `;`. A reference that is not known is passed over: it stands for
/// nothing.
pub fn resolve_reference(name: &str) -> (s: String)
    ensures
        s@ == referenced(name@),
{
    if same_text(name, "lt") {
        return single('<');
    }
    if same_text(name, "gt") {
        return single('>');
    }
    if same_text(name, "amp") {
        return single('&');
    }
    if same_text(name, "apos") {
        return single('\'');
    }
    if same_text(name, "quot") {
        return single('"');
    }
    let chars = chars_of(name);
    if chars.len() > 0 && chars[0] == '#' {
        let found = if chars.len() > 1 && chars[1] == 'x' {
            assert(name@.skip(1).skip(1) =~= name@.skip(2));
            read_number(&chars, 2, 16)
        } else {
            read_number(&chars, 1, 10)
        };
        if let Some(c) = found {
            return single(c);
        }
    }
    String::new()
}

/// A reference by a decimal number is the character with that code point, where
/// there is one; every other is nothing.
pub proof fn law_numbered_references(n: nat)
    ensures
        0 < n <= 0xd7ff || 0xe000 <= n <= 0x10ffff ==> referenced(seq!['#'] + text::decimal(n))
            == seq![n as char],
        n == 0 || 0xd800 <= n <= 0xdfff || n > 0x10ffff ==> referenced(
            seq!['#'] + text::decimal(n),
        ) == Seq::<char>::empty(),
{
    let name = seq!['#'] + text::decimal(n);
    text::law_numerals_read_back(n);
    lemma_decimal_number(text::decimal(n));
    assert(name.skip(1) =~= text::decimal(n));
    assert('0' <= text::decimal(n)[0] <= '9');
    lemma_no_name(name);
}

proof fn lemma_decimal_number(s: Seq<char>)
    requires
        text::is_numeral(s) || s.len() == 0,
    ensures
        s.len() > 0 ==> is_number(s, 10),
        number_value(s, 10) == text::numeral_value(s),
    decreases s.len(),
{
    if s.len() > 0 {
        let fewer = s.drop_last();
        assert forall|i: int| 0 <= i < fewer.len() implies '0' <= #[trigger] fewer[i] <= '9' by {
            assert(fewer[i] == s[i]);
        }
        lemma_decimal_number(fewer);
        assert('0' <= s[s.len() - 1] <= '9');
    }
}

/// What begins with `#` is none of the five names.
proof fn lemma_no_name(name: Seq<char>)
    requires
        name.len() > 0,
        name[0] == '#',
    ensures
        name != "lt"@,
        name != "gt"@,
        name != "amp"@,
        name != "apos"@,
        name != "quot"@,
{
    reveal_strlit("lt");
    reveal_strlit("gt");
    reveal_strlit("amp");
    reveal_strlit("apos");
    reveal_strlit("quot");
    assert("lt"@[0] == 'l' && "gt"@[0] == 'g' && "amp"@[0] == 'a' && "apos"@[0] == 'a');
    assert("quot"@[0] == 'q');
}

/// A reference by a hexadecimal number is the character with that code point,
/// where there is one. One more digit makes the number sixteen times as much and
/// the digit more.
pub proof fn law_hexadecimal_references(digits: Seq<char>)
    requires
        is_number(digits, 16),
    ensures
        ({
            let n = number_value(digits, 16);
            referenced(seq!['#', 'x'] + digits) == (if 0 < n <= 0xd7ff || 0xe000 <= n
                <= 0x10ffff {
                seq![n as char]
            } else {
                Seq::empty()
            })
        }),
        forall|d: nat|
            #![trigger digits.push(hexadecimal_digit(d))]
            d < 16 ==> is_number(digits.push(hexadecimal_digit(d)), 16) && number_value(
                digits.push(hexadecimal_digit(d)),
                16,
            ) == number_value(digits, 16) * 16 + d,
{
    let name = seq!['#', 'x'] + digits;
    assert(name.skip(1)[0] == 'x');
    assert(name.skip(1).skip(1) =~= digits);
    lemma_no_name(name);
    assert forall|d: nat| d < 16 implies is_number(
        #[trigger] digits.push(hexadecimal_digit(d)),
        16,
    ) && number_value(digits.push(hexadecimal_digit(d)), 16) == number_value(digits, 16) * 16
        + d by {
        let c = hexadecimal_digit(d);
        let more = digits.push(c);
        assert(more.drop_last() =~= digits);
        assert(digit_value(c) == d) by {
            if d < 10 {
                assert(c as u32 == 48 + d);
            } else {
                assert(c as u32 == 87 + d);
            }
        }
        assert forall|i: int| 0 <= i < more.len() implies digit_value(#[trigger] more[i]) < 16 by {
            if i < digits.len() {
                assert(more[i] == digits[i]);
            }
        }
    }
}

/// The digits `A` to `F` count as `a` to `f` do, and a reference by a number with
/// anything else in it stands for nothing.
pub proof fn law_digits(digits: Seq<char>, i: int)
    requires
        0 <= i < digits.len(),
    ensures
        'A' <= digits[i] <= 'F' ==> digit_value(digits[i]) == digits[i] as u32 - 'A' as u32 + 10,
        'a' <= digits[i] <= 'f' ==> digit_value(digits[i]) == digits[i] as u32 - 'a' as u32 + 10,
        '0' <= digits[i] <= '9' ==> digit_value(digits[i]) == digits[i] as u32 - '0' as u32,
        ({
            let c = digits[i];
            !('0' <= c <= '9' || 'a' <= c <= 'f' || 'A' <= c <= 'F') ==> referenced(
                seq!['#', 'x'] + digits,
            ).len() == 0
        }),
        !('0' <= digits[i] <= '9') && digits[0] != 'x' ==> referenced(seq!['#'] + digits).len()
            == 0,
{
    let hex = seq!['#', 'x'] + digits;
    assert(hex.skip(1)[0] == 'x');
    assert(hex.skip(1).skip(1) =~= digits);
    lemma_no_name(hex);
    let dec = seq!['#'] + digits;
    assert(dec.skip(1) =~= digits);
    lemma_no_name(dec);
    assert(is_number(digits, 16) ==> digit_value(digits[i]) < 16);
    assert(is_number(digits, 10) ==> digit_value(digits[i]) < 10);
}

/// The hexadecimal digit of `d`, in lower case.
pub open spec fn hexadecimal_digit(d: nat) -> char {
    if d < 10 {
        (48 + d) as char
    } else {
        (87 + d) as char
    }
}

/// A reference stands for one character or for none. One by name that is none of
/// the five predefined stands for none.
pub proof fn law_references_by_name(name: Seq<char>)
    ensures
        referenced(name).len() <= 1,
        referenced("lt"@) == seq!['<'],
        referenced("gt"@) == seq!['>'],
        referenced("amp"@) == seq!['&'],
        referenced("apos"@) == seq!['\''],
        referenced("quot"@) == seq!['"'],
        name != "lt"@ && name != "gt"@ && name != "amp"@ && name != "apos"@ && name != "quot"@ && !(
        name.len() > 0 && name[0] == '#') ==> referenced(name).len() == 0,
{
    reveal_strlit("lt");
    reveal_strlit("gt");
    reveal_strlit("amp");
    reveal_strlit("apos");
    reveal_strlit("quot");
    assert("lt"@.len() == 2 && "gt"@.len() == 2 && "amp"@.len() == 3 && "apos"@.len() == 4);
    assert("quot"@.len() == 4);
    assert("lt"@[0] == 'l' && "gt"@[0] == 'g' && "apos"@[0] == 'a' && "quot"@[0] == 'q');
}

} // verus!
