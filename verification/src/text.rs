//! Numbers and C buffers as text, and text as numbers.

use vstd::prelude::*;
use vstd::string::StringExecFns;
use vstd::utf8::*;

verus! {

/// `String::push` of std: appends one character to the end of the string.
pub assume_specification[ String::push ](s: &mut String, c: char)
    ensures
        final(s)@ == old(s)@.push(c),
;

/// The name of what `String::from_utf8_lossy` makes of `bytes`.
pub uninterp spec fn utf8_lossy(bytes: Seq<u8>) -> Seq<char>;

/// `String::from_utf8_lossy` of std: valid UTF-8 is taken as it is; what stands for invalid
/// bytes is only named.
#[verifier::external_body]
pub(crate) fn lossy_text(bytes: &[u8]) -> (text: String)
    ensures
        text@ == utf8_lossy(bytes@),
        valid_utf8(bytes@) ==> text@ == decode_utf8(bytes@),
{
    String::from_utf8_lossy(bytes).into_owned()
}

/// `String::from_utf8` of std: succeeds exactly on valid UTF-8, with the characters that the
/// bytes encode.
#[verifier::external_body]
pub(crate) fn utf8_text(bytes: Vec<u8>) -> (text: Option<String>)
    ensures
        text is Some <==> valid_utf8(bytes@),
        text matches Some(s) ==> s@ == decode_utf8(bytes@),
{
    String::from_utf8(bytes).ok()
}

// ---------------------------------------------------------------------------
// Comparing and reading
// ---------------------------------------------------------------------------

/// Two strings have the same UTF-8 bytes exactly when they have the same characters.
pub proof fn lemma_utf8_injective(a: Seq<char>, b: Seq<char>)
    ensures
        encode_utf8(a) == encode_utf8(b) <==> a == b,
{
    encode_utf8_decode_utf8(a);
    encode_utf8_decode_utf8(b);
}

/// Whether two strings hold the same characters.
pub fn same_text(a: &str, b: &str) -> (same: bool)
    ensures
        same == (a@ == b@),
{
    proof {
        lemma_utf8_injective(a@, b@);
    }
    let x = a.as_bytes();
    let y = b.as_bytes();
    if x.len() != y.len() {
        return false;
    }
    let mut i: usize = 0;
    while i < x.len()
        invariant
            x@.len() == y@.len(),
            i <= x@.len(),
            x@ == encode_utf8(a@),
            y@ == encode_utf8(b@),
            encode_utf8(a@) == encode_utf8(b@) <==> a@ == b@,
            forall|j: int| 0 <= j < i ==> x@[j] == y@[j],
        decreases x@.len() - i,
    {
        if x[i] != y[i] {
            return false;
        }
        i += 1;
    }
    assert(x@ =~= y@);
    true
}

/// The characters of a string.
pub fn chars_of(s: &str) -> (chars: Vec<char>)
    ensures
        chars@ == s@,
{
    let mut chars: Vec<char> = Vec::new();
    for c in it: s.chars()
        invariant
            it.seq() == s@,
            chars@ == s@.take(it.index() as int),
    {
        chars.push(c);
        assert(chars@ =~= s@.take(it.index() + 1));
    }
    assert(s@.take(s@.len() as int) =~= s@);
    chars
}

/// The string made of `chars[from..to]`.
pub fn text_between(chars: &Vec<char>, from: usize, to: usize) -> (text: String)
    requires
        from <= to <= chars@.len(),
    ensures
        text@ == chars@.subrange(from as int, to as int),
{
    let mut text = String::new();
    let mut i: usize = from;
    while i < to
        invariant
            from <= i <= to <= chars@.len(),
            text@ == chars@.subrange(from as int, i as int),
        decreases to - i,
    {
        text.push(chars[i]);
        i += 1;
        assert(text@ =~= chars@.subrange(from as int, i as int));
    }
    text
}

/// Two strings one after the other.
pub fn joined(a: &str, b: &str) -> (text: String)
    ensures
        text@ == a@ + b@,
{
    let mut text = a.to_owned();
    text.append(b);
    text
}

/// Three strings one after the other.
pub fn joined3(a: &str, b: &str, c: &str) -> (text: String)
    ensures
        text@ == a@ + b@ + c@,
{
    let mut text = joined(a, b);
    text.append(c);
    text
}

// ---------------------------------------------------------------------------
// Numbers as text
// ---------------------------------------------------------------------------

/// The character of the digit `d`; the digits from ten on are letters that start at `ten`.
pub open spec fn digit(d: nat, ten: u8) -> char {
    if d < 10 {
        ('0' as u32 + d) as char
    } else {
        (ten + d - 10) as char
    }
}

/// The digits of `n` in `base`, without leading zeros.
pub open spec fn numeral(n: nat, base: nat, ten: u8) -> Seq<char>
    decreases n,
{
    if n < base || base < 2 {
        seq![digit(n, ten)]
    } else {
        proof {
            assert(0 <= n / base < n) by (nonlinear_arith)
                requires
                    n >= base,
                    base >= 2,
            ;
        }
        numeral(n / base, base, ten).push(digit(n % base, ten))
    }
}

/// `n` in base ten.
pub open spec fn decimal(n: nat) -> Seq<char> {
    numeral(n, 10, 0x41)
}

/// `n` in base sixteen with the letters `A` to `F`.
pub open spec fn upper_hex(n: nat) -> Seq<char> {
    numeral(n, 16, 0x41)
}

/// `n` in base sixteen with the letters `a` to `f`.
pub open spec fn lower_hex(n: nat) -> Seq<char> {
    numeral(n, 16, 0x61)
}

/// `s` with zeros in front, up to `width` characters.
pub open spec fn zero_padded(s: Seq<char>, width: nat) -> Seq<char> {
    if s.len() >= width {
        s
    } else {
        Seq::new((width - s.len()) as nat, |i: int| '0') + s
    }
}

/// `n` in base ten, with a minus sign where it is negative.
pub open spec fn signed_decimal(n: int) -> Seq<char> {
    if n < 0 {
        seq!['-'] + decimal((-n) as nat)
    } else {
        decimal(n as nat)
    }
}

/// `n` in base ten, always with a sign.
pub open spec fn explicitly_signed_decimal(n: int) -> Seq<char> {
    if n < 0 {
        seq!['-'] + decimal((-n) as nat)
    } else {
        seq!['+'] + decimal(n as nat)
    }
}

/// The value of a 32 bit code when its bits are read as an unsigned number.
pub open spec fn unsigned_code(code: i32) -> nat {
    if code < 0 {
        (code + 0x1_0000_0000) as nat
    } else {
        code as nat
    }
}

/// A code as it is shown when no label is known for it.
pub open spec fn hex_label(code: i32) -> Seq<char> {
    seq!['0', 'x'] + zero_padded(upper_hex(unsigned_code(code)), 2)
}

fn digit_char(d: u8, ten: u8) -> (c: char)
    requires
        d < 16,
        ten < 0x70,
    ensures
        c == digit(d as nat, ten),
{
    if d < 10 {
        (0x30u8 + d) as char
    } else {
        (ten + (d - 10)) as char
    }
}

/// Writes `n` in `base`.
pub fn numeral_text(n: u64, base: u64, ten: u8) -> (text: String)
    requires
        2 <= base <= 16,
        ten < 0x70,
    ensures
        text@ == numeral(n as nat, base as nat, ten),
    decreases n,
{
    if n < base {
        let mut text = String::new();
        text.push(digit_char(n as u8, ten));
        assert(text@ =~= numeral(n as nat, base as nat, ten));
        text
    } else {
        assert(n / base < n) by (nonlinear_arith)
            requires
                n >= base,
                base >= 2,
        ;
        assert(n % base < base) by (nonlinear_arith)
            requires
                base >= 2,
        ;
        let mut text = numeral_text(n / base, base, ten);
        text.push(digit_char((n % base) as u8, ten));
        text
    }
}

/// Writes `n` in base ten.
pub fn decimal_text(n: u64) -> (text: String)
    ensures
        text@ == decimal(n as nat),
{
    numeral_text(n, 10, 0x41)
}

/// Puts zeros in front of an ASCII numeral, up to `width` characters.
fn zero_padded_text(s: &str, width: usize) -> (text: String)
    ensures
        text@ == zero_padded(s@, width as nat),
{
    let chars = chars_of(s);
    let mut text = String::new();
    let mut n: usize = chars.len();
    while n < width
        invariant
            chars@ == s@,
            chars@.len() <= n,
            n <= width || n == chars@.len(),
            text@ == Seq::new((n - chars@.len()) as nat, |i: int| '0'),
        decreases width - n,
    {
        text.push('0');
        n += 1;
        assert(text@ =~= Seq::new((n - chars@.len()) as nat, |i: int| '0'));
    }
    text.append(s);
    assert(text@ =~= zero_padded(s@, width as nat));
    text
}

/// Writes `n` in base ten, with a minus sign where it is negative.
pub fn signed_decimal_text(n: i32) -> (text: String)
    ensures
        text@ == signed_decimal(n as int),
{
    let magnitude = decimal_text(magnitude(n));
    if n < 0 {
        let text = joined("-", magnitude.as_str());
        proof {
            reveal_strlit("-");
            assert("-"@ =~= seq!['-']);
        }
        text
    } else {
        magnitude
    }
}

/// Writes `n` in base ten, always with a sign.
pub fn explicitly_signed_text(n: i32) -> (text: String)
    ensures
        text@ == explicitly_signed_decimal(n as int),
{
    let magnitude = decimal_text(magnitude(n));
    proof {
        reveal_strlit("-");
        reveal_strlit("+");
        assert("-"@ =~= seq!['-']);
        assert("+"@ =~= seq!['+']);
    }
    if n < 0 {
        joined("-", magnitude.as_str())
    } else {
        joined("+", magnitude.as_str())
    }
}

fn magnitude(n: i32) -> (m: u64)
    ensures
        m == if n < 0 {
            -n
        } else {
            n as int
        },
{
    if n < 0 {
        (-(n as i64)) as u64
    } else {
        n as u64
    }
}

/// Writes a code as `0x` and at least two hexadecimal digits in upper case.
pub fn hex_label_text(code: i32) -> (text: String)
    ensures
        text@ == hex_label(code),
{
    assert(code < 0 ==> code as u32 == code + 0x1_0000_0000) by (bit_vector);
    assert(code >= 0 ==> code as u32 == code) by (bit_vector);
    let bits: u32 = code as u32;
    let digits = numeral_text(bits as u64, 16, 0x41);
    let padded = zero_padded_text(digits.as_str(), 2);
    proof {
        reveal_strlit("0x");
        assert("0x"@ =~= seq!['0', 'x']);
    }
    joined("0x", padded.as_str())
}

/// Writes a status word as `0x` and eight hexadecimal digits in lower case.
pub fn status_text(code: u32) -> (text: String)
    ensures
        text@ == seq!['0', 'x'] + zero_padded(lower_hex(code as nat), 8),
{
    let digits = numeral_text(code as u64, 16, 0x61);
    let padded = zero_padded_text(digits.as_str(), 8);
    proof {
        reveal_strlit("0x");
        assert("0x"@ =~= seq!['0', 'x']);
    }
    joined("0x", padded.as_str())
}

// ---------------------------------------------------------------------------
// Text as numbers
// ---------------------------------------------------------------------------

/// Whether a character is one of the ten ASCII digits.
pub open spec fn is_digit(c: char) -> bool {
    '0' <= c <= '9'
}

/// Whether `s` is a row of one or more digits.
pub open spec fn is_digits(s: Seq<char>) -> bool {
    &&& s.len() > 0
    &&& forall|i: int| 0 <= i < s.len() ==> is_digit(#[trigger] s[i])
}

/// The number that a row of digits stands for.
pub open spec fn digits_value(s: Seq<char>) -> nat
    decreases s.len(),
{
    if s.len() == 0 {
        0
    } else {
        digits_value(s.drop_last()) * 10 + (s.last() as nat - '0' as nat) as nat
    }
}

/// The number that `s` stands for: digits behind an optional plus sign or, where `negatives`
/// are accepted, an optional minus sign. `None` where `s` is anything else.
pub open spec fn parsed(s: Seq<char>, negatives: bool) -> Option<int> {
    if is_digits(s) {
        Some(digits_value(s) as int)
    } else if s.len() > 0 && s[0] == '+' && is_digits(s.skip(1)) {
        Some(digits_value(s.skip(1)) as int)
    } else if negatives && s.len() > 0 && s[0] == '-' && is_digits(s.skip(1)) {
        Some(-(digits_value(s.skip(1)) as int))
    } else {
        None
    }
}

proof fn lemma_prefix_value(s: Seq<char>, n: int)
    requires
        is_digits(s),
        0 <= n <= s.len(),
    ensures
        digits_value(s.take(n)) <= digits_value(s),
    decreases s.len() - n,
{
    if n == s.len() {
        assert(s.take(n) =~= s);
    } else {
        lemma_prefix_value(s, n + 1);
        assert(s.take(n + 1).drop_last() =~= s.take(n));
    }
}

/// The value of the digits `chars[from..]` where it is at most `limit`.
fn digits_up_to(chars: &Vec<char>, from: usize, limit: u64) -> (value: Option<u64>)
    requires
        from <= chars@.len(),
    ensures
        value == if is_digits(chars@.skip(from as int)) && digits_value(chars@.skip(from as int))
            <= limit {
            Some(digits_value(chars@.skip(from as int)) as u64)
        } else {
            None
        },
{
    let ghost s = chars@.skip(from as int);
    if from == chars.len() {
        return None;
    }
    let mut value: u64 = 0;
    let mut i: usize = from;
    assert(s.take(0) =~= Seq::empty());
    while i < chars.len()
        invariant
            from <= i <= chars@.len(),
            from < chars@.len(),
            s == chars@.skip(from as int),
            forall|j: int| 0 <= j < i - from ==> is_digit(#[trigger] s[j]),
            value == digits_value(s.take(i - from)),
            value <= limit,
        decreases chars@.len() - i,
    {
        let c = chars[i];
        assert(c == s[i - from]);
        if !(c >= '0' && c <= '9') {
            assert(!is_digit(s[i - from]));
            return None;
        }
        let d: u64 = (c as u32 - '0' as u32) as u64;
        assert(s.take(i - from + 1).drop_last() =~= s.take(i - from));
        let wide: u128 = value as u128 * 10 + d as u128;
        assert(wide == digits_value(s.take(i - from + 1)));
        if wide > limit as u128 {
            proof {
                if is_digits(s) {
                    lemma_prefix_value(s, i - from + 1);
                }
            }
            return None;
        }
        value = wide as u64;
        i += 1;
    }
    assert(s.take(s.len() as int) =~= s);
    Some(value)
}

/// Reads an index: digits, behind an optional plus sign, up to `usize::MAX`.
pub fn parse_usize(s: &str) -> (value: Option<usize>)
    ensures
        value == match parsed(s@, false) {
            Some(n) if n <= usize::MAX => Some(n as usize),
            _ => None,
        },
{
    let chars = chars_of(s);
    assert(chars@.skip(0) =~= chars@);
    let from: usize = if chars.len() > 0 && chars[0] == '+' {
        1
    } else {
        0
    };
    proof {
        if from == 1 {
            assert(!is_digit(s@[0]));
        }
    }
    match digits_up_to(&chars, from, usize::MAX as u64) {
        Some(n) => Some(n as usize),
        None => None,
    }
}

/// Reads a signed number: digits, behind an optional sign, in the range of `i32`.
pub fn parse_i32(s: &str) -> (value: Option<i32>)
    ensures
        value == match parsed(s@, true) {
            Some(n) if i32::MIN <= n <= i32::MAX => Some(n as i32),
            _ => None,
        },
{
    let chars = chars_of(s);
    assert(chars@.skip(0) =~= chars@);
    let signed = chars.len() > 0 && (chars[0] == '+' || chars[0] == '-');
    proof {
        if signed {
            assert(!is_digit(s@[0]));
        }
    }
    if signed && chars[0] == '-' {
        match digits_up_to(&chars, 1, 0x8000_0000) {
            Some(n) => Some((-(n as i64)) as i32),
            None => None,
        }
    } else {
        let from: usize = if signed {
            1
        } else {
            0
        };
        match digits_up_to(&chars, from, 0x7FFF_FFFF) {
            Some(n) => Some(n as i32),
            None => None,
        }
    }
}

/// A number written in base ten is read back.
pub proof fn decimal_is_read_back(n: nat)
    ensures
        is_digits(decimal(n)),
        digits_value(decimal(n)) == n,
        forall|negatives: bool| #[trigger] parsed(decimal(n), negatives) == Some(n as int),
    decreases n,
{
    if n < 10 {
        assert(decimal(n) =~= seq![digit(n, 0x41)]);
        assert(decimal(n).drop_last() =~= Seq::empty());
        reveal_with_fuel(digits_value, 2);
    } else {
        decimal_is_read_back(n / 10);
        let front = decimal(n / 10);
        assert(decimal(n) == front.push(digit(n % 10, 0x41)));
        assert(decimal(n).drop_last() =~= front);
    }
}

/// A signed number written in base ten is read back.
pub proof fn signed_decimal_is_read_back(n: int)
    ensures
        parsed(signed_decimal(n), true) == Some(n),
{
    if n < 0 {
        decimal_is_read_back((-n) as nat);
        let s = signed_decimal(n);
        assert(s.skip(1) =~= decimal((-n) as nat));
        assert(!is_digit(s[0]));
    } else {
        decimal_is_read_back(n as nat);
    }
}

// ---------------------------------------------------------------------------
// C buffers
// ---------------------------------------------------------------------------

/// The bytes of a C buffer up to its first zero byte, or all of them where it has none.
pub open spec fn before_nul(buffer: Seq<u8>) -> Seq<u8> {
    match buffer.index_of_first(0u8) {
        Some(n) => buffer.take(n),
        None => buffer,
    }
}

/// The text in a C buffer.
pub open spec fn c_text(buffer: Seq<u8>) -> Seq<char> {
    utf8_lossy(before_nul(buffer))
}

/// Reads the text in a C buffer: what stands before its first zero byte.
pub fn c_buffer_text(buffer: &[u8]) -> (text: String)
    ensures
        text@ == c_text(buffer@),
        valid_utf8(before_nul(buffer@)) ==> text@ == decode_utf8(before_nul(buffer@)),
{
    let mut bytes: Vec<u8> = Vec::new();
    let mut i: usize = 0;
    proof {
        buffer@.index_of_first_ensures(0u8);
    }
    while i < buffer.len() && buffer[i] != 0
        invariant
            i <= buffer@.len(),
            bytes@ == buffer@.take(i as int),
            forall|j: int| 0 <= j < i ==> buffer@[j] != 0,
        decreases buffer@.len() - i,
    {
        bytes.push(buffer[i]);
        i += 1;
        assert(bytes@ =~= buffer@.take(i as int));
    }
    proof {
        if i < buffer@.len() {
            assert(buffer@.contains(0u8)) by {
                assert(buffer@[i as int] == 0);
            }
        } else {
            assert(buffer@.take(i as int) =~= buffer@);
        }
        assert(bytes@ =~= before_nul(buffer@));
    }
    lossy_text(bytes.as_slice())
}

// ---------------------------------------------------------------------------
// Laws
// ---------------------------------------------------------------------------

/// Numbers are written from their leading digit on: one digit is its own character, and a digit
/// that is put behind a number is put behind its text.
pub proof fn decimals_grow_digit_by_digit(n: nat, d: nat, c: char)
    requires
        d < 10,
        c as u32 == 0x30 + d,
    ensures
        decimal(d) == seq![c],
        n > 0 ==> decimal(10 * n + d) == decimal(n).push(c),
{
    assert(digit(d, 0x41) == c);
    assert(decimal(d) =~= seq![c]);
    if n > 0 {
        assert((10 * n + d) / 10 == n);
        assert((10 * n + d) % 10 == d);
    }
}

/// Hexadecimal numbers are written in the same way, with letters for the digits from ten on, in
/// upper or in lower case.
pub proof fn hexadecimals_grow_digit_by_digit(n: nat, d: nat, upper: char, lower: char)
    requires
        d < 16,
        upper as u32 == (if d < 10 {
            0x30 + d
        } else {
            0x37 + d
        }),
        lower as u32 == (if d < 10 {
            0x30 + d
        } else {
            0x57 + d
        }),
    ensures
        upper_hex(d) == seq![upper],
        lower_hex(d) == seq![lower],
        n > 0 ==> upper_hex(16 * n + d) == upper_hex(n).push(upper),
        n > 0 ==> lower_hex(16 * n + d) == lower_hex(n).push(lower),
{
    assert(digit(d, 0x41) == upper);
    assert(digit(d, 0x61) == lower);
    assert(upper_hex(d) =~= seq![upper]);
    assert(lower_hex(d) =~= seq![lower]);
    if n > 0 {
        assert((16 * n + d) / 16 == n);
        assert((16 * n + d) % 16 == d);
    }
}

/// A negative number has a minus sign in front of its opposite, and others have no sign or, where
/// one is asked for, a plus sign.
pub proof fn signs_stand_in_front(n: nat)
    ensures
        signed_decimal(n as int) == decimal(n),
        explicitly_signed_decimal(n as int) == seq!['+'] + decimal(n),
        n > 0 ==> signed_decimal(-n) == seq!['-'] + decimal(n),
        n > 0 ==> explicitly_signed_decimal(-n) == seq!['-'] + decimal(n),
{
}

/// Padding keeps the text at the end, puts nothing but zeros in front, and fills up to the width
/// without cutting.
pub proof fn padding_fills_up_with_zeros(s: Seq<char>, width: nat)
    ensures
        ({
            let padded = zero_padded(s, width);
            &&& padded.len() == (if s.len() < width {
                width
            } else {
                s.len()
            })
            &&& padded.skip(padded.len() - s.len()) == s
            &&& forall|i: int| 0 <= i < padded.len() - s.len() ==> #[trigger] padded[i] == '0'
        }),
{
    let padded = zero_padded(s, width);
    assert(padded.skip(padded.len() - s.len()) =~= s);
}

/// A code without a label is shown by its bits: `0x` and the digits of the code, at least two of
/// them. A negative code has the bits of the code that is `2^32` larger.
pub proof fn unknown_codes_are_shown_by_their_bits(code: i32, bits: nat)
    requires
        bits == (if code < 0 {
            code + 0x1_0000_0000
        } else {
            code as int
        }),
    ensures
        hex_label(code) == (if bits < 16 {
            seq!['0', 'x', '0'] + upper_hex(bits)
        } else {
            seq!['0', 'x'] + upper_hex(bits)
        }),
{
    if bits < 16 {
        assert(upper_hex(bits).len() == 1);
        assert(hex_label(code) =~= seq!['0', 'x', '0'] + upper_hex(bits));
    } else {
        assert(numeral(bits / 16, 16, 0x41).len() > 0);
        assert(upper_hex(bits).len() >= 2);
    }
}

/// Text is read from its leading digit on: a single digit stands for itself, and a digit behind a
/// number that was read multiplies it by ten and adds to it. Whatever does not end with a digit is
/// no number.
#[verifier::spinoff_prover]
#[verifier::rlimit(40)]
pub proof fn numbers_are_read_digit_by_digit(s: Seq<char>, c: char, negatives: bool)
    ensures
        !(0x30 <= c as u32 <= 0x39) ==> parsed(s.push(c), negatives) is None,
        0x30 <= c as u32 <= 0x39 && s.len() == 0 ==> parsed(s.push(c), negatives) == Some(
            c as u32 - 0x30,
        ),
        0x30 <= c as u32 <= 0x39 && s.len() > 0 && s[0] != '-' ==> parsed(s.push(c), negatives)
            == (if s == seq!['+'] {
            Some(c as u32 - 0x30)
        } else {
            match parsed(s, negatives) {
                Some(n) => Some(10 * n + (c as u32 - 0x30)),
                None => None,
            }
        }),
{
    let t = s.push(c);
    let is_c_digit = 0x30 <= c as u32 <= 0x39;
    assert(t.drop_last() =~= s);
    assert(t[t.len() - 1] == c);
    assert(is_digit(c) == is_c_digit);
    if s.len() > 0 {
        assert(t.skip(1) =~= s.skip(1).push(c));
        assert(t.skip(1).drop_last() =~= s.skip(1));
        assert(t.skip(1)[t.len() - 2] == c);
    }
    if is_c_digit {
        lemma_digits_push(s, c);
        if s.len() == 0 {
            reveal_with_fuel(digits_value, 2);
        } else {
            lemma_digits_push(s.skip(1), c);
            assert(t[0] == s[0]);
            if s[0] == '+' {
                assert(!is_digit(t[0]) && !is_digit(s[0]));
                if s.len() == 1 {
                    assert(s =~= seq!['+']);
                    reveal_with_fuel(digits_value, 2);
                } else {
                    assert(s.len() != seq!['+'].len());
                }
            } else {
                assert(s != seq!['+']) by {
                    assert(seq!['+'][0] == '+');
                }
            }
        }
    } else {
        assert(!is_digits(t));
        if s.len() > 0 {
            assert(!is_digits(t.skip(1)));
        } else {
            assert(t.skip(1).len() == 0);
        }
    }
}

proof fn lemma_digits_push(s: Seq<char>, c: char)
    requires
        is_digit(c),
    ensures
        is_digits(s.push(c)) == (s.len() == 0 || is_digits(s)),
        digits_value(s.push(c)) == digits_value(s) * 10 + (c as u32 - 0x30),
{
    let t = s.push(c);
    assert(t.drop_last() =~= s);
    if is_digits(t) {
        assert forall|i: int| 0 <= i < s.len() implies is_digit(#[trigger] s[i]) by {
            assert(t[i] == s[i]);
        }
    }
}

/// A minus sign in front of an unsigned number gives its opposite where negative numbers are
/// accepted, and no number otherwise; two signs and no text at all are no number.
pub proof fn a_minus_sign_gives_the_opposite(s: Seq<char>, negatives: bool)
    ensures
        parsed(Seq::empty(), negatives) is None,
        parsed(seq!['-'] + s, false) is None,
        s.len() > 0 && s[0] != '+' && s[0] != '-' ==> parsed(seq!['-'] + s, true) == (match parsed(
            s,
            negatives,
        ) {
            Some(n) => Some(-n),
            None => None,
        }),
        s.len() > 0 && (s[0] == '+' || s[0] == '-') ==> parsed(seq!['-'] + s, true) is None,
        s.len() == 0 ==> parsed(seq!['-'] + s, true) is None,
{
    let t = seq!['-'] + s;
    assert(t[0] == '-');
    assert(!is_digit(t[0]));
    assert(t.skip(1) =~= s);
    if s.len() > 0 && (s[0] == '+' || s[0] == '-') {
        assert(!is_digit(s[0]));
    }
}

/// The text in a C buffer is what stands before its first zero byte; whatever stands behind it
/// does not matter.
pub proof fn a_c_text_ends_at_its_first_zero(text: Seq<u8>, rest: Seq<u8>)
    requires
        !text.contains(0u8),
    ensures
        c_text(text) == utf8_lossy(text),
        c_text(text.push(0u8) + rest) == utf8_lossy(text),
{
    text.index_of_first_ensures(0u8);
    let buffer = text.push(0u8) + rest;
    let n = text.len() as int;
    assert(buffer[n] == 0);
    buffer.index_of_first_ensures(0u8);
    assert forall|j: int| 0 <= j < n implies buffer[j] != 0 by {
        assert(text[j] == buffer[j]);
        assert(text.contains(text[j]));
    }
    let k = buffer.index_of_first(0u8)->Some_0;
    assert(k == n) by {
        if k < n {
            assert(buffer[k] != 0);
        }
    }
    assert(buffer.take(n) =~= text);
}

/// A number below `16^digits` has at most that many hexadecimal digits.
pub proof fn lower_hex_length(n: nat, digits: nat)
    requires
        0 < digits,
        n < vstd::arithmetic::power::pow(16, digits),
    ensures
        lower_hex(n).len() <= digits,
    decreases digits,
{
    if n >= 16 {
        vstd::arithmetic::power::lemma_pow1(16);
        if digits == 1 {
            assert(false);
        }
        reveal(vstd::arithmetic::power::pow);
        assert(vstd::arithmetic::power::pow(16, digits) == 16 * vstd::arithmetic::power::pow(
            16,
            (digits - 1) as nat,
        ));
        assert(n / 16 < vstd::arithmetic::power::pow(16, (digits - 1) as nat));
        lower_hex_length(n / 16, (digits - 1) as nat);
    }
}

/// In any base a number is written digit by digit, from its leading digit on.
pub proof fn numerals_grow_digit_by_digit(n: nat, d: nat, base: nat, ten: u8, c: char)
    requires
        2 <= base <= 16,
        d < base,
        ten < 0x70,
        c as u32 == (if d < 10 {
            (0x30 + d) as int
        } else {
            ten + d - 10
        }),
    ensures
        numeral(d, base, ten) == seq![c],
        n > 0 ==> numeral(base * n + d, base, ten) == numeral(n, base, ten).push(c),
{
    assert(digit(d, ten) == c);
    assert(numeral(d, base, ten) =~= seq![c]);
    if n > 0 {
        let whole = base * n + d;
        assert(base * n == n * base) by (nonlinear_arith);
        vstd::arithmetic::div_mod::lemma_fundamental_div_mod_converse(
            whole as int,
            base as int,
            n as int,
            d as int,
        );
        assert(whole >= base) by (nonlinear_arith)
            requires
                n >= 1,
                whole == base * n + d,
                d >= 0,
        ;
    }
}

}
