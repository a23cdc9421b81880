//! Character-level facts and string building blocks shared by every module.
use vstd::prelude::*;
use vstd::std_specs::iter::IteratorSpec;

verus! {

/// Whether a character is in Unicode general category Cc (control codes),
/// which is what `char::is_control` answers.
pub open spec fn char_is_control(c: char) -> bool {
    (c as u32) <= 0x1f || (0x7f <= (c as u32) && (c as u32) <= 0x9f)
}

/// Whether a character has the Unicode White_Space property, which is what
/// `char::is_whitespace` (and so `str::trim`) goes by.
pub open spec fn char_is_whitespace(c: char) -> bool {
    let u = c as u32;
    (0x09 <= u && u <= 0x0d) || u == 0x20 || u == 0x85 || u == 0xa0 || u == 0x1680 || (0x2000
        <= u && u <= 0x200a) || u == 0x2028 || u == 0x2029 || u == 0x202f || u == 0x205f || u
        == 0x3000
}

/// Whether a character is a control character.
pub fn is_control_char(c: char) -> (r: bool)
    ensures
        r == char_is_control(c),
{
    let u = c as u32;
    u <= 0x1f || (0x7f <= u && u <= 0x9f)
}

/// Whether a character is whitespace.
pub fn is_whitespace_char(c: char) -> (r: bool)
    ensures
        r == char_is_whitespace(c),
{
    let u = c as u32;
    (0x09 <= u && u <= 0x0d) || u == 0x20 || u == 0x85 || u == 0xa0 || u == 0x1680 || (0x2000
        <= u && u <= 0x200a) || u == 0x2028 || u == 0x2029 || u == 0x202f || u == 0x205f || u
        == 0x3000
}

/// Whether every character is printable ASCII.
pub open spec fn printable_ascii(s: Seq<char>) -> bool {
    forall|i: int| 0 <= i < s.len() ==> 0x20 <= (#[trigger] s[i] as u32) && (s[i] as u32) <= 0x7e
}

/// Fixed-width hexadecimal spelling has its width and is printable ASCII.
pub proof fn lemma_hex_fixed_printable(n: nat, width: nat)
    ensures
        hex_fixed(n, width).len() == width,
        printable_ascii(hex_fixed(n, width)),
    decreases width,
{
    if width > 0 {
        lemma_hex_fixed_printable(n / 16, (width - 1) as nat);
        let d = n % 16;
        let c = hex_char(d);
        assert(0x20 <= (c as u32) && (c as u32) <= 0x7e) by {
            if d < 10 {
                assert(d == 0 || d == 1 || d == 2 || d == 3 || d == 4 || d == 5 || d == 6 || d == 7
                    || d == 8 || d == 9);
            }
        }
        let s = hex_fixed(n, width);
        assert(s == hex_fixed(n / 16, (width - 1) as nat).push(c));
        assert forall|i: int| 0 <= i < s.len() implies 0x20 <= (#[trigger] s[i] as u32) && (
        s[i] as u32) <= 0x7e by {
            if i < s.len() - 1 {
                assert(s[i] == hex_fixed(n / 16, (width - 1) as nat)[i]);
            }
        }
    }
}

/// Joining printable ASCII texts gives printable ASCII.
pub proof fn lemma_printable_concat(a: Seq<char>, b: Seq<char>)
    requires
        printable_ascii(a),
        printable_ascii(b),
    ensures
        printable_ascii(a + b),
{
    assert forall|i: int| 0 <= i < (a + b).len() implies 0x20 <= (#[trigger] (a + b)[i] as u32)
        && ((a + b)[i] as u32) <= 0x7e by {
        if i < a.len() {
            assert((a + b)[i] == a[i]);
        } else {
            assert((a + b)[i] == b[i - a.len()]);
        }
    }
}

/// A character takes at most four bytes in UTF-8.
pub proof fn lemma_utf8_len_bound(s: Seq<char>)
    ensures
        utf8_len(s) <= 4 * s.len(),
    decreases s.len(),
{
    if s.len() > 0 {
        lemma_utf8_len_bound(s.drop_first());
        let c = s[0] as u32;
        assert(vstd::utf8::encode_scalar(c).len() <= 4);
    }
}

/// ASCII text has one UTF-8 byte per character.
pub proof fn lemma_ascii_utf8_len(s: Seq<char>)
    requires
        forall|i: int| 0 <= i < s.len() ==> (#[trigger] s[i] as u32) <= 0x7f,
    ensures
        utf8_len(s) == s.len(),
    decreases s.len(),
{
    if s.len() > 0 {
        assert forall|i: int| 0 <= i < s.drop_first().len() implies (#[trigger] s.drop_first()[i] as u32)
            <= 0x7f by {
            assert(s.drop_first()[i] == s[i + 1]);
        }
        lemma_ascii_utf8_len(s.drop_first());
        assert((s[0] as u32) <= 0x7f);
    }
}

/// Calls `String::push`, which appends one character.
#[verifier::external_body]
pub(crate) fn push_char(s: &mut String, c: char)
    ensures
        final(s)@ == old(s)@.push(c),
{
    s.push(c);
}

/// True when some character of the sequence is a control character.
pub open spec fn has_control(s: Seq<char>) -> bool {
    exists|i: int| 0 <= i < s.len() && char_is_control(#[trigger] s[i])
}

/// True when every character is whitespace (so trimming leaves nothing).
pub open spec fn is_blank_seq(s: Seq<char>) -> bool {
    forall|i: int| 0 <= i < s.len() ==> char_is_whitespace(#[trigger] s[i])
}

/// Length of the UTF-8 encoding of a character sequence.
pub open spec fn utf8_len(s: Seq<char>) -> nat {
    vstd::utf8::encode_utf8(s).len()
}

/// The characters of a string, in order.
pub fn chars_of(s: &str) -> (r: Vec<char>)
    ensures
        r@ == s@,
{
    let mut chars = s.chars();
    let mut out: Vec<char> = Vec::new();
    proof {
        broadcast use vstd::string::group_string_axioms;
    }
    loop
        invariant
            chars.remaining() == s@.skip(out@.len() as int),
            out@ == s@.take(out@.len() as int),
            out@.len() <= s@.len(),
        decreases s@.len() - out@.len(),
    {
        proof {
            broadcast use vstd::string::group_string_axioms;
        }
        match chars.next() {
            Some(c) => {
                out.push(c);
                assert(out@ == s@.take(out@.len() as int));
            },
            None => {
                assert(s@.take(out@.len() as int) == s@);
                return out;
            },
        }
    }
}

/// A string holding exactly the given characters.
pub fn string_of(chars: &[char]) -> (r: String)
    ensures
        r@ == chars@,
{
    let mut out = String::new();
    let mut i: usize = 0;
    while i < chars.len()
        invariant
            i <= chars@.len(),
            out@ == chars@.take(i as int),
        decreases chars@.len() - i,
    {
        push_char(&mut out, chars[i]);
        assert(chars@.take(i + 1) == chars@.take(i as int).push(chars@[i as int]));
        i = i + 1;
    }
    assert(chars@.take(i as int) == chars@);
    out
}

/// An owned copy of a string slice.
pub fn owned(s: &str) -> (r: String)
    ensures
        r@ == s@,
{
    let chars = chars_of(s);
    string_of(chars.as_slice())
}

/// Appends a string slice.
pub fn append_str(out: &mut String, s: &str)
    ensures
        final(out)@ == old(out)@ + s@,
{
    let chars = chars_of(s);
    let mut i: usize = 0;
    let ghost start = out@;
    while i < chars.len()
        invariant
            i <= chars@.len(),
            chars@ == s@,
            out@ == start + chars@.take(i as int),
        decreases chars@.len() - i,
    {
        push_char(out, chars[i]);
        assert(chars@.take(i + 1) == chars@.take(i as int).push(chars@[i as int]));
        i = i + 1;
    }
    assert(chars@.take(i as int) == chars@);
}

/// Whether some character is a control character.
pub fn contains_control(s: &str) -> (r: bool)
    ensures
        r == has_control(s@),
{
    let chars = chars_of(s);
    let mut i: usize = 0;
    while i < chars.len()
        invariant
            i <= chars@.len(),
            chars@ == s@,
            forall|j: int| 0 <= j < i ==> !char_is_control(#[trigger] chars@[j]),
        decreases chars@.len() - i,
    {
        if is_control_char(chars[i]) {
            return true;
        }
        i = i + 1;
    }
    false
}

/// Whether the string is empty once surrounding whitespace is trimmed.
pub fn is_blank(s: &str) -> (r: bool)
    ensures
        r == is_blank_seq(s@),
{
    let chars = chars_of(s);
    let mut i: usize = 0;
    while i < chars.len()
        invariant
            i <= chars@.len(),
            chars@ == s@,
            forall|j: int| 0 <= j < i ==> char_is_whitespace(#[trigger] chars@[j]),
        decreases chars@.len() - i,
    {
        if !is_whitespace_char(chars[i]) {
            return false;
        }
        i = i + 1;
    }
    true
}

/// Number of bytes of the UTF-8 encoding.
pub fn byte_len(s: &str) -> (r: usize)
    ensures
        r as nat == utf8_len(s@),
{
    s.as_bytes().len()
}

/// Character-sequence equality of two string slices.
pub fn str_eq(a: &str, b: &str) -> (r: bool)
    ensures
        r == (a@ == b@),
{
    let x = chars_of(a);
    let y = chars_of(b);
    if x.len() != y.len() {
        return false;
    }
    let mut i: usize = 0;
    while i < x.len()
        invariant
            i <= x@.len(),
            x@.len() == y@.len(),
            x@ == a@,
            y@ == b@,
            forall|j: int| 0 <= j < i ==> x@[j] == y@[j],
        decreases x@.len() - i,
    {
        if x[i] != y[i] {
            return false;
        }
        i = i + 1;
    }
    assert(x@ =~= y@);
    true
}

/// Whether `prefix` is a prefix of `s`.
pub open spec fn is_prefix(prefix: Seq<char>, s: Seq<char>) -> bool {
    prefix.len() <= s.len() && s.take(prefix.len() as int) == prefix
}

/// Whether `suffix` ends `s`.
pub open spec fn is_suffix(suffix: Seq<char>, s: Seq<char>) -> bool {
    suffix.len() <= s.len() && s.skip(s.len() - suffix.len()) == suffix
}

/// Whether the character sequence `prefix` starts `s`.
pub fn seq_starts_with(s: &[char], prefix: &[char]) -> (r: bool)
    ensures
        r == is_prefix(prefix@, s@),
{
    if prefix.len() > s.len() {
        return false;
    }
    let mut i: usize = 0;
    while i < prefix.len()
        invariant
            i <= prefix@.len(),
            prefix@.len() <= s@.len(),
            forall|j: int| 0 <= j < i ==> s@[j] == prefix@[j],
        decreases prefix@.len() - i,
    {
        if s[i] != prefix[i] {
            assert(s@.take(prefix@.len() as int)[i as int] == s@[i as int]);
            return false;
        }
        i = i + 1;
    }
    assert(s@.take(prefix@.len() as int) =~= prefix@);
    true
}

/// Whether the character sequence `suffix` ends `s`.
pub fn seq_ends_with(s: &[char], suffix: &[char]) -> (r: bool)
    ensures
        r == is_suffix(suffix@, s@),
{
    if suffix.len() > s.len() {
        return false;
    }
    let off = s.len() - suffix.len();
    let mut i: usize = 0;
    while i < suffix.len()
        invariant
            i <= suffix@.len(),
            s@.len() <= usize::MAX,
            off + suffix@.len() == s@.len(),
            forall|j: int| 0 <= j < i ==> s@[off + j] == suffix@[j],
        decreases suffix@.len() - i,
    {
        if s[off + i] != suffix[i] {
            assert(s@.skip(off as int)[i as int] == s@[off + i]);
            return false;
        }
        i = i + 1;
    }
    assert(s@.skip(off as int) =~= suffix@);
    true
}

/// The characters `s[from..to]`.
pub fn slice_chars(s: &[char], from: usize, to: usize) -> (r: Vec<char>)
    requires
        from <= to <= s@.len(),
    ensures
        r@ == s@.subrange(from as int, to as int),
{
    let mut out: Vec<char> = Vec::new();
    let mut i = from;
    while i < to
        invariant
            from <= i <= to,
            to <= s@.len(),
            out@ == s@.subrange(from as int, i as int),
        decreases to - i,
    {
        out.push(s[i]);
        assert(s@.subrange(from as int, i + 1) == s@.subrange(from as int, i as int).push(
            s@[i as int],
        ));
        i = i + 1;
    }
    out
}

/// The decimal digit character for `d < 10`.

/// Whether every character is a decimal digit.
pub open spec fn all_digits(s: Seq<char>) -> bool {
    forall|i: int| 0 <= i < s.len() ==> '0' <= #[trigger] s[i] && s[i] <= '9'
}

/// The number a string of decimal digits spells.
pub open spec fn digits_value(s: Seq<char>) -> int
    decreases s.len(),
{
    if s.len() == 0 {
        0
    } else {
        digits_value(s.drop_last()) * 10 + ((s.last() as int) - ('0' as int))
    }
}

/// What parsing an unsigned 64-bit decimal gives: an optional `+`, then
/// at least one digit, and a value that fits.
pub open spec fn parse_u64_spec(s: Seq<char>) -> Option<u64> {
    let d = if s.len() > 0 && s[0] == '+' {
        s.drop_first()
    } else {
        s
    };
    if d.len() > 0 && all_digits(d) && digits_value(d) <= u64::MAX {
        Some(digits_value(d) as u64)
    } else {
        None
    }
}

proof fn lemma_digits_prefix_monotone(s: Seq<char>, i: int)
    requires
        all_digits(s),
        0 <= i <= s.len(),
    ensures
        digits_value(s.take(i)) <= digits_value(s),
        digits_value(s.take(i)) >= 0,
    decreases s.len(),
{
    if s.len() > 0 {
        let p = s.drop_last();
        assert(all_digits(p)) by {
            assert forall|j: int| 0 <= j < p.len() implies '0' <= #[trigger] p[j] && p[j] <= '9' by {
                assert(p[j] == s[j]);
            }
        }
        if i == s.len() {
            assert(s.take(i) =~= s);
            lemma_digits_prefix_monotone(p, 0);
            assert(p.take(0) =~= Seq::<char>::empty());
        } else {
            assert(p.take(i) =~= s.take(i));
            lemma_digits_prefix_monotone(p, i);
            lemma_digits_prefix_monotone(p, p.len() as int);
            assert(p.take(p.len() as int) =~= p);
        }
    } else {
        assert(s.take(i) =~= s);
    }
}

/// Parses an unsigned 64-bit decimal, as `str::parse::<u64>` does.
pub fn parse_u64(s: &str) -> (r: Option<u64>)
    ensures
        r == parse_u64_spec(s@),
{
    let chars = chars_of(s);
    let mut start: usize = 0;
    if chars.len() > 0 && chars[0] == '+' {
        start = 1;
    }
    let ghost d = if s@.len() > 0 && s@[0] == '+' {
        s@.drop_first()
    } else {
        s@
    };
    assert(d =~= s@.skip(start as int));
    if start >= chars.len() {
        return None;
    }
    let mut acc: u64 = 0;
    let mut i: usize = start;
    while i < chars.len()
        invariant
            start <= i <= chars@.len(),
            chars@ == s@,
            d == s@.skip(start as int),
            d == (if s@.len() > 0 && s@[0] == '+' {
                s@.drop_first()
            } else {
                s@
            }),
            acc as int == digits_value(d.take(i - start)),
            all_digits(d.take(i - start)),
        decreases chars@.len() - i,
    {
        let c = chars[i];
        let ghost pre = d.take(i - start);
        let ghost next = d.take(i - start + 1);
        assert(next.drop_last() =~= pre);
        assert(next.last() == c);
        if !('0' <= c && c <= '9') {
            assert(!all_digits(d)) by {
                assert(d[i - start] == c);
            }
            return None;
        }
        let digit = (c as u32 - '0' as u32) as u64;
        if acc > 1_844_674_407_370_955_161 || (acc == 1_844_674_407_370_955_161 && digit > 5) {
            proof {
                assert(all_digits(next)) by {
                    assert forall|j: int| 0 <= j < next.len() implies '0' <= #[trigger] next[j] && next[j] <= '9' by {
                        if j < pre.len() {
                            assert(next[j] == pre[j]);
                        }
                    }
                }
                assert(digits_value(next) == acc * 10 + digit);
                if all_digits(d) {
                    lemma_digits_prefix_monotone(d, i - start + 1);
                }
            }
            return None;
        }
        acc = acc * 10 + digit;
        assert(all_digits(next)) by {
            assert forall|j: int| 0 <= j < next.len() implies '0' <= #[trigger] next[j] && next[j] <= '9' by {
                if j < pre.len() {
                    assert(next[j] == pre[j]);
                }
            }
        }
        i = i + 1;
    }
    assert(d.take(i - start) =~= d);
    Some(acc)
}

pub open spec fn digit_char(d: nat) -> char {
    if d == 0 {
        '0'
    } else if d == 1 {
        '1'
    } else if d == 2 {
        '2'
    } else if d == 3 {
        '3'
    } else if d == 4 {
        '4'
    } else if d == 5 {
        '5'
    } else if d == 6 {
        '6'
    } else if d == 7 {
        '7'
    } else if d == 8 {
        '8'
    } else {
        '9'
    }
}

/// The decimal spelling of a natural number, without leading zeros.
pub open spec fn decimal(n: nat) -> Seq<char>
    decreases n,
{
    if n < 10 {
        seq![digit_char(n)]
    } else {
        decimal(n / 10).push(digit_char(n % 10))
    }
}

/// Decimal text is digits that spell the number.
pub proof fn lemma_decimal_digits(n: nat)
    ensures
        decimal(n).len() > 0,
        all_digits(decimal(n)),
        digits_value(decimal(n)) == n,
    decreases n,
{
    if n < 10 {
        assert(digits_value(decimal(n)) == digits_value(decimal(n).drop_last()) * 10 + ((decimal(n).last() as int) - ('0' as int)));
        assert(decimal(n).drop_last() =~= Seq::<char>::empty());
    } else {
        lemma_decimal_digits(n / 10);
        let d = decimal(n);
        assert(d.drop_last() =~= decimal(n / 10));
        assert(d.last() == digit_char(n % 10));
        assert forall|i: int| 0 <= i < d.len() implies '0' <= #[trigger] d[i] && d[i] <= '9' by {
            if i < d.len() - 1 {
                assert(d[i] == decimal(n / 10)[i]);
            }
        }
        assert(n == (n / 10) * 10 + n % 10);
    }
}

/// Parsing the decimal text of a 64-bit number gives the number.
pub proof fn lemma_parse_decimal(n: u64)
    ensures
        parse_u64_spec(decimal(n as nat)) == Some(n),
{
    lemma_decimal_digits(n as nat);
    assert(decimal(n as nat)[0] != '+');
}

fn digit(d: u64) -> (c: char)
    requires
        d < 10,
    ensures
        c == digit_char(d as nat),
{
    if d == 0 {
        '0'
    } else if d == 1 {
        '1'
    } else if d == 2 {
        '2'
    } else if d == 3 {
        '3'
    } else if d == 4 {
        '4'
    } else if d == 5 {
        '5'
    } else if d == 6 {
        '6'
    } else if d == 7 {
        '7'
    } else if d == 8 {
        '8'
    } else {
        '9'
    }
}

fn decimal_chars(n: u64) -> (r: Vec<char>)
    ensures
        r@ == decimal(n as nat),
    decreases n,
{
    if n < 10 {
        let mut v: Vec<char> = Vec::new();
        v.push(digit(n));
        assert(v@ =~= seq![digit_char(n as nat)]);
        v
    } else {
        let mut v = decimal_chars(n / 10);
        v.push(digit(n % 10));
        v
    }
}

/// Appends the decimal spelling of `n`.
pub fn append_decimal(out: &mut String, n: u64)
    ensures
        final(out)@ == old(out)@ + decimal(n as nat),
{
    let d = decimal_chars(n);
    let ghost start = out@;
    let mut i: usize = 0;
    while i < d.len()
        invariant
            i <= d@.len(),
            out@ == start + d@.take(i as int),
        decreases d@.len() - i,
    {
        push_char(out, d[i]);
        assert(d@.take(i + 1) == d@.take(i as int).push(d@[i as int]));
        i = i + 1;
    }
    assert(d@.take(i as int) == d@);
}

/// The decimal spelling of `n` as a string.
pub fn decimal_string(n: u64) -> (r: String)
    ensures
        r@ == decimal(n as nat),
{
    let mut s = String::new();
    append_decimal(&mut s, n);
    assert(s@ =~= decimal(n as nat));
    s
}

/// The lowercase hexadecimal digit for `d < 16`.
pub open spec fn hex_char(d: nat) -> char {
    if d < 10 {
        digit_char(d)
    } else if d == 10 {
        'a'
    } else if d == 11 {
        'b'
    } else if d == 12 {
        'c'
    } else if d == 13 {
        'd'
    } else if d == 14 {
        'e'
    } else {
        'f'
    }
}

fn hex_digit(d: u8) -> (c: char)
    requires
        d < 16,
    ensures
        c == hex_char(d as nat),
{
    if d < 10 {
        digit(d as u64)
    } else if d == 10 {
        'a'
    } else if d == 11 {
        'b'
    } else if d == 12 {
        'c'
    } else if d == 13 {
        'd'
    } else if d == 14 {
        'e'
    } else {
        'f'
    }
}

/// Lowercase hexadecimal spelling of a byte string, two digits per byte.
pub open spec fn hex_lower(bytes: Seq<u8>) -> Seq<char>
    decreases bytes.len(),
{
    if bytes.len() == 0 {
        Seq::empty()
    } else {
        hex_lower(bytes.drop_last()).push(hex_char((bytes.last() / 16) as nat)).push(
            hex_char((bytes.last() % 16) as nat),
        )
    }
}

/// Lowercase hexadecimal spelling of a byte string.
pub fn hex_string(bytes: &[u8]) -> (r: String)
    ensures
        r@ == hex_lower(bytes@),
{
    let mut out = String::new();
    let mut i: usize = 0;
    while i < bytes.len()
        invariant
            i <= bytes@.len(),
            out@ == hex_lower(bytes@.take(i as int)),
        decreases bytes@.len() - i,
    {
        let b = bytes[i];
        push_char(&mut out, hex_digit(b / 16));
        push_char(&mut out, hex_digit(b % 16));
        assert(bytes@.take(i + 1).drop_last() == bytes@.take(i as int));
        i = i + 1;
    }
    assert(bytes@.take(i as int) == bytes@);
    out
}

/// The `width` lowest hexadecimal digits of `n`, most significant first.
pub open spec fn hex_fixed(n: nat, width: nat) -> Seq<char>
    decreases width,
{
    if width == 0 {
        Seq::empty()
    } else {
        hex_fixed(n / 16, (width - 1) as nat).push(hex_char(n % 16))
    }
}

/// Sixteen to the power `w`.
pub open spec fn pow16(w: nat) -> nat
    decreases w,
{
    if w == 0 {
        1
    } else {
        16 * pow16((w - 1) as nat)
    }
}

proof fn lemma_hex_char_injective(a: nat, b: nat)
    requires
        a < 16,
        b < 16,
        hex_char(a) == hex_char(b),
    ensures
        a == b,
{
}

/// Fixed-width hexadecimal is injective on the numbers the width holds.
pub proof fn lemma_hex_fixed_injective(a: nat, b: nat, width: nat)
    requires
        a < pow16(width),
        b < pow16(width),
        hex_fixed(a, width) == hex_fixed(b, width),
    ensures
        a == b,
    decreases width,
{
    if width > 0 {
        let w1 = (width - 1) as nat;
        let ha = hex_fixed(a / 16, w1);
        let hb = hex_fixed(b / 16, w1);
        lemma_hex_fixed_printable(a / 16, w1);
        lemma_hex_fixed_printable(b / 16, w1);
        assert(hex_fixed(a, width) == ha.push(hex_char(a % 16)));
        assert(hex_fixed(b, width) == hb.push(hex_char(b % 16)));
        assert(hex_fixed(a, width)[w1 as int] == hex_char(a % 16));
        assert(hex_fixed(b, width)[w1 as int] == hex_char(b % 16));
        lemma_hex_char_injective(a % 16, b % 16);
        assert(ha =~= hex_fixed(a, width).drop_last());
        assert(hb =~= hex_fixed(b, width).drop_last());
        assert(a / 16 < pow16(w1)) by (nonlinear_arith)
            requires
                a < 16 * pow16(w1),
        ;
        assert(b / 16 < pow16(w1)) by (nonlinear_arith)
            requires
                b < 16 * pow16(w1),
        ;
        lemma_hex_fixed_injective(a / 16, b / 16, w1);
        assert(a == 16 * (a / 16) + a % 16) by (nonlinear_arith);
        assert(b == 16 * (b / 16) + b % 16) by (nonlinear_arith);
    } else {
    }
}

/// Every 64-bit number fits in sixteen hexadecimal digits.
pub proof fn lemma_u64_fits_hex16(n: u64)
    ensures
        (n as nat) < pow16(16),
{
    reveal_with_fuel(pow16, 17);
    assert(pow16(16) == 0x1_0000_0000_0000_0000nat);
}

fn hex_fixed_chars(n: u64, width: u64) -> (r: Vec<char>)
    ensures
        r@ == hex_fixed(n as nat, width as nat),
    decreases width,
{
    if width == 0 {
        Vec::new()
    } else {
        let mut v = hex_fixed_chars(n / 16, width - 1);
        v.push(hex_digit((n % 16) as u8));
        v
    }
}

/// Appends the `width` lowest lowercase hexadecimal digits of `n`, zero-padded.
pub fn append_hex_width(out: &mut String, n: u64, width: u64)
    ensures
        final(out)@ == old(out)@ + hex_fixed(n as nat, width as nat),
{
    let d = hex_fixed_chars(n, width);
    let ghost start = out@;
    let mut i: usize = 0;
    while i < d.len()
        invariant
            i <= d@.len(),
            out@ == start + d@.take(i as int),
        decreases d@.len() - i,
    {
        push_char(out, d[i]);
        assert(d@.take(i + 1) == d@.take(i as int).push(d@[i as int]));
        i = i + 1;
    }
    assert(d@.take(i as int) == d@);
}

/// Appends `n` as exactly sixteen zero-padded lowercase hexadecimal digits.
pub fn append_hex16(out: &mut String, n: u64)
    ensures
        final(out)@ == old(out)@ + hex_fixed(n as nat, 16),
{
    append_hex_width(out, n, 16);
}

/// The minimal lowercase hexadecimal spelling of a natural number.
pub open spec fn hex_min(n: nat) -> Seq<char>
    decreases n,
{
    if n < 16 {
        seq![hex_char(n)]
    } else {
        hex_min(n / 16).push(hex_char(n % 16))
    }
}

fn hex_min_chars(n: u32) -> (r: Vec<char>)
    ensures
        r@ == hex_min(n as nat),
    decreases n,
{
    if n < 16 {
        let mut v: Vec<char> = Vec::new();
        v.push(hex_digit(n as u8));
        assert(v@ =~= seq![hex_char(n as nat)]);
        v
    } else {
        let mut v = hex_min_chars(n / 16);
        v.push(hex_digit((n % 16) as u8));
        v
    }
}

/// How one character is spelled inside a quoted debug rendering.
pub open spec fn debug_escape(c: char) -> Seq<char> {
    if c == '"' {
        seq!['\\', '"']
    } else if c == '\\' {
        seq!['\\', '\\']
    } else if c == '\n' {
        seq!['\\', 'n']
    } else if c == '\r' {
        seq!['\\', 'r']
    } else if c == '\t' {
        seq!['\\', 't']
    } else if c == '\0' {
        seq!['\\', '0']
    } else if char_is_control(c) {
        seq!['\\', 'u', '{'] + hex_min(c as nat) + seq!['}']
    } else {
        seq![c]
    }
}

/// The escaped characters of a sequence, in order.
pub open spec fn debug_body(s: Seq<char>) -> Seq<char>
    decreases s.len(),
{
    if s.len() == 0 {
        Seq::empty()
    } else {
        debug_body(s.drop_last()) + debug_escape(s.last())
    }
}

/// A string rendered in double quotes with its special characters escaped.
pub open spec fn debug_quoted(s: Seq<char>) -> Seq<char> {
    seq!['"'] + debug_body(s) + seq!['"']
}

fn push_chars(out: &mut String, cs: &Vec<char>)
    ensures
        final(out)@ == old(out)@ + cs@,
{
    let ghost start = out@;
    let mut i: usize = 0;
    while i < cs.len()
        invariant
            i <= cs@.len(),
            out@ == start + cs@.take(i as int),
        decreases cs@.len() - i,
    {
        push_char(out, cs[i]);
        assert(cs@.take(i + 1) == cs@.take(i as int).push(cs@[i as int]));
        i = i + 1;
    }
    assert(cs@.take(i as int) == cs@);
}

fn push_debug_escape(out: &mut String, c: char)
    ensures
        final(out)@ == old(out)@ + debug_escape(c),
{
    let mut v: Vec<char> = Vec::new();
    if c == '"' {
        v.push('\\');
        v.push('"');
    } else if c == '\\' {
        v.push('\\');
        v.push('\\');
    } else if c == '\n' {
        v.push('\\');
        v.push('n');
    } else if c == '\r' {
        v.push('\\');
        v.push('r');
    } else if c == '\t' {
        v.push('\\');
        v.push('t');
    } else if c == '\0' {
        v.push('\\');
        v.push('0');
    } else if is_control_char(c) {
        v.push('\\');
        v.push('u');
        v.push('{');
        let h = hex_min_chars(c as u32);
        let mut j: usize = 0;
        let ghost base = v@;
        while j < h.len()
            invariant
                j <= h@.len(),
                v@ == base + h@.take(j as int),
            decreases h@.len() - j,
        {
            v.push(h[j]);
            assert(h@.take(j + 1) == h@.take(j as int).push(h@[j as int]));
            j = j + 1;
        }
        assert(h@.take(j as int) == h@);
        v.push('}');
    } else {
        v.push(c);
    }
    assert(v@ =~= debug_escape(c));
    push_chars(out, &v);
}

/// A string in double quotes with its special characters escaped.
pub fn debug_quote(s: &str) -> (r: String)
    ensures
        r@ == debug_quoted(s@),
{
    let cs = chars_of(s);
    let mut out = String::new();
    push_char(&mut out, '"');
    let mut i: usize = 0;
    while i < cs.len()
        invariant
            i <= cs@.len(),
            cs@ == s@,
            out@ == seq!['"'] + debug_body(cs@.take(i as int)),
        decreases cs@.len() - i,
    {
        push_debug_escape(&mut out, cs[i]);
        assert(cs@.take(i + 1).drop_last() == cs@.take(i as int));
        i = i + 1;
    }
    assert(cs@.take(i as int) == cs@);
    push_char(&mut out, '"');
    out
}

} // verus!
