//! ASCII text of error messages: upper-case hexadecimal numbers and the
//! escaped, quoted form in which a C string is shown for debugging (each
//! byte as `<[u8]>::escape_ascii` gives it, between double quotes).

use vstd::prelude::*;

verus! {

/// The characters of ASCII bytes.
pub open spec fn ascii_chars(b: Seq<u8>) -> Seq<char> {
    b.map_values(|x: u8| x as char)
}

/// Whether all bytes are ASCII.
pub open spec fn is_ascii_bytes(b: Seq<u8>) -> bool {
    forall|i: int| 0 <= i < b.len() ==> #[trigger] b[i] < 0x80
}

/// The hexadecimal digit of `d` (below 16), upper- or lower-case.
pub open spec fn spec_hex_digit(d: int, upper: bool) -> char {
    if d < 10 {
        (d + 0x30) as char
    } else if upper {
        (d + 0x37) as char
    } else {
        (d + 0x57) as char
    }
}

/// `n` in upper-case hexadecimal, without leading zeros.
pub open spec fn spec_upper_hex(n: nat) -> Seq<char>
    decreases n,
{
    if n < 16 {
        seq![spec_hex_digit(n as int, true)]
    } else {
        spec_upper_hex(n / 16).push(spec_hex_digit((n % 16) as int, true))
    }
}

/// The value of a hexadecimal digit, or -1.
pub open spec fn spec_hex_digit_value(c: char) -> int {
    if '0' <= c <= '9' {
        c as int - 0x30
    } else if 'A' <= c <= 'F' {
        c as int - 0x37
    } else if 'a' <= c <= 'f' {
        c as int - 0x57
    } else {
        -1
    }
}

/// The value of a string of hexadecimal digits.
pub open spec fn spec_hex_value(s: Seq<char>) -> int
    decreases s.len(),
{
    if s.len() == 0 {
        0
    } else {
        16 * spec_hex_value(s.drop_last()) + spec_hex_digit_value(s.last())
    }
}

/// How `<[u8]>::escape_ascii` shows one byte.
pub open spec fn spec_escape_byte(b: u8) -> Seq<char> {
    if b == 0x09 {
        seq!['\\', 't']
    } else if b == 0x0d {
        seq!['\\', 'r']
    } else if b == 0x0a {
        seq!['\\', 'n']
    } else if b == 0x5c {
        seq!['\\', '\\']
    } else if b == 0x27 {
        seq!['\\', '\'']
    } else if b == 0x22 {
        seq!['\\', '"']
    } else if 0x20 <= b <= 0x7e {
        seq![b as char]
    } else {
        seq!['\\', 'x', spec_hex_digit((b / 16) as int, false), spec_hex_digit((b % 16) as int, false)]
    }
}

/// How `<[u8]>::escape_ascii` shows a byte string.
pub open spec fn spec_escape_ascii(s: Seq<u8>) -> Seq<char>
    decreases s.len(),
{
    if s.len() == 0 {
        Seq::empty()
    } else {
        spec_escape_ascii(s.drop_last()) + spec_escape_byte(s.last())
    }
}

/// How a C string with the bytes `s` is shown for debugging.
pub open spec fn spec_c_str_debug(s: Seq<u8>) -> Seq<char> {
    seq!['"'] + spec_escape_ascii(s) + seq!['"']
}

/// Appends the ASCII byte `b`.
pub fn push_ascii(out: &mut Vec<u8>, b: u8)
    requires
        is_ascii_bytes(old(out)@),
        b < 0x80,
    ensures
        is_ascii_bytes(final(out)@),
        ascii_chars(final(out)@) == ascii_chars(old(out)@).push(b as char),
{
    out.push(b);
    assert(ascii_chars(final(out)@) =~= ascii_chars(old(out)@).push(b as char));
}

/// Appends the bytes of the ASCII string `s`.
pub fn push_str(out: &mut Vec<u8>, s: &str)
    requires
        is_ascii_bytes(old(out)@),
        vstd::string::is_ascii(s),
    ensures
        is_ascii_bytes(final(out)@),
        ascii_chars(final(out)@) == ascii_chars(old(out)@) + s@,
{
    broadcast use vstd::string::is_ascii_spec_bytes;

    let bytes = s.as_bytes();
    assert(bytes@ =~= Seq::new(s@.len(), |i| s@.index(i) as u8));
    let mut i: usize = 0;
    while i < bytes.len()
        invariant
            0 <= i <= bytes@.len(),
            bytes@.len() == s@.len(),
            bytes@ == Seq::new(s@.len(), |i| s@.index(i) as u8),
            vstd::string::is_ascii(s),
            is_ascii_bytes(out@),
            ascii_chars(out@) == ascii_chars(old(out)@) + s@.subrange(0, i as int),
        decreases bytes@.len() - i,
    {
        let b = bytes[i];
        let ghost c = s@[i as int];
        assert('\0' <= c <= '\u{7f}');
        assert(b == c as u8);
        assert((b as char) == c);
        push_ascii(out, b);
        assert(s@.subrange(0, i + 1) =~= s@.subrange(0, i as int).push(c));
        i = i + 1;
    }
    assert(s@.subrange(0, s@.len() as int) =~= s@);
}

/// The hexadecimal digit of `d`.
fn hex_digit(d: u8, upper: bool) -> (r: u8)
    requires
        d < 16,
    ensures
        r < 0x80,
        r as char == spec_hex_digit(d as int, upper),
{
    if d < 10 {
        d + 0x30
    } else if upper {
        d + 0x37
    } else {
        d + 0x57
    }
}

/// Appends `n` in upper-case hexadecimal.
pub fn push_upper_hex(out: &mut Vec<u8>, n: usize)
    requires
        is_ascii_bytes(old(out)@),
    ensures
        is_ascii_bytes(final(out)@),
        ascii_chars(final(out)@) == ascii_chars(old(out)@) + spec_upper_hex(n as nat),
    decreases n,
{
    if n >= 16 {
        push_upper_hex(out, n / 16);
    }
    let d = hex_digit((n % 16) as u8, true);
    push_ascii(out, d);
    assert(ascii_chars(final(out)@) =~= ascii_chars(old(out)@) + spec_upper_hex(n as nat));
}

/// Appends `b` as `<[u8]>::escape_ascii` shows it.
fn push_escaped_byte(out: &mut Vec<u8>, b: u8)
    requires
        is_ascii_bytes(old(out)@),
    ensures
        is_ascii_bytes(final(out)@),
        ascii_chars(final(out)@) == ascii_chars(old(out)@) + spec_escape_byte(b),
{
    let ghost start = ascii_chars(out@);
    if b == 0x09 {
        push_ascii(out, 0x5c);
        push_ascii(out, 0x74);
    } else if b == 0x0d {
        push_ascii(out, 0x5c);
        push_ascii(out, 0x72);
    } else if b == 0x0a {
        push_ascii(out, 0x5c);
        push_ascii(out, 0x6e);
    } else if b == 0x5c || b == 0x27 || b == 0x22 {
        push_ascii(out, 0x5c);
        push_ascii(out, b);
    } else if 0x20 <= b && b <= 0x7e {
        push_ascii(out, b);
    } else {
        push_ascii(out, 0x5c);
        push_ascii(out, 0x78);
        push_ascii(out, hex_digit(b / 16, false));
        push_ascii(out, hex_digit(b % 16, false));
    }
    assert(ascii_chars(final(out)@) =~= start + spec_escape_byte(b));
}

/// Appends the bytes `s` as a C string is shown for debugging.
pub fn push_c_str_debug(out: &mut Vec<u8>, s: &Vec<u8>)
    requires
        is_ascii_bytes(old(out)@),
    ensures
        is_ascii_bytes(final(out)@),
        ascii_chars(final(out)@) == ascii_chars(old(out)@) + spec_c_str_debug(s@),
{
    push_ascii(out, 0x22);
    let ghost opened = ascii_chars(out@);
    let mut i: usize = 0;
    while i < s.len()
        invariant
            0 <= i <= s@.len(),
            is_ascii_bytes(out@),
            ascii_chars(out@) == opened + spec_escape_ascii(s@.subrange(0, i as int)),
        decreases s@.len() - i,
    {
        push_escaped_byte(out, s[i]);
        assert(s@.subrange(0, i + 1).drop_last() =~= s@.subrange(0, i as int));
        i = i + 1;
        assert(ascii_chars(out@) =~= opened + spec_escape_ascii(s@.subrange(0, i as int)));
    }
    assert(s@.subrange(0, s@.len() as int) =~= s@);
    push_ascii(out, 0x22);
    assert(ascii_chars(final(out)@) =~= ascii_chars(old(out)@) + spec_c_str_debug(s@));
}

/// Calls `String::from_utf8` on bytes that are all ASCII, which always
/// succeeds; the string holds the characters of the bytes.
#[verifier::external_body]
pub(crate) fn ascii_string(bytes: Vec<u8>) -> (s: String)
    requires
        is_ascii_bytes(bytes@),
    ensures
        s@ == ascii_chars(bytes@),
{
    match String::from_utf8(bytes) {
        Ok(s) => s,
        Err(_) => String::new(),
    }
}

proof fn lemma_hex_digit_value(d: int)
    requires
        0 <= d < 16,
    ensures
        spec_hex_digit_value(spec_hex_digit(d, true)) == d,
        spec_hex_digit(d, true) == '0' ==> d == 0,
{
    let c = spec_hex_digit(d, true);
    if d < 10 {
        assert(c as int == d + 0x30);
    } else {
        assert(c as int == d + 0x37);
    }
}

/// The upper-case hexadecimal form of a number reads back as the number, and
/// it starts with a zero only when the number is zero.
pub proof fn lemma_upper_hex_value(n: nat)
    ensures
        spec_hex_value(spec_upper_hex(n)) == n,
        spec_upper_hex(n).len() >= 1,
        spec_upper_hex(n)[0] == '0' ==> n == 0,
    decreases n,
{
    lemma_hex_digit_value((n % 16) as int);
    if n >= 16 {
        lemma_upper_hex_value(n / 16);
        let s = spec_upper_hex(n);
        assert(n == 16 * (n / 16) + n % 16);
        assert(s.drop_last() =~= spec_upper_hex(n / 16));
        assert(s.last() == spec_hex_digit((n % 16) as int, true));
        assert(spec_hex_value(s) == 16 * spec_hex_value(s.drop_last()) + spec_hex_digit_value(
            s.last(),
        ));
        assert(s[0] == spec_upper_hex(n / 16)[0]);
    } else {
        let s = spec_upper_hex(n);
        assert(s.drop_last() =~= Seq::<char>::empty());
        assert(spec_hex_value(s.drop_last()) == 0);
        assert(s.last() == spec_hex_digit(n as int, true));
        assert(spec_hex_value(s) == 16 * spec_hex_value(s.drop_last()) + spec_hex_digit_value(
            s.last(),
        ));
    }
}

/// A byte string of printable ASCII without backslashes or quotes is shown
/// as it is.
pub proof fn lemma_escape_plain(s: Seq<u8>)
    requires
        forall|i: int|
            0 <= i < s.len() ==> 0x20 <= #[trigger] s[i] <= 0x7e && s[i] != 0x5c && s[i] != 0x27
                && s[i] != 0x22,
    ensures
        spec_escape_ascii(s) == ascii_chars(s),
    decreases s.len(),
{
    if s.len() > 0 {
        lemma_escape_plain(s.drop_last());
        assert(ascii_chars(s) =~= ascii_chars(s.drop_last()) + seq![s.last() as char]);
    } else {
        assert(ascii_chars(s) =~= Seq::<char>::empty());
    }
}

} // verus!
