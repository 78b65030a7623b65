use vstd::prelude::*;

verus! {

/// Appends one character to a `String`.
///
/// Trusted: calls `String::push` of std, whose documentation states that it appends the
/// given `char` to the end of the string. The contract claims exactly that of the view.
#[verifier::external_body]
pub(crate) fn push_char(s: &mut String, c: char)
    ensures
        final(s)@ == old(s)@.push(c),
{
    s.push(c);
}

/// The `Debug` text of a string: the string in double quotes, with std's escapes.
pub uninterp spec fn str_debug_text(s: Seq<char>) -> Seq<char>;

/// The `Debug` text of a string slice.
///
/// Trusted: formats `s` with `{:?}`, std's `Debug` for `str`, whose text depends on the
/// string alone; the contract only names it.
#[verifier::external_body]
pub(crate) fn str_debug(s: &str) -> (r: String)
    ensures
        r@ == str_debug_text(s@),
{
    format!("{:?}", s)
}

/// Appends a string slice to a `String`.
pub fn push_str(s: &mut String, t: &str)
    ensures
        final(s)@ == old(s)@ + t@,
{
    s.append(t);
}

/// The characters of `bytes`, each byte read as the Latin-1 character of the same code.
pub open spec fn latin1_chars(bytes: Seq<u8>) -> Seq<char> {
    Seq::new(bytes.len(), |i: int| bytes[i] as char)
}

/// Builds a `String` whose characters are the Latin-1 reading of `bytes`.
pub fn latin1_to_string(bytes: &[u8]) -> (s: String)
    ensures
        s@ == latin1_chars(bytes@),
{
    let mut s = String::new();
    let mut i: usize = 0;
    while i < bytes.len()
        invariant
            i <= bytes@.len(),
            s@ == latin1_chars(bytes@.take(i as int)),
        decreases bytes@.len() - i,
    {
        let c = bytes[i] as char;
        push_char(&mut s, c);
        i = i + 1;
        assert(latin1_chars(bytes@.take(i as int)) =~= latin1_chars(bytes@.take(i - 1)).push(c));
    }
    assert(bytes@.take(i as int) =~= bytes@);
    s
}


/// The character of a hexadecimal digit, in upper or lower case.
pub open spec fn hex_digit_char(d: nat, upper: bool) -> char {
    if d < 10 {
        ((48 + d) as u8) as char
    } else if upper {
        ((55 + d) as u8) as char
    } else {
        ((87 + d) as u8) as char
    }
}

/// The hexadecimal digits of `n` without leading zeros ("0" for zero).
pub open spec fn hex_chars(n: nat, upper: bool) -> Seq<char>
    decreases n,
{
    if n < 16 {
        seq![hex_digit_char(n, upper)]
    } else {
        hex_chars(n / 16, upper).push(hex_digit_char(n % 16, upper))
    }
}

/// The decimal digits of `n` without leading zeros ("0" for zero).
pub open spec fn dec_chars(n: nat) -> Seq<char>
    decreases n,
{
    if n < 10 {
        seq![hex_digit_char(n, false)]
    } else {
        dec_chars(n / 10).push(hex_digit_char(n % 10, false))
    }
}

/// The decimal representation of a signed integer, with a leading '-' when negative.
pub open spec fn signed_dec_chars(v: int) -> Seq<char> {
    if v < 0 {
        seq!['-'] + dec_chars((-v) as nat)
    } else {
        dec_chars(v as nat)
    }
}

/// `s` padded on the left with '0' up to `width` characters.
pub open spec fn zero_pad(s: Seq<char>, width: nat) -> Seq<char> {
    if s.len() >= width {
        s
    } else {
        Seq::new((width - s.len()) as nat, |i: int| '0') + s
    }
}

fn digit_char(d: u64, upper: bool) -> (c: char)
    requires
        d < 16,
    ensures
        c == hex_digit_char(d as nat, upper),
{
    if d < 10 {
        ((48 + d) as u8) as char
    } else if upper {
        ((55 + d) as u8) as char
    } else {
        ((87 + d) as u8) as char
    }
}

/// Appends the hexadecimal digits of `n` to `s`.
pub fn push_hex(s: &mut String, n: u64, upper: bool)
    ensures
        final(s)@ == old(s)@ + hex_chars(n as nat, upper),
    decreases n,
{
    if n < 16 {
        push_char(s, digit_char(n, upper));
        assert(hex_chars(n as nat, upper) =~= seq![hex_digit_char(n as nat, upper)]);
    } else {
        push_hex(s, n / 16, upper);
        push_char(s, digit_char(n % 16, upper));
    }
}

/// Appends the decimal digits of `n` to `s`.
pub fn push_dec(s: &mut String, n: u64)
    ensures
        final(s)@ == old(s)@ + dec_chars(n as nat),
    decreases n,
{
    if n < 10 {
        push_char(s, digit_char(n, false));
        assert(dec_chars(n as nat) =~= seq![hex_digit_char(n as nat, false)]);
    } else {
        push_dec(s, n / 10);
        push_char(s, digit_char(n % 10, false));
    }
}

/// Appends the hexadecimal digits of `n`, padded with zeros to `width` digits, to `s`.
pub fn push_hex_padded(s: &mut String, n: u64, upper: bool, width: usize)
    ensures
        final(s)@ == old(s)@ + zero_pad(hex_chars(n as nat, upper), width as nat),
{
    let mut digits = String::new();
    push_hex(&mut digits, n, upper);
    let len = digits.as_str().unicode_len();
    let ghost h = hex_chars(n as nat, upper);
    if len < width {
        let mut i: usize = 0;
        while i < width - len
            invariant
                i <= width - len,
                s@ == old(s)@ + Seq::new(i as nat, |j: int| '0'),
            decreases width - len - i,
        {
            push_char(s, '0');
            i = i + 1;
            assert(Seq::new(i as nat, |j: int| '0') =~= Seq::new((i - 1) as nat, |j: int| '0').push('0'));
        }
    }
    push_str(s, digits.as_str());
    proof {
        assert(zero_pad(h, width as nat) =~= if h.len() >= width { h } else {
            Seq::new((width - h.len()) as nat, |j: int| '0') + h
        });
    }
}

/// The characters of a string slice, in order.
pub fn chars_of(s: &str) -> (v: Vec<char>)
    ensures
        v@ == s@,
{
    broadcast use vstd::string::axiom_spec_iter;

    let mut v: Vec<char> = Vec::new();
    for c in it: s.chars()
        invariant
            v@ == it.seq().take(it.index() as int),
    {
        v.push(c);
    }
    v
}

/// Whether two string slices hold the same characters.
pub fn str_eq(a: &str, b: &str) -> (r: bool)
    ensures
        r == (a@ == b@),
{
    let x = chars_of(a);
    let y = chars_of(b);
    if x.len() != y.len() {
        return false;
    }
    let mut i: usize = 0;
    while i < x.len()
        invariant
            x@ == a@,
            y@ == b@,
            x@.len() == y@.len(),
            i <= x@.len(),
            forall|k: int| 0 <= k < i ==> x@[k] == y@[k],
        decreases x@.len() - i,
    {
        if x[i] != y[i] {
            return false;
        }
        i = i + 1;
    }
    assert(x@ =~= y@);
    true
}

/// `n` spaces.
pub open spec fn spaces(n: nat) -> Seq<char> {
    Seq::new(n, |i: int| ' ')
}

/// Appends `n` spaces.
pub fn push_spaces(out: &mut String, n: usize)
    ensures
        final(out)@ == old(out)@ + spaces(n as nat),
{
    let mut i: usize = 0;
    while i < n
        invariant
            i <= n,
            out@ == old(out)@ + spaces(i as nat),
        decreases n - i,
    {
        push_char(out, ' ');
        i = i + 1;
        assert(spaces(i as nat) =~= spaces((i - 1) as nat).push(' '));
    }
}

} // verus!
