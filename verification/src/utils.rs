use vstd::prelude::*;

use crate::text::{hex_chars, hex_digit_char, push_char, push_hex_padded, push_str, zero_pad};
use vstd::string::StringSliceAdditionalSpecFns;

verus! {

/// A bytecode address: the index of an instruction.
pub type Gs2BytecodeAddress = usize;

/// At what length operand text is truncated when it is rendered.
pub const OPERAND_TRUNCATE_LENGTH: usize = 100;

/// Max iterations for the structure analysis.
pub const STRUCTURE_ANALYSIS_MAX_ITERATIONS: usize = 1000;

/// GBF green.
pub const GBF_GREEN: &'static str = "#98ff64";

/// GBF red.
pub const GBF_RED: &'static str = "#ff6464";

/// GBF blue.
pub const GBF_BLUE: &'static str = "#64b2ff";

/// GBF yellow.
pub const GBF_YELLOW: &'static str = "#ffd964";

/// GBF light gray.
pub const GBF_LIGHT_GRAY: &'static str = "#cdcdcd";

/// GBF dark gray.
pub const GBF_DARK_GRAY: &'static str = "#1e1e1e";

/// The HTML encoding of one character.
pub open spec fn html_char(c: char) -> Seq<char> {
    if c == '&' {
        "&amp;"@
    } else if c == '<' {
        "&lt;"@
    } else if c == '>' {
        "&gt;"@
    } else if c == '"' {
        "&quot;"@
    } else if c == '\'' {
        "&#39;"@
    } else {
        seq![c]
    }
}

/// The HTML encoding of a text: each of `& < > " '` replaced by its entity.
pub open spec fn html_encode_spec(s: Seq<char>) -> Seq<char>
    decreases s.len(),
{
    if s.len() == 0 {
        seq![]
    } else {
        html_encode_spec(s.drop_last()) + html_char(s.last())
    }
}

/// Appends the HTML encoding of a character.
pub fn push_html_char(out: &mut String, c: char)
    ensures
        final(out)@ == old(out)@ + html_char(c),
{
    if c == '&' {
        push_str(out, "&amp;");
    } else if c == '<' {
        push_str(out, "&lt;");
    } else if c == '>' {
        push_str(out, "&gt;");
    } else if c == '"' {
        push_str(out, "&quot;");
    } else if c == '\'' {
        push_str(out, "&#39;");
    } else {
        push_char(out, c);
        assert(seq![c] =~= html_char(c));
    }
}

/// Encodes a string for HTML.
pub fn html_encode(input: &str) -> (r: String)
    ensures
        r@ == html_encode_spec(input@),
{
    let chars = crate::text::chars_of(input);
    let mut out = String::new();
    let mut i: usize = 0;
    while i < chars.len()
        invariant
            i <= chars@.len(),
            chars@ == input@,
            out@ == html_encode_spec(input@.take(i as int)),
        decreases chars@.len() - i,
    {
        let c = chars[i];
        proof {
            assert(input@.take(i + 1).drop_last() =~= input@.take(i as int));
        }
        push_html_char(&mut out, c);
        i = i + 1;
    }
    proof {
        assert(input@.take(i as int) =~= input@);
    }
    out
}

/// The ASCII escape of one byte: `\t`, `\r`, `\n`, `\'`, `\"` and `\\` for those
/// characters, printable ASCII as it is, and `\xNN` with two lower-case hexadecimal digits
/// for every other byte.
pub open spec fn escape_byte(b: u8) -> Seq<char> {
    if b == 9 {
        "\\t"@
    } else if b == 13 {
        "\\r"@
    } else if b == 10 {
        "\\n"@
    } else if b == 39 {
        "\\'"@
    } else if b == 34 {
        "\\\""@
    } else if b == 92 {
        "\\\\"@
    } else if 0x20 <= b <= 0x7e {
        seq![b as char]
    } else {
        "\\x"@ + seq![hex_digit_char((b / 16) as nat, false), hex_digit_char((b % 16) as nat, false)]
    }
}

/// The ASCII escape of a byte sequence, byte by byte.
pub open spec fn escape_spec(s: Seq<u8>) -> Seq<char>
    decreases s.len(),
{
    if s.len() == 0 {
        seq![]
    } else {
        escape_spec(s.drop_last()) + escape_byte(s.last())
    }
}

/// Escapes the UTF-8 bytes of a string with the ASCII escapes of `escape_byte`.
pub fn escape_string(input: &str) -> (r: String)
    ensures
        r@ == escape_spec(input.spec_bytes()),
{
    let bytes = input.as_bytes();
    let mut out = String::new();
    let mut i: usize = 0;
    while i < bytes.len()
        invariant
            i <= bytes@.len(),
            out@ == escape_spec(bytes@.take(i as int)),
        decreases bytes@.len() - i,
    {
        let b = bytes[i];
        proof {
            assert(bytes@.take(i + 1).drop_last() =~= bytes@.take(i as int));
        }
        if b == 9 {
            push_str(&mut out, "\\t");
        } else if b == 13 {
            push_str(&mut out, "\\r");
        } else if b == 10 {
            push_str(&mut out, "\\n");
        } else if b == 39 {
            push_str(&mut out, "\\'");
        } else if b == 34 {
            push_str(&mut out, "\\\"");
        } else if b == 92 {
            push_str(&mut out, "\\\\");
        } else if 0x20 <= b && b <= 0x7e {
            push_char(&mut out, b as char);
        } else {
            push_str(&mut out, "\\x");
            push_hex_padded(&mut out, b as u64, false, 2);
            proof {
                lemma_two_hex_digits(b);
            }
        }
        i = i + 1;
    }
    proof {
        assert(bytes@.take(i as int) =~= bytes@);
    }
    out
}

proof fn lemma_two_hex_digits(b: u8)
    requires
        !(0x20 <= b <= 0x7e),
    ensures
        zero_pad(hex_chars(b as nat, false), 2) == seq![
            hex_digit_char((b / 16) as nat, false),
            hex_digit_char((b % 16) as nat, false),
        ],
{
    if b < 16 {
        assert(hex_chars(b as nat, false) == seq![hex_digit_char(b as nat, false)]);
        assert(zero_pad(hex_chars(b as nat, false), 2) =~= seq!['0', hex_digit_char(b as nat, false)]);
    } else {
        assert(hex_chars((b / 16) as nat, false) == seq![hex_digit_char((b / 16) as nat, false)]);
        assert(hex_chars(b as nat, false) =~= seq![
            hex_digit_char((b / 16) as nat, false),
            hex_digit_char((b % 16) as nat, false),
        ]);
    }
}

/// The number of bytes of a character in UTF-8.
pub open spec fn char_utf8_len(c: char) -> nat {
    if (c as u32) < 0x80 {
        1
    } else if (c as u32) < 0x800 {
        2
    } else if (c as u32) < 0x10000 {
        3
    } else {
        4
    }
}

/// The number of bytes of a text in UTF-8.
pub open spec fn utf8_len(s: Seq<char>) -> nat
    decreases s.len(),
{
    if s.len() == 0 {
        0
    } else {
        utf8_len(s.drop_last()) + char_utf8_len(s.last())
    }
}

/// The number of characters, from the `k`-th on, that the longest prefix of `s` within
/// `limit` bytes has.
pub open spec fn fit_count(s: Seq<char>, limit: nat, k: nat) -> nat
    decreases s.len() - k,
{
    if k < s.len() && utf8_len(s.take(k + 1 as int)) <= limit {
        fit_count(s, limit, k + 1)
    } else {
        k
    }
}

/// A text cut to its first `limit` bytes and followed by `...`, when it is longer than that.
pub open spec fn truncated(s: Seq<char>, limit: nat) -> Seq<char> {
    let k = fit_count(s, limit, 0);
    if k == s.len() {
        s
    } else {
        s.take(k as int) + "..."@
    }
}

/// Whether a text can be cut at `limit` bytes: it fits, or its first `limit` bytes end on a
/// character boundary.
pub open spec fn truncatable(s: Seq<char>, limit: nat) -> bool {
    let k = fit_count(s, limit, 0);
    k == s.len() || utf8_len(s.take(k as int)) == limit
}

/// The number of bytes of a character in UTF-8.
fn char_len(c: char) -> (n: usize)
    ensures
        n == char_utf8_len(c),
{
    let v = c as u32;
    if v < 0x80 {
        1
    } else if v < 0x800 {
        2
    } else if v < 0x10000 {
        3
    } else {
        4
    }
}

/// Cuts a text to its first `limit` bytes and appends `...`, when it is longer than that.
pub fn truncate_text(s: &str, limit: usize) -> (r: String)
    requires
        limit <= 1024,
        truncatable(s@, limit as nat),
    ensures
        r@ == truncated(s@, limit as nat),
{
    let chars = crate::text::chars_of(s);
    let mut k: usize = 0;
    let mut acc: usize = 0;
    while k < chars.len()
        invariant
            k <= chars@.len(),
            chars@ == s@,
            limit <= 1024,
            acc <= limit,
            acc == utf8_len(s@.take(k as int)),
            fit_count(s@, limit as nat, 0) == fit_count(s@, limit as nat, k as nat),
        ensures
            k <= chars@.len(),
            chars@ == s@,
            fit_count(s@, limit as nat, 0) == k,
        decreases chars@.len() - k,
    {
        let u = char_len(chars[k]);
        proof {
            assert(s@.take(k + 1).drop_last() =~= s@.take(k as int));
        }
        if acc + u > limit {
            break;
        }
        acc = acc + u;
        k = k + 1;
    }
    let mut out = String::new();
    let mut i: usize = 0;
    while i < k
        invariant
            i <= k,
            k <= chars@.len(),
            chars@ == s@,
            out@ == s@.take(i as int),
        decreases k - i,
    {
        crate::text::push_char(&mut out, chars[i]);
        proof {
            assert(s@.take(i + 1) =~= s@.take(i as int).push(s@[i as int]));
        }
        i = i + 1;
    }
    if k < chars.len() {
        crate::text::push_str(&mut out, "...");
    } else {
        proof {
            assert(s@.take(k as int) =~= s@);
        }
    }
    out
}

} // verus!
