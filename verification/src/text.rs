//! Building strings piece by piece.
use vstd::prelude::*;
use vstd::utf8::{decode_utf8, encode_scalar, encode_utf8, valid_utf8};

verus! {

/// `String::push` appends one character at the end of the string, as the standard library
/// documents.
pub assume_specification[ String::push ](string: &mut String, ch: char)
    ensures
        final(string)@ == old(string)@.push(ch),
;

/// `String::push_str` appends the given text at the end of the string, as the standard
/// library documents.
pub assume_specification[ String::push_str ](string: &mut String, text: &str)
    ensures
        final(string)@ == old(string)@ + text@,
;

/// The decimal digits of a number, most significant first, without leading zeros ("0" for
/// zero).
pub open spec fn decimal(n: nat) -> Seq<char>
    decreases n,
{
    if n < 10 {
        seq![digit_char(n)]
    } else {
        decimal(n / 10).push(digit_char(n % 10))
    }
}

/// The character of a decimal digit.
pub open spec fn digit_char(d: nat) -> char {
    ((d + 48) as u32) as char
}

/// Append the decimal digits of `n`.
pub fn push_decimal(out: &mut String, n: u64)
    ensures
        final(out)@ == old(out)@ + decimal(n as nat),
    decreases n,
{
    if n >= 10 {
        push_decimal(out, n / 10);
    }
    let d = (n % 10) as u8;
    out.push((d + 48) as char);
    proof {
        assert(((d + 48) as u32) as char == ((d + 48) as u8) as char);
    }
}

/// Characters with the Unicode `White_Space` property, the characters `str::trim` removes.
pub open spec fn is_white_space(c: char) -> bool {
    let u = c as u32;
    ||| 0x09 <= u <= 0x0D
    ||| u == 0x20
    ||| u == 0x85
    ||| u == 0xA0
    ||| u == 0x1680
    ||| 0x2000 <= u <= 0x200A
    ||| u == 0x2028
    ||| u == 0x2029
    ||| u == 0x202F
    ||| u == 0x205F
    ||| u == 0x3000
}

/// Whether `c` is white space.
pub fn white_space(c: char) -> (r: bool)
    ensures
        r == is_white_space(c),
{
    let u = c as u32;
    (0x09 <= u && u <= 0x0D) || u == 0x20 || u == 0x85 || u == 0xA0 || u == 0x1680 || (0x2000 <= u && u
        <= 0x200A) || u == 0x2028 || u == 0x2029 || u == 0x202F || u == 0x205F || u == 0x3000
}

/// The first position at or after `i` that does not hold white space (the length when
/// there is none).
pub open spec fn skip_space(s: Seq<char>, i: nat) -> nat
    decreases s.len() - i,
{
    if i < s.len() && is_white_space(s[i as int]) {
        skip_space(s, i + 1)
    } else {
        i
    }
}

/// The last position after `lo` and at or before `e` that follows a character that is not
/// white space (`lo` when there is none).
pub open spec fn back_skip_space(s: Seq<char>, e: nat, lo: nat) -> nat
    decreases e,
{
    if e > lo && is_white_space(s[e - 1]) {
        back_skip_space(s, (e - 1) as nat, lo)
    } else {
        e
    }
}

/// `s` without the white space at either end.
pub open spec fn trim(s: Seq<char>) -> Seq<char> {
    let b = skip_space(s, 0);
    s.subrange(b as int, back_skip_space(s, s.len(), b) as int)
}

/// The first position of `s` at or after `i` that does not hold white space.
pub(crate) fn skip_space_at(s: &str, len: usize, i: usize) -> (r: usize)
    requires
        len == s@.len(),
        i <= len,
    ensures
        r == skip_space(s@, i as nat),
        i <= r <= len,
{
    let mut j = i;
    while j < len && white_space(s.get_char(j))
        invariant
            len == s@.len(),
            i <= j <= len,
            skip_space(s@, j as nat) == skip_space(s@, i as nat),
        decreases len - j,
    {
        j = j + 1;
    }
    j
}

/// The end of `s[lo..e]` without its trailing white space.
pub(crate) fn back_skip_space_at(s: &str, e: usize, lo: usize) -> (r: usize)
    requires
        lo <= e <= s@.len(),
    ensures
        r == back_skip_space(s@, e as nat, lo as nat),
        lo <= r <= e,
{
    let mut j = e;
    while j > lo && white_space(s.get_char(j - 1))
        invariant
            lo <= j <= e <= s@.len(),
            back_skip_space(s@, j as nat, lo as nat) == back_skip_space(s@, e as nat, lo as nat),
        decreases j,
    {
        j = j - 1;
    }
    j
}

/// `s` without the white space at either end.
pub fn trim_text(s: &str) -> (r: String)
    ensures
        r@ == trim(s@),
{
    let len = s.unicode_len();
    let b = skip_space_at(s, len, 0);
    let e = back_skip_space_at(s, len, b);
    s.substring_char(b, e).to_owned()
}

/// `std::str::from_utf8`: the text that the bytes encode where they are valid UTF-8, and
/// nothing exactly where they are not, as the standard library documents.
#[verifier::external_body]
pub fn utf8_text(bytes: &[u8]) -> (r: Option<&str>)
    ensures
        r is Some <==> valid_utf8(bytes@),
        r matches Some(s) ==> s@ == decode_utf8(bytes@),
{
    std::str::from_utf8(bytes).ok()
}

/// Encoding a text with one more character appends that character's encoding.
pub proof fn lemma_encode_push(cs: Seq<char>, c: char)
    ensures
        encode_utf8(cs.push(c)) == encode_utf8(cs) + encode_scalar(c as u32),
    decreases cs.len(),
{
    if cs.len() > 0 {
        lemma_encode_push(cs.drop_first(), c);
        assert(cs.push(c).drop_first() =~= cs.drop_first().push(c));
        assert(encode_utf8(cs.push(c)) =~= encode_scalar(cs[0] as u32) + encode_utf8(cs.drop_first().push(c)));
        assert(encode_utf8(cs) =~= encode_scalar(cs[0] as u32) + encode_utf8(cs.drop_first()));
    } else {
        assert(cs.push(c).drop_first() =~= Seq::<char>::empty());
        assert(encode_utf8(cs.push(c)) =~= encode_scalar(c as u32) + encode_utf8(Seq::<char>::empty()));
    }
}

} // verus!
