//! Display colors of guestbook entries.
use vstd::prelude::*;

verus! {

/// A hexadecimal digit, in either case.
pub open spec fn is_hex_digit(c: char) -> bool {
    ('0' <= c && c <= '9') || ('a' <= c && c <= 'f') || ('A' <= c && c <= 'F')
}

/// `#` followed by exactly six hexadecimal digits.
pub open spec fn is_color_token(s: Seq<char>) -> bool {
    &&& s.len() == 7
    &&& s[0] == '#'
    &&& forall|i: int| 1 <= i < 7 ==> is_hex_digit(#[trigger] s[i])
}

/// The color stored for a submitted color text: the text itself when it is a
/// valid token, the default black otherwise.
pub open spec fn sanitized_color(s: Seq<char>) -> Seq<char> {
    if is_color_token(s) {
        s
    } else {
        "#000000"@
    }
}

fn hex_digit(c: char) -> (r: bool)
    ensures
        r == is_hex_digit(c),
{
    ('0' <= c && c <= '9') || ('a' <= c && c <= 'f') || ('A' <= c && c <= 'F')
}

/// Keeps a valid color token and replaces anything else by `#000000`.
pub fn validate_color(input: &str) -> (r: String)
    ensures
        r@ == sanitized_color(input@),
        is_color_token(r@),
{
    proof {
        reveal_strlit("#000000");
    }
    let n = input.unicode_len();
    let mut ok = n == 7 && input.get_char(0) == '#';
    let mut i: usize = 1;
    while ok && i < 7
        invariant
            n == input@.len(),
            1 <= i <= 7,
            ok ==> n == 7 && input@[0] == '#',
            ok ==> forall|j: int| 1 <= j < i ==> is_hex_digit(#[trigger] input@[j]),
            !ok ==> !is_color_token(input@),
        decreases 7 - i,
    {
        if !hex_digit(input.get_char(i)) {
            ok = false;
        }
        i += 1;
    }
    assert(is_color_token("#000000"@));
    if ok {
        String::from_str(input)
    } else {
        String::from_str("#000000")
    }
}

} // verus!
