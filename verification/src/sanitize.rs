//! Normalization of free-text metric name segments into characters safe
//! for the wire format: `.`, whitespace and control characters all become
//! `-`, everything else passes through unchanged.

use vstd::prelude::*;

verus! {

/// Whether `c` is whitespace: the Unicode `White_Space` code points,
/// the same set `char::is_whitespace` tests.
pub open spec fn is_space_char(c: char) -> bool {
    ||| c as u32 == 0x20
    ||| 0x09 <= c as u32 && c as u32 <= 0x0D
    ||| c as u32 == 0x85
    ||| c as u32 == 0xA0
    ||| c as u32 == 0x1680
    ||| 0x2000 <= c as u32 && c as u32 <= 0x200A
    ||| c as u32 == 0x2028
    ||| c as u32 == 0x2029
    ||| c as u32 == 0x202F
    ||| c as u32 == 0x205F
    ||| c as u32 == 0x3000
}

/// Whether `c` is a control character: the Unicode `Cc` category, the
/// same two ranges `char::is_control` tests.
pub open spec fn is_ctl_char(c: char) -> bool {
    ||| c as u32 <= 0x1F
    ||| 0x7F <= c as u32 && c as u32 <= 0x9F
}

fn whitespace_char(c: char) -> (r: bool)
    ensures
        r == is_space_char(c),
{
    let u = c as u32;
    u == 0x20 || (0x09 <= u && u <= 0x0D) || u == 0x85 || u == 0xA0 || u == 0x1680 || (0x2000 <= u
        && u <= 0x200A) || u == 0x2028 || u == 0x2029 || u == 0x202F || u == 0x205F || u == 0x3000
}

fn control_char(c: char) -> (r: bool)
    ensures
        r == is_ctl_char(c),
{
    let u = c as u32;
    u <= 0x1F || (0x7F <= u && u <= 0x9F)
}

/// Relies on `String`'s `FromIterator` over `char`: the collected string
/// holds exactly the characters of the vector, in order.
#[verifier::external_body]
pub(crate) fn chars_to_string(v: Vec<char>) -> (r: String)
    ensures
        r@ == v@,
{
    <String as FromIterator<char>>::from_iter(v)
}

/// What the sanitizer makes of one character.
pub open spec fn sanitize_char(c: char) -> char {
    if c == '.' || is_space_char(c) || is_ctl_char(c) {
        '-'
    } else {
        c
    }
}

/// The sanitized form of a whole segment.
pub open spec fn sanitized(s: Seq<char>) -> Seq<char> {
    s.map_values(|c: char| sanitize_char(c))
}

/// Append the sanitized characters of `s` to `out`.
pub fn push_sanitized(out: &mut Vec<char>, s: &str)
    ensures
        final(out)@ == old(out)@ + sanitized(s@),
{
    broadcast use vstd::string::axiom_spec_iter;

    for c in it: s.chars()
        invariant
            it.seq() == s@,
            out@ == old(out)@ + sanitized(s@.take(it.index() as int)),
    {
        let replace = c == '.' || whitespace_char(c) || control_char(c);
        out.push(if replace { '-' } else { c });
        proof {
            assert(out@ =~= old(out)@ + sanitized(s@.take(it.index() + 1)));
        }
    }
    assert(out@ =~= old(out)@ + sanitized(s@));
}

/// Replace every character that has special meaning in the wire format
/// (`.`, any whitespace, any control character) with `-`; all other
/// characters pass through unchanged.  Total over all text, including the
/// empty string, and the no-change path returns content identical to the
/// input.
pub fn sanitize(s: &str) -> (r: String)
    ensures
        r@ == sanitized(s@),
{
    let mut out: Vec<char> = Vec::new();
    push_sanitized(&mut out, s);
    chars_to_string(out)
}

} // verus!
