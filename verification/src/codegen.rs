use vstd::prelude::*;

verus! {

/// Length of every generated short code.
pub const CODE_LEN: usize = 5;

/// A character of the URL-safe code alphabet: letters, digits, `_` and `-`.
pub open spec fn spec_is_code_char(c: char) -> bool {
    ||| c == '_'
    ||| c == '-'
    ||| '0' <= c <= '9'
    ||| 'a' <= c <= 'z'
    ||| 'A' <= c <= 'Z'
}

/// Relies on nanoid::format with nanoid's URL-safe alphabet: the result
/// holds exactly the requested number of characters, each drawn from that
/// alphabet — in particular it is never empty. The characters come from the
/// operating system's random number generator, so nothing more is promised
/// of them.
#[verifier::external_body]
pub fn generate_code() -> (r: String)
    ensures
        r@.len() == CODE_LEN as int,
        forall|i: int| 0 <= i < r@.len() ==> spec_is_code_char(#[trigger] r@[i]),
{
    nanoid::format(nanoid::rngs::default, &nanoid::alphabet::SAFE, CODE_LEN)
}

} // verus!
