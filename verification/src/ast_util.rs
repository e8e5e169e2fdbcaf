//! Small helpers the expression grammar's actions use while turning lexed
//! text into literals.

use vstd::prelude::*;
use vstd::string::{StringSliceAdditionalSpecFns, StrSliceExecFns};

verus! {

/// A failure raised while evaluating a number literal.
#[derive(PartialEq, Eq, Debug, Copy, Clone)]
pub enum HotEvalParserError {
    BadLiteral { type_str: &'static str },
}

/// A number literal kept as text until its radix and type are known.
pub struct UnevaluatedNumberLiteral {
    pub string: String,
    pub radix: u32,
}

/// Relies on String::push: appends exactly the given character.
#[verifier::external_body]
fn string_push(s: &mut String, c: char)
    ensures
        final(s)@ == old(s)@.push(c),
{
    s.push(c);
}

/// The tail of `value` after its first `amount` bytes. `amount` must lie on
/// a character boundary (cutting a multi-byte character in half is not a
/// string).
pub fn slice_after_begin<'a>(value: &'a str, amount: usize) -> (r: &'a str)
    requires
        amount <= value.spec_bytes().len(),
        vstd::utf8::is_char_boundary(value.spec_bytes(), amount as int),
    ensures
        r.spec_bytes() == value.spec_bytes().subrange(
            amount as int,
            value.spec_bytes().len() as int,
        ),
{
    let (_, tail) = value.split_at(amount);
    tail
}

/// `s` with every occurrence of the character `c` removed.
pub fn filter_str_chars(s: &str, c: char) -> (r: String)
    ensures
        r@ == s@.filter(|o: char| o != c),
{
    let len = s.unicode_len();
    let mut result = String::new();
    let mut i: usize = 0;
    while i < len
        invariant
            i <= len,
            len as nat == s@.len(),
            result@ == s@.subrange(0, i as int).filter(|o: char| o != c),
        decreases len - i,
    {
        let ch = s.get_char(i);
        proof {
            reveal(Seq::filter);
            let pred = |o: char| o != c;
            let prefix = s@.subrange(0, i + 1);
            assert(prefix.drop_last() =~= s@.subrange(0, i as int));
            assert(prefix.last() == s@[i as int]);
            assert(prefix.filter(pred) == if pred(s@[i as int]) {
                s@.subrange(0, i as int).filter(pred).push(s@[i as int])
            } else {
                s@.subrange(0, i as int).filter(pred)
            });
        }
        if ch != c {
            string_push(&mut result, ch);
        }
        i = i + 1;
    }
    proof {
        assert(s@.subrange(0, s@.len() as int) =~= s@);
    }
    result
}

/// Wrap a type name into the literal-error variant.
pub fn make_bad_literal_error(type_str: &'static str) -> (r: HotEvalParserError)
    ensures
        r == (HotEvalParserError::BadLiteral { type_str }),
{
    HotEvalParserError::BadLiteral { type_str }
}

} // verus!
