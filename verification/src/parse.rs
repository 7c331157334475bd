use vstd::prelude::*;

verus! {

/// The byte is an ASCII decimal digit.
pub open spec fn is_ascii_digit(b: u8) -> bool {
    48 <= b <= 57
}

/// Every byte of the string is an ASCII decimal digit.
pub open spec fn all_ascii_digits(s: Seq<u8>) -> bool {
    forall|i: int| 0 <= i < s.len() ==> is_ascii_digit(s[i])
}

/// The number a digit string denotes, most significant digit first.
pub open spec fn digits_value(s: Seq<u8>) -> int
    decreases s.len(),
{
    if s.len() == 0 {
        0
    } else {
        digits_value(s.drop_last()) * 10 + (s.last() - 48)
    }
}

/// Why a command-line argument failed to parse as a count.
#[derive(Clone, Copy, PartialEq, Eq, Structural, Debug)]
pub enum ParseError {
    /// The argument was empty.
    Empty,
    /// Some byte was not an ASCII decimal digit.
    InvalidDigit,
    /// The denoted number does not fit the result type.
    Overflow,
}

proof fn lemma_digits_take_succ(s: Seq<u8>, i: int)
    requires
        0 <= i < s.len(),
    ensures
        digits_value(s.take(i + 1)) == digits_value(s.take(i)) * 10 + (s[i] - 48),
{
    assert(s.take(i + 1).drop_last() =~= s.take(i));
    assert(s.take(i + 1).last() == s[i]);
}

proof fn lemma_digits_nonneg(s: Seq<u8>)
    requires
        all_ascii_digits(s),
    ensures
        digits_value(s) >= 0,
    decreases s.len(),
{
    if s.len() == 0 {
    } else {
        let d = s.drop_last();
        assert(all_ascii_digits(d));
        lemma_digits_nonneg(d);
    }
}

proof fn lemma_digits_prefix_le(s: Seq<u8>, i: int)
    requires
        all_ascii_digits(s),
        0 <= i <= s.len(),
    ensures
        digits_value(s.take(i)) <= digits_value(s),
    decreases s.len() - i,
{
    if i == s.len() {
        assert(s.take(i) =~= s);
    } else {
        lemma_digits_take_succ(s, i);
        assert(all_ascii_digits(s.take(i)));
        lemma_digits_nonneg(s.take(i));
        lemma_digits_prefix_le(s, i + 1);
    }
}

/// Parses an unsigned decimal integer from the bytes of a command-line
/// argument.  Succeeds exactly on non-empty, all-digit strings whose value
/// fits; a non-digit anywhere is an invalid-digit failure, and an all-digit
/// string too large to hold is an overflow failure.
pub fn parse_u64(s: &[u8]) -> (r: Result<u64, ParseError>)
    ensures
        r is Ok <==> s@.len() > 0 && all_ascii_digits(s@) && digits_value(s@) <= u64::MAX,
        r is Ok ==> r->Ok_0 == digits_value(s@),
        r == Result::<u64, ParseError>::Err(ParseError::Empty) <==> s@.len() == 0,
        r == Result::<u64, ParseError>::Err(ParseError::InvalidDigit) <==> s@.len() > 0
            && !all_ascii_digits(s@),
        r == Result::<u64, ParseError>::Err(ParseError::Overflow) <==> s@.len() > 0
            && all_ascii_digits(s@) && digits_value(s@) > u64::MAX,
{
    if s.len() == 0 {
        return Err(ParseError::Empty);
    }
    let mut i: usize = 0;
    while i < s.len()
        invariant
            0 <= i <= s@.len(),
            forall|j: int| 0 <= j < i ==> is_ascii_digit(s@[j]),
        decreases s@.len() - i,
    {
        let b = s[i];
        if b < 48 || b > 57 {
            return Err(ParseError::InvalidDigit);
        }
        i = i + 1;
    }
    assert(all_ascii_digits(s@));
    let mut acc: u64 = 0;
    let mut j: usize = 0;
    while j < s.len()
        invariant
            0 <= j <= s@.len(),
            all_ascii_digits(s@),
            acc == digits_value(s@.take(j as int)),
        decreases s@.len() - j,
    {
        let b = s[j];
        let d = (b - 48) as u64;
        proof {
            lemma_digits_take_succ(s@, j as int);
        }
        let shifted = match acc.checked_mul(10) {
            Some(v) => v,
            None => {
                proof {
                    lemma_digits_prefix_le(s@, j as int + 1);
                }
                return Err(ParseError::Overflow);
            },
        };
        let next = match shifted.checked_add(d) {
            Some(v) => v,
            None => {
                proof {
                    lemma_digits_prefix_le(s@, j as int + 1);
                }
                return Err(ParseError::Overflow);
            },
        };
        acc = next;
        j = j + 1;
    }
    proof {
        assert(s@.take(s@.len() as int) =~= s@);
    }
    Ok(acc)
}

} // verus!
