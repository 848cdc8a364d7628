use vstd::prelude::*;

verus! {

/// The character of a decimal digit `d < 10`.
pub open spec fn digit_char(d: nat) -> char {
    (('0' as nat) + d) as char
}

/// Whether `c` is an ASCII decimal digit.
pub open spec fn is_digit(c: char) -> bool {
    '0' <= c && c <= '9'
}

/// The value of an ASCII decimal digit.
pub open spec fn digit_value(c: char) -> nat {
    ((c as int) - ('0' as int)) as nat
}

/// The shortest decimal rendering of `n`.
pub open spec fn decimal(n: nat) -> Seq<char>
    decreases n,
{
    if n < 10 {
        seq![digit_char(n)]
    } else {
        decimal(n / 10).push(digit_char(n % 10))
    }
}

/// The value of a string of decimal digits (most significant first).
pub open spec fn digits_value(s: Seq<char>) -> nat
    decreases s.len(),
{
    if s.len() == 0 {
        0
    } else {
        digits_value(s.drop_last()) * 10 + digit_value(s.last())
    }
}

/// The digits of a token's text form: what follows an optional leading `+`.
pub open spec fn token_digits(s: Seq<char>) -> Seq<char> {
    if s.len() > 0 && s[0] == '+' {
        s.drop_first()
    } else {
        s
    }
}

/// Text that reads as a 64-bit token: an optional `+`, then one or more
/// decimal digits whose value fits in 64 bits.
pub open spec fn is_token_text(s: Seq<char>) -> bool {
    let d = token_digits(s);
    &&& d.len() > 0
    &&& forall|i: int| 0 <= i < d.len() ==> is_digit(#[trigger] d[i])
    &&& digits_value(d) <= u64::MAX
}

/// Why a text is not a token.
#[derive(Debug, Clone, Copy, PartialEq, Eq)]
pub enum TokenParseError {
    /// No text at all.
    Empty,
    /// A character that is not a decimal digit, or a lone `+`.
    InvalidDigit,
    /// The value does not fit in 64 bits.
    Overflow,
}

/// The error that parsing `s` reports (meaningful where `s` is not a token).
pub open spec fn parse_error_of(s: Seq<char>) -> TokenParseError {
    let d = token_digits(s);
    if s.len() == 0 {
        TokenParseError::Empty
    } else if d.len() == 0 {
        TokenParseError::InvalidDigit
    } else if exists|i: int| 0 <= i < d.len() && !is_digit(#[trigger] d[i]) {
        TokenParseError::InvalidDigit
    } else {
        TokenParseError::Overflow
    }
}

/// An opaque bearer credential: a 64-bit value drawn at random when issued.
#[derive(Debug, Clone, Copy, PartialEq, Eq, Hash)]
pub struct AuthToken {
    pub unique: u64,
}

/// Relies on `rand::random`, which draws a uniformly distributed `u64`;
/// nothing is known of the value.
#[verifier::external_body]
fn random_u64() -> u64 {
    rand::random::<u64>()
}

/// Relies on `String::push`, which appends one character.
#[verifier::external_body]
pub(crate) fn push_char(s: &mut String, c: char)
    ensures
        final(s)@ == old(s)@.push(c),
{
    s.push(c)
}

/// The characters of `s`, in order.
pub fn chars_of(s: &str) -> (r: Vec<char>)
    ensures
        r@ == s@,
{
    let mut r: Vec<char> = Vec::new();
    for c in it: s.chars()
        invariant
            it.seq() == s@,
            r@ == it.seq().subrange(0, it.index() as int),
    {
        r.push(c);
    }
    r
}

/// Extending a digit string never lowers its value.
proof fn lemma_digits_value_prefix(s: Seq<char>, k: int)
    requires
        0 <= k <= s.len(),
    ensures
        digits_value(s.subrange(0, k)) <= digits_value(s),
    decreases s.len(),
{
    if k < s.len() {
        assert(s.drop_last().subrange(0, k) =~= s.subrange(0, k));
        lemma_digits_value_prefix(s.drop_last(), k);
    } else {
        assert(s.subrange(0, k) =~= s);
    }
}

impl AuthToken {
    /// Draws a fresh token from the random source.
    pub fn generate() -> (r: Self) {
        AuthToken { unique: random_u64() }
    }

    /// Reads a token from its wire form.
    pub fn parse(s: &str) -> (r: Result<AuthToken, TokenParseError>)
        ensures
            is_token_text(s@) ==> r == Ok::<AuthToken, TokenParseError>(
                AuthToken { unique: digits_value(token_digits(s@)) as u64 },
            ),
            !is_token_text(s@) ==> r == Err::<AuthToken, TokenParseError>(parse_error_of(s@)),
    {
        let cs = chars_of(s);
        let len = cs.len();
        let start: usize = if len > 0 && cs[0] == '+' {
            1
        } else {
            0
        };
        let ghost d = token_digits(s@);
        assert(d =~= cs@.subrange(start as int, len as int));
        if len == 0 {
            return Err(TokenParseError::Empty);
        }
        if start == len {
            return Err(TokenParseError::InvalidDigit);
        }
        let mut i: usize = start;
        while i < len
            invariant
                start <= i <= len,
                len == cs@.len(),
                d =~= cs@.subrange(start as int, len as int),
                d == token_digits(s@),
                forall|j: int| 0 <= j < i - start ==> is_digit(#[trigger] d[j]),
            decreases len - i,
        {
            let c = cs[i];
            assert(c == d[i - start]);
            if !('0' <= c && c <= '9') {
                assert(!is_digit(d[i - start]));
                assert(exists|j: int| 0 <= j < d.len() && !is_digit(#[trigger] d[j]));
                return Err(TokenParseError::InvalidDigit);
            }
            i = i + 1;
        }
        let mut acc: u64 = 0;
        let mut i: usize = start;
        while i < len
            invariant
                start <= i <= len,
                len == cs@.len(),
                d =~= cs@.subrange(start as int, len as int),
                d == token_digits(s@),
                d.len() > 0,
                forall|j: int| 0 <= j < d.len() ==> is_digit(#[trigger] d[j]),
                acc == digits_value(d.subrange(0, i - start)),
            decreases len - i,
        {
            let c = cs[i];
            assert(c == d[i - start]);
            assert(is_digit(d[i - start]));
            let v = (c as u32 - 48) as u64;
            assert(v == digit_value(c));
            let ghost p = d.subrange(0, i - start + 1);
            assert(p.drop_last() =~= d.subrange(0, i - start));
            assert(p.last() == c);
            if acc > (u64::MAX - v) / 10 {
                proof {
                    assert(digits_value(p) > u64::MAX) by (nonlinear_arith)
                        requires
                            digits_value(p) == acc * 10 + v,
                            acc > (u64::MAX - v) / 10,
                            v <= 9,
                    ;
                    lemma_digits_value_prefix(d, i - start + 1);
                }
                assert(!(exists|j: int| 0 <= j < d.len() && !is_digit(#[trigger] d[j])));
                return Err(TokenParseError::Overflow);
            }
            proof {
                assert(acc * 10 + v <= u64::MAX) by (nonlinear_arith)
                    requires
                        acc <= (u64::MAX - v) / 10,
                        v <= 9,
                ;
            }
            acc = acc * 10 + v;
            i = i + 1;
        }
        assert(d.subrange(0, d.len() as int) =~= d);
        Ok(AuthToken { unique: acc })
    }

    /// Reads a token from its wire form, which the caller has checked.
    pub fn deserialize(s: &str) -> (r: Self)
        requires
            is_token_text(s@),
        ensures
            r.unique == digits_value(token_digits(s@)),
    {
        match AuthToken::parse(s) {
            Ok(t) => t,
            Err(_) => AuthToken { unique: 0 },
        }
    }

    /// The token's wire form: its value in decimal.
    pub fn serialize(&self) -> (r: String)
        ensures
            r@ == decimal(self.unique as nat),
    {
        let x = self.unique;
        let mut n: u64 = x;
        let mut digits: Vec<char> = Vec::new();
        loop
            invariant_except_break
                decimal(x as nat) == decimal(n as nat) + digits@,
            ensures
                decimal(x as nat) == digits@,
            decreases n,
        {
            let d = n % 10;
            let c = (48u8 + d as u8) as char;
            assert(c == digit_char(d as nat));
            let ghost before = digits@;
            digits.insert(0, c);
            assert(digits@ =~= seq![c] + before);
            if n < 10 {
                assert(decimal(n as nat) =~= seq![c]);
                break ;
            }
            let q = n / 10;
            assert(decimal(q as nat).push(c) + before =~= decimal(q as nat) + digits@);
            n = q;
        }
        let mut s = String::new();
        for i in 0..digits.len()
            invariant
                s@ == digits@.subrange(0, i as int),
        {
            push_char(&mut s, digits[i]);
        }
        s
    }
}

impl std::str::FromStr for AuthToken {
    type Err = TokenParseError;

    fn from_str(s: &str) -> Result<Self, Self::Err> {
        AuthToken::parse(s)
    }
}

} // verus!
