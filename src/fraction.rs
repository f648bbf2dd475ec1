use vstd::prelude::*;

verus! {

/// Why a fraction-of-pi angle cannot be read.
#[derive(Debug, Clone, Copy, PartialEq, Eq, Structural)]
pub enum FractionNotationError {
    DivisionSymbolAbsent,
    InvalidNumerator,
    InvalidDenominator,
}

/// Position of the first `c` in `s`, if there is one.
pub open spec fn first_index_of(s: Seq<char>, c: char) -> Option<nat>
    decreases s.len(),
{
    if s.len() == 0 {
        None
    } else {
        match first_index_of(s.drop_last(), c) {
            Some(i) => Some(i),
            None => if s.last() == c {
                Some((s.len() - 1) as nat)
            } else {
                None
            },
        }
    }
}

/// `parse_model` and `angle_model` say what `parse` and `angle` return: every
/// outcome of a call agrees with them.
pub open spec fn models<N, P: Fn(&str) -> Option<N>, A: Fn(N, N) -> N>(
    parse: P,
    angle: A,
    parse_model: spec_fn(Seq<char>) -> Option<N>,
    angle_model: spec_fn(N, N) -> N,
) -> bool {
    &&& forall|t: &str, x: Option<N>| #[trigger] parse.ensures((t,), x) ==> x == parse_model(t@)
    &&& forall|a: N, b: N, v: N| #[trigger] angle.ensures((a, b), v) ==> v == angle_model(a, b)
}

/// `parse` may be called on any text and `angle` on any two numbers.
pub open spec fn callable<N, P: Fn(&str) -> Option<N>, A: Fn(N, N) -> N>(parse: P, angle: A) -> bool {
    &&& forall|t: &str| #[trigger] parse.requires((t,))
    &&& forall|a: N, b: N| #[trigger] angle.requires((a, b))
}

/// The meaning of the fraction-of-pi text `s`: the text before the first `/`
/// is the numerator, the text after it the denominator, each read by
/// `parse_model`; `angle_model` turns the two numbers into the angle they
/// denote.
pub open spec fn fraction_value<N>(
    s: Seq<char>,
    parse_model: spec_fn(Seq<char>) -> Option<N>,
    angle_model: spec_fn(N, N) -> N,
) -> Result<N, FractionNotationError> {
    match first_index_of(s, '/') {
        None => Err(FractionNotationError::DivisionSymbolAbsent),
        Some(k) => match parse_model(s.take(k as int)) {
            None => Err(FractionNotationError::InvalidNumerator),
            Some(a) => match parse_model(s.skip((k + 1) as int)) {
                None => Err(FractionNotationError::InvalidDenominator),
                Some(b) => Ok(angle_model(a, b)),
            },
        },
    }
}

proof fn lemma_first_index_extends(s: Seq<char>, c: char, j: int)
    requires
        0 <= j <= s.len(),
        first_index_of(s.take(j), c) is Some,
    ensures
        first_index_of(s, c) == first_index_of(s.take(j), c),
    decreases s.len() - j,
{
    if j < s.len() {
        assert(s.take(j + 1).drop_last() == s.take(j));
        lemma_first_index_extends(s, c, j + 1);
    } else {
        assert(s.take(j) == s);
    }
}

/// Position of the first `c` in `s`, if there is one.
pub fn find_char(s: &str, c: char) -> (r: Option<usize>)
    ensures
        r is None <==> first_index_of(s@, c) is None,
        r matches Some(i) ==> first_index_of(s@, c) == Some(i as nat) && i < s@.len(),
{
    let n = s.unicode_len();
    let mut i: usize = 0;
    while i < n
        invariant
            n == s@.len(),
            0 <= i <= n,
            first_index_of(s@.take(i as int), c) is None,
        decreases n - i,
    {
        assert(s@.take(i + 1).drop_last() == s@.take(i as int));
        if s.get_char(i) == c {
            proof {
                lemma_first_index_extends(s@, c, i + 1);
            }
            return Some(i);
        }
        i += 1;
    }
    assert(s@.take(n as int) == s@);
    None
}

/// Reads an angle written as a fraction of pi, `"a/b"` for pi * a / b:
/// `parse` reads a number and `angle` computes the angle from the two.
pub fn fraction_notation_to_angle<N, P: Fn(&str) -> Option<N>, A: Fn(N, N) -> N>(
    s: &str,
    parse: &P,
    angle: &A,
) -> (r: Result<N, FractionNotationError>)
    requires
        callable(*parse, *angle),
    ensures
        first_index_of(s@, '/') is None <==> r == Err::<N, FractionNotationError>(
            FractionNotationError::DivisionSymbolAbsent,
        ),
        forall|pm: spec_fn(Seq<char>) -> Option<N>, am: spec_fn(N, N) -> N|
            #[trigger] models(*parse, *angle, pm, am) ==> r == fraction_value(s@, pm, am),
{
    let k = match find_char(s, '/') {
        Some(k) => k,
        None => {
            return Err(FractionNotationError::DivisionSymbolAbsent);
        },
    };
    let n = s.unicode_len();
    let numerator_text = s.substring_char(0, k);
    let denominator_text = s.substring_char(k + 1, n);
    assert(numerator_text@ == s@.take(k as int));
    assert(denominator_text@ == s@.skip(k + 1 as int));
    let a = match parse(numerator_text) {
        Some(a) => a,
        None => {
            return Err(FractionNotationError::InvalidNumerator);
        },
    };
    let b = match parse(denominator_text) {
        Some(b) => b,
        None => {
            return Err(FractionNotationError::InvalidDenominator);
        },
    };
    Ok(angle(a, b))
}

} // verus!
