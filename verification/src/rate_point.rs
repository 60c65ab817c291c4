//! Command-line arguments of interest-rate curves and risk tiers: parsing a `util,rate` point
//! and converting the arguments into the protocol's types.

use crate::state::RiskTier;
use vstd::prelude::*;
use vstd::string::StringExecFns;

verus! {

broadcast use vstd::string::axiom_spec_iter;

/// A risk tier as given on the command line.
#[derive(PartialEq, Eq, Structural, Clone, Copy, Debug)]
pub enum RiskTierArg {
    Collateral,
    Isolated,
}

/// A point of an interest-rate curve as given on the command line: `util` is a utilization out
/// of 100% scaled to `u32::MAX`, `rate` a rate out of 1000% scaled to `u32::MAX`.
#[derive(PartialEq, Eq, Structural, Clone, Copy, Debug)]
pub struct RatePointArg {
    pub util: u32,
    pub rate: u32,
}

/// A point of an interest-rate curve.
#[derive(PartialEq, Eq, Structural, Clone, Copy, Debug)]
pub struct RatePoint {
    pub util: u32,
    pub rate: u32,
}

/// Why a decimal number does not parse (as `core::num::IntErrorKind` tells it).
#[derive(PartialEq, Eq, Structural, Clone, Copy, Debug)]
pub enum IntErrorKind {
    /// The text is empty.
    Empty,
    /// A character is not a decimal digit (or the text is a lone sign).
    InvalidDigit,
    /// The number does not fit.
    PosOverflow,
}

/// Why a rate point does not parse.
#[derive(PartialEq, Eq, Structural, Clone, Copy, Debug)]
pub enum RatePointError {
    /// There is no comma: the expected format is `util,rate`.
    MissingComma,
    /// The part before the comma is no `u32`.
    InvalidUtil(IntErrorKind),
    /// The part after the comma is no `u32`.
    InvalidRate(IntErrorKind),
}

/// Unicode white space, which `str::trim` removes.
pub open spec fn is_white_space(c: char) -> bool {
    let n = c as u32;
    ||| 0x09 <= n <= 0x0d
    ||| n == 0x20
    ||| n == 0x85
    ||| n == 0xa0
    ||| n == 0x1680
    ||| 0x2000 <= n <= 0x200a
    ||| n == 0x2028
    ||| n == 0x2029
    ||| n == 0x202f
    ||| n == 0x205f
    ||| n == 0x3000
}

/// The text without its leading white space.
pub open spec fn trim_start(s: Seq<char>) -> Seq<char>
    decreases s.len(),
{
    if s.len() > 0 && is_white_space(s[0]) {
        trim_start(s.drop_first())
    } else {
        s
    }
}

/// The text without its trailing white space.
pub open spec fn trim_end(s: Seq<char>) -> Seq<char>
    decreases s.len(),
{
    if s.len() > 0 && is_white_space(s.last()) {
        trim_end(s.drop_last())
    } else {
        s
    }
}

/// The text without white space at either end (`str::trim`).
pub open spec fn trim(s: Seq<char>) -> Seq<char> {
    trim_end(trim_start(s))
}

/// Whether a character is a decimal digit.
pub open spec fn is_digit(c: char) -> bool {
    '0' <= c <= '9'
}

/// The value of a decimal digit.
pub open spec fn digit_value(c: char) -> int {
    (c as u32) - ('0' as u32)
}

/// Reads the digits of `s` from `i` on onto `acc`, left to right, as `u32::from_str` does: a
/// character that is no digit is `InvalidDigit`, a value past `u32::MAX` is `PosOverflow`,
/// whichever comes first.
pub open spec fn accumulate(s: Seq<char>, i: int, acc: int) -> Result<u32, IntErrorKind>
    decreases s.len() - i,
{
    if i < 0 || i >= s.len() {
        Ok(acc as u32)
    } else if !is_digit(s[i]) {
        Err(IntErrorKind::InvalidDigit)
    } else if acc * 10 + digit_value(s[i]) > u32::MAX {
        Err(IntErrorKind::PosOverflow)
    } else {
        accumulate(s, i + 1, acc * 10 + digit_value(s[i]))
    }
}

/// `u32::from_str`: an optional `+`, then decimal digits.
pub open spec fn parse_u32(s: Seq<char>) -> Result<u32, IntErrorKind> {
    if s.len() == 0 {
        Err(IntErrorKind::Empty)
    } else if s.len() == 1 && (s[0] == '+' || s[0] == '-') {
        Err(IntErrorKind::InvalidDigit)
    } else if s[0] == '+' {
        accumulate(s, 1, 0)
    } else {
        accumulate(s, 0, 0)
    }
}

/// The position of the first comma at or after `i`.
pub open spec fn first_comma_from(s: Seq<char>, i: int) -> Option<int>
    decreases s.len() - i,
{
    if i < 0 || i >= s.len() {
        None
    } else if s[i] == ',' {
        Some(i)
    } else {
        first_comma_from(s, i + 1)
    }
}

/// What parsing `util,rate` gives: the text is split at its first comma, and each side, trimmed
/// of white space, must be a `u32`.
pub open spec fn spec_parse_rate_point(s: Seq<char>) -> Result<RatePointArg, RatePointError> {
    match first_comma_from(s, 0) {
        None => Err(RatePointError::MissingComma),
        Some(i) => match parse_u32(trim(s.subrange(0, i))) {
            Err(k) => Err(RatePointError::InvalidUtil(k)),
            Ok(util) => match parse_u32(trim(s.subrange(i + 1, s.len() as int))) {
                Err(k) => Err(RatePointError::InvalidRate(k)),
                Ok(rate) => Ok(RatePointArg { util, rate }),
            },
        },
    }
}

/// The first comma found from `j` on lies in the text.
proof fn lemma_first_comma(s: Seq<char>, j: int)
    ensures
        first_comma_from(s, j) matches Some(i) ==> j <= i < s.len() && s[i] == ',',
    decreases s.len() - j,
{
    if 0 <= j < s.len() && s[j] != ',' {
        lemma_first_comma(s, j + 1);
    }
}

/// Whether every character is a decimal digit.
pub open spec fn all_digits(s: Seq<char>) -> bool {
    forall|i: int| 0 <= i < s.len() ==> is_digit(#[trigger] s[i])
}

/// The number that the digits `s[i..]` write after a prefix worth `acc` (Horner's rule).
pub open spec fn decimal_from(s: Seq<char>, i: int, acc: int) -> int
    decreases s.len() - i,
{
    if i < 0 || i >= s.len() {
        acc
    } else {
        decimal_from(s, i + 1, acc * 10 + digit_value(s[i]))
    }
}

/// The number that a string of decimal digits writes.
pub open spec fn decimal_value(s: Seq<char>) -> int {
    decimal_from(s, 0, 0)
}

/// Reading more digits never lowers the number.
proof fn lemma_decimal_from_grows(s: Seq<char>, i: int, acc: int)
    requires
        all_digits(s),
        0 <= i,
        acc >= 0,
    ensures
        decimal_from(s, i, acc) >= acc,
    decreases s.len() - i,
{
    if i < s.len() {
        assert(is_digit(s[i]));
        lemma_decimal_from_grows(s, i + 1, acc * 10 + digit_value(s[i]));
    }
}

/// Digits that write a `u32` are read without overflow.
proof fn lemma_accumulate_digits(s: Seq<char>, i: int, acc: int)
    requires
        all_digits(s),
        0 <= i,
        acc >= 0,
        decimal_from(s, i, acc) <= u32::MAX,
    ensures
        accumulate(s, i, acc) == Ok::<u32, IntErrorKind>(decimal_from(s, i, acc) as u32),
    decreases s.len() - i,
{
    if i < s.len() {
        assert(is_digit(s[i]));
        lemma_decimal_from_grows(s, i + 1, acc * 10 + digit_value(s[i]));
        lemma_accumulate_digits(s, i + 1, acc * 10 + digit_value(s[i]));
    }
}

/// Whether every character is white space.
pub open spec fn all_white_space(s: Seq<char>) -> bool {
    forall|i: int| 0 <= i < s.len() ==> is_white_space(#[trigger] s[i])
}

/// Leading white space is trimmed off up to the first character that is none.
proof fn lemma_trim_start_white(w: Seq<char>, x: Seq<char>)
    requires
        all_white_space(w),
        x.len() > 0,
        !is_white_space(x[0]),
    ensures
        trim_start(w + x) == x,
    decreases w.len(),
{
    if w.len() == 0 {
        assert(w + x =~= x);
    } else {
        assert((w + x)[0] == w[0]);
        assert(is_white_space(w[0]));
        assert((w + x).drop_first() =~= w.drop_first() + x);
        lemma_trim_start_white(w.drop_first(), x);
    }
}

/// Trailing white space is trimmed off back to the last character that is none.
proof fn lemma_trim_end_white(x: Seq<char>, w: Seq<char>)
    requires
        all_white_space(w),
        x.len() > 0,
        !is_white_space(x.last()),
    ensures
        trim_end(x + w) == x,
    decreases w.len(),
{
    if w.len() == 0 {
        assert(x + w =~= x);
        assert(trim_end(x) == x);
    } else {
        assert((x + w).last() == w.last());
        assert(is_white_space(w[w.len() - 1]));
        assert((x + w).drop_last() =~= x + w.drop_last());
        lemma_trim_end_white(x, w.drop_last());
    }
}

/// A digit string padded with white space trims to itself.
proof fn lemma_padded_digits_trimmed(before: Seq<char>, digits: Seq<char>, after: Seq<char>)
    requires
        all_white_space(before),
        all_white_space(after),
        digits.len() > 0,
        all_digits(digits),
    ensures
        trim(before + digits + after) == digits,
{
    assert(is_digit(digits[0]));
    assert(is_digit(digits.last()));
    let tail = digits + after;
    assert(tail[0] == digits[0]);
    assert(before + digits + after =~= before + tail);
    lemma_trim_start_white(before, tail);
    lemma_trim_end_white(digits, after);
}

/// The first comma after a text without one is the one that follows it.
proof fn lemma_comma_after(s: Seq<char>, len: int, i: int)
    requires
        0 <= i <= len < s.len(),
        s[len] == ',',
        forall|k: int| 0 <= k < len ==> #[trigger] s[k] != ',',
    ensures
        first_comma_from(s, i) == Some(len),
    decreases len - i,
{
    if i < len {
        assert(s[i] != ',');
        lemma_comma_after(s, len, i + 1);
    }
}

/// Parsing `util,rate` gives back the two numbers written in decimal, whatever white space pads
/// each of them on either side.
pub proof fn lemma_rate_point_round_trip(
    util_before: Seq<char>,
    util: Seq<char>,
    util_after: Seq<char>,
    rate_before: Seq<char>,
    rate: Seq<char>,
    rate_after: Seq<char>,
)
    requires
        all_white_space(util_before),
        all_white_space(util_after),
        all_white_space(rate_before),
        all_white_space(rate_after),
        util.len() > 0,
        rate.len() > 0,
        all_digits(util),
        all_digits(rate),
        decimal_value(util) <= u32::MAX,
        decimal_value(rate) <= u32::MAX,
    ensures
        spec_parse_rate_point(
            util_before + util + util_after + seq![','] + rate_before + rate + rate_after,
        ) == Ok::<RatePointArg, RatePointError>(
            RatePointArg { util: decimal_value(util) as u32, rate: decimal_value(rate) as u32 },
        ),
{
    let left = util_before + util + util_after;
    let right = rate_before + rate + rate_after;
    let s = util_before + util + util_after + seq![','] + rate_before + rate + rate_after;
    assert(s =~= left + seq![','] + right);
    let n = left.len() as int;
    assert forall|k: int| 0 <= k < n implies #[trigger] s[k] != ',' by {
        assert(s[k] == left[k]);
        if k < util_before.len() {
            assert(left[k] == util_before[k]);
            assert(is_white_space(util_before[k]));
        } else if k < util_before.len() + util.len() {
            assert(left[k] == util[k - util_before.len()]);
            assert(is_digit(util[k - util_before.len()]));
        } else {
            assert(left[k] == util_after[k - util_before.len() - util.len()]);
            assert(is_white_space(util_after[k - util_before.len() - util.len()]));
        }
    }
    assert(s[n] == ',');
    lemma_comma_after(s, n, 0);
    assert(s.subrange(0, n) =~= left);
    assert(s.subrange(n + 1, s.len() as int) =~= right);
    lemma_padded_digits_trimmed(util_before, util, util_after);
    lemma_padded_digits_trimmed(rate_before, rate, rate_after);
    assert(is_digit(util[0]));
    assert(is_digit(rate[0]));
    lemma_accumulate_digits(util, 0, 0);
    lemma_accumulate_digits(rate, 0, 0);
}

/// The characters of a text.
pub(crate) fn chars_of(s: &str) -> (r: Vec<char>)
    ensures
        r@ == s@,
{
    let mut out: Vec<char> = Vec::new();
    for c in it: s.chars()
        invariant
            it.seq() == s@,
            out@ == it.seq().subrange(0, it.index() as int),
    {
        out.push(c);
    }
    assert(s@.subrange(0, s@.len() as int) == s@);
    out
}

/// The characters `v[lo..hi]`.
fn copy_range(v: &Vec<char>, lo: usize, hi: usize) -> (r: Vec<char>)
    requires
        lo <= hi <= v@.len(),
    ensures
        r@ == v@.subrange(lo as int, hi as int),
{
    let mut out: Vec<char> = Vec::new();
    let mut i: usize = lo;
    while i < hi
        invariant
            lo <= i <= hi <= v@.len(),
            out@ == v@.subrange(lo as int, i as int),
        decreases hi - i,
    {
        out.push(v[i]);
        i = i + 1;
    }
    out
}

/// Whether `c` is Unicode white space.
fn white_space(c: char) -> (r: bool)
    ensures
        r == is_white_space(c),
{
    let n = c as u32;
    (0x09 <= n && n <= 0x0d) || n == 0x20 || n == 0x85 || n == 0xa0 || n == 0x1680 || (0x2000
        <= n && n <= 0x200a) || n == 0x2028 || n == 0x2029 || n == 0x202f || n == 0x205f || n
        == 0x3000
}

/// The characters without white space at either end.
pub(crate) fn trim_chars(v: &Vec<char>) -> (r: Vec<char>)
    ensures
        r@ == trim(v@),
{
    let n = v.len();
    let mut i: usize = 0;
    assert(v@.subrange(0, n as int) == v@);
    while i < n && white_space(v[i])
        invariant
            i <= n == v@.len(),
            trim_start(v@) == trim_start(v@.subrange(i as int, n as int)),
        decreases n - i,
    {
        assert(v@.subrange(i as int, n as int).drop_first() == v@.subrange(i + 1, n as int));
        i = i + 1;
    }
    let mut j: usize = n;
    while j > i && white_space(v[j - 1])
        invariant
            i <= j <= n == v@.len(),
            trim_end(trim_start(v@)) == trim_end(v@.subrange(i as int, j as int)),
            trim_start(v@) == v@.subrange(i as int, n as int) || i < n,
        decreases j - i,
    {
        assert(v@.subrange(i as int, j as int).drop_last() == v@.subrange(i as int, j - 1));
        j = j - 1;
    }
    proof {
        if i < n {
            assert(!is_white_space(v@[i as int]));
        }
        assert(trim_start(v@.subrange(i as int, n as int)) == v@.subrange(i as int, n as int));
    }
    copy_range(v, i, j)
}

/// `u32::from_str` on the characters.
fn parse_u32_chars(v: &Vec<char>) -> (r: Result<u32, IntErrorKind>)
    ensures
        r == parse_u32(v@),
{
    let n = v.len();
    if n == 0 {
        return Err(IntErrorKind::Empty);
    }
    if n == 1 && (v[0] == '+' || v[0] == '-') {
        return Err(IntErrorKind::InvalidDigit);
    }
    let mut i: usize = if v[0] == '+' {
        1
    } else {
        0
    };
    let mut acc: u32 = 0;
    while i < n
        invariant
            i <= n == v@.len(),
            n > 0,
            parse_u32(v@) == accumulate(v@, i as int, acc as int),
        decreases n - i,
    {
        let c = v[i];
        if !('0' <= c && c <= '9') {
            return Err(IntErrorKind::InvalidDigit);
        }
        let d = (c as u32) - ('0' as u32);
        if acc > 429496729 || (acc == 429496729 && d > 5) {
            return Err(IntErrorKind::PosOverflow);
        }
        acc = acc * 10 + d;
        i = i + 1;
    }
    Ok(acc)
}

/// The position of the first comma.
fn find_comma(v: &Vec<char>) -> (r: Option<usize>)
    ensures
        match first_comma_from(v@, 0) {
            Some(i) => r == Some(i as usize),
            None => r is None,
        },
{
    let mut i: usize = 0;
    while i < v.len()
        invariant
            i <= v@.len(),
            first_comma_from(v@, 0) == first_comma_from(v@, i as int),
        decreases v@.len() - i,
    {
        if v[i] == ',' {
            return Some(i);
        }
        i = i + 1;
    }
    None
}

impl RatePointArg {
    /// Parses `util,rate`: the text is split at its first comma and each side, trimmed of white
    /// space, must be a `u32` (an optional `+`, then decimal digits).
    pub fn parse(s: &str) -> (r: Result<RatePointArg, RatePointError>)
        ensures
            r == spec_parse_rate_point(s@),
    {
        let v = chars_of(s);
        let i = match find_comma(&v) {
            Some(i) => i,
            None => return Err(RatePointError::MissingComma),
        };
        proof {
            lemma_first_comma(v@, 0);
        }
        let lhs = trim_chars(&copy_range(&v, 0, i));
        let n = v.len();
        let rhs = trim_chars(&copy_range(&v, i + 1, n));
        let util = match parse_u32_chars(&lhs) {
            Ok(u) => u,
            Err(k) => return Err(RatePointError::InvalidUtil(k)),
        };
        let rate = match parse_u32_chars(&rhs) {
            Ok(u) => u,
            Err(k) => return Err(RatePointError::InvalidRate(k)),
        };
        Ok(RatePointArg { util, rate })
    }
}

/// The text `core::num::ParseIntError` shows for a kind of failure.
pub open spec fn int_error_text(kind: IntErrorKind) -> Seq<char> {
    match kind {
        IntErrorKind::Empty => "cannot parse integer from empty string"@,
        IntErrorKind::InvalidDigit => "invalid digit found in string"@,
        IntErrorKind::PosOverflow => "number too large to fit in target type"@,
    }
}

/// The message of a rate point that does not parse.
pub open spec fn rate_point_error_text(e: RatePointError) -> Seq<char> {
    match e {
        RatePointError::MissingComma => "expected format: util,rate"@,
        RatePointError::InvalidUtil(k) => "invalid util u32: "@ + int_error_text(k),
        RatePointError::InvalidRate(k) => "invalid rate u32: "@ + int_error_text(k),
    }
}

impl IntErrorKind {
    /// The text `ParseIntError` shows for this failure.
    pub fn description(&self) -> (r: String)
        ensures
            r@ == int_error_text(*self),
    {
        match self {
            IntErrorKind::Empty => String::from_str("cannot parse integer from empty string"),
            IntErrorKind::InvalidDigit => String::from_str("invalid digit found in string"),
            IntErrorKind::PosOverflow => String::from_str("number too large to fit in target type"),
        }
    }
}

impl RatePointError {
    /// The message of the failure: the expected format, or which number is invalid and why.
    pub fn message(&self) -> (r: String)
        ensures
            r@ == rate_point_error_text(*self),
    {
        match self {
            RatePointError::MissingComma => String::from_str("expected format: util,rate"),
            RatePointError::InvalidUtil(k) => String::from_str("invalid util u32: ").concat(
                k.description().as_str(),
            ),
            RatePointError::InvalidRate(k) => String::from_str("invalid rate u32: ").concat(
                k.description().as_str(),
            ),
        }
    }
}

impl core::str::FromStr for RatePointArg {
    type Err = String;

    /// Parses `util,rate`; the error is the message of `RatePointError`.
    fn from_str(s: &str) -> (r: Result<RatePointArg, String>)
        ensures
            match spec_parse_rate_point(s@) {
                Ok(p) => r == Ok::<RatePointArg, String>(p),
                Err(e) => r matches Err(m) && m@ == rate_point_error_text(e),
            },
    {
        match RatePointArg::parse(s) {
            Ok(p) => Ok(p),
            Err(e) => Err(e.message()),
        }
    }
}

impl From<RatePointArg> for RatePoint {
    fn from(p: RatePointArg) -> (r: RatePoint) {
        RatePoint { util: p.util, rate: p.rate }
    }
}

impl vstd::std_specs::convert::FromSpecImpl<RatePointArg> for RatePoint {
    open spec fn obeys_from_spec() -> bool {
        true
    }

    open spec fn from_spec(p: RatePointArg) -> RatePoint {
        RatePoint { util: p.util, rate: p.rate }
    }
}

impl From<RiskTierArg> for RiskTier {
    fn from(value: RiskTierArg) -> (r: RiskTier) {
        match value {
            RiskTierArg::Collateral => RiskTier::Collateral,
            RiskTierArg::Isolated => RiskTier::Isolated,
        }
    }
}

impl vstd::std_specs::convert::FromSpecImpl<RiskTierArg> for RiskTier {
    open spec fn obeys_from_spec() -> bool {
        true
    }

    open spec fn from_spec(value: RiskTierArg) -> RiskTier {
        match value {
            RiskTierArg::Collateral => RiskTier::Collateral,
            RiskTierArg::Isolated => RiskTier::Isolated,
        }
    }
}

} // verus!
