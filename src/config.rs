use vstd::prelude::*;

verus! {

/// Why a command-line value could not be taken.
#[derive(Debug, Clone, Copy, PartialEq, Eq, Structural)]
pub enum ConfigError {
    /// A value that has no default was not given.
    MissingArgument,
    /// A value is not a decimal number that fits in a `u32`.
    InvalidNumber,
}

/// The settings of one run: the account key, the indexing service, the number of
/// indices that the totals span, the displayed index range and what is shown.
pub struct Args {
    pub xpub: String,
    pub esplora: String,
    pub n: u32,
    pub start: u32,
    pub end: u32,
    pub is_change: bool,
    pub is_offline: bool,
}

pub open spec fn is_digit(c: char) -> bool {
    48 <= (c as u32) && (c as u32) <= 57
}

pub open spec fn digit_value(c: char) -> int {
    (c as u32) - 48
}

pub open spec fn all_digits(d: Seq<char>) -> bool {
    forall|i: int| 0 <= i < d.len() ==> #[trigger] is_digit(d[i])
}

/// The number that a string of decimal digits denotes.
#[verifier::opaque]
pub open spec fn decimal_value(d: Seq<char>) -> int
    decreases d.len(),
{
    if d.len() == 0 {
        0
    } else {
        decimal_value(d.drop_last()) * 10 + digit_value(d.last())
    }
}

/// The digits of an unsigned number: the text without one leading `+`.
pub open spec fn unsigned_digits(s: Seq<char>) -> Seq<char> {
    if s.len() > 0 && s[0] == '+' {
        s.drop_first()
    } else {
        s
    }
}

/// The `u32` that a text denotes in decimal: an optional `+` and at least one
/// digit, with a value that fits.
pub open spec fn u32_of(s: Seq<char>) -> Option<u32> {
    let d = unsigned_digits(s);
    if d.len() > 0 && all_digits(d) && decimal_value(d) <= u32::MAX {
        Some(decimal_value(d) as u32)
    } else {
        None
    }
}

pub open spec fn opt_view(o: Option<&str>) -> Option<Seq<char>> {
    match o {
        Some(s) => Some(s@),
        None => None,
    }
}

/// What reading an optional number gives.
pub open spec fn num_outcome(o: Option<Seq<char>>) -> Result<u32, ConfigError> {
    match o {
        None => Err(ConfigError::MissingArgument),
        Some(s) => match u32_of(s) {
            Some(v) => Ok(v),
            None => Err(ConfigError::InvalidNumber),
        },
    }
}

/// The last displayed index: never before the first.
pub open spec fn clamped_end(start: u32, end: u32) -> u32 {
    if end < start {
        start
    } else {
        end
    }
}

proof fn lemma_decimal_value_nonneg(d: Seq<char>)
    requires
        all_digits(d),
    ensures
        decimal_value(d) >= 0,
    decreases d.len(),
{
    reveal(decimal_value);
    if d.len() > 0 {
        assert(is_digit(d[d.len() - 1]));
        lemma_decimal_value_nonneg(d.drop_last());
    }
}

/// A longer run of digits never denotes less than its prefix.
proof fn lemma_decimal_value_prefix(d: Seq<char>, k: int)
    requires
        all_digits(d),
        0 <= k <= d.len(),
    ensures
        decimal_value(d.subrange(0, k)) <= decimal_value(d),
    decreases d.len() - k,
{
    reveal(decimal_value);
    if k < d.len() {
        let p = d.subrange(0, k + 1);
        assert(p.drop_last() =~= d.subrange(0, k));
        assert(is_digit(p.last()));
        assert(all_digits(p.drop_last()));
        lemma_decimal_value_nonneg(p.drop_last());
        lemma_decimal_value_prefix(d, k + 1);
    } else {
        assert(d.subrange(0, k) =~= d);
    }
}

proof fn lemma_digits_extend(d: Seq<char>, k: int)
    requires
        0 <= k < d.len(),
        all_digits(d.subrange(0, k)),
        is_digit(d[k]),
    ensures
        all_digits(d.subrange(0, k + 1)),
        decimal_value(d.subrange(0, k + 1)) == decimal_value(d.subrange(0, k)) * 10
            + digit_value(d[k]),
{
    reveal(decimal_value);
    let p = d.subrange(0, k + 1);
    assert(p.drop_last() =~= d.subrange(0, k));
    assert forall|j: int| 0 <= j < p.len() implies #[trigger] is_digit(p[j]) by {
        if j < k {
            assert(p[j] == d.subrange(0, k)[j]);
        }
    }
}

/// Reads a decimal `u32`: an optional `+` followed by one or more digits.
pub fn parse_u32(s: &str) -> (r: Option<u32>)
    ensures
        r == u32_of(s@),
{
    let len = s.unicode_len();
    let mut first: usize = 0;
    if len > 0 && s.get_char(0) == '+' {
        first = 1;
    }
    let ghost d = unsigned_digits(s@);
    assert(d =~= s@.subrange(first as int, len as int));
    if first == len {
        return None;
    }
    let mut acc: u64 = 0;
    let mut i: usize = first;
    assert(decimal_value(d.subrange(0, 0)) == 0) by {
        reveal(decimal_value);
    }
    while i < len
        invariant
            first <= i <= len,
            len == s@.len(),
            d == s@.subrange(first as int, len as int),
            d == unsigned_digits(s@),
            acc == decimal_value(d.subrange(0, i - first)),
            acc <= u32::MAX,
            all_digits(d.subrange(0, i - first)),
        decreases len - i,
    {
        let c = s.get_char(i);
        let ghost k = i - first;
        assert(d[k] == c);
        let code = c as u32;
        if !(48 <= code && code <= 57) {
            assert(!is_digit(d[k]));
            assert(!all_digits(d));
            return None;
        }
        proof {
            lemma_digits_extend(d, k);
        }
        acc = acc * 10 + (code - 48) as u64;
        if acc > u32::MAX as u64 {
            proof {
                if all_digits(d) {
                    lemma_decimal_value_prefix(d, k + 1);
                }
            }
            return None;
        }
        i = i + 1;
    }
    assert(d.subrange(0, len - first) =~= d);
    Some(acc as u32)
}

/// Checks that a text is a decimal `u32`.
pub fn is_positive_num(to_check: String) -> (r: Result<(), ConfigError>)
    ensures
        r is Ok <==> u32_of(to_check@) is Some,
        r is Err ==> r->Err_0 == ConfigError::InvalidNumber,
{
    match parse_u32(to_check.as_str()) {
        Some(_) => Ok(()),
        None => Err(ConfigError::InvalidNumber),
    }
}

/// Reads an optional decimal `u32`.
pub fn parse_num(to_parse: Option<&str>) -> (r: Result<u32, ConfigError>)
    ensures
        r == num_outcome(opt_view(to_parse)),
{
    match to_parse {
        None => Err(ConfigError::MissingArgument),
        Some(s) => match parse_u32(s) {
            Some(v) => Ok(v),
            None => Err(ConfigError::InvalidNumber),
        },
    }
}

impl Args {
    /// Builds the settings from the given values, in this order: first index,
    /// last index, key, service, count. The first value that is missing or not a
    /// number decides the error. A last index before the first is moved up to it.
    pub fn new(
        xpub: Option<&str>,
        esplora: Option<&str>,
        n: Option<&str>,
        start: Option<&str>,
        end: Option<&str>,
        is_change: bool,
        is_offline: bool,
    ) -> (r: Result<Args, ConfigError>)
        ensures
            ({
                let s = num_outcome(opt_view(start));
                let e = num_outcome(opt_view(end));
                let c = num_outcome(opt_view(n));
                &&& s is Err ==> r == Err::<Args, ConfigError>(s->Err_0)
                &&& s is Ok && e is Err ==> r == Err::<Args, ConfigError>(e->Err_0)
                &&& s is Ok && e is Ok && xpub is None ==> r == Err::<Args, ConfigError>(
                    ConfigError::MissingArgument,
                )
                &&& s is Ok && e is Ok && xpub is Some && esplora is None ==> r == Err::<
                    Args,
                    ConfigError,
                >(ConfigError::MissingArgument)
                &&& s is Ok && e is Ok && xpub is Some && esplora is Some && c is Err ==> r
                    == Err::<Args, ConfigError>(c->Err_0)
                &&& r is Ok <==> (s is Ok && e is Ok && xpub is Some && esplora is Some
                    && c is Ok)
                &&& r is Ok ==> {
                    let a = r->Ok_0;
                    &&& a.start == s->Ok_0
                    &&& a.end == clamped_end(s->Ok_0, e->Ok_0)
                    &&& a.n == c->Ok_0
                    &&& a.xpub@ == xpub->0@
                    &&& a.esplora@ == esplora->0@
                    &&& a.is_change == is_change
                    &&& a.is_offline == is_offline
                }
            }),
    {
        let start = parse_num(start)?;
        let mut end = parse_num(end)?;
        if end < start {
            end = start;
        }
        let xpub = match xpub {
            Some(x) => String::from_str(x),
            None => return Err(ConfigError::MissingArgument),
        };
        let esplora = match esplora {
            Some(x) => String::from_str(x),
            None => return Err(ConfigError::MissingArgument),
        };
        let n = parse_num(n)?;
        Ok(Args { xpub, esplora, n, start, end, is_change, is_offline })
    }
}

} // verus!
