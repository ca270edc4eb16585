//! Resolving the bot's policy from raw configuration strings.
//!
//! Three values make up the policy: the numeric identifier of the operator
//! role, the display name of that role, and the allow list of user
//! identifiers. Each resolver takes the raw string as the process found it
//! (or `None` when the value was absent) and returns a plain value, so that
//! reading the environment stays outside this crate.

use vstd::prelude::*;
use vstd::string::StrSliceExecFns;

verus! {

/// Errors from resolving configuration values. Both are fatal at startup:
/// they are reported to the process operator, never to chat users.
#[derive(Clone, Copy, Debug, PartialEq, Eq, Structural)]
pub enum ConfigError {
    /// The configuration value was absent.
    Missing,
    /// The configuration value was present but could not be parsed.
    Malformed,
}

/// A decimal digit character.
pub open spec fn is_digit(c: char) -> bool {
    '0' as u32 <= c as u32 && c as u32 <= '9' as u32
}

/// The numeric value of a decimal digit character.
pub open spec fn digit_val(c: char) -> nat {
    (c as u32 - '0' as u32) as nat
}

/// Every character of `s` is a decimal digit.
pub open spec fn all_digits(s: Seq<char>) -> bool {
    forall|i: int| 0 <= i < s.len() ==> is_digit(#[trigger] s[i])
}

/// The number denoted by a sequence of decimal digits, most significant
/// digit first. The empty sequence denotes zero.
pub open spec fn digits_value(s: Seq<char>) -> nat
    decreases s.len(),
{
    if s.len() == 0 {
        0
    } else {
        digits_value(s.drop_last()) * 10 + digit_val(s.last())
    }
}

/// `s` denotes an unsigned 64-bit integer: non-empty, digits throughout,
/// and a value in range.
pub open spec fn parses_as_u64(s: Seq<char>) -> bool {
    s.len() > 0 && all_digits(s) && digits_value(s) <= u64::MAX
}

/// The index of the first occurrence of `c` in `s`, or `s.len()` when `c`
/// does not occur.
pub open spec fn index_of_first(s: Seq<char>, c: char) -> nat
    decreases s.len(),
{
    if s.len() == 0 {
        0
    } else if s[0] == c {
        0
    } else {
        1 + index_of_first(s.skip(1), c)
    }
}

/// What `index_of_first` returns: an in-range index that carries `c`, with
/// no occurrence of `c` before it.
pub proof fn lemma_index_of_first(s: Seq<char>, c: char)
    ensures
        index_of_first(s, c) <= s.len(),
        index_of_first(s, c) < s.len() ==> s[index_of_first(s, c) as int] == c,
        forall|j: int| 0 <= j < index_of_first(s, c) ==> s[j] != c,
    decreases s.len(),
{
    if s.len() == 0 {
    } else if s[0] == c {
    } else {
        lemma_index_of_first(s.skip(1), c);
        assert forall|j: int| 0 <= j < index_of_first(s, c) implies s[j] != c by {
            if j > 0 {
                assert(s.skip(1)[j - 1] == s[j]);
            }
        }
    }
}

/// A position that carries `c` (or the length, when `c` is absent) with no
/// occurrence of `c` before it is exactly `index_of_first`.
pub proof fn lemma_index_of_first_is(s: Seq<char>, c: char, k: int)
    requires
        0 <= k <= s.len(),
        k < s.len() ==> s[k] == c,
        forall|j: int| 0 <= j < k ==> s[j] != c,
    ensures
        index_of_first(s, c) == k,
{
    lemma_index_of_first(s, c);
    let i = index_of_first(s, c) as int;
    if i < k {
        assert(s[i] == c);
        assert(false);
    } else if i > k {
        assert(s[k] != c);
        assert(false);
    }
}

/// The portion of `s` before its first `'.'`; all of `s` when it has none.
pub open spec fn integer_prefix(s: Seq<char>) -> Seq<char> {
    s.take(index_of_first(s, '.') as int)
}

/// A digit string never shrinks in value when extended on the right: the
/// value of any prefix is at most the value of the whole.
pub proof fn lemma_digits_value_take_le(s: Seq<char>, k: int)
    requires
        0 <= k <= s.len(),
        all_digits(s),
    ensures
        digits_value(s.take(k)) <= digits_value(s),
    decreases s.len() - k,
{
    if k == s.len() {
        assert(s.take(k) =~= s);
    } else {
        assert(s.take(k + 1).drop_last() =~= s.take(k));
        assert(s.take(k + 1).last() == s[k]);
        lemma_digits_value_take_le(s, k + 1);
    }
}

/// Parses `s[lo..hi]` as an unsigned 64-bit decimal integer: `Some` exactly
/// when that range is non-empty, all digits, and in range.
fn parse_u64_digits(s: &str, lo: usize, hi: usize) -> (r: Option<u64>)
    requires
        lo <= hi <= s@.len(),
    ensures
        r is Some <==> parses_as_u64(s@.subrange(lo as int, hi as int)),
        r matches Some(v) ==> v == digits_value(s@.subrange(lo as int, hi as int)),
{
    let ghost p = s@.subrange(lo as int, hi as int);
    if lo == hi {
        return None;
    }
    let mut acc: u64 = 0;
    let mut i: usize = lo;
    while i < hi
        invariant
            lo <= i <= hi <= s@.len(),
            p == s@.subrange(lo as int, hi as int),
            all_digits(p.take(i - lo)),
            acc == digits_value(p.take(i - lo)),
        decreases hi - i,
    {
        let c = s.get_char(i);
        proof {
            assert(p[i - lo] == s@[i as int]);
        }
        let u: u32 = c as u32;
        let zero: u32 = '0' as u32;
        let nine: u32 = '9' as u32;
        if u < zero || nine < u {
            proof {
                assert(!is_digit(p[i - lo]));
            }
            return None;
        }
        let d: u64 = (u - zero) as u64;
        proof {
            assert(p.take(i - lo + 1).drop_last() =~= p.take(i - lo));
            assert(p.take(i - lo + 1).last() == p[i - lo]);
            assert(d == digit_val(p[i - lo]));
        }
        let next = match acc.checked_mul(10) {
            Some(m) => m.checked_add(d),
            None => None,
        };
        match next {
            Some(v) => {
                acc = v;
            }
            None => {
                proof {
                    assert(digits_value(p.take(i - lo + 1)) > u64::MAX);
                    if all_digits(p) {
                        lemma_digits_value_take_le(p, i - lo + 1);
                    }
                }
                return None;
            }
        }
        i += 1;
    }
    proof {
        assert(p.take(hi - lo) =~= p);
    }
    Some(acc)
}

/// Extracts the integer part of a string: the digits before the first `'.'`
/// (the whole string when it has none), parsed as an unsigned 64-bit
/// integer. A value such as `"123.0"` yields `123`; a string whose integer
/// prefix is empty, out of range, or not all digits is `Malformed`.
pub fn integer_part(value: &str) -> (r: Result<u64, ConfigError>)
    ensures
        r is Ok <==> parses_as_u64(integer_prefix(value@)),
        r matches Ok(v) ==> v == digits_value(integer_prefix(value@)),
        r matches Err(e) ==> e == ConfigError::Malformed,
{
    let len = value.unicode_len();
    let mut dot: usize = 0;
    while dot < len && value.get_char(dot) != '.'
        invariant
            dot <= len,
            len == value@.len(),
            forall|j: int| 0 <= j < dot ==> value@[j] != '.',
        decreases len - dot,
    {
        dot += 1;
    }
    proof {
        lemma_index_of_first_is(value@, '.', dot as int);
        assert(value@.take(dot as int) =~= value@.subrange(0, dot as int));
    }
    match parse_u64_digits(value, 0, dot) {
        Some(v) => Ok(v),
        None => Err(ConfigError::Malformed),
    }
}

/// Resolves the operator role identifier from its raw configuration value.
/// An absent value fails with `Missing`; a present value whose integer
/// prefix does not parse — the empty string included — fails with
/// `Malformed`.
pub fn resolve_role_id(raw: Option<&str>) -> (r: Result<u64, ConfigError>)
    ensures
        raw is None ==> r == Err::<u64, ConfigError>(ConfigError::Missing),
        raw matches Some(s) ==> {
            &&& (r is Ok <==> parses_as_u64(integer_prefix(s@)))
            &&& (r matches Ok(v) ==> v == digits_value(integer_prefix(s@)))
            &&& (r matches Err(e) ==> e == ConfigError::Malformed)
        },
{
    match raw {
        None => Err(ConfigError::Missing),
        Some(s) => integer_part(s),
    }
}

/// An ASCII whitespace character, as trimmed from allow-list entries.
pub open spec fn is_space(c: char) -> bool {
    c == ' ' || c == '\t' || c == '\n' || c == '\r'
}

/// `s` without its leading whitespace.
pub open spec fn trim_start_spec(s: Seq<char>) -> Seq<char>
    decreases s.len(),
{
    if s.len() > 0 && is_space(s[0]) {
        trim_start_spec(s.skip(1))
    } else {
        s
    }
}

/// `s` without its trailing whitespace.
pub open spec fn trim_end_spec(s: Seq<char>) -> Seq<char>
    decreases s.len(),
{
    if s.len() > 0 && is_space(s.last()) {
        trim_end_spec(s.drop_last())
    } else {
        s
    }
}

/// `s` without its leading and trailing whitespace.
pub open spec fn trim_spec(s: Seq<char>) -> Seq<char> {
    trim_end_spec(trim_start_spec(s))
}

/// The comma-separated pieces of `s`, in order. As with splitting a string,
/// the empty sequence yields one empty piece.
pub open spec fn comma_tokens(s: Seq<char>) -> Seq<Seq<char>>
    decreases s.len(),
{
    let k = index_of_first(s, ',');
    if k >= s.len() {
        seq![s]
    } else {
        seq![s.take(k as int)] + comma_tokens(s.skip(k as int + 1))
    }
}

/// The allow-list entries among `toks`, in order: each token trimmed and,
/// when it denotes an unsigned 64-bit integer, parsed; every other token is
/// dropped without an error.
pub open spec fn allow_entries(toks: Seq<Seq<char>>) -> Seq<u64>
    decreases toks.len(),
{
    if toks.len() == 0 {
        Seq::empty()
    } else if parses_as_u64(trim_spec(toks[0])) {
        seq![digits_value(trim_spec(toks[0])) as u64] + allow_entries(toks.skip(1))
    } else {
        allow_entries(toks.skip(1))
    }
}

/// The allow list denoted by a raw comma-separated configuration string.
pub open spec fn allow_list_of(s: Seq<char>) -> Seq<u64> {
    allow_entries(comma_tokens(s))
}

/// Whether `c` is trimmed as whitespace.
fn is_space_char(c: char) -> (r: bool)
    ensures
        r == is_space(c),
{
    c == ' ' || c == '\t' || c == '\n' || c == '\r'
}

/// Trims `s[lo..hi]` and parses what is left as an unsigned 64-bit decimal
/// integer: `Some` exactly when the trimmed piece parses.
fn parse_allow_entry(s: &str, lo: usize, hi: usize) -> (r: Option<u64>)
    requires
        lo <= hi <= s@.len(),
    ensures
        r is Some <==> parses_as_u64(trim_spec(s@.subrange(lo as int, hi as int))),
        r matches Some(v) ==> v == digits_value(trim_spec(s@.subrange(lo as int, hi as int))),
{
    let ghost t0 = s@.subrange(lo as int, hi as int);
    let mut a = lo;
    let mut b = hi;
    while a < b && is_space_char(s.get_char(a))
        invariant
            lo <= a <= b,
            b == hi,
            hi <= s@.len(),
            t0 == s@.subrange(lo as int, hi as int),
            trim_start_spec(t0) == trim_start_spec(s@.subrange(a as int, hi as int)),
        decreases b - a,
    {
        proof {
            assert(s@.subrange(a as int, hi as int)[0] == s@[a as int]);
            assert(s@.subrange(a as int, hi as int).skip(1) =~= s@.subrange(a + 1, hi as int));
        }
        a += 1;
    }
    proof {
        if a < hi {
            assert(s@.subrange(a as int, hi as int)[0] == s@[a as int]);
        }
        assert(trim_start_spec(t0) == s@.subrange(a as int, hi as int));
    }
    while b > a && is_space_char(s.get_char(b - 1))
        invariant
            lo <= a <= b <= hi <= s@.len(),
            trim_start_spec(t0) == s@.subrange(a as int, hi as int),
            trim_end_spec(s@.subrange(a as int, hi as int)) == trim_end_spec(
                s@.subrange(a as int, b as int),
            ),
        decreases b,
    {
        proof {
            assert(s@.subrange(a as int, b as int).last() == s@[b - 1]);
            assert(s@.subrange(a as int, b as int).drop_last() =~= s@.subrange(a as int, b - 1));
        }
        b -= 1;
    }
    proof {
        if a < b {
            assert(s@.subrange(a as int, b as int).last() == s@[b - 1]);
        }
        assert(trim_end_spec(s@.subrange(a as int, b as int)) == s@.subrange(a as int, b as int));
        assert(trim_spec(t0) == s@.subrange(a as int, b as int));
    }
    parse_u64_digits(s, a, b)
}

/// Splits `s` on commas, trims each piece, and keeps the pieces that parse
/// as unsigned 64-bit integers, in order; malformed and empty pieces are
/// dropped without an error.
pub fn parse_allow_list(s: &str) -> (r: Vec<u64>)
    ensures
        r@ == allow_list_of(s@),
{
    let len = s.unicode_len();
    let mut r: Vec<u64> = Vec::new();
    let mut start: usize = 0;
    proof {
        assert(s@.skip(0) =~= s@);
        assert(Seq::<u64>::empty() + allow_entries(comma_tokens(s@)) =~= allow_entries(
            comma_tokens(s@),
        ));
    }
    loop
        invariant_except_break
            allow_list_of(s@) == r@ + allow_entries(comma_tokens(s@.skip(start as int))),
        invariant
            start <= len,
            len == s@.len(),
        ensures
            r@ == allow_list_of(s@),
        decreases len - start,
    {
        let ghost r_before = r@;
        let ghost suf = s@.skip(start as int);
        let mut k: usize = start;
        while k < len && s.get_char(k) != ','
            invariant
                start <= k <= len,
                len == s@.len(),
                forall|j: int| start <= j < k ==> s@[j] != ',',
            decreases len - k,
        {
            k += 1;
        }
        proof {
            assert forall|j: int| 0 <= j < k - start implies suf[j] != ',' by {
                assert(suf[j] == s@[start + j]);
            }
            if k < len {
                assert(suf[k - start] == s@[k as int]);
            }
            lemma_index_of_first_is(suf, ',', k - start);
        }
        let entry = parse_allow_entry(s, start, k);
        match entry {
            Some(v) => {
                r.push(v);
            }
            None => {}
        }
        if k == len {
            proof {
                assert(suf =~= s@.subrange(start as int, k as int));
                assert(comma_tokens(suf) == seq![s@.subrange(start as int, k as int)]);
                assert(comma_tokens(suf).skip(1) =~= Seq::<Seq<char>>::empty());
                assert(allow_entries(comma_tokens(suf).skip(1)) == Seq::<u64>::empty());
                match entry {
                    Some(v) => {
                        assert(allow_entries(comma_tokens(suf)) =~= seq![v]);
                        assert(r@ == r_before + seq![v]);
                        assert(r_before + allow_entries(comma_tokens(suf)) =~= r@);
                    }
                    None => {
                        assert(allow_entries(comma_tokens(suf)) =~= Seq::<u64>::empty());
                        assert(r_before + allow_entries(comma_tokens(suf)) =~= r@);
                    }
                }
            }
            break;
        }
        proof {
            let rest = s@.skip(k + 1);
            assert(suf.take(k - start) =~= s@.subrange(start as int, k as int));
            assert(suf.skip(k - start + 1) =~= rest);
            assert(comma_tokens(suf) == seq![s@.subrange(start as int, k as int)]
                + comma_tokens(rest));
            assert(comma_tokens(suf)[0] == s@.subrange(start as int, k as int));
            assert(comma_tokens(suf).skip(1) =~= comma_tokens(rest));
            match entry {
                Some(v) => {
                    assert(allow_entries(comma_tokens(suf)) =~= seq![v]
                        + allow_entries(comma_tokens(rest)));
                    assert(r@ == r_before + seq![v]);
                    assert(r_before + allow_entries(comma_tokens(suf)) =~= r@
                        + allow_entries(comma_tokens(rest)));
                }
                None => {
                    assert(allow_entries(comma_tokens(suf)) =~= allow_entries(
                        comma_tokens(rest),
                    ));
                    assert(r_before + allow_entries(comma_tokens(suf)) =~= r@
                        + allow_entries(comma_tokens(rest)));
                }
            }
        }
        start = k + 1;
    }
    r
}

/// Resolves the allow list from its raw configuration value: the value is
/// split on commas, each piece is trimmed, and the pieces that denote
/// unsigned 64-bit integers are kept. An absent value yields the empty
/// list, the lenient reading of a missing allow list.
pub fn resolve_allow_list(raw: Option<&str>) -> (r: Vec<u64>)
    ensures
        raw matches Some(s) ==> r@ == allow_list_of(s@),
        raw is None ==> r@ == Seq::<u64>::empty(),
{
    match raw {
        None => Vec::new(),
        Some(s) => parse_allow_list(s),
    }
}

/// Resolves the display name of the operator role: the raw value when it is
/// present and non-empty, and the default name `"Operator"` otherwise.
pub fn resolve_role_name(raw: Option<String>) -> (r: String)
    ensures
        match raw {
            Some(n) => if n@.len() > 0 {
                r@ == n@
            } else {
                r@ == "Operator"@
            },
            None => r@ == "Operator"@,
        },
{
    match raw {
        Some(n) => {
            if !n.as_str().is_empty() {
                n
            } else {
                "Operator".to_owned()
            }
        }
        None => "Operator".to_owned(),
    }
}

/// The resolved policy, read once at startup and read-only thereafter:
/// which role op and deop grant and revoke, the display name the role path
/// checks, and the allow list of standing identifiers.
pub struct Config {
    pub operator_role_id: u64,
    pub operator_role_name: String,
    pub allow_list: Vec<u64>,
}

impl Config {
    /// Resolves the whole policy from the three raw configuration values.
    /// An absent or malformed role identifier is fatal; the role name
    /// defaults to `"Operator"`; a missing allow list is read as empty.
    pub fn resolve(
        role_id_raw: Option<&str>,
        role_name_raw: Option<String>,
        allow_raw: Option<&str>,
    ) -> (r: Result<Config, ConfigError>)
        ensures
            role_id_raw is None ==> r == Err::<Config, ConfigError>(ConfigError::Missing),
            role_id_raw matches Some(s) ==> {
                &&& (r is Ok <==> parses_as_u64(integer_prefix(s@)))
                &&& (r is Err ==> r == Err::<Config, ConfigError>(ConfigError::Malformed))
                &&& (r matches Ok(c) ==> c.operator_role_id == digits_value(integer_prefix(s@)))
            },
            r matches Ok(c) ==> {
                &&& (match role_name_raw {
                    Some(n) => if n@.len() > 0 {
                        c.operator_role_name@ == n@
                    } else {
                        c.operator_role_name@ == "Operator"@
                    },
                    None => c.operator_role_name@ == "Operator"@,
                })
                &&& (match allow_raw {
                    Some(a) => c.allow_list@ == allow_list_of(a@),
                    None => c.allow_list@ == Seq::<u64>::empty(),
                })
            },
    {
        let operator_role_id = match resolve_role_id(role_id_raw) {
            Ok(v) => v,
            Err(e) => {
                return Err(e);
            }
        };
        Ok(
            Config {
                operator_role_id,
                operator_role_name: resolve_role_name(role_name_raw),
                allow_list: resolve_allow_list(allow_raw),
            },
        )
    }
}

/// Law: in a string of the form `<digits>.<suffix>`, the integer prefix is
/// exactly `<digits>`, whatever the suffix holds; and when those digits
/// denote an in-range, non-empty number, that string parses.
pub proof fn lemma_integer_prefix_dotted(d: Seq<char>, suffix: Seq<char>)
    requires
        all_digits(d),
    ensures
        integer_prefix(d + seq!['.'] + suffix) == d,
        d.len() > 0 && digits_value(d) <= u64::MAX ==> parses_as_u64(
            integer_prefix(d + seq!['.'] + suffix),
        ),
{
    let s = d + seq!['.'] + suffix;
    assert forall|j: int| 0 <= j < d.len() implies s[j] != '.' by {
        assert(s[j] == d[j]);
        assert(is_digit(d[j]));
    }
    assert(s[d.len() as int] == '.');
    lemma_index_of_first_is(s, '.', d.len() as int);
    assert(s.take(d.len() as int) =~= d);
}

/// Law: a string of digits without a dot is its own integer prefix, so it
/// parses as itself whenever it is non-empty and in range.
pub proof fn lemma_integer_prefix_all_digits(d: Seq<char>)
    requires
        all_digits(d),
    ensures
        integer_prefix(d) == d,
{
    assert forall|j: int| 0 <= j < d.len() implies d[j] != '.' by {
        assert(is_digit(d[j]));
    }
    lemma_index_of_first_is(d, '.', d.len() as int);
    assert(d.take(d.len() as int) =~= d);
}

} // verus!
