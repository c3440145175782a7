//! The grammar of indicator reference names: which indicator, with which
//! parameters, a name such as `sma20` or `macd_12_26_9_line` selects.
use vstd::prelude::*;
use crate::utils::decimal::{all_digits, decimal, is_digit, parse_usize, parsed_usize, lemma_decimal_denotes, lemma_parse_decimal};
use super::indicator_ref::{numbered, macd_name, stoch_name};

verus! {

/// Which line of a MACD a reference reads.
#[derive(Debug, Clone, Copy, PartialEq, Eq, Structural)]
pub enum MacdLine {
    /// The MACD line (`_line`).
    Macd,
    /// The signal line (`_signal`).
    Signal,
}

/// Which line of a stochastic oscillator a reference reads.
#[derive(Debug, Clone, Copy, PartialEq, Eq, Structural)]
pub enum StochLine {
    /// %K (`_k`).
    K,
    /// %D (`_d`).
    D,
}

/// Which band of Bollinger Bands a reference reads.
#[derive(Debug, Clone, Copy, PartialEq, Eq, Structural)]
pub enum Band {
    Upper,
    Middle,
    Lower,
}

/// The indicator a reference name selects, with its parameters. `T` is the
/// text of the Bollinger width, which the caller reads as a number.
#[derive(Debug, Clone, PartialEq)]
pub enum IndicatorSpec<T> {
    /// `sma{period}`
    Sma(usize),
    /// `ema{period}`
    Ema(usize),
    /// `rsi{period}`
    Rsi(usize),
    /// `atr{period}`
    Atr(usize),
    /// `macd_{fast}_{slow}_{signal}_line` or `..._signal`
    Macd(usize, usize, usize, MacdLine),
    /// `stoch_{k}_{d}_k` or `..._d`
    Stoch(usize, usize, StochLine),
    /// `bb_{period}_{width}_upper`, `..._middle` or `..._lower`
    Bollinger(usize, T, Band),
    /// `volume_sma_{period}`
    VolumeSma(usize),
    /// `obv`
    Obv,
    /// `pivot_points`
    PivotPoints,
}

impl View for IndicatorSpec<String> {
    type V = IndicatorSpec<Seq<char>>;

    open spec fn view(&self) -> IndicatorSpec<Seq<char>> {
        match self {
            IndicatorSpec::Sma(p) => IndicatorSpec::Sma(*p),
            IndicatorSpec::Ema(p) => IndicatorSpec::Ema(*p),
            IndicatorSpec::Rsi(p) => IndicatorSpec::Rsi(*p),
            IndicatorSpec::Atr(p) => IndicatorSpec::Atr(*p),
            IndicatorSpec::Macd(f, s, g, l) => IndicatorSpec::Macd(*f, *s, *g, *l),
            IndicatorSpec::Stoch(k, d, l) => IndicatorSpec::Stoch(*k, *d, *l),
            IndicatorSpec::Bollinger(p, t, b) => IndicatorSpec::Bollinger(*p, t@, *b),
            IndicatorSpec::VolumeSma(p) => IndicatorSpec::VolumeSma(*p),
            IndicatorSpec::Obv => IndicatorSpec::Obv,
            IndicatorSpec::PivotPoints => IndicatorSpec::PivotPoints,
        }
    }
}

/// `s` begins with `p`.
pub open spec fn has_prefix(s: Seq<char>, p: Seq<char>) -> bool {
    p.len() <= s.len() && s.take(p.len() as int) == p
}

/// `s` ends with `p`.
pub open spec fn has_suffix(s: Seq<char>, p: Seq<char>) -> bool {
    p.len() <= s.len() && s.skip(s.len() - p.len()) == p
}

/// `s` without its last `p.len()` characters.
pub open spec fn without_suffix(s: Seq<char>, p: Seq<char>) -> Seq<char> {
    s.take(s.len() - p.len())
}

/// The position of the first `_` in `s`, if any.
pub open spec fn first_underscore(s: Seq<char>) -> Option<nat>
    decreases s.len(),
{
    if s.len() == 0 {
        None
    } else if s[0] == '_' {
        Some(0)
    } else {
        match first_underscore(s.drop_first()) {
            Some(i) => Some(i + 1),
            None => None,
        }
    }
}

/// `s` read as a `usize` (see `parsed_usize`).
pub open spec fn usize_of(s: Seq<char>) -> Option<usize> {
    match parsed_usize(s) {
        Some(n) => Some(n as usize),
        None => None,
    }
}

/// `s` cut at its first `_` into the text before and the text after it.
pub open spec fn split_underscore(s: Seq<char>) -> Option<(Seq<char>, Seq<char>)> {
    match first_underscore(s) {
        Some(i) => Some((s.take(i as int), s.skip(i as int + 1))),
        None => None,
    }
}

/// `s` read as `{a}_{b}`, two `usize` values.
pub open spec fn two_numbers(s: Seq<char>) -> Option<(usize, usize)> {
    match split_underscore(s) {
        Some((a, b)) => match (usize_of(a), usize_of(b)) {
            (Some(x), Some(y)) => Some((x, y)),
            _ => None,
        },
        None => None,
    }
}

/// `s` read as `{a}_{b}_{c}`, three `usize` values.
pub open spec fn three_numbers(s: Seq<char>) -> Option<(usize, usize, usize)> {
    match split_underscore(s) {
        Some((a, b)) => match (usize_of(a), two_numbers(b)) {
            (Some(x), Some((y, z))) => Some((x, y, z)),
            _ => None,
        },
        None => None,
    }
}

/// The MACD reference whose parameters are `n`, reading line `line`.
pub open spec fn macd_of(n: Option<(usize, usize, usize)>, line: MacdLine) -> Option<IndicatorSpec<Seq<char>>> {
    match n {
        Some((f, s, g)) => Some(IndicatorSpec::Macd(f, s, g, line)),
        None => None,
    }
}

/// The stochastic reference whose parameters are `n`, reading line `line`.
pub open spec fn stoch_of(n: Option<(usize, usize)>, line: StochLine) -> Option<IndicatorSpec<Seq<char>>> {
    match n {
        Some((k, d)) => Some(IndicatorSpec::Stoch(k, d, line)),
        None => None,
    }
}

/// The Bollinger reference written `{period}_{width}` in `s`, reading `band`.
pub open spec fn bands_of(s: Seq<char>, band: Band) -> Option<IndicatorSpec<Seq<char>>> {
    match split_underscore(s) {
        Some((a, t)) => match usize_of(a) {
            Some(p) => Some(IndicatorSpec::Bollinger(p, t, band)),
            None => None,
        },
        None => None,
    }
}

/// What follows `macd_` in a name.
pub open spec fn parsed_macd(body: Seq<char>) -> Option<IndicatorSpec<Seq<char>>> {
    if has_suffix(body, "_line"@) {
        macd_of(three_numbers(without_suffix(body, "_line"@)), MacdLine::Macd)
    } else if has_suffix(body, "_signal"@) {
        macd_of(three_numbers(without_suffix(body, "_signal"@)), MacdLine::Signal)
    } else {
        None
    }
}

/// What follows `stoch_` in a name.
pub open spec fn parsed_stoch(body: Seq<char>) -> Option<IndicatorSpec<Seq<char>>> {
    if has_suffix(body, "_k"@) {
        stoch_of(two_numbers(without_suffix(body, "_k"@)), StochLine::K)
    } else if has_suffix(body, "_d"@) {
        stoch_of(two_numbers(without_suffix(body, "_d"@)), StochLine::D)
    } else {
        None
    }
}

/// What follows `bb_` in a name.
pub open spec fn parsed_bands(body: Seq<char>) -> Option<IndicatorSpec<Seq<char>>> {
    if has_suffix(body, "_upper"@) {
        bands_of(without_suffix(body, "_upper"@), Band::Upper)
    } else if has_suffix(body, "_middle"@) {
        bands_of(without_suffix(body, "_middle"@), Band::Middle)
    } else if has_suffix(body, "_lower"@) {
        bands_of(without_suffix(body, "_lower"@), Band::Lower)
    } else {
        None
    }
}

/// The indicator a reference name selects: `sma`, `ema`, `rsi` or `atr`
/// followed by a period (tried in that order), `obv`, `pivot_points`,
/// `volume_sma_{period}`, `macd_{fast}_{slow}_{signal}_line|_signal`,
/// `stoch_{k}_{d}_k|_d`, `bb_{period}_{width}_upper|_middle|_lower`.
pub open spec fn parsed_indicator(name: Seq<char>) -> Option<IndicatorSpec<Seq<char>>> {
    if has_prefix(name, "sma"@) && usize_of(name.skip(3)) is Some {
        Some(IndicatorSpec::Sma(usize_of(name.skip(3)).unwrap()))
    } else if has_prefix(name, "ema"@) && usize_of(name.skip(3)) is Some {
        Some(IndicatorSpec::Ema(usize_of(name.skip(3)).unwrap()))
    } else if has_prefix(name, "rsi"@) && usize_of(name.skip(3)) is Some {
        Some(IndicatorSpec::Rsi(usize_of(name.skip(3)).unwrap()))
    } else if has_prefix(name, "atr"@) && usize_of(name.skip(3)) is Some {
        Some(IndicatorSpec::Atr(usize_of(name.skip(3)).unwrap()))
    } else if name == "obv"@ {
        Some(IndicatorSpec::Obv)
    } else if name == "pivot_points"@ {
        Some(IndicatorSpec::PivotPoints)
    } else if has_prefix(name, "volume_sma_"@) {
        match usize_of(name.skip(11)) {
            Some(p) => Some(IndicatorSpec::VolumeSma(p)),
            None => None,
        }
    } else if has_prefix(name, "macd_"@) {
        parsed_macd(name.skip(5))
    } else if has_prefix(name, "stoch_"@) {
        parsed_stoch(name.skip(6))
    } else if has_prefix(name, "bb_"@) {
        parsed_bands(name.skip(3))
    } else {
        None
    }
}

/// The indicator has a period (window length) of zero.
pub open spec fn has_zero_period(x: IndicatorSpec<Seq<char>>) -> bool {
    match x {
        IndicatorSpec::Sma(p) => p == 0,
        IndicatorSpec::Ema(p) => p == 0,
        IndicatorSpec::Rsi(p) => p == 0,
        IndicatorSpec::Atr(p) => p == 0,
        IndicatorSpec::Macd(f, s, g, _) => f == 0 || s == 0 || g == 0,
        IndicatorSpec::Stoch(k, d, _) => k == 0 || d == 0,
        IndicatorSpec::Bollinger(p, _, _) => p == 0,
        IndicatorSpec::VolumeSma(p) => p == 0,
        IndicatorSpec::Obv => false,
        IndicatorSpec::PivotPoints => false,
    }
}

/// The name selects an indicator with a period of zero.
pub open spec fn names_zero_period(name: Seq<char>) -> bool {
    match parsed_indicator(name) {
        Some(x) => has_zero_period(x),
        None => false,
    }
}

/// The suffix that selects each Bollinger band.
pub open spec fn band_suffix(b: Band) -> Seq<char> {
    match b {
        Band::Upper => "_upper"@,
        Band::Middle => "_middle"@,
        Band::Lower => "_lower"@,
    }
}

/// The reference name that selects `x`, as the `IndicatorRef` constructors
/// write it (for Bollinger Bands, with the width already written as text).
pub open spec fn indicator_name(x: IndicatorSpec<Seq<char>>) -> Seq<char> {
    match x {
        IndicatorSpec::Sma(p) => numbered("sma"@, p as nat),
        IndicatorSpec::Ema(p) => numbered("ema"@, p as nat),
        IndicatorSpec::Rsi(p) => numbered("rsi"@, p as nat),
        IndicatorSpec::Atr(p) => numbered("atr"@, p as nat),
        IndicatorSpec::Macd(f, s, g, MacdLine::Macd) => macd_name(f as nat, s as nat, g as nat, "_line"@),
        IndicatorSpec::Macd(f, s, g, MacdLine::Signal) => macd_name(f as nat, s as nat, g as nat, "_signal"@),
        IndicatorSpec::Stoch(k, d, StochLine::K) => stoch_name(k as nat, d as nat, "_k"@),
        IndicatorSpec::Stoch(k, d, StochLine::D) => stoch_name(k as nat, d as nat, "_d"@),
        IndicatorSpec::Bollinger(p, t, b) => "bb_"@ + decimal(p as nat) + "_"@ + t + band_suffix(b),
        IndicatorSpec::VolumeSma(p) => numbered("volume_sma_"@, p as nat),
        IndicatorSpec::Obv => "obv"@,
        IndicatorSpec::PivotPoints => "pivot_points"@,
    }
}

proof fn lemma_concat_prefix(a: Seq<char>, b: Seq<char>)
    ensures
        has_prefix(a + b, a),
        (a + b).skip(a.len() as int) == b,
{
    assert((a + b).take(a.len() as int) =~= a);
    assert((a + b).skip(a.len() as int) =~= b);
}

proof fn lemma_concat_suffix(a: Seq<char>, b: Seq<char>)
    ensures
        has_suffix(a + b, b),
        without_suffix(a + b, b) == a,
{
    assert((a + b).skip(a.len() as int) =~= b);
    assert((a + b).take(a.len() as int) =~= a);
}

proof fn lemma_not_prefix(s: Seq<char>, p: Seq<char>, i: int)
    requires
        0 <= i < p.len(),
        i < s.len(),
        s[i] != p[i],
    ensures
        !has_prefix(s, p),
{
    if has_prefix(s, p) {
        assert(s.take(p.len() as int)[i] == s[i]);
    }
}

proof fn lemma_not_suffix(s: Seq<char>, p: Seq<char>, i: int)
    requires
        0 <= i < p.len() <= s.len(),
        s[s.len() - p.len() + i] != p[i],
    ensures
        !has_suffix(s, p),
{
    if has_suffix(s, p) {
        assert(s.skip(s.len() - p.len())[i] == s[s.len() - p.len() + i]);
    }
}

proof fn lemma_split_digits(d: Seq<char>, t: Seq<char>)
    requires
        all_digits(d),
    ensures
        split_underscore(d + "_"@ + t) == Some((d, t)),
{
    reveal_strlit("_");
    let s = d + "_"@ + t;
    assert forall|j: int| 0 <= j < d.len() implies s[j] != '_' by {
        assert(s[j] == d[j]);
        assert(is_digit(d[j]));
    }
    lemma_first_underscore_at(s, d.len() as int);
    assert(s.take(d.len() as int) =~= d);
    assert(s.skip(d.len() as int + 1) =~= t);
}

proof fn lemma_number(p: usize)
    ensures
        usize_of(decimal(p as nat)) == Some(p),
        all_digits(decimal(p as nat)),
        decimal(p as nat).len() > 0,
{
    lemma_parse_decimal(p);
    lemma_decimal_denotes(p as nat);
}

proof fn lemma_two_round_trip(a: usize, b: usize)
    ensures
        two_numbers(decimal(a as nat) + "_"@ + decimal(b as nat)) == Some((a, b)),
{
    lemma_number(a);
    lemma_number(b);
    lemma_split_digits(decimal(a as nat), decimal(b as nat));
}

proof fn lemma_three_round_trip(a: usize, b: usize, c: usize)
    ensures
        three_numbers(decimal(a as nat) + "_"@ + decimal(b as nat) + "_"@ + decimal(c as nat)) == Some((a, b, c)),
{
    let rest = decimal(b as nat) + "_"@ + decimal(c as nat);
    assert(decimal(a as nat) + "_"@ + decimal(b as nat) + "_"@ + decimal(c as nat) =~= decimal(a as nat) + "_"@ + rest);
    lemma_number(a);
    lemma_split_digits(decimal(a as nat), rest);
    lemma_two_round_trip(b, c);
}

/// The `sma`/`ema`/`rsi`/`atr` rules do not take a name whose first two
/// characters differ from theirs.
proof fn lemma_not_scalar(name: Seq<char>)
    requires
        name.len() >= 2,
        name[0] != 's' || name[1] != 'm',
        name[0] != 'e',
        name[0] != 'r',
        name[0] != 'a',
    ensures
        !has_prefix(name, "sma"@),
        !has_prefix(name, "ema"@),
        !has_prefix(name, "rsi"@),
        !has_prefix(name, "atr"@),
{
    reveal_strlit("sma");
    reveal_strlit("ema");
    reveal_strlit("rsi");
    reveal_strlit("atr");
    if name[0] != 's' {
        lemma_not_prefix(name, "sma"@, 0);
    } else {
        lemma_not_prefix(name, "sma"@, 1);
    }
    lemma_not_prefix(name, "ema"@, 0);
    lemma_not_prefix(name, "rsi"@, 0);
    lemma_not_prefix(name, "atr"@, 0);
}

proof fn lemma_reveal_literals()
    ensures
        "sma"@ =~= seq!['s', 'm', 'a'],
        "ema"@ =~= seq!['e', 'm', 'a'],
        "rsi"@ =~= seq!['r', 's', 'i'],
        "atr"@ =~= seq!['a', 't', 'r'],
        "obv"@ =~= seq!['o', 'b', 'v'],
        "pivot_points"@.len() == 12 && "pivot_points"@[0] == 'p',
        "volume_sma_"@.len() == 11 && "volume_sma_"@[0] == 'v',
        "macd_"@.len() == 5 && "macd_"@[0] == 'm',
        "stoch_"@.len() == 6 && "stoch_"@[0] == 's' && "stoch_"@[1] == 't',
        "bb_"@.len() == 3 && "bb_"@[0] == 'b',
        "_"@ =~= seq!['_'],
        "_line"@ =~= seq!['_', 'l', 'i', 'n', 'e'],
        "_signal"@ =~= seq!['_', 's', 'i', 'g', 'n', 'a', 'l'],
        "_k"@ =~= seq!['_', 'k'],
        "_d"@ =~= seq!['_', 'd'],
        "_upper"@ =~= seq!['_', 'u', 'p', 'p', 'e', 'r'],
        "_middle"@ =~= seq!['_', 'm', 'i', 'd', 'd', 'l', 'e'],
        "_lower"@ =~= seq!['_', 'l', 'o', 'w', 'e', 'r'],
{
    reveal_strlit("sma");
    reveal_strlit("ema");
    reveal_strlit("rsi");
    reveal_strlit("atr");
    reveal_strlit("obv");
    reveal_strlit("pivot_points");
    reveal_strlit("volume_sma_");
    reveal_strlit("macd_");
    reveal_strlit("stoch_");
    reveal_strlit("bb_");
    reveal_strlit("_");
    reveal_strlit("_line");
    reveal_strlit("_signal");
    reveal_strlit("_k");
    reveal_strlit("_d");
    reveal_strlit("_upper");
    reveal_strlit("_middle");
    reveal_strlit("_lower");
}

/// The later rules of the grammar do not take a name whose first character
/// differs from each of theirs.
proof fn lemma_not_named(name: Seq<char>)
    requires
        name.len() >= 2,
        name[0] != 's' || name[1] != 'm',
        name[0] != 'e',
        name[0] != 'r',
        name[0] != 'a',
        name[0] != 'o',
        name[0] != 'p',
    ensures
        !has_prefix(name, "sma"@),
        !has_prefix(name, "ema"@),
        !has_prefix(name, "rsi"@),
        !has_prefix(name, "atr"@),
        name != "obv"@,
        name != "pivot_points"@,
{
    lemma_reveal_literals();
    lemma_not_scalar(name);
}

proof fn lemma_round_trip_scalar(x: IndicatorSpec<Seq<char>>)
    requires
        x is Sma || x is Ema || x is Rsi || x is Atr,
    ensures
        parsed_indicator(indicator_name(x)) == Some(x),
{
    lemma_reveal_literals();
    let name = indicator_name(x);
    match x {
        IndicatorSpec::Sma(p) => {
            lemma_number(p);
            lemma_concat_prefix("sma"@, decimal(p as nat));
        },
        IndicatorSpec::Ema(p) => {
            lemma_number(p);
            lemma_concat_prefix("ema"@, decimal(p as nat));
            lemma_not_prefix(name, "sma"@, 0);
        },
        IndicatorSpec::Rsi(p) => {
            lemma_number(p);
            lemma_concat_prefix("rsi"@, decimal(p as nat));
            lemma_not_prefix(name, "sma"@, 0);
            lemma_not_prefix(name, "ema"@, 0);
        },
        IndicatorSpec::Atr(p) => {
            lemma_number(p);
            lemma_concat_prefix("atr"@, decimal(p as nat));
            lemma_not_prefix(name, "sma"@, 0);
            lemma_not_prefix(name, "ema"@, 0);
            lemma_not_prefix(name, "rsi"@, 0);
        },
        _ => {},
    }
}

proof fn lemma_round_trip_plain(x: IndicatorSpec<Seq<char>>)
    requires
        x is Obv || x is PivotPoints || x is VolumeSma,
    ensures
        parsed_indicator(indicator_name(x)) == Some(x),
{
    lemma_reveal_literals();
    let name = indicator_name(x);
    match x {
        IndicatorSpec::Obv => {
            lemma_not_scalar(name);
        },
        IndicatorSpec::PivotPoints => {
            lemma_not_scalar(name);
        },
        IndicatorSpec::VolumeSma(p) => {
            lemma_number(p);
            lemma_concat_prefix("volume_sma_"@, decimal(p as nat));
            lemma_not_named(name);
        },
        _ => {},
    }
}

proof fn lemma_macd_body(f: usize, s: usize, g: usize, line: MacdLine)
    ensures
        ({
            let suffix = match line {
                MacdLine::Macd => "_line"@,
                MacdLine::Signal => "_signal"@,
            };
            parsed_macd(decimal(f as nat) + "_"@ + decimal(s as nat) + "_"@ + decimal(g as nat) + suffix)
                == Some(IndicatorSpec::<Seq<char>>::Macd(f, s, g, line))
        }),
{
    lemma_reveal_literals();
    let core = decimal(f as nat) + "_"@ + decimal(s as nat) + "_"@ + decimal(g as nat);
    let suffix = match line {
        MacdLine::Macd => "_line"@,
        MacdLine::Signal => "_signal"@,
    };
    let body = core + suffix;
    lemma_concat_suffix(core, suffix);
    lemma_three_round_trip(f, s, g);
    if line == MacdLine::Signal {
        lemma_not_suffix(body, "_line"@, 4);
    }
}

proof fn lemma_macd_rule(name: Seq<char>)
    requires
        !has_prefix(name, "sma"@),
        !has_prefix(name, "ema"@),
        !has_prefix(name, "rsi"@),
        !has_prefix(name, "atr"@),
        name != "obv"@,
        name != "pivot_points"@,
        !has_prefix(name, "volume_sma_"@),
        has_prefix(name, "macd_"@),
    ensures
        parsed_indicator(name) == parsed_macd(name.skip(5)),
{
    reveal_strlit("macd_");
}

#[verifier::rlimit(30)]
proof fn lemma_round_trip_macd(f: usize, s: usize, g: usize, line: MacdLine)
    ensures
        parsed_indicator(indicator_name(IndicatorSpec::Macd(f, s, g, line))) == Some(IndicatorSpec::<Seq<char>>::Macd(f, s, g, line)),
{
    lemma_reveal_literals();
    let name = indicator_name(IndicatorSpec::Macd(f, s, g, line));
    let suffix = match line {
        MacdLine::Macd => "_line"@,
        MacdLine::Signal => "_signal"@,
    };
    let body = decimal(f as nat) + "_"@ + decimal(s as nat) + "_"@ + decimal(g as nat) + suffix;
    assert(name =~= "macd_"@ + body);
    lemma_concat_prefix("macd_"@, body);
    lemma_not_named(name);
    lemma_not_prefix(name, "volume_sma_"@, 0);
    lemma_macd_rule(name);
    lemma_macd_body(f, s, g, line);
}

#[verifier::rlimit(30)]
proof fn lemma_round_trip_stoch(k: usize, d: usize, line: StochLine)
    ensures
        parsed_indicator(indicator_name(IndicatorSpec::Stoch(k, d, line))) == Some(IndicatorSpec::<Seq<char>>::Stoch(k, d, line)),
{
    lemma_reveal_literals();
    let name = indicator_name(IndicatorSpec::Stoch(k, d, line));
    let core = decimal(k as nat) + "_"@ + decimal(d as nat);
    let suffix = match line {
        StochLine::K => "_k"@,
        StochLine::D => "_d"@,
    };
    let body = core + suffix;
    assert(name =~= "stoch_"@ + body);
    lemma_concat_prefix("stoch_"@, body);
    lemma_concat_suffix(core, suffix);
    lemma_two_round_trip(k, d);
    if line == StochLine::D {
        lemma_not_suffix(body, "_k"@, 1);
    }
    lemma_not_named(name);
    lemma_not_prefix(name, "volume_sma_"@, 0);
    lemma_not_prefix(name, "macd_"@, 0);
}

#[verifier::rlimit(30)]
proof fn lemma_round_trip_bands(p: usize, t: Seq<char>, b: Band)
    ensures
        parsed_indicator(indicator_name(IndicatorSpec::Bollinger(p, t, b))) == Some(IndicatorSpec::Bollinger(p, t, b)),
{
    lemma_reveal_literals();
    let name = indicator_name(IndicatorSpec::Bollinger(p, t, b));
    let core = decimal(p as nat) + "_"@ + t;
    let suffix = band_suffix(b);
    let body = core + suffix;
    assert(name =~= "bb_"@ + body);
    lemma_concat_prefix("bb_"@, body);
    lemma_concat_suffix(core, suffix);
    lemma_number(p);
    lemma_split_digits(decimal(p as nat), t);
    match b {
        Band::Upper => {},
        Band::Middle => {
            lemma_not_suffix(body, "_upper"@, 5);
        },
        Band::Lower => {
            lemma_not_suffix(body, "_upper"@, 1);
            lemma_not_suffix(body, "_middle"@, 6);
        },
    }
    lemma_not_named(name);
    lemma_not_prefix(name, "volume_sma_"@, 0);
    lemma_not_prefix(name, "macd_"@, 0);
    lemma_not_prefix(name, "stoch_"@, 0);
}

/// Law: every reference name that the `IndicatorRef` constructors build is
/// read back by `parse_indicator` as the indicator and parameters it was built
/// from.
pub proof fn lemma_indicator_name_round_trip(x: IndicatorSpec<Seq<char>>)
    ensures
        parsed_indicator(indicator_name(x)) == Some(x),
{
    match x {
        IndicatorSpec::Macd(f, s, g, line) => lemma_round_trip_macd(f, s, g, line),
        IndicatorSpec::Stoch(k, d, line) => lemma_round_trip_stoch(k, d, line),
        IndicatorSpec::Bollinger(p, t, b) => lemma_round_trip_bands(p, t, b),
        IndicatorSpec::Obv => lemma_round_trip_plain(x),
        IndicatorSpec::PivotPoints => lemma_round_trip_plain(x),
        IndicatorSpec::VolumeSma(_) => lemma_round_trip_plain(x),
        _ => lemma_round_trip_scalar(x),
    }
}

proof fn lemma_first_underscore_at(s: Seq<char>, i: int)
    requires
        0 <= i < s.len(),
        s[i] == '_',
        forall|j: int| 0 <= j < i ==> s[j] != '_',
    ensures
        first_underscore(s) == Some(i as nat),
    decreases i,
{
    if i > 0 {
        lemma_first_underscore_at(s.drop_first(), i - 1);
    }
}

proof fn lemma_first_underscore_none(s: Seq<char>)
    requires
        forall|j: int| 0 <= j < s.len() ==> s[j] != '_',
    ensures
        first_underscore(s) is None,
    decreases s.len(),
{
    if s.len() > 0 {
        lemma_first_underscore_none(s.drop_first());
    }
}

fn starts_with(s: &str, len: usize, p: &str) -> (r: bool)
    requires
        len == s@.len(),
    ensures
        r == has_prefix(s@, p@),
{
    let plen = p.unicode_len();
    if plen > len {
        return false;
    }
    let mut i: usize = 0;
    while i < plen
        invariant
            plen == p@.len(),
            plen <= len,
            len == s@.len(),
            i <= plen,
            forall|j: int| 0 <= j < i ==> s@[j] == p@[j],
        decreases plen - i,
    {
        if s.get_char(i) != p.get_char(i) {
            assert(s@.take(plen as int)[i as int] != p@[i as int]);
            return false;
        }
        i = i + 1;
    }
    assert(s@.take(plen as int) =~= p@);
    true
}

fn ends_with(s: &str, len: usize, p: &str) -> (r: bool)
    requires
        len == s@.len(),
    ensures
        r == has_suffix(s@, p@),
{
    let plen = p.unicode_len();
    if plen > len {
        return false;
    }
    let off = len - plen;
    let mut i: usize = 0;
    while i < plen
        invariant
            plen == p@.len(),
            plen <= len,
            off == len - plen,
            len == s@.len(),
            i <= plen,
            forall|j: int| 0 <= j < i ==> s@[off + j] == p@[j],
        decreases plen - i,
    {
        if s.get_char(off + i) != p.get_char(i) {
            assert(s@.skip(off as int)[i as int] != p@[i as int]);
            return false;
        }
        i = i + 1;
    }
    assert(s@.skip(off as int) =~= p@);
    true
}

fn find_underscore(s: &str, len: usize) -> (r: Option<usize>)
    requires
        len == s@.len(),
    ensures
        match r {
            Some(i) => i < len && first_underscore(s@) == Some(i as nat),
            None => first_underscore(s@) is None,
        },
{
    let mut i: usize = 0;
    while i < len
        invariant
            len == s@.len(),
            i <= len,
            forall|j: int| 0 <= j < i ==> s@[j] != '_',
        decreases len - i,
    {
        if s.get_char(i) == '_' {
            proof { lemma_first_underscore_at(s@, i as int); }
            return Some(i);
        }
        i = i + 1;
    }
    proof { lemma_first_underscore_none(s@); }
    None
}

fn read_usize(s: &str) -> (r: Option<usize>)
    ensures
        r == usize_of(s@),
{
    parse_usize(s)
}

fn read_two(s: &str) -> (r: Option<(usize, usize)>)
    ensures
        r == two_numbers(s@),
{
    let len = s.unicode_len();
    match find_underscore(s, len) {
        None => None,
        Some(i) => {
            let a = s.substring_char(0, i);
            let b = s.substring_char(i + 1, len);
            assert(a@ =~= s@.take(i as int));
            assert(b@ =~= s@.skip(i + 1));
            match (read_usize(a), read_usize(b)) {
                (Some(x), Some(y)) => Some((x, y)),
                _ => None,
            }
        },
    }
}

fn read_three(s: &str) -> (r: Option<(usize, usize, usize)>)
    ensures
        r == three_numbers(s@),
{
    let len = s.unicode_len();
    match find_underscore(s, len) {
        None => None,
        Some(i) => {
            let a = s.substring_char(0, i);
            let b = s.substring_char(i + 1, len);
            assert(a@ =~= s@.take(i as int));
            assert(b@ =~= s@.skip(i + 1));
            match (read_usize(a), read_two(b)) {
                (Some(x), Some((y, z))) => Some((x, y, z)),
                _ => None,
            }
        },
    }
}

fn read_bands(s: &str, band: Band) -> (r: Option<IndicatorSpec<String>>)
    ensures
        match r {
            Some(x) => bands_of(s@, band) == Some(x@),
            None => bands_of(s@, band) is None,
        },
{
    let len = s.unicode_len();
    match find_underscore(s, len) {
        None => None,
        Some(i) => {
            let a = s.substring_char(0, i);
            let t = s.substring_char(i + 1, len);
            assert(a@ =~= s@.take(i as int));
            assert(t@ =~= s@.skip(i + 1));
            match read_usize(a) {
                Some(p) => Some(IndicatorSpec::Bollinger(p, t.to_string(), band)),
                None => None,
            }
        },
    }
}

/// The text of `s` without its last `n` characters.
fn cut_end(s: &str, len: usize, n: usize) -> (r: &str)
    requires
        len == s@.len(),
        n <= len,
    ensures
        r@ == s@.take(len - n),
{
    let r = s.substring_char(0, len - n);
    assert(r@ =~= s@.take(len - n));
    r
}

fn read_macd(body: &str) -> (r: Option<IndicatorSpec<String>>)
    ensures
        match r {
            Some(x) => parsed_macd(body@) == Some(x@),
            None => parsed_macd(body@) is None,
        },
{
    proof {
        reveal_strlit("_line");
        reveal_strlit("_signal");
    }
    let len = body.unicode_len();
    if ends_with(body, len, "_line") {
        match read_three(cut_end(body, len, 5)) {
            Some((f, s, g)) => Some(IndicatorSpec::Macd(f, s, g, MacdLine::Macd)),
            None => None,
        }
    } else if ends_with(body, len, "_signal") {
        match read_three(cut_end(body, len, 7)) {
            Some((f, s, g)) => Some(IndicatorSpec::Macd(f, s, g, MacdLine::Signal)),
            None => None,
        }
    } else {
        None
    }
}

fn read_stoch(body: &str) -> (r: Option<IndicatorSpec<String>>)
    ensures
        match r {
            Some(x) => parsed_stoch(body@) == Some(x@),
            None => parsed_stoch(body@) is None,
        },
{
    proof {
        reveal_strlit("_k");
        reveal_strlit("_d");
    }
    let len = body.unicode_len();
    if ends_with(body, len, "_k") {
        match read_two(cut_end(body, len, 2)) {
            Some((k, d)) => Some(IndicatorSpec::Stoch(k, d, StochLine::K)),
            None => None,
        }
    } else if ends_with(body, len, "_d") {
        match read_two(cut_end(body, len, 2)) {
            Some((k, d)) => Some(IndicatorSpec::Stoch(k, d, StochLine::D)),
            None => None,
        }
    } else {
        None
    }
}

fn read_bands_body(body: &str) -> (r: Option<IndicatorSpec<String>>)
    ensures
        match r {
            Some(x) => parsed_bands(body@) == Some(x@),
            None => parsed_bands(body@) is None,
        },
{
    proof {
        reveal_strlit("_upper");
        reveal_strlit("_middle");
        reveal_strlit("_lower");
    }
    let len = body.unicode_len();
    if ends_with(body, len, "_upper") {
        read_bands(cut_end(body, len, 6), Band::Upper)
    } else if ends_with(body, len, "_middle") {
        read_bands(cut_end(body, len, 7), Band::Middle)
    } else if ends_with(body, len, "_lower") {
        read_bands(cut_end(body, len, 6), Band::Lower)
    } else {
        None
    }
}

/// Parse an indicator reference name into the indicator it selects.
pub fn parse_indicator(name: &str) -> (r: Option<IndicatorSpec<String>>)
    ensures
        match r {
            Some(x) => parsed_indicator(name@) == Some(x@),
            None => parsed_indicator(name@) is None,
        },
{
    proof {
        reveal_strlit("sma");
        reveal_strlit("ema");
        reveal_strlit("rsi");
        reveal_strlit("atr");
        reveal_strlit("volume_sma_");
        reveal_strlit("macd_");
        reveal_strlit("stoch_");
        reveal_strlit("bb_");
    }
    let len = name.unicode_len();
    if starts_with(name, len, "sma") {
        if let Some(p) = read_usize(name.substring_char(3, len)) {
            assert(name@.subrange(3, len as int) =~= name@.skip(3));
            return Some(IndicatorSpec::Sma(p));
        }
        assert(name@.subrange(3, len as int) =~= name@.skip(3));
    }
    if starts_with(name, len, "ema") {
        if let Some(p) = read_usize(name.substring_char(3, len)) {
            assert(name@.subrange(3, len as int) =~= name@.skip(3));
            return Some(IndicatorSpec::Ema(p));
        }
        assert(name@.subrange(3, len as int) =~= name@.skip(3));
    }
    if starts_with(name, len, "rsi") {
        if let Some(p) = read_usize(name.substring_char(3, len)) {
            assert(name@.subrange(3, len as int) =~= name@.skip(3));
            return Some(IndicatorSpec::Rsi(p));
        }
        assert(name@.subrange(3, len as int) =~= name@.skip(3));
    }
    if starts_with(name, len, "atr") {
        if let Some(p) = read_usize(name.substring_char(3, len)) {
            assert(name@.subrange(3, len as int) =~= name@.skip(3));
            return Some(IndicatorSpec::Atr(p));
        }
        assert(name@.subrange(3, len as int) =~= name@.skip(3));
    }
    if len == 3 && starts_with(name, len, "obv") {
        proof { reveal_strlit("obv"); assert(name@ =~= "obv"@); }
        return Some(IndicatorSpec::Obv);
    }
    proof {
        reveal_strlit("obv");
        if name@ == "obv"@ {
            assert(name@.take(3) =~= name@);
        }
    }
    if len == 12 && starts_with(name, len, "pivot_points") {
        proof { reveal_strlit("pivot_points"); assert(name@ =~= "pivot_points"@); }
        return Some(IndicatorSpec::PivotPoints);
    }
    proof {
        reveal_strlit("pivot_points");
        if name@ == "pivot_points"@ {
            assert(name@.take(12) =~= name@);
        }
    }
    if starts_with(name, len, "volume_sma_") {
        let rest = name.substring_char(11, len);
        assert(rest@ =~= name@.skip(11));
        return match read_usize(rest) {
            Some(p) => Some(IndicatorSpec::VolumeSma(p)),
            None => None,
        };
    }
    if starts_with(name, len, "macd_") {
        let rest = name.substring_char(5, len);
        assert(rest@ =~= name@.skip(5));
        return read_macd(rest);
    }
    if starts_with(name, len, "stoch_") {
        let rest = name.substring_char(6, len);
        assert(rest@ =~= name@.skip(6));
        return read_stoch(rest);
    }
    if starts_with(name, len, "bb_") {
        let rest = name.substring_char(3, len);
        assert(rest@ =~= name@.skip(3));
        return read_bands_body(rest);
    }
    None
}

/// Whether the indicator has a period of zero.
pub fn zero_period(x: &IndicatorSpec<String>) -> (r: bool)
    ensures
        r == has_zero_period(x@),
{
    match x {
        IndicatorSpec::Sma(p) => *p == 0,
        IndicatorSpec::Ema(p) => *p == 0,
        IndicatorSpec::Rsi(p) => *p == 0,
        IndicatorSpec::Atr(p) => *p == 0,
        IndicatorSpec::Macd(f, s, g, _) => *f == 0 || *s == 0 || *g == 0,
        IndicatorSpec::Stoch(k, d, _) => *k == 0 || *d == 0,
        IndicatorSpec::Bollinger(p, _, _) => *p == 0,
        IndicatorSpec::VolumeSma(p) => *p == 0,
        IndicatorSpec::Obv => false,
        IndicatorSpec::PivotPoints => false,
    }
}

} // verus!
