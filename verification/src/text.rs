//! Text operations that the proxy's rules are made of, each proved against a short
//! statement over sequences of characters.

use vstd::prelude::*;
use vstd::string::*;

verus! {

/// `s` without the run of `c` at its end.
pub open spec fn trim_end(s: Seq<char>, c: char) -> Seq<char>
    decreases s.len(),
{
    if s.len() > 0 && s.last() == c {
        trim_end(s.drop_last(), c)
    } else {
        s
    }
}

/// What stands before `suffix` at the end of `s`, if `s` ends in it.
pub open spec fn before_suffix(s: Seq<char>, suffix: Seq<char>) -> Option<Seq<char>> {
    if suffix.is_suffix_of(s) {
        Some(s.take(s.len() - suffix.len()))
    } else {
        None
    }
}

/// `c` in lower case if it is an ASCII letter, and `c` itself if it is not.
pub open spec fn lower_char(c: char) -> char {
    if 'A' <= c && c <= 'Z' {
        (c as u32 + 32) as char
    } else {
        c
    }
}

/// `s` with its ASCII letters in lower case.
pub open spec fn lower(s: Seq<char>) -> Seq<char> {
    s.map_values(|c: char| lower_char(c))
}

/// The decimal digit of `n % 10`.
pub open spec fn digit(n: nat) -> char {
    ('0' as nat + n % 10) as char
}

/// `n` in decimal, without leading zeros.
pub open spec fn decimal(n: nat) -> Seq<char>
    decreases n,
{
    if n < 10 {
        seq![digit(n)]
    } else {
        decimal(n / 10).push(digit(n))
    }
}

/// Trimming leaves a prefix, takes nothing but `c` away and leaves no `c` at the end.
pub proof fn lemma_trim_end(s: Seq<char>, c: char)
    ensures
        trim_end(s, c).is_prefix_of(s),
        forall|i: int| trim_end(s, c).len() <= i < s.len() ==> s[i] == c,
        trim_end(s, c).len() > 0 ==> trim_end(s, c).last() != c,
    decreases s.len(),
{
    if s.len() > 0 && s.last() == c {
        lemma_trim_end(s.drop_last(), c);
        assert(s.drop_last() =~= s.take(s.len() - 1));
        assert forall|i: int| trim_end(s, c).len() <= i < s.len() implies s[i] == c by {
            if i < s.len() - 1 {
                assert(s.drop_last()[i] == s[i]);
            }
        }
    }
}

/// A `c` put at the end is trimmed away again.
pub proof fn lemma_trim_end_push(s: Seq<char>, c: char)
    ensures
        trim_end(s.push(c), c) == trim_end(s, c),
{
    assert(s.push(c).drop_last() =~= s);
}

/// Two numbers that are written alike are equal.
pub proof fn lemma_decimal_injective(n: nat, m: nat)
    requires
        decimal(n) == decimal(m),
    ensures
        n == m,
    decreases n,
{
    lemma_decimal_nonempty(n);
    lemma_decimal_nonempty(m);
    assert(decimal(n).last() == digit(n));
    assert(decimal(m).last() == digit(m));
    assert(n % 10 == m % 10);
    if n >= 10 && m >= 10 {
        assert(decimal(n).drop_last() =~= decimal(n / 10));
        assert(decimal(m).drop_last() =~= decimal(m / 10));
        lemma_decimal_injective(n / 10, m / 10);
    } else if n >= 10 {
        lemma_decimal_nonempty(n / 10);
    } else if m >= 10 {
        lemma_decimal_nonempty(m / 10);
    }
}

/// A number is written with one digit at least.
proof fn lemma_decimal_nonempty(n: nat)
    ensures
        decimal(n).len() > 0,
    decreases n,
{
    if n >= 10 {
        lemma_decimal_nonempty(n / 10);
    }
}

/// Returns `s` without the run of `c` at its end.
pub fn trim_end_char(s: &str, c: char) -> (res: &str)
    ensures
        res@ == trim_end(s@, c),
        res@.is_prefix_of(s@),
        forall|i: int| res@.len() <= i < s@.len() ==> s@[i] == c,
        res@.len() > 0 ==> res@.last() != c,
{
    proof {
        lemma_trim_end(s@, c);
    }
    let mut n: usize = s.unicode_len();
    assert(s@.take(n as int) =~= s@);
    while n > 0 && s.get_char(n - 1) == c
        invariant
            n <= s@.len(),
            trim_end(s@, c) == trim_end(s@.take(n as int), c),
        decreases n,
    {
        assert(s@.take(n as int).drop_last() =~= s@.take(n - 1));
        n = n - 1;
    }
    s.substring_char(0, n)
}

/// Returns what stands before `suffix` at the end of `s`, or `None` where `s` does not end
/// in `suffix`.
pub fn strip_suffix<'a>(s: &'a str, suffix: &str) -> (res: Option<&'a str>)
    ensures
        res is Some <==> before_suffix(s@, suffix@) is Some,
        res matches Some(rest) ==> Some(rest@) == before_suffix(s@, suffix@),
        res matches Some(rest) ==> rest@ + suffix@ == s@,
        res is None ==> forall|stem: Seq<char>| s@ != #[trigger] (stem + suffix@),
{
    proof {
        assert forall|stem: Seq<char>| s@ == #[trigger] (stem + suffix@) implies before_suffix(
            s@,
            suffix@,
        ) is Some by {
            law_suffix_is_what_was_written(s@, stem, suffix@);
        }
        law_suffix_is_what_was_written(s@, s@, suffix@);
    }
    let n: usize = s.unicode_len();
    let m: usize = suffix.unicode_len();
    if m > n {
        return None;
    }
    let start: usize = n - m;
    let mut i: usize = 0;
    while i < m
        invariant
            n == s@.len(),
            m == suffix@.len(),
            start == n - m,
            m <= n,
            i <= m,
            forall|k: int| 0 <= k < i ==> suffix@[k] == s@[start + k],
        decreases m - i,
    {
        if s.get_char(start + i) != suffix.get_char(i) {
            proof {
                if suffix@.is_suffix_of(s@) {
                    assert(s@.subrange(start as int, n as int)[i as int] == suffix@[i as int]);
                }
            }
            return None;
        }
        i = i + 1;
    }
    assert(suffix@ =~= s@.subrange(start as int, n as int));
    Some(s.substring_char(0, start))
}

/// Returns `c` in lower case if it is an ASCII letter, and `c` itself if it is not.
pub fn to_lower_char(c: char) -> (res: char)
    ensures
        res == lower_char(c),
        65 <= c as int <= 90 ==> res as int == c as int + 32,
        !(65 <= c as int <= 90) ==> res == c,
{
    if 'A' <= c && c <= 'Z' {
        ((c as u8) + 32u8) as char
    } else {
        c
    }
}

/// Says whether `s`, with its ASCII letters in lower case, is `wanted`.
pub fn lowers_to(s: &str, wanted: &str) -> (res: bool)
    ensures
        res == (lower(s@) == wanted@),
{
    let n: usize = s.unicode_len();
    if wanted.unicode_len() != n {
        return false;
    }
    let mut i: usize = 0;
    while i < n
        invariant
            n == s@.len(),
            n == wanted@.len(),
            i <= n,
            forall|k: int| 0 <= k < i ==> lower_char(s@[k]) == wanted@[k],
        decreases n - i,
    {
        if to_lower_char(s.get_char(i)) != wanted.get_char(i) {
            assert(lower(s@)[i as int] != wanted@[i as int]);
            return false;
        }
        i = i + 1;
    }
    assert(lower(s@) =~= wanted@);
    true
}

/// Returns the digit of `n % 10`.
fn digit_text(n: u16) -> (res: &'static str)
    ensures
        res@ == seq![digit(n as nat)],
{
    proof {
        reveal_strlit("0");
        reveal_strlit("1");
        reveal_strlit("2");
        reveal_strlit("3");
        reveal_strlit("4");
        reveal_strlit("5");
        reveal_strlit("6");
        reveal_strlit("7");
        reveal_strlit("8");
        reveal_strlit("9");
    }
    let res: &'static str = match n % 10 {
        0 => "0",
        1 => "1",
        2 => "2",
        3 => "3",
        4 => "4",
        5 => "5",
        6 => "6",
        7 => "7",
        8 => "8",
        _ => "9",
    };
    assert(res@ =~= seq![digit(n as nat)]);
    res
}

/// Returns `n` in decimal, without leading zeros.
pub fn decimal_text(n: u16) -> (res: String)
    ensures
        res@ == decimal(n as nat),
    decreases n,
{
    let last: &'static str = digit_text(n);
    if n < 10 {
        last.to_owned()
    } else {
        let res: String = decimal_text(n / 10).concat(last);
        assert(res@ =~= decimal(n as nat / 10).push(digit(n as nat)));
        res
    }
}

/// Trimming undoes writing: whatever text does not end in `c`, with any number of `c` behind
/// it, it is that text again.
pub proof fn law_trim_end_undoes_a_run(stem: Seq<char>, run: Seq<char>, c: char)
    requires
        stem.len() > 0 ==> stem[stem.len() - 1] != c,
        forall|i: int| 0 <= i < run.len() ==> run[i] == c,
    ensures
        trim_end(stem + run, c) == stem,
    decreases run.len(),
{
    if run.len() > 0 {
        law_trim_end_undoes_a_run(stem, run.drop_last(), c);
        assert((stem + run).drop_last() =~= stem + run.drop_last());
        assert(run.last() == c);
    } else {
        assert(stem + run =~= stem);
    }
}

/// Stripping a suffix undoes writing it, and nothing is stripped from a text that is not some
/// other text with the suffix written behind it.
pub proof fn law_suffix_is_what_was_written(s: Seq<char>, stem: Seq<char>, suffix: Seq<char>)
    ensures
        before_suffix(stem + suffix, suffix) == Some(stem),
        before_suffix(s, suffix) matches Some(rest) ==> rest + suffix == s,
        before_suffix(s, suffix) is None ==> s != stem + suffix,
{
    let both = stem + suffix;
    assert(both.subrange(stem.len() as int, both.len() as int) =~= suffix);
    assert(both.take(stem.len() as int) =~= stem);
    if suffix.is_suffix_of(s) {
        assert(s.take(s.len() - suffix.len()) + suffix =~= s);
    }
}

/// The letters with the codes 65 to 90 are replaced by those 32 codes further on, and every
/// other character stays; the length stays too.
pub proof fn law_lower_moves_capitals_only(s: Seq<char>)
    ensures
        lower(s).len() == s.len(),
        forall|i: int|
            0 <= i < s.len() ==> (#[trigger] lower(s)[i]) as int == if 65 <= s[i] as int
                <= 90 {
                s[i] as int + 32
            } else {
                s[i] as int
            },
{
}

/// The last digit of a number in decimal is its remainder by ten, and what stands before it
/// is a tenth of the number in decimal, or nothing where the number has one digit.
pub proof fn law_decimal_digit_by_digit(n: nat)
    ensures
        decimal(n).len() > 0,
        decimal(n).last() as int == 48 + n % 10,
        n < 10 ==> decimal(n).drop_last() == Seq::<char>::empty(),
        n >= 10 ==> decimal(n).drop_last() == decimal(n / 10),
{
    lemma_decimal_nonempty(n);
    if n >= 10 {
        assert(decimal(n).drop_last() =~= decimal(n / 10));
    } else {
        assert(decimal(n).drop_last() =~= Seq::<char>::empty());
    }
}

} // verus!
