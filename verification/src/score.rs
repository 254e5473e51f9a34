//! Score keeping: points per food, the best score, and the text form in
//! which the best score is saved and read back.
use vstd::prelude::*;
use vstd::string::StringExecFns;

verus! {

/// Points earned for each piece of food.
pub const FOOD_POINTS: u32 = 10;

/// The score of the current run and the best score seen so far.
pub struct ScoreBoard {
    pub score: u32,
    pub high_score: u32,
}

impl ScoreBoard {
    /// The best score is never below the current score.
    pub open spec fn wf(&self) -> bool {
        self.score <= self.high_score
    }

    /// A fresh run: no points yet, with the best score loaded earlier.
    pub fn new(high_score: u32) -> (r: ScoreBoard)
        ensures
            r.wf(),
            r.score == 0,
            r.high_score == high_score,
    {
        ScoreBoard { score: 0, high_score }
    }

    /// Counts a piece of food eaten. Returns whether the score beat the best
    /// score, which then becomes the score and is to be saved.
    pub fn eat(&mut self) -> (record: bool)
        requires
            old(self).score + FOOD_POINTS <= u32::MAX,
        ensures
            final(self).score == old(self).score + FOOD_POINTS,
            record == (final(self).score > old(self).high_score),
            final(self).high_score == if record {
                final(self).score
            } else {
                old(self).high_score
            },
    {
        self.score += FOOD_POINTS;
        if self.score > self.high_score {
            self.high_score = self.score;
            true
        } else {
            false
        }
    }
}

/// Whether `c` is white space in Unicode's sense (the property `White_Space`).
pub open spec fn is_white_space(c: char) -> bool {
    ||| '\u{9}' <= c <= '\u{d}'
    ||| c == ' '
    ||| c == '\u{85}'
    ||| c == '\u{a0}'
    ||| c == '\u{1680}'
    ||| '\u{2000}' <= c <= '\u{200a}'
    ||| c == '\u{2028}'
    ||| c == '\u{2029}'
    ||| c == '\u{202f}'
    ||| c == '\u{205f}'
    ||| c == '\u{3000}'
}

/// `s` without its leading white space.
pub open spec fn trim_start(s: Seq<char>) -> Seq<char>
    decreases s.len(),
{
    if s.len() > 0 && is_white_space(s[0]) {
        trim_start(s.drop_first())
    } else {
        s
    }
}

/// `s` without its trailing white space.
pub open spec fn trim_end(s: Seq<char>) -> Seq<char>
    decreases s.len(),
{
    if s.len() > 0 && is_white_space(s.last()) {
        trim_end(s.drop_last())
    } else {
        s
    }
}

/// `s` without white space at either end.
pub open spec fn trim(s: Seq<char>) -> Seq<char> {
    trim_end(trim_start(s))
}

pub open spec fn is_digit(c: char) -> bool {
    '0' <= c <= '9'
}

/// Whether every character of `s` is a decimal digit.
pub open spec fn all_digits(s: Seq<char>) -> bool {
    forall|i: int| 0 <= i < s.len() ==> #[trigger] is_digit(s[i])
}

/// The number that the decimal digits `s` write, most significant first.
pub open spec fn digits_value(s: Seq<char>) -> nat
    decreases s.len(),
{
    if s.len() == 0 {
        0
    } else {
        digits_value(s.drop_last()) * 10 + ((s.last() as nat) - ('0' as nat)) as nat
    }
}

/// The `u32` that `s` writes in decimal, with an optional leading `+`; none
/// when `s` is empty, holds another character, or writes a number above
/// `u32::MAX`.
pub open spec fn parse_u32(s: Seq<char>) -> Option<u32> {
    let body = if s.len() > 0 && s[0] == '+' {
        s.drop_first()
    } else {
        s
    };
    if body.len() > 0 && all_digits(body) && digits_value(body) <= u32::MAX {
        Some(digits_value(body) as u32)
    } else {
        None
    }
}

/// The best score that a saved text gives: the number it holds once white
/// space is trimmed from both ends, or 0 when it holds none.
pub open spec fn high_score_of(text: Seq<char>) -> u32 {
    match parse_u32(trim(text)) {
        Some(v) => v,
        None => 0,
    }
}

/// The decimal digit of `d`.
pub open spec fn digit_char(d: nat) -> char {
    ((d + ('0' as nat)) as u32) as char
}

/// The decimal form of `n`, without leading zeros.
pub open spec fn decimal(n: nat) -> Seq<char>
    decreases n,
{
    if n < 10 {
        seq![digit_char(n)]
    } else {
        decimal(n / 10).push(digit_char(n % 10))
    }
}

/// Whether `c` is white space in Unicode's sense.
pub fn is_whitespace(c: char) -> (r: bool)
    ensures
        r == is_white_space(c),
{
    ('\u{9}' <= c && c <= '\u{d}') || c == ' ' || c == '\u{85}' || c == '\u{a0}' || c == '\u{1680}'
        || ('\u{2000}' <= c && c <= '\u{200a}') || c == '\u{2028}' || c == '\u{2029}' || c
        == '\u{202f}' || c == '\u{205f}' || c == '\u{3000}'
}

/// A number written by digits is at least the number written by any of their prefixes.
pub proof fn lemma_digits_value_prefix(s: Seq<char>, j: int)
    requires
        0 <= j <= s.len(),
    ensures
        digits_value(s.subrange(0, j)) <= digits_value(s),
    decreases s.len(),
{
    if j < s.len() {
        lemma_digits_value_prefix(s.drop_last(), j);
        assert(s.drop_last().subrange(0, j) =~= s.subrange(0, j));
    } else {
        assert(s.subrange(0, j) =~= s);
    }
}

/// The best score held by a saved text, as `high_score_of` says: white space
/// is trimmed from both ends, and what does not parse as a `u32` gives 0.
pub fn parse_high_score(text: &str) -> (r: u32)
    ensures
        r == high_score_of(text@),
{
    let mut chars: Vec<char> = Vec::new();
    for c in it: text.chars()
        invariant
            it.seq() == text@,
            chars@ == it.seq().take(it.index()),
    {
        chars.push(c);
    }
    let ghost s = text@;
    assert(chars@ =~= s);
    let n = chars.len();
    let mut start: usize = 0;
    while start < n && is_whitespace(chars[start])
        invariant
            chars@ == s,
            n == s.len(),
            start <= n,
            trim_start(s) == trim_start(s.subrange(start as int, n as int)),
        decreases n - start,
    {
        assert(s.subrange(start as int, n as int).drop_first() =~= s.subrange(
            start + 1,
            n as int,
        ));
        start = start + 1;
    }
    assert(trim_start(s) == s.subrange(start as int, n as int));
    let mut end: usize = n;
    while end > start && is_whitespace(chars[end - 1])
        invariant
            chars@ == s,
            n == s.len(),
            start <= end <= n,
            trim(s) == trim_end(s.subrange(start as int, end as int)),
        decreases end,
    {
        assert(s.subrange(start as int, end as int).drop_last() =~= s.subrange(
            start as int,
            end - 1,
        ));
        end = end - 1;
    }
    let ghost t = s.subrange(start as int, end as int);
    assert(trim(s) == t);
    let mut i = start;
    if i < end && chars[i] == '+' {
        i = i + 1;
    }
    let ghost body = s.subrange(i as int, end as int);
    assert(body =~= if t.len() > 0 && t[0] == '+' {
        t.drop_first()
    } else {
        t
    });
    if i == end {
        return 0;
    }
    let first = i;
    let mut value: u64 = 0;
    while i < end
        invariant
            chars@ == s,
            n == s.len(),
            first <= i <= end <= n,
            body == s.subrange(first as int, end as int),
            trim(s) == t,
            s == text@,
            body == if t.len() > 0 && t[0] == '+' {
                t.drop_first()
            } else {
                t
            },
            body.len() > 0,
            value == digits_value(s.subrange(first as int, i as int)),
            all_digits(s.subrange(first as int, i as int)),
            value <= u32::MAX,
        decreases end - i,
    {
        let c = chars[i];
        if !('0' <= c && c <= '9') {
            assert(!is_digit(body[i - first]));
            assert(!all_digits(body));
            assert(parse_u32(t) is None);
            return 0;
        }
        let ghost prefix = s.subrange(first as int, i + 1);
        assert(prefix.drop_last() =~= s.subrange(first as int, i as int));
        assert(prefix.last() == c);
        value = value * 10 + ((c as u32) - ('0' as u32)) as u64;
        assert(all_digits(prefix));
        if value > 0xFFFF_FFFF {
            proof {
                if all_digits(body) {
                    lemma_digits_value_prefix(body, i + 1 - first);
                    assert(body.subrange(0, i + 1 - first) =~= prefix);
                }
                assert(parse_u32(t) is None);
            }
            return 0;
        }
        i = i + 1;
    }
    assert(s.subrange(first as int, i as int) =~= body);
    value as u32
}

/// The text of the decimal digit `d`.
pub fn digit_text(d: u32) -> (r: &'static str)
    requires
        d < 10,
    ensures
        r@ == seq![digit_char(d as nat)],
{
    proof {
        reveal_strlit("0");
        reveal_strlit("1");
        reveal_strlit("2");
        reveal_strlit("3");
        reveal_strlit("4");
        reveal_strlit("5");
        reveal_strlit("6");
        reveal_strlit("7");
        reveal_strlit("8");
        reveal_strlit("9");
    }
    match d {
        0 => "0",
        1 => "1",
        2 => "2",
        3 => "3",
        4 => "4",
        5 => "5",
        6 => "6",
        7 => "7",
        8 => "8",
        _ => "9",
    }
}

/// The decimal form of a score, as it is shown and saved.
pub fn format_score(n: u32) -> (r: String)
    ensures
        r@ == decimal(n as nat),
    decreases n,
{
    if n < 10 {
        let mut text = String::new();
        text.append(digit_text(n));
        assert(text@ =~= decimal(n as nat));
        text
    } else {
        let mut text = format_score(n / 10);
        text.append(digit_text(n % 10));
        text
    }
}

/// A label followed by a score, such as `SCORE 120`.
pub fn labeled_score(label: &str, n: u32) -> (r: String)
    ensures
        r@ == label@ + decimal(n as nat),
{
    let mut text = String::new();
    text.append(label);
    let digits = format_score(n);
    text.append(digits.as_str());
    assert(text@ =~= label@ + decimal(n as nat));
    text
}

/// The digit of a number below ten is a digit, and has that number as value.
pub proof fn lemma_digit_char(d: nat)
    requires
        d < 10,
    ensures
        is_digit(digit_char(d)),
        (digit_char(d) as nat) - ('0' as nat) == d,
{
    if d == 0 {
        assert(digit_char(0) == '0');
    } else if d == 1 {
        assert(digit_char(1) == '1');
    } else if d == 2 {
        assert(digit_char(2) == '2');
    } else if d == 3 {
        assert(digit_char(3) == '3');
    } else if d == 4 {
        assert(digit_char(4) == '4');
    } else if d == 5 {
        assert(digit_char(5) == '5');
    } else if d == 6 {
        assert(digit_char(6) == '6');
    } else if d == 7 {
        assert(digit_char(7) == '7');
    } else if d == 8 {
        assert(digit_char(8) == '8');
    } else {
        assert(digit_char(9) == '9');
    }
}

/// The decimal form of `n` is a non-empty run of digits that writes `n`.
pub proof fn lemma_decimal(n: nat)
    ensures
        decimal(n).len() > 0,
        all_digits(decimal(n)),
        digits_value(decimal(n)) == n,
    decreases n,
{
    lemma_digit_char(n % 10);
    let d = decimal(n);
    if n < 10 {
        assert(d.drop_last() =~= Seq::<char>::empty());
        assert(digits_value(d.drop_last()) == 0);
        assert(n % 10 == n);
    } else {
        lemma_decimal(n / 10);
        assert(d.drop_last() =~= decimal(n / 10));
        assert(d.last() == digit_char(n % 10));
        assert(n == (n / 10) * 10 + n % 10);
        assert forall|i: int| 0 <= i < d.len() implies #[trigger] is_digit(d[i]) by {
            if i < d.len() - 1 {
                assert(d[i] == decimal(n / 10)[i]);
            }
        }
    }
}

/// The decimal form of a `u32` has at most ten digits.
pub proof fn lemma_decimal_len(n: nat)
    requires
        n <= u32::MAX,
    ensures
        decimal(n).len() <= 10,
{
    assert(pow10(10) == 10_000_000_000) by {
        reveal_with_fuel(pow10, 11);
    }
    lemma_decimal_len_below(n, 10, 10_000_000_000);
}

/// A number below `bound`, a `k`-digit power of ten, has at most `k` digits.
proof fn lemma_decimal_len_below(n: nat, k: nat, bound: nat)
    requires
        k >= 1,
        n < bound,
        bound == pow10(k),
    ensures
        decimal(n).len() <= k,
    decreases n,
{
    if n >= 10 {
        let k1 = (k - 1) as nat;
        if k1 == 0 {
            assert(pow10(1) == 10 * pow10(0));
        } else {
            assert(pow10(k) == 10 * pow10(k1));
            assert(n / 10 < pow10(k1)) by (nonlinear_arith)
                requires
                    n < 10 * pow10(k1),
            ;
            lemma_decimal_len_below(n / 10, k1, pow10(k1));
        }
    }
}

/// Ten to the power `k`.
pub open spec fn pow10(k: nat) -> nat
    decreases k,
{
    if k == 0 {
        1
    } else {
        10 * pow10((k - 1) as nat)
    }
}

/// A run of white space trims away entirely.
proof fn lemma_trim_start_all_white(t: Seq<char>)
    requires
        forall|i: int| 0 <= i < t.len() ==> is_white_space(#[trigger] t[i]),
    ensures
        trim_start(t) == Seq::<char>::empty(),
    decreases t.len(),
{
    if t.len() > 0 {
        lemma_trim_start_all_white(t.drop_first());
    } else {
        assert(t =~= Seq::<char>::empty());
    }
}

/// Trimming the start of a text with a character at its end keeps that
/// character at the end, when the text is not all white space.
proof fn lemma_trim_start_push(t: Seq<char>, c: char, k: int)
    requires
        0 <= k < t.len(),
        !is_white_space(t[k]),
    ensures
        trim_start(t.push(c)) == trim_start(t).push(c),
    decreases t.len(),
{
    if is_white_space(t[0]) {
        assert(t.push(c).drop_first() =~= t.drop_first().push(c));
        lemma_trim_start_push(t.drop_first(), c, k - 1);
    }
}

/// Trimming the start of white space followed by `c`.
proof fn lemma_trim_start_push_white(t: Seq<char>, c: char)
    requires
        forall|i: int| 0 <= i < t.len() ==> is_white_space(#[trigger] t[i]),
    ensures
        trim_start(t.push(c)) == trim_start(seq![c]),
    decreases t.len(),
{
    if t.len() > 0 {
        assert(t.push(c).drop_first() =~= t.drop_first().push(c));
        lemma_trim_start_push_white(t.drop_first(), c);
    } else {
        assert(t.push(c) =~= seq![c]);
    }
}

/// Law: white space before or after a saved text does not change the best
/// score it gives.
pub proof fn law_white_space_around_is_ignored(t: Seq<char>, c: char)
    requires
        is_white_space(c),
    ensures
        high_score_of(seq![c] + t) == high_score_of(t),
        high_score_of(t.push(c)) == high_score_of(t),
{
    assert((seq![c] + t).drop_first() =~= t);
    if exists|k: int| 0 <= k < t.len() && !is_white_space(#[trigger] t[k]) {
        let k = choose|k: int| 0 <= k < t.len() && !is_white_space(#[trigger] t[k]);
        lemma_trim_start_push(t, c, k);
        let u = trim_start(t);
        assert(u.push(c).drop_last() =~= u);
    } else {
        lemma_trim_start_push_white(t, c);
        lemma_trim_start_all_white(t);
        assert(seq![c].drop_first() =~= Seq::<char>::empty());
        assert(trim_start(Seq::<char>::empty()) == Seq::<char>::empty());
    }
}

/// Law: a best score saved with a leading `+` reads back unchanged, and a
/// saved text whose first character is a sign `-` gives 0.
pub proof fn law_signs(n: u32, t: Seq<char>)
    ensures
        high_score_of(seq!['+'] + decimal(n as nat)) == n,
        high_score_of(seq!['-'] + t) == 0,
{
    let d = decimal(n as nat);
    lemma_decimal(n as nat);
    let p = seq!['+'] + d;
    assert(p[0] == '+');
    assert(p.last() == d.last());
    assert(is_digit(d.last()));
    assert(trim_start(p) == p);
    assert(trim_end(p) == p);
    assert(p.drop_first() =~= d);
    let m = seq!['-'] + t;
    assert(m[0] == '-');
    assert(trim_start(m) == m);
    let tm = trim(m);
    if tm.len() > 0 {
        lemma_trim_end_keeps_first(m);
        assert(tm[0] == '-');
        assert(!is_digit(tm[0]));
    }
}

/// Trimming the end of a text that starts with a non-white character keeps
/// that first character.
proof fn lemma_trim_end_keeps_first(s: Seq<char>)
    requires
        s.len() > 0,
        !is_white_space(s[0]),
    ensures
        trim_end(s).len() > 0,
        trim_end(s)[0] == s[0],
    decreases s.len(),
{
    if is_white_space(s.last()) {
        assert(s.len() > 1);
        lemma_trim_end_keeps_first(s.drop_last());
    }
}

/// Law: a best score saved in its decimal form is read back unchanged.
pub proof fn law_saved_high_score_reads_back(n: u32)
    ensures
        high_score_of(decimal(n as nat)) == n,
{
    let d = decimal(n as nat);
    lemma_decimal(n as nat);
    assert(is_digit(d[0]));
    assert(is_digit(d.last()));
    assert(trim_start(d) == d);
    assert(trim_end(d) == d);
}

/// Law: the best score never falls below the score, whatever food is eaten.
pub proof fn law_eating_keeps_best_score(before: ScoreBoard, after: ScoreBoard, record: bool)
    requires
        before.wf(),
        before.score + FOOD_POINTS <= u32::MAX,
        after.score == before.score + FOOD_POINTS,
        record == (after.score > before.high_score),
        after.high_score == if record {
            after.score
        } else {
            before.high_score
        },
    ensures
        after.wf(),
        after.high_score >= before.high_score,
{
}

} // verus!
