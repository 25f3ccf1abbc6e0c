//! Numbers and searches in text.

use vstd::prelude::*;

verus! {

/// The decimal digit for a number below ten.
pub open spec fn digit_char(d: nat) -> char {
    if d == 0 {
        '0'
    } else if d == 1 {
        '1'
    } else if d == 2 {
        '2'
    } else if d == 3 {
        '3'
    } else if d == 4 {
        '4'
    } else if d == 5 {
        '5'
    } else if d == 6 {
        '6'
    } else if d == 7 {
        '7'
    } else if d == 8 {
        '8'
    } else {
        '9'
    }
}

/// A number in decimal, without leading zeros.
pub open spec fn decimal(n: nat) -> Seq<char>
    decreases n,
{
    if n < 10 {
        seq![digit_char(n)]
    } else {
        decimal(n / 10).push(digit_char(n % 10))
    }
}

/// A number in decimal with a minus sign where it is negative.
pub open spec fn signed_decimal(n: int) -> Seq<char> {
    if n < 0 {
        seq!['-'] + decimal((-n) as nat)
    } else {
        decimal(n as nat)
    }
}

/// A number in decimal, filled up with leading zeros to a width.
pub open spec fn padded_decimal(n: nat, width: nat) -> Seq<char> {
    if decimal(n).len() >= width {
        decimal(n)
    } else {
        Seq::new((width - decimal(n).len()) as nat, |i: int| '0') + decimal(n)
    }
}

/// A decimal digit.
pub open spec fn is_digit(c: char) -> bool {
    '0' <= c <= '9'
}

/// The value of a digit.
pub open spec fn digit_value(c: char) -> nat {
    (c as nat - '0' as nat) as nat
}

/// The number that a row of digits writes.
pub open spec fn digits_value(s: Seq<char>) -> nat
    decreases s.len(),
{
    if s.len() == 0 {
        0
    } else {
        digits_value(s.drop_last()) * 10 + digit_value(s.last())
    }
}

/// Only digits.
pub open spec fn all_digits(s: Seq<char>) -> bool {
    forall|i: int| 0 <= i < s.len() ==> is_digit(#[trigger] s[i])
}

/// The number that a text writes as one or more digits, if it is at most `max`.
pub open spec fn parsed_digits(s: Seq<char>, max: nat) -> Option<nat> {
    if s.len() > 0 && all_digits(s) && digits_value(s) <= max {
        Some(digits_value(s))
    } else {
        None
    }
}

/// The number that a text writes: one or more digits, after a plus sign or none, if it is at most
/// `max`.
pub open spec fn parsed_unsigned(s: Seq<char>, max: nat) -> Option<nat> {
    if s.len() > 0 && s[0] == '+' {
        parsed_digits(s.skip(1), max)
    } else {
        parsed_digits(s, max)
    }
}

/// The text of one digit.
fn digit_text(d: u8) -> (text: &'static str)
    requires
        d < 10,
    ensures
        text@ == seq![digit_char(d as nat)],
{
    proof {
        reveal_strlit("0");
        reveal_strlit("1");
        reveal_strlit("2");
        reveal_strlit("3");
        reveal_strlit("4");
        reveal_strlit("5");
        reveal_strlit("6");
        reveal_strlit("7");
        reveal_strlit("8");
        reveal_strlit("9");
    }
    match d {
        0 => "0",
        1 => "1",
        2 => "2",
        3 => "3",
        4 => "4",
        5 => "5",
        6 => "6",
        7 => "7",
        8 => "8",
        _ => "9",
    }
}

/// Writes a number in decimal at the end of a text.
pub fn push_decimal(out: &mut String, n: u64)
    ensures
        final(out)@ == old(out)@ + decimal(n as nat),
    decreases n,
{
    if n >= 10 {
        push_decimal(out, n / 10);
    }
    out.append(digit_text((n % 10) as u8));
    assert(out@ =~= old(out)@ + decimal(n as nat));
}

/// Writes a number with its sign in decimal at the end of a text.
pub fn push_signed(out: &mut String, n: i64)
    ensures
        final(out)@ == old(out)@ + signed_decimal(n as int),
{
    if n < 0 {
        proof {
            reveal_strlit("-");
        }
        out.append("-");
        push_decimal(out, (-(n + 1)) as u64 + 1);
        assert(out@ =~= old(out)@ + signed_decimal(n as int));
    } else {
        push_decimal(out, n as u64);
    }
}

/// Writes a number in decimal, filled up with leading zeros to a width, at the end of a text.
pub fn push_padded(out: &mut String, n: u64, width: usize)
    ensures
        final(out)@ == old(out)@ + padded_decimal(n as nat, width as nat),
{
    let mut digits: String = String::new();
    push_decimal(&mut digits, n);
    assert(digits@ =~= decimal(n as nat));
    let len: usize = digits.as_str().unicode_len();
    let ghost before = out@;
    let mut i: usize = len;
    assert(out@ =~= before + Seq::new(0, |j: int| '0'));
    while i < width
        invariant
            len <= i,
            len >= width ==> i == len,
            len < width ==> i <= width,
            out@ == before + Seq::new((i - len) as nat, |j: int| '0'),
        decreases width - i,
    {
        proof {
            reveal_strlit("0");
        }
        out.append("0");
        i = i + 1;
        assert(out@ =~= before + Seq::new((i - len) as nat, |j: int| '0'));
    }
    out.append(digits.as_str());
    assert(out@ =~= before + padded_decimal(n as nat, width as nat));
}

/// The characters of a text.
pub fn chars_of(s: &str) -> (chars: Vec<char>)
    ensures
        chars@ == s@,
{
    let mut chars: Vec<char> = Vec::new();
    for c in it: s.chars()
        invariant
            chars@ == it.seq().take(it.index() as int),
            it.index() == it.seq().len() ==> chars@ == it.seq(),
            it.seq() == s@,
    {
        chars.push(c);
        assert(chars@ =~= it.seq().take(it.index() + 1));
    }
    chars
}

/// Whether two texts are the same.
pub fn same_text(a: &str, b: &str) -> (same: bool)
    ensures
        same == (a@ == b@),
{
    let left: Vec<char> = chars_of(a);
    let right: Vec<char> = chars_of(b);
    if left.len() != right.len() {
        return false;
    }
    for i in 0..left.len()
        invariant
            left@ == a@,
            right@ == b@,
            left@.len() == right@.len(),
            forall|j: int| 0 <= j < i ==> left@[j] == right@[j],
    {
        if left[i] != right[i] {
            assert(a@[i as int] != b@[i as int]);
            return false;
        }
    }
    assert(left@ =~= right@);
    true
}

/// A pattern stands in a text at a place.
pub open spec fn occurs_at(s: Seq<char>, pattern: Seq<char>, i: int) -> bool {
    &&& 0 <= i
    &&& i + pattern.len() <= s.len()
    &&& s.subrange(i, i + pattern.len()) == pattern
}

/// The first place from `from` on at which a pattern stands in a text.
pub open spec fn find_from(s: Seq<char>, pattern: Seq<char>, from: int) -> Option<int>
    decreases s.len() - from + 1,
{
    if from + pattern.len() > s.len() {
        None
    } else if occurs_at(s, pattern, from) {
        Some(from)
    } else {
        find_from(s, pattern, from + 1)
    }
}

/// The first place from `from` on where a text does not hold a character.
pub open spec fn skip_char(s: Seq<char>, c: char, from: int) -> int
    decreases s.len() - from,
{
    if from >= s.len() || s[from] != c {
        from
    } else {
        skip_char(s, c, from + 1)
    }
}

/// The first place from `from` on where a text does not hold a digit.
pub open spec fn skip_digits(s: Seq<char>, from: int) -> int
    decreases s.len() - from,
{
    if from >= s.len() || !is_digit(s[from]) {
        from
    } else {
        skip_digits(s, from + 1)
    }
}

/// Whether a pattern stands in a text at a place.
fn matches_at(s: &Vec<char>, pattern: &Vec<char>, i: usize) -> (yes: bool)
    requires
        i + pattern@.len() <= s@.len(),
    ensures
        yes == occurs_at(s@, pattern@, i as int),
{
    assert(s@.len() == s.len());
    for j in 0..pattern.len()
        invariant
            i + pattern@.len() <= s@.len() <= usize::MAX,
            forall|k: int| 0 <= k < j ==> s@[i + k] == pattern@[k],
    {
        if s[i + j] != pattern[j] {
            assert(s@.subrange(i as int, i + pattern@.len())[j as int] != pattern@[j as int]);
            return false;
        }
    }
    assert(s@.subrange(i as int, i + pattern@.len()) =~= pattern@);
    true
}

/// Looks for a pattern in a text.
pub fn find(s: &Vec<char>, pattern: &Vec<char>, from: usize) -> (place: Option<usize>)
    requires
        from <= s@.len(),
    ensures
        match place {
            Some(i) => find_from(s@, pattern@, from as int) == Some(i as int) && from <= i && i
                + pattern@.len() <= s@.len() <= usize::MAX,
            None => find_from(s@, pattern@, from as int) is None,
        },
{
    let mut i: usize = from;
    while i <= s.len() && pattern.len() <= s.len() - i
        invariant
            from <= i <= s@.len() + 1,
            find_from(s@, pattern@, from as int) == find_from(s@, pattern@, i as int),
        decreases s@.len() + 1 - i,
    {
        if matches_at(s, pattern, i) {
            return Some(i);
        }
        if i == s.len() {
            assert(find_from(s@, pattern@, i + 1) is None);
            return None;
        }
        i = i + 1;
    }
    None
}

/// Steps over a character as often as it comes.
pub fn after_char(s: &Vec<char>, c: char, from: usize) -> (place: usize)
    requires
        from <= s@.len(),
    ensures
        place == skip_char(s@, c, from as int),
        from <= place <= s@.len(),
{
    let mut i: usize = from;
    while i < s.len() && s[i] == c
        invariant
            from <= i <= s@.len(),
            skip_char(s@, c, from as int) == skip_char(s@, c, i as int),
        decreases s@.len() - i,
    {
        i = i + 1;
    }
    i
}

/// Steps over the digits from a place on.
pub fn after_digits(s: &Vec<char>, from: usize) -> (place: usize)
    requires
        from <= s@.len(),
    ensures
        place == skip_digits(s@, from as int),
        from <= place <= s@.len(),
        all_digits(s@.subrange(from as int, place as int)),
{
    let mut i: usize = from;
    while i < s.len() && '0' <= s[i] && s[i] <= '9'
        invariant
            from <= i <= s@.len(),
            skip_digits(s@, from as int) == skip_digits(s@, i as int),
            forall|j: int| from <= j < i ==> is_digit(#[trigger] s@[j]),
        decreases s@.len() - i,
    {
        i = i + 1;
    }
    i
}

/// More digits make no smaller number.
proof fn lemma_digits_grow(s: Seq<char>, n: int)
    requires
        0 <= n <= s.len(),
    ensures
        digits_value(s.take(n)) <= digits_value(s),
    decreases s.len(),
{
    if n < s.len() {
        lemma_digits_grow(s.drop_last(), n);
        assert(s.drop_last().take(n) =~= s.take(n));
    } else {
        assert(s.take(n) =~= s);
    }
}

/// Reads the number that the characters between two places write in decimal, if it is at most
/// `max`.
pub fn parse_digits(s: &Vec<char>, from: usize, to: usize, max: u64) -> (n: Option<u64>)
    requires
        from <= to <= s@.len(),
    ensures
        match n {
            Some(n) => parsed_digits(s@.subrange(from as int, to as int), max as nat) == Some(
                n as nat,
            ),
            None => parsed_digits(s@.subrange(from as int, to as int), max as nat) is None,
        },
{
    let ghost word = s@.subrange(from as int, to as int);
    if from == to {
        return None;
    }
    let mut n: u64 = 0;
    assert(word.take(0) =~= Seq::empty());
    for i in from..to
        invariant
            from <= to <= s@.len(),
            word == s@.subrange(from as int, to as int),
            n == digits_value(word.take(i - from)),
            n <= max,
            forall|j: int| 0 <= j < i - from ==> is_digit(#[trigger] word[j]),
    {
        let c: char = s[i];
        proof {
            assert(word[i - from] == c);
            lemma_digits_grow(word, i + 1 - from);
            assert(word.take(i + 1 - from).drop_last() =~= word.take(i - from));
        }
        if c < '0' || c > '9' {
            return None;
        }
        let d: u64 = c as u64 - '0' as u64;
        let next: u64 = match n.checked_mul(10) {
            Some(tens) => match tens.checked_add(d) {
                Some(next) => next,
                None => {
                    return None;
                },
            },
            None => {
                return None;
            },
        };
        if next > max {
            return None;
        }
        n = next;
    }
    assert(word.take(to - from) =~= word);
    Some(n)
}

/// Reads the number that a text writes, if it is at most `max`.
pub fn parse_unsigned(s: &str, max: u64) -> (n: Option<u64>)
    ensures
        match n {
            Some(n) => parsed_unsigned(s@, max as nat) == Some(n as nat),
            None => parsed_unsigned(s@, max as nat) is None,
        },
{
    let chars: Vec<char> = chars_of(s);
    if chars.len() > 0 && chars[0] == '+' {
        assert(chars@.subrange(1, chars@.len() as int) =~= s@.skip(1));
        parse_digits(&chars, 1, chars.len(), max)
    } else {
        assert(chars@.subrange(0, chars@.len() as int) =~= s@);
        parse_digits(&chars, 0, chars.len(), max)
    }
}

/// What some strings hold.
pub open spec fn texts(strings: Seq<String>) -> Seq<Seq<char>> {
    Seq::new(strings.len(), |i: int| strings[i]@)
}

/// Texts in a row with a comma between each two.
pub open spec fn comma_joined(items: Seq<Seq<char>>) -> Seq<char>
    decreases items.len(),
{
    if items.len() <= 1 {
        if items.len() == 0 {
            Seq::empty()
        } else {
            items[0]
        }
    } else {
        comma_joined(items.drop_last()) + ","@ + items.last()
    }
}

/// Puts strings in a row with a comma between each two.
pub fn join_with_commas(items: &Vec<String>) -> (joined: String)
    ensures
        joined@ == comma_joined(texts(items@)),
{
    let mut out: String = String::new();
    let ghost all = texts(items@);
    assert(all.take(0) =~= Seq::empty());
    for i in 0..items.len()
        invariant
            all == texts(items@),
            out@ == comma_joined(all.take(i as int)),
    {
        if i > 0 {
            out.append(",");
        }
        out.append(items[i].as_str());
        assert(all.take(i + 1).drop_last() =~= all.take(i as int));
        assert(out@ =~= comma_joined(all.take(i + 1)));
    }
    assert(all.take(items@.len() as int) =~= all);
    out
}

/// A number reads back from its decimal digits.
pub proof fn law_decimal_reads_back(n: nat)
    ensures
        decimal(n).len() > 0,
        all_digits(decimal(n)),
        digits_value(decimal(n)) == n,
    decreases n,
{
    if n >= 10 {
        law_decimal_reads_back(n / 10);
        assert(decimal(n).drop_last() =~= decimal(n / 10));
    } else {
        assert(decimal(n).drop_last() =~= Seq::empty());
        assert(digits_value(Seq::empty()) == 0);
    }
}

/// Different numbers are written differently.
pub proof fn law_decimal_is_unique(a: nat, b: nat)
    requires
        decimal(a) == decimal(b),
    ensures
        a == b,
{
    law_decimal_reads_back(a);
    law_decimal_reads_back(b);
}

/// One character that differs rules a pattern out.
pub proof fn lemma_no_match(s: Seq<char>, pattern: Seq<char>, i: int, k: int)
    requires
        0 <= i,
        0 <= k < pattern.len(),
        i + k < s.len(),
        s[i + k] != pattern[k],
    ensures
        !occurs_at(s, pattern, i),
{
    if occurs_at(s, pattern, i) {
        assert(s.subrange(i, i + pattern.len())[k] == pattern[k]);
    }
}

/// A pattern that stands at a place and at none before it from the start of the search is found
/// there.
pub proof fn lemma_found(s: Seq<char>, pattern: Seq<char>, from: int, at: int)
    requires
        from <= at,
        occurs_at(s, pattern, at),
        forall|j: int| from <= j < at ==> !(#[trigger] occurs_at(s, pattern, j)),
    ensures
        find_from(s, pattern, from) == Some(at),
    decreases at - from,
{
    if from < at {
        lemma_found(s, pattern, from + 1, at);
    }
}

/// The digits from a place on end where the first other character stands.
pub proof fn lemma_digits_end(s: Seq<char>, from: int, to: int)
    requires
        0 <= from <= to < s.len(),
        forall|j: int| from <= j < to ==> is_digit(#[trigger] s[j]),
        !is_digit(s[to]),
    ensures
        skip_digits(s, from) == to,
    decreases to - from,
{
    if from < to {
        lemma_digits_end(s, from + 1, to);
    }
}

} // verus!
