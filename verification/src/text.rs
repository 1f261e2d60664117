//! Numbers, words and lines: reading them out of typed text and writing them down.

use vstd::prelude::*;

verus! {

/// The value of the decimal digit `c`.
pub open spec fn digit_value(c: char) -> nat {
    (c as int - '0' as int) as nat
}

/// Whether `c` is one of `0` to `9`.
pub open spec fn is_digit(c: char) -> bool {
    '0' <= c && c <= '9'
}

/// Whether `s` holds digits only.
pub open spec fn all_digits(s: Seq<char>) -> bool {
    forall|i: int| 0 <= i < s.len() ==> is_digit(#[trigger] s[i])
}

/// The number that the digits `s` write, most significant first.
pub open spec fn digits_value(s: Seq<char>) -> nat
    decreases s.len(),
{
    if s.len() == 0 {
        0
    } else {
        digits_value(s.drop_last()) * 10 + digit_value(s.last())
    }
}

/// What `s` leaves after one leading plus sign.
pub open spec fn without_plus(s: Seq<char>) -> Seq<char> {
    if s.len() > 0 && s[0] == '+' {
        s.skip(1)
    } else {
        s
    }
}

/// The number that `s` writes in decimal, if it is one of at most `max`.
///
/// One plus sign may lead; at least one digit must follow, and nothing else.
pub open spec fn number(s: Seq<char>, max: nat) -> Option<nat> {
    let digits = without_plus(s);
    if digits.len() > 0 && all_digits(digits) && digits_value(digits) <= max {
        Some(digits_value(digits))
    } else {
        None
    }
}

/// The characters of `s`.
pub fn chars_of(s: &str) -> (v: Vec<char>)
    ensures
        v@ == s@,
{
    let mut v: Vec<char> = Vec::new();
    for c in it: s.chars()
        invariant
            v@ == it.seq().take(it.index() as int),
            it.seq() == s@,
    {
        v.push(c);
    }
    v
}

/// The digits of a longer number are worth no less than those it starts with.
proof fn digits_value_grows(s: Seq<char>, k: int)
    requires
        0 <= k <= s.len(),
    ensures
        digits_value(s.take(k)) <= digits_value(s),
    decreases s.len() - k,
{
    if k < s.len() {
        digits_value_grows(s, k + 1);
        assert(s.take(k + 1).drop_last() =~= s.take(k));
    } else {
        assert(s.take(k) =~= s);
    }
}

/// Reads `chars[from..to]` as a decimal number of at most `max`.
pub fn parse_number(chars: &Vec<char>, from: usize, to: usize, max: u64) -> (r: Option<u64>)
    requires
        from <= to <= chars@.len(),
    ensures
        (match number(chars@.subrange(from as int, to as int), max as nat) {
            Some(n) => r == Some(n as u64),
            None => r is None,
        }),
        r matches Some(n) ==> n <= max,
{
    let ghost s = chars@.subrange(from as int, to as int);
    let mut start: usize = from;
    if from < to && chars[from] == '+' {
        start = from + 1;
    }
    let ghost digits = without_plus(s);
    assert(digits =~= chars@.subrange(start as int, to as int));
    if start == to {
        return None;
    }
    let mut acc: u64 = 0;
    let mut i: usize = start;
    while i < to
        invariant
            from <= start <= i <= to <= chars@.len(),
            start < to,
            digits == chars@.subrange(start as int, to as int),
            s == chars@.subrange(from as int, to as int),
            digits == without_plus(s),
            acc <= max,
            acc == digits_value(digits.take(i - start)),
            all_digits(digits.take(i - start)),
        decreases to - i,
    {
        let c = chars[i];
        assert(digits[i - start] == c);
        if !('0' <= c && c <= '9') {
            assert(!all_digits(digits)) by {
                assert(!is_digit(digits[i - start]));
            }
            return None;
        }
        let d: u64 = (c as u32 - '0' as u32) as u64;
        let wide: u128 = acc as u128 * 10 + d as u128;
        assert(digits.take(i - start + 1).drop_last() =~= digits.take(i - start));
        if wide > max as u128 {
            proof {
                digits_value_grows(digits, i - start + 1);
            }
            return None;
        }
        acc = wide as u64;
        i = i + 1;
        assert(all_digits(digits.take(i - start))) by {
            let prior = digits.take(i - start - 1);
            assert forall|j: int| 0 <= j < i - start implies is_digit(
                #[trigger] digits.take(i - start)[j],
            ) by {
                if j < i - start - 1 {
                    assert(is_digit(prior[j]));
                }
            }
        }
    }
    assert(digits.take(i - start) =~= digits);
    Some(acc)
}

/// The digit of value `d`.
pub open spec fn digit_char(d: nat) -> char {
    ('0' as int + d) as char
}

/// `n` written in decimal, without leading zeros.
pub open spec fn digits(n: nat) -> Seq<char>
    decreases n,
{
    if n < 10 {
        seq![digit_char(n)]
    } else {
        digits(n / 10).push(digit_char(n % 10))
    }
}

/// The text of a single digit.
fn digit_text(d: u64) -> (t: &'static str)
    requires
        d < 10,
    ensures
        t@ == seq![digit_char(d as nat)],
{
    proof {
        reveal_strlit("0");
        reveal_strlit("1");
        reveal_strlit("2");
        reveal_strlit("3");
        reveal_strlit("4");
        reveal_strlit("5");
        reveal_strlit("6");
        reveal_strlit("7");
        reveal_strlit("8");
        reveal_strlit("9");
    }
    match d {
        0 => "0",
        1 => "1",
        2 => "2",
        3 => "3",
        4 => "4",
        5 => "5",
        6 => "6",
        7 => "7",
        8 => "8",
        _ => "9",
    }
}

/// Writes `n` in decimal.
pub fn decimal(n: u64) -> (s: String)
    ensures
        s@ == digits(n as nat),
    decreases n,
{
    if n < 10 {
        digit_text(n).to_owned()
    } else {
        let mut s = decimal(n / 10);
        s.append(digit_text(n % 10));
        s
    }
}

/// What is written in decimal reads back as the same number: every number up to the limit
/// that the reader accepts.
pub proof fn decimal_reads_back(n: nat, max: nat)
    requires
        n <= max,
    ensures
        number(digits(n), max) == Some(n),
{
    digits_are_digits(n);
    assert(is_digit(digits(n)[0]));
    assert(without_plus(digits(n)) == digits(n));
}

/// The decimal form of a number is one or more digits, worth that number.
pub proof fn digits_are_digits(n: nat)
    ensures
        digits(n).len() > 0,
        all_digits(digits(n)),
        digits_value(digits(n)) == n,
    decreases n,
{
    if n < 10 {
        assert(digits(n).drop_last() =~= Seq::empty());
        assert(digits_value(Seq::<char>::empty()) == 0);
    } else {
        digits_are_digits(n / 10);
        let shorter = digits(n / 10);
        assert(digits(n).drop_last() =~= shorter);
        assert forall|i: int| 0 <= i < digits(n).len() implies is_digit(
            #[trigger] digits(n)[i],
        ) by {
            if i < shorter.len() {
                assert(is_digit(shorter[i]));
            }
        }
    }
}

/// The lines `lines` in one text, a line feed between each two.
pub open spec fn joined(lines: Seq<Seq<char>>) -> Seq<char>
    decreases lines.len(),
{
    if lines.len() == 0 {
        Seq::empty()
    } else if lines.len() == 1 {
        lines[0]
    } else {
        joined(lines.drop_last()).push('\n') + lines.last()
    }
}

/// The characters of each of `texts`.
pub open spec fn text_views(texts: Seq<String>) -> Seq<Seq<char>> {
    texts.map_values(|t: String| t@)
}

/// Joins `lines` with line feeds.
pub fn join_lines(lines: &Vec<String>) -> (s: String)
    ensures
        s@ == joined(text_views(lines@)),
{
    proof {
        reveal_strlit("\n");
    }
    let ghost all = text_views(lines@);
    let mut s = String::new();
    let mut i: usize = 0;
    while i < lines.len()
        invariant
            i <= lines@.len(),
            all == text_views(lines@),
            "\n"@ == seq!['\n'],
            s@ == joined(all.take(i as int)),
        decreases lines@.len() - i,
    {
        if i > 0 {
            s.append("\n");
        }
        s.append(lines[i].as_str());
        i = i + 1;
        assert(all.take(i as int).drop_last() =~= all.take(i - 1));
        assert(all.take(i as int).last() == lines@[i - 1]@);
        if i > 1 {
            assert(joined(all.take(i - 1)) + seq!['\n'] =~= joined(all.take(i - 1)).push('\n'));
        } else {
            assert(joined(all.take(0)) + lines@[0]@ =~= lines@[0]@);
        }
    }
    assert(all.take(i as int) =~= all);
    s
}

/// Whether `c` has Unicode's `White_Space` property.
pub open spec fn is_white_space(c: char) -> bool {
    ||| '\u{9}' <= c <= '\u{d}'
    ||| c == '\u{20}'
    ||| c == '\u{85}'
    ||| c == '\u{a0}'
    ||| c == '\u{1680}'
    ||| '\u{2000}' <= c <= '\u{200a}'
    ||| c == '\u{2028}'
    ||| c == '\u{2029}'
    ||| c == '\u{202f}'
    ||| c == '\u{205f}'
    ||| c == '\u{3000}'
}

fn white_space(c: char) -> (r: bool)
    ensures
        r == is_white_space(c),
{
    ('\u{9}' <= c && c <= '\u{d}') || c == '\u{20}' || c == '\u{85}' || c == '\u{a0}' || c
        == '\u{1680}' || ('\u{2000}' <= c && c <= '\u{200a}') || c == '\u{2028}' || c
        == '\u{2029}' || c == '\u{202f}' || c == '\u{205f}' || c == '\u{3000}'
}

/// `s` without the white space that it starts with.
pub open spec fn trimmed_start(s: Seq<char>) -> Seq<char>
    decreases s.len(),
{
    if s.len() > 0 && is_white_space(s[0]) {
        trimmed_start(s.skip(1))
    } else {
        s
    }
}

/// `s` without the white space that it ends with.
pub open spec fn trimmed_end(s: Seq<char>) -> Seq<char>
    decreases s.len(),
{
    if s.len() > 0 && is_white_space(s.last()) {
        trimmed_end(s.drop_last())
    } else {
        s
    }
}

/// `s` without the white space at both its ends.
pub open spec fn trimmed(s: Seq<char>) -> Seq<char> {
    trimmed_end(trimmed_start(s))
}

/// The mark that a color command starts with.
pub open spec fn rgb_mark() -> Seq<char> {
    seq!['r', 'g', 'b', ':']
}

/// Whether `s` starts with the color mark.
pub open spec fn is_color_command(s: Seq<char>) -> bool {
    s.len() >= 4 && s.take(4) == rgb_mark()
}

/// `s` without the color marks that it starts with, however many.
pub open spec fn without_marks(s: Seq<char>) -> Seq<char>
    decreases s.len(),
{
    if is_color_command(s) {
        without_marks(s.skip(4))
    } else {
        s
    }
}

/// The byte that `word` writes in decimal, alone in a sequence; nothing if it writes none.
pub open spec fn byte_of(word: Seq<char>) -> Seq<u8> {
    match number(word, 255) {
        Some(n) => seq![n as u8],
        None => Seq::empty(),
    }
}

/// The bytes written in `rest`, in order, words parted by single blanks and the first word
/// continuing `word`. A word that is no byte counts for nothing.
pub open spec fn bytes_after(word: Seq<char>, rest: Seq<char>) -> Seq<u8>
    decreases rest.len(),
{
    if rest.len() == 0 {
        byte_of(word)
    } else if rest[0] == ' ' {
        byte_of(word) + bytes_after(Seq::empty(), rest.skip(1))
    } else {
        bytes_after(word.push(rest[0]), rest.skip(1))
    }
}

/// The color components that the command `input` names.
pub open spec fn color_components(input: Seq<char>) -> Seq<u8> {
    bytes_after(Seq::empty(), trimmed(without_marks(input)))
}

/// Whether `chars[at..]` starts with the color mark.
fn mark_at(chars: &Vec<char>, at: usize) -> (r: bool)
    requires
        at <= chars@.len(),
    ensures
        r == is_color_command(chars@.skip(at as int)),
{
    let ghost s = chars@.skip(at as int);
    if chars.len() - at < 4 {
        return false;
    }
    assert(s.take(4) =~= seq![s[0], s[1], s[2], s[3]]);
    let r = chars[at] == 'r' && chars[at + 1] == 'g' && chars[at + 2] == 'b' && chars[at + 3]
        == ':';
    proof {
        if s.take(4) == rgb_mark() {
            assert(s[0] == rgb_mark()[0] && s[1] == rgb_mark()[1] && s[2] == rgb_mark()[2] && s[3]
                == rgb_mark()[3]) by {
                assert(s.take(4)[0] == s[0] && s.take(4)[1] == s[1] && s.take(4)[2] == s[2]
                    && s.take(4)[3] == s[3]);
            }
        }
        if r {
            assert(s.take(4) =~= rgb_mark());
        }
    }
    r
}

/// Whether `input` starts with the color mark.
pub fn color_command(input: &str) -> (r: bool)
    ensures
        r == is_color_command(input@),
{
    let chars = chars_of(input);
    assert(chars@.skip(0) =~= chars@);
    mark_at(&chars, 0)
}

/// Reads the color components out of the command `input`.
pub fn parse_color(input: &str) -> (r: Vec<u8>)
    ensures
        r@ == color_components(input@),
{
    let chars = chars_of(input);
    let len: usize = chars.len();
    let mut start: usize = 0;
    assert(chars@.skip(0) =~= chars@);
    loop
        invariant
            len == chars@.len(),
            start <= chars@.len(),
            without_marks(chars@.skip(start as int)) == without_marks(chars@),
        ensures
            start <= chars@.len(),
            chars@.skip(start as int) == without_marks(chars@),
        decreases chars@.len() - start,
    {
        if !mark_at(&chars, start) {
            break;
        }
        assert(chars@.skip(start as int).len() == chars@.len() - start);
        assert(chars@.skip(start as int).skip(4) =~= chars@.skip(start + 4));
        start = start + 4;
    }
    let ghost body = without_marks(chars@);
    while start < len && white_space(chars[start])
        invariant
            len == chars@.len(),
            start <= chars@.len(),
            trimmed_start(chars@.skip(start as int)) == trimmed_start(body),
        ensures
            start <= chars@.len(),
            chars@.skip(start as int) == trimmed_start(body),
        decreases chars@.len() - start,
    {
        assert(chars@.skip(start as int).skip(1) =~= chars@.skip(start + 1));
        start = start + 1;
    }
    let mut end: usize = len;
    assert(chars@.subrange(start as int, end as int) =~= chars@.skip(start as int));
    while start < end && white_space(chars[end - 1])
        invariant
            start <= end <= chars@.len(),
            trimmed_end(chars@.subrange(start as int, end as int)) == trimmed(body),
        ensures
            start <= end <= chars@.len(),
            chars@.subrange(start as int, end as int) == trimmed(body),
        decreases end - start,
    {
        assert(chars@.subrange(start as int, end as int).drop_last() =~= chars@.subrange(
            start as int,
            end - 1,
        ));
        end = end - 1;
    }
    let ghost line = trimmed(body);
    let mut found: Vec<u8> = Vec::new();
    let mut from: usize = start;
    let mut at: usize = start;
    assert(chars@.subrange(from as int, at as int) =~= Seq::empty());
    assert(found@ + bytes_after(Seq::empty(), line) =~= bytes_after(Seq::empty(), line));
    while at < end
        invariant
            start <= from <= at <= end <= chars@.len(),
            found@ + bytes_after(
                chars@.subrange(from as int, at as int),
                chars@.subrange(at as int, end as int),
            ) == bytes_after(Seq::empty(), line),
        decreases end - at,
    {
        let ghost word = chars@.subrange(from as int, at as int);
        let ghost rest = chars@.subrange(at as int, end as int);
        let ghost earlier = found@;
        assert(rest.skip(1) =~= chars@.subrange(at + 1, end as int));
        if chars[at] == ' ' {
            if let Some(n) = parse_number(&chars, from, at, 255) {
                found.push(n as u8);
                assert(found@ =~= earlier + byte_of(word));
            } else {
                assert(found@ =~= earlier + byte_of(word));
            }
            at = at + 1;
            from = at;
            assert(chars@.subrange(from as int, at as int) =~= Seq::empty());
            assert(found@ + bytes_after(Seq::empty(), rest.skip(1)) =~= earlier + (byte_of(word)
                + bytes_after(Seq::empty(), rest.skip(1))));
        } else {
            at = at + 1;
            assert(chars@.subrange(from as int, at as int) =~= word.push(rest[0]));
        }
    }
    let ghost earlier = found@;
    let ghost word = chars@.subrange(from as int, at as int);
    assert(chars@.subrange(at as int, end as int) =~= Seq::empty());
    if let Some(n) = parse_number(&chars, from, at, 255) {
        found.push(n as u8);
        assert(found@ =~= earlier + byte_of(word));
    } else {
        assert(found@ =~= earlier + byte_of(word));
    }
    found
}

/// `s` with every two blanks in a row made one, from the left, once through.
pub open spec fn squeezed(s: Seq<char>) -> Seq<char>
    decreases s.len(),
{
    if s.len() >= 2 && s[0] == ' ' && s[1] == ' ' {
        seq![' '] + squeezed(s.skip(2))
    } else if s.len() > 0 {
        seq![s[0]] + squeezed(s.skip(1))
    } else {
        s
    }
}

/// How many blanks stand between two words of a color command does not matter: squeezing
/// them leaves the same bytes, whatever the first word continues.
pub proof fn blanks_do_not_matter(word: Seq<char>, s: Seq<char>)
    ensures
        bytes_after(word, squeezed(s)) == bytes_after(word, s),
    decreases s.len(),
{
    if s.len() >= 2 && s[0] == ' ' && s[1] == ' ' {
        blanks_do_not_matter(Seq::empty(), s.skip(2));
        assert(squeezed(s).skip(1) =~= squeezed(s.skip(2)));
        assert(s.skip(1).skip(1) =~= s.skip(2));
        assert(s.skip(1)[0] == ' ');
        assert(byte_of(Seq::empty()) =~= Seq::empty());
        assert(bytes_after(Seq::empty(), s.skip(1)) == byte_of(Seq::empty()) + bytes_after(
            Seq::empty(),
            s.skip(1).skip(1),
        ));
        assert(bytes_after(Seq::empty(), s.skip(1)) =~= bytes_after(Seq::empty(), s.skip(2)));
        assert(squeezed(s)[0] == ' ');
    } else if s.len() > 0 {
        blanks_do_not_matter(Seq::empty(), s.skip(1));
        blanks_do_not_matter(word.push(s[0]), s.skip(1));
        assert(squeezed(s).skip(1) =~= squeezed(s.skip(1)));
    }
}

/// A run without blanks joins the word before it.
proof fn bytes_after_run(word: Seq<char>, run: Seq<char>, rest: Seq<char>)
    requires
        all_digits(run),
    ensures
        bytes_after(word, run + rest) == bytes_after(word + run, rest),
    decreases run.len(),
{
    if run.len() == 0 {
        assert(run + rest =~= rest);
        assert(word + run =~= word);
    } else {
        assert(is_digit(run[0]));
        assert((run + rest).skip(1) =~= run.skip(1) + rest);
        assert(word.push(run[0]) + run.skip(1) =~= word + run);
        assert(all_digits(run.skip(1))) by {
            assert forall|i: int| 0 <= i < run.skip(1).len() implies is_digit(
                #[trigger] run.skip(1)[i],
            ) by {
                assert(is_digit(run[i + 1]));
            }
        }
        bytes_after_run(word.push(run[0]), run.skip(1), rest);
    }
}

/// The command that names the color of components `r`, `g` and `b`.
pub open spec fn written_color(r: u8, g: u8, b: u8) -> Seq<char> {
    rgb_mark() + (digits(r as nat) + (seq![' '] + (digits(g as nat) + (seq![' '] + digits(
        b as nat,
    )))))
}

/// A decimal byte at the start of a line, with a blank behind it, is the first byte read.
proof fn byte_comes_first(n: u8, rest: Seq<char>)
    ensures
        bytes_after(Seq::empty(), digits(n as nat) + (seq![' '] + rest)) == seq![n] + bytes_after(
            Seq::empty(),
            rest,
        ),
        bytes_after(Seq::empty(), digits(n as nat)) == seq![n],
{
    let d = digits(n as nat);
    let none = Seq::<char>::empty();
    decimal_reads_back(n as nat, 255);
    digits_are_digits(n as nat);
    assert(none + d =~= d);
    assert(d + none =~= d);
    bytes_after_run(none, d, seq![' '] + rest);
    assert((seq![' '] + rest).skip(1) =~= rest);
    assert(byte_of(d) =~= seq![n]);
    bytes_after_run(none, d, none);
}

/// A line with a digit at both its ends keeps every character behind a color mark.
proof fn digits_stay(line: Seq<char>)
    requires
        line.len() > 0,
        is_digit(line[0]),
        is_digit(line.last()),
    ensures
        is_color_command(rgb_mark() + line),
        trimmed(without_marks(rgb_mark() + line)) == line,
{
    let input = rgb_mark() + line;
    assert(input.take(4) =~= rgb_mark());
    assert(input.skip(4) =~= line);
    if is_color_command(line) {
        assert(line.take(4)[0] == rgb_mark()[0]);
    }
    assert(without_marks(line) == line);
    assert(without_marks(input) == line);
}

/// A color written as a command reads back as its three components.
pub proof fn written_color_reads_back(r: u8, g: u8, b: u8)
    ensures
        is_color_command(written_color(r, g, b)),
        color_components(written_color(r, g, b)) == seq![r, g, b],
{
    let dr = digits(r as nat);
    let dg = digits(g as nat);
    let db = digits(b as nat);
    let tail = dg + (seq![' '] + db);
    let line = dr + (seq![' '] + tail);
    digits_are_digits(r as nat);
    digits_are_digits(b as nat);
    assert(is_digit(dr[0]));
    assert(is_digit(db[db.len() - 1]));
    assert(line[0] == dr[0]);
    assert(line.last() == db.last());
    digits_stay(line);
    byte_comes_first(r, tail);
    byte_comes_first(g, db);
    byte_comes_first(b, Seq::empty());
    assert(seq![r] + (seq![g] + seq![b]) =~= seq![r, g, b]);
}

/// Only digits behind at most one plus sign make a number, and only up to the limit; the number is
/// then what they are worth. A plus sign before digits makes no difference, and neither does a
/// leading zero.
pub proof fn only_digits_make_a_number(s: Seq<char>, max: nat)
    ensures
        number(s, max) matches Some(n) ==> n <= max && s.len() > 0,
        number(s, max) is Some ==> forall|i: int|
            0 <= i < s.len() ==> '0' <= #[trigger] s[i] <= '9' || (i == 0 && s[i] == '+'),
        number(seq!['+'], max) is None,
        s.len() > 0 && all_digits(s) ==> number(seq!['+'] + s, max) == number(s, max),
        s.len() > 0 && all_digits(s) ==> number(seq!['0'] + s, max) == number(s, max),
        s.len() > 0 && all_digits(s) && digits_value(s) > max ==> number(s, max) is None,
        s.len() > 0 && all_digits(s) && digits_value(s) <= max ==> number(s, max) == Some(
            digits_value(s),
        ),
{
    let digits = without_plus(s);
    if number(s, max) is Some {
        assert forall|i: int| 0 <= i < s.len() implies '0' <= #[trigger] s[i] <= '9' || (i == 0
            && s[i] == '+') by {
            if s[0] == '+' {
                if i > 0 {
                    assert(is_digit(digits[i - 1]));
                }
            } else {
                assert(is_digit(digits[i]));
            }
        }
    }
    assert(seq!['+'].skip(1) =~= Seq::<char>::empty());
    if s.len() > 0 && all_digits(s) {
        assert(is_digit(s[0]));
        assert((seq!['+'] + s).skip(1) =~= s);
        let padded = seq!['0'] + s;
        assert(all_digits(padded)) by {
            assert forall|i: int| 0 <= i < padded.len() implies is_digit(#[trigger] padded[i]) by {
                if i > 0 {
                    assert(is_digit(s[i - 1]));
                }
            }
        }
        leading_zero_is_worth_nothing(s);
    }
}

/// A leading zero is worth nothing.
proof fn leading_zero_is_worth_nothing(s: Seq<char>)
    ensures
        digits_value(seq!['0'] + s) == digits_value(s),
    decreases s.len(),
{
    let padded = seq!['0'] + s;
    if s.len() == 0 {
        assert(padded.drop_last() =~= Seq::<char>::empty());
        assert(digits_value(Seq::<char>::empty()) == 0);
    } else {
        assert(padded.drop_last() =~= seq!['0'] + s.drop_last());
        leading_zero_is_worth_nothing(s.drop_last());
    }
}

/// Each further digit is worth ten times what was before, and itself.
pub proof fn digits_count_by_ten(s: Seq<char>, c: char)
    requires
        '0' <= c <= '9',
    ensures
        digits_value(s.push(c)) == digits_value(s) * 10 + (c as int - '0' as int),
        digits_value(seq![c]) == c as int - '0' as int,
{
    assert(s.push(c).drop_last() =~= s);
    assert(seq![c].drop_last() =~= Seq::<char>::empty());
    assert(digits_value(Seq::<char>::empty()) == 0);
}

/// No number is written with a zero before its other digits.
pub proof fn no_leading_zero(n: nat)
    ensures
        digits(n).len() > 0,
        digits(n)[0] == '0' ==> n == 0 && digits(n).len() == 1,
    decreases n,
{
    if n >= 10 {
        no_leading_zero(n / 10);
        assert(digits(n)[0] == digits(n / 10)[0]);
    }
}

/// Lists of lines that are joined one after the other have a line feed between; a single line is
/// joined as it is.
pub proof fn joining_parts_with_line_feeds(a: Seq<Seq<char>>, b: Seq<Seq<char>>, line: Seq<char>)
    ensures
        joined(Seq::empty()).len() == 0,
        joined(seq![line]) == line,
        a.len() > 0 && b.len() > 0 ==> joined(a + b) == joined(a) + seq!['\n'] + joined(b),
    decreases b.len(),
{
    if a.len() > 0 && b.len() > 0 {
        assert((a + b).drop_last() =~= a + b.drop_last());
        if b.len() == 1 {
            assert(a + b.drop_last() =~= a);
            assert(joined(a + b) =~= joined(a) + seq!['\n'] + joined(b));
        } else {
            joining_parts_with_line_feeds(a, b.drop_last(), line);
            assert(joined(a + b) =~= joined(a) + seq!['\n'] + joined(b));
        }
    }
}

/// White space is what Unicode lists as such: the characters of these numbers and no other.
pub proof fn white_space_by_number(c: char)
    ensures
        is_white_space(c) <==> {
            let n = c as int;
            ||| n == 9 || n == 10 || n == 11 || n == 12 || n == 13 || n == 32 || n == 133
            ||| n == 160 || n == 5760 || 8192 <= n <= 8202 || n == 8232 || n == 8233
            ||| n == 8239 || n == 8287 || n == 12288
        },
{
}

/// Trimming takes away white space at both ends, and nothing else.
pub proof fn trimming_takes_the_ends(s: Seq<char>) -> (r: (int, int))
    ensures
        0 <= r.0 <= r.1 <= s.len(),
        trimmed(s) == s.subrange(r.0, r.1),
        forall|i: int| 0 <= i < r.0 ==> is_white_space(#[trigger] s[i]),
        forall|i: int| r.1 <= i < s.len() ==> is_white_space(#[trigger] s[i]),
        trimmed(s).len() > 0 ==> !is_white_space(trimmed(s)[0]) && !is_white_space(
            trimmed(s).last(),
        ),
{
    let a = trimmed_from(s);
    let rest = trimmed_start(s);
    let b = trimmed_to(rest);
    assert(rest.take(b) =~= s.subrange(a, a + b));
    assert forall|i: int| a + b <= i < s.len() implies is_white_space(#[trigger] s[i]) by {
        assert(rest[i - a] == s[i]);
    }
    if b > 0 {
        assert(trimmed(s)[0] == rest[0]);
    }
    (a, a + b)
}

/// Where a text starts once it is trimmed.
proof fn trimmed_from(s: Seq<char>) -> (a: int)
    ensures
        0 <= a <= s.len(),
        trimmed_start(s) == s.skip(a),
        forall|i: int| 0 <= i < a ==> is_white_space(#[trigger] s[i]),
        a < s.len() ==> !is_white_space(s[a]),
    decreases s.len(),
{
    if s.len() > 0 && is_white_space(s[0]) {
        let a = trimmed_from(s.skip(1));
        assert(s.skip(1).skip(a) =~= s.skip(a + 1));
        assert forall|i: int| 0 <= i < a + 1 implies is_white_space(#[trigger] s[i]) by {
            if i > 0 {
                assert(s.skip(1)[i - 1] == s[i]);
            }
        }
        a + 1
    } else {
        assert(s.skip(0) =~= s);
        0
    }
}

/// Where a text ends once it is trimmed.
proof fn trimmed_to(s: Seq<char>) -> (b: int)
    ensures
        0 <= b <= s.len(),
        trimmed_end(s) == s.take(b),
        forall|i: int| b <= i < s.len() ==> is_white_space(#[trigger] s[i]),
        b > 0 ==> !is_white_space(s[b - 1]),
    decreases s.len(),
{
    if s.len() > 0 && is_white_space(s.last()) {
        let b = trimmed_to(s.drop_last());
        assert(s.drop_last().take(b) =~= s.take(b));
        assert forall|i: int| b <= i < s.len() implies is_white_space(#[trigger] s[i]) by {
            if i < s.len() - 1 {
                assert(s.drop_last()[i] == s[i]);
            }
        }
        b
    } else {
        assert(s.take(s.len() as int) =~= s);
        s.len() as int
    }
}

/// All marks at the start are taken away, however many: one more makes no difference, and what is
/// left starts with none.
pub proof fn marks_are_all_taken_away(s: Seq<char>)
    ensures
        without_marks(seq!['r', 'g', 'b', ':'] + s) == without_marks(s),
        !is_color_command(without_marks(s)),
        !is_color_command(s) ==> without_marks(s) == s,
    decreases s.len(),
{
    let more = seq!['r', 'g', 'b', ':'] + s;
    assert(more.take(4) =~= rgb_mark());
    assert(more.skip(4) =~= s);
    if is_color_command(s) {
        marks_are_all_taken_away(s.skip(4));
    }
}

/// The components of a command are those of its words, in order: a word up to a blank gives its
/// byte, if it is one, and what is behind the blank gives the rest. A word that is no number up to
/// 255 gives nothing.
pub proof fn words_give_their_bytes(word: Seq<char>, rest: Seq<char>)
    requires
        forall|i: int| 0 <= i < word.len() ==> #[trigger] word[i] != ' ',
    ensures
        bytes_after(Seq::empty(), word + (seq![' '] + rest)) == byte_of(word) + bytes_after(
            Seq::empty(),
            rest,
        ),
        bytes_after(Seq::empty(), word) == byte_of(word),
        number(word, 255) is None ==> byte_of(word).len() == 0,
        number(word, 255) matches Some(n) ==> byte_of(word).len() == 1 && byte_of(word)[0] == n,
{
    let none = Seq::<char>::empty();
    word_joins(none, word, seq![' '] + rest);
    word_joins(none, word, none);
    assert(none + word =~= word);
    assert(word + none =~= word);
    assert((seq![' '] + rest).skip(1) =~= rest);
}

/// A run without blanks joins the word before it, whatever its characters.
proof fn word_joins(word: Seq<char>, run: Seq<char>, rest: Seq<char>)
    requires
        forall|i: int| 0 <= i < run.len() ==> #[trigger] run[i] != ' ',
    ensures
        bytes_after(word, run + rest) == bytes_after(word + run, rest),
    decreases run.len(),
{
    if run.len() == 0 {
        assert(run + rest =~= rest);
        assert(word + run =~= word);
    } else {
        assert(run[0] != ' ');
        assert((run + rest).skip(1) =~= run.skip(1) + rest);
        assert(word.push(run[0]) + run.skip(1) =~= word + run);
        assert forall|i: int| 0 <= i < run.skip(1).len() implies #[trigger] run.skip(1)[i]
            != ' ' by {
            assert(run[i + 1] != ' ');
        }
        word_joins(word.push(run[0]), run.skip(1), rest);
    }
}

/// The components of a command are read from what is left of it without its marks and without the
/// white space around.
pub proof fn components_are_those_of_the_rest(s: Seq<char>, before: char, after: char)
    requires
        is_white_space(before),
        is_white_space(after),
        s.len() > 0,
        !is_white_space(s[0]),
        !is_white_space(s.last()),
    ensures
        color_components(seq!['r', 'g', 'b', ':'] + (seq![before] + s + seq![after]))
            == bytes_after(Seq::empty(), s),
{
    let inner = seq![before] + s + seq![after];
    marks_are_all_taken_away(inner);
    if is_color_command(inner) {
        assert(inner.take(4)[0] == rgb_mark()[0]);
    }
    assert(inner.skip(1) =~= s + seq![after]);
    assert((s + seq![after])[0] == s[0]);
    assert((s + seq![after]).drop_last() =~= s);
    assert(trimmed_start(inner) == trimmed_start(s + seq![after]));
    assert(trimmed_end(s + seq![after]) == trimmed_end(s));
}

} // verus!
