//! Text as a sequence of characters: the string operations that the rest of the library is
//! specified with.

use vstd::prelude::*;

verus! {

/// The characters with the Unicode property `White_Space`.
pub open spec fn is_white_space(c: char) -> bool {
    let n = c as u32;
    ||| 0x09 <= n <= 0x0d
    ||| n == 0x20
    ||| n == 0x85
    ||| n == 0xa0
    ||| n == 0x1680
    ||| 0x2000 <= n <= 0x200a
    ||| n == 0x2028
    ||| n == 0x2029
    ||| n == 0x202f
    ||| n == 0x205f
    ||| n == 0x3000
}

/// `s` without the white space it begins with.
pub open spec fn trimmed_start(s: Seq<char>) -> Seq<char>
    decreases s.len(),
{
    if s.len() > 0 && is_white_space(s.first()) {
        trimmed_start(s.drop_first())
    } else {
        s
    }
}

/// `s` without the white space it ends with.
pub open spec fn trimmed_end(s: Seq<char>) -> Seq<char>
    decreases s.len(),
{
    if s.len() > 0 && is_white_space(s.last()) {
        trimmed_end(s.drop_last())
    } else {
        s
    }
}

/// `s` without the white space at either end.
pub open spec fn trimmed(s: Seq<char>) -> Seq<char> {
    trimmed_end(trimmed_start(s))
}

/// Whether `part` occurs in `s`.
pub open spec fn occurs(s: Seq<char>, part: Seq<char>) -> bool {
    exists|i: int|
        0 <= i && i + part.len() <= s.len() && #[trigger] s.subrange(i, i + part.len()) == part
}

/// What follows `prefix` in `s`, where `s` begins with it.
pub open spec fn after_prefix(s: Seq<char>, prefix: Seq<char>) -> Option<Seq<char>> {
    if prefix.is_prefix_of(s) {
        Some(s.skip(prefix.len() as int))
    } else {
        None
    }
}

/// What precedes `suffix` in `s`, where `s` ends with it.
pub open spec fn before_suffix(s: Seq<char>, suffix: Seq<char>) -> Option<Seq<char>> {
    if suffix.is_suffix_of(s) {
        Some(s.take(s.len() - suffix.len()))
    } else {
        None
    }
}

/// A line without the carriage return that belonged to its terminator.
pub open spec fn without_carriage_return(line: Seq<char>) -> Seq<char> {
    if line.len() > 0 && line.last() == '\r' {
        line.drop_last()
    } else {
        line
    }
}

/// The lines of a text of which `line` has been read as the beginning of the current line and
/// `rest` is still to come. A line ends at a line feed, or at a carriage return and a line feed;
/// the last line may lack its terminator.
pub open spec fn lines_from(line: Seq<char>, rest: Seq<char>) -> Seq<Seq<char>>
    decreases rest.len(),
{
    if rest.len() == 0 {
        if line.len() == 0 {
            seq![]
        } else {
            seq![line]
        }
    } else if rest.first() == '\n' {
        seq![without_carriage_return(line)] + lines_from(seq![], rest.drop_first())
    } else {
        lines_from(line.push(rest.first()), rest.drop_first())
    }
}

/// The lines of a text.
pub open spec fn lines_of(s: Seq<char>) -> Seq<Seq<char>> {
    lines_from(seq![], s)
}

/// The character of a decimal digit.
pub open spec fn digit_char(d: int) -> char {
    (48 + d) as u8 as char
}

/// A natural number in decimal, without leading zeros.
pub open spec fn decimal(n: nat) -> Seq<char>
    decreases n,
{
    if n < 10 {
        seq![digit_char(n as int)]
    } else {
        decimal(n / 10).push(digit_char((n % 10) as int))
    }
}

/// An integer in decimal, with a minus sign where it is negative.
pub open spec fn signed_decimal(n: int) -> Seq<char> {
    if n < 0 {
        seq!['-'] + decimal((-n) as nat)
    } else {
        decimal(n as nat)
    }
}

/// A truth value in words.
pub open spec fn bool_chars(b: bool) -> Seq<char> {
    if b {
        "true"@
    } else {
        "false"@
    }
}

/// The items of `items` in order, with `separator` between each two.
pub open spec fn joined(items: Seq<Seq<char>>, separator: Seq<char>) -> Seq<char>
    decreases items.len(),
{
    if items.len() == 0 {
        seq![]
    } else if items.len() == 1 {
        items[0]
    } else {
        joined(items.drop_last(), separator) + separator + items.last()
    }
}

/// `String::push` of std appends one character.
pub assume_specification[ String::push ](s: &mut String, c: char)
    ensures
        final(s)@ == old(s)@.push(c),
;

/// Calls `str::trim` of std, which drops the characters with the Unicode property `White_Space`
/// from both ends.
#[verifier::external_body]
pub(crate) fn trim(s: &str) -> (res: &str)
    ensures
        res@ == trimmed(s@),
{
    s.trim()
}

/// Calls `str::strip_prefix` of std with a string as its pattern: what follows the prefix, or
/// nothing where the text does not begin with it.
#[verifier::external_body]
pub(crate) fn strip_prefix<'a>(s: &'a str, prefix: &str) -> (res: Option<&'a str>)
    ensures
        res.deep_view() == after_prefix(s@, prefix@),
{
    s.strip_prefix(prefix)
}

/// Calls `str::strip_suffix` of std with a string as its pattern: what precedes the suffix, or
/// nothing where the text does not end with it.
#[verifier::external_body]
pub(crate) fn strip_suffix<'a>(s: &'a str, suffix: &str) -> (res: Option<&'a str>)
    ensures
        res.deep_view() == before_suffix(s@, suffix@),
{
    s.strip_suffix(suffix)
}

/// Calls `str::contains` of std with a string as its pattern: whether it occurs in the text.
#[verifier::external_body]
pub(crate) fn contains(s: &str, part: &str) -> (res: bool)
    ensures
        res == occurs(s@, part@),
{
    s.contains(part)
}

/// Splits a text into its lines, without their terminators.
pub fn lines(s: &str) -> (res: Vec<String>)
    ensures
        res.deep_view() == lines_of(s@),
{
    let mut res: Vec<String> = Vec::new();
    let mut line = String::new();
    assert(res.deep_view() =~= Seq::<Seq<char>>::empty());
    assert(s@.skip(0) =~= s@);
    for c in it: s.chars()
        invariant
            it.seq() == s@,
            lines_of(s@) =~= res.deep_view() + lines_from(line@, s@.skip(it.index() as int)),
    {
        let ghost before = res.deep_view();
        let ghost rest = s@.skip(it.index() as int);
        assert(rest.first() == c);
        assert(rest.drop_first() =~= s@.skip(it.index() + 1));
        if c == '\n' {
            let text = match strip_suffix(line.as_str(), "\r") {
                Some(head) => head.to_string(),
                None => line.clone(),
            };
            proof {
                reveal_strlit("\r");
                assert("\r"@ =~= seq!['\r']);
                let tail = line@.subrange(line@.len() - 1, line@.len() as int);
                if line@.len() > 0 {
                    assert(tail =~= seq![line@.last()]);
                    assert(seq!['\r'][0] == '\r' && tail[0] == line@.last());
                    assert(line@.take(line@.len() - 1) =~= line@.drop_last());
                }
                assert(text@ =~= without_carriage_return(line@));
            }
            res.push(text);
            assert(res.deep_view() =~= before.push(text@));
            line = String::new();
        } else {
            line.push(c);
        }
    }
    assert(s@.skip(s@.len() as int) =~= seq![]);
    let ghost before = res.deep_view();
    if !line.as_str().is_empty() {
        res.push(line);
        assert(res.deep_view() =~= before.push(line@));
    }
    res
}

/// Writes a natural number in decimal.
pub fn natural_text(n: u64) -> (res: String)
    ensures
        res@ == decimal(n as nat),
        decimal_value(res@) == n,
    decreases n,
{
    let mut res = if n < 10 {
        String::new()
    } else {
        natural_text(n / 10)
    };
    let digit: u8 = (n % 10) as u8;
    res.push((48 + digit) as char);
    proof {
        if n < 10 {
            assert(res@ =~= decimal(n as nat));
        }
        lemma_decimal_reads_back(n as nat);
    }
    res
}

/// Writes an integer in decimal.
pub fn integer_text(n: i64) -> (res: String)
    ensures
        res@ == signed_decimal(n as int),
        n >= 0 ==> decimal_value(res@) == n,
        n < 0 ==> res@.len() > 0 && res@[0] == '-' && decimal_value(res@.skip(1)) == -n,
{
    proof {
        lemma_signed_decimal_reads_back(n as int);
    }
    if n < 0 {
        let mut res = String::new();
        res.push('-');
        let magnitude: u64 = (-(n as i128)) as u64;
        res.append(natural_text(magnitude).as_str());
        assert(res@ =~= signed_decimal(n as int));
        res
    } else {
        natural_text(n as u64)
    }
}

/// Writes a truth value in words.
pub fn bool_text(b: bool) -> (res: String)
    ensures
        res@ == bool_chars(b),
        b ==> res@ == "true"@,
        !b ==> res@ == "false"@,
{
    if b {
        "true".to_string()
    } else {
        "false".to_string()
    }
}

/// Whether two texts are the same.
pub fn same(a: &str, b: &str) -> (res: bool)
    ensures
        res == (a@ == b@),
{
    a.to_string() == b.to_string()
}

/// Joins texts with a separator between each two.
pub fn join(items: &Vec<String>, separator: &str) -> (res: String)
    ensures
        res@ == joined(items.deep_view(), separator@),
        items@.len() == 0 ==> res@.len() == 0,
        items@.len() == 1 ==> res@ == items@[0]@,
        items@.len() == 2 ==> res@ == items@[0]@ + separator@ + items@[1]@,
{
    let mut res = String::new();
    let ghost all = items.deep_view();
    for i in 0..items.len()
        invariant
            all == items.deep_view(),
            res@ == joined(all.take(i as int), separator@),
    {
        if i > 0 {
            res.append(separator);
        }
        res.append(items[i].as_str());
        proof {
            let head = all.take(i + 1);
            assert(head.drop_last() =~= all.take(i as int));
            assert(head.last() == items[i as int]@);
            assert(res@ =~= joined(head, separator@));
        }
    }
    assert(all.take(all.len() as int) =~= all);
    proof {
        reveal_with_fuel(joined, 3);
    }
    res
}

/// A text without a line feed is one line, unless it is empty.
pub proof fn lemma_single_line(line: Seq<char>, rest: Seq<char>)
    requires
        !rest.contains('\n'),
        line.len() + rest.len() > 0,
    ensures
        lines_from(line, rest) == seq![line + rest],
    decreases rest.len(),
{
    if rest.len() == 0 {
        assert(line + rest =~= line);
    } else {
        assert(rest.contains(rest[0]));
        assert forall|c: char| rest.drop_first().contains(c) implies rest.contains(c) by {
            let i = choose|i: int| 0 <= i < rest.drop_first().len() && rest.drop_first()[i] == c;
            assert(rest[i + 1] == c);
        }
        lemma_single_line(line.push(rest.first()), rest.drop_first());
        assert(line.push(rest.first()) + rest.drop_first() =~= line + rest);
    }
}

/// White space at the end of a concatenation comes off its second part first.
pub proof fn lemma_trimmed_end_of_concatenation(a: Seq<char>, b: Seq<char>)
    requires
        trimmed_end(b).len() > 0,
    ensures
        trimmed_end(a + b) == a + trimmed_end(b),
    decreases b.len(),
{
    assert((a + b).last() == b.last());
    if is_white_space(b.last()) {
        assert((a + b).drop_last() =~= a + b.drop_last());
        lemma_trimmed_end_of_concatenation(a, b.drop_last());
    }
}

/// What is left without the white space at the end has none there.
pub proof fn lemma_trimmed_end_is_trimmed(s: Seq<char>)
    ensures
        trimmed_end(trimmed_end(s)) == trimmed_end(s),
    decreases s.len(),
{
    if s.len() > 0 && is_white_space(s.last()) {
        lemma_trimmed_end_is_trimmed(s.drop_last());
    }
}

/// What is left without the white space at the beginning is an end of the text, and has no white
/// space at its beginning.
pub proof fn lemma_trimmed_start_is_a_suffix(s: Seq<char>)
    ensures
        trimmed_start(s).len() <= s.len(),
        trimmed_start(s).len() > 0 ==> trimmed_start(s).last() == s.last(),
        trimmed_start(trimmed_start(s)) == trimmed_start(s),
        s.len() > 0 && !is_white_space(s.last()) ==> trimmed_start(s).len() > 0,
    decreases s.len(),
{
    if s.len() > 0 && is_white_space(s.first()) {
        let rest = s.drop_first();
        lemma_trimmed_start_is_a_suffix(rest);
        if rest.len() > 0 {
            assert(rest.last() == s.last());
        }
    }
}

/// A character at the end of a text that is not all white space stays there.
proof fn lemma_trimmed_start_push(s: Seq<char>, c: char)
    ensures
        trimmed_start(s).len() > 0 ==> trimmed_start(s.push(c)) == trimmed_start(s).push(c),
        trimmed_start(s).len() == 0 && is_white_space(c) ==> trimmed_start(s.push(c)).len() == 0,
    decreases s.len(),
{
    let all = s.push(c);
    if s.len() > 0 {
        assert(all.first() == s.first());
        if is_white_space(s.first()) {
            assert(all.drop_first() =~= s.drop_first().push(c));
            lemma_trimmed_start_push(s.drop_first(), c);
        }
    } else {
        assert(all.first() == c);
        if is_white_space(c) {
            assert(trimmed_start(all) == trimmed_start(all.drop_first()));
            assert(trimmed_start(all.drop_first()).len() == 0);
        }
    }
}

/// It does not matter at which end the white space is dropped first.
pub proof fn lemma_trims_commute(s: Seq<char>)
    ensures
        trimmed_start(trimmed_end(s)) == trimmed_end(trimmed_start(s)),
    decreases s.len(),
{
    if s.len() > 0 {
        lemma_trimmed_start_is_a_suffix(s);
        if is_white_space(s.last()) {
            let head = s.drop_last();
            lemma_trims_commute(head);
            lemma_trimmed_start_push(head, s.last());
            assert(s =~= head.push(s.last()));
            if trimmed_start(head).len() > 0 {
                let start = trimmed_start(s);
                assert(start.drop_last() =~= trimmed_start(head));
                assert(start.last() == s.last());
            } else {
                assert(trimmed_start(s) =~= seq![]);
                assert(trimmed_start(head) =~= seq![]);
            }
        }
    }
}

/// What is left without white space around it has none around it.
pub proof fn lemma_trimmed_twice(s: Seq<char>)
    ensures
        trimmed(trimmed(s)) == trimmed(s),
{
    let start = trimmed_start(s);
    lemma_trimmed_start_is_a_suffix(s);
    lemma_trims_commute(start);
    lemma_trimmed_end_is_trimmed(start);
}

/// The number that decimal digits stand for, the most significant first.
pub open spec fn decimal_value(s: Seq<char>) -> nat
    decreases s.len(),
{
    if s.len() == 0 {
        0
    } else {
        (10 * decimal_value(s.drop_last()) + (s.last() as int - 48)) as nat
    }
}

/// A number that is written in decimal is made of digits, begins with no superfluous zero, and
/// reads back as the number.
pub proof fn lemma_decimal_reads_back(n: nat)
    ensures
        decimal_value(decimal(n)) == n,
        decimal(n).len() > 0,
        forall|i: int| 0 <= i < decimal(n).len() ==> '0' <= #[trigger] decimal(n)[i] <= '9',
        n > 0 ==> decimal(n)[0] != '0',
    decreases n,
{
    let s = decimal(n);
    if n < 10 {
        assert(s.drop_last() =~= seq![]);
        assert(decimal_value(s.drop_last()) == 0);
    } else {
        lemma_decimal_reads_back(n / 10);
        assert(s.drop_last() =~= decimal(n / 10));
    }
}

/// Two numbers that are written the same are the same.
pub proof fn lemma_decimal_tells_numbers_apart(a: nat, b: nat)
    requires
        decimal(a) == decimal(b),
    ensures
        a == b,
{
    lemma_decimal_reads_back(a);
    lemma_decimal_reads_back(b);
}

/// An integer is written as the number itself, after a minus sign where it is negative.
pub proof fn lemma_signed_decimal_reads_back(n: int)
    ensures
        n >= 0 ==> signed_decimal(n).len() > 0 && signed_decimal(n)[0] != '-' && decimal_value(
            signed_decimal(n),
        ) == n,
        n < 0 ==> signed_decimal(n).len() > 0 && signed_decimal(n)[0] == '-' && decimal_value(
            signed_decimal(n).skip(1),
        ) == -n,
{
    if n < 0 {
        lemma_decimal_reads_back((-n) as nat);
        assert(signed_decimal(n).skip(1) =~= decimal((-n) as nat));
    } else {
        lemma_decimal_reads_back(n as nat);
    }
}

/// The two truth values have different texts, each its own word.
pub proof fn lemma_truth_values_are_told_apart()
    ensures
        bool_chars(true) == "true"@,
        bool_chars(false) == "false"@,
        bool_chars(true) != bool_chars(false),
{
    reveal_strlit("true");
    reveal_strlit("false");
    assert("true"@.len() != "false"@.len());
}

/// Joining is the same in one go and in two: nothing is lost, nothing added but one separator
/// between each two texts, and the order is kept.
pub proof fn lemma_joined_in_two(a: Seq<Seq<char>>, b: Seq<Seq<char>>, separator: Seq<char>)
    ensures
        joined(Seq::empty(), separator).len() == 0,
        a.len() == 1 ==> joined(a, separator) == a[0],
        a.len() > 0 && b.len() > 0 ==> joined(a + b, separator) == joined(a, separator) + separator
            + joined(b, separator),
    decreases b.len(),
{
    if a.len() > 0 && b.len() > 0 {
        let all = a + b;
        assert(all.last() == b.last());
        assert(all.drop_last() =~= a + b.drop_last());
        if b.len() == 1 {
            assert(all.drop_last() =~= a);
        } else {
            lemma_joined_in_two(a, b.drop_last(), separator);
            assert(joined(all, separator) =~= joined(a, separator) + separator + joined(
                b,
                separator,
            ));
        }
    }
}

/// The lines of a text are what stands before its first line feed, without a carriage return that
/// it ends in, and the lines of what stands after it.
pub proof fn lemma_lines_at_a_feed(head: Seq<char>, rest: Seq<char>)
    requires
        !head.contains('\n'),
    ensures
        head.len() == 0 || head.last() != '\r' ==> lines_of(head + (seq!['\n'] + rest)) == seq![head]
            + lines_of(rest),
        head.len() > 0 && head.last() == '\r' ==> lines_of(head + (seq!['\n'] + rest))
            == seq![head.drop_last()] + lines_of(rest),
{
    lemma_lines_from_at_a_feed(seq![], head, rest);
    assert(seq![] + head =~= head);
}

/// What has been read of a line and what stands before the line feed make up the line.
proof fn lemma_lines_from_at_a_feed(line: Seq<char>, head: Seq<char>, rest: Seq<char>)
    requires
        !head.contains('\n'),
    ensures
        (line + head).len() == 0 || (line + head).last() != '\r' ==> lines_from(
            line,
            head + (seq!['\n'] + rest),
        ) == seq![line + head] + lines_from(seq![], rest),
        (line + head).len() > 0 && (line + head).last() == '\r' ==> lines_from(
            line,
            head + (seq!['\n'] + rest),
        ) == seq![(line + head).drop_last()] + lines_from(seq![], rest),
    decreases head.len(),
{
    let all = head + (seq!['\n'] + rest);
    if head.len() == 0 {
        assert(all.first() == '\n');
        assert(all.drop_first() =~= rest);
        assert(line + head =~= line);
    } else {
        assert(head.contains(head[0]));
        let tail = head.drop_first();
        assert forall|c: char| tail.contains(c) implies head.contains(c) by {
            let i = choose|i: int| 0 <= i < tail.len() && tail[i] == c;
            assert(head[i + 1] == c);
        }
        assert(all.first() == head.first());
        assert(all.drop_first() =~= tail + (seq!['\n'] + rest));
        assert(line.push(head.first()) + tail =~= line + head);
        lemma_lines_from_at_a_feed(line.push(head.first()), tail, rest);
    }
}

/// A text without a line feed is one line, as it is; the empty text has none.
pub proof fn lemma_lines_without_a_feed(s: Seq<char>)
    requires
        !s.contains('\n'),
    ensures
        s.len() == 0 ==> lines_of(s).len() == 0,
        s.len() > 0 ==> lines_of(s) == seq![s],
{
    if s.len() > 0 {
        lemma_single_line(seq![], s);
        assert(seq![] + s =~= s);
    }
}

} // verus!
