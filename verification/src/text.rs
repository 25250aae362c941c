//! Character-level helpers on which the manifest and link handling is built.

use vstd::prelude::*;
use vstd::string::StringExecFns;

verus! {

/// Copies the characters of `text` into a vector, in order.
pub fn chars_of(text: &str) -> (chars: Vec<char>)
    ensures
        chars@ == text@,
{
    let mut chars: Vec<char> = Vec::new();
    for c in it: text.chars()
        invariant
            it.seq() == text@,
            chars@ == text@.take(it.index()),
    {
        chars.push(c);
    }
    chars
}

/// The characters of `text` from position `from` up to, not including, `to`.
pub fn substring(text: &str, from: usize, to: usize) -> (part: String)
    requires
        from <= to <= text@.len(),
    ensures
        part@ == text@.subrange(from as int, to as int),
{
    String::from_str(text.substring_char(from, to))
}

/// `first` followed by `second`.
pub fn join(first: &str, second: &str) -> (joined: String)
    ensures
        joined@ == first@ + second@,
{
    String::from_str(first).concat(second)
}

/// The position of the first `c` in `s`, or the length of `s` where there is none.
pub open spec fn first_index_of(s: Seq<char>, c: char) -> nat
    decreases s.len(),
{
    if s.len() == 0 {
        0
    } else if s.first() == c {
        0
    } else {
        1 + first_index_of(s.drop_first(), c)
    }
}

/// `first_index_of` is the least position that holds `c`.
pub proof fn lemma_first_index_of(s: Seq<char>, c: char)
    ensures
        first_index_of(s, c) <= s.len(),
        first_index_of(s, c) < s.len() ==> s[first_index_of(s, c) as int] == c,
        forall|j: int| 0 <= j < first_index_of(s, c) ==> s[j] != c,
    decreases s.len(),
{
    if s.len() > 0 && s.first() != c {
        let rest = s.drop_first();
        lemma_first_index_of(rest, c);
        assert forall|j: int| 0 <= j < first_index_of(s, c) implies s[j] != c by {
            if j > 0 {
                assert(s[j] == rest[j - 1]);
            }
        }
    }
}

/// A position is `first_index_of` as soon as it holds the first `c`.
pub proof fn lemma_first_index_of_unique(s: Seq<char>, c: char, k: int)
    requires
        0 <= k <= s.len(),
        k < s.len() ==> s[k] == c,
        forall|j: int| 0 <= j < k ==> s[j] != c,
    ensures
        first_index_of(s, c) == k,
{
    lemma_first_index_of(s, c);
}

/// Finds the first `c` at or after `from`.
pub fn find_char(chars: &Vec<char>, c: char, from: usize) -> (at: usize)
    requires
        from <= chars.len(),
    ensures
        at == from + first_index_of(chars@.skip(from as int), c),
        from <= at <= chars.len(),
{
    let mut at = from;
    while at < chars.len() && chars[at] != c
        invariant
            from <= at <= chars.len(),
            forall|j: int| from <= j < at ==> chars[j] != c,
        decreases chars.len() - at,
    {
        at += 1;
    }
    proof {
        lemma_first_index_of_unique(chars@.skip(from as int), c, at - from);
    }
    at
}

/// Whether `c` is one of the ten ASCII digits.
pub open spec fn is_digit(c: char) -> bool {
    '0' <= c && c <= '9'
}

/// The number that the ASCII digit `c` stands for.
pub open spec fn digit_value(c: char) -> nat {
    (c as int - '0' as int) as nat
}

/// Whether `s` holds ASCII digits only.
pub open spec fn all_digits(s: Seq<char>) -> bool {
    forall|i: int| 0 <= i < s.len() ==> is_digit(#[trigger] s[i])
}

/// The number that the digits of `s` write in base ten, most significant first.
pub open spec fn decimal_value(s: Seq<char>) -> nat
    decreases s.len(),
{
    if s.len() == 0 {
        0
    } else {
        decimal_value(s.drop_last()) * 10 + digit_value(s.last())
    }
}

/// What `s` reads as: a number no greater than `max`, written with one or
/// more ASCII digits and nothing else.
pub open spec fn parse_decimal(s: Seq<char>, max: nat) -> Option<nat> {
    if s.len() > 0 && all_digits(s) && decimal_value(s) <= max {
        Some(decimal_value(s))
    } else {
        None
    }
}

/// A longer digit string never writes a smaller number than its beginning.
pub proof fn lemma_decimal_value_grows(s: Seq<char>, k: int)
    requires
        0 <= k <= s.len(),
    ensures
        decimal_value(s.take(k)) <= decimal_value(s),
    decreases s.len() - k,
{
    if k < s.len() {
        lemma_decimal_value_grows(s, k + 1);
        assert(s.take(k + 1).drop_last() == s.take(k));
    } else {
        assert(s.take(k) == s);
    }
}

/// Reads the characters of `chars` between `from` and `to` as a decimal number.
pub fn parse_unsigned(chars: &Vec<char>, from: usize, to: usize, max: u64) -> (number: Option<u64>)
    requires
        from <= to <= chars.len(),
    ensures
        number.is_some() == parse_decimal(chars@.subrange(from as int, to as int), max as nat).is_some(),
        number matches Some(n) ==> parse_decimal(
            chars@.subrange(from as int, to as int),
            max as nat,
        ) == Some(n as nat),
{
    let ghost s = chars@.subrange(from as int, to as int);
    if from == to {
        return None;
    }
    let mut value: u64 = 0;
    let mut at = from;
    while at < to
        invariant
            from <= at <= to <= chars.len(),
            s == chars@.subrange(from as int, to as int),
            all_digits(s.take(at - from)),
            value == decimal_value(s.take(at - from)),
            value <= max,
        decreases to - at,
    {
        let c = chars[at];
        proof {
            assert(s.take(at - from + 1).drop_last() == s.take(at - from));
            assert(s.take(at - from + 1).last() == c);
            lemma_decimal_value_grows(s, at - from + 1);
        }
        if c < '0' || c > '9' {
            assert(!is_digit(s[at - from]));
            return None;
        }
        let digit = (c as u32 - '0' as u32) as u64;
        if digit > max || value > (max - digit) / 10 {
            return None;
        }
        value = value * 10 + digit;
        at += 1;
        assert forall|i: int| 0 <= i < s.take(at - from).len() implies is_digit(
            #[trigger] s.take(at - from)[i],
        ) by {
            if i < at - from - 1 {
                assert(s.take(at - from)[i] == s.take(at - from - 1)[i]);
            }
        }
    }
    assert(s.take(to - from) == s);
    Some(value)
}

/// `line` without the carriage return that it may end in.
pub open spec fn without_return(line: Seq<char>) -> Seq<char> {
    if line.len() > 0 && line.last() == '\r' {
        line.drop_last()
    } else {
        line
    }
}

/// The text, where there is one and it holds anything.
pub fn filled(text: &Option<String>) -> (found: Option<&String>)
    ensures
        found matches Some(held) ==> text == Some(*held) && held@.len() > 0,
        found is None ==> (text matches Some(held) ==> held@.len() == 0),
{
    match text {
        Some(held) => if held.as_str().unicode_len() > 0 {
            Some(held)
        } else {
            None
        },
        None => None,
    }
}

/// A copy of an optional text.
pub fn copy_of(text: &Option<String>) -> (copy: Option<String>)
    ensures
        copy.deep_view() == text.deep_view(),
{
    match text {
        Some(text) => Some(text.clone()),
        None => None,
    }
}

/// The lines of `text`. A line ends with a line feed, or with a carriage
/// return and a line feed, neither of which belongs to it; what follows the
/// last line feed is a line too, unless it is empty.
pub open spec fn lines_of(text: Seq<char>) -> Seq<Seq<char>>
    decreases text.len(),
{
    let end = first_index_of(text, '\n');
    if text.len() == 0 {
        Seq::empty()
    } else if end >= text.len() {
        seq![text]
    } else {
        seq![without_return(text.take(end as int))] + lines_of(text.skip(end as int + 1))
    }
}

/// Splits `text` into its lines.
pub fn lines(text: &str) -> (found: Vec<String>)
    ensures
        found.deep_view() == lines_of(text@),
{
    let chars = chars_of(text);
    let mut found: Vec<String> = Vec::new();
    let mut start: usize = 0;
    assert(chars@.skip(0) == chars@);
    assert(found.deep_view() + lines_of(chars@) == lines_of(chars@));
    while start < chars.len()
        invariant
            start <= chars.len(),
            chars@ == text@,
            found.deep_view() + lines_of(chars@.skip(start as int)) == lines_of(chars@),
        decreases chars.len() - start,
    {
        let ghost rest = chars@.skip(start as int);
        let ghost before = found.deep_view();
        let end = find_char(&chars, '\n', start);
        if end == chars.len() {
            let line = substring(text, start, end);
            assert(line@ == rest);
            found.push(line);
            assert(found.deep_view() =~= before + seq![rest]);
            start = end;
            assert(lines_of(chars@.skip(start as int)) == Seq::<Seq<char>>::empty());
            assert(before + seq![rest] + Seq::<Seq<char>>::empty() == before + seq![rest]);
        } else {
            let stop = if end > start && chars[end - 1] == '\r' {
                end - 1
            } else {
                end
            };
            let line = substring(text, start, stop);
            proof {
                let whole = rest.take(end - start);
                assert(whole == text@.subrange(start as int, end as int));
                if whole.len() > 0 {
                    assert(whole.last() == chars@[end - 1]);
                }
                assert(line@ == without_return(whole));
                assert(rest.skip(end - start + 1) == chars@.skip(end + 1));
            }
            found.push(line);
            assert(found.deep_view() =~= before + seq![line@]);
            start = end + 1;
            assert(before + (seq![line@] + lines_of(chars@.skip(start as int))) == before + seq![
                line@,
            ] + lines_of(chars@.skip(start as int)));
        }
    }
    assert(lines_of(chars@.skip(start as int)) == Seq::<Seq<char>>::empty());
    assert(found.deep_view() + Seq::<Seq<char>>::empty() == found.deep_view());
    found
}

/// What follows the last `c` in `s`; all of `s` where it holds no `c`.
pub open spec fn after_last(s: Seq<char>, c: char) -> Seq<char>
    decreases s.len(),
{
    if s.len() == 0 {
        s
    } else if s.last() == c {
        Seq::empty()
    } else {
        after_last(s.drop_last(), c).push(s.last())
    }
}

/// What precedes the first `c` in `s`; all of `s` where it holds no `c`.
pub open spec fn before_first(s: Seq<char>, c: char) -> Seq<char> {
    s.take(first_index_of(s, c) as int)
}

/// Whether `c` occurs nowhere in `s`.
pub open spec fn free_of(s: Seq<char>, c: char) -> bool {
    forall|i: int| 0 <= i < s.len() ==> #[trigger] s[i] != c
}

/// An end of `s` that holds no `c` is an end of `after_last` too.
pub proof fn lemma_after_last_tail(s: Seq<char>, c: char, from: int)
    requires
        0 <= from <= s.len(),
        free_of(s.skip(from), c),
    ensures
        after_last(s, c) == after_last(s.take(from), c) + s.skip(from),
    decreases s.len() - from,
{
    if from == s.len() {
        assert(s.take(from) == s);
        assert(after_last(s, c) + s.skip(from) == after_last(s, c));
    } else {
        let shorter = s.drop_last();
        assert(s.last() == s.skip(from)[s.len() - 1 - from]);
        assert forall|i: int| 0 <= i < shorter.skip(from).len() implies #[trigger] shorter.skip(
            from,
        )[i] != c by {
            assert(shorter.skip(from)[i] == s.skip(from)[i]);
        }
        lemma_after_last_tail(shorter, c, from);
        assert(shorter.take(from) == s.take(from));
        assert(shorter.skip(from).push(s.last()) == s.skip(from));
        assert((after_last(s.take(from), c) + shorter.skip(from)).push(s.last()) == after_last(
            s.take(from),
            c,
        ) + shorter.skip(from).push(s.last()));
    }
}

/// `after_last` holds no `c`.
pub proof fn lemma_after_last_free(s: Seq<char>, c: char)
    ensures
        free_of(after_last(s, c), c),
    decreases s.len(),
{
    if s.len() > 0 && s.last() != c {
        lemma_after_last_free(s.drop_last(), c);
    }
}

/// `before_first` holds no `c`.
pub proof fn lemma_before_first_free(s: Seq<char>, c: char)
    ensures
        free_of(before_first(s, c), c),
{
    lemma_first_index_of(s, c);
}

/// Finds where `after_last(chars, c)` begins.
pub fn start_after_last(chars: &Vec<char>, c: char) -> (start: usize)
    ensures
        start <= chars.len(),
        chars@.skip(start as int) == after_last(chars@, c),
{
    let mut start = chars.len();
    assert(chars@.skip(start as int).len() == 0);
    while start > 0 && chars[start - 1] != c
        invariant
            start <= chars.len(),
            free_of(chars@.skip(start as int), c),
        decreases start,
    {
        start -= 1;
        assert forall|i: int| 0 <= i < chars@.skip(start as int).len() implies #[trigger] chars@.skip(
            start as int,
        )[i] != c by {
            if i > 0 {
                assert(chars@.skip(start as int)[i] == chars@.skip(start + 1)[i - 1]);
            }
        }
    }
    proof {
        lemma_after_last_tail(chars@, c, start as int);
        if start > 0 {
            assert(chars@.take(start as int).last() == c);
        }
        assert(after_last(chars@.take(start as int), c).len() == 0);
        assert(Seq::<char>::empty() + chars@.skip(start as int) == chars@.skip(start as int));
    }
    start
}

/// The name that a path suggests for a file: what follows its last `/`, up to
/// the first `.` of that.
pub open spec fn stem_of(path: Seq<char>) -> Seq<char> {
    before_first(after_last(path, '/'), '.')
}

/// The name that `path` suggests for a file, without directory and extension.
pub fn stem(path: &str) -> (name: String)
    ensures
        name@ == stem_of(path@),
{
    let chars = chars_of(path);
    let start = start_after_last(&chars, '/');
    let end = find_char(&chars, '.', start);
    assert(path@.subrange(start as int, end as int) == chars@.skip(start as int).take(end - start));
    substring(path, start, end)
}

/// A stem holds neither `/` nor `.`.
pub proof fn lemma_stem_is_plain(path: Seq<char>)
    ensures
        free_of(stem_of(path), '/'),
        free_of(stem_of(path), '.'),
{
    let base = after_last(path, '/');
    lemma_after_last_free(path, '/');
    lemma_before_first_free(base, '.');
    lemma_first_index_of(base, '.');
    assert forall|i: int| 0 <= i < stem_of(path).len() implies #[trigger] stem_of(path)[i]
        != '/' by {
        assert(stem_of(path)[i] == base[i]);
    }
}

/// The stem of a path that ends in `/`, a plain name, `.` and an extension is
/// that name, whatever directories come before.
pub proof fn lemma_stem_of_file(directory: Seq<char>, name: Seq<char>, extension: Seq<char>)
    requires
        free_of(name, '/'),
        free_of(name, '.'),
        free_of(extension, '/'),
    ensures
        stem_of(directory + seq!['/'] + name + seq!['.'] + extension) == name,
{
    let path = directory + seq!['/'] + name + seq!['.'] + extension;
    let from: int = directory.len() as int + 1;
    let tail = name + seq!['.'] + extension;
    assert(path.skip(from) == tail);
    assert(path.take(from) == directory + seq!['/']);
    assert(free_of(tail, '/'));
    lemma_after_last_tail(path, '/', from);
    assert(after_last(path.take(from), '/') == Seq::<char>::empty());
    assert(Seq::<char>::empty() + tail == tail);
    assert(tail[name.len() as int] == '.');
    assert forall|j: int| 0 <= j < name.len() implies tail[j] != '.' by {
        assert(tail[j] == name[j]);
    }
    lemma_first_index_of_unique(tail, '.', name.len() as int);
    assert(tail.take(name.len() as int) == name);
}

/// Whether `needle` stands in `hay` at position `at`.
pub open spec fn occurs_at(needle: Seq<char>, hay: Seq<char>, at: int) -> bool {
    0 <= at && at + needle.len() <= hay.len() && hay.subrange(at, at + needle.len()) == needle
}

/// Whether `needle` stands somewhere in `hay`.
pub open spec fn occurs_in(needle: Seq<char>, hay: Seq<char>) -> bool {
    exists|at: int| occurs_at(needle, hay, at)
}

/// Tells whether `needle` stands in `hay` at position `at`.
fn found_at(needle: &Vec<char>, hay: &Vec<char>, at: usize) -> (found: bool)
    requires
        at + needle.len() <= hay.len(),
    ensures
        found == occurs_at(needle@, hay@, at as int),
{
    let mut k: usize = 0;
    while k < needle.len()
        invariant
            k <= needle.len(),
            at + needle.len() <= hay.len(),
            forall|j: int| 0 <= j < k ==> hay[at + j] == needle[j],
        decreases needle.len() - k,
    {
        if hay[at + k] != needle[k] {
            assert(hay@.subrange(at as int, at + needle.len())[k as int] != needle@[k as int]);
            return false;
        }
        k += 1;
    }
    assert(hay@.subrange(at as int, at + needle.len()) =~= needle@);
    true
}

/// Tells whether `needle` stands somewhere in `hay`.
pub fn contains(hay: &str, needle: &str) -> (found: bool)
    ensures
        found == occurs_in(needle@, hay@),
{
    let all = chars_of(hay);
    let sought = chars_of(needle);
    if sought.len() == 0 {
        assert(hay@.subrange(0, 0) =~= needle@);
        assert(occurs_at(needle@, hay@, 0));
        return true;
    }
    let mut at: usize = 0;
    while at < all.len() && sought.len() <= all.len() - at
        invariant
            all@ == hay@,
            sought@ == needle@,
            sought.len() > 0,
            at <= all.len(),
            forall|j: int| 0 <= j < at ==> !occurs_at(needle@, hay@, j),
        decreases all.len() - at,
    {
        if found_at(&sought, &all, at) {
            return true;
        }
        at += 1;
    }
    false
}

/// `s` without the `c`s that it ends in.
pub open spec fn trimmed_end(s: Seq<char>, c: char) -> Seq<char>
    decreases s.len(),
{
    if s.len() > 0 && s.last() == c {
        trimmed_end(s.drop_last(), c)
    } else {
        s
    }
}

/// Finds where `trimmed_end(chars, c)` ends.
pub fn end_trimmed(chars: &Vec<char>, c: char) -> (end: usize)
    ensures
        end <= chars.len(),
        chars@.take(end as int) == trimmed_end(chars@, c),
{
    let mut end = chars.len();
    assert(chars@.take(end as int) == chars@);
    while end > 0 && chars[end - 1] == c
        invariant
            end <= chars.len(),
            trimmed_end(chars@, c) == trimmed_end(chars@.take(end as int), c),
        decreases end,
    {
        assert(chars@.take(end as int).drop_last() == chars@.take(end - 1));
        end -= 1;
    }
    end
}

/// Tells whether two texts hold the same characters.
pub fn same_text(first: &str, second: &str) -> (same: bool)
    ensures
        same == (first@ == second@),
{
    let a = chars_of(first);
    let b = chars_of(second);
    if a.len() != b.len() {
        return false;
    }
    let mut at: usize = 0;
    while at < a.len()
        invariant
            a@ == first@,
            b@ == second@,
            a.len() == b.len(),
            at <= a.len(),
            forall|j: int| 0 <= j < at ==> a[j] == b[j],
        decreases a.len() - at,
    {
        if a[at] != b[at] {
            return false;
        }
        at += 1;
    }
    assert(a@ =~= b@);
    true
}

/// The ASCII digit that stands for `d`, a number below ten.
pub open spec fn digit_char(d: nat) -> char {
    if d == 0 {
        '0'
    } else if d == 1 {
        '1'
    } else if d == 2 {
        '2'
    } else if d == 3 {
        '3'
    } else if d == 4 {
        '4'
    } else if d == 5 {
        '5'
    } else if d == 6 {
        '6'
    } else if d == 7 {
        '7'
    } else if d == 8 {
        '8'
    } else {
        '9'
    }
}

/// `n` written in base ten, without leading zeros.
pub open spec fn decimal_digits(n: nat) -> Seq<char>
    decreases n,
{
    if n < 10 {
        seq![digit_char(n)]
    } else {
        decimal_digits(n / 10).push(digit_char(n % 10))
    }
}

/// What `decimal_digits` writes is read back as the same number.
pub proof fn lemma_decimal_digits_read_back(n: nat)
    ensures
        decimal_digits(n).len() > 0,
        all_digits(decimal_digits(n)),
        decimal_value(decimal_digits(n)) == n,
    decreases n,
{
    if n < 10 {
        let s = seq![digit_char(n)];
        assert(s.drop_last().len() == 0);
        assert(decimal_value(s.drop_last()) == 0);
        assert(s.last() == digit_char(n));
    } else {
        lemma_decimal_digits_read_back(n / 10);
        let s = decimal_digits(n);
        assert(s.drop_last() == decimal_digits(n / 10));
        assert(s.last() == digit_char(n % 10));
        assert forall|i: int| 0 <= i < s.len() implies is_digit(#[trigger] s[i]) by {
            if i < s.len() - 1 {
                assert(s[i] == decimal_digits(n / 10)[i]);
            }
        }
    }
}

/// The text of one ASCII digit.
fn digit_text(d: u64) -> (text: &'static str)
    requires
        d < 10,
    ensures
        text@ == seq![digit_char(d as nat)],
{
    proof {
        reveal_strlit("0");
        reveal_strlit("1");
        reveal_strlit("2");
        reveal_strlit("3");
        reveal_strlit("4");
        reveal_strlit("5");
        reveal_strlit("6");
        reveal_strlit("7");
        reveal_strlit("8");
        reveal_strlit("9");
    }
    let text = if d == 0 {
        "0"
    } else if d == 1 {
        "1"
    } else if d == 2 {
        "2"
    } else if d == 3 {
        "3"
    } else if d == 4 {
        "4"
    } else if d == 5 {
        "5"
    } else if d == 6 {
        "6"
    } else if d == 7 {
        "7"
    } else if d == 8 {
        "8"
    } else {
        "9"
    };
    assert(text@ =~= seq![digit_char(d as nat)]);
    text
}

/// Writes `n` in base ten.
pub fn format_unsigned(n: u64) -> (text: String)
    ensures
        text@ == decimal_digits(n as nat),
    decreases n,
{
    if n < 10 {
        String::from_str(digit_text(n))
    } else {
        let mut text = format_unsigned(n / 10);
        text.append(digit_text(n % 10));
        assert(text@ =~= decimal_digits(n as nat));
        text
    }
}

/// `n` written in base ten, with `-` in front where it is negative.
pub open spec fn integer_text(n: int) -> Seq<char> {
    if n < 0 {
        seq!['-'] + decimal_digits((-n) as nat)
    } else {
        decimal_digits(n as nat)
    }
}

/// Writes `n` in base ten.
pub fn format_integer(n: i64) -> (text: String)
    ensures
        text@ == integer_text(n as int),
{
    if n < 0 {
        proof {
            reveal_strlit("-");
        }
        let digits = format_unsigned((-(n as i128)) as u64);
        let text = join("-", digits.as_str());
        assert(text@ =~= integer_text(n as int));
        text
    } else {
        format_unsigned(n as u64)
    }
}

/// What `s` reads as: a whole number between `min` and `max`, written with
/// one or more ASCII digits behind an optional sign. The sign `-` is read
/// only where negative numbers are asked for.
pub open spec fn parse_integer(s: Seq<char>, min: int, max: int) -> Option<int> {
    if s.len() > 0 && s[0] == '-' && min < 0 {
        match parse_decimal(s.skip(1), (-min) as nat) {
            Some(value) => Some(-(value as int)),
            None => None,
        }
    } else if s.len() > 0 && s[0] == '+' {
        match parse_decimal(s.skip(1), max as nat) {
            Some(value) => Some(value as int),
            None => None,
        }
    } else {
        match parse_decimal(s, max as nat) {
            Some(value) => Some(value as int),
            None => None,
        }
    }
}

/// Reads the characters of `chars` between `from` and `to` as a whole number
/// that is at least `-below` and at most `max`.
pub fn parse_signed(chars: &Vec<char>, from: usize, to: usize, below: u64, max: u64) -> (number:
    Option<(bool, u64)>)
    requires
        from <= to <= chars.len(),
    ensures
        number.is_some() == parse_integer(
            chars@.subrange(from as int, to as int),
            -(below as int),
            max as int,
        ).is_some(),
        number matches Some((negative, size)) ==> parse_integer(
            chars@.subrange(from as int, to as int),
            -(below as int),
            max as int,
        ) == Some(
            if negative {
                -(size as int)
            } else {
                size as int
            },
        ) && (negative ==> size <= below) && (!negative ==> size <= max),
{
    let ghost s = chars@.subrange(from as int, to as int);
    if from < to {
        assert(s[0] == chars@[from as int]);
        assert(s.skip(1) == chars@.subrange(from + 1, to as int));
    }
    if from < to && chars[from] == '-' && below > 0 {
        match parse_unsigned(chars, from + 1, to, below) {
            Some(size) => Some((true, size)),
            None => None,
        }
    } else if from < to && chars[from] == '+' {
        match parse_unsigned(chars, from + 1, to, max) {
            Some(size) => Some((false, size)),
            None => None,
        }
    } else {
        match parse_unsigned(chars, from, to, max) {
            Some(size) => Some((false, size)),
            None => None,
        }
    }
}

/// What `integer_text` writes is read back as the same number.
pub proof fn lemma_integer_text_read_back(n: int, min: int, max: int)
    requires
        min <= n <= max,
        min <= 0 <= max,
    ensures
        parse_integer(integer_text(n), min, max) == Some(n),
        free_of(integer_text(n), ' '),
{
    let text = integer_text(n);
    if n < 0 {
        let size = (-n) as nat;
        lemma_decimal_digits_read_back(size);
        assert(text[0] == '-');
        assert(text.skip(1) == decimal_digits(size));
        assert forall|i: int| 0 <= i < text.len() implies #[trigger] text[i] != ' ' by {
            if i > 0 {
                assert(text[i] == decimal_digits(size)[i - 1]);
                assert(is_digit(decimal_digits(size)[i - 1]));
            }
        }
    } else {
        lemma_decimal_digits_read_back(n as nat);
        assert(is_digit(text[0]));
        assert forall|i: int| 0 <= i < text.len() implies #[trigger] text[i] != ' ' by {
            assert(is_digit(text[i]));
        }
    }
}

} // verus!
