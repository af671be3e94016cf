//! Small helpers for building strings and measuring them.

use vstd::prelude::*;
use vstd::string::StrSliceExecFns;

verus! {

/// Number of bytes that the characters of `s` occupy in UTF-8; this is what
/// `str::len` measures.
pub open spec fn byte_len(s: Seq<char>) -> nat {
    vstd::utf8::encode_utf8(s).len()
}

/// Appends one character to `s`.
///
/// Wraps `String::push`: the string afterwards is the old string followed by `c`.
#[verifier::external_body]
pub(crate) fn push_char(s: &mut String, c: char)
    ensures
        final(s)@ == old(s)@.push(c),
{
    s.push(c)
}

/// Length of `s` in bytes, with the bound that the machine gives.
pub fn str_byte_len(s: &str) -> (n: usize)
    ensures
        n == byte_len(s@),
{
    s.as_bytes().len()
}

/// A page read up to some point: the non-empty lines that have ended, and
/// the characters of the line that has not.
pub open spec fn scan_lines(page: Seq<char>) -> (Seq<Seq<char>>, Seq<char>)
    decreases page.len(),
{
    if page.len() == 0 {
        (Seq::empty(), Seq::empty())
    } else {
        let (done, pending) = scan_lines(page.drop_last());
        if page.last() == '\n' {
            if pending.len() > 0 {
                (done.push(pending), Seq::empty())
            } else {
                (done, Seq::empty())
            }
        } else {
            (done, pending.push(page.last()))
        }
    }
}

/// The non-empty lines of a page, in order: the page is cut at every newline
/// character and the empty pieces are dropped.
pub open spec fn non_empty_lines(page: Seq<char>) -> Seq<Seq<char>> {
    let (done, pending) = scan_lines(page);
    if pending.len() > 0 {
        done.push(pending)
    } else {
        done
    }
}

/// Lines joined by single newlines, with none before the first and none
/// after the last.
pub open spec fn joined_lines(lines: Seq<Seq<char>>) -> Seq<char>
    decreases lines.len(),
{
    if lines.len() == 0 {
        Seq::empty()
    } else if lines.len() == 1 {
        lines[0]
    } else {
        joined_lines(lines.drop_last()) + seq!['\n'] + lines.last()
    }
}

/// Whether a line is not empty and holds no newline.
pub open spec fn is_plain_line(line: Seq<char>) -> bool {
    line.len() > 0 && forall|j: int| 0 <= j < line.len() ==> line[j] != '\n'
}

proof fn lemma_scan_lines_within_a_line(page: Seq<char>, more: Seq<char>)
    requires
        forall|j: int| 0 <= j < more.len() ==> more[j] != '\n',
    ensures
        scan_lines(page + more) == (scan_lines(page).0, scan_lines(page).1 + more),
    decreases more.len(),
{
    if more.len() == 0 {
        assert(page + more =~= page);
        assert(scan_lines(page).1 + more =~= scan_lines(page).1);
    } else {
        lemma_scan_lines_within_a_line(page, more.drop_last());
        assert((page + more).drop_last() =~= page + more.drop_last());
        assert((page + more).last() == more.last());
        assert((scan_lines(page).1 + more.drop_last()).push(more.last()) =~= scan_lines(page).1
            + more);
    }
}

proof fn lemma_scan_joined_lines(lines: Seq<Seq<char>>)
    requires
        lines.len() > 0,
        forall|i: int| 0 <= i < lines.len() ==> is_plain_line(#[trigger] lines[i]),
    ensures
        scan_lines(joined_lines(lines)) == (lines.drop_last(), lines.last()),
    decreases lines.len(),
{
    if lines.len() == 1 {
        lemma_scan_lines_within_a_line(Seq::empty(), lines[0]);
        assert(Seq::<char>::empty() + lines[0] =~= lines[0]);
        assert(lines.drop_last() =~= Seq::<Seq<char>>::empty());
    } else {
        let before = lines.drop_last();
        assert forall|i: int| 0 <= i < before.len() implies is_plain_line(#[trigger] before[i]) by {
            assert(before[i] == lines[i]);
        }
        lemma_scan_joined_lines(before);
        let ended = joined_lines(before) + seq!['\n'];
        assert(ended.drop_last() =~= joined_lines(before));
        assert(before.drop_last().push(before.last()) =~= before);
        assert(scan_lines(ended) == (before, Seq::<char>::empty()));
        lemma_scan_lines_within_a_line(ended, lines.last());
        assert(Seq::<char>::empty() + lines.last() =~= lines.last());
    }
}

/// Cutting undoes joining: the non-empty lines of lines joined by newlines
/// are those lines, where none of them is empty or holds a newline.
pub proof fn lemma_lines_of_joined_lines(lines: Seq<Seq<char>>)
    requires
        forall|i: int| 0 <= i < lines.len() ==> is_plain_line(#[trigger] lines[i]),
    ensures
        non_empty_lines(joined_lines(lines)) == lines,
{
    if lines.len() > 0 {
        lemma_scan_joined_lines(lines);
        assert(is_plain_line(lines[lines.len() - 1]));
        assert(lines.drop_last().push(lines.last()) =~= lines);
    } else {
        assert(lines =~= Seq::empty());
    }
}

/// The texts of a vector of strings.
pub open spec fn texts(v: Seq<String>) -> Seq<Seq<char>> {
    Seq::new(v.len(), |i: int| v[i]@)
}

/// Cuts a page at its newline characters and keeps the non-empty lines.
pub fn split_non_empty_lines(page: &str) -> (lines: Vec<String>)
    ensures
        texts(lines@) == non_empty_lines(page@),
{
    let mut lines: Vec<String> = Vec::new();
    let mut pending = String::new();
    for c in it: page.chars()
        invariant
            it.seq() == page@,
            (texts(lines@), pending@) == scan_lines(page@.take(it.index() as int)),
    {
        proof {
            let next = page@.take(it.index() + 1);
            assert(next.drop_last() == page@.take(it.index() as int));
            assert(next.last() == c);
        }
        if c == '\n' {
            if !pending.as_str().is_empty() {
                let ghost before = texts(lines@);
                lines.push(pending);
                assert(texts(lines@) =~= before.push(pending@));
                pending = String::new();
            } else {
                assert(pending@ =~= Seq::empty());
            }
        } else {
            push_char(&mut pending, c);
        }
    }
    assert(page@.take(page@.len() as int) == page@);
    if !pending.as_str().is_empty() {
        let ghost before = texts(lines@);
        lines.push(pending);
        assert(texts(lines@) =~= before.push(pending@));
    }
    lines
}

/// `s` without the characters `c` at its end.
pub open spec fn without_trailing(s: Seq<char>, c: char) -> Seq<char>
    decreases s.len(),
{
    if s.len() > 0 && s.last() == c {
        without_trailing(s.drop_last(), c)
    } else {
        s
    }
}

/// What is left of a trimmed string is its beginning.
pub proof fn lemma_without_trailing_is_prefix(s: Seq<char>, c: char)
    ensures
        without_trailing(s, c).len() <= s.len(),
        without_trailing(s, c) == s.take(without_trailing(s, c).len() as int),
    decreases s.len(),
{
    if s.len() > 0 && s.last() == c {
        lemma_without_trailing_is_prefix(s.drop_last(), c);
        let n = without_trailing(s, c).len() as int;
        assert(s.drop_last().take(n) == s.take(n));
    } else {
        assert(s.take(s.len() as int) == s);
    }
}

/// Cuts the characters `c` off the end of `s`.
pub fn trim_trailing(s: &str, c: char) -> (trimmed: &str)
    ensures
        trimmed@ == without_trailing(s@, c),
{
    let mut end = s.unicode_len();
    assert(s@.take(end as int) == s@);
    while end > 0 && s.get_char(end - 1) == c
        invariant
            end <= s@.len(),
            without_trailing(s@, c) == without_trailing(s@.take(end as int), c),
        decreases end,
    {
        assert(s@.take(end as int).drop_last() == s@.take(end - 1));
        end -= 1;
    }
    s.substring_char(0, end)
}

/// The character for one decimal digit.
pub open spec fn digit_char(d: int) -> char {
    (48 + d) as char
}

/// A number in decimal, without sign or leading zeros.
pub open spec fn decimal(n: nat) -> Seq<char>
    decreases n,
{
    if n < 10 {
        seq![digit_char(n as int)]
    } else {
        decimal(n / 10).push(digit_char((n % 10) as int))
    }
}

/// Writes a number in decimal.
pub fn decimal_string(n: u64) -> (s: String)
    ensures
        s@ == decimal(n as nat),
    decreases n,
{
    let last = ((n % 10) as u8 + 48) as char;
    if n < 10 {
        let mut s = String::new();
        push_char(&mut s, last);
        s
    } else {
        let mut s = decimal_string(n / 10);
        push_char(&mut s, last);
        s
    }
}

/// The parts one after the other, with nothing between them.
pub open spec fn concat(parts: Seq<Seq<char>>) -> Seq<char>
    decreases parts.len(),
{
    if parts.len() == 0 {
        Seq::empty()
    } else {
        concat(parts.drop_last()) + parts.last()
    }
}

/// A trimmed string does not end with the character that was cut off.
pub proof fn lemma_without_trailing_end(s: Seq<char>, c: char)
    ensures
        without_trailing(s, c).len() == 0 || without_trailing(s, c).last() != c,
    decreases s.len(),
{
    if s.len() > 0 && s.last() == c {
        lemma_without_trailing_end(s.drop_last(), c);
    }
}

/// A string that does not end with a character loses nothing when that
/// character is cut off its end.
pub proof fn lemma_without_trailing_same(s: Seq<char>, c: char)
    requires
        s.len() == 0 || s.last() != c,
    ensures
        without_trailing(s, c) == s,
{
}

/// The characters of a string, one by one.
pub fn chars_of(s: &str) -> (chars: Vec<char>)
    ensures
        chars@ == s@,
{
    let mut chars: Vec<char> = Vec::new();
    for c in it: s.chars()
        invariant
            it.seq() == s@,
            chars@ == s@.take(it.index() as int),
    {
        chars.push(c);
        assert(s@.take(it.index() + 1) =~= s@.take(it.index() as int).push(c));
    }
    assert(s@.take(s@.len() as int) == s@);
    chars
}

/// Whether two strings hold the same text.
pub fn same_text(a: &str, b: &str) -> (same: bool)
    ensures
        same == (a@ == b@),
{
    let a_chars = chars_of(a);
    let b_chars = chars_of(b);
    if a_chars.len() != b_chars.len() {
        return false;
    }
    let mut i: usize = 0;
    while i < a_chars.len()
        invariant
            i <= a_chars.len(),
            a_chars.len() == b_chars.len(),
            a_chars@ == a@,
            b_chars@ == b@,
            a@.take(i as int) == b@.take(i as int),
        decreases a_chars.len() - i,
    {
        if a_chars[i] != b_chars[i] {
            return false;
        }
        assert(a@.take(i + 1) =~= a@.take(i as int).push(a@[i as int]));
        assert(b@.take(i + 1) =~= b@.take(i as int).push(b@[i as int]));
        i += 1;
    }
    assert(a@.take(a@.len() as int) == a@);
    assert(b@.take(b@.len() as int) == b@);
    true
}

/// Whether `needle` stands in `haystack` at position `at`.
pub open spec fn occurs_at(haystack: Seq<char>, needle: Seq<char>, at: int) -> bool {
    0 <= at && at + needle.len() <= haystack.len() && haystack.subrange(
        at,
        at + needle.len(),
    ) == needle
}

/// Whether `needle` stands somewhere in `haystack`.
pub open spec fn occurs_in(haystack: Seq<char>, needle: Seq<char>) -> bool {
    exists|at: int| occurs_at(haystack, needle, at)
}

fn matches_at(haystack: &Vec<char>, needle: &Vec<char>, at: usize) -> (found: bool)
    requires
        at + needle.len() <= haystack.len(),
    ensures
        found == occurs_at(haystack@, needle@, at as int),
{
    let mut j: usize = 0;
    while j < needle.len()
        invariant
            j <= needle.len(),
            at + needle.len() <= haystack.len(),
            haystack@.subrange(at as int, at + j) == needle@.take(j as int),
        decreases needle.len() - j,
    {
        if haystack[at + j] != needle[j] {
            assert(haystack@.subrange(at as int, at + needle.len())[j as int] != needle@[j as int]);
            return false;
        }
        assert(haystack@.subrange(at as int, at + j + 1) =~= haystack@.subrange(
            at as int,
            at + j,
        ).push(haystack@[at + j]));
        assert(needle@.take(j + 1) =~= needle@.take(j as int).push(needle@[j as int]));
        j += 1;
    }
    assert(needle@.take(needle@.len() as int) == needle@);
    true
}

/// Whether `needle` stands somewhere in `haystack`.
pub fn contains_text(haystack: &str, needle: &str) -> (found: bool)
    ensures
        found == occurs_in(haystack@, needle@),
{
    let hay = chars_of(haystack);
    let pin = chars_of(needle);
    if pin.len() > hay.len() {
        return false;
    }
    let last = hay.len() - pin.len();
    let mut at: usize = 0;
    loop
        invariant
            at <= last,
            last == hay.len() - pin.len(),
            pin.len() <= hay.len(),
            hay@ == haystack@,
            pin@ == needle@,
            forall|k: int| 0 <= k < at ==> !occurs_at(haystack@, needle@, k),
        decreases last - at,
    {
        if matches_at(&hay, &pin, at) {
            return true;
        }
        if at == last {
            return false;
        }
        at += 1;
    }
}

} // verus!
