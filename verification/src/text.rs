//! Lines, prefixes and white space of text, stated over its characters.

use vstd::prelude::*;

verus! {

/// `String::push` puts one character at the end of the string and changes nothing else.
pub assume_specification[ String::push ](s: &mut String, c: char)
    ensures
        final(s)@ == old(s)@.push(c),
;

/// The characters with the Unicode property `White_Space`.
pub open spec fn is_white_space(c: char) -> bool {
    let n = c as u32;
    ||| 0x09 <= n <= 0x0d
    ||| n == 0x20
    ||| n == 0x85
    ||| n == 0xa0
    ||| n == 0x1680
    ||| 0x2000 <= n <= 0x200a
    ||| 0x2028 <= n <= 0x2029
    ||| n == 0x202f
    ||| n == 0x205f
    ||| n == 0x3000
}

/// `s` without the white space at its start.
pub open spec fn trimmed_start(s: Seq<char>) -> Seq<char>
    decreases s.len(),
{
    if s.len() > 0 && is_white_space(s[0]) {
        trimmed_start(s.skip(1))
    } else {
        s
    }
}

/// `s` without the white space at its end.
pub open spec fn trimmed_end(s: Seq<char>) -> Seq<char>
    decreases s.len(),
{
    if s.len() > 0 && is_white_space(s.last()) {
        trimmed_end(s.drop_last())
    } else {
        s
    }
}

/// `s` without the white space at both of its ends.
pub open spec fn trimmed(s: Seq<char>) -> Seq<char> {
    trimmed_end(trimmed_start(s))
}

/// `s` without any of the copies of `prefix` that stand one after the other at its start.
pub open spec fn without_prefixes(s: Seq<char>, prefix: Seq<char>) -> Seq<char>
    decreases s.len(),
{
    if prefix.len() > 0 && prefix.is_prefix_of(s) {
        without_prefixes(s.skip(prefix.len() as int), prefix)
    } else {
        s
    }
}

/// The index of the first line feed in `s`, or the length of `s` where it holds none.
pub open spec fn line_feed(s: Seq<char>) -> nat
    decreases s.len(),
{
    if s.len() == 0 || s[0] == '\n' {
        0
    } else {
        1 + line_feed(s.skip(1))
    }
}

/// A line without the carriage return that belonged to its line feed.
pub open spec fn without_return(line: Seq<char>) -> Seq<char> {
    if line.len() > 0 && line.last() == '\r' {
        line.drop_last()
    } else {
        line
    }
}

/// The lines of `s`. A line ends with a line feed, or with a carriage return and a line feed;
/// the last line may do without. The ends are no part of the lines.
pub open spec fn lines(s: Seq<char>) -> Seq<Seq<char>>
    decreases s.len(),
{
    let n = line_feed(s);
    if s.len() == 0 {
        seq![]
    } else if n >= s.len() {
        seq![s]
    } else {
        seq![without_return(s.take(n as int))] + lines(s.skip(n as int + 1))
    }
}

/// The carriage return and line feed that stand between joined lines.
pub open spec fn line_break() -> Seq<char> {
    seq!['\r', '\n']
}

/// Every line of `parts` with a line break before it.
pub open spec fn continued(parts: Seq<Seq<char>>) -> Seq<char>
    decreases parts.len(),
{
    if parts.len() == 0 {
        seq![]
    } else {
        line_break() + parts[0] + continued(parts.skip(1))
    }
}

/// The lines of `parts` with a line break between each two of them.
pub open spec fn joined(parts: Seq<Seq<char>>) -> Seq<char> {
    if parts.len() == 0 {
        seq![]
    } else {
        parts[0] + continued(parts.skip(1))
    }
}

/// What the elements of `v` hold.
pub open spec fn texts(v: Seq<String>) -> Seq<Seq<char>> {
    Seq::new(v.len(), |i: int| v[i]@)
}

/// Whether `c` is white space.
pub fn white_space(c: char) -> (r: bool)
    ensures
        r == is_white_space(c),
{
    let n: u32 = c as u32;
    (0x09 <= n && n <= 0x0d) || n == 0x20 || n == 0x85 || n == 0xa0 || n == 0x1680 || (0x2000 <= n
        && n <= 0x200a) || (0x2028 <= n && n <= 0x2029) || n == 0x202f || n == 0x205f || n
        == 0x3000
}

/// The characters of `s`.
pub fn chars_of(s: &str) -> (r: Vec<char>)
    ensures
        r@ == s@,
{
    let mut r: Vec<char> = Vec::new();
    for c in it: s.chars()
        invariant
            it.seq() == s@,
            r@ == s@.take(it.index()),
    {
        r.push(c);
    }
    assert(s@.take(s@.len() as int) == s@);
    r
}

/// The string made of the characters of `chars` from index `from` up to index `to`.
pub fn string_of(chars: &Vec<char>, from: usize, to: usize) -> (r: String)
    requires
        from <= to <= chars.len(),
    ensures
        r@ == chars@.subrange(from as int, to as int),
{
    let mut r = String::new();
    let mut i: usize = from;
    while i < to
        invariant
            from <= i <= to <= chars.len(),
            r@ == chars@.subrange(from as int, i as int),
        decreases to - i,
    {
        r.push(chars[i]);
        i = i + 1;
    }
    r
}

/// Whether `s` starts with `prefix`.
pub fn starts_with(s: &str, prefix: &str) -> (r: bool)
    ensures
        r == prefix@.is_prefix_of(s@),
{
    let chars = chars_of(s);
    let head = chars_of(prefix);
    assert(chars@.skip(0) == s@);
    starts_with_at(&chars, 0, &head)
}

/// Whether the characters of `chars` from index `from` on start with those of `head`.
fn starts_with_at(chars: &Vec<char>, from: usize, head: &Vec<char>) -> (r: bool)
    requires
        from <= chars.len(),
    ensures
        r == head@.is_prefix_of(chars@.skip(from as int)),
{
    if chars.len() - from < head.len() {
        return false;
    }
    let mut i: usize = 0;
    while i < head.len()
        invariant
            i <= head.len(),
            from + head.len() <= chars.len(),
            forall|j: int| 0 <= j < i ==> #[trigger] head@[j] == chars@.skip(from as int)[j],
        decreases head.len() - i,
    {
        if chars[from + i] != head[i] {
            assert(chars@.skip(from as int)[i as int] != head@[i as int]);
            return false;
        }
        i = i + 1;
    }
    true
}

/// `s` without the white space at both of its ends.
pub fn trim(s: &str) -> (r: String)
    ensures
        r@ == trimmed(s@),
{
    let chars = chars_of(s);
    assert(chars@.skip(0) == s@);
    trim_from(&chars, 0)
}

/// The characters of `chars` from index `start` on, without the white space at both ends.
fn trim_from(chars: &Vec<char>, start: usize) -> (r: String)
    requires
        start <= chars.len(),
    ensures
        r@ == trimmed(chars@.skip(start as int)),
{
    let mut from: usize = start;
    while from < chars.len() && white_space(chars[from])
        invariant
            start <= from <= chars.len(),
            trimmed_start(chars@.skip(from as int)) == trimmed_start(chars@.skip(start as int)),
        decreases chars.len() - from,
    {
        assert(chars@.skip(from as int).skip(1) == chars@.skip(from + 1));
        from = from + 1;
    }
    let ghost rest = chars@.skip(from as int);
    let mut to: usize = chars.len();
    assert(chars@.subrange(from as int, to as int) == rest);
    while to > from && white_space(chars[to - 1])
        invariant
            from <= to <= chars.len(),
            trimmed_end(chars@.subrange(from as int, to as int)) == trimmed_end(rest),
        decreases to,
    {
        assert(chars@.subrange(from as int, to as int).drop_last() == chars@.subrange(
            from as int,
            to - 1,
        ));
        to = to - 1;
    }
    string_of(chars, from, to)
}

/// `s` without the copies of `prefix` at its start, and then without the white space at both
/// ends of what is left.
pub fn trim_after_prefixes(s: &str, prefix: &str) -> (r: String)
    ensures
        r@ == trimmed(without_prefixes(s@, prefix@)),
{
    let chars = chars_of(s);
    let head = chars_of(prefix);
    let mut from: usize = 0;
    assert(chars@.skip(0) == s@);
    while head.len() > 0 && starts_with_at(&chars, from, &head)
        invariant
            from <= chars.len(),
            head@ == prefix@,
            without_prefixes(chars@.skip(from as int), prefix@) == without_prefixes(s@, prefix@),
        decreases chars.len() - from,
    {
        assert(chars@.skip(from as int).skip(head@.len() as int) == chars@.skip(
            from + head@.len(),
        ));
        from = from + head.len();
    }
    trim_from(&chars, from)
}

/// The first line feed of `s` is at `n` where none stands before it.
proof fn lemma_line_feed(s: Seq<char>, n: int)
    requires
        0 <= n <= s.len(),
        forall|j: int| 0 <= j < n ==> s[j] != '\n',
        n < s.len() ==> s[n] == '\n',
    ensures
        line_feed(s) == n,
    decreases n,
{
    if n > 0 {
        assert forall|j: int| 0 <= j < n - 1 implies s.skip(1)[j] != '\n' by {
            assert(s.skip(1)[j] == s[j + 1]);
        }
        lemma_line_feed(s.skip(1), n - 1);
    }
}

/// The lines of `s`.
pub fn lines_of(s: &str) -> (r: Vec<String>)
    ensures
        texts(r@) == lines(s@),
        r@.len() == lines(s@).len(),
        forall|i: int| 0 <= i < r@.len() ==> (#[trigger] r@[i])@ == lines(s@)[i],
{
    let chars = chars_of(s);
    let mut r: Vec<String> = Vec::new();
    let mut start: usize = 0;
    let mut i: usize = 0;
    assert(chars@.skip(0) == s@);
    assert(texts(r@) + lines(s@) == lines(s@));
    while i < chars.len()
        invariant
            start <= i <= chars.len(),
            chars@ == s@,
            forall|j: int| start <= j < i ==> chars@[j] != '\n',
            texts(r@) + lines(chars@.skip(start as int)) == lines(s@),
        decreases chars.len() - i,
    {
        if chars[i] == '\n' {
            let to: usize = if i > start && chars[i - 1] == '\r' {
                i - 1
            } else {
                i
            };
            let line = string_of(&chars, start, to);
            let ghost rest = chars@.skip(start as int);
            let ghost before = texts(r@);
            proof {
                lemma_line_feed(rest, i - start);
                assert(rest.take(i - start) == chars@.subrange(start as int, i as int));
                assert(without_return(rest.take(i - start)) == line@);
                assert(rest.skip(i - start + 1) == chars@.skip(i + 1));
                assert(lines(rest) == seq![line@] + lines(chars@.skip(i + 1)));
            }
            r.push(line);
            assert(texts(r@) == before.push(line@));
            assert(before + (seq![line@] + lines(chars@.skip(i + 1))) == before.push(line@)
                + lines(chars@.skip(i + 1)));
            start = i + 1;
        }
        i = i + 1;
    }
    if start < chars.len() {
        let line = string_of(&chars, start, chars.len());
        let ghost rest = chars@.skip(start as int);
        let ghost before = texts(r@);
        proof {
            lemma_line_feed(rest, rest.len() as int);
            assert(line@ == rest);
        }
        r.push(line);
        assert(texts(r@) == before + seq![rest]);
    } else {
        assert(texts(r@) + Seq::<Seq<char>>::empty() == texts(r@));
    }
    assert forall|i: int| 0 <= i < r@.len() implies (#[trigger] r@[i])@ == lines(s@)[i] by {
        assert(texts(r@)[i] == r@[i]@);
    }
    r
}

/// The lines of `parts` with a line break between each two of them.
pub fn join_lines(parts: &Vec<String>) -> (r: String)
    ensures
        r@ == joined(texts(parts@)),
{
    let mut r = String::new();
    if parts.len() == 0 {
        return r;
    }
    let ghost all = texts(parts@);
    r.append(parts[0].as_str());
    assert(r@ == all[0]);
    let mut i: usize = 1;
    while i < parts.len()
        invariant
            1 <= i <= parts.len(),
            all == texts(parts@),
            r@ + continued(all.skip(i as int)) == joined(all),
        decreases parts.len() - i,
    {
        let ghost before = r@;
        let ghost rest = all.skip(i as int);
        r.push('\r');
        r.push('\n');
        r.append(parts[i].as_str());
        proof {
            assert(rest.skip(1) == all.skip(i + 1));
            assert(r@ + continued(all.skip(i + 1)) == before + (line_break() + rest[0]
                + continued(rest.skip(1))));
        }
        i = i + 1;
    }
    assert(r@ + continued(all.skip(parts.len() as int)) == r@);
    r
}

/// `line_feed` finds a line feed, or the end, with no line feed before it.
proof fn lemma_line_feed_found(s: Seq<char>)
    ensures
        line_feed(s) <= s.len(),
        forall|j: int| 0 <= j < line_feed(s) ==> s[j] != '\n',
        line_feed(s) < s.len() ==> s[line_feed(s) as int] == '\n',
    decreases s.len(),
{
    if s.len() > 0 && s[0] != '\n' {
        let rest = s.skip(1);
        lemma_line_feed_found(rest);
        assert forall|j: int| 0 <= j < line_feed(s) implies s[j] != '\n' by {
            if j > 0 {
                assert(rest[j - 1] == s[j]);
            }
        }
    }
}

/// A text that ends with its only line feed has one line.
pub proof fn lemma_single_line(line: Seq<char>)
    requires
        !line.contains('\n'),
    ensures
        lines(line.push('\n')) == seq![without_return(line)],
{
    let s = line.push('\n');
    assert forall|j: int| 0 <= j < line.len() implies s[j] != '\n' by {
        assert(line.contains(line[j]));
    }
    lemma_line_feed(s, line.len() as int);
    assert(s.take(line.len() as int) == line);
    assert(lines(s.skip(line.len() as int + 1)) == Seq::<Seq<char>>::empty());
    assert(lines(s) == seq![without_return(line)]);
}

/// The lines of two texts one after the other are the lines of the first and then those of the
/// second, where the first ends with a line feed.
pub proof fn law_lines_concat(a: Seq<char>, b: Seq<char>)
    requires
        a.len() > 0 ==> a.last() == '\n',
    ensures
        lines(a + b) == lines(a) + lines(b),
    decreases a.len(),
{
    if a.len() == 0 {
        assert(a + b == b);
        assert(lines(a) + lines(b) == lines(b));
    } else {
        let n = line_feed(a) as int;
        lemma_line_feed_found(a);
        assert(n < a.len()) by {
            if n == a.len() {
                assert(a[a.len() - 1] != '\n');
            }
        }
        assert forall|j: int| 0 <= j < n implies (a + b)[j] != '\n' by {
            assert((a + b)[j] == a[j]);
        }
        lemma_line_feed(a + b, n);
        assert((a + b).take(n) == a.take(n));
        let rest = a.skip(n + 1);
        assert((a + b).skip(n + 1) == rest + b);
        law_lines_concat(rest, b);
        let first = seq![without_return(a.take(n))];
        assert(first + (lines(rest) + lines(b)) == (first + lines(rest)) + lines(b));
    }
}

/// `parts` without the last line, where that one is empty.
pub open spec fn without_empty_end(parts: Seq<Seq<char>>) -> Seq<Seq<char>> {
    if parts.len() > 0 && parts.last().len() == 0 {
        parts.drop_last()
    } else {
        parts
    }
}

/// Lines without line feeds that are joined are read back as they were, but for an empty last
/// line: nothing is left of it.
pub proof fn law_lines_of_joined(parts: Seq<Seq<char>>)
    requires
        forall|i: int| 0 <= i < parts.len() ==> !(#[trigger] parts[i]).contains('\n'),
    ensures
        lines(joined(parts)) == without_empty_end(parts),
    decreases parts.len(),
{
    if parts.len() == 1 {
        let s = joined(parts);
        assert(s == parts[0]);
        assert forall|j: int| 0 <= j < s.len() implies s[j] != '\n' by {
            assert(parts[0].contains(parts[0][j]));
        }
        lemma_line_feed(s, s.len() as int);
        assert(lines(s) == without_empty_end(parts));
    } else if parts.len() > 1 {
        let s = joined(parts);
        let first = parts[0];
        let rest = parts.skip(1);
        assert(s == first + line_break() + joined(rest));
        let n = first.len() as int + 1;
        assert forall|j: int| 0 <= j < n implies s[j] != '\n' by {
            if j < first.len() {
                assert(first.contains(first[j]));
            }
        }
        lemma_line_feed(s, n);
        assert(s.take(n) == first.push('\r'));
        assert(without_return(s.take(n)) == first);
        assert(s.skip(n + 1) == joined(rest));
        assert forall|i: int| 0 <= i < rest.len() implies !(#[trigger] rest[i]).contains('\n') by {
            assert(rest[i] == parts[i + 1]);
        }
        assert(rest.last() == parts.last());
        law_lines_of_joined(rest);
        assert(seq![first] + without_empty_end(rest) == without_empty_end(parts));
    }
}

/// No line of a text holds a line feed.
pub proof fn law_lines_hold_no_line_feed(s: Seq<char>)
    ensures
        forall|i: int| 0 <= i < lines(s).len() ==> !(#[trigger] lines(s)[i]).contains('\n'),
    decreases s.len(),
{
    if s.len() > 0 {
        let n = line_feed(s) as int;
        lemma_line_feed_found(s);
        if n < s.len() {
            let rest = s.skip(n + 1);
            law_lines_hold_no_line_feed(rest);
            let first = without_return(s.take(n));
            assert forall|i: int| 0 <= i < lines(s).len() implies !(
            #[trigger] lines(s)[i]).contains('\n') by {
                if i == 0 {
                    assert(lines(s)[0] == first);
                } else {
                    assert(lines(s)[i] == lines(rest)[i - 1]);
                }
            }
        }
    }
}

/// Text that neither starts nor ends with white space is not changed by trimming.
pub proof fn law_trimmed_fixed(s: Seq<char>)
    requires
        s.len() > 0 ==> !is_white_space(s[0]) && !is_white_space(s.last()),
    ensures
        trimmed(s) == s,
{
}

/// White space is made of the five control characters from the tab to the carriage return, the
/// next-line character, and the spaces and separators of Unicode.
pub proof fn law_white_space(c: char, r: bool)
    requires
        call_ensures(white_space, (c,), r),
    ensures
        r == is_white_space(c),
        r <==> {
            ||| c == '\t' || c == '\n' || c == '\u{b}' || c == '\u{c}' || c == '\r' || c == ' '
            ||| c == '\u{85}' || c == '\u{a0}' || c == '\u{1680}'
            ||| c == '\u{2000}' || c == '\u{2001}' || c == '\u{2002}' || c == '\u{2003}'
            ||| c == '\u{2004}' || c == '\u{2005}' || c == '\u{2006}' || c == '\u{2007}'
            ||| c == '\u{2008}' || c == '\u{2009}' || c == '\u{200a}'
            ||| c == '\u{2028}' || c == '\u{2029}' || c == '\u{202f}' || c == '\u{205f}'
            ||| c == '\u{3000}'
        },
{
}

/// White space before a text does not matter to what is left of its start.
proof fn lemma_trimmed_start(before: Seq<char>, s: Seq<char>)
    requires
        forall|i: int| 0 <= i < before.len() ==> is_white_space(#[trigger] before[i]),
    ensures
        trimmed_start(before + s) == trimmed_start(s),
    decreases before.len(),
{
    if before.len() == 0 {
        assert(before + s == s);
    } else {
        let rest = before.skip(1);
        assert((before + s)[0] == before[0]);
        assert((before + s).skip(1) == rest + s);
        assert forall|i: int| 0 <= i < rest.len() implies is_white_space(#[trigger] rest[i]) by {
            assert(rest[i] == before[i + 1]);
        }
        lemma_trimmed_start(rest, s);
    }
}

/// White space after a text does not matter to what is left of its end.
proof fn lemma_trimmed_end(s: Seq<char>, after: Seq<char>)
    requires
        forall|i: int| 0 <= i < after.len() ==> is_white_space(#[trigger] after[i]),
    ensures
        trimmed_end(s + after) == trimmed_end(s),
    decreases after.len(),
{
    if after.len() == 0 {
        assert(s + after == s);
    } else {
        let rest = after.drop_last();
        assert((s + after).last() == after.last());
        assert((s + after).drop_last() == s + rest);
        assert forall|i: int| 0 <= i < rest.len() implies is_white_space(#[trigger] rest[i]) by {
            assert(rest[i] == after[i]);
        }
        lemma_trimmed_end(s, rest);
    }
}

/// Trimming takes away the white space around a text, all of it and nothing else: whatever white
/// space stands around a text that neither starts nor ends with any, that text is left.
pub proof fn law_trimmed(before: Seq<char>, s: Seq<char>, after: Seq<char>)
    requires
        forall|i: int| 0 <= i < before.len() ==> is_white_space(#[trigger] before[i]),
        forall|i: int| 0 <= i < after.len() ==> is_white_space(#[trigger] after[i]),
        s.len() > 0 ==> !is_white_space(s[0]) && !is_white_space(s.last()),
    ensures
        trimmed(before + s + after) == s,
{
    assert(before + s + after == before + (s + after));
    lemma_trimmed_start(before, s + after);
    if s.len() == 0 {
        let nothing = Seq::<char>::empty();
        assert(s + after == after + nothing);
        lemma_trimmed_start(after, nothing);
        assert(trimmed(before + s + after) == s);
    } else {
        assert((s + after)[0] == s[0]);
        lemma_trimmed_end(s, after);
    }
}

/// What [`trim`] gives is the text without the white space around it.
pub proof fn law_trim(text: &str, before: Seq<char>, s: Seq<char>, after: Seq<char>, r: String)
    requires
        call_ensures(trim, (text,), r),
        text@ == before + s + after,
        forall|i: int| 0 <= i < before.len() ==> is_white_space(#[trigger] before[i]),
        forall|i: int| 0 <= i < after.len() ==> is_white_space(#[trigger] after[i]),
        s.len() > 0 ==> !is_white_space(s[0]) && !is_white_space(s.last()),
    ensures
        r@ == s,
{
    law_trimmed(before, s, after);
}

/// One more copy of the prefix at the start makes no difference, and text that does not start with
/// the prefix stays as it is.
pub proof fn law_without_prefixes(s: Seq<char>, prefix: Seq<char>)
    requires
        prefix.len() > 0,
    ensures
        without_prefixes(prefix + s, prefix) == without_prefixes(s, prefix),
        !prefix.is_prefix_of(s) ==> without_prefixes(s, prefix) == s,
        !prefix.is_prefix_of(without_prefixes(s, prefix)),
    decreases s.len(),
{
    assert((prefix + s).skip(prefix.len() as int) == s);
    assert(prefix.is_prefix_of(prefix + s));
    if prefix.is_prefix_of(s) {
        law_without_prefixes(s.skip(prefix.len() as int), prefix);
    }
}

/// What [`trim_after_prefixes`] gives does not depend on how often the prefix stands at the start,
/// nor on the white space around what is left.
pub proof fn law_trim_after_prefixes(
    text: &str,
    prefix: &str,
    before: Seq<char>,
    s: Seq<char>,
    after: Seq<char>,
    r: String,
)
    requires
        call_ensures(trim_after_prefixes, (text, prefix), r),
        prefix@.len() > 0,
        text@ == prefix@ + (before + s + after),
        !prefix@.is_prefix_of(before + s + after),
        forall|i: int| 0 <= i < before.len() ==> is_white_space(#[trigger] before[i]),
        forall|i: int| 0 <= i < after.len() ==> is_white_space(#[trigger] after[i]),
        s.len() > 0 ==> !is_white_space(s[0]) && !is_white_space(s.last()),
    ensures
        r@ == s,
{
    law_without_prefixes(before + s + after, prefix@);
    law_trimmed(before, s, after);
}

/// A text is read line by line: up to a line feed, or a carriage return and a line feed, the line,
/// and then the lines of the rest. What stands after the last line feed is a line too, unless it is
/// empty.
pub proof fn law_lines(line: Seq<char>, rest: Seq<char>)
    requires
        !line.contains('\n'),
    ensures
        lines(Seq::empty()) == Seq::<Seq<char>>::empty(),
        line.len() > 0 ==> lines(line) == seq![line],
        lines(line + seq!['\r', '\n'] + rest) == seq![line] + lines(rest),
        line.len() == 0 || line.last() != '\r' ==> lines(line + seq!['\n'] + rest) == seq![line]
            + lines(rest),
{
    assert forall|j: int| 0 <= j < line.len() implies line[j] != '\n' by {
        assert(line.contains(line[j]));
    }
    lemma_line_feed(line, line.len() as int);
    let returned = line.push('\r');
    assert(!returned.contains('\n'));
    lemma_single_line(returned);
    assert(returned.drop_last() == line);
    law_lines_concat(returned.push('\n'), rest);
    assert(line + seq!['\r', '\n'] + rest == returned.push('\n') + rest);
    lemma_single_line(line);
    law_lines_concat(line.push('\n'), rest);
    assert(line + seq!['\n'] + rest == line.push('\n') + rest);
}

/// One more line.
proof fn lemma_continued(parts: Seq<Seq<char>>, line: Seq<char>)
    ensures
        continued(parts.push(line)) == continued(parts) + seq!['\r', '\n'] + line,
    decreases parts.len(),
{
    let more = parts.push(line);
    if parts.len() == 0 {
        assert(more.skip(1) == parts);
        assert(continued(more) == continued(parts) + seq!['\r', '\n'] + line);
    } else {
        lemma_continued(parts.skip(1), line);
        assert(more.skip(1) == parts.skip(1).push(line));
        assert(continued(more) == continued(parts) + seq!['\r', '\n'] + line);
    }
}

/// Joining puts a carriage return and a line feed between each two lines, and nothing else.
pub proof fn law_joined(parts: Seq<Seq<char>>, line: Seq<char>)
    ensures
        joined(Seq::empty()) == Seq::<char>::empty(),
        joined(seq![line]) == line,
        parts.len() > 0 ==> joined(parts.push(line)) == joined(parts) + seq!['\r', '\n'] + line,
{
    assert(seq![line].skip(1) == Seq::<Seq<char>>::empty());
    assert(joined(seq![line]) == line);
    if parts.len() > 0 {
        assert(parts.push(line).skip(1) == parts.skip(1).push(line));
        lemma_continued(parts.skip(1), line);
        assert(joined(parts.push(line)) == joined(parts) + seq!['\r', '\n'] + line);
    }
}

/// What a list of strings holds, one by one.
pub proof fn law_texts(v: Seq<String>)
    ensures
        texts(v).len() == v.len(),
        forall|i: int| 0 <= i < v.len() ==> #[trigger] texts(v)[i] == v[i]@,
{
}

} // verus!
