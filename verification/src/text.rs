//! Text as sequences of characters: conversion from and to strings, line
//! splitting, trimming and lexicographic order.

use vstd::prelude::*;

verus! {

/// Whether a character has the Unicode property White_Space, as
/// `char::is_whitespace` reports it.
pub uninterp spec fn is_white_space(c: char) -> bool;

/// `char::is_whitespace`: the result is the White_Space property of the
/// character, which this library names [`is_white_space`].
pub assume_specification[ char::is_whitespace ](c: char) -> (b: bool)
    ensures
        b == is_white_space(c),
;

/// `String::push`: the character is appended to the string.
pub assume_specification[ String::push ](s: &mut String, c: char)
    ensures
        final(s)@ == old(s)@.push(c),
;

/// The characters of a string, in order.
pub fn chars_of(s: &str) -> (v: Vec<char>)
    ensures
        v@ == s@,
{
    let mut v: Vec<char> = Vec::new();
    for c in it: s.chars()
        invariant
            it.seq() == s@,
            v@ == it.seq().take(it.index() as int),
    {
        v.push(c);
    }
    v
}

/// The string made of the characters `chars[from..to]`.
pub fn string_of(chars: &Vec<char>, from: usize, to: usize) -> (s: String)
    requires
        from <= to <= chars.len(),
    ensures
        s@ == chars@.subrange(from as int, to as int),
{
    let mut s = String::new();
    let mut i: usize = from;
    while i < to
        invariant
            from <= i <= to <= chars.len(),
            s@ == chars@.subrange(from as int, i as int),
        decreases to - i,
    {
        s.push(chars[i]);
        i += 1;
    }
    s
}

/// The text without its leading white space.
pub open spec fn trim_start(s: Seq<char>) -> Seq<char>
    decreases s.len(),
{
    if s.len() > 0 && is_white_space(s[0]) {
        trim_start(s.drop_first())
    } else {
        s
    }
}

/// The text without its trailing white space.
pub open spec fn trim_end(s: Seq<char>) -> Seq<char>
    decreases s.len(),
{
    if s.len() > 0 && is_white_space(s.last()) {
        trim_end(s.drop_last())
    } else {
        s
    }
}

/// The text without leading and trailing white space.
pub open spec fn trimmed(s: Seq<char>) -> Seq<char> {
    trim_end(trim_start(s))
}

/// Trimmed text neither starts nor ends with white space, and trimming it
/// again changes nothing.
pub proof fn lemma_trimmed_is_tight(s: Seq<char>)
    ensures
        trimmed(s).len() > 0 ==> !is_white_space(trimmed(s).first()) && !is_white_space(
            trimmed(s).last(),
        ),
        trimmed(trimmed(s)) == trimmed(s),
        trimmed(s).len() <= s.len(),
{
    lemma_trim_start_shape(s);
    lemma_trim_end_shape(trim_start(s));
    let t = trimmed(s);
    if t.len() > 0 {
        assert(t.first() == trim_start(s).first());
    }
}

/// `trim_start` keeps a suffix of the text that does not begin with white
/// space.
pub proof fn lemma_trim_start_shape(s: Seq<char>)
    ensures
        trim_start(s).len() <= s.len(),
        trim_start(s) == s.skip(s.len() - trim_start(s).len()),
        trim_start(s).len() > 0 ==> !is_white_space(trim_start(s).first()),
    decreases s.len(),
{
    if s.len() > 0 && is_white_space(s[0]) {
        lemma_trim_start_shape(s.drop_first());
        let r = trim_start(s.drop_first());
        assert(s.drop_first().skip(s.drop_first().len() - r.len()) =~= s.skip(s.len() - r.len()));
    } else {
        assert(s.skip(0) =~= s);
    }
}

/// `trim_end` keeps a prefix of the text that does not end with white
/// space.
pub proof fn lemma_trim_end_shape(s: Seq<char>)
    ensures
        trim_end(s).len() <= s.len(),
        trim_end(s) == s.take(trim_end(s).len() as int),
        trim_end(s).len() > 0 ==> !is_white_space(trim_end(s).last()),
    decreases s.len(),
{
    if s.len() > 0 && is_white_space(s.last()) {
        lemma_trim_end_shape(s.drop_last());
        let r = trim_end(s.drop_last());
        assert(s.drop_last().take(r.len() as int) =~= s.take(r.len() as int));
    } else {
        assert(s.take(s.len() as int) =~= s);
    }
}

/// The number of flags set at the start of a list of flags, up to the first
/// that is not set.
pub open spec fn leading_set(flags: Seq<bool>) -> nat
    decreases flags.len(),
{
    if flags.len() > 0 && flags[0] {
        1 + leading_set(flags.drop_first())
    } else {
        0
    }
}

/// The number of flags set at the end of a list of flags, back to the last
/// that is not set.
pub open spec fn trailing_set(flags: Seq<bool>) -> nat
    decreases flags.len(),
{
    if flags.len() > 0 && flags.last() {
        1 + trailing_set(flags.drop_last())
    } else {
        0
    }
}

/// A text without the flagged characters at its start and at its end, where
/// `flags[i]` says whether the character at `i` is flagged. Flagged
/// characters between others stay.
pub open spec fn without_flagged_ends(s: Seq<char>, flags: Seq<bool>) -> Seq<char>
    recommends
        flags.len() == s.len(),
{
    let start = leading_set(flags);
    let end = s.len() - trailing_set(flags.skip(start as int));
    s.subrange(start as int, end)
}

/// For each character of a text, whether it is white space.
pub open spec fn white_space_flags(s: Seq<char>) -> Seq<bool> {
    Seq::new(s.len(), |i: int| is_white_space(s[i]))
}

/// `leading_set` counts the flags before the first that is not set.
pub proof fn lemma_leading_set(flags: Seq<bool>, n: nat)
    requires
        n <= flags.len(),
        forall|k: int| 0 <= k < n ==> #[trigger] flags[k],
        n < flags.len() ==> !flags[n as int],
    ensures
        leading_set(flags) == n,
    decreases n,
{
    if n > 0 {
        lemma_leading_set(flags.drop_first(), (n - 1) as nat);
    }
}

/// `trailing_set` counts the flags behind the last that is not set.
pub proof fn lemma_trailing_set(flags: Seq<bool>, n: nat)
    requires
        n <= flags.len(),
        forall|k: int| flags.len() - n <= k < flags.len() ==> #[trigger] flags[k],
        n < flags.len() ==> !flags[flags.len() - n - 1],
    ensures
        trailing_set(flags) == n,
    decreases n,
{
    if n > 0 {
        lemma_trailing_set(flags.drop_last(), (n - 1) as nat);
    }
}

/// The text between the flagged characters at its start and at its end, as
/// a string. `flags[i]` says whether `line[i]` is flagged.
pub fn trim_flagged(line: &Vec<char>, flags: &Vec<bool>) -> (r: String)
    requires
        flags.len() == line.len(),
    ensures
        r@ == without_flagged_ends(line@, flags@),
{
    let n: usize = line.len();
    let mut start: usize = 0;
    while start < n && flags[start]
        invariant
            start <= n == flags.len(),
            forall|k: int| 0 <= k < start ==> #[trigger] flags@[k],
        decreases n - start,
    {
        start += 1;
    }
    let mut end: usize = n;
    while end > start && flags[end - 1]
        invariant
            start <= end <= n == flags.len(),
            forall|k: int| end <= k < n ==> #[trigger] flags@[k],
        decreases end,
    {
        end -= 1;
    }
    proof {
        lemma_leading_set(flags@, start as nat);
        let rest = flags@.skip(start as int);
        assert forall|k: int| rest.len() - (n - end) <= k < rest.len() implies #[trigger]
            rest[k] by {
            assert(rest[k] == flags@[k + start]);
        }
        if end > start {
            assert(rest[end - start - 1] == flags@[end - 1]);
        }
        lemma_trailing_set(rest, (n - end) as nat);
    }
    string_of(line, start, end)
}

/// Trimming a text is dropping, at both ends, the characters flagged as
/// white space.
pub proof fn lemma_trimmed_by_flags(s: Seq<char>)
    ensures
        trimmed(s) == without_flagged_ends(s, white_space_flags(s)),
{
    let flags = white_space_flags(s);
    lemma_trim_start_shape(s);
    let kept = trim_start(s);
    let start = (s.len() - kept.len()) as nat;
    lemma_trim_start_prefix(s);
    lemma_leading_set(flags, start);
    lemma_trim_end_shape(kept);
    let out = trim_end(kept);
    lemma_trim_end_suffix(kept);
    let rest = flags.skip(start as int);
    let gone = (kept.len() - out.len()) as nat;
    assert forall|k: int| rest.len() - gone <= k < rest.len() implies #[trigger] rest[k] by {
        assert(rest[k] == is_white_space(kept[k]));
    }
    if gone < rest.len() {
        assert(rest[rest.len() - gone - 1] == is_white_space(out.last()));
    }
    lemma_trailing_set(rest, gone);
    assert(out =~= s.subrange(start as int, s.len() - gone));
}

/// What `trim_start` drops is white space.
pub proof fn lemma_trim_start_prefix(s: Seq<char>)
    ensures
        trim_start(s).len() <= s.len(),
        forall|k: int| 0 <= k < s.len() - trim_start(s).len() ==> is_white_space(#[trigger] s[k]),
    decreases s.len(),
{
    if s.len() > 0 && is_white_space(s[0]) {
        lemma_trim_start_prefix(s.drop_first());
        assert forall|k: int| 0 <= k < s.len() - trim_start(s).len() implies is_white_space(
            #[trigger] s[k],
        ) by {
            if k > 0 {
                assert(s[k] == s.drop_first()[k - 1]);
            }
        }
    }
}

/// What `trim_end` drops is white space.
pub proof fn lemma_trim_end_suffix(s: Seq<char>)
    ensures
        trim_end(s).len() <= s.len(),
        forall|k: int| trim_end(s).len() <= k < s.len() ==> is_white_space(#[trigger] s[k]),
    decreases s.len(),
{
    if s.len() > 0 && is_white_space(s.last()) {
        lemma_trim_end_suffix(s.drop_last());
        assert forall|k: int| trim_end(s).len() <= k < s.len() implies is_white_space(
            #[trigger] s[k],
        ) by {
            if k < s.len() - 1 {
                assert(s[k] == s.drop_last()[k]);
            }
        }
    }
}

/// The line without leading and trailing white space, as a string.
pub fn trim(line: &Vec<char>) -> (r: String)
    ensures
        r@ == trimmed(line@),
{
    let mut flags: Vec<bool> = Vec::new();
    let mut i: usize = 0;
    while i < line.len()
        invariant
            i <= line.len(),
            flags.len() == i,
            forall|k: int| 0 <= k < i ==> #[trigger] flags@[k] == is_white_space(line@[k]),
        decreases line.len() - i,
    {
        flags.push(line[i].is_whitespace());
        i += 1;
    }
    proof {
        assert(flags@ =~= white_space_flags(line@));
        lemma_trimmed_by_flags(line@);
    }
    trim_flagged(line, &flags)
}

/// Number of characters before the first occurrence of `stop` in the text:
/// its length where `stop` does not occur.
pub open spec fn length_before(s: Seq<char>, stop: char) -> nat
    decreases s.len(),
{
    if s.len() == 0 || s[0] == stop {
        0
    } else {
        1 + length_before(s.drop_first(), stop)
    }
}

/// Number of characters before the first line feed of the text: its length
/// where it holds no line feed.
pub open spec fn line_end(s: Seq<char>) -> nat {
    length_before(s, '\n')
}

/// A line as it stood before its line feed, without the carriage return
/// that may precede the line feed.
pub open spec fn without_carriage_return(line: Seq<char>) -> Seq<char> {
    if line.len() > 0 && line.last() == '\r' {
        line.drop_last()
    } else {
        line
    }
}

/// The lines of a text. A line ends at a line feed, or at a carriage return
/// directly followed by one; the terminator is not part of the line. The
/// last line needs no terminator, and a text that ends with a terminator has
/// no further, empty line after it.
pub open spec fn lines_of(s: Seq<char>) -> Seq<Seq<char>>
    decreases s.len(),
{
    if s.len() == 0 {
        Seq::empty()
    } else if line_end(s) < s.len() {
        seq![without_carriage_return(s.take(line_end(s) as int))] + lines_of(
            s.skip(line_end(s) as int + 1),
        )
    } else {
        seq![s]
    }
}

/// `length_before` is the position of the first occurrence of `stop`.
pub proof fn lemma_length_before(s: Seq<char>, stop: char, n: nat)
    requires
        n <= s.len(),
        forall|k: int| 0 <= k < n ==> #[trigger] s[k] != stop,
        n < s.len() ==> s[n as int] == stop,
    ensures
        length_before(s, stop) == n,
    decreases n,
{
    if n > 0 {
        lemma_length_before(s.drop_first(), stop, (n - 1) as nat);
    }
}

/// The texts of a list of character vectors.
pub open spec fn texts_of(lines: Seq<Vec<char>>) -> Seq<Seq<char>> {
    Seq::new(lines.len(), |i: int| lines[i]@)
}

/// The characters `chars[from..to]`.
pub fn slice_of(chars: &Vec<char>, from: usize, to: usize) -> (part: Vec<char>)
    requires
        from <= to <= chars.len(),
    ensures
        part@ == chars@.subrange(from as int, to as int),
{
    let mut part: Vec<char> = Vec::new();
    let mut i: usize = from;
    while i < to
        invariant
            from <= i <= to <= chars.len(),
            part@ == chars@.subrange(from as int, i as int),
        decreases to - i,
    {
        part.push(chars[i]);
        i += 1;
    }
    part
}

/// Splits a text into its lines.
pub fn split_lines(content: &Vec<char>) -> (lines: Vec<Vec<char>>)
    ensures
        texts_of(lines@) == lines_of(content@),
{
    let n: usize = content.len();
    let mut lines: Vec<Vec<char>> = Vec::new();
    let mut start: usize = 0;
    let mut i: usize = 0;
    proof {
        assert(content@.skip(0) =~= content@);
        assert(texts_of(lines@) + lines_of(content@) =~= lines_of(content@));
    }
    while i < n
        invariant
            start <= i <= n == content.len(),
            forall|k: int| start <= k < i ==> #[trigger] content@[k] != '\n',
            lines_of(content@) == texts_of(lines@) + lines_of(content@.skip(start as int)),
        decreases n - i,
    {
        if content[i] == '\n' {
            let end: usize = if i > start && content[i - 1] == '\r' {
                i - 1
            } else {
                i
            };
            let line = slice_of(content, start, end);
            proof {
                let rest = content@.skip(start as int);
                lemma_length_before(rest, '\n', (i - start) as nat);
                assert(rest.take(i - start) =~= content@.subrange(start as int, i as int));
                assert(without_carriage_return(rest.take(i - start)) =~= line@);
                assert(rest.skip(i - start + 1) =~= content@.skip(i + 1));
                assert(texts_of(lines@.push(line)) =~= texts_of(lines@) + seq![line@]);
            }
            lines.push(line);
            start = i + 1;
        }
        i += 1;
    }
    if start < n {
        let line = slice_of(content, start, n);
        proof {
            let rest = content@.skip(start as int);
            lemma_length_before(rest, '\n', (n - start) as nat);
            assert(line@ =~= rest);
            assert(texts_of(lines@.push(line)) =~= texts_of(lines@) + seq![line@]);
        }
        lines.push(line);
    } else {
        proof {
            assert(texts_of(lines@) + Seq::<Seq<char>>::empty() =~= texts_of(lines@));
        }
    }
    lines
}

/// The number of bytes that a character takes in UTF-8.
pub open spec fn utf8_width(c: char) -> nat {
    if (c as u32) < 0x80 {
        1
    } else if (c as u32) < 0x800 {
        2
    } else if (c as u32) < 0x1_0000 {
        3
    } else {
        4
    }
}

/// The number of bytes that a text takes in UTF-8.
pub open spec fn utf8_length(s: Seq<char>) -> nat
    decreases s.len(),
{
    if s.len() == 0 {
        0
    } else {
        utf8_width(s[0]) + utf8_length(s.drop_first())
    }
}

/// The number of characters of a text that lie before a byte offset into
/// its UTF-8 form: those whose bytes end at the offset or before it. For
/// the offset at which a character starts, this is the index of that
/// character.
pub open spec fn chars_before(s: Seq<char>, offset: nat) -> nat
    decreases s.len(),
{
    if s.len() == 0 || utf8_width(s[0]) > offset {
        0
    } else {
        1 + chars_before(s.drop_first(), (offset - utf8_width(s[0])) as nat)
    }
}

/// The character at index `k` of a text starts at the byte offset that the
/// `k` characters before it take up, and `k` characters lie before that
/// offset.
pub proof fn lemma_chars_before_boundary(s: Seq<char>, k: int)
    requires
        0 <= k <= s.len(),
    ensures
        chars_before(s, utf8_length(s.take(k))) == k,
    decreases k,
{
    if k == 0 {
        assert(s.take(0) =~= Seq::<char>::empty());
    } else {
        lemma_chars_before_boundary(s.drop_first(), k - 1);
        assert(s.take(k).drop_first() =~= s.drop_first().take(k - 1));
        assert(s.take(k)[0] == s[0]);
    }
}

/// The number of bytes that a character takes in UTF-8.
pub fn width_of(c: char) -> (w: usize)
    ensures
        w == utf8_width(c),
{
    let v: u32 = c as u32;
    if v < 0x80 {
        1
    } else if v < 0x800 {
        2
    } else if v < 0x1_0000 {
        3
    } else {
        4
    }
}

/// The number of characters of a line that lie before a byte offset.
pub fn char_index(line: &Vec<char>, offset: usize) -> (count: usize)
    ensures
        count == chars_before(line@, offset as nat),
        count <= line.len(),
        count <= offset,
{
    let mut count: usize = 0;
    let mut used: usize = 0;
    proof {
        assert(line@.skip(0) =~= line@);
    }
    while count < line.len()
        invariant
            count <= line.len(),
            count <= used <= offset,
            chars_before(line@, offset as nat) == count + chars_before(
                line@.skip(count as int),
                (offset - used) as nat,
            ),
        ensures
            count <= line.len(),
            count <= offset,
            chars_before(line@, offset as nat) == count,
        decreases line.len() - count,
    {
        let width = width_of(line[count]);
        proof {
            assert(line@.skip(count as int)[0] == line@[count as int]);
            assert(line@.skip(count as int).drop_first() =~= line@.skip(count + 1));
        }
        if width > offset - used {
            break;
        }
        used += width;
        count += 1;
    }
    count
}

/// The parts of a text between separators. A text without a separator is
/// one part, and so is the empty text; a separator at the start, at the end
/// or next to another has an empty part beside it.
pub open spec fn parts_of(s: Seq<char>, separator: char) -> Seq<Seq<char>>
    decreases s.len(),
{
    if length_before(s, separator) < s.len() {
        seq![s.take(length_before(s, separator) as int)] + parts_of(
            s.skip(length_before(s, separator) as int + 1),
            separator,
        )
    } else {
        seq![s]
    }
}

/// The values of a separated list: its parts, each without surrounding
/// white space.
pub open spec fn list_values(s: Seq<char>, separator: char) -> Seq<Seq<char>> {
    Seq::new(parts_of(s, separator).len(), |i: int| trimmed(parts_of(s, separator)[i]))
}

/// The values of a separated list, such as `rs, py,go`.
pub fn split_list(list: &str, separator: char) -> (values: Vec<String>)
    ensures
        values.deep_view() == list_values(list@, separator),
{
    let content = chars_of(list);
    let n: usize = content.len();
    let mut values: Vec<String> = Vec::new();
    let ghost mut parts: Seq<Seq<char>> = Seq::empty();
    let mut start: usize = 0;
    let mut i: usize = 0;
    proof {
        assert(content@.skip(0) =~= content@);
        assert(parts + parts_of(content@, separator) =~= parts_of(content@, separator));
    }
    while i < n
        invariant
            start <= i <= n == content.len(),
            forall|k: int| start <= k < i ==> #[trigger] content@[k] != separator,
            parts_of(content@, separator) == parts + parts_of(
                content@.skip(start as int),
                separator,
            ),
            values.len() == parts.len(),
            forall|k: int| 0 <= k < parts.len() ==> (#[trigger] values@[k])@ == trimmed(parts[k]),
        decreases n - i,
    {
        if content[i] == separator {
            let part = slice_of(&content, start, i);
            let value = trim(&part);
            proof {
                let rest = content@.skip(start as int);
                lemma_length_before(rest, separator, (i - start) as nat);
                assert(rest.take(i - start) =~= part@);
                assert(rest.skip(i - start + 1) =~= content@.skip(i + 1));
                assert(parts.push(part@) + parts_of(content@.skip(i + 1), separator) =~= parts
                    + (seq![part@] + parts_of(content@.skip(i + 1), separator)));
                parts = parts.push(part@);
            }
            values.push(value);
            start = i + 1;
        }
        i += 1;
    }
    let part = slice_of(&content, start, n);
    let value = trim(&part);
    proof {
        let rest = content@.skip(start as int);
        lemma_length_before(rest, separator, (n - start) as nat);
        assert(part@ =~= rest);
        assert(parts.push(part@) =~= parts + seq![rest]);
        parts = parts.push(part@);
    }
    values.push(value);
    proof {
        assert(values.deep_view() =~= list_values(list@, separator));
    }
    values
}

/// How one text stands to another in lexicographic order.
#[derive(Debug, Clone, Copy, PartialEq, Eq, Structural)]
pub enum TextOrder {
    Before,
    Same,
    After,
}

/// Lexicographic order of texts by code point: whether `a` comes before `b`
/// or equals it. A proper prefix comes before the longer text.
pub open spec fn text_le(a: Seq<char>, b: Seq<char>) -> bool
    decreases a.len(),
{
    if a.len() == 0 {
        true
    } else if b.len() == 0 {
        false
    } else if a[0] != b[0] {
        (a[0] as int) < (b[0] as int)
    } else {
        text_le(a.drop_first(), b.drop_first())
    }
}

/// Any two texts are comparable, and two that precede each other are equal.
pub proof fn lemma_text_le_total(a: Seq<char>, b: Seq<char>)
    ensures
        text_le(a, b) || text_le(b, a),
        text_le(a, b) && text_le(b, a) ==> a == b,
        text_le(a, a),
    decreases a.len(),
{
    if a.len() > 0 && b.len() > 0 && a[0] != b[0] {
        assert(a[0] as int != b[0] as int);
    }
    if a.len() > 0 && b.len() > 0 && a[0] == b[0] {
        lemma_text_le_total(a.drop_first(), b.drop_first());
        if text_le(a, b) && text_le(b, a) {
            assert(a =~= seq![a[0]] + a.drop_first());
            assert(b =~= seq![b[0]] + b.drop_first());
        }
    } else if a.len() == 0 && b.len() == 0 {
        assert(a =~= b);
    }
    lemma_text_le_reflexive(a);
}

/// Every text precedes or equals itself.
pub proof fn lemma_text_le_reflexive(a: Seq<char>)
    ensures
        text_le(a, a),
    decreases a.len(),
{
    if a.len() > 0 {
        lemma_text_le_reflexive(a.drop_first());
    }
}

/// Lexicographic order is transitive.
pub proof fn lemma_text_le_transitive(a: Seq<char>, b: Seq<char>, c: Seq<char>)
    requires
        text_le(a, b),
        text_le(b, c),
    ensures
        text_le(a, c),
    decreases a.len(),
{
    if a.len() > 0 && b.len() > 0 && c.len() > 0 {
        if a[0] == b[0] && b[0] == c[0] {
            lemma_text_le_transitive(a.drop_first(), b.drop_first(), c.drop_first());
        }
    }
}

/// What `compare_text` answers for two texts.
pub open spec fn text_order(a: Seq<char>, b: Seq<char>) -> TextOrder {
    if a == b {
        TextOrder::Same
    } else if text_le(a, b) {
        TextOrder::Before
    } else {
        TextOrder::After
    }
}

/// Texts that agree on their first `n` characters compare as their
/// remainders do.
pub proof fn lemma_text_le_common_prefix(a: Seq<char>, b: Seq<char>, n: int)
    requires
        0 <= n <= a.len(),
        n <= b.len(),
        forall|k: int| 0 <= k < n ==> a[k] == b[k],
    ensures
        text_le(a, b) == text_le(a.skip(n), b.skip(n)),
        (a == b) == (a.skip(n) == b.skip(n)),
    decreases n,
{
    if n == 0 {
        assert(a.skip(0) =~= a);
        assert(b.skip(0) =~= b);
    } else {
        lemma_text_le_common_prefix(a.drop_first(), b.drop_first(), n - 1);
        assert(a.drop_first().skip(n - 1) =~= a.skip(n));
        assert(b.drop_first().skip(n - 1) =~= b.skip(n));
        if a.skip(n) == b.skip(n) {
            assert(a =~= b) by {
                assert(a.len() == b.len()) by {
                    assert(a.skip(n).len() == b.skip(n).len());
                }
                assert forall|k: int| 0 <= k < a.len() implies a[k] == b[k] by {
                    if k >= n {
                        assert(a.skip(n)[k - n] == b.skip(n)[k - n]);
                    }
                }
            }
        }
    }
}

/// Compares two texts in lexicographic order.
pub fn compare_text(a: &Vec<char>, b: &Vec<char>) -> (r: TextOrder)
    ensures
        r == text_order(a@, b@),
{
    let mut i: usize = 0;
    while i < a.len() && i < b.len()
        invariant
            i <= a.len(),
            i <= b.len(),
            forall|k: int| 0 <= k < i ==> a@[k] == b@[k],
        decreases a.len() - i,
    {
        if a[i] != b[i] {
            proof {
                lemma_text_le_common_prefix(a@, b@, i as int);
                assert(a@.skip(i as int)[0] == a@[i as int]);
                assert(b@.skip(i as int)[0] == b@[i as int]);
            }
            if a[i] < b[i] {
                return TextOrder::Before;
            } else {
                return TextOrder::After;
            }
        }
        i += 1;
    }
    proof {
        lemma_text_le_common_prefix(a@, b@, i as int);
        if a.len() == b.len() {
            assert(a@.skip(i as int) =~= b@.skip(i as int));
        }
    }
    if a.len() == b.len() {
        TextOrder::Same
    } else if a.len() < b.len() {
        TextOrder::Before
    } else {
        TextOrder::After
    }
}

} // verus!
