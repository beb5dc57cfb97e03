//! Reading plain text: lines, fields, trimming, numbers.
//!
//! Text is handled as sequences of characters. The definitions below are the
//! ones of the standard library's string methods of the same names.
use vstd::prelude::*;

verus! {

/// `String::push` appends one character.
pub assume_specification[ String::push ](text: &mut String, c: char)
    ensures
        final(text)@ == old(text)@.push(c),
;

/// A list of strings as character sequences.
pub open spec fn texts(list: Seq<String>) -> Seq<Seq<char>> {
    list.map_values(|s: String| s@)
}

/// An optional string as an optional character sequence.
pub open spec fn optional_text(text: Option<String>) -> Option<Seq<char>> {
    match text {
        Some(s) => Some(s@),
        None => None,
    }
}

/// The characters with the Unicode property White_Space.
pub open spec fn white_space(c: char) -> bool {
    let n = c as u32;
    ||| 0x09 <= n <= 0x0d
    ||| n == 0x20
    ||| n == 0x85
    ||| n == 0xa0
    ||| n == 0x1680
    ||| 0x2000 <= n <= 0x200a
    ||| n == 0x2028
    ||| n == 0x2029
    ||| n == 0x202f
    ||| n == 0x205f
    ||| n == 0x3000
}

pub fn is_white_space(c: char) -> (white: bool)
    ensures
        white == white_space(c),
{
    let n: u32 = c as u32;
    (0x09 <= n && n <= 0x0d) || n == 0x20 || n == 0x85 || n == 0xa0 || n == 0x1680 || (0x2000 <= n
        && n <= 0x200a) || n == 0x2028 || n == 0x2029 || n == 0x202f || n == 0x205f || n == 0x3000
}

/// The text without leading white space.
pub open spec fn trimmed_start(s: Seq<char>) -> Seq<char>
    decreases s.len(),
{
    if s.len() > 0 && white_space(s[0]) {
        trimmed_start(s.drop_first())
    } else {
        s
    }
}

/// The text without trailing white space.
pub open spec fn trimmed_end(s: Seq<char>) -> Seq<char>
    decreases s.len(),
{
    if s.len() > 0 && white_space(s.last()) {
        trimmed_end(s.drop_last())
    } else {
        s
    }
}

/// The text without white space at either end.
pub open spec fn trimmed(s: Seq<char>) -> Seq<char> {
    trimmed_end(trimmed_start(s))
}

/// How many characters come before the first `c`; all of them if there is none.
pub open spec fn before(s: Seq<char>, c: char) -> int
    decreases s.len(),
{
    if s.len() == 0 || s[0] == c {
        0
    } else {
        1 + before(s.drop_first(), c)
    }
}

/// The `n`-th of the pieces between occurrences of `sep`, counted from 0.
pub open spec fn piece(s: Seq<char>, sep: char, n: nat) -> Option<Seq<char>>
    decreases n,
{
    let end = before(s, sep);
    if n == 0 {
        Some(s.take(end))
    } else if end >= s.len() {
        None
    } else {
        piece(s.skip(end + 1), sep, (n - 1) as nat)
    }
}

/// A line without the carriage return of its line ending.
pub open spec fn without_return(s: Seq<char>) -> Seq<char> {
    if s.len() > 0 && s.last() == '\r' {
        s.drop_last()
    } else {
        s
    }
}

/// The lines of a text. A line ends at a line feed, which may have a carriage
/// return before it; the last line needs no ending.
pub open spec fn lines_of(s: Seq<char>) -> Seq<Seq<char>>
    decreases s.len(),
{
    proof {
        lemma_before_bounds(s, '\n');
    }
    let end = before(s, '\n');
    if s.len() == 0 {
        Seq::empty()
    } else if end >= s.len() {
        seq![s]
    } else {
        seq![without_return(s.take(end))] + lines_of(s.skip(end + 1))
    }
}

/// `pattern` stands in `s` at position `i`.
pub open spec fn stands_at(s: Seq<char>, pattern: Seq<char>, i: int) -> bool {
    &&& 0 <= i
    &&& i + pattern.len() <= s.len()
    &&& s.subrange(i, i + pattern.len()) == pattern
}

/// `pattern` stands somewhere in `s`.
pub open spec fn has_text(s: Seq<char>, pattern: Seq<char>) -> bool {
    exists|i: int| #[trigger] stands_at(s, pattern, i)
}

/// `i` is the first position at which `pattern` stands in `s`.
pub open spec fn first_at(s: Seq<char>, pattern: Seq<char>, i: int) -> bool {
    &&& stands_at(s, pattern, i)
    &&& forall|j: int| j < i ==> !#[trigger] stands_at(s, pattern, j)
}

/// What `read` finds in each of the lines that it finds something in.
pub open spec fn collected(
    lines: Seq<Seq<char>>,
    read: spec_fn(Seq<char>) -> Option<Seq<char>>,
) -> Seq<Seq<char>>
    decreases lines.len(),
{
    if lines.len() == 0 {
        Seq::empty()
    } else {
        match read(lines.last()) {
            Some(found) => collected(lines.drop_last(), read).push(found),
            None => collected(lines.drop_last(), read),
        }
    }
}

/// The decimal digits of a number.
pub open spec fn decimal_digits(n: nat) -> Seq<char>
    decreases n,
{
    if n < 10 {
        seq![digit(n)]
    } else {
        decimal_digits(n / 10).push(digit(n % 10))
    }
}

pub open spec fn digit(n: nat) -> char {
    (48 + n) as char
}

pub proof fn lemma_before_bounds(s: Seq<char>, c: char)
    ensures
        0 <= before(s, c) <= s.len(),
        before(s, c) < s.len() ==> s[before(s, c)] == c,
        forall|i: int| 0 <= i < before(s, c) ==> #[trigger] s[i] != c,
    decreases s.len(),
{
    if s.len() > 0 && s[0] != c {
        lemma_before_bounds(s.drop_first(), c);
        assert forall|i: int| 0 <= i < before(s, c) implies #[trigger] s[i] != c by {
            if i > 0 {
                assert(s[i] == s.drop_first()[i - 1]);
            }
        }
    }
}

proof fn lemma_before_unique(s: Seq<char>, c: char, end: int)
    requires
        0 <= end <= s.len(),
        end < s.len() ==> s[end] == c,
        forall|i: int| 0 <= i < end ==> #[trigger] s[i] != c,
    ensures
        before(s, c) == end,
{
    lemma_before_bounds(s, c);
    let found = before(s, c);
    if found < end {
        assert(s[found] != c);
    }
}

/// Whether two strings hold the same characters.
pub fn same_text(a: &str, b: &str) -> (same: bool)
    ensures
        same == (a@ == b@),
{
    a.to_string() == b.to_string()
}

/// The characters of a string.
pub fn chars_of(text: &str) -> (chars: Vec<char>)
    ensures
        chars@ == text@,
{
    let mut chars: Vec<char> = Vec::new();
    for c in it: text.chars()
        invariant
            chars@ == it.seq().take(it.index()),
            it.seq() == text@,
    {
        proof {
            assert(it.seq().take(it.index() + 1) =~= it.seq().take(it.index()).push(c));
        }
        chars.push(c);
    }
    proof {
        assert(text@.take(text@.len() as int) =~= text@);
    }
    chars
}

/// A string made of the given characters.
pub fn string_of(chars: &Vec<char>) -> (text: String)
    ensures
        text@ == chars@,
{
    let mut text = String::new();
    let mut i: usize = 0;
    while i < chars.len()
        invariant
            i <= chars.len(),
            text@ == chars@.take(i as int),
        decreases chars.len() - i,
    {
        text.push(chars[i]);
        proof {
            assert(chars@.take(i + 1) =~= chars@.take(i as int).push(chars@[i as int]));
        }
        i = i + 1;
    }
    proof {
        assert(chars@.take(i as int) =~= chars@);
    }
    text
}

/// The characters from `start` up to, not including, `end`.
pub fn slice_of(chars: &Vec<char>, start: usize, end: usize) -> (part: Vec<char>)
    requires
        start <= end <= chars.len(),
    ensures
        part@ == chars@.subrange(start as int, end as int),
{
    let mut part: Vec<char> = Vec::new();
    let mut i: usize = start;
    while i < end
        invariant
            start <= i <= end <= chars.len(),
            part@ == chars@.subrange(start as int, i as int),
        decreases end - i,
    {
        part.push(chars[i]);
        proof {
            assert(chars@.subrange(start as int, i + 1) =~= chars@.subrange(
                start as int,
                i as int,
            ).push(chars@[i as int]));
        }
        i = i + 1;
    }
    part
}

/// The characters without white space at either end.
pub fn trim(chars: &Vec<char>) -> (part: Vec<char>)
    ensures
        part@ == trimmed(chars@),
{
    let mut start: usize = 0;
    proof {
        assert(chars@.skip(0) =~= chars@);
    }
    while start < chars.len() && is_white_space(chars[start])
        invariant
            start <= chars.len(),
            trimmed_start(chars@.skip(start as int)) == trimmed_start(chars@),
        decreases chars.len() - start,
    {
        proof {
            assert(chars@.skip(start as int).drop_first() =~= chars@.skip(start + 1));
        }
        start = start + 1;
    }
    let ghost rest = chars@.skip(start as int);
    assert(trimmed_start(chars@) == rest);
    let mut end: usize = chars.len();
    proof {
        assert(chars@.subrange(start as int, end as int) =~= rest);
    }
    while end > start && is_white_space(chars[end - 1])
        invariant
            start <= end <= chars.len(),
            trimmed_end(chars@.subrange(start as int, end as int)) == trimmed_end(rest),
        decreases end - start,
    {
        proof {
            assert(chars@.subrange(start as int, end as int).drop_last() =~= chars@.subrange(
                start as int,
                end - 1,
            ));
        }
        end = end - 1;
    }
    slice_of(chars, start, end)
}

/// The position of the first `c` at or after `from`, or the end.
pub fn find_char(chars: &Vec<char>, from: usize, c: char) -> (at: usize)
    requires
        from <= chars.len(),
    ensures
        at == from + before(chars@.skip(from as int), c),
        from <= at <= chars.len(),
        at < chars.len() ==> chars@[at as int] == c,
{
    let mut i: usize = from;
    while i < chars.len() && chars[i] != c
        invariant
            from <= i <= chars.len(),
            forall|j: int| from <= j < i ==> #[trigger] chars@[j] != c,
        decreases chars.len() - i,
    {
        i = i + 1;
    }
    proof {
        let rest = chars@.skip(from as int);
        assert forall|j: int| 0 <= j < i - from implies #[trigger] rest[j] != c by {
            assert(rest[j] == chars@[from + j]);
        }
        lemma_before_unique(rest, c, i - from);
    }
    i
}

/// The `n`-th of the pieces between occurrences of `sep`, counted from 0.
pub fn nth_piece(chars: &Vec<char>, sep: char, n: usize) -> (found: Option<Vec<char>>)
    ensures
        match found {
            Some(part) => piece(chars@, sep, n as nat) == Some(part@),
            None => piece(chars@, sep, n as nat) is None,
        },
{
    let mut start: usize = 0;
    let mut left: usize = n;
    proof {
        assert(chars@.skip(0) =~= chars@);
    }
    while left > 0
        invariant
            start <= chars.len(),
            left <= n,
            piece(chars@.skip(start as int), sep, left as nat) == piece(chars@, sep, n as nat),
        decreases left,
    {
        let end: usize = find_char(chars, start, sep);
        if end >= chars.len() {
            return None;
        }
        proof {
            let rest = chars@.skip(start as int);
            assert(rest.skip(before(rest, sep) + 1) =~= chars@.skip(end + 1));
        }
        start = end + 1;
        left = left - 1;
    }
    let end: usize = find_char(chars, start, sep);
    proof {
        let rest = chars@.skip(start as int);
        assert(rest.take(before(rest, sep)) =~= chars@.subrange(start as int, end as int));
    }
    Some(slice_of(chars, start, end))
}

/// The lines of a text.
pub fn split_lines(chars: &Vec<char>) -> (lines: Vec<Vec<char>>)
    ensures
        lines@.map_values(|line: Vec<char>| line@) == lines_of(chars@),
{
    let mut lines: Vec<Vec<char>> = Vec::new();
    let mut start: usize = 0;
    let ghost view = |line: Vec<char>| line@;
    proof {
        assert(chars@.skip(0) =~= chars@);
        assert(lines@.map_values(view) + lines_of(chars@) =~= lines_of(chars@));
    }
    while start < chars.len()
        invariant
            start <= chars.len(),
            view == (|line: Vec<char>| line@),
            lines@.map_values(view) + lines_of(chars@.skip(start as int)) == lines_of(chars@),
        decreases chars.len() - start,
    {
        let ghost rest = chars@.skip(start as int);
        let end: usize = find_char(chars, start, '\n');
        let mut stop: usize = end;
        if end < chars.len() && end > start && chars[end - 1] == '\r' {
            stop = end - 1;
        }
        let line: Vec<char> = slice_of(chars, start, stop);
        let ghost earlier = lines@;
        proof {
            let cut = before(rest, '\n');
            if cut < rest.len() {
                assert(rest.take(cut) =~= chars@.subrange(start as int, end as int));
                assert(line@ =~= without_return(rest.take(cut)));
                assert(rest.skip(cut + 1) =~= chars@.skip(end + 1));
            } else {
                assert(line@ =~= rest);
            }
        }
        lines.push(line);
        proof {
            assert(lines@.map_values(view) =~= earlier.map_values(view).push(line@));
            let after = if end < chars.len() {
                chars@.skip(end + 1)
            } else {
                chars@.skip(end as int)
            };
            assert(lines_of(rest) =~= seq![line@] + lines_of(after));
            assert(lines@.map_values(view) + lines_of(after) =~= earlier.map_values(view)
                + lines_of(rest));
        }
        if end < chars.len() {
            start = end + 1;
        } else {
            start = end;
        }
    }
    proof {
        assert(lines_of(chars@.skip(start as int)) =~= Seq::<Seq<char>>::empty());
        assert(lines@.map_values(view) =~= lines_of(chars@));
    }
    lines
}

/// Whether `pattern` stands at position `at`.
pub fn text_at(chars: &Vec<char>, pattern: &str, at: usize) -> (found: bool)
    requires
        at <= chars.len(),
    ensures
        found == stands_at(chars@, pattern@, at as int),
{
    let wanted: Vec<char> = chars_of(pattern);
    if wanted.len() > chars.len() - at {
        return false;
    }
    let part: Vec<char> = slice_of(chars, at, at + wanted.len());
    let mut i: usize = 0;
    while i < wanted.len()
        invariant
            i <= wanted.len(),
            wanted@ == pattern@,
            at + wanted.len() <= chars.len(),
            part@ == chars@.subrange(at as int, at + wanted.len()),
            forall|j: int| 0 <= j < i ==> #[trigger] part@[j] == wanted@[j],
        decreases wanted.len() - i,
    {
        if part[i] != wanted[i] {
            assert(part@ != wanted@);
            return false;
        }
        i = i + 1;
    }
    assert(part@ =~= wanted@);
    true
}

/// The first position at which `pattern` stands.
pub fn find_text(chars: &Vec<char>, pattern: &str) -> (found: Option<usize>)
    ensures
        match found {
            Some(at) => first_at(chars@, pattern@, at as int),
            None => !has_text(chars@, pattern@),
        },
{
    let mut i: usize = 0;
    loop
        invariant
            i <= chars.len(),
            forall|j: int| j < i ==> !#[trigger] stands_at(chars@, pattern@, j),
        decreases chars.len() - i,
    {
        if text_at(chars, pattern, i) {
            return Some(i);
        }
        if i == chars.len() {
            return None;
        }
        i = i + 1;
    }
}

/// Whether `pattern` stands somewhere.
pub fn contains_text(chars: &Vec<char>, pattern: &str) -> (found: bool)
    ensures
        found == has_text(chars@, pattern@),
{
    match find_text(chars, pattern) {
        Some(at) => {
            assert(stands_at(chars@, pattern@, at as int));
            true
        },
        None => false,
    }
}

/// The decimal digits of a number.
pub fn decimal(n: u64) -> (text: String)
    ensures
        text@ == decimal_digits(n as nat),
    decreases n,
{
    let last: u8 = 48 + (n % 10) as u8;
    let c: char = last as char;
    let mut text: String = if n < 10 { String::new() } else { decimal(n / 10) };
    text.push(c);
    proof {
        assert(c == digit((n % 10) as nat));
        if n < 10 {
            assert(text@ =~= decimal_digits(n as nat));
        }
    }
    text
}

proof fn lemma_trimmed_start(s: Seq<char>) -> (i: int)
    ensures
        0 <= i <= s.len(),
        trimmed_start(s) == s.subrange(i, s.len() as int),
        forall|k: int| 0 <= k < i ==> white_space(#[trigger] s[k]),
        i < s.len() ==> !white_space(s[i]),
    decreases s.len(),
{
    if s.len() > 0 && white_space(s[0]) {
        let rest = s.drop_first();
        let i = lemma_trimmed_start(rest);
        assert(rest.subrange(i, rest.len() as int) =~= s.subrange(i + 1, s.len() as int));
        assert forall|k: int| 0 <= k < i + 1 implies white_space(#[trigger] s[k]) by {
            if k > 0 {
                assert(s[k] == rest[k - 1]);
            }
        }
        i + 1
    } else {
        assert(s =~= s.subrange(0, s.len() as int));
        0
    }
}

proof fn lemma_trimmed_end(s: Seq<char>) -> (j: int)
    ensures
        0 <= j <= s.len(),
        trimmed_end(s) == s.subrange(0, j),
        forall|k: int| j <= k < s.len() ==> white_space(#[trigger] s[k]),
        j > 0 ==> !white_space(s[j - 1]),
    decreases s.len(),
{
    if s.len() > 0 && white_space(s.last()) {
        let rest = s.drop_last();
        let j = lemma_trimmed_end(rest);
        assert(rest.subrange(0, j) =~= s.subrange(0, j));
        assert forall|k: int| j <= k < s.len() implies white_space(#[trigger] s[k]) by {
            if k < rest.len() {
                assert(s[k] == rest[k]);
            }
        }
        j
    } else {
        assert(s =~= s.subrange(0, s.len() as int));
        s.len() as int
    }
}

/// Trimming cuts white space off both ends and nothing else: what is cut off is
/// white space, and what is left has none at its ends.
pub proof fn law_trimming_cuts_outer_space_only(s: Seq<char>)
    ensures
        exists|i: int, j: int|
            #![trigger s.subrange(i, j)]
            0 <= i <= j <= s.len() && trimmed(s) == s.subrange(i, j) && (forall|k: int|
                (0 <= k < i || j <= k < s.len()) ==> white_space(#[trigger] s[k])) && (i < j
                ==> !white_space(s[i]) && !white_space(s[j - 1])),
{
    let i = lemma_trimmed_start(s);
    let rest = s.subrange(i, s.len() as int);
    let j = lemma_trimmed_end(rest);
    assert(rest.subrange(0, j) =~= s.subrange(i, i + j));
    assert forall|k: int| (0 <= k < i || i + j <= k < s.len()) implies white_space(
        #[trigger] s[k],
    ) by {
        if k >= i {
            assert(s[k] == rest[k - i]);
        }
    }
    if j > 0 {
        assert(rest[0] == s[i] && rest[j - 1] == s[i + j - 1]);
    }
}

/// A separator ends a piece: in front of it stands the first piece, and behind it
/// the pieces go on. Text without a separator is a single piece.
pub proof fn law_separator_ends_a_piece(a: Seq<char>, b: Seq<char>, sep: char, n: nat)
    requires
        !a.contains(sep),
    ensures
        piece(a, sep, 0) == Some(a),
        piece(a, sep, n + 1) is None,
        piece(a.push(sep) + b, sep, 0) == Some(a),
        piece(a.push(sep) + b, sep, n + 1) == piece(b, sep, n),
{
    let s = a.push(sep) + b;
    assert forall|i: int| 0 <= i < a.len() implies #[trigger] s[i] != sep by {
        assert(a.contains(a[i]));
    }
    assert forall|i: int| 0 <= i < a.len() implies #[trigger] a[i] != sep by {
        assert(a.contains(a[i]));
    }
    lemma_before_unique(s, sep, a.len() as int);
    lemma_before_unique(a, sep, a.len() as int);
    assert(a.take(a.len() as int) =~= a);
    assert(s.take(a.len() as int) =~= a);
    assert(s.skip(a.len() as int + 1) =~= b);
}

/// A line feed ends a line, together with a carriage return in front of it, and
/// the lines go on behind it. Text without a line feed is a single line, and
/// empty text has none.
pub proof fn law_line_feed_ends_a_line(a: Seq<char>, b: Seq<char>)
    requires
        !a.contains('\n'),
    ensures
        a.len() == 0 ==> lines_of(a).len() == 0,
        a.len() > 0 ==> lines_of(a) == seq![a],
        a.len() == 0 || a.last() != '\r' ==> lines_of(a.push('\n') + b) == seq![a] + lines_of(b),
        a.len() > 0 && a.last() == '\r' ==> lines_of(a.push('\n') + b) == seq![a.drop_last()]
            + lines_of(b),
{
    let s = a.push('\n') + b;
    assert forall|i: int| 0 <= i < a.len() implies #[trigger] s[i] != '\n' by {
        assert(a.contains(a[i]));
    }
    assert forall|i: int| 0 <= i < a.len() implies #[trigger] a[i] != '\n' by {
        assert(a.contains(a[i]));
    }
    lemma_before_unique(s, '\n', a.len() as int);
    lemma_before_unique(a, '\n', a.len() as int);
    assert(s.take(a.len() as int) =~= a);
    assert(s.skip(a.len() as int + 1) =~= b);
}

/// A pattern is found wherever text has it in the middle, and where it is found
/// the text has it.
pub proof fn law_pattern_is_found_where_it_stands(
    a: Seq<char>,
    pattern: Seq<char>,
    b: Seq<char>,
    i: int,
)
    ensures
        stands_at(a + pattern + b, pattern, a.len() as int),
        has_text(a + pattern + b, pattern),
        stands_at(a, pattern, i) <==> 0 <= i && i + pattern.len() <= a.len() && forall|k: int|
            0 <= k < pattern.len() ==> a[i + k] == #[trigger] pattern[k],
{
    let s = a + pattern + b;
    assert(s.subrange(a.len() as int, (a.len() + pattern.len()) as int) =~= pattern);
    assert(stands_at(s, pattern, a.len() as int));
    if stands_at(a, pattern, i) {
        assert forall|k: int| 0 <= k < pattern.len() implies a[i + k] == #[trigger] pattern[k] by {
            assert(a.subrange(i, i + pattern.len())[k] == a[i + k]);
        }
    }
    if 0 <= i && i + pattern.len() <= a.len() && forall|k: int|
        0 <= k < pattern.len() ==> a[i + k] == #[trigger] pattern[k] {
        assert(a.subrange(i, i + pattern.len()) =~= pattern);
    }
}

/// What is found in lines keeps their order, and nothing is lost: what is found in
/// two runs of lines is what is found in the first, then what is found in the
/// second; in a single line it is what the line holds.
pub proof fn law_findings_keep_order(
    a: Seq<Seq<char>>,
    b: Seq<Seq<char>>,
    line: Seq<char>,
    read: spec_fn(Seq<char>) -> Option<Seq<char>>,
)
    ensures
        collected(a + b, read) == collected(a, read) + collected(b, read),
        read(line) matches Some(found) ==> collected(seq![line], read) == seq![found],
        read(line) is None ==> collected(seq![line], read).len() == 0,
    decreases b.len(),
{
    assert(seq![line].drop_last() =~= Seq::empty());
    assert(collected(Seq::empty(), read).len() == 0);
    assert(read(line) matches Some(found) ==> collected(seq![line], read) =~= seq![found]);
    if b.len() == 0 {
        assert(a + b =~= a);
        assert(collected(a, read) + collected(b, read) =~= collected(a, read));
    } else {
        law_findings_keep_order(a, b.drop_last(), line, read);
        assert((a + b).drop_last() =~= a + b.drop_last());
        assert((a + b).last() == b.last());
        assert(collected(a + b, read) =~= collected(a, read) + collected(b, read));
    }
}

/// The number that a row of decimal digits stands for.
pub open spec fn digits_value(digits: Seq<char>) -> int
    decreases digits.len(),
{
    if digits.len() == 0 {
        0
    } else {
        10 * digits_value(digits.drop_last()) + (digits.last() as int - '0' as int)
    }
}

/// The decimal digits of a number stand for that number, and have no leading
/// zero.
pub proof fn law_decimal_digits_stand_for_number(n: nat)
    ensures
        digits_value(decimal_digits(n)) == n,
        decimal_digits(n).len() > 0,
        forall|i: int|
            0 <= i < decimal_digits(n).len() ==> '0' <= #[trigger] decimal_digits(n)[i] <= '9',
        n > 0 ==> decimal_digits(n)[0] != '0',
    decreases n,
{
    reveal_with_fuel(digits_value, 2);
    if n >= 10 {
        law_decimal_digits_stand_for_number(n / 10);
        let front = decimal_digits(n / 10);
        assert(decimal_digits(n).drop_last() =~= front);
    } else {
        assert(decimal_digits(n).drop_last() =~= Seq::empty());
    }
}

/// Strings are read character by character, and none is left out.
pub proof fn law_strings_are_their_characters(list: Seq<String>, text: Option<String>)
    ensures
        texts(list).len() == list.len(),
        forall|i: int| 0 <= i < list.len() ==> #[trigger] texts(list)[i] == list[i]@,
        optional_text(text) is Some <==> text is Some,
        text matches Some(s) ==> optional_text(text) == Some(s@),
{
}

} // verus!
