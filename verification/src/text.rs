//! Text as sequences of characters: the small vocabulary in which the other
//! modules state what they read and what they render.
use vstd::prelude::*;

verus! {

broadcast use vstd::seq::group_seq_axioms;

/// `String::push`: appends one character.
pub assume_specification[ String::push ](s: &mut String, ch: char)
    ensures
        final(s)@ == old(s)@.push(ch),
;

/// `String::push_str`: appends a string slice.
pub assume_specification[ String::push_str ](s: &mut String, string: &str)
    ensures
        final(s)@ == old(s)@ + string@,
;

/// `str::to_lowercase`: what the Unicode case tables make of a text.
pub uninterp spec fn lowercased(s: Seq<char>) -> Seq<char>;

/// Calls `str::to_lowercase`. The claim is only that the result depends on
/// the text alone; which characters change is left to the Unicode tables.
#[verifier::external_body]
pub(crate) fn to_lowercase(s: &str) -> (lower: String)
    ensures
        lower@ == lowercased(s@),
{
    s.to_lowercase()
}

/// The texts that a sequence of strings holds.
pub open spec fn texts(strings: Seq<String>) -> Seq<Seq<char>> {
    strings.map_values(|s: String| s@)
}

/// A text, or something in its place.
pub open spec fn or_text(s: Option<Seq<char>>, default: Seq<char>) -> Seq<char> {
    match s {
        Some(s) => s,
        None => default,
    }
}

/// A text, or something in its place.
pub fn or_default(s: &Option<String>, default: &str) -> (text: String)
    ensures
        text@ == or_text(opt_text(*s), default@),
{
    match s {
        Some(s) => s.clone(),
        None => default.to_owned(),
    }
}

/// The text that an optional string holds.
pub open spec fn opt_text(s: Option<String>) -> Option<Seq<char>> {
    match s {
        Some(s) => Some(s@),
        None => None,
    }
}

pub broadcast proof fn texts_push(strings: Seq<String>, s: String)
    ensures
        #[trigger] texts(strings.push(s)) == texts(strings).push(s@),
{
    assert(texts(strings.push(s)) =~= texts(strings).push(s@));
}

/// The characters of a string.
pub fn chars_of(s: &str) -> (chars: Vec<char>)
    ensures
        chars@ == s@,
{
    let mut chars: Vec<char> = Vec::new();
    for c in it: s.chars()
        invariant
            it.seq() == s@,
            chars@ == s@.take(it.index() as int),
    {
        chars.push(c);
        assert(s@.take(it.index() as int + 1) =~= s@.take(it.index() as int).push(c));
    }
    assert(s@.take(s@.len() as int) =~= s@);
    chars
}

/// The string of the characters from `from` up to `to`.
pub fn string_between(chars: &Vec<char>, from: usize, to: usize) -> (s: String)
    requires
        from <= to <= chars@.len(),
    ensures
        s@ == chars@.subrange(from as int, to as int),
{
    let mut s = String::new();
    let mut i: usize = from;
    while i < to
        invariant
            from <= i <= to <= chars@.len(),
            s@ == chars@.subrange(from as int, i as int),
        decreases to - i,
    {
        s.push(chars[i]);
        assert(chars@.subrange(from as int, i + 1) =~= chars@.subrange(from as int, i as int).push(chars@[i as int]));
        i = i + 1;
    }
    s
}

/// The string of a sequence of characters.
pub fn string_of(chars: &Vec<char>) -> (s: String)
    ensures
        s@ == chars@,
{
    let s = string_between(chars, 0, chars.len());
    assert(chars@.subrange(0, chars@.len() as int) =~= chars@);
    s
}

/// Whether two strings hold the same characters.
pub fn same(a: &str, b: &str) -> (equal: bool)
    ensures
        equal == (a@ == b@),
{
    a.to_owned() == b.to_owned()
}

// ---------------------------------------------------------------------------
// Whitespace
// ---------------------------------------------------------------------------

/// The characters with the Unicode `White_Space` property.
pub open spec fn is_space(c: char) -> bool {
    ||| '\u{9}' <= c <= '\u{d}'
    ||| c == ' '
    ||| c == '\u{85}'
    ||| c == '\u{a0}'
    ||| c == '\u{1680}'
    ||| '\u{2000}' <= c <= '\u{200a}'
    ||| c == '\u{2028}'
    ||| c == '\u{2029}'
    ||| c == '\u{202f}'
    ||| c == '\u{205f}'
    ||| c == '\u{3000}'
}

/// Whether a character is whitespace.
pub fn whitespace(c: char) -> (space: bool)
    ensures
        space == is_space(c),
{
    ('\u{9}' <= c && c <= '\u{d}') || c == ' ' || c == '\u{85}' || c == '\u{a0}' || c == '\u{1680}'
        || ('\u{2000}' <= c && c <= '\u{200a}') || c == '\u{2028}' || c == '\u{2029}' || c == '\u{202f}'
        || c == '\u{205f}' || c == '\u{3000}'
}

/// A text without its leading whitespace.
pub open spec fn trimmed_start(s: Seq<char>) -> Seq<char>
    decreases s.len(),
{
    if s.len() > 0 && is_space(s[0]) {
        trimmed_start(s.subrange(1, s.len() as int))
    } else {
        s
    }
}

/// A text without its trailing whitespace.
pub open spec fn trimmed_end(s: Seq<char>) -> Seq<char>
    decreases s.len(),
{
    if s.len() > 0 && is_space(s.last()) {
        trimmed_end(s.drop_last())
    } else {
        s
    }
}

/// A text without whitespace at either end.
pub open spec fn trimmed(s: Seq<char>) -> Seq<char> {
    trimmed_end(trimmed_start(s))
}

/// The index of the first character at or after `from` that is not whitespace.
pub fn skip_spaces(chars: &Vec<char>, from: usize) -> (at: usize)
    requires
        from <= chars@.len(),
    ensures
        from <= at <= chars@.len(),
        trimmed_start(chars@.subrange(from as int, chars@.len() as int)) == chars@.subrange(
            at as int,
            chars@.len() as int,
        ),
        forall|i: int| from <= i < at ==> is_space(#[trigger] chars@[i]),
        at < chars@.len() ==> !is_space(chars@[at as int]),
{
    let mut at: usize = from;
    while at < chars.len() && whitespace(chars[at])
        invariant
            from <= at <= chars@.len(),
            trimmed_start(chars@.subrange(from as int, chars@.len() as int)) == trimmed_start(
                chars@.subrange(at as int, chars@.len() as int),
            ),
            forall|i: int| from <= i < at ==> is_space(#[trigger] chars@[i]),
        decreases chars@.len() - at,
    {
        assert(chars@.subrange(at as int, chars@.len() as int).subrange(1, chars@.len() - at)
            =~= chars@.subrange(at + 1, chars@.len() as int));
        at = at + 1;
    }
    at
}

/// The end of `chars[from..to]` once its trailing whitespace is left off.
pub fn drop_spaces(chars: &Vec<char>, from: usize, to: usize) -> (end: usize)
    requires
        from <= to <= chars@.len(),
    ensures
        from <= end <= to,
        trimmed_end(chars@.subrange(from as int, to as int)) == chars@.subrange(from as int, end as int),
{
    let mut end: usize = to;
    while from < end && whitespace(chars[end - 1])
        invariant
            from <= end <= to <= chars@.len(),
            trimmed_end(chars@.subrange(from as int, to as int)) == trimmed_end(
                chars@.subrange(from as int, end as int),
            ),
        decreases end,
    {
        assert(chars@.subrange(from as int, end as int).drop_last() =~= chars@.subrange(from as int, end - 1));
        end = end - 1;
    }
    end
}

/// A string without whitespace at either end.
pub fn trim(s: &str) -> (t: String)
    ensures
        t@ == trimmed(s@),
{
    let chars = chars_of(s);
    let from: usize = skip_spaces(&chars, 0);
    assert(chars@.subrange(0, chars@.len() as int) =~= chars@);
    let end: usize = drop_spaces(&chars, from, chars.len());
    string_between(&chars, from, end)
}

/// A string without trailing whitespace.
pub fn trim_end(s: &str) -> (t: String)
    ensures
        t@ == trimmed_end(s@),
{
    let chars = chars_of(s);
    assert(chars@.subrange(0, chars@.len() as int) =~= chars@);
    let end: usize = drop_spaces(&chars, 0, chars.len());
    string_between(&chars, 0, end)
}

/// A string without leading whitespace.
pub fn trim_start(s: &str) -> (t: String)
    ensures
        t@ == trimmed_start(s@),
{
    let chars = chars_of(s);
    assert(chars@.subrange(0, chars@.len() as int) =~= chars@);
    let from: usize = skip_spaces(&chars, 0);
    string_between(&chars, from, chars.len())
}

// ---------------------------------------------------------------------------
// Splitting and joining
// ---------------------------------------------------------------------------

/// The parts of a text between the occurrences of a separator.
pub open spec fn split_on(s: Seq<char>, sep: char) -> Seq<Seq<char>>
    decreases s.len(),
{
    if s.len() == 0 {
        seq![Seq::empty()]
    } else {
        let front = split_on(s.drop_last(), sep);
        if s.last() == sep {
            front.push(Seq::empty())
        } else {
            front.drop_last().push(front.last().push(s.last()))
        }
    }
}

pub proof fn split_on_nonempty(s: Seq<char>, sep: char)
    ensures
        split_on(s, sep).len() >= 1,
    decreases s.len(),
{
    if s.len() > 0 {
        split_on_nonempty(s.drop_last(), sep);
    }
}

/// The parts of a string between the occurrences of a separator.
pub fn split(s: &str, sep: char) -> (parts: Vec<String>)
    ensures
        texts(parts@) == split_on(s@, sep),
        parts@.len() >= 1,
{
    broadcast use texts_push;

    let mut parts: Vec<String> = Vec::new();
    let mut part = String::new();
    let chars = chars_of(s);
    let mut i: usize = 0;
    assert(chars@.take(0).len() == 0);
    assert(texts(parts@).push(part@) =~= seq![Seq::<char>::empty()]);
    while i < chars.len()
        invariant
            chars@ == s@,
            i <= chars@.len(),
            texts(parts@).push(part@) == split_on(chars@.take(i as int), sep),
        decreases chars@.len() - i,
    {
        let c = chars[i];
        assert(chars@.take(i + 1).drop_last() =~= chars@.take(i as int));
        assert(texts(parts@).push(part@).drop_last() =~= texts(parts@));
        if c == sep {
            parts.push(part);
            part = String::new();
        } else {
            part.push(c);
        }
        i = i + 1;
    }
    assert(chars@.take(i as int) =~= s@);
    parts.push(part);
    parts
}

/// A line without the carriage return that `str::lines` takes off with the
/// line feed.
pub open spec fn without_return(line: Seq<char>) -> Seq<char> {
    if line.len() > 0 && line.last() == '\r' {
        line.drop_last()
    } else {
        line
    }
}

/// The lines of a text as `str::lines` gives them: the last part is a line
/// only if it is not empty, and it keeps a trailing carriage return.
pub open spec fn lines_of(s: Seq<char>) -> Seq<Seq<char>> {
    let parts = split_on(s, '\n');
    let ended = parts.drop_last().map_values(|line: Seq<char>| without_return(line));
    if parts.last().len() == 0 {
        ended
    } else {
        ended.push(parts.last())
    }
}

/// The lines of a string.
pub fn lines(s: &str) -> (lines: Vec<String>)
    ensures
        texts(lines@) == lines_of(s@),
{
    broadcast use texts_push;

    let parts = split(s, '\n');
    let mut lines: Vec<String> = Vec::new();
    let n: usize = parts.len() - 1;
    let ghost whole = texts(parts@);
    let ghost ended = whole.drop_last().map_values(|line: Seq<char>| without_return(line));
    let mut i: usize = 0;
    assert(texts(lines@) =~= ended.take(0));
    while i < n
        invariant
            n + 1 == parts@.len(),
            i <= n,
            whole == texts(parts@),
            ended == whole.drop_last().map_values(|line: Seq<char>| without_return(line)),
            texts(lines@) == ended.take(i as int),
        decreases n - i,
    {
        let chars = chars_of(parts[i].as_str());
        let len: usize = chars.len();
        let line = if len > 0 && chars[len - 1] == '\r' {
            string_between(&chars, 0, len - 1)
        } else {
            string_of(&chars)
        };
        assert(whole[i as int] == parts@[i as int]@);
        assert(line@ =~= without_return(whole[i as int]));
        assert(ended.take(i + 1) =~= ended.take(i as int).push(line@));
        lines.push(line);
        i = i + 1;
    }
    assert(ended.take(n as int) =~= ended);
    assert(whole.last() == parts@[n as int]@);
    if !parts[n].as_str().is_empty() {
        lines.push(parts[n].clone());
    }
    lines
}

/// The maximal runs of characters that are not whitespace.
pub open spec fn words_of(s: Seq<char>) -> Seq<Seq<char>>
    decreases s.len(),
{
    if s.len() == 0 {
        Seq::empty()
    } else {
        let front = words_of(s.drop_last());
        if is_space(s.last()) {
            front
        } else if s.len() == 1 || is_space(s[s.len() - 2]) {
            front.push(seq![s.last()])
        } else {
            front.drop_last().push(front.last().push(s.last()))
        }
    }
}

/// The words of a string.
pub fn split_whitespace(s: &str) -> (words: Vec<String>)
    ensures
        texts(words@) == words_of(s@),
{
    broadcast use texts_push;

    let chars = chars_of(s);
    let mut words: Vec<String> = Vec::new();
    let mut word = String::new();
    let mut open = false;
    let mut i: usize = 0;
    assert(texts(words@) =~= Seq::<Seq<char>>::empty());
    assert(chars@.take(0).len() == 0);
    while i < chars.len()
        invariant
            chars@ == s@,
            i <= chars@.len(),
            open == (i > 0 && !is_space(chars@[i - 1])),
            words_of(chars@.take(i as int)) == (if open {
                texts(words@).push(word@)
            } else {
                texts(words@)
            }),
            !open ==> word@ == Seq::<char>::empty(),
        decreases chars@.len() - i,
    {
        let c = chars[i];
        let ghost head = chars@.take(i + 1);
        assert(head.drop_last() =~= chars@.take(i as int));
        assert(i > 0 ==> head[head.len() - 2] == chars@[i - 1]);
        assert(texts(words@).push(word@).drop_last() =~= texts(words@));
        if whitespace(c) {
            if open {
                words.push(word);
                word = String::new();
                open = false;
            }
        } else {
            assert(Seq::<char>::empty().push(c) =~= seq![c]);
            word.push(c);
            open = true;
        }
        i = i + 1;
    }
    assert(chars@.take(i as int) =~= s@);
    if open {
        words.push(word);
    }
    words
}

/// Texts one after the other with a separator between them.
pub open spec fn joined(parts: Seq<Seq<char>>, sep: Seq<char>) -> Seq<char>
    decreases parts.len(),
{
    if parts.len() == 0 {
        Seq::empty()
    } else if parts.len() == 1 {
        parts[0]
    } else {
        joined(parts.drop_last(), sep) + sep + parts.last()
    }
}

/// Strings one after the other with a separator between them.
pub fn join(parts: &Vec<String>, sep: &str) -> (s: String)
    ensures
        s@ == joined(texts(parts@), sep@),
{
    let mut s = String::new();
    let mut i: usize = 0;
    let ghost all = texts(parts@);
    while i < parts.len()
        invariant
            i <= parts@.len(),
            all == texts(parts@),
            s@ == joined(all.take(i as int), sep@),
        decreases parts@.len() - i,
    {
        assert(all.take(i + 1).drop_last() =~= all.take(i as int));
        assert(all[i as int] == parts@[i as int]@);
        if i > 0 {
            s.push_str(sep);
            s.push_str(parts[i].as_str());
        } else {
            s = parts[0].clone();
        }
        i = i + 1;
    }
    assert(all.take(i as int) =~= all);
    s
}

// ---------------------------------------------------------------------------
// Searching and replacing
// ---------------------------------------------------------------------------

/// Whether `pat` stands in `s` at index `i`.
pub open spec fn occurs_at(s: Seq<char>, pat: Seq<char>, i: int) -> bool {
    0 <= i && i + pat.len() <= s.len() && s.subrange(i, i + pat.len()) == pat
}

/// Whether `pat` stands somewhere in `s`.
pub open spec fn occurs_in(s: Seq<char>, pat: Seq<char>) -> bool {
    exists|i: int| occurs_at(s, pat, i)
}

/// Whether a text begins with another.
pub open spec fn begins(s: Seq<char>, prefix: Seq<char>) -> bool {
    occurs_at(s, prefix, 0)
}

/// Whether a text ends with another.
pub open spec fn ends(s: Seq<char>, suffix: Seq<char>) -> bool {
    occurs_at(s, suffix, s.len() - suffix.len())
}

/// Whether `pat` stands in `chars` at index `at`.
pub fn matches_at(chars: &Vec<char>, pat: &Vec<char>, at: usize) -> (found: bool)
    requires
        at <= chars@.len(),
    ensures
        found == occurs_at(chars@, pat@, at as int),
{
    let len: usize = chars.len();
    if pat.len() > len - at {
        return false;
    }
    let mut i: usize = 0;
    while i < pat.len()
        invariant
            i <= pat@.len(),
            at + pat@.len() <= len == chars@.len(),
            chars@.subrange(at as int, at + i) == pat@.take(i as int),
        decreases pat@.len() - i,
    {
        if chars[at + i] != pat[i] {
            assert(chars@.subrange(at as int, at + pat@.len())[i as int] != pat@[i as int]);
            return false;
        }
        assert(chars@.subrange(at as int, at + i + 1) =~= pat@.take(i + 1));
        i = i + 1;
    }
    assert(pat@.take(i as int) =~= pat@);
    true
}

/// The first index at or after `from` at which `pat` stands in `chars`.
pub fn find_from(chars: &Vec<char>, pat: &Vec<char>, from: usize) -> (at: Option<usize>)
    requires
        from <= chars@.len(),
    ensures
        match at {
            Some(at) => {
                &&& from <= at <= chars@.len()
                &&& occurs_at(chars@, pat@, at as int)
                &&& forall|i: int| from <= i < at ==> !occurs_at(chars@, pat@, i)
            },
            None => forall|i: int| from <= i ==> !occurs_at(chars@, pat@, i),
        },
{
    let mut at: usize = from;
    loop
        invariant
            from <= at <= chars@.len(),
            forall|i: int| from <= i < at ==> !occurs_at(chars@, pat@, i),
        decreases chars@.len() - at,
    {
        if matches_at(chars, pat, at) {
            return Some(at);
        }
        if at == chars.len() {
            return None;
        }
        at = at + 1;
    }
}

/// Whether a string begins with another.
pub fn starts_with(s: &str, prefix: &str) -> (yes: bool)
    ensures
        yes == begins(s@, prefix@),
{
    matches_at(&chars_of(s), &chars_of(prefix), 0)
}

/// Whether a string ends with another.
pub fn ends_with(s: &str, suffix: &str) -> (yes: bool)
    ensures
        yes == ends(s@, suffix@),
{
    let chars = chars_of(s);
    let tail = chars_of(suffix);
    if tail.len() > chars.len() {
        return false;
    }
    matches_at(&chars, &tail, chars.len() - tail.len())
}

/// Whether a string holds another.
pub fn contains(s: &str, pat: &str) -> (yes: bool)
    ensures
        yes == occurs_in(s@, pat@),
{
    let found = find_from(&chars_of(s), &chars_of(pat), 0);
    found.is_some()
}

/// Whether a string holds a character.
pub fn contains_char(s: &str, c: char) -> (yes: bool)
    ensures
        yes == s@.contains(c),
{
    let chars = chars_of(s);
    let mut i: usize = 0;
    while i < chars.len()
        invariant
            chars@ == s@,
            i <= chars@.len(),
            forall|k: int| 0 <= k < i ==> chars@[k] != c,
        decreases chars@.len() - i,
    {
        if chars[i] == c {
            assert(s@[i as int] == c);
            return true;
        }
        i = i + 1;
    }
    false
}

/// A text with every occurrence of `from`, read from the left, replaced.
pub open spec fn replaced(s: Seq<char>, from: Seq<char>, to: Seq<char>) -> Seq<char>
    decreases s.len(),
{
    if s.len() == 0 || from.len() == 0 {
        s
    } else if begins(s, from) {
        to + replaced(s.subrange(from.len() as int, s.len() as int), from, to)
    } else {
        seq![s[0]] + replaced(s.subrange(1, s.len() as int), from, to)
    }
}

/// A string with every occurrence of a nonempty pattern replaced.
pub fn replace(s: &str, from: &str, to: &str) -> (r: String)
    requires
        from@.len() > 0,
    ensures
        r@ == replaced(s@, from@, to@),
{
    let chars = chars_of(s);
    let pat = chars_of(from);
    let mut out = String::new();
    let mut i: usize = 0;
    assert(chars@.subrange(0, chars@.len() as int) =~= s@);
    assert(out@ + replaced(s@, from@, to@) =~= replaced(s@, from@, to@));
    while i < chars.len()
        invariant
            chars@ == s@,
            pat@ == from@,
            pat@.len() > 0,
            i <= chars@.len(),
            out@ + replaced(chars@.subrange(i as int, chars@.len() as int), from@, to@) == replaced(
                s@,
                from@,
                to@,
            ),
        decreases chars@.len() - i,
    {
        let ghost rest = chars@.subrange(i as int, chars@.len() as int);
        let ghost before = out@;
        let found = matches_at(&chars, &pat, i);
        assert(found == begins(rest, from@)) by {
            if i + pat@.len() <= chars@.len() {
                assert(rest.subrange(0, pat@.len() as int) =~= chars@.subrange(i as int, i + pat@.len()));
            }
        }
        if found {
            out.push_str(to);
            assert(rest.subrange(pat@.len() as int, rest.len() as int) =~= chars@.subrange(
                i + pat@.len(),
                chars@.len() as int,
            ));
            i = i + pat.len();
            assert(before + (to@ + replaced(chars@.subrange(i as int, chars@.len() as int), from@, to@)) =~= out@
                + replaced(chars@.subrange(i as int, chars@.len() as int), from@, to@));
        } else {
            out.push(chars[i]);
            assert(rest.subrange(1, rest.len() as int) =~= chars@.subrange(i + 1, chars@.len() as int));
            i = i + 1;
            assert(before + (seq![rest[0]] + replaced(chars@.subrange(i as int, chars@.len() as int), from@, to@))
                =~= out@ + replaced(chars@.subrange(i as int, chars@.len() as int), from@, to@));
        }
    }
    assert(out@ + replaced(chars@.subrange(i as int, chars@.len() as int), from@, to@) =~= out@);
    out
}

// ---------------------------------------------------------------------------
// Letters and order
// ---------------------------------------------------------------------------

/// The lower-case form of an ASCII letter; any other character is kept.
pub open spec fn ascii_lower(c: char) -> char {
    if 'A' <= c <= 'Z' {
        ((c as u8) + 32) as char
    } else {
        c
    }
}

/// Whether two texts differ at most in the case of ASCII letters.
pub open spec fn same_ignoring_case(a: Seq<char>, b: Seq<char>) -> bool {
    a.map_values(|c: char| ascii_lower(c)) == b.map_values(|c: char| ascii_lower(c))
}

/// The lower-case form of an ASCII letter; any other character is kept.
pub fn lower(c: char) -> (l: char)
    ensures
        l == ascii_lower(c),
{
    if 'A' <= c && c <= 'Z' {
        ((c as u8) + 32) as char
    } else {
        c
    }
}

/// Whether two strings differ at most in the case of ASCII letters.
pub fn eq_ignore_ascii_case(a: &str, b: &str) -> (yes: bool)
    ensures
        yes == same_ignoring_case(a@, b@),
{
    let left = chars_of(a);
    let right = chars_of(b);
    let ghost l = a@.map_values(|c: char| ascii_lower(c));
    let ghost r = b@.map_values(|c: char| ascii_lower(c));
    if left.len() != right.len() {
        assert(l.len() != r.len());
        return false;
    }
    let mut i: usize = 0;
    while i < left.len()
        invariant
            left@ == a@,
            right@ == b@,
            left@.len() == right@.len(),
            l == a@.map_values(|c: char| ascii_lower(c)),
            r == b@.map_values(|c: char| ascii_lower(c)),
            i <= left@.len(),
            forall|k: int| 0 <= k < i ==> l[k] == r[k],
        decreases left@.len() - i,
    {
        if lower(left[i]) != lower(right[i]) {
            assert(l[i as int] != r[i as int]);
            return false;
        }
        i = i + 1;
    }
    assert(l =~= r);
    true
}

/// The order of texts by their code points, which is that of their UTF-8
/// bytes too.
pub open spec fn precedes(a: Seq<char>, b: Seq<char>) -> bool
    decreases a.len(),
{
    if b.len() == 0 {
        false
    } else if a.len() == 0 {
        true
    } else if a[0] != b[0] {
        a[0] < b[0]
    } else {
        precedes(a.subrange(1, a.len() as int), b.subrange(1, b.len() as int))
    }
}

/// Whether one string comes before another.
pub fn comes_before(a: &str, b: &str) -> (yes: bool)
    ensures
        yes == precedes(a@, b@),
{
    let left = chars_of(a);
    let right = chars_of(b);
    let mut i: usize = 0;
    assert(left@.subrange(0, left@.len() as int) =~= a@);
    assert(right@.subrange(0, right@.len() as int) =~= b@);
    loop
        invariant
            i <= left@.len(),
            i <= right@.len(),
            precedes(a@, b@) == precedes(
                left@.subrange(i as int, left@.len() as int),
                right@.subrange(i as int, right@.len() as int),
            ),
        decreases left@.len() - i,
    {
        if i == right.len() {
            return false;
        }
        if i == left.len() {
            return true;
        }
        if left[i] != right[i] {
            return left[i] < right[i];
        }
        assert(left@.subrange(i as int, left@.len() as int).subrange(1, left@.len() - i) =~= left@.subrange(
            i + 1,
            left@.len() as int,
        ));
        assert(right@.subrange(i as int, right@.len() as int).subrange(1, right@.len() - i) =~= right@.subrange(
            i + 1,
            right@.len() as int,
        ));
        i = i + 1;
    }
}

/// The order of texts is irreflexive.
pub proof fn precedes_irreflexive(a: Seq<char>)
    ensures
        !precedes(a, a),
    decreases a.len(),
{
    if a.len() > 0 {
        precedes_irreflexive(a.subrange(1, a.len() as int));
    }
}

/// The order of texts is transitive.
pub proof fn precedes_transitive(a: Seq<char>, b: Seq<char>, c: Seq<char>)
    requires
        precedes(a, b),
        precedes(b, c),
    ensures
        precedes(a, c),
    decreases a.len(),
{
    if a.len() > 0 && a[0] == b[0] && b[0] == c[0] {
        precedes_transitive(
            a.subrange(1, a.len() as int),
            b.subrange(1, b.len() as int),
            c.subrange(1, c.len() as int),
        );
    }
}

/// Of two texts that differ, one precedes the other.
pub proof fn precedes_total(a: Seq<char>, b: Seq<char>)
    requires
        a != b,
    ensures
        precedes(a, b) || precedes(b, a),
    decreases a.len(),
{
    if a.len() == 0 || b.len() == 0 {
        if a.len() == 0 && b.len() == 0 {
            assert(a =~= b);
        }
    } else if a[0] == b[0] {
        let x = a.subrange(1, a.len() as int);
        let y = b.subrange(1, b.len() as int);
        if x == y {
            assert(a =~= seq![a[0]] + x);
            assert(b =~= seq![b[0]] + y);
        }
        precedes_total(x, y);
    }
}

// ---------------------------------------------------------------------------
// Numbers
// ---------------------------------------------------------------------------

/// The decimal digit of a number below ten.
pub open spec fn digit(n: int) -> char {
    if n == 0 { '0' } else if n == 1 { '1' } else if n == 2 { '2' } else if n == 3 { '3' } else if n == 4 {
        '4'
    } else if n == 5 { '5' } else if n == 6 { '6' } else if n == 7 { '7' } else if n == 8 { '8' } else { '9' }
}

/// A number in decimal.
pub open spec fn decimal(n: nat) -> Seq<char>
    decreases n,
{
    if n < 10 {
        seq![digit(n as int)]
    } else {
        decimal(n / 10).push(digit((n % 10) as int))
    }
}

/// A signed number in decimal.
pub open spec fn signed_decimal(n: int) -> Seq<char> {
    if n < 0 {
        seq!['-'] + decimal((-n) as nat)
    } else {
        decimal(n as nat)
    }
}

fn digit_char(n: u64) -> (c: char)
    requires
        n < 10,
    ensures
        c == digit(n as int),
{
    if n == 0 { '0' } else if n == 1 { '1' } else if n == 2 { '2' } else if n == 3 { '3' } else if n == 4 {
        '4'
    } else if n == 5 { '5' } else if n == 6 { '6' } else if n == 7 { '7' } else if n == 8 { '8' } else { '9' }
}

/// A number in decimal.
pub fn show(n: u64) -> (s: String)
    ensures
        s@ == decimal(n as nat),
    decreases n,
{
    if n < 10 {
        let mut s = String::new();
        s.push(digit_char(n));
        assert(s@ =~= seq![digit(n as int)]);
        s
    } else {
        let mut s = show(n / 10);
        s.push(digit_char(n % 10));
        s
    }
}

/// A count in decimal.
pub fn show_usize(n: usize) -> (s: String)
    ensures
        s@ == decimal(n as nat),
{
    show(n as u64)
}

/// A signed number in decimal.
pub fn show_signed(n: i64) -> (s: String)
    ensures
        s@ == signed_decimal(n as int),
{
    if n < 0 {
        let magnitude: u64 = (0i128 - n as i128) as u64;
        let mut s = String::new();
        s.push('-');
        assert(s@ =~= seq!['-']);
        s.push_str(show(magnitude).as_str());
        s
    } else {
        show(n as u64)
    }
}

// ---------------------------------------------------------------------------
// Bytes
// ---------------------------------------------------------------------------

/// The number of bytes that a text takes in UTF-8.
pub open spec fn byte_len(s: Seq<char>) -> nat {
    vstd::utf8::encode_utf8(s).len()
}

/// The number of bytes that a string takes.
pub fn bytes_in(s: &str) -> (n: usize)
    ensures
        n == byte_len(s@),
{
    s.as_bytes().len()
}

/// Bytes of a text followed by another are the bytes of the one followed by
/// those of the other.
pub proof fn encode_concat(a: Seq<char>, b: Seq<char>)
    ensures
        vstd::utf8::encode_utf8(a + b) == vstd::utf8::encode_utf8(a) + vstd::utf8::encode_utf8(b),
        byte_len(a + b) == byte_len(a) + byte_len(b),
    decreases a.len(),
{
    if a.len() == 0 {
        assert(a + b =~= b);
        assert(vstd::utf8::encode_utf8(a) + vstd::utf8::encode_utf8(b) =~= vstd::utf8::encode_utf8(b));
    } else {
        encode_concat(a.drop_first(), b);
        assert((a + b).drop_first() =~= a.drop_first() + b);
        assert((a + b)[0] == a[0]);
        assert(vstd::utf8::encode_utf8(a + b) =~= vstd::utf8::encode_utf8(a) + vstd::utf8::encode_utf8(b));
    }
}

// ---------------------------------------------------------------------------
// Single characters
// ---------------------------------------------------------------------------

/// The index of the first occurrence of a character.
pub open spec fn find_char(s: Seq<char>, c: char) -> Option<int>
    decreases s.len(),
{
    if s.len() == 0 {
        None
    } else if s[0] == c {
        Some(0)
    } else {
        match find_char(s.subrange(1, s.len() as int), c) {
            Some(i) => Some(i + 1),
            None => None,
        }
    }
}

/// What the first occurrence of a character is.
pub proof fn find_char_first(s: Seq<char>, c: char)
    ensures
        match find_char(s, c) {
            Some(i) => 0 <= i < s.len() && s[i] == c && forall|k: int| 0 <= k < i ==> s[k] != c,
            None => forall|k: int| 0 <= k < s.len() ==> s[k] != c,
        },
        find_char(s, c) is Some <==> s.contains(c),
    decreases s.len(),
{
    if s.len() > 0 && s[0] != c {
        let rest = s.subrange(1, s.len() as int);
        find_char_first(rest, c);
        assert forall|k: int| 1 <= k < s.len() implies s[k] == rest[k - 1] by {}
    }
}

/// A character that occurs at `i` and not before is found there.
pub proof fn find_char_at(s: Seq<char>, c: char, i: int)
    requires
        0 <= i < s.len(),
        s[i] == c,
        forall|k: int| 0 <= k < i ==> s[k] != c,
    ensures
        find_char(s, c) == Some(i),
{
    find_char_first(s, c);
}

/// The index of the first occurrence of a character at or after `from`.
pub fn find_char_from(chars: &Vec<char>, c: char, from: usize) -> (at: Option<usize>)
    requires
        from <= chars@.len(),
    ensures
        match at {
            Some(at) => from <= at < chars@.len() && find_char(
                chars@.subrange(from as int, chars@.len() as int),
                c,
            ) == Some(at - from),
            None => find_char(chars@.subrange(from as int, chars@.len() as int), c) is None,
        },
{
    let ghost rest = chars@.subrange(from as int, chars@.len() as int);
    let mut i: usize = from;
    while i < chars.len()
        invariant
            from <= i <= chars@.len(),
            rest == chars@.subrange(from as int, chars@.len() as int),
            forall|k: int| 0 <= k < i - from ==> rest[k] != c,
        decreases chars@.len() - i,
    {
        if chars[i] == c {
            assert(rest[i - from] == c);
            proof {
                find_char_at(rest, c, i - from);
            }
            return Some(i);
        }
        i = i + 1;
    }
    proof {
        find_char_first(rest, c);
    }
    None
}

/// The string of characters with one more character in front.
pub fn prefixed(c: char, s: &str) -> (r: String)
    ensures
        r@ == seq![c] + s@,
{
    let mut r = String::new();
    r.push(c);
    assert(r@ =~= seq![c]);
    r.push_str(s);
    r
}

/// A text with its ASCII letters in lower case.
pub open spec fn ascii_lowered(s: Seq<char>) -> Seq<char> {
    s.map_values(|c: char| ascii_lower(c))
}

/// A string with its ASCII letters in lower case.
pub fn to_ascii_lowercase(s: &str) -> (r: String)
    ensures
        r@ == ascii_lowered(s@),
{
    let chars = chars_of(s);
    let mut r = String::new();
    let mut i: usize = 0;
    while i < chars.len()
        invariant
            chars@ == s@,
            i <= chars@.len(),
            r@ == ascii_lowered(s@.take(i as int)),
        decreases chars@.len() - i,
    {
        r.push(lower(chars[i]));
        assert(ascii_lowered(s@.take(i + 1)) =~= ascii_lowered(s@.take(i as int)).push(ascii_lower(s@[i as int])));
        i = i + 1;
    }
    assert(s@.take(i as int) =~= s@);
    r
}

/// The index of the first whitespace character.
pub open spec fn find_space(s: Seq<char>) -> Option<int>
    decreases s.len(),
{
    if s.len() == 0 {
        None
    } else if is_space(s[0]) {
        Some(0)
    } else {
        match find_space(s.subrange(1, s.len() as int)) {
            Some(i) => Some(i + 1),
            None => None,
        }
    }
}

/// What the first whitespace character is.
pub proof fn find_space_first(s: Seq<char>)
    ensures
        match find_space(s) {
            Some(i) => 0 <= i < s.len() && is_space(s[i]) && forall|k: int| 0 <= k < i ==> !is_space(s[k]),
            None => forall|k: int| 0 <= k < s.len() ==> !is_space(s[k]),
        },
    decreases s.len(),
{
    if s.len() > 0 && !is_space(s[0]) {
        let rest = s.subrange(1, s.len() as int);
        find_space_first(rest);
        assert forall|k: int| 1 <= k < s.len() implies s[k] == rest[k - 1] by {}
    }
}

/// The index of the first whitespace character at or after `from`.
pub fn find_space_from(chars: &Vec<char>, from: usize) -> (at: Option<usize>)
    requires
        from <= chars@.len(),
    ensures
        match at {
            Some(at) => from <= at < chars@.len() && find_space(
                chars@.subrange(from as int, chars@.len() as int),
            ) == Some(at - from),
            None => find_space(chars@.subrange(from as int, chars@.len() as int)) is None,
        },
{
    let ghost rest = chars@.subrange(from as int, chars@.len() as int);
    proof {
        find_space_first(rest);
    }
    let mut i: usize = from;
    while i < chars.len()
        invariant
            from <= i <= chars@.len(),
            rest == chars@.subrange(from as int, chars@.len() as int),
            forall|k: int| 0 <= k < i - from ==> !is_space(rest[k]),
            match find_space(rest) {
                Some(at) => 0 <= at < rest.len() && is_space(rest[at]) && forall|k: int|
                    0 <= k < at ==> !is_space(rest[k]),
                None => forall|k: int| 0 <= k < rest.len() ==> !is_space(rest[k]),
            },
        decreases chars@.len() - i,
    {
        if whitespace(chars[i]) {
            assert(is_space(rest[i - from]));
            return Some(i);
        }
        i = i + 1;
    }
    None
}

/// The texts that a sequence of string slices holds.
pub open spec fn slices(strings: Seq<&'static str>) -> Seq<Seq<char>> {
    strings.map_values(|s: &'static str| s@)
}

/// String slices one after the other with a separator between them.
pub fn join_slices(parts: &Vec<&'static str>, sep: &str) -> (s: String)
    ensures
        s@ == joined(slices(parts@), sep@),
{
    let mut s = String::new();
    let mut i: usize = 0;
    let ghost all = slices(parts@);
    while i < parts.len()
        invariant
            i <= parts@.len(),
            all == slices(parts@),
            s@ == joined(all.take(i as int), sep@),
        decreases parts@.len() - i,
    {
        assert(all.take(i + 1).drop_last() =~= all.take(i as int));
        assert(all[i as int] == parts@[i as int]@);
        if i > 0 {
            s.push_str(sep);
            s.push_str(parts[i]);
        } else {
            s = parts[0].to_owned();
        }
        i = i + 1;
    }
    assert(all.take(i as int) =~= all);
    s
}

proof fn trimmed_start_clean(s: Seq<char>)
    ensures
        trimmed_start(s).len() == 0 || !is_space(trimmed_start(s)[0]),
        trimmed_start(s).len() <= s.len(),
        s.len() == 0 || !is_space(s[0]) ==> trimmed_start(s) == s,
    decreases s.len(),
{
    if s.len() > 0 && is_space(s[0]) {
        trimmed_start_clean(s.subrange(1, s.len() as int));
    }
}

proof fn trimmed_end_clean(s: Seq<char>)
    ensures
        trimmed_end(s).len() == 0 || !is_space(trimmed_end(s).last()),
        trimmed_end(s).len() <= s.len(),
        trimmed_end(s) == s.take(trimmed_end(s).len() as int),
        s.len() == 0 || !is_space(s.last()) ==> trimmed_end(s) == s,
    decreases s.len(),
{
    if s.len() > 0 && is_space(s.last()) {
        trimmed_end_clean(s.drop_last());
        assert(s.drop_last().take(trimmed_end(s).len() as int) =~= s.take(trimmed_end(s).len() as int));
    } else {
        assert(s.take(s.len() as int) =~= s);
    }
}

/// A trimmed text has nothing left to trim.
pub proof fn trimmed_twice(s: Seq<char>)
    ensures
        trimmed(trimmed(s)) == trimmed(s),
        trimmed(s).len() > 0 ==> !is_space(trimmed(s)[0]) && !is_space(trimmed(s).last()),
{
    let front = trimmed_start(s);
    trimmed_start_clean(s);
    trimmed_end_clean(front);
    let whole = trimmed_end(front);
    if whole.len() > 0 {
        assert(whole[0] == front[0]);
    }
    trimmed_start_clean(whole);
    trimmed_end_clean(whole);
}

/// Whether a text is one of a list.
pub fn lists(list: &Vec<String>, s: &str) -> (found: bool)
    ensures
        found == texts(list@).contains(s@),
{
    let mut k: usize = 0;
    while k < list.len()
        invariant
            k <= list@.len(),
            forall|i: int| 0 <= i < k ==> (#[trigger] list@[i])@ != s@,
        decreases list@.len() - k,
    {
        if same(list[k].as_str(), s) {
            assert(texts(list@)[k as int] == s@);
            return true;
        }
        k = k + 1;
    }
    assert forall|i: int| 0 <= i < texts(list@).len() implies texts(list@)[i] != s@ by {
        assert(texts(list@)[i] == list@[i]@);
    }
    false
}

/// Different numbers read differently.
pub proof fn decimal_distinct(a: nat, b: nat)
    requires
        a != b,
    ensures
        decimal(a) != decimal(b),
    decreases a + b,
{
    if decimal(a) == decimal(b) {
        if a < 10 && b < 10 {
            assert(decimal(a)[0] == decimal(b)[0]);
        } else if a < 10 {
            decimal_nonempty(b / 10);
            assert(decimal(a).len() == 1);
        } else if b < 10 {
            decimal_nonempty(a / 10);
            assert(decimal(b).len() == 1);
        } else {
            assert(decimal(a).last() == decimal(b).last());
            assert(a % 10 == b % 10);
            assert(decimal(a).drop_last() =~= decimal(a / 10));
            assert(decimal(b).drop_last() =~= decimal(b / 10));
            decimal_distinct(a / 10, b / 10);
        }
    }
}

/// A number has at least one digit.
pub proof fn decimal_nonempty(n: nat)
    ensures
        decimal(n).len() > 0,
{
}

/// Whether a number of bytes reaches the end of a character of a text.
pub open spec fn is_boundary(s: Seq<char>, bytes: int) -> bool {
    exists|n: int| 0 <= n <= s.len() && #[trigger] byte_len(s.take(n)) == bytes
}

/// How many characters a number of bytes reaches over.
pub open spec fn chars_before(s: Seq<char>, bytes: int) -> int {
    choose|n: int| 0 <= n <= s.len() && #[trigger] byte_len(s.take(n)) == bytes
}

/// A text of characters has bytes.
pub proof fn some_bytes(s: Seq<char>)
    requires
        s.len() > 0,
    ensures
        byte_len(s) > 0,
{
    byte_len_grows(s, 0, s.len() as int);
    assert(s.take(s.len() as int) =~= s);
}

proof fn byte_len_grows(s: Seq<char>, i: int, k: int)
    requires
        0 <= i < k <= s.len(),
    ensures
        byte_len(s.take(i)) < byte_len(s.take(k)),
    decreases k - i,
{
    let c = s.subrange(k - 1, k);
    assert(s.take(k) =~= s.take(k - 1) + c);
    encode_concat(s.take(k - 1), c);
    assert(byte_len(c) > 0) by {
        assert(c.len() == 1);
        assert(vstd::utf8::encode_utf8(c).len() > 0) by {
            vstd::utf8::encode_utf8_decode_utf8(c);
            if vstd::utf8::encode_utf8(c).len() == 0 {
                assert(vstd::utf8::encode_utf8(c) =~= Seq::<u8>::empty());
                assert(vstd::utf8::decode_utf8(Seq::<u8>::empty()).len() == 0);
            }
        }
    }
    if i < k - 1 {
        byte_len_grows(s, i, k - 1);
    }
}

/// The first characters of a text, up to a number of bytes.
fn count_chars(s: &str, chars: &Vec<char>, bytes: usize) -> (n: usize)
    requires
        chars@ == s@,
        is_boundary(s@, bytes as int),
    ensures
        n == chars_before(s@, bytes as int),
        n <= s@.len(),
        byte_len(s@.take(n as int)) == bytes,
{
    let ghost reached = chars_before(s@, bytes as int);
    let len: usize = chars.len();
    let mut n: usize = 0;
    let mut seen: usize = 0;
    assert(s@.take(0) =~= Seq::<char>::empty());
    assert(byte_len(s@.take(0)) == 0) by {
        assert(vstd::utf8::encode_utf8(s@.take(0)).len() == 0);
    }
    while seen < bytes
        invariant
            chars@ == s@,
            len == s@.len(),
            0 <= reached <= s@.len(),
            byte_len(s@.take(reached)) == bytes,
            n <= reached,
            seen == byte_len(s@.take(n as int)),
        decreases reached - n,
    {
        proof {
            if n == reached {
                assert(false);
            }
        }
        let c = string_between(chars, n, n + 1);
        let width: usize = bytes_in(c.as_str());
        proof {
            assert(s@.take(n + 1) =~= s@.take(n as int) + c@);
            encode_concat(s@.take(n as int), c@);
            if n + 1 < reached {
                byte_len_grows(s@, n + 1, reached);
            }
        }
        seen = seen + width;
        n = n + 1;
    }
    proof {
        if n < reached {
            byte_len_grows(s@, n as int, reached);
        }
    }
    n
}

/// The part of a string between two numbers of bytes.
pub fn slice_bytes(s: &str, start: usize, end: usize) -> (part: String)
    requires
        start <= end,
        is_boundary(s@, start as int),
        is_boundary(s@, end as int),
    ensures
        chars_before(s@, start as int) <= chars_before(s@, end as int) <= s@.len(),
        part@ == s@.subrange(chars_before(s@, start as int), chars_before(s@, end as int)),
{
    let chars = chars_of(s);
    let from: usize = count_chars(s, &chars, start);
    let to: usize = count_chars(s, &chars, end);
    proof {
        if to < from {
            byte_len_grows(s@, to as int, from as int);
        }
    }
    string_between(&chars, from, to)
}

// ---------------------------------------------------------------------------
// Laws
// ---------------------------------------------------------------------------

/// What stands between two texts occurs in the whole; what stands at an end
/// begins or ends it.
pub proof fn law_parts_occur(a: Seq<char>, part: Seq<char>, b: Seq<char>)
    ensures
        occurs_in(a + part + b, part),
        begins(part + b, part),
        ends(a + part, part),
        occurs_in(a + part, part),
        occurs_in(part + b, part),
{
    let whole = a + part + b;
    let at = a.len() as int;
    assert(whole.subrange(at, at + part.len()) =~= part);
    assert(occurs_at(whole, part, at));
    assert((part + b).subrange(0, part.len() as int) =~= part);
    assert(occurs_at(part + b, part, 0));
    assert((a + part).subrange(at, at + part.len()) =~= part);
    assert(occurs_at(a + part, part, at));
}

/// Texts may be put together in any grouping.
pub proof fn law_grouping_does_not_matter(a: Seq<char>, b: Seq<char>, c: Seq<char>)
    ensures
        a + b + c == a + (b + c),
{
    assert(a + b + c =~= a + (b + c));
}

/// What occurs in a part occurs in the whole.
pub proof fn law_occurring_carries_over(a: Seq<char>, part: Seq<char>, b: Seq<char>, pat: Seq<char>)
    requires
        occurs_in(part, pat),
    ensures
        occurs_in(a + part + b, pat),
{
    let i = choose|i: int| occurs_at(part, pat, i);
    let whole = a + part + b;
    let at = a.len() + i;
    assert(whole.subrange(at, at + pat.len()) =~= part.subrange(i, i + pat.len()));
    assert(occurs_at(whole, pat, at));
}

/// Trimming takes whitespace off the ends and nothing else, and all of it.
pub proof fn law_trimming_takes_whitespace_alone(s: Seq<char>) -> (ends: (Seq<char>, Seq<char>))
    ensures
        s == ends.0 + trimmed(s) + ends.1,
        forall|i: int| 0 <= i < ends.0.len() ==> is_space(#[trigger] ends.0[i]),
        forall|i: int| 0 <= i < ends.1.len() ==> is_space(#[trigger] ends.1[i]),
        trimmed(s).len() > 0 ==> !is_space(trimmed(s)[0]) && !is_space(trimmed(s).last()),
{
    trimmed_twice(s);
    let head = start_taken(s);
    let tail = end_taken(trimmed_start(s));
    assert(head + trimmed(s) + tail =~= s);
    (head, tail)
}

proof fn start_taken(s: Seq<char>) -> (head: Seq<char>)
    ensures
        s == head + trimmed_start(s),
        forall|i: int| 0 <= i < head.len() ==> is_space(#[trigger] head[i]),
    decreases s.len(),
{
    if s.len() > 0 && is_space(s[0]) {
        let rest = s.subrange(1, s.len() as int);
        let head = start_taken(rest);
        let all = seq![s[0]] + head;
        assert(trimmed_start(s) == trimmed_start(rest));
        assert(all + trimmed_start(rest) =~= seq![s[0]] + (head + trimmed_start(rest)));
        assert(seq![s[0]] + rest =~= s);
        all
    } else {
        let none = Seq::<char>::empty();
        assert(none + s =~= s);
        none
    }
}

proof fn end_taken(s: Seq<char>) -> (tail: Seq<char>)
    ensures
        s == trimmed_end(s) + tail,
        forall|i: int| 0 <= i < tail.len() ==> is_space(#[trigger] tail[i]),
    decreases s.len(),
{
    if s.len() > 0 && is_space(s.last()) {
        let front = s.drop_last();
        let tail = end_taken(front);
        let all = tail.push(s.last());
        assert(trimmed_end(s) == trimmed_end(front));
        assert(trimmed_end(front) + all =~= (trimmed_end(front) + tail).push(s.last()));
        assert(front.push(s.last()) =~= s);
        all
    } else {
        let none = Seq::<char>::empty();
        assert(s + none =~= s);
        none
    }
}

/// The characters that part words in a terminal and on a page are whitespace,
/// and no letter, digit or sign that is written is.
pub proof fn law_blanks_are_whitespace(c: char)
    ensures
        c == ' ' || c == '\t' || c == '\n' || c == '\r' ==> is_space(c),
        '!' <= c <= '~' ==> !is_space(c),
{
}

/// Splitting and joining undo each other: the parts with the separator between
/// them are the text, no part holds the separator, and there is one part more
/// than there are separators.
pub proof fn law_splitting_is_undone_by_joining(s: Seq<char>, sep: char)
    ensures
        joined(split_on(s, sep), seq![sep]) == s,
        split_on(s, sep).len() == s.filter(|c: char| c == sep).len() + 1,
        forall|i: int| 0 <= i < split_on(s, sep).len() ==> !(#[trigger] split_on(s, sep)[i]).contains(sep),
    decreases s.len(),
{
    reveal(Seq::filter);
    let parts = split_on(s, sep);
    if s.len() == 0 {
        assert(joined(parts, seq![sep]) =~= s);
        assert(!Seq::<char>::empty().contains(sep));
    } else {
        let front = split_on(s.drop_last(), sep);
        let c = s.last();
        law_splitting_is_undone_by_joining(s.drop_last(), sep);
        split_on_nonempty(s.drop_last(), sep);
        if c == sep {
            assert(parts.drop_last() =~= front);
            assert(joined(parts, seq![sep]) =~= s);
            assert forall|i: int| 0 <= i < parts.len() implies !(#[trigger] parts[i]).contains(sep) by {
                if i < front.len() {
                    assert(parts[i] == front[i]);
                } else {
                    assert(parts[i] =~= Seq::<char>::empty());
                }
            }
        } else {
            assert(parts.drop_last() =~= front.drop_last());
            if front.len() > 1 {
                assert(joined(parts, seq![sep]) =~= joined(front, seq![sep]).push(c));
            } else {
                assert(joined(parts, seq![sep]) =~= joined(front, seq![sep]).push(c));
            }
            assert(joined(parts, seq![sep]) =~= s);
            assert forall|i: int| 0 <= i < parts.len() implies !(#[trigger] parts[i]).contains(sep) by {
                if i < front.len() - 1 {
                    assert(parts[i] == front[i]);
                } else {
                    let last = front[front.len() - 1];
                    assert(!last.contains(sep));
                    assert(parts[i] == last.push(c));
                    if parts[i].contains(sep) {
                        let k = choose|k: int| 0 <= k < parts[i].len() && parts[i][k] == sep;
                        if k < last.len() {
                            assert(last[k] == sep);
                        }
                    }
                }
            }
        }
    }
}

/// Lines hold no line feed, and what is not blank has at least one.
pub proof fn law_lines_hold_no_line_feed(s: Seq<char>)
    ensures
        forall|i: int| 0 <= i < lines_of(s).len() ==> !(#[trigger] lines_of(s)[i]).contains('\n'),
        s.len() > 0 ==> lines_of(s).len() > 0,
        s.len() > 0 && !s.contains('\n') ==> lines_of(s) == seq![s],
{
    let parts = split_on(s, '\n');
    law_splitting_is_undone_by_joining(s, '\n');
    split_on_nonempty(s, '\n');
    assert forall|i: int| 0 <= i < lines_of(s).len() implies !(#[trigger] lines_of(s)[i]).contains('\n') by {
        let line = lines_of(s)[i];
        assert(!parts[i].contains('\n'));
        if line.contains('\n') {
            let k = choose|k: int| 0 <= k < line.len() && line[k] == '\n';
            assert(parts[i][k] == '\n');
        }
    }
    if s.len() > 0 && !s.contains('\n') {
        no_separator(s, '\n');
        assert(parts.drop_last() =~= Seq::<Seq<char>>::empty());
        assert(lines_of(s) =~= seq![s]);
    }
    if parts.len() == 1 {
        assert(joined(parts, seq!['\n']) == parts[0]);
    }
}

proof fn no_separator(s: Seq<char>, sep: char)
    requires
        !s.contains(sep),
    ensures
        split_on(s, sep) == seq![s],
    decreases s.len(),
{
    if s.len() > 0 {
        let front = s.drop_last();
        assert forall|i: int| 0 <= i < front.len() implies #[trigger] front[i] != sep by {
            assert(s.contains(s[i]));
        }
        no_separator(front, sep);
        assert(s.contains(s[s.len() - 1]));
        assert(front.push(s.last()) =~= s);
        assert(seq![front].last() == front);
        assert(split_on(s, sep) =~= seq![s]);
    } else {
        assert(s =~= Seq::<char>::empty());
    }
}

/// The words of a text one behind the other.
pub open spec fn run_together(words: Seq<Seq<char>>) -> Seq<char>
    decreases words.len(),
{
    if words.len() == 0 {
        Seq::empty()
    } else {
        run_together(words.drop_last()) + words.last()
    }
}

/// Words lose nothing but whitespace: together they are the text without it,
/// and no word is empty or holds any.
pub proof fn law_words_are_all_but_whitespace(s: Seq<char>)
    ensures
        run_together(words_of(s)) == s.filter(|c: char| !is_space(c)),
        forall|i: int|
            0 <= i < words_of(s).len() ==> (#[trigger] words_of(s)[i]).len() > 0 && forall|k: int|
                0 <= k < words_of(s)[i].len() ==> !is_space(#[trigger] words_of(s)[i][k]),
        s.len() > 0 && !is_space(s.last()) ==> words_of(s).len() > 0,
    decreases s.len(),
{
    reveal(Seq::filter);
    let words = words_of(s);
    if s.len() > 0 {
        let front = words_of(s.drop_last());
        let c = s.last();
        law_words_are_all_but_whitespace(s.drop_last());
        if is_space(c) {
        } else if s.len() == 1 || is_space(s[s.len() - 2]) {
            assert(words.drop_last() =~= front);
            assert(run_together(words) =~= run_together(front).push(c));
        } else {
            assert(s.drop_last().last() == s[s.len() - 2]);
            assert(words.drop_last() =~= front.drop_last());
            assert(run_together(words) =~= run_together(front).push(c));
            let last = front[front.len() - 1];
            assert forall|i: int| 0 <= i < words.len() implies (#[trigger] words[i]).len() > 0 && forall|k: int|
                0 <= k < words[i].len() ==> !is_space(#[trigger] words[i][k]) by {
                if i < front.len() - 1 {
                    assert(words[i] == front[i]);
                } else {
                    assert(words[i] == last.push(c));
                }
            }
        }
    }
}

/// What a sequence of digits is worth.
pub open spec fn worth(digits: Seq<char>) -> int
    decreases digits.len(),
{
    if digits.len() == 0 {
        0
    } else {
        worth(digits.drop_last()) * 10 + (digits.last() as int - '0' as int)
    }
}

/// A number reads as digits that are worth it.
pub proof fn law_decimals_are_worth_their_number(n: nat)
    ensures
        worth(decimal(n)) == n,
        forall|i: int| 0 <= i < decimal(n).len() ==> '0' <= #[trigger] decimal(n)[i] <= '9',
        n > 0 ==> decimal(n)[0] != '0',
    decreases n,
{
    if n >= 10 {
        law_decimals_are_worth_their_number(n / 10);
        assert(decimal(n).drop_last() =~= decimal(n / 10));
        decimal_nonempty(n / 10);
        assert(decimal(n)[0] == decimal(n / 10)[0]);
    } else {
        assert(decimal(n).drop_last() =~= Seq::<char>::empty());
        assert(worth(decimal(n).drop_last()) == 0);
    }
}

/// A negative number reads as its amount behind a minus sign.
pub proof fn law_signs_are_shown(n: int)
    ensures
        n >= 0 ==> signed_decimal(n) == decimal(n as nat),
        n < 0 ==> signed_decimal(n)[0] == '-' && signed_decimal(n).subrange(1, signed_decimal(n).len() as int)
            == decimal((-n) as nat),
{
    if n < 0 {
        let s = signed_decimal(n);
        assert(s.subrange(1, s.len() as int) =~= decimal((-n) as nat));
    }
}

/// Lowering changes capital ASCII letters alone, and there is none left.
pub proof fn law_lowering_changes_capitals_alone(s: Seq<char>)
    ensures
        ascii_lowered(s).len() == s.len(),
        same_ignoring_case(ascii_lowered(s), s),
        forall|i: int|
            0 <= i < s.len() ==> !('A' <= #[trigger] ascii_lowered(s)[i] <= 'Z') && (!('A' <= s[i] <= 'Z')
                ==> ascii_lowered(s)[i] == s[i]) && ('A' <= s[i] <= 'Z' ==> ascii_lowered(s)[i] as int == s[i] as int
                + 32),
{
    let one = ascii_lowered(s).map_values(|c: char| ascii_lower(c));
    let other = s.map_values(|c: char| ascii_lower(c));
    assert forall|i: int| 0 <= i < s.len() implies #[trigger] one[i] == other[i] by {
        assert(ascii_lower(ascii_lower(s[i])) == ascii_lower(s[i]));
    }
    assert(one =~= other);
}

/// The first place of a character is the first at which it stands.
pub proof fn law_the_first_place_is_found(s: Seq<char>, c: char)
    ensures
        find_char(s, c) is Some <==> s.contains(c),
        find_char(s, c) matches Some(k) ==> 0 <= k < s.len() && s[k] == c && forall|i: int|
            0 <= i < k ==> #[trigger] s[i] != c,
{
    find_char_first(s, c);
    if let Some(k) = find_char(s, c) {
        assert(s.contains(s[k]));
    }
}

/// A replacement leaves a text without the pattern alone, and puts the new text
/// for a pattern that stands by itself.
pub proof fn law_replacing_swaps_the_pattern(from: Seq<char>, to: Seq<char>, s: Seq<char>)
    requires
        from.len() > 0,
    ensures
        replaced(from, from, to) == to,
        !occurs_in(s, from) ==> replaced(s, from, to) == s,
    decreases s.len(),
{
    assert(from.subrange(0, from.len() as int) =~= from);
    let rest = from.subrange(from.len() as int, from.len() as int);
    assert(rest =~= Seq::<char>::empty());
    assert(replaced(rest, from, to) =~= Seq::<char>::empty());
    assert(replaced(from, from, to) =~= to);
    if s.len() > 0 && !occurs_in(s, from) {
        let rest = s.subrange(1, s.len() as int);
        if occurs_in(rest, from) {
            let i = choose|i: int| occurs_at(rest, from, i);
            assert(s.subrange(i + 1, i + 1 + from.len()) =~= rest.subrange(i, i + from.len()));
            assert(occurs_at(s, from, i + 1));
        }
        if begins(s, from) {
            assert(occurs_at(s, from, 0));
        }
        law_replacing_swaps_the_pattern(from, to, rest);
        assert(seq![s[0]] + rest =~= s);
    }
}

/// The order of texts is that of their first difference, and the shorter of two
/// that begin alike comes first.
pub proof fn law_texts_are_ordered_by_their_first_difference(a: Seq<char>, b: Seq<char>, n: int)
    requires
        0 <= n <= a.len(),
        n <= b.len(),
        a.take(n) == b.take(n),
    ensures
        n < a.len() && n < b.len() && a[n] < b[n] ==> precedes(a, b),
        n == a.len() && n < b.len() ==> precedes(a, b),
    decreases n,
{
    if n > 0 {
        let x = a.subrange(1, a.len() as int);
        let y = b.subrange(1, b.len() as int);
        assert(a.take(n)[0] == b.take(n)[0]);
        assert(x.take(n - 1) =~= a.take(n).subrange(1, n));
        assert(y.take(n - 1) =~= b.take(n).subrange(1, n));
        law_texts_are_ordered_by_their_first_difference(x, y, n - 1);
        assert(a.take(n)[0] == a[0] && b.take(n)[0] == b[0]);
        assert(precedes(a, b) == precedes(x, y));
        if n < a.len() {
            assert(a[n] == x[n - 1]);
        }
        if n < b.len() {
            assert(b[n] == y[n - 1]);
        }
    }
}

/// What is missing is made up for by the default, and nothing else is.
pub proof fn law_a_default_stands_for_what_is_missing(s: Option<Seq<char>>, default: Seq<char>)
    ensures
        s is Some ==> or_text(s, default) == s->0,
        s is None ==> or_text(s, default) == default,
{
}

} // verus!
