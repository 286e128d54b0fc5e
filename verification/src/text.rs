//! Plain-text scanning: substrings, lines, words and numbers.
use vstd::prelude::*;
use vstd::string::StrSliceExecFns;

verus! {

/// The texts that a list of string slices stands for.
pub open spec fn views(parts: Seq<&str>) -> Seq<Seq<char>> {
    parts.map_values(|part: &str| part@)
}

/// The texts that a list of strings stands for.
pub open spec fn texts(list: Seq<String>) -> Seq<Seq<char>> {
    list.map_values(|text: String| text@)
}

/// `pat` stands in `text` at position `i`.
pub open spec fn occurs_at(text: Seq<char>, pat: Seq<char>, i: int) -> bool {
    0 <= i && i + pat.len() <= text.len() && text.subrange(i, i + pat.len()) == pat
}

/// `pat` stands somewhere in `text`.
pub open spec fn contains(text: Seq<char>, pat: Seq<char>) -> bool {
    exists|i: int| occurs_at(text, pat, i)
}

/// `i` is the first position at which `pat` stands in `text`.
pub open spec fn first_at(text: Seq<char>, pat: Seq<char>, i: int) -> bool {
    occurs_at(text, pat, i) && forall|j: int| 0 <= j < i ==> !occurs_at(text, pat, j)
}

/// Where `pat` stands somewhere, it has a first position.
pub proof fn lemma_first_exists(text: Seq<char>, pat: Seq<char>, i: int)
    requires
        occurs_at(text, pat, i),
    ensures
        exists|k: int| first_at(text, pat, k),
    decreases i,
{
    if forall|j: int| 0 <= j < i ==> !occurs_at(text, pat, j) {
        assert(first_at(text, pat, i));
    } else {
        let j = choose|j: int| 0 <= j < i && occurs_at(text, pat, j);
        lemma_first_exists(text, pat, j);
    }
}

/// The pieces of `text` between the occurrences of `pat`, taken from the left
/// and without overlap. There is always at least one piece.
pub open spec fn split_on(text: Seq<char>, pat: Seq<char>) -> Seq<Seq<char>>
    decreases text.len(),
{
    if pat.len() > 0 && contains(text, pat) {
        let i = choose|i: int| first_at(text, pat, i);
        proof {
            let k = choose|k: int| occurs_at(text, pat, k);
            lemma_first_exists(text, pat, k);
        }
        seq![text.take(i)] + split_on(text.skip(i + pat.len()), pat)
    } else {
        seq![text]
    }
}

/// The characters of a string slice.
pub fn chars_of(text: &str) -> (chars: Vec<char>)
    ensures
        chars@ == text@,
{
    let mut chars: Vec<char> = Vec::new();
    for c in it: text.chars()
        invariant
            chars@ == it.seq().take(it.index()),
            it.seq() == text@,
    {
        chars.push(c);
    }
    chars
}

/// Whether `pat` stands in `text` at position `at`.
fn matches_at(text: &Vec<char>, pat: &Vec<char>, at: usize) -> (found: bool)
    requires
        at <= text@.len(),
    ensures
        found == occurs_at(text@, pat@, at as int),
{
    if pat.len() > text.len() - at {
        return false;
    }
    let mut k: usize = 0;
    while k < pat.len()
        invariant
            at + pat@.len() <= text.len(),
            k <= pat@.len(),
            forall|j: int| 0 <= j < k ==> text@[at + j] == pat@[j],
        decreases pat@.len() - k,
    {
        if text[at + k] != pat[k] {
            assert(text@.subrange(at as int, at + pat@.len())[k as int] != pat@[k as int]);
            return false;
        }
        k = k + 1;
    }
    assert(text@.subrange(at as int, at + pat@.len()) =~= pat@);
    true
}

/// The first position from `from` on at which `pat` stands in `text`.
fn find_from(text: &Vec<char>, pat: &Vec<char>, from: usize) -> (found: Option<usize>)
    requires
        from <= text@.len(),
    ensures
        match found {
            Some(i) => from <= i && occurs_at(text@, pat@, i as int) && forall|j: int|
                from <= j < i ==> !occurs_at(text@, pat@, j),
            None => forall|j: int| from <= j ==> !occurs_at(text@, pat@, j),
        },
{
    let mut i: usize = from;
    while i < text.len()
        invariant
            from <= i <= text@.len(),
            forall|j: int| from <= j < i ==> !occurs_at(text@, pat@, j),
        decreases text@.len() - i,
    {
        if matches_at(text, pat, i) {
            return Some(i);
        }
        i = i + 1;
    }
    if matches_at(text, pat, i) {
        Some(i)
    } else {
        None
    }
}

/// Whether `pat` stands somewhere in `text`.
pub fn contains_str(text: &str, pat: &str) -> (found: bool)
    ensures
        found == contains(text@, pat@),
{
    let text = chars_of(text);
    let pat = chars_of(pat);
    find_from(&text, &pat, 0).is_some()
}

/// Whether `text` begins with `pat`.
pub fn starts_with_str(text: &str, pat: &str) -> (found: bool)
    ensures
        found == occurs_at(text@, pat@, 0),
{
    let text = chars_of(text);
    let pat = chars_of(pat);
    matches_at(&text, &pat, 0)
}

/// Whether two texts are the same.
pub fn same_str(a: &str, b: &str) -> (same: bool)
    ensures
        same == (a@ == b@),
{
    let a = chars_of(a);
    let b = chars_of(b);
    let same = a.len() == b.len() && matches_at(&a, &b, 0);
    assert(a@.len() == b@.len() ==> a@.subrange(0, b@.len() as int) =~= a@);
    same
}

/// Splitting past the first occurrence of `pat`.
pub proof fn lemma_split_step(text: Seq<char>, pat: Seq<char>, i: int)
    requires
        pat.len() > 0,
        first_at(text, pat, i),
    ensures
        split_on(text, pat) == seq![text.take(i)] + split_on(text.skip(i + pat.len()), pat),
{
    assert(contains(text, pat));
    let k = choose|k: int| first_at(text, pat, k);
    assert(first_at(text, pat, k));
    if k < i {
        assert(!occurs_at(text, pat, k));
    } else if i < k {
        assert(!occurs_at(text, pat, i));
    }
}

/// Occurrences in a tail of the text are occurrences in the text.
proof fn lemma_occurs_in_tail(text: Seq<char>, pat: Seq<char>, from: int, i: int)
    requires
        0 <= from <= text.len(),
        0 <= i,
    ensures
        occurs_at(text.skip(from), pat, i) == occurs_at(text, pat, from + i),
{
    if i + pat.len() <= text.len() - from {
        assert(text.skip(from).subrange(i, i + pat.len()) =~= text.subrange(
            from + i,
            from + i + pat.len(),
        ));
    }
}

/// A text without the separator is one piece.
proof fn lemma_split_whole(text: Seq<char>, sep: char)
    requires
        !text.contains(sep),
    ensures
        split_on(text, seq![sep]) == seq![text],
{
    assert forall|i: int| !occurs_at(text, seq![sep], i) by {
        if occurs_at(text, seq![sep], i) {
            assert(text.subrange(i, i + 1)[0] == text[i]);
            assert(text.contains(sep));
        }
    }
}

/// What stands before the first separator is the first piece.
proof fn lemma_split_part(part: Seq<char>, sep: char, rest: Seq<char>)
    requires
        !part.contains(sep),
    ensures
        split_on(part + seq![sep] + rest, seq![sep]) == seq![part] + split_on(rest, seq![sep]),
{
    let text = part + seq![sep] + rest;
    let at = part.len() as int;
    assert(text.subrange(at, at + 1) =~= seq![sep]);
    assert forall|j: int| 0 <= j < at implies !occurs_at(text, seq![sep], j) by {
        if occurs_at(text, seq![sep], j) {
            assert(text.subrange(j, j + 1)[0] == part[j]);
            assert(part.contains(sep));
        }
    }
    lemma_split_step(text, seq![sep], at);
    assert(text.take(at) =~= part);
    assert(text.skip(at + 1) =~= rest);
}

/// Texts put together with a separator between them.
pub open spec fn joined(parts: Seq<Seq<char>>, sep: char) -> Seq<char>
    decreases parts.len(),
{
    if parts.len() == 0 {
        Seq::empty()
    } else if parts.len() == 1 {
        parts[0]
    } else {
        parts[0] + seq![sep] + joined(parts.drop_first(), sep)
    }
}

/// Splitting undoes joining, where no part holds the separator.
pub proof fn lemma_split_joined(parts: Seq<Seq<char>>, sep: char)
    requires
        parts.len() > 0,
        forall|i: int| 0 <= i < parts.len() ==> !(#[trigger] parts[i]).contains(sep),
    ensures
        split_on(joined(parts, sep), seq![sep]) == parts,
    decreases parts.len(),
{
    if parts.len() == 1 {
        lemma_split_whole(parts[0], sep);
        assert(parts =~= seq![parts[0]]);
    } else {
        let rest = parts.drop_first();
        lemma_split_joined(rest, sep);
        lemma_split_part(parts[0], sep, joined(rest, sep));
        assert(parts =~= seq![parts[0]] + rest);
    }
}

/// The same with more text behind: it is split on its own.
pub proof fn lemma_split_joined_tail(parts: Seq<Seq<char>>, sep: char, tail: Seq<char>)
    requires
        parts.len() > 0,
        forall|i: int| 0 <= i < parts.len() ==> !(#[trigger] parts[i]).contains(sep),
    ensures
        split_on(joined(parts, sep) + seq![sep] + tail, seq![sep]) == parts + split_on(
            tail,
            seq![sep],
        ),
    decreases parts.len(),
{
    let after = split_on(tail, seq![sep]);
    if parts.len() == 1 {
        lemma_split_part(parts[0], sep, tail);
        assert(parts + after =~= seq![parts[0]] + after);
    } else {
        let rest = parts.drop_first();
        let text = joined(rest, sep) + seq![sep] + tail;
        lemma_split_joined_tail(rest, sep, tail);
        lemma_split_part(parts[0], sep, text);
        assert(joined(parts, sep) + seq![sep] + tail =~= parts[0] + seq![sep] + text);
        assert(parts + after =~= seq![parts[0]] + (rest + after));
    }
}

/// The pieces of `text` between the occurrences of `pat`.
pub fn split_str<'a>(text: &'a str, pat: &str) -> (pieces: Vec<&'a str>)
    requires
        pat@.len() > 0,
    ensures
        views(pieces@) == split_on(text@, pat@),
{
    let chars = chars_of(text);
    let sep = chars_of(pat);
    let mut pieces: Vec<&'a str> = Vec::new();
    let mut start: usize = 0;
    assert(text@.skip(0) =~= text@);
    loop
        invariant
            chars@ == text@,
            sep@ == pat@,
            pat@.len() > 0,
            start <= text@.len(),
            views(pieces@) + split_on(text@.skip(start as int), pat@) == split_on(text@, pat@),
        decreases text@.len() - start,
    {
        let ghost tail = text@.skip(start as int);
        let ghost done = views(pieces@);
        match find_from(&chars, &sep, start) {
            Some(i) => {
                proof {
                    lemma_occurs_in_tail(text@, pat@, start as int, i - start);
                    assert forall|j: int| 0 <= j < i - start implies !occurs_at(tail, pat@, j) by {
                        lemma_occurs_in_tail(text@, pat@, start as int, j);
                    }
                    lemma_split_step(tail, pat@, i - start);
                    assert(tail.take(i - start) =~= text@.subrange(start as int, i as int));
                    assert(tail.skip(i - start + pat@.len()) =~= text@.skip(i + pat@.len()));
                }
                let piece = text.substring_char(start, i);
                pieces.push(piece);
                assert(i + sep.len() <= chars.len());
                start = i + sep.len();
                proof {
                    assert(views(pieces@) =~= done.push(piece@));
                    assert(done + (seq![piece@] + split_on(text@.skip(start as int), pat@))
                        =~= views(pieces@) + split_on(text@.skip(start as int), pat@));
                }
            },
            None => {
                proof {
                    assert forall|j: int| !occurs_at(tail, pat@, j) by {
                        if 0 <= j {
                            lemma_occurs_in_tail(text@, pat@, start as int, j);
                        }
                    }
                    assert(tail =~= text@.subrange(start as int, text@.len() as int));
                }
                let piece = text.substring_char(start, chars.len());
                pieces.push(piece);
                proof {
                    assert(views(pieces@) =~= done.push(piece@));
                    assert(done + seq![piece@] =~= done.push(piece@));
                }
                return pieces;
            },
        }
    }
}

/// A line without the carriage return at its end.
pub open spec fn without_cr(line: Seq<char>) -> Seq<char> {
    if line.len() > 0 && line.last() == '\r' {
        line.drop_last()
    } else {
        line
    }
}

/// The lines of `text`. A line ends at a line feed, which may have a carriage
/// return before it; what follows the last line feed is a line unless it is
/// empty.
pub open spec fn lines_of(text: Seq<char>) -> Seq<Seq<char>> {
    let pieces = split_on(text, seq!['\n']);
    let ended = pieces.drop_last().map_values(|line: Seq<char>| without_cr(line));
    if pieces.last().len() == 0 {
        ended
    } else {
        ended.push(pieces.last())
    }
}

/// There is always at least one piece.
proof fn lemma_split_nonempty(text: Seq<char>, pat: Seq<char>)
    ensures
        split_on(text, pat).len() >= 1,
{
}

/// The lines of `text`.
pub fn lines<'a>(text: &'a str) -> (lines: Vec<&'a str>)
    ensures
        views(lines@) == lines_of(text@),
{
    proof {
        reveal_strlit("\n");
        assert("\n"@ =~= seq!['\n']);
        lemma_split_nonempty(text@, seq!['\n']);
    }
    let pieces = split_str(text, "\n");
    let ghost split = split_on(text@, seq!['\n']);
    let ghost ended = split.drop_last().map_values(|line: Seq<char>| without_cr(line));
    assert(views(pieces@).len() == pieces@.len());
    assert forall|j: int| 0 <= j < pieces@.len() implies #[trigger] pieces@[j]@ == split[j] by {
        assert(views(pieces@)[j] == pieces@[j]@);
    }
    let mut lines: Vec<&'a str> = Vec::new();
    let last: usize = pieces.len() - 1;
    let mut i: usize = 0;
    while i < last
        invariant
            i <= last,
            last == pieces@.len() - 1,
            split.len() == pieces@.len(),
            forall|j: int| 0 <= j < pieces@.len() ==> #[trigger] pieces@[j]@ == split[j],
            ended == split.drop_last().map_values(|line: Seq<char>| without_cr(line)),
            views(lines@) == ended.take(i as int),
        decreases last - i,
    {
        let piece: &'a str = pieces[i];
        let len: usize = piece.unicode_len();
        let line: &'a str = if len > 0 && piece.get_char(len - 1) == '\r' {
            piece.substring_char(0, len - 1)
        } else {
            piece
        };
        assert(line@ == without_cr(split[i as int]));
        let ghost before = views(lines@);
        lines.push(line);
        assert(views(lines@) =~= before.push(line@));
        assert(ended.take(i + 1) =~= ended.take(i as int).push(ended[i as int]));
        i = i + 1;
    }
    assert(ended.take(i as int) =~= ended);
    if !pieces[last].is_empty() {
        let ghost before = views(lines@);
        lines.push(pieces[last]);
        assert(views(lines@) =~= before.push(split.last()));
    }
    lines
}

/// Unicode white space.
pub open spec fn white_space(c: char) -> bool {
    ||| '\u{9}' <= c <= '\u{d}'
    ||| c == '\u{20}'
    ||| c == '\u{85}'
    ||| c == '\u{a0}'
    ||| c == '\u{1680}'
    ||| '\u{2000}' <= c <= '\u{200a}'
    ||| c == '\u{2028}'
    ||| c == '\u{2029}'
    ||| c == '\u{202f}'
    ||| c == '\u{205f}'
    ||| c == '\u{3000}'
}

/// Whether a character is Unicode white space.
pub fn is_white_space(c: char) -> (space: bool)
    ensures
        space == white_space(c),
{
    ('\u{9}' <= c && c <= '\u{d}') || c == '\u{20}' || c == '\u{85}' || c == '\u{a0}' || c
        == '\u{1680}' || ('\u{2000}' <= c && c <= '\u{200a}') || c == '\u{2028}' || c == '\u{2029}'
        || c == '\u{202f}' || c == '\u{205f}' || c == '\u{3000}'
}

/// The words of `text`: its longest runs without white space, from the left.
pub open spec fn words_of(text: Seq<char>) -> Seq<Seq<char>>
    decreases text.len(),
{
    if text.len() == 0 {
        Seq::empty()
    } else {
        let before = words_of(text.drop_last());
        if white_space(text.last()) {
            before
        } else if text.len() == 1 || white_space(text[text.len() - 2]) {
            before.push(seq![text.last()])
        } else {
            before.drop_last().push(before.last().push(text.last()))
        }
    }
}

/// The words of `text`.
pub fn words<'a>(text: &'a str) -> (words: Vec<&'a str>)
    ensures
        views(words@) == words_of(text@),
{
    let chars = chars_of(text);
    let mut words: Vec<&'a str> = Vec::new();
    let mut start: usize = 0;
    let mut i: usize = 0;
    let mut inside: bool = false;
    while i < chars.len()
        invariant
            chars@ == text@,
            start <= i <= chars@.len(),
            inside ==> start < i && !white_space(text@[i - 1]) && words_of(text@.take(i as int))
                == views(words@).push(text@.subrange(start as int, i as int)),
            !inside ==> (i == 0 || white_space(text@[i - 1])) && words_of(text@.take(i as int))
                == views(words@),
        decreases chars@.len() - i,
    {
        let ghost head = text@.take(i + 1);
        let ghost before = views(words@);
        proof {
            assert(head.drop_last() =~= text@.take(i as int));
            assert(head.last() == text@[i as int]);
            if i > 0 {
                assert(head[head.len() - 2] == text@[i - 1]);
            }
        }
        if is_white_space(chars[i]) {
            if inside {
                let word = text.substring_char(start, i);
                words.push(word);
                assert(views(words@) =~= before.push(word@));
                inside = false;
            }
            start = i + 1;
        } else {
            if !inside {
                inside = true;
                start = i;
                assert(text@.subrange(start as int, i + 1) =~= seq![text@[i as int]]);
            } else {
                let ghost word = text@.subrange(start as int, i as int);
                assert(before.push(word).drop_last() =~= before);
                assert(text@.subrange(start as int, i + 1) =~= word.push(text@[i as int]));
            }
        }
        i = i + 1;
    }
    assert(text@.take(i as int) =~= text@);
    if inside {
        let ghost before = views(words@);
        let word = text.substring_char(start, i);
        words.push(word);
        assert(views(words@) =~= before.push(word@));
    }
    words
}

/// The value of a digit in a base up to sixteen.
pub open spec fn digit_of(c: char, radix: int) -> Option<int> {
    let value = if '0' <= c <= '9' {
        c as int - '0' as int
    } else if 'a' <= c <= 'f' {
        c as int - 'a' as int + 10
    } else if 'A' <= c <= 'F' {
        c as int - 'A' as int + 10
    } else {
        radix
    };
    if value < radix {
        Some(value)
    } else {
        None
    }
}

/// The number that a row of digits writes; nothing if one is no digit.
pub open spec fn digits_value(text: Seq<char>, radix: int) -> Option<int>
    decreases text.len(),
{
    if text.len() == 0 {
        Some(0)
    } else {
        match (digits_value(text.drop_last(), radix), digit_of(text.last(), radix)) {
            (Some(high), Some(low)) => Some(high * radix + low),
            _ => None,
        }
    }
}

/// The unsigned number that `text` writes in base `radix`: an optional plus
/// sign, then one or more digits, with nothing before, between or behind them,
/// and a value of at most `max`.
pub open spec fn number_of(text: Seq<char>, radix: int, max: int) -> Option<int> {
    let digits = if text.len() > 0 && text[0] == '+' {
        text.skip(1)
    } else {
        text
    };
    match digits_value(digits, radix) {
        Some(value) if digits.len() > 0 && value <= max => Some(value),
        _ => None,
    }
}

/// The value of a digit.
fn digit(c: char, radix: u32) -> (value: Option<u32>)
    requires
        2 <= radix <= 16,
    ensures
        match value {
            Some(v) => digit_of(c, radix as int) == Some(v as int) && v < radix,
            None => digit_of(c, radix as int) is None,
        },
{
    let code: u32 = c as u32;
    let value: u32 = if '0' <= c && c <= '9' {
        code - 48
    } else if 'a' <= c && c <= 'f' {
        code - 97 + 10
    } else if 'A' <= c && c <= 'F' {
        code - 65 + 10
    } else {
        radix
    };
    if value < radix {
        Some(value)
    } else {
        None
    }
}

/// Reads an unsigned number in base `radix`.
pub fn parse_number(text: &str, radix: u32, max: u32) -> (number: Option<u32>)
    requires
        2 <= radix <= 16,
    ensures
        match number {
            Some(n) => number_of(text@, radix as int, max as int) == Some(n as int),
            None => number_of(text@, radix as int, max as int) is None,
        },
{
    let chars = chars_of(text);
    let from: usize = if chars.len() > 0 && chars[0] == '+' {
        1
    } else {
        0
    };
    let ghost digits = text@.skip(from as int);
    assert(text@.skip(0) =~= text@);
    if chars.len() == from {
        return None;
    }
    let mut value: u64 = 0;
    let mut over: bool = false;
    let mut i: usize = from;
    while i < chars.len()
        invariant
            chars@ == text@,
            2 <= radix <= 16,
            from <= i <= chars@.len(),
            from <= 1,
            from == 1 <==> text@.len() > 0 && text@[0] == '+',
            from == 0 ==> digits == text@,
            digits == text@.skip(from as int),
            digits_value(digits.take(i - from), radix as int) matches Some(v) && if over {
                v > max
            } else {
                v == value && value <= max
            },
        decreases chars@.len() - i,
    {
        let ghost head = digits.take(i + 1 - from);
        let ghost high = digits_value(digits.take(i - from), radix as int)->0;
        proof {
            assert(head.drop_last() =~= digits.take(i - from));
            assert(head.last() == chars@[i as int]);
        }
        match digit(chars[i], radix) {
            None => {
                proof {
                    assert(digits_value(head, radix as int) is None);
                    lemma_bad_digit(digits, i + 1 - from, radix as int);
                }
                return None;
            },
            Some(low) => {
                proof {
                    assert(high * radix >= high) by (nonlinear_arith)
                        requires
                            high >= 0,
                            radix >= 2,
                    ;
                }
                if !over {
                    assert(value * radix <= u32::MAX * 16) by (nonlinear_arith)
                        requires
                            value <= u32::MAX,
                            radix <= 16,
                    ;
                    value = value * (radix as u64) + low as u64;
                    if value > max as u64 {
                        over = true;
                    }
                }
            },
        }
        i = i + 1;
    }
    assert(digits.take(i - from) =~= digits);
    if over {
        None
    } else {
        Some(value as u32)
    }
}

/// No row of digits continues a row that has a character which is no digit.
proof fn lemma_bad_digit(text: Seq<char>, len: int, radix: int)
    requires
        0 <= len <= text.len(),
        digits_value(text.take(len), radix) is None,
    ensures
        digits_value(text, radix) is None,
    decreases text.len() - len,
{
    if len == text.len() {
        assert(text.take(len) =~= text);
    } else {
        assert(text.take(len + 1).drop_last() =~= text.take(len));
        lemma_bad_digit(text, len + 1, radix);
    }
}

/// A list of strings stands for as many texts, each in its place.
pub proof fn law_texts_in_place(list: Seq<String>, parts: Seq<&str>)
    ensures
        texts(list).len() == list.len(),
        forall|i: int| 0 <= i < list.len() ==> #[trigger] texts(list)[i] == list[i]@,
        views(parts).len() == parts.len(),
        forall|i: int| 0 <= i < parts.len() ==> #[trigger] views(parts)[i] == parts[i]@,
{
}

/// Where a pattern stands, it stands letter for letter.
pub proof fn law_occurs_letter_for_letter(text: Seq<char>, pat: Seq<char>, i: int)
    ensures
        occurs_at(text, pat, i) <==> 0 <= i && i + pat.len() <= text.len() && forall|k: int|
            0 <= k < pat.len() ==> text[i + k] == #[trigger] pat[k],
{
    if 0 <= i && i + pat.len() <= text.len() {
        let part = text.subrange(i, i + pat.len());
        if forall|k: int| 0 <= k < pat.len() ==> text[i + k] == #[trigger] pat[k] {
            assert(part =~= pat);
        } else {
            let k = choose|k: int| 0 <= k < pat.len() && text[i + k] != #[trigger] pat[k];
            assert(part[k] != pat[k]);
        }
    }
}

/// A text holds whatever stands between its beginning and its end.
pub proof fn law_contains_what_it_is_made_of(before: Seq<char>, pat: Seq<char>, after: Seq<char>)
    ensures
        contains(before + pat + after, pat),
{
    let text = before + pat + after;
    assert(text.subrange(before.len() as int, (before.len() + pat.len()) as int) =~= pat);
    assert(occurs_at(text, pat, before.len() as int));
}

/// A text holds nothing but what it is made of.
pub proof fn law_contains_nothing_else(text: Seq<char>, pat: Seq<char>)
    requires
        contains(text, pat),
    ensures
        exists|before: Seq<char>, after: Seq<char>| text == #[trigger] (before + pat + after),
{
    let i = choose|i: int| occurs_at(text, pat, i);
    let before = text.take(i);
    let after = text.skip(i + pat.len());
    assert(text =~= before + pat + after);
}

/// Texts put together with a pattern between them.
pub open spec fn rejoined(parts: Seq<Seq<char>>, pat: Seq<char>) -> Seq<char>
    decreases parts.len(),
{
    if parts.len() == 0 {
        Seq::empty()
    } else if parts.len() == 1 {
        parts[0]
    } else {
        parts[0] + pat + rejoined(parts.drop_first(), pat)
    }
}

/// Splitting takes nothing away but the separators: put together again with the
/// separator between them, the pieces give back the text.
pub proof fn law_split_loses_nothing(text: Seq<char>, pat: Seq<char>)
    requires
        pat.len() > 0,
    ensures
        split_on(text, pat).len() >= 1,
        rejoined(split_on(text, pat), pat) == text,
    decreases text.len(),
{
    if contains(text, pat) {
        let k = choose|k: int| occurs_at(text, pat, k);
        lemma_first_exists(text, pat, k);
        let i = choose|i: int| first_at(text, pat, i);
        let rest = text.skip(i + pat.len());
        law_split_loses_nothing(rest, pat);
        lemma_split_step(text, pat, i);
        assert(split_on(text, pat).drop_first() =~= split_on(rest, pat));
        assert(text =~= text.take(i) + pat + rest);
    }
}

/// Splitting misses no separator: it cuts at the first one each time, so that a
/// piece together with the separator behind it holds that separator at its end
/// only, and the last piece holds none.
pub proof fn law_split_misses_nothing(
    text: Seq<char>,
    pat: Seq<char>,
    i: int,
    before: Seq<char>,
    after: Seq<char>,
)
    requires
        pat.len() > 0,
        0 <= i < split_on(text, pat).len(),
    ensures
        i == split_on(text, pat).len() - 1 ==> split_on(text, pat)[i] != before + pat + after,
        i < split_on(text, pat).len() - 1 && split_on(text, pat)[i] + pat == before + pat + after
            ==> after.len() == 0,
    decreases text.len(),
{
    let pieces = split_on(text, pat);
    if contains(text, pat) {
        let k = choose|k: int| occurs_at(text, pat, k);
        lemma_first_exists(text, pat, k);
        let f = choose|f: int| first_at(text, pat, f);
        let rest = text.skip(f + pat.len());
        lemma_split_step(text, pat, f);
        law_split_loses_nothing(rest, pat);
        if i > 0 {
            assert(pieces[i] == split_on(rest, pat)[i - 1]);
            law_split_misses_nothing(rest, pat, i - 1, before, after);
        } else if pieces[0] + pat == before + pat + after && after.len() > 0 {
            let whole = before + pat + after;
            let at = before.len() as int;
            assert(text.take(f) + pat =~= text.take((f + pat.len()) as int)) by {
                assert(text.subrange(f, f + pat.len()) == pat);
            }
            assert(at + pat.len() < f + pat.len());
            assert(text.subrange(at, at + pat.len()) =~= whole.subrange(at, at + pat.len()));
            assert(whole.subrange(at, at + pat.len()) =~= pat);
            assert(occurs_at(text, pat, at));
        }
    } else if text == before + pat + after {
        law_contains_what_it_is_made_of(before, pat, after);
    }
}

/// Lines one by one: what stands before a line feed is a line, without the
/// carriage return that may end it, and the lines of the rest follow. A text
/// without a line feed is one line, or none if it is empty.
pub proof fn law_lines_one_by_one(line: Seq<char>, rest: Seq<char>)
    requires
        !line.contains('\n'),
    ensures
        lines_of(line + seq!['\n'] + rest) == seq![
            if line.len() > 0 && line[line.len() - 1] == '\r' {
                line.take(line.len() - 1)
            } else {
                line
            },
        ] + lines_of(rest),
        lines_of(line) == if line.len() == 0 {
            Seq::empty()
        } else {
            seq![line]
        },
{
    lemma_split_part(line, '\n', rest);
    lemma_split_whole(line, '\n');
    lemma_split_nonempty(rest, seq!['\n']);
    let all = split_on(line + seq!['\n'] + rest, seq!['\n']);
    let after = split_on(rest, seq!['\n']);
    assert(all.last() == after.last());
    assert(all.drop_last() =~= seq![line] + after.drop_last());
    let cut = |line: Seq<char>| without_cr(line);
    assert(all.drop_last().map_values(cut) =~= seq![without_cr(line)]
        + after.drop_last().map_values(cut));
    assert(lines_of(line + seq!['\n'] + rest) =~= seq![without_cr(line)] + lines_of(rest));
    assert(seq![line].drop_last().map_values(cut) =~= Seq::empty());
    assert(lines_of(line) =~= if line.len() == 0 {
        Seq::empty()
    } else {
        seq![line]
    });
}

/// White space parts words: the words of a text are those before any white
/// space in it and then those behind.
pub proof fn law_words_parted_by_space(before: Seq<char>, space: char, after: Seq<char>)
    requires
        white_space(space),
    ensures
        words_of(before + seq![space] + after) == words_of(before) + words_of(after),
    decreases after.len(),
{
    let text = before + seq![space] + after;
    if after.len() == 0 {
        assert(text.drop_last() =~= before);
        assert(words_of(before) + words_of(after) =~= words_of(before));
    } else {
        let init = after.drop_last();
        law_words_parted_by_space(before, space, init);
        assert(text.drop_last() =~= before + seq![space] + init);
        assert(text.last() == after.last());
        if after.len() > 1 {
            assert(text[text.len() - 2] == after[after.len() - 2]);
        } else {
            assert(text[text.len() - 2] == space);
        }
        if !white_space(after.last()) && after.len() > 1 && !white_space(after[after.len() - 2]) {
            lemma_words_open(init);
            let first = words_of(before);
            let open = words_of(init);
            assert((first + open).drop_last() =~= first + open.drop_last());
            assert((first + open).last() == open.last());
            assert(words_of(text) =~= first + words_of(after));
        } else {
            assert(words_of(text) =~= words_of(before) + words_of(after));
        }
    }
}

/// A text that does not end in white space has a word.
proof fn lemma_words_open(text: Seq<char>)
    requires
        text.len() > 0,
        !white_space(text.last()),
    ensures
        words_of(text).len() > 0,
{
}

/// A text without white space is one word, or none if it is empty.
pub proof fn law_words_hold_no_space(word: Seq<char>)
    requires
        forall|i: int| 0 <= i < word.len() ==> !white_space(#[trigger] word[i]),
    ensures
        words_of(word) == if word.len() == 0 {
            Seq::empty()
        } else {
            seq![word]
        },
    decreases word.len(),
{
    if word.len() > 0 {
        let init = word.drop_last();
        assert forall|i: int| 0 <= i < init.len() implies !white_space(#[trigger] init[i]) by {
            assert(!white_space(word[i]));
        }
        law_words_hold_no_space(init);
        assert(!white_space(word[word.len() - 1]));
        if word.len() == 1 {
            assert(seq![word.last()] =~= word);
            assert(words_of(word) =~= seq![word]);
        } else {
            assert(!white_space(word[word.len() - 2]));
            assert(init.push(word.last()) =~= word);
            assert(words_of(word) =~= seq![word]);
        }
    }
}

/// `c` is the numeral for `value`, in either case.
pub open spec fn numeral(c: char, value: int) -> bool {
    0 <= value < 16 && (c == seq![
        '0', '1', '2', '3', '4', '5', '6', '7', '8', '9', 'A', 'B', 'C', 'D', 'E', 'F',
    ][value] || c == seq![
        '0', '1', '2', '3', '4', '5', '6', '7', '8', '9', 'a', 'b', 'c', 'd', 'e', 'f',
    ][value])
}

/// A single numeral is the number it stands for, if the base has it and it is
/// not over the limit.
pub proof fn law_number_of_one_numeral(c: char, value: int, radix: int, max: int)
    requires
        numeral(c, value),
        2 <= radix <= 16,
    ensures
        number_of(seq![c], radix, max) == if value < radix && value <= max {
            Some(value)
        } else {
            None
        },
{
    lemma_numeral(c, value, radix);
    assert(seq![c].drop_last() =~= Seq::empty());
    assert(digits_value(Seq::<char>::empty(), radix) == Some(0int));
    assert(0 * radix == 0) by (nonlinear_arith);
    assert(seq![c].last() == c);
    assert(digits_value(seq![c], radix) == if value < radix {
        Some(value)
    } else {
        None
    });
    assert(c != '+');
}

proof fn lemma_numeral(c: char, value: int, radix: int)
    requires
        numeral(c, value),
        radix <= 16,
    ensures
        digit_of(c, radix) == if value < radix {
            Some(value)
        } else {
            None
        },
{
}

/// One more numeral multiplies a number by the base and adds the numeral's
/// value, as long as that is not over the limit.
pub proof fn law_number_grows_by_numerals(
    text: Seq<char>,
    number: int,
    limit: int,
    c: char,
    value: int,
    radix: int,
    max: int,
)
    requires
        number_of(text, radix, limit) == Some(number),
        numeral(c, value),
        value < radix,
        2 <= radix <= 16,
    ensures
        number_of(text.push(c), radix, max) == if number * radix + value <= max {
            Some(number * radix + value)
        } else {
            None
        },
{
    lemma_numeral(c, value, radix);
    let longer = text.push(c);
    if text[0] == '+' {
        assert(longer.skip(1).drop_last() =~= text.skip(1));
    } else {
        assert(longer.drop_last() =~= text);
    }
}

/// The limit decides only whether there is a number, not which: a number within
/// two limits is the same under both, and one over a limit is none.
pub proof fn law_number_limit(text: Seq<char>, number: int, limit: int, radix: int, max: int)
    requires
        number_of(text, radix, limit) == Some(number),
    ensures
        number <= limit,
        number_of(text, radix, max) == if number <= max {
            Some(number)
        } else {
            None
        },
{
}

/// A number may have one plus sign before it, and needs a numeral.
pub proof fn law_number_sign(text: Seq<char>, radix: int, max: int)
    requires
        2 <= radix <= 16,
    ensures
        text.len() == 0 ==> number_of(text, radix, max) is None && number_of(
            seq!['+'] + text,
            radix,
            max,
        ) is None,
        text.len() > 0 && text[0] != '+' ==> number_of(seq!['+'] + text, radix, max) == number_of(
            text,
            radix,
            max,
        ),
        text.len() > 0 && text[0] == '+' ==> number_of(seq!['+'] + text, radix, max) is None,
{
    let signed = seq!['+'] + text;
    assert(signed.skip(1) =~= text);
    if text.len() > 0 && text[0] == '+' {
        assert(text.take(1).last() == '+');
        reveal_with_fuel(digits_value, 2);
        assert(digits_value(text.take(1), radix) is None);
        lemma_bad_digit(text, 1, radix);
    }
}

/// A text with anything but numerals of the base behind the sign is no number.
pub proof fn law_number_needs_numerals(text: Seq<char>, at: int, radix: int, max: int)
    requires
        0 <= at < text.len(),
        at > 0 || text[0] != '+',
        forall|value: int| 0 <= value < radix ==> !#[trigger] numeral(text[at], value),
        2 <= radix <= 16,
    ensures
        number_of(text, radix, max) is None,
{
    let c = text[at];
    if digit_of(c, radix) is Some {
        let value = digit_of(c, radix)->0;
        assert(0 <= value < radix);
        assert(numeral(c, value));
    }
    let (digits, i) = if text[0] == '+' {
        (text.skip(1), at - 1)
    } else {
        (text, at)
    };
    assert(digits[i] == c);
    assert(digits.take(i + 1).last() == c);
    assert(digits_value(digits.take(i + 1), radix) is None);
    lemma_bad_digit(digits, i + 1, radix);
}

/// Numbers have no minus sign.
pub proof fn lemma_number_not_negative(text: Seq<char>, radix: int, max: int)
    requires
        2 <= radix <= 16,
    ensures
        number_of(text, radix, max) matches Some(number) ==> 0 <= number <= max,
{
    let digits = if text.len() > 0 && text[0] == '+' {
        text.skip(1)
    } else {
        text
    };
    lemma_digits_not_negative(digits, radix);
}

proof fn lemma_digits_not_negative(text: Seq<char>, radix: int)
    requires
        2 <= radix <= 16,
    ensures
        digits_value(text, radix) matches Some(value) ==> value >= 0,
    decreases text.len(),
{
    if text.len() > 0 {
        lemma_digits_not_negative(text.drop_last(), radix);
        if let Some(high) = digits_value(text.drop_last(), radix) {
            assert(high * radix >= 0) by (nonlinear_arith)
                requires
                    high >= 0,
                    radix >= 2,
            ;
        }
    }
}

/// White space at the end adds no words.
pub proof fn lemma_words_before_space(text: Seq<char>, space: Seq<char>)
    requires
        forall|i: int| 0 <= i < space.len() ==> white_space(#[trigger] space[i]),
    ensures
        words_of(text + space) == words_of(text),
    decreases space.len(),
{
    if space.len() == 0 {
        assert(text + space =~= text);
    } else {
        let init = space.drop_last();
        assert forall|i: int| 0 <= i < init.len() implies white_space(#[trigger] init[i]) by {
            assert(white_space(space[i]));
        }
        lemma_words_before_space(text, init);
        assert((text + space).drop_last() =~= text + init);
        assert((text + space).last() == space[space.len() - 1]);
    }
}

} // verus!
