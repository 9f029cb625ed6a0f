//! Text as a sequence of characters: white space, lines, words and substrings.

use vstd::prelude::*;

verus! {

/// The characters with the Unicode `White_Space` property.
pub open spec fn is_space(c: char) -> bool {
    let n = c as u32;
    ||| 0x09 <= n <= 0x0d
    ||| n == 0x20
    ||| n == 0x85
    ||| n == 0xa0
    ||| n == 0x1680
    ||| 0x2000 <= n <= 0x200a
    ||| n == 0x2028
    ||| n == 0x2029
    ||| n == 0x202f
    ||| n == 0x205f
    ||| n == 0x3000
}

/// Whether `part` occurs in `whole` at position `at`.
pub open spec fn occurs_at(whole: Seq<char>, part: Seq<char>, at: int) -> bool {
    0 <= at && at + part.len() <= whole.len() && whole.subrange(at, at + part.len()) == part
}

/// Whether `part` occurs anywhere in `whole`.
pub open spec fn occurs_in(whole: Seq<char>, part: Seq<char>) -> bool {
    exists|at: int| #[trigger] occurs_at(whole, part, at)
}

/// The number of characters before the first line feed; all of them if there is none.
pub open spec fn line_len(s: Seq<char>) -> nat
    decreases s.len(),
{
    if s.len() == 0 || s[0] == '\n' {
        0
    } else {
        1 + line_len(s.skip(1))
    }
}

/// A line without the carriage return that precedes its line feed.
pub open spec fn without_return(line: Seq<char>) -> Seq<char> {
    if line.len() > 0 && line.last() == '\r' {
        line.drop_last()
    } else {
        line
    }
}

/// The lines of a text. A line ends with a line feed, or with a carriage return and a line feed;
/// the ending of the last line may be left out.
pub open spec fn lines(s: Seq<char>) -> Seq<Seq<char>>
    decreases s.len(),
{
    let n = line_len(s);
    if s.len() == 0 {
        Seq::empty()
    } else if n >= s.len() {
        seq![s]
    } else {
        seq![without_return(s.take(n as int))] + lines(s.skip(n as int + 1))
    }
}

/// The number of characters before the first white space; all of them if there is none.
pub open spec fn word_len(s: Seq<char>) -> nat
    decreases s.len(),
{
    if s.len() == 0 || is_space(s[0]) {
        0
    } else {
        1 + word_len(s.skip(1))
    }
}

/// The words of a text: its longest runs of characters without white space.
pub open spec fn words(s: Seq<char>) -> Seq<Seq<char>>
    decreases s.len(),
{
    if s.len() == 0 {
        Seq::empty()
    } else if is_space(s[0]) {
        words(s.skip(1))
    } else {
        let n = word_len(s);
        if 0 < n <= s.len() {
            seq![s.take(n as int)] + words(s.skip(n as int))
        } else {
            Seq::empty()
        }
    }
}

/// A text without its white space.
pub open spec fn without_spaces(s: Seq<char>) -> Seq<char> {
    s.filter(|c: char| !is_space(c))
}

/// The contents of a list of character vectors.
pub open spec fn contents(list: Seq<Vec<char>>) -> Seq<Seq<char>> {
    list.map_values(|line: Vec<char>| line@)
}

/// The first line that begins with `prefix`.
pub open spec fn first_starting(rows: Seq<Seq<char>>, prefix: Seq<char>) -> Option<Seq<char>>
    decreases rows.len(),
{
    if rows.len() == 0 {
        None
    } else if occurs_at(rows[0], prefix, 0) {
        Some(rows[0])
    } else {
        first_starting(rows.skip(1), prefix)
    }
}

/// The first line that contains `part`.
pub open spec fn first_containing(rows: Seq<Seq<char>>, part: Seq<char>) -> Option<Seq<char>>
    decreases rows.len(),
{
    if rows.len() == 0 {
        None
    } else if occurs_in(rows[0], part) {
        Some(rows[0])
    } else {
        first_containing(rows.skip(1), part)
    }
}

/// The characters of a string.
pub fn chars_of(s: &str) -> (v: Vec<char>)
    ensures
        v@ == s@,
{
    let mut v: Vec<char> = Vec::new();
    for c in it: s.chars()
        invariant
            it.seq() == s@,
            v@ == s@.take(it.index() as int),
    {
        v.push(c);
    }
    v
}

/// Whether a character is white space.
pub fn is_whitespace(c: char) -> (b: bool)
    ensures
        b == is_space(c),
{
    let n: u32 = c as u32;
    (0x09 <= n && n <= 0x0d) || n == 0x20 || n == 0x85 || n == 0xa0 || n == 0x1680 || (0x2000 <= n
        && n <= 0x200a) || n == 0x2028 || n == 0x2029 || n == 0x202f || n == 0x205f || n == 0x3000
}

/// The characters from `from` up to `to`.
fn piece(s: &Vec<char>, from: usize, to: usize) -> (v: Vec<char>)
    requires
        from <= to <= s@.len(),
    ensures
        v@ == s@.subrange(from as int, to as int),
{
    let mut v: Vec<char> = Vec::new();
    let mut i: usize = from;
    while i < to
        invariant
            from <= i <= to <= s@.len(),
            v@ == s@.subrange(from as int, i as int),
        decreases to - i,
    {
        v.push(s[i]);
        i += 1;
    }
    v
}

/// Whether `part` occurs in `whole` at position `at`.
fn matches_at(whole: &Vec<char>, part: &Vec<char>, at: usize) -> (b: bool)
    requires
        at + part@.len() <= whole@.len(),
    ensures
        b == occurs_at(whole@, part@, at as int),
{
    let mut i: usize = 0;
    let total: usize = whole.len();
    while i < part.len()
        invariant
            i <= part@.len(),
            at + part@.len() <= whole@.len() == total,
            forall|j: int| 0 <= j < i ==> whole@[at + j] == part@[j],
        decreases part@.len() - i,
    {
        if whole[at + i] != part[i] {
            assert(whole@.subrange(at as int, at + part@.len())[i as int] == whole@[at + i]);
            return false;
        }
        i += 1;
    }
    assert(whole@.subrange(at as int, at + part@.len()) =~= part@);
    true
}

/// Whether `part` occurs anywhere in `whole`.
pub fn contains(whole: &Vec<char>, part: &Vec<char>) -> (b: bool)
    ensures
        b == occurs_in(whole@, part@),
{
    if part.len() > whole.len() {
        return false;
    }
    let mut at: usize = 0;
    let last: usize = whole.len() - part.len();
    loop
        invariant
            at <= last,
            last == whole@.len() - part@.len(),
            forall|i: int| 0 <= i < at ==> !occurs_at(whole@, part@, i),
        decreases last - at,
    {
        if matches_at(whole, part, at) {
            return true;
        }
        if at == last {
            assert forall|i: int| !occurs_at(whole@, part@, i) by {}
            return false;
        }
        at += 1;
    }
}

/// Whether a text begins with `prefix`.
pub fn starts_with(whole: &Vec<char>, prefix: &Vec<char>) -> (b: bool)
    ensures
        b == occurs_at(whole@, prefix@, 0),
{
    prefix.len() <= whole.len() && matches_at(whole, prefix, 0)
}

/// The lines of a text.
pub fn split_lines(s: &Vec<char>) -> (out: Vec<Vec<char>>)
    ensures
        contents(out@) == lines(s@),
{
    let mut out: Vec<Vec<char>> = Vec::new();
    let mut start: usize = 0;
    assert(s@.skip(0) =~= s@);
    while start < s.len()
        invariant
            start <= s@.len(),
            lines(s@) == contents(out@) + lines(s@.skip(start as int)),
        decreases s@.len() - start,
    {
        let ghost rest = s@.skip(start as int);
        let ghost before = out@;
        let mut end: usize = start;
        while end < s.len() && s[end] != '\n'
            invariant
                start <= end <= s@.len(),
                rest == s@.skip(start as int),
                line_len(rest) == end - start + line_len(s@.skip(end as int)),
            decreases s@.len() - end,
        {
            assert(s@.skip(end as int).skip(1) =~= s@.skip(end + 1));
            end += 1;
        }
        if end == s.len() {
            let line = piece(s, start, end);
            out.push(line);
            proof {
                assert(line@ =~= rest);
                assert(s@.skip(s@.len() as int) =~= Seq::empty());
                assert(contents(out@) =~= contents(before) + seq![rest]);
                assert(lines(s@) =~= contents(out@) + lines(s@.skip(s@.len() as int)));
            }
            start = end;
        } else {
            let stop: usize = if end > start && s[end - 1] == '\r' {
                end - 1
            } else {
                end
            };
            let line = piece(s, start, stop);
            out.push(line);
            proof {
                let n = (end - start) as int;
                assert(line_len(rest) == n);
                assert(line@ =~= without_return(rest.take(n)));
                assert(rest.skip(n + 1) =~= s@.skip(end + 1));
                assert(contents(out@) =~= contents(before) + seq![line@]);
                assert(lines(s@) =~= contents(out@) + lines(s@.skip(end + 1)));
            }
            start = end + 1;
        }
    }
    assert(lines(s@.skip(s@.len() as int)) =~= Seq::empty());
    assert(contents(out@) =~= lines(s@));
    out
}

/// The words of a text.
pub fn split_words(s: &Vec<char>) -> (out: Vec<Vec<char>>)
    ensures
        contents(out@) == words(s@),
{
    let mut out: Vec<Vec<char>> = Vec::new();
    let mut start: usize = 0;
    assert(s@.skip(0) =~= s@);
    while start < s.len()
        invariant
            start <= s@.len(),
            words(s@) == contents(out@) + words(s@.skip(start as int)),
        decreases s@.len() - start,
    {
        let ghost rest = s@.skip(start as int);
        let ghost before = out@;
        if is_whitespace(s[start]) {
            assert(rest.skip(1) =~= s@.skip(start + 1));
            start += 1;
        } else {
            let mut end: usize = start;
            while end < s.len() && !is_whitespace(s[end])
                invariant
                    start <= end <= s@.len(),
                    rest == s@.skip(start as int),
                    word_len(rest) == end - start + word_len(s@.skip(end as int)),
                decreases s@.len() - end,
            {
                assert(s@.skip(end as int).skip(1) =~= s@.skip(end + 1));
                end += 1;
            }
            let word = piece(s, start, end);
            out.push(word);
            proof {
                let n = (end - start) as int;
                assert(word_len(rest) == n);
                assert(n > 0) by {
                    if n == 0 {
                        assert(!is_space(rest[0]));
                        assert(word_len(rest) == 1 + word_len(rest.skip(1)));
                    }
                }
                assert(word@ =~= rest.take(n));
                assert(rest.skip(n) =~= s@.skip(end as int));
                assert(contents(out@) =~= contents(before) + seq![word@]);
                assert(words(s@) =~= contents(out@) + words(s@.skip(end as int)));
            }
            start = end;
        }
    }
    assert(words(s@.skip(s@.len() as int)) =~= Seq::empty());
    assert(contents(out@) =~= words(s@));
    out
}

/// A text without its white space.
pub fn remove_spaces(s: &Vec<char>) -> (out: Vec<char>)
    ensures
        out@ == without_spaces(s@),
{
    let mut out: Vec<char> = Vec::new();
    let mut i: usize = 0;
    let ghost keep = |c: char| !is_space(c);
    assert(s@.take(0).filter(keep) =~= Seq::empty()) by {
        reveal(Seq::filter);
    }
    while i < s.len()
        invariant
            i <= s@.len(),
            keep == (|c: char| !is_space(c)),
            out@ == s@.take(i as int).filter(keep),
        decreases s@.len() - i,
    {
        proof {
            reveal(Seq::filter);
            assert(s@.take(i + 1).drop_last() =~= s@.take(i as int));
        }
        if !is_whitespace(s[i]) {
            out.push(s[i]);
        }
        i += 1;
    }
    assert(s@.take(s@.len() as int) =~= s@);
    out
}

/// Whether two texts hold the same characters.
pub fn same_text(a: &Vec<char>, b: &Vec<char>) -> (r: bool)
    ensures
        r == (a@ == b@),
{
    a.len() == b.len() && {
        let r = matches_at(a, b, 0);
        assert(a@.subrange(0, a@.len() as int) =~= a@);
        r
    }
}

/// Finds the first line that begins with `prefix`.
pub fn find_starting(rows: &Vec<Vec<char>>, prefix: &Vec<char>) -> (r: Option<usize>)
    ensures
        match r {
            Some(i) => i < rows@.len() && first_starting(contents(rows@), prefix@) == Some(
                rows@[i as int]@,
            ),
            None => first_starting(contents(rows@), prefix@) is None,
        },
{
    let ghost all = contents(rows@);
    let mut i: usize = 0;
    assert(all.skip(0) =~= all);
    while i < rows.len()
        invariant
            i <= rows@.len(),
            all == contents(rows@),
            first_starting(all, prefix@) == first_starting(all.skip(i as int), prefix@),
        decreases rows@.len() - i,
    {
        assert(all.skip(i as int)[0] == rows@[i as int]@);
        if starts_with(&rows[i], prefix) {
            return Some(i);
        }
        assert(all.skip(i as int).skip(1) =~= all.skip(i + 1));
        i += 1;
    }
    None
}

/// Finds the first line that contains `part`.
pub fn find_containing(rows: &Vec<Vec<char>>, part: &Vec<char>) -> (r: Option<usize>)
    ensures
        match r {
            Some(i) => i < rows@.len() && first_containing(contents(rows@), part@) == Some(
                rows@[i as int]@,
            ),
            None => first_containing(contents(rows@), part@) is None,
        },
{
    let ghost all = contents(rows@);
    let mut i: usize = 0;
    assert(all.skip(0) =~= all);
    while i < rows.len()
        invariant
            i <= rows@.len(),
            all == contents(rows@),
            first_containing(all, part@) == first_containing(all.skip(i as int), part@),
        decreases rows@.len() - i,
    {
        assert(all.skip(i as int)[0] == rows@[i as int]@);
        if contains(&rows[i], part) {
            return Some(i);
        }
        assert(all.skip(i as int).skip(1) =~= all.skip(i + 1));
        i += 1;
    }
    None
}

proof fn lemma_line_len(s: Seq<char>)
    ensures
        line_len(s) <= s.len(),
        forall|i: int| 0 <= i < line_len(s) ==> s[i] != '\n',
    decreases s.len(),
{
    if s.len() > 0 && s[0] != '\n' {
        lemma_line_len(s.skip(1));
        assert forall|i: int| 0 <= i < line_len(s) implies s[i] != '\n' by {
            if i > 0 {
                assert(s[i] == s.skip(1)[i - 1]);
            }
        }
    }
}

/// No line holds a line feed.
pub proof fn law_lines_hold_no_line_feed(s: Seq<char>, k: int, i: int)
    requires
        0 <= k < lines(s).len(),
        0 <= i < lines(s)[k].len(),
    ensures
        lines(s)[k][i] != '\n',
    decreases s.len(),
{
    let n = line_len(s);
    lemma_line_len(s);
    if n < s.len() && k > 0 {
        let rest = s.skip(n as int + 1);
        assert(lines(s)[k] == lines(rest)[k - 1]);
        law_lines_hold_no_line_feed(rest, k - 1, i);
    }
}

proof fn lemma_word_len(s: Seq<char>)
    ensures
        word_len(s) <= s.len(),
        forall|i: int| 0 <= i < word_len(s) ==> !is_space(s[i]),
    decreases s.len(),
{
    if s.len() > 0 && !is_space(s[0]) {
        lemma_word_len(s.skip(1));
        assert forall|i: int| 0 <= i < word_len(s) implies !is_space(s[i]) by {
            if i > 0 {
                assert(s[i] == s.skip(1)[i - 1]);
            }
        }
    }
}

/// No word is empty, and no word holds white space.
pub proof fn law_words_hold_no_space(s: Seq<char>, k: int)
    requires
        0 <= k < words(s).len(),
    ensures
        words(s)[k].len() > 0,
        forall|i: int| 0 <= i < words(s)[k].len() ==> !is_space(words(s)[k][i]),
    decreases s.len(),
{
    if is_space(s[0]) {
        law_words_hold_no_space(s.skip(1), k);
    } else {
        let n = word_len(s);
        lemma_word_len(s);
        if k > 0 {
            let rest = s.skip(n as int);
            assert(words(s)[k] == words(rest)[k - 1]);
            law_words_hold_no_space(rest, k - 1);
        }
    }
}

/// Whether a text is a single word.
pub open spec fn is_word(s: Seq<char>) -> bool {
    s.len() > 0 && forall|i: int| 0 <= i < s.len() ==> !is_space(#[trigger] s[i])
}

proof fn lemma_word_len_of_prefix(word: Seq<char>, rest: Seq<char>)
    requires
        forall|i: int| 0 <= i < word.len() ==> !is_space(#[trigger] word[i]),
        rest.len() == 0 || is_space(rest[0]),
    ensures
        word_len(word + rest) == word.len(),
    decreases word.len(),
{
    if word.len() == 0 {
        assert(word + rest =~= rest);
    } else {
        assert((word + rest)[0] == word[0]);
        assert((word + rest).skip(1) =~= word.skip(1) + rest);
        lemma_word_len_of_prefix(word.skip(1), rest);
    }
}

/// Two words with a space between them are two words.
pub proof fn law_two_words(a: Seq<char>, b: Seq<char>)
    requires
        is_word(a),
        is_word(b),
    ensures
        words(a + seq![' '] + b) == seq![a, b],
{
    let rest = seq![' '] + b;
    let whole = a + seq![' '] + b;
    assert(whole =~= a + rest);
    lemma_word_len_of_prefix(a, rest);
    assert(!is_space(whole[0])) by {
        assert(whole[0] == a[0]);
    }
    assert(whole.take(a.len() as int) =~= a);
    assert(whole.skip(a.len() as int) =~= rest);
    assert(rest.skip(1) =~= b);
    lemma_word_len_of_prefix(b, Seq::empty());
    assert(b + Seq::<char>::empty() =~= b);
    assert(b.take(b.len() as int) =~= b);
    assert(b.skip(b.len() as int) =~= Seq::empty());
    assert(!is_space(b[0]));
    assert(words(b.skip(b.len() as int)) =~= Seq::empty());
    assert(words(b) =~= seq![b]);
    assert(words(rest) == words(b));
    assert(words(whole) =~= seq![a, b]);
}

proof fn lemma_line_len_of_prefix(line: Seq<char>, rest: Seq<char>)
    requires
        forall|i: int| 0 <= i < line.len() ==> #[trigger] line[i] != '\n',
        rest.len() == 0 || rest[0] == '\n',
    ensures
        line_len(line + rest) == line.len(),
    decreases line.len(),
{
    if line.len() == 0 {
        assert(line + rest =~= rest);
    } else {
        assert((line + rest)[0] == line[0]);
        assert((line + rest).skip(1) =~= line.skip(1) + rest);
        lemma_line_len_of_prefix(line.skip(1), rest);
    }
}

/// An empty text has no lines. What precedes a line feed is a line of its own, without a carriage
/// return at its end, and the lines of the rest follow it. What follows the last line feed is a
/// line if it is not empty.
pub proof fn law_lines_end_with_line_feeds(line: Seq<char>, rest: Seq<char>)
    requires
        forall|i: int| 0 <= i < line.len() ==> #[trigger] line[i] != '\n',
    ensures
        lines(Seq::empty()) == Seq::<Seq<char>>::empty(),
        line.len() > 0 ==> lines(line) == seq![line],
        line.len() > 0 && line.last() == '\r' ==> lines(line + seq!['\n'] + rest) == seq![
            line.drop_last(),
        ] + lines(rest),
        line.len() == 0 || line.last() != '\r' ==> lines(line + seq!['\n'] + rest) == seq![line]
            + lines(rest),
{
    let tail = seq!['\n'] + rest;
    let whole = line + seq!['\n'] + rest;
    assert(whole =~= line + tail);
    lemma_line_len_of_prefix(line, tail);
    lemma_line_len_of_prefix(line, Seq::empty());
    assert(line + Seq::<char>::empty() =~= line);
    assert(whole.take(line.len() as int) =~= line);
    assert(whole.skip(line.len() as int + 1) =~= rest);
}

/// An empty text has no words. What precedes white space or the end is a word of its own, and the
/// words of the rest follow it.
pub proof fn law_words_end_with_spaces(word: Seq<char>, rest: Seq<char>)
    requires
        is_word(word),
        rest.len() == 0 || is_space(rest[0]),
    ensures
        words(Seq::empty()) == Seq::<Seq<char>>::empty(),
        words(word + rest) == seq![word] + words(rest),
{
    lemma_word_len_of_prefix(word, rest);
    assert((word + rest)[0] == word[0]);
    assert((word + rest).take(word.len() as int) =~= word);
    assert((word + rest).skip(word.len() as int) =~= rest);
}

/// White space before a text does not change its words.
pub proof fn law_words_ignore_leading_space(space: char, s: Seq<char>)
    requires
        is_space(space),
    ensures
        words(seq![space] + s) == words(s),
{
    assert((seq![space] + s).skip(1) =~= s);
}

/// Taking white space away keeps all other characters, in their order.
pub proof fn law_only_spaces_are_removed(s: Seq<char>, c: char)
    ensures
        without_spaces(Seq::empty()) == Seq::<char>::empty(),
        is_space(c) ==> without_spaces(s.push(c)) == without_spaces(s),
        !is_space(c) ==> without_spaces(s.push(c)) == without_spaces(s).push(c),
{
    reveal(Seq::filter);
    assert(s.push(c).drop_last() =~= s);
}

/// A text occurs in every text that is made by writing something before and behind it.
pub proof fn law_parts_occur(before: Seq<char>, part: Seq<char>, behind: Seq<char>)
    ensures
        occurs_at(before + part + behind, part, before.len() as int),
        occurs_in(before + part + behind, part),
{
    let whole = before + part + behind;
    assert(whole.subrange(before.len() as int, before.len() as int + part.len()) =~= part);
    assert(occurs_at(whole, part, before.len() as int));
}

/// Where a text occurs, the whole is what stands before it, the text, and what stands behind it.
pub proof fn law_what_occurs_is_a_part(whole: Seq<char>, part: Seq<char>, at: int)
    ensures
        occurs_at(whole, part, at) ==> 0 <= at <= whole.len() && whole == whole.take(at) + part
            + whole.skip(at + part.len()),
        occurs_in(whole, part) ==> exists|before: Seq<char>, behind: Seq<char>|
            whole == #[trigger] (before + part + behind),
{
    if occurs_at(whole, part, at) {
        assert(whole =~= whole.take(at) + part + whole.skip(at + part.len()));
    }
    if occurs_in(whole, part) {
        let k = choose|k: int| occurs_at(whole, part, k);
        assert(whole =~= whole.take(k) + part + whole.skip(k + part.len()));
    }
}

/// The first line that begins with a prefix is found, and none is found if no line does.
pub proof fn law_the_first_line_that_begins_is_found(
    rows: Seq<Seq<char>>,
    prefix: Seq<char>,
    k: int,
)
    requires
        0 <= k <= rows.len(),
        forall|i: int| 0 <= i < k ==> !occurs_at(#[trigger] rows[i], prefix, 0),
    ensures
        k < rows.len() && occurs_at(rows[k], prefix, 0) ==> first_starting(rows, prefix) == Some(
            rows[k],
        ),
        k == rows.len() ==> first_starting(rows, prefix) is None,
    decreases rows.len(),
{
    if k > 0 {
        let rest = rows.skip(1);
        assert forall|i: int| 0 <= i < k - 1 implies !occurs_at(#[trigger] rest[i], prefix, 0) by {
            assert(rest[i] == rows[i + 1]);
        }
        assert(!occurs_at(rows[0], prefix, 0));
        law_the_first_line_that_begins_is_found(rest, prefix, k - 1);
    }
}

/// The first line that contains a text is found, and none is found if no line does.
pub proof fn law_the_first_line_that_contains_is_found(
    rows: Seq<Seq<char>>,
    part: Seq<char>,
    k: int,
)
    requires
        0 <= k <= rows.len(),
        forall|i: int| 0 <= i < k ==> !occurs_in(#[trigger] rows[i], part),
    ensures
        k < rows.len() && occurs_in(rows[k], part) ==> first_containing(rows, part) == Some(
            rows[k],
        ),
        k == rows.len() ==> first_containing(rows, part) is None,
    decreases rows.len(),
{
    if k > 0 {
        let rest = rows.skip(1);
        assert forall|i: int| 0 <= i < k - 1 implies !occurs_in(#[trigger] rest[i], part) by {
            assert(rest[i] == rows[i + 1]);
        }
        assert(!occurs_in(rows[0], part));
        law_the_first_line_that_contains_is_found(rest, part, k - 1);
    }
}

/// The contents of a list are those of its items, all of them and in their order.
pub proof fn law_contents_are_those_of_the_items(list: Seq<Vec<char>>)
    ensures
        contents(list).len() == list.len(),
        forall|i: int| 0 <= i < list.len() ==> #[trigger] contents(list)[i] == list[i]@,
{
}

/// White space is made up of these characters, and no others.
pub proof fn law_white_space(c: char)
    ensures
        is_space(c) <==> seq![
            '\u{9}',
            '\u{a}',
            '\u{b}',
            '\u{c}',
            '\u{d}',
            '\u{20}',
            '\u{85}',
            '\u{a0}',
            '\u{1680}',
            '\u{2000}',
            '\u{2001}',
            '\u{2002}',
            '\u{2003}',
            '\u{2004}',
            '\u{2005}',
            '\u{2006}',
            '\u{2007}',
            '\u{2008}',
            '\u{2009}',
            '\u{200a}',
            '\u{2028}',
            '\u{2029}',
            '\u{202f}',
            '\u{205f}',
            '\u{3000}',
        ].contains(c),
{
    let all = seq![
        '\u{9}',
        '\u{a}',
        '\u{b}',
        '\u{c}',
        '\u{d}',
        '\u{20}',
        '\u{85}',
        '\u{a0}',
        '\u{1680}',
        '\u{2000}',
        '\u{2001}',
        '\u{2002}',
        '\u{2003}',
        '\u{2004}',
        '\u{2005}',
        '\u{2006}',
        '\u{2007}',
        '\u{2008}',
        '\u{2009}',
        '\u{200a}',
        '\u{2028}',
        '\u{2029}',
        '\u{202f}',
        '\u{205f}',
        '\u{3000}',
    ];
    if is_space(c) {
        let n = c as u32;
        let i: int = if n <= 0x0d {
            n - 0x09
        } else if n == 0x20 {
            5
        } else if n == 0x85 {
            6
        } else if n == 0xa0 {
            7
        } else if n == 0x1680 {
            8
        } else if n <= 0x200a {
            9 + n - 0x2000
        } else if n == 0x2028 {
            20
        } else if n == 0x2029 {
            21
        } else if n == 0x202f {
            22
        } else if n == 0x205f {
            23
        } else {
            24
        };
        assert(all[i] == c);
    }
}

} // verus!
