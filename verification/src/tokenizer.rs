use crate::text::{chars_of, joined, string_of, views};
use vstd::prelude::*;

verus! {

/// Number of positions of `s` that hold `c`.
pub open spec fn occurrences(s: Seq<char>, c: char) -> nat
    decreases s.len(),
{
    if s.len() == 0 {
        0
    } else {
        occurrences(s.drop_last(), c) + if s.last() == c { 1nat } else { 0nat }
    }
}

/// A buffer is closed when it holds an even number of single quotes and an
/// even number of double quotes, each kind counted on its own.
pub open spec fn quotes_closed(s: Seq<char>) -> bool {
    occurrences(s, '\'') % 2 == 0 && occurrences(s, '"') % 2 == 0
}

/// Whether a count is even.
pub fn is_even(nb: usize) -> (r: bool)
    ensures
        r == (nb % 2 == 0),
{
    nb % 2 == 0
}

/// How often `c` occurs in `vec`.
pub fn count_occurences(vec: &Vec<char>, c: &char) -> (n: usize)
    ensures
        n == occurrences(vec@, *c),
{
    let mut n: usize = 0;
    let mut i: usize = 0;
    while i < vec.len()
        invariant
            i <= vec.len(),
            n == occurrences(vec@.take(i as int), *c),
            n <= i,
        decreases vec.len() - i,
    {
        proof {
            assert(vec@.take(i + 1).drop_last() =~= vec@.take(i as int));
        }
        if vec[i] == *c {
            n = n + 1;
        }
        i = i + 1;
    }
    proof {
        assert(vec@.take(i as int) =~= vec@);
    }
    n
}

/// Whether the quotes of a word read so far are closed, so that a space
/// after it ends the word.
pub fn quotes_are_closed(buffer: &Vec<char>) -> (r: bool)
    ensures
        r == quotes_closed(buffer@),
{
    is_even(count_occurences(buffer, &'\'')) && is_even(count_occurences(buffer, &'"'))
}

/// The line held no word: it was empty or made of white space alone.
#[derive(Debug, Clone, Copy, PartialEq, Eq)]
pub struct EmptyInputError;

/// The code points that Unicode gives the property `White_Space`.
pub open spec fn is_white_space(c: char) -> bool {
    let n = c as u32;
    ||| 0x09 <= n <= 0x0D
    ||| n == 0x20
    ||| n == 0x85
    ||| n == 0xA0
    ||| n == 0x1680
    ||| 0x2000 <= n <= 0x200A
    ||| n == 0x2028
    ||| n == 0x2029
    ||| n == 0x202F
    ||| n == 0x205F
    ||| n == 0x3000
}

/// `s` without its leading white space.
pub open spec fn trim_start(s: Seq<char>) -> Seq<char>
    decreases s.len(),
{
    if s.len() > 0 && is_white_space(s.first()) {
        trim_start(s.drop_first())
    } else {
        s
    }
}

/// `s` without its trailing white space.
pub open spec fn trim_end(s: Seq<char>) -> Seq<char>
    decreases s.len(),
{
    if s.len() > 0 && is_white_space(s.last()) {
        trim_end(s.drop_last())
    } else {
        s
    }
}

/// `s` without the white space at either end.
pub open spec fn trimmed(s: Seq<char>) -> Seq<char> {
    trim_end(trim_start(s))
}

/// The scan that splits a line into words. `done` holds the words that are
/// complete, `buffer` the word being read and `rest` what is still unread.
/// A space ends the word when the quotes of `buffer` are closed; any other
/// character, and a space inside open quotes, joins the word. At the end of
/// the line a word that holds anything is complete.
pub open spec fn scan(rest: Seq<char>, done: Seq<Seq<char>>, buffer: Seq<char>) -> Seq<Seq<char>>
    decreases rest.len(),
{
    if rest.len() == 0 {
        if buffer.len() > 0 {
            done.push(buffer)
        } else {
            done
        }
    } else if rest.first() == ' ' && quotes_closed(buffer) {
        scan(rest.drop_first(), done.push(buffer), Seq::empty())
    } else {
        scan(rest.drop_first(), done, buffer.push(rest.first()))
    }
}

/// The words of a line, quotes kept as written.
pub open spec fn tokens_of(s: Seq<char>) -> Seq<Seq<char>> {
    scan(s, Seq::empty(), Seq::empty())
}

/// Whether a character is white space.
pub fn is_white_space_char(c: char) -> (r: bool)
    ensures
        r == is_white_space(c),
{
    let n: u32 = c as u32;
    (0x09 <= n && n <= 0x0D) || n == 0x20 || n == 0x85 || n == 0xA0 || n == 0x1680 || (0x2000 <= n
        && n <= 0x200A) || n == 0x2028 || n == 0x2029 || n == 0x202F || n == 0x205F || n == 0x3000
}

proof fn lemma_trim_start_skip(s: Seq<char>, i: int)
    requires
        0 <= i <= s.len(),
        forall|k: int| 0 <= k < i ==> is_white_space(s[k]),
    ensures
        trim_start(s) == trim_start(s.skip(i)),
    decreases i,
{
    if i > 0 {
        lemma_trim_start_skip(s, i - 1);
        assert(s.skip(i - 1).drop_first() =~= s.skip(i));
    } else {
        assert(s.skip(0) =~= s);
    }
}

proof fn lemma_trim_end_take(s: Seq<char>, j: int)
    requires
        0 <= j <= s.len(),
        forall|k: int| j <= k < s.len() ==> is_white_space(s[k]),
    ensures
        trim_end(s) == trim_end(s.take(j)),
    decreases s.len() - j,
{
    if j < s.len() {
        lemma_trim_end_take(s, j + 1);
        assert(s.take(j + 1).drop_last() =~= s.take(j));
    } else {
        assert(s.take(j) =~= s);
    }
}

/// The bounds of `v[from..to]` without the white space at either end.
pub fn trim_bounds(v: &Vec<char>, from: usize, to: usize) -> (r: (usize, usize))
    requires
        from <= to <= v.len(),
    ensures
        from <= r.0 <= r.1 <= to,
        v@.subrange(r.0 as int, r.1 as int) == trimmed(v@.subrange(from as int, to as int)),
{
    let ghost s = v@.subrange(from as int, to as int);
    let mut a: usize = from;
    while a < to && is_white_space_char(v[a])
        invariant
            from <= a <= to <= v.len(),
            forall|k: int| from <= k < a ==> is_white_space(v@[k]),
        decreases to - a,
    {
        a = a + 1;
    }
    let mut b: usize = to;
    while a < b && is_white_space_char(v[b - 1])
        invariant
            a <= b <= to <= v.len(),
            forall|k: int| b <= k < to ==> is_white_space(v@[k]),
        decreases b,
    {
        b = b - 1;
    }
    proof {
        let t = s.skip(a - from);
        lemma_trim_start_skip(s, a - from);
        assert(t =~= v@.subrange(a as int, to as int));
        assert(trim_start(t) == t);
        lemma_trim_end_take(t, b - a);
        let u = t.take(b - a);
        assert(u =~= v@.subrange(a as int, b as int));
        assert(trim_end(u) == u);
    }
    (a, b)
}

/// The words of `v[from..to]`.
pub fn words(v: &Vec<char>, from: usize, to: usize) -> (tokens: Vec<String>)
    requires
        from <= to <= v.len(),
    ensures
        views(tokens@) == tokens_of(v@.subrange(from as int, to as int)),
{
    let ghost s = v@.subrange(from as int, to as int);
    let mut tokens: Vec<String> = Vec::new();
    let mut buffer: Vec<char> = Vec::new();
    let mut i: usize = from;
    proof {
        assert(views(tokens@) =~= Seq::<Seq<char>>::empty());
        assert(v@.subrange(from as int, to as int) =~= s);
    }
    while i < to
        invariant
            from <= i <= to <= v.len(),
            s == v@.subrange(from as int, to as int),
            scan(v@.subrange(i as int, to as int), views(tokens@), buffer@) == tokens_of(s),
        decreases to - i,
    {
        let ch = v[i];
        let ghost rest = v@.subrange(i as int, to as int);
        let ghost before = views(tokens@);
        proof {
            assert(rest.first() == ch);
            assert(rest.drop_first() =~= v@.subrange(i + 1, to as int));
        }
        if ch == ' ' && quotes_are_closed(&buffer) {
            let word = string_of(&buffer, 0, buffer.len());
            proof {
                assert(word@ =~= buffer@);
            }
            tokens.push(word);
            proof {
                assert(views(tokens@) =~= before.push(buffer@));
            }
            buffer = Vec::new();
            proof {
                assert(buffer@ =~= Seq::<char>::empty());
            }
        } else {
            buffer.push(ch);
        }
        i = i + 1;
    }
    if buffer.len() > 0 {
        let ghost before = views(tokens@);
        let word = string_of(&buffer, 0, buffer.len());
        proof {
            assert(word@ =~= buffer@);
        }
        tokens.push(word);
        proof {
            assert(views(tokens@) =~= before.push(buffer@));
        }
    }
    tokens
}

/// The scan never drops a word, and ends with at least one word where
/// anything is left to read or buffered.
pub proof fn lemma_scan_len(rest: Seq<char>, done: Seq<Seq<char>>, buffer: Seq<char>)
    ensures
        scan(rest, done, buffer).len() >= done.len(),
        rest.len() > 0 || buffer.len() > 0 ==> scan(rest, done, buffer).len() > done.len(),
    decreases rest.len(),
{
    if rest.len() > 0 {
        if rest.first() == ' ' && quotes_closed(buffer) {
            lemma_scan_len(rest.drop_first(), done.push(buffer), Seq::empty());
        } else {
            lemma_scan_len(rest.drop_first(), done, buffer.push(rest.first()));
        }
    }
}

/// A line has no word exactly when it is empty.
pub proof fn lemma_no_tokens_iff_empty(s: Seq<char>)
    ensures
        tokens_of(s).len() == 0 <==> s.len() == 0,
{
    lemma_scan_len(s, Seq::empty(), Seq::empty());
}

/// What the scan has read so far, written back as text.
pub open spec fn read_so_far(done: Seq<Seq<char>>, buffer: Seq<char>) -> Seq<char> {
    if done.len() == 0 {
        buffer
    } else {
        joined(done, seq![' ']) + seq![' '] + buffer
    }
}

/// Joining the words of a scan with single spaces gives back what was read
/// and what was left to read, provided the text does not end in a space
/// that separates.
pub proof fn lemma_scan_joined(rest: Seq<char>, done: Seq<Seq<char>>, buffer: Seq<char>)
    requires
        rest.len() > 0 ==> rest.last() != ' ',
        rest.len() == 0 ==> buffer.len() > 0 || done.len() == 0,
    ensures
        joined(scan(rest, done, buffer), seq![' ']) == read_so_far(done, buffer) + rest,
    decreases rest.len(),
{
    let sp = seq![' '];
    if rest.len() == 0 {
        if buffer.len() > 0 {
            assert(done.push(buffer).drop_last() =~= done);
            assert(joined(done.push(buffer), sp) =~= read_so_far(done, buffer));
        }
        assert(read_so_far(done, buffer) + rest =~= read_so_far(done, buffer));
    } else if rest.first() == ' ' && quotes_closed(buffer) {
        let done2 = done.push(buffer);
        let empty = Seq::<char>::empty();
        lemma_scan_joined(rest.drop_first(), done2, empty);
        assert(done2.drop_last() =~= done);
        assert(joined(done2, sp) =~= read_so_far(done, buffer));
        assert(read_so_far(done2, empty) + rest.drop_first() =~= read_so_far(done, buffer) + rest);
    } else {
        let buffer2 = buffer.push(rest.first());
        lemma_scan_joined(rest.drop_first(), done, buffer2);
        assert(read_so_far(done, buffer2) + rest.drop_first() =~= read_so_far(done, buffer) + rest);
    }
}

/// A trimmed line neither starts nor ends with white space.
pub proof fn lemma_trimmed_ends(s: Seq<char>)
    ensures
        trimmed(s).len() > 0 ==> !is_white_space(trimmed(s).first()) && !is_white_space(
            trimmed(s).last(),
        ),
{
    lemma_trim_start_shape(s);
    lemma_trim_end_shape(trim_start(s));
}

proof fn lemma_trim_start_shape(s: Seq<char>)
    ensures
        trim_start(s).len() > 0 ==> !is_white_space(trim_start(s).first()),
    decreases s.len(),
{
    if s.len() > 0 && is_white_space(s.first()) {
        lemma_trim_start_shape(s.drop_first());
    }
}

proof fn lemma_trim_end_shape(s: Seq<char>)
    ensures
        trim_end(s).len() > 0 ==> !is_white_space(trim_end(s).last()) && trim_end(s).first()
            == s.first(),
    decreases s.len(),
{
    if s.len() > 0 && is_white_space(s.last()) {
        lemma_trim_end_shape(s.drop_last());
    }
}

/// Whether every character of `s` is white space.
pub open spec fn blank(s: Seq<char>) -> bool {
    forall|i: int| 0 <= i < s.len() ==> is_white_space(#[trigger] s[i])
}

proof fn lemma_trim_start_empty(s: Seq<char>)
    ensures
        trim_start(s).len() == 0 <==> blank(s),
    decreases s.len(),
{
    if s.len() > 0 && is_white_space(s.first()) {
        let rest = s.drop_first();
        lemma_trim_start_empty(rest);
        if blank(rest) {
            assert forall|i: int| 0 <= i < s.len() implies is_white_space(#[trigger] s[i]) by {
                if i > 0 {
                    assert(s[i] == rest[i - 1]);
                }
            }
        }
        if blank(s) {
            assert forall|i: int| 0 <= i < rest.len() implies is_white_space(
                #[trigger] rest[i],
            ) by {
                assert(rest[i] == s[i + 1]);
            }
        }
    }
}

proof fn lemma_trim_end_keeps_word(s: Seq<char>)
    requires
        s.len() > 0,
        !is_white_space(s.first()),
    ensures
        trim_end(s).len() > 0,
    decreases s.len(),
{
    if is_white_space(s.last()) {
        lemma_trim_end_keeps_word(s.drop_last());
    }
}

/// Trimming leaves nothing exactly of a line that is all white space.
pub proof fn lemma_trimmed_empty_iff_blank(s: Seq<char>)
    ensures
        trimmed(s).len() == 0 <==> blank(s),
{
    lemma_trim_start_empty(s);
    lemma_trim_start_shape(s);
    if trim_start(s).len() > 0 {
        lemma_trim_end_keeps_word(trim_start(s));
    }
}

/// Whether every space of `word` stands inside open quotes: where the
/// characters of the word before it do not close their quotes.
pub open spec fn spaces_quoted(word: Seq<char>) -> bool {
    forall|i: int|
        0 <= i < word.len() && #[trigger] word[i] == ' ' ==> !quotes_closed(word.take(i))
}

/// Whether each of the words keeps its spaces inside open quotes and each
/// but the last closes its quotes.
pub open spec fn well_split(words: Seq<Seq<char>>) -> bool {
    &&& forall|k: int| 0 <= k < words.len() ==> spaces_quoted(#[trigger] words[k])
    &&& forall|k: int| 0 <= k < words.len() - 1 ==> quotes_closed(#[trigger] words[k])
}

/// The words of a scan are well split, where those that were complete
/// before it close their quotes and all keep their spaces inside quotes.
pub proof fn lemma_scan_shape(rest: Seq<char>, done: Seq<Seq<char>>, buffer: Seq<char>)
    requires
        forall|k: int| 0 <= k < done.len() ==> spaces_quoted(#[trigger] done[k]),
        forall|k: int| 0 <= k < done.len() ==> quotes_closed(#[trigger] done[k]),
        spaces_quoted(buffer),
    ensures
        well_split(scan(rest, done, buffer)),
    decreases rest.len(),
{
    if rest.len() == 0 {
    } else if rest.first() == ' ' && quotes_closed(buffer) {
        lemma_scan_shape(rest.drop_first(), done.push(buffer), Seq::empty());
    } else {
        let next = buffer.push(rest.first());
        assert forall|i: int| 0 <= i < next.len() && #[trigger] next[i] == ' ' implies !quotes_closed(
            next.take(i),
        ) by {
            if i < buffer.len() {
                assert(next.take(i) =~= buffer.take(i));
                assert(buffer[i] == ' ');
            } else {
                assert(next.take(i) =~= buffer);
            }
        }
        lemma_scan_shape(rest.drop_first(), done, next);
    }
}

/// The words of a line are well split: a space inside a word stands inside
/// open quotes, and every word but the last closes its quotes. Together
/// with the line that the words give back when joined, this says which
/// words a line has.
pub proof fn lemma_tokens_shape(s: Seq<char>)
    ensures
        well_split(tokens_of(s)),
{
    lemma_scan_shape(s, Seq::empty(), Seq::empty());
}

/// Splitting a line into words and joining the words with single spaces
/// gives back the trimmed line, whatever its quotes.
pub proof fn lemma_tokenize_rejoin(line: Seq<char>)
    ensures
        joined(tokens_of(trimmed(line)), seq![' ']) == trimmed(line),
{
    let t = trimmed(line);
    lemma_trimmed_ends(line);
    lemma_scan_joined(t, Seq::empty(), Seq::empty());
    assert(read_so_far(Seq::empty(), Seq::empty()) + t =~= t);
}

/// Splits a line into its words. White space at either end of the line is
/// dropped first; quotes stay in the words as written.
pub fn tokenize(line: &str) -> (r: Result<Vec<String>, EmptyInputError>)
    ensures
        r is Err <==> trimmed(line@).len() == 0,
        r matches Ok(tokens) ==> tokens.len() > 0 && views(tokens@) == tokens_of(trimmed(line@)),
{
    let v = chars_of(line);
    let (a, b) = trim_bounds(&v, 0, v.len());
    let tokens = words(&v, a, b);
    proof {
        assert(v@.subrange(0, v.len() as int) =~= v@);
        lemma_no_tokens_iff_empty(trimmed(line@));
        assert(views(tokens@).len() == tokens.len());
    }
    if tokens.len() == 0 {
        Err(EmptyInputError)
    } else {
        Ok(tokens)
    }
}

} // verus!
