//! Text as sequences of characters: character classes, trimming, prefixes,
//! UTF-8 widths and decimal numbers.
use vstd::prelude::*;
use vstd::slice::slice_subrange;
use vstd::string::StringExecFns;

verus! {

/// `String::push` appends the character to the end of the string.
pub assume_specification[ String::push ](s: &mut String, c: char)
    ensures
        final(s)@ == old(s)@.push(c),
;

// ---------------------------------------------------------------- character classes

/// The Unicode `White_Space` property.
pub open spec fn whitespace(c: char) -> bool {
    ||| '\u{9}' <= c <= '\u{d}'
    ||| c == '\u{20}'
    ||| c == '\u{85}'
    ||| c == '\u{a0}'
    ||| c == '\u{1680}'
    ||| '\u{2000}' <= c <= '\u{200a}'
    ||| c == '\u{2028}'
    ||| c == '\u{2029}'
    ||| c == '\u{202f}'
    ||| c == '\u{205f}'
    ||| c == '\u{3000}'
}

/// An ASCII digit.
pub open spec fn ascii_digit(c: char) -> bool {
    '0' <= c <= '9'
}

/// The class of whitespace characters, as a predicate.
pub open spec fn spaces() -> spec_fn(char) -> bool {
    |c: char| whitespace(c)
}

/// The class of ASCII digits, as a predicate.
pub open spec fn digits() -> spec_fn(char) -> bool {
    |c: char| ascii_digit(c)
}

/// Tells whether `c` has the Unicode `White_Space` property.
pub fn is_whitespace(c: char) -> (r: bool)
    ensures
        r == whitespace(c),
{
    ('\u{9}' <= c && c <= '\u{d}') || c == '\u{20}' || c == '\u{85}' || c == '\u{a0}' || c
        == '\u{1680}' || ('\u{2000}' <= c && c <= '\u{200a}') || c == '\u{2028}' || c == '\u{2029}'
        || c == '\u{202f}' || c == '\u{205f}' || c == '\u{3000}'
}

/// Tells whether `c` is one of `0` to `9`.
pub fn is_ascii_digit(c: char) -> (r: bool)
    ensures
        r == ascii_digit(c),
{
    '0' <= c && c <= '9'
}

// ---------------------------------------------------------------- runs, trimming, prefixes

/// The length of the longest prefix of `s`, of at most `limit` characters, that
/// lies in the class `p`.
pub open spec fn run(s: Seq<char>, p: spec_fn(char) -> bool, limit: nat) -> nat
    decreases limit,
{
    if limit > 0 && s.len() > 0 && p(s[0]) {
        1 + run(s.skip(1), p, (limit - 1) as nat)
    } else {
        0
    }
}

/// `s` without its leading whitespace.
pub open spec fn trim_start(s: Seq<char>) -> Seq<char> {
    s.skip(run(s, spaces(), s.len()) as int)
}

/// `s` without its trailing whitespace.
pub open spec fn trim_end(s: Seq<char>) -> Seq<char>
    decreases s.len(),
{
    if s.len() > 0 && whitespace(s.last()) {
        trim_end(s.drop_last())
    } else {
        s
    }
}

/// `s` without the whitespace at either end.
pub open spec fn trim(s: Seq<char>) -> Seq<char> {
    trim_end(trim_start(s))
}

/// `p` is a prefix of `s`.
pub open spec fn starts_with(s: Seq<char>, p: Seq<char>) -> bool {
    p.len() <= s.len() && s.take(p.len() as int) == p
}

/// `p` occurs in `s`.
pub open spec fn contains_text(s: Seq<char>, p: Seq<char>) -> bool {
    exists|i: int| 0 <= i <= s.len() && #[trigger] starts_with(s.skip(i), p)
}

/// The number of characters of `s` that are not whitespace.
pub open spec fn words(s: Seq<char>) -> nat
    decreases s.len(),
{
    if s.len() == 0 {
        0
    } else {
        words(s.drop_last()) + if whitespace(s.last()) {
            0nat
        } else {
            1nat
        }
    }
}

/// A run is as long as its characters are in the class, and no longer than it may be.
pub proof fn lemma_run(s: Seq<char>, p: spec_fn(char) -> bool, limit: nat)
    ensures
        run(s, p, limit) <= limit,
        run(s, p, limit) <= s.len(),
        forall|i: int| 0 <= i < run(s, p, limit) ==> p(#[trigger] s[i]),
        run(s, p, limit) < limit && run(s, p, limit) < s.len() ==> !p(s[run(s, p, limit) as int]),
    decreases limit,
{
    if limit > 0 && s.len() > 0 && p(s[0]) {
        let t = s.skip(1);
        lemma_run(t, p, (limit - 1) as nat);
        assert forall|i: int| 0 <= i < run(s, p, limit) implies p(#[trigger] s[i]) by {
            if i > 0 {
                assert(t[i - 1] == s[i]);
            }
        }
    }
}

/// A run of length `n` exists where `n` characters of the class are followed by
/// one outside it, by the end, or by the limit.
pub proof fn lemma_run_is(s: Seq<char>, p: spec_fn(char) -> bool, limit: nat, n: nat)
    requires
        n <= limit,
        n <= s.len(),
        forall|i: int| 0 <= i < n ==> p(#[trigger] s[i]),
        n < limit && n < s.len() ==> !p(s[n as int]),
    ensures
        run(s, p, limit) == n,
{
    lemma_run(s, p, limit);
    let m = run(s, p, limit);
    if m < n {
        assert(p(s[m as int]));
    } else if n < m {
        assert(p(s[n as int]));
    }
}

/// The number of leading characters of `s`, at most `limit`, that are whitespace.
pub fn space_run(s: &[char], limit: usize) -> (n: usize)
    ensures
        n == run(s@, spaces(), limit as nat),
        n <= s@.len(),
{
    let mut n: usize = 0;
    while n < limit && n < s.len() && is_whitespace(s[n])
        invariant
            n <= limit,
            n <= s@.len(),
            forall|i: int| 0 <= i < n ==> whitespace(#[trigger] s@[i]),
        decreases s@.len() - n,
    {
        n += 1;
    }
    proof {
        assert forall|i: int| 0 <= i < n implies spaces()(#[trigger] s@[i]) by {}
        lemma_run_is(s@, spaces(), limit as nat, n as nat);
    }
    n
}

/// The number of leading characters of `s` that are ASCII digits.
pub fn digit_run(s: &[char]) -> (n: usize)
    ensures
        n == run(s@, digits(), s@.len()),
        n <= s@.len(),
{
    let mut n: usize = 0;
    while n < s.len() && is_ascii_digit(s[n])
        invariant
            n <= s@.len(),
            forall|i: int| 0 <= i < n ==> ascii_digit(#[trigger] s@[i]),
        decreases s@.len() - n,
    {
        n += 1;
    }
    proof {
        assert forall|i: int| 0 <= i < n implies digits()(#[trigger] s@[i]) by {}
        lemma_run_is(s@, digits(), s@.len(), n as nat);
    }
    n
}

/// The tail of `s` from position `n` on.
pub fn tail(s: &[char], n: usize) -> (r: &[char])
    requires
        n <= s@.len(),
    ensures
        r@ == s@.skip(n as int),
{
    slice_subrange(s, n, s.len())
}

/// Drops the leading whitespace.
pub fn trim_start_chars(s: &[char]) -> (r: &[char])
    ensures
        r@ == trim_start(s@),
{
    let n = space_run(s, s.len());
    tail(s, n)
}

/// Drops the trailing whitespace.
pub fn trim_end_chars(s: &[char]) -> (r: &[char])
    ensures
        r@ == trim_end(s@),
{
    let mut n: usize = s.len();
    assert(s@.take(n as int) =~= s@);
    while n > 0 && is_whitespace(s[n - 1])
        invariant
            n <= s@.len(),
            trim_end(s@) == trim_end(s@.take(n as int)),
        decreases n,
    {
        assert(s@.take(n as int).drop_last() =~= s@.take(n - 1));
        n -= 1;
    }
    slice_subrange(s, 0, n)
}

/// Drops the whitespace at both ends.
pub fn trim_chars(s: &[char]) -> (r: &[char])
    ensures
        r@ == trim(s@),
{
    trim_end_chars(trim_start_chars(s))
}

/// Tells whether `s` begins with `p`.
pub fn starts_with_chars(s: &[char], p: &[char]) -> (r: bool)
    ensures
        r == starts_with(s@, p@),
{
    if p.len() > s.len() {
        return false;
    }
    let mut i: usize = 0;
    while i < p.len()
        invariant
            i <= p@.len(),
            p@.len() <= s@.len(),
            forall|j: int| 0 <= j < i ==> s@[j] == p@[j],
        decreases p@.len() - i,
    {
        if s[i] != p[i] {
            assert(s@.take(p@.len() as int)[i as int] != p@[i as int]);
            return false;
        }
        i += 1;
    }
    assert(s@.take(p@.len() as int) =~= p@);
    true
}

/// The characters of a string.
pub fn chars_of(s: &str) -> (r: Vec<char>)
    ensures
        r@ == s@,
{
    let mut out: Vec<char> = Vec::new();
    for c in it: s.chars()
        invariant
            it.seq() == s@,
            out@ == s@.take(it.index() as int),
    {
        proof {
            assert(c == s@[it.index() as int]);
            assert(s@.take(it.index() + 1) =~= s@.take(it.index() as int).push(c));
        }
        out.push(c);
    }
    out
}

/// The string with the given characters.
pub fn string_of(cs: &[char]) -> (r: String)
    ensures
        r@ == cs@,
{
    let mut out = String::new();
    let mut i: usize = 0;
    while i < cs.len()
        invariant
            i <= cs@.len(),
            out@ == cs@.take(i as int),
        decreases cs@.len() - i,
    {
        out.push(cs[i]);
        i += 1;
        assert(out@ == cs@.take(i as int));
    }
    assert(cs@.take(i as int) =~= cs@);
    out
}

/// Tells whether two character sequences are the same.
pub fn same_chars(a: &[char], b: &[char]) -> (r: bool)
    ensures
        r == (a@ == b@),
{
    if a.len() != b.len() {
        return false;
    }
    let r = starts_with_chars(a, b);
    assert(a@.take(b@.len() as int) =~= a@);
    r
}

/// Tells whether two strings hold the same text.
pub fn same_text(a: &str, b: &str) -> (r: bool)
    ensures
        r == (a@ == b@),
{
    same_chars(chars_of(a).as_slice(), chars_of(b).as_slice())
}

/// The text that follows `prefix` in `s`, where `s` begins with it.
pub fn strip_prefix(s: &str, prefix: &str) -> (r: Option<String>)
    ensures
        r is Some <==> starts_with(s@, prefix@),
        r matches Some(t) ==> t@ == s@.skip(prefix@.len() as int),
{
    let cs = chars_of(s);
    let p = chars_of(prefix);
    if starts_with_chars(cs.as_slice(), p.as_slice()) {
        Some(string_of(tail(cs.as_slice(), p.len())))
    } else {
        None
    }
}

/// Tells whether `p` occurs in `s`.
pub fn contains_chars(s: &[char], p: &[char]) -> (r: bool)
    ensures
        r == contains_text(s@, p@),
{
    let mut i: usize = 0;
    loop
        invariant
            i <= s@.len(),
            forall|j: int| 0 <= j < i ==> !starts_with(#[trigger] s@.skip(j), p@),
        decreases s@.len() - i,
    {
        if starts_with_chars(tail(s, i), p) {
            return true;
        }
        if i == s.len() {
            return false;
        }
        i += 1;
    }
}

/// A copy of `s` without the whitespace at both ends.
pub fn trimmed(s: &str) -> (r: String)
    ensures
        r@ == trim(s@),
{
    let cs = chars_of(s);
    string_of(trim_chars(cs.as_slice()))
}

/// The number of characters that are not whitespace.
pub fn word_total(s: &[char]) -> (n: usize)
    ensures
        n == words(s@),
{
    let mut n: usize = 0;
    let mut i: usize = 0;
    while i < s.len()
        invariant
            i <= s@.len(),
            n <= i,
            n == words(s@.take(i as int)),
        decreases s@.len() - i,
    {
        assert(s@.take(i + 1).drop_last() =~= s@.take(i as int));
        if !is_whitespace(s[i]) {
            n += 1;
        }
        i += 1;
    }
    assert(s@.take(i as int) =~= s@);
    n
}

/// Counting distributes over concatenation.
pub proof fn lemma_words_concat(a: Seq<char>, b: Seq<char>)
    ensures
        words(a + b) == words(a) + words(b),
    decreases b.len(),
{
    if b.len() == 0 {
        assert(a + b =~= a);
    } else {
        assert((a + b).drop_last() =~= a + b.drop_last());
        lemma_words_concat(a, b.drop_last());
    }
}

/// There are no more words than characters.
pub proof fn lemma_words_bound(s: Seq<char>)
    ensures
        words(s) <= s.len(),
    decreases s.len(),
{
    if s.len() > 0 {
        lemma_words_bound(s.drop_last());
    }
}

/// Text made of whitespace alone holds no word.
pub proof fn lemma_words_blank(s: Seq<char>)
    requires
        forall|i: int| 0 <= i < s.len() ==> whitespace(#[trigger] s[i]),
    ensures
        words(s) == 0,
    decreases s.len(),
{
    if s.len() > 0 {
        assert forall|i: int| 0 <= i < s.drop_last().len() implies whitespace(
            #[trigger] s.drop_last()[i],
        ) by {
            assert(s[i] == s.drop_last()[i]);
        }
        lemma_words_blank(s.drop_last());
    }
}

/// What trimming at the end drops is whitespace.
pub proof fn lemma_trim_end(s: Seq<char>)
    ensures
        trim_end(s).len() <= s.len(),
        trim_end(s) == s.take(trim_end(s).len() as int),
        forall|i: int| trim_end(s).len() <= i < s.len() ==> whitespace(#[trigger] s[i]),
        trim_end(s).len() > 0 ==> !whitespace(trim_end(s).last()),
        words(trim_end(s)) == words(s),
    decreases s.len(),
{
    if s.len() > 0 && whitespace(s.last()) {
        let t = s.drop_last();
        lemma_trim_end(t);
        assert(trim_end(s) =~= s.take(trim_end(s).len() as int));
        assert forall|i: int| trim_end(s).len() <= i < s.len() implies whitespace(
            #[trigger] s[i],
        ) by {
            if i < t.len() {
                assert(t[i] == s[i]);
            }
        }
    } else {
        assert(s.take(s.len() as int) =~= s);
    }
}

/// What trimming at the start drops is whitespace.
pub proof fn lemma_trim_start(s: Seq<char>)
    ensures
        trim_start(s).len() <= s.len(),
        trim_start(s).len() > 0 ==> !whitespace(trim_start(s)[0]),
        words(trim_start(s)) == words(s),
        s == s.take(s.len() - trim_start(s).len()) + trim_start(s),
        forall|i: int|
            0 <= i < s.len() - trim_start(s).len() ==> whitespace(#[trigger] s[i]),
{
    let n = run(s, spaces(), s.len());
    lemma_run(s, spaces(), s.len());
    assert forall|i: int| 0 <= i < n implies whitespace(#[trigger] s[i]) by {
        assert(spaces()(s[i]));
    }
    let head = s.take(n as int);
    assert forall|i: int| 0 <= i < head.len() implies whitespace(#[trigger] head[i]) by {
        assert(head[i] == s[i]);
    }
    lemma_words_blank(head);
    assert(s =~= head + trim_start(s));
    lemma_words_concat(head, trim_start(s));
    if trim_start(s).len() > 0 {
        assert(trim_start(s)[0] == s[n as int]);
        assert(!spaces()(s[n as int]));
    }
}

/// Trimming drops no word, and what remains neither begins nor ends with whitespace.
pub proof fn lemma_trim(s: Seq<char>)
    ensures
        trim(s).len() <= s.len(),
        words(trim(s)) == words(s),
        trim(s).len() > 0 ==> !whitespace(trim(s)[0]) && !whitespace(trim(s).last()),
        trim(s).len() == 0 <==> words(s) == 0,
{
    lemma_trim_start(s);
    lemma_trim_end(trim_start(s));
    let t = trim(s);
    if t.len() > 0 {
        assert(t[0] == trim_start(s)[0]);
        lemma_words_first(t);
    }
}

/// A text whose last character is no whitespace holds a word.
proof fn lemma_words_first(s: Seq<char>)
    requires
        s.len() > 0,
        !whitespace(s.last()),
    ensures
        words(s) > 0,
{
}

// ---------------------------------------------------------------- pieces

/// The texts of a sequence of strings.
pub open spec fn texts(v: Seq<String>) -> Seq<Seq<char>> {
    Seq::new(v.len(), |i: int| v[i]@)
}

/// The pieces of `s` between the separators, empty ones included.
pub open spec fn split_on(s: Seq<char>, sep: char) -> Seq<Seq<char>>
    decreases s.len(),
{
    if s.len() == 0 {
        seq![Seq::<char>::empty()]
    } else {
        let pieces = split_on(s.drop_last(), sep);
        if s.last() == sep {
            pieces.push(Seq::empty())
        } else {
            pieces.drop_last().push(pieces.last().push(s.last()))
        }
    }
}

/// The pieces one after the other, with the separator between neighbours.
pub open spec fn join(pieces: Seq<Seq<char>>, sep: char) -> Seq<char>
    decreases pieces.len(),
{
    if pieces.len() == 0 {
        Seq::empty()
    } else if pieces.len() == 1 {
        pieces[0]
    } else {
        join(pieces.drop_last(), sep).push(sep) + pieces.last()
    }
}

/// The pieces one after the other.
pub open spec fn concat(pieces: Seq<Seq<char>>) -> Seq<char>
    decreases pieces.len(),
{
    if pieces.len() == 0 {
        Seq::empty()
    } else {
        concat(pieces.drop_last()) + pieces.last()
    }
}

/// Adding a string adds its text.
pub broadcast proof fn lemma_texts_push(v: Seq<String>, s: String)
    ensures
        #[trigger] texts(v.push(s)) == texts(v).push(s@),
{
    assert(texts(v.push(s)) =~= texts(v).push(s@));
}

/// Splitting gives at least one piece, and no piece holds the separator.
pub proof fn lemma_split_on(s: Seq<char>, sep: char)
    ensures
        split_on(s, sep).len() > 0,
        forall|i: int, j: int|
            0 <= i < split_on(s, sep).len() && 0 <= j < split_on(s, sep)[i].len() ==> (
            #[trigger] split_on(s, sep)[i][j]) != sep,
    decreases s.len(),
{
    if s.len() > 0 {
        let before = split_on(s.drop_last(), sep);
        lemma_split_on(s.drop_last(), sep);
        let after = split_on(s, sep);
        assert forall|i: int, j: int|
            0 <= i < after.len() && 0 <= j < after[i].len() implies (#[trigger] after[i][j])
            != sep by {
            if i < before.len() - 1 {
                assert(after[i] == before[i]);
                assert(before[i][j] != sep);
            } else if s.last() == sep {
                if i == before.len() - 1 {
                    assert(after[i] == before[i]);
                    assert(before[i][j] != sep);
                }
            } else if j < before.last().len() {
                assert(before[i][j] != sep);
            }
        }
    }
}

/// Joining the pieces of a text with the separator gives the text back.
pub proof fn join_of_split(s: Seq<char>, sep: char)
    ensures
        join(split_on(s, sep), sep) == s,
    decreases s.len(),
{
    if s.len() > 0 {
        let before = split_on(s.drop_last(), sep);
        lemma_split_on(s.drop_last(), sep);
        join_of_split(s.drop_last(), sep);
        let after = split_on(s, sep);
        if s.last() == sep {
            assert(after.drop_last() =~= before);
            assert(join(after, sep) =~= s);
        } else {
            assert(after.drop_last() =~= before.drop_last());
            assert(after.last() == before.last().push(s.last()));
            assert(join(after, sep) =~= join(before, sep).push(s.last()));
            assert(s =~= s.drop_last().push(s.last()));
        }
    }
}

/// Joining two runs of pieces is joining each, with the separator between.
pub proof fn lemma_join_concat(a: Seq<Seq<char>>, b: Seq<Seq<char>>, sep: char)
    requires
        a.len() > 0,
        b.len() > 0,
    ensures
        join(a + b, sep) == join(a, sep).push(sep) + join(b, sep),
    decreases b.len(),
{
    assert((a + b).drop_last() =~= a + b.drop_last());
    assert((a + b).last() == b.last());
    if b.len() == 1 {
        assert(a + b.drop_last() =~= a);
    } else {
        lemma_join_concat(a, b.drop_last(), sep);
        assert(join(a + b, sep) =~= join(a, sep).push(sep) + join(b, sep));
    }
}

/// The pieces of `s` between the separators, as strings.
pub fn split_text(s: &str, sep: char) -> (r: Vec<String>)
    ensures
        texts(r@) == split_on(s@, sep),
{
    broadcast use lemma_texts_push;

    let cs = chars_of(s);
    let mut done: Vec<String> = Vec::new();
    let mut cur = String::new();
    let mut i: usize = 0;
    assert(cs@.take(0) =~= Seq::<char>::empty());
    assert(texts(done@).push(cur@) =~= split_on(cs@.take(0), sep));
    while i < cs.len()
        invariant
            i <= cs@.len(),
            split_on(cs@.take(i as int), sep) == texts(done@).push(cur@),
        decreases cs@.len() - i,
    {
        broadcast use lemma_texts_push;

        assert(cs@.take(i + 1).drop_last() =~= cs@.take(i as int));
        let ghost before = texts(done@).push(cur@);
        assert(before.drop_last() =~= texts(done@));
        if cs[i] == sep {
            done.push(cur);
            cur = String::new();
        } else {
            cur.push(cs[i]);
        }
        i += 1;
        assert(split_on(cs@.take(i as int), sep) =~= texts(done@).push(cur@));
    }
    assert(cs@.take(i as int) =~= s@);
    done.push(cur);
    done
}

/// The strings from `from` up to `to`, joined by the separator.
pub fn join_texts(pieces: &Vec<String>, from: usize, to: usize, sep: char) -> (r: String)
    requires
        from <= to <= pieces@.len(),
    ensures
        r@ == join(texts(pieces@).subrange(from as int, to as int), sep),
{
    let mut out = String::new();
    let mut i: usize = from;
    let ghost all = texts(pieces@);
    while i < to
        invariant
            from <= i <= to <= pieces@.len(),
            all == texts(pieces@),
            out@ == join(all.subrange(from as int, i as int), sep),
        decreases to - i,
    {
        let ghost before = all.subrange(from as int, i as int);
        assert(all.subrange(from as int, i + 1) =~= before.push(all[i as int]));
        assert(before.push(all[i as int]).drop_last() =~= before);
        if i > from {
            out.push(sep);
        } else {
            assert(before =~= Seq::empty());
        }
        out.append(pieces[i].as_str());
        assert(out@ =~= join(all.subrange(from as int, i + 1), sep));
        i += 1;
    }
    out
}

// ---------------------------------------------------------------- UTF-8

/// The number of bytes that `c` takes in UTF-8.
pub open spec fn char_bytes(c: char) -> nat {
    if c <= '\u{7f}' {
        1
    } else if c <= '\u{7ff}' {
        2
    } else if c <= '\u{ffff}' {
        3
    } else {
        4
    }
}

/// The number of bytes that `s` takes in UTF-8.
pub open spec fn text_bytes(s: Seq<char>) -> nat
    decreases s.len(),
{
    if s.len() == 0 {
        0
    } else {
        text_bytes(s.drop_last()) + char_bytes(s.last())
    }
}

/// The number of bytes that `c` takes in UTF-8.
pub fn len_utf8(c: char) -> (n: usize)
    ensures
        n == char_bytes(c),
        1 <= n <= 4,
{
    if c <= '\u{7f}' {
        1
    } else if c <= '\u{7ff}' {
        2
    } else if c <= '\u{ffff}' {
        3
    } else {
        4
    }
}

/// Byte lengths add up under concatenation.
pub proof fn lemma_text_bytes_concat(a: Seq<char>, b: Seq<char>)
    ensures
        text_bytes(a + b) == text_bytes(a) + text_bytes(b),
    decreases b.len(),
{
    if b.len() == 0 {
        assert(a + b =~= a);
    } else {
        assert((a + b).drop_last() =~= a + b.drop_last());
        lemma_text_bytes_concat(a, b.drop_last());
    }
}

/// `char_bytes` is the length of the UTF-8 encoding of a character.
proof fn lemma_scalar_bytes(c: char)
    ensures
        vstd::utf8::encode_scalar(c as u32).len() == char_bytes(c),
{
    vstd::utf8::char_is_scalar(c);
    assert(c as u32 as int == c as int);
}

/// `text_bytes` is the length of the UTF-8 encoding.
pub proof fn lemma_text_bytes_encode(s: Seq<char>)
    ensures
        text_bytes(s) == vstd::utf8::encode_utf8(s).len(),
    decreases s.len(),
{
    if s.len() > 0 {
        lemma_text_bytes_encode(s.drop_first());
        assert(s =~= seq![s[0]] + s.drop_first());
        lemma_text_bytes_concat(seq![s[0]], s.drop_first());
        assert(seq![s[0]].drop_last() =~= Seq::<char>::empty());
        reveal_with_fuel(text_bytes, 2);
        assert(text_bytes(seq![s[0]]) == char_bytes(s[0]));
        lemma_scalar_bytes(s[0]);
        assert(vstd::utf8::encode_utf8(s) == vstd::utf8::encode_scalar(s[0] as u32)
            + vstd::utf8::encode_utf8(s.drop_first()));
    }
}

/// A text has no more characters than bytes.
pub proof fn lemma_text_bytes_bound(s: Seq<char>)
    ensures
        s.len() <= text_bytes(s) <= 4 * s.len(),
    decreases s.len(),
{
    if s.len() > 0 {
        lemma_text_bytes_bound(s.drop_last());
    }
}

/// The number of bytes that `s` takes in UTF-8.
pub fn byte_len(s: &str) -> (n: usize)
    ensures
        n == text_bytes(s@),
        s@.len() <= n,
{
    proof {
        lemma_text_bytes_encode(s@);
        lemma_text_bytes_bound(s@);
    }
    s.as_bytes().len()
}

// ---------------------------------------------------------------- numbers

/// The decimal digit `d` as a character.
pub open spec fn digit_char(d: nat) -> char {
    (48 + d) as char
}

/// The decimal numeral of `n`, without leading zeros.
pub open spec fn decimal(n: nat) -> Seq<char>
    decreases n,
{
    if n < 10 {
        seq![digit_char(n)]
    } else {
        decimal(n / 10).push(digit_char(n % 10))
    }
}

/// The decimal numeral of an integer, with a minus sign where it is negative.
pub open spec fn integer(n: int) -> Seq<char> {
    if n < 0 {
        seq!['-'] + decimal((-n) as nat)
    } else {
        decimal(n as nat)
    }
}

/// The number that a sequence of decimal digits stands for.
pub open spec fn digits_value(s: Seq<char>) -> nat
    decreases s.len(),
{
    if s.len() == 0 {
        0
    } else {
        digits_value(s.drop_last()) * 10 + (s.last() as nat - 48) as nat
    }
}

/// `s` is a non-empty sequence of decimal digits.
pub open spec fn all_digits(s: Seq<char>) -> bool {
    s.len() > 0 && forall|i: int| 0 <= i < s.len() ==> ascii_digit(#[trigger] s[i])
}

/// The integer that `s` writes: an optional sign, then digits.
pub open spec fn integer_value(s: Seq<char>) -> Option<int> {
    if s.len() > 0 && s[0] == '-' {
        if all_digits(s.skip(1)) {
            Some(-(digits_value(s.skip(1)) as int))
        } else {
            None
        }
    } else if s.len() > 0 && s[0] == '+' {
        if all_digits(s.skip(1)) {
            Some(digits_value(s.skip(1)) as int)
        } else {
            None
        }
    } else if all_digits(s) {
        Some(digits_value(s) as int)
    } else {
        None
    }
}

/// The 64-bit signed integer that `s` writes.
pub open spec fn i64_value(s: Seq<char>) -> Option<i64> {
    match integer_value(s) {
        Some(n) => if i64::MIN <= n <= i64::MAX {
            Some(n as i64)
        } else {
            None
        },
        None => None,
    }
}

pub(crate) fn digit_of(d: u64) -> (c: char)
    requires
        d < 10,
    ensures
        c == digit_char(d as nat),
{
    match d {
        0 => '0',
        1 => '1',
        2 => '2',
        3 => '3',
        4 => '4',
        5 => '5',
        6 => '6',
        7 => '7',
        8 => '8',
        _ => '9',
    }
}

/// The decimal numeral of `n`.
pub fn decimal_text(n: u64) -> (r: String)
    ensures
        r@ == decimal(n as nat),
    decreases n,
{
    if n < 10 {
        let mut out = String::new();
        out.push(digit_of(n));
        assert(out@ =~= seq![digit_char(n as nat)]);
        out
    } else {
        let mut out = decimal_text(n / 10);
        out.push(digit_of(n % 10));
        out
    }
}

/// The decimal numeral of `n`.
pub fn usize_text(n: usize) -> (r: String)
    ensures
        r@ == decimal(n as nat),
{
    decimal_text(n as u64)
}

/// The decimal numeral of `n`, with a minus sign where it is negative.
pub fn integer_text(n: i64) -> (r: String)
    ensures
        r@ == integer(n as int),
{
    if n < 0 {
        let magnitude: u64 = (-(n as i128)) as u64;
        let mut out = String::new();
        out.push('-');
        out.append(decimal_text(magnitude).as_str());
        assert(out@ =~= seq!['-'] + decimal((-n) as nat));
        out
    } else {
        decimal_text(n as u64)
    }
}

/// Longer digit sequences stand for no smaller numbers.
proof fn lemma_digits_value_grows(s: Seq<char>, i: int)
    requires
        0 <= i <= s.len(),
        forall|k: int| 0 <= k < s.len() ==> ascii_digit(#[trigger] s[k]),
    ensures
        digits_value(s.take(i)) <= digits_value(s),
    decreases s.len() - i,
{
    if i < s.len() {
        assert(s.take(i + 1).drop_last() =~= s.take(i));
        lemma_digits_value_grows(s, i + 1);
    } else {
        assert(s.take(i) =~= s);
    }
}

/// The value of a digit sequence, where it is at most `2^63`.
fn digits_number(s: &[char]) -> (r: Option<u64>)
    ensures
        r is Some <==> all_digits(s@) && digits_value(s@) <= 0x8000_0000_0000_0000,
        r matches Some(n) ==> n == digits_value(s@),
{
    if s.len() == 0 {
        return None;
    }
    let mut n: u64 = 0;
    let mut i: usize = 0;
    while i < s.len()
        invariant
            i <= s@.len(),
            n <= 0x8000_0000_0000_0000,
            n == digits_value(s@.take(i as int)),
            forall|k: int| 0 <= k < i ==> ascii_digit(#[trigger] s@[k]),
        decreases s@.len() - i,
    {
        if !is_ascii_digit(s[i]) {
            return None;
        }
        let d: u64 = s[i] as u64 - 48;
        assert(s@.take(i + 1).drop_last() =~= s@.take(i as int));
        let next: u128 = n as u128 * 10 + d as u128;
        assert(next == digits_value(s@.take(i + 1)));
        if next > 0x8000_0000_0000_0000 {
            proof {
                if all_digits(s@) {
                    lemma_digits_value_grows(s@, i + 1);
                }
            }
            return None;
        }
        n = next as u64;
        i += 1;
    }
    assert(s@.take(i as int) =~= s@);
    Some(n)
}

/// Reads a 64-bit signed integer in decimal: an optional sign, then digits.
pub fn parse_i64(s: &str) -> (r: Option<i64>)
    ensures
        r == i64_value(s@),
{
    let cs = chars_of(s);
    let all = cs.as_slice();
    if all.len() > 0 && all[0] == '-' {
        match digits_number(tail(all, 1)) {
            Some(n) => Some((-(n as i128)) as i64),
            None => None,
        }
    } else {
        let body = if all.len() > 0 && all[0] == '+' {
            tail(all, 1)
        } else {
            all
        };
        match digits_number(body) {
            Some(n) => if n <= 0x7fff_ffff_ffff_ffff {
                Some(n as i64)
            } else {
                None
            },
            None => None,
        }
    }
}

/// Every digit of a numeral is a digit, and the numeral stands for its number.
pub proof fn lemma_decimal(n: nat)
    ensures
        all_digits(decimal(n)),
        digits_value(decimal(n)) == n,
        decimal(n)[0] != '-',
        decimal(n)[0] != '+',
    decreases n,
{
    if n < 10 {
        let s = decimal(n);
        assert(s.drop_last() =~= Seq::<char>::empty());
        assert(digits_value(s.drop_last()) == 0);
        assert(ascii_digit(s[0]));
    } else {
        lemma_decimal(n / 10);
        let s = decimal(n);
        assert(s.drop_last() =~= decimal(n / 10));
        assert forall|i: int| 0 <= i < s.len() implies ascii_digit(#[trigger] s[i]) by {
            if i < s.len() - 1 {
                assert(s[i] == decimal(n / 10)[i]);
            }
        }
    }
}

/// Reading the numeral of a 64-bit signed integer gives the integer back.
pub proof fn integer_round_trips(n: i64)
    ensures
        i64_value(integer(n as int)) == Some(n),
{
    if n < 0 {
        lemma_decimal((-n) as nat);
        assert(integer(n as int).skip(1) =~= decimal((-n) as nat));
    } else {
        lemma_decimal(n as nat);
    }
}

} // verus!
