//! What holds of the chapters of a book, said of its text.
use crate::chapters;
use crate::chapters::ChapterView;
use crate::chapters::SplitMode;
use crate::chapters::SplitOptionsView;
use crate::heading_laws;
use crate::heading_laws::blank;
use crate::text;
use vstd::prelude::*;

verus! {

// ---------------------------------------------------------------- texts

/// The text without its whitespace.
pub open spec fn solid(s: Seq<char>) -> Seq<char>
    decreases s.len(),
{
    if s.len() == 0 {
        Seq::empty()
    } else if text::whitespace(s.last()) {
        solid(s.drop_last())
    } else {
        solid(s.drop_last()).push(s.last())
    }
}

proof fn lemma_solid_concat(a: Seq<char>, b: Seq<char>)
    ensures
        solid(a + b) == solid(a) + solid(b),
    decreases b.len(),
{
    if b.len() == 0 {
        assert(a + b =~= a);
        assert(solid(a) + solid(b) =~= solid(a));
    } else {
        assert((a + b).drop_last() =~= a + b.drop_last());
        lemma_solid_concat(a, b.drop_last());
        assert(solid(a + b) =~= solid(a) + solid(b));
    }
}

proof fn lemma_solid_blank(s: Seq<char>)
    requires
        blank(s),
    ensures
        solid(s) == Seq::<char>::empty(),
    decreases s.len(),
{
    if s.len() > 0 {
        assert(text::whitespace(s[s.len() - 1]));
        assert forall|i: int| 0 <= i < s.drop_last().len() implies text::whitespace(
            #[trigger] s.drop_last()[i],
        ) by {
            assert(s[i] == s.drop_last()[i]);
        }
        lemma_solid_blank(s.drop_last());
    }
}

/// The words of a text are its characters other than whitespace.
pub proof fn words_are_counted_without_blanks(s: Seq<char>)
    ensures
        text::words(s) == solid(s).len(),
    decreases s.len(),
{
    if s.len() > 0 {
        words_are_counted_without_blanks(s.drop_last());
    }
}

/// Trimming takes the blanks from both ends, and nothing else.
pub proof fn trimming_leaves_the_core(front: Seq<char>, core: Seq<char>, back: Seq<char>)
    requires
        blank(front),
        blank(back),
        core.len() > 0 ==> !text::whitespace(core[0]) && !text::whitespace(core.last()),
    ensures
        text::trim(front + (core + back)) == core,
{
    let s = front + (core + back);
    text::lemma_trim_start(s);
    let st = text::trim_start(s);
    let n = s.len() - st.len();
    text::lemma_trim_end(st);
    let t = text::trim(s);
    if core.len() == 0 {
        assert forall|i: int| 0 <= i < s.len() implies text::whitespace(#[trigger] s[i]) by {
            if i < front.len() {
                assert(s[i] == front[i]);
            } else {
                assert(s[i] == back[i - front.len()]);
            }
        }
        text::lemma_words_blank(s);
        text::lemma_trim(s);
        assert(t =~= core);
    } else {
        let f = front.len() as int;
        assert(s[f] == core[0]);
        assert(n <= f) by {
            if n > f {
                assert(text::whitespace(s[f]));
            }
        }
        assert(n >= f) by {
            if n < f {
                assert(st[0] == s[n as int]);
                assert(s[n as int] == front[n as int]);
            }
        }
        assert(st =~= s.skip(n as int));
        assert(s.skip(f) =~= core + back);
        let m = t.len() as int;
        let c = core.len() as int;
        assert(st[c - 1] == core[c - 1]);
        assert(m >= c) by {
            if m < c {
                assert(text::whitespace(st[c - 1]));
            }
        }
        assert(m <= c) by {
            if m > c {
                assert(t.last() == st[m - 1]);
                assert(st[m - 1] == back[m - 1 - c]);
            }
        }
        assert(t =~= core);
    }
}

/// Every text is blanks, a core without blanks at its ends, and blanks.
proof fn lemma_core(s: Seq<char>) -> (ends: (Seq<char>, Seq<char>))
    ensures
        blank(ends.0),
        blank(ends.1),
        s == ends.0 + (text::trim(s) + ends.1),
{
    text::lemma_trim_start(s);
    let st = text::trim_start(s);
    text::lemma_trim_end(st);
    let t = text::trim(s);
    let front = s.take(s.len() - st.len());
    let back = st.skip(t.len() as int);
    assert forall|i: int| 0 <= i < front.len() implies text::whitespace(#[trigger] front[i]) by {
        assert(front[i] == s[i]);
    }
    assert forall|i: int| 0 <= i < back.len() implies text::whitespace(#[trigger] back[i]) by {
        assert(back[i] == st[i + t.len()]);
    }
    assert(st =~= t + back);
    (front, back)
}

proof fn lemma_solid_trim(s: Seq<char>)
    ensures
        solid(text::trim(s)) == solid(s),
        text::trim(s).len() == 0 <==> blank(s),
{
    let (front, back) = lemma_core(s);
    let t = text::trim(s);
    lemma_solid_concat(front, t + back);
    lemma_solid_concat(t, back);
    lemma_solid_blank(front);
    lemma_solid_blank(back);
    assert(Seq::<char>::empty() + (solid(t) + Seq::<char>::empty()) =~= solid(t));
    if t.len() == 0 {
        assert forall|i: int| 0 <= i < s.len() implies text::whitespace(#[trigger] s[i]) by {
            if i < front.len() {
                assert(s[i] == front[i]);
            } else {
                assert(s[i] == back[i - front.len()]);
            }
        }
    } else {
        text::lemma_trim(s);
        assert(s[front.len() as int] == t[0]);
    }
}

// ---------------------------------------------------------------- line ends

/// Every line end, `\r\n` or `\r`, is written as `\n`, whatever stands around it, and
/// nothing else of the text changes.
pub proof fn line_ends_become_one_character(a: Seq<char>, b: Seq<char>)
    ensures
        chapters::normalized(a + seq!['\r', '\n'] + b) == chapters::normalized(a) + seq!['\n']
            + chapters::normalized(b),
        !(b.len() > 0 && b[0] == '\n') ==> chapters::normalized(a + seq!['\r'] + b)
            == chapters::normalized(a) + seq!['\n'] + chapters::normalized(b),
        !a.contains('\r') ==> chapters::normalized(a) == a,
    decreases a.len() + b.len(),
{
    lemma_plain(a);
    if b.len() == 0 {
        let one = a + seq!['\r'] + b;
        let two = a + seq!['\r', '\n'] + b;
        assert(one.drop_last() =~= a);
        assert(one.last() == '\r');
        assert(two.drop_last() =~= one);
        assert(two.last() == '\n');
        assert(chapters::normalized(two) == chapters::normalized(one));
        assert(chapters::normalized(a).push('\n') =~= chapters::normalized(a) + seq!['\n']
            + chapters::normalized(b));
    } else {
        let c = b.drop_last();
        line_ends_become_one_character(a, c);
        let one = a + seq!['\r'] + b;
        let two = a + seq!['\r', '\n'] + b;
        assert(one.drop_last() =~= a + seq!['\r'] + c);
        assert(two.drop_last() =~= a + seq!['\r', '\n'] + c);
        if c.len() > 0 {
            assert(b[0] == c[0]);
            assert(one.drop_last().last() == c.last());
            assert(two.drop_last().last() == c.last());
        } else {
            assert(b[0] == b.last());
            assert(two.drop_last().last() == '\n');
        }
        assert(chapters::normalized(two) =~= chapters::normalized(a) + seq!['\n']
            + chapters::normalized(b));
        if b[0] != '\n' {
            assert(chapters::normalized(one) =~= chapters::normalized(a) + seq!['\n']
                + chapters::normalized(b));
        }
    }
}

proof fn lemma_plain(a: Seq<char>)
    ensures
        !a.contains('\r') ==> chapters::normalized(a) == a,
    decreases a.len(),
{
    if a.len() > 0 && !a.contains('\r') {
        let b = a.drop_last();
        assert(!b.contains('\r')) by {
            if b.contains('\r') {
                let i = choose|i: int| 0 <= i < b.len() && b[i] == '\r';
                assert(a[i] == '\r');
            }
        }
        lemma_plain(b);
        assert(a[a.len() - 1] != '\r');
        if b.len() > 0 {
            assert(b.last() == b[b.len() - 1]);
            assert(b.contains(b.last()));
        }
        assert(b.push(a.last()) =~= a);
    } else if a.len() == 0 {
        assert(chapters::normalized(a) =~= a);
    }
}

proof fn lemma_solid_normalized(s: Seq<char>)
    ensures
        solid(chapters::normalized(s)) == solid(s),
    decreases s.len(),
{
    if s.len() > 0 {
        let b = s.drop_last();
        lemma_solid_normalized(b);
        if s.last() == '\n' && b.len() > 0 && b.last() == '\r' {
        } else {
            assert(chapters::normalized(s).drop_last() =~= chapters::normalized(b));
        }
    }
}

// ---------------------------------------------------------------- the order of the text

/// The contents of all chapters, one after the other.
pub open spec fn whole_text(cs: Seq<ChapterView>) -> Seq<char>
    decreases cs.len(),
{
    if cs.len() == 0 {
        Seq::empty()
    } else {
        whole_text(cs.drop_last()) + cs.last().content
    }
}

proof fn lemma_whole_is_concat(cs: Seq<ChapterView>)
    ensures
        whole_text(cs) == text::concat(chapters::contents(cs)),
    decreases cs.len(),
{
    if cs.len() > 0 {
        lemma_whole_is_concat(cs.drop_last());
        assert(chapters::contents(cs).drop_last() =~= chapters::contents(cs.drop_last()));
    }
}

proof fn lemma_solid_join(pieces: Seq<Seq<char>>)
    ensures
        solid(text::join(pieces, '\n')) == solid(text::concat(pieces)),
    decreases pieces.len(),
{
    if pieces.len() == 1 {
        assert(pieces.drop_last() =~= Seq::empty());
        assert(text::concat(pieces.drop_last()) =~= Seq::<char>::empty());
        assert(text::concat(pieces) =~= pieces[0]);
    } else if pieces.len() > 1 {
        let front = pieces.drop_last();
        lemma_solid_join(front);
        let j = text::join(front, '\n');
        assert(j.push('\n').drop_last() =~= j);
        lemma_solid_concat(j.push('\n'), pieces.last());
        lemma_solid_concat(text::concat(front), pieces.last());
    }
}

proof fn lemma_solid_cuts(s: Seq<char>, n: nat)
    requires
        n > 0,
    ensures
        solid(text::concat(chapters::cuts(s, n))) == solid(s),
    decreases s.len(),
{
    if s.len() > 0 {
        let m = if n < s.len() {
            n as int
        } else {
            s.len() as int
        };
        let head = s.take(m);
        let rest = s.skip(m);
        lemma_solid_cuts(rest, n);
        assert(s =~= head + rest);
        lemma_solid_concat(head, rest);
        lemma_solid_trim(head);
        let piece = text::trim(head);
        if piece.len() > 0 {
            let all = seq![piece] + chapters::cuts(rest, n);
            chapters::lemma_concat_first(all);
            assert(all.skip(1) =~= chapters::cuts(rest, n));
            lemma_solid_concat(piece, text::concat(chapters::cuts(rest, n)));
        } else {
            lemma_solid_blank(head);
            assert(Seq::<char>::empty() + solid(rest) =~= solid(rest));
        }
    } else {
        assert(text::concat(chapters::cuts(s, n)) =~= Seq::<char>::empty());
    }
}

/// However a book is split, its chapters one after the other are its text, in order:
/// but for whitespace, nothing is lost, added or moved.
pub proof fn every_split_keeps_the_text_in_order(
    raw: Seq<char>,
    book: Seq<char>,
    opts: SplitOptionsView,
)
    ensures
        solid(whole_text(chapters::book_chapters(raw, book, opts))) == solid(raw),
{
    let whole = chapters::normalized(raw);
    let cs = chapters::book_chapters(raw, book, opts);
    lemma_solid_normalized(raw);
    lemma_whole_is_concat(cs);
    if opts.mode == SplitMode::ByWordCount {
        let n = if opts.words_per_chapter == 0 {
            1
        } else {
            opts.words_per_chapter
        };
        lemma_solid_cuts(whole, n);
        if chapters::cuts(whole, n).len() == 0 {
            assert(chapters::contents(cs) =~= seq![whole]);
            chapters::lemma_concat_first(seq![whole]);
            assert(seq![whole].skip(1) =~= Seq::empty());
            assert(whole + text::concat(Seq::empty()) =~= whole);
        } else {
            assert(chapters::contents(cs) =~= chapters::cuts(whole, n));
        }
    } else {
        let joined = text::join(chapters::contents(cs), '\n');
        chapters::chapters_restore_the_text(raw, book, opts);
        lemma_solid_join(chapters::contents(cs));
        if joined != whole {
            let front = choose|front: Seq<char>|
                text::trim(front).len() == 0 && whole == #[trigger] front.push('\n') + joined;
            lemma_solid_concat(front.push('\n'), joined);
            assert(front.push('\n').drop_last() =~= front);
            lemma_solid_trim(front);
            lemma_solid_blank(front);
            assert(Seq::<char>::empty() + solid(joined) =~= solid(joined));
        }
    }
}

// ---------------------------------------------------------------- chapters of a fixed length

/// The characters of a text from `j * n` on, `n` of them or as many as there are.
pub open spec fn nth_run(s: Seq<char>, n: nat, j: nat) -> Seq<char> {
    s.subrange(
        (j * n) as int,
        if j * n + n < s.len() {
            (j * n + n) as int
        } else {
            s.len() as int
        },
    )
}

/// The number of characters per chapter: at least one.
pub open spec fn chapter_length(opts: SplitOptionsView) -> nat {
    if opts.words_per_chapter == 0 {
        1
    } else {
        opts.words_per_chapter
    }
}

/// `js` names, in rising order, the runs from the `from`-th on that are not blank,
/// and the pieces are those runs, trimmed.
pub open spec fn pieces_are_runs(
    pieces: Seq<Seq<char>>,
    js: Seq<nat>,
    s: Seq<char>,
    n: nat,
    from: nat,
) -> bool {
    &&& js.len() == pieces.len()
    &&& forall|a: int, b: int| 0 <= a < b < js.len() ==> (#[trigger] js[a]) < (#[trigger] js[b])
    &&& forall|a: int|
        0 <= a < js.len() ==> from <= #[trigger] js[a] && js[a] * n < s.len() && !blank(
            nth_run(s, n, js[a]),
        ) && pieces[a] == text::trim(nth_run(s, n, js[a]))
    &&& forall|j: nat|
        from <= j && j * n < s.len() && !blank(#[trigger] nth_run(s, n, j)) ==> js.contains(j)
}

proof fn lemma_cut_runs(s: Seq<char>, n: nat, from: nat) -> (js: Seq<nat>)
    requires
        n > 0,
        from * n <= s.len(),
    ensures
        pieces_are_runs(chapters::cuts(s.skip((from * n) as int), n), js, s, n, from),
    decreases s.len() - from * n,
{
    let start = (from * n) as int;
    let left = s.skip(start);
    assert((from + 1) * n == from * n + n) by (nonlinear_arith);
    if left.len() == 0 {
        let js = Seq::<nat>::empty();
        assert forall|j: nat|
            from <= j && j * n < s.len() && !blank(#[trigger] nth_run(s, n, j)) implies js.contains(
            j,
        ) by {
            assert(from * n <= j * n) by (nonlinear_arith)
                requires
                    from <= j,
            ;
        }
        js
    } else {
        let m = if n < left.len() {
            n as int
        } else {
            left.len() as int
        };
        let head = left.take(m);
        assert(head =~= nth_run(s, n, from));
        lemma_solid_trim(head);
        let piece = text::trim(head);
        let later = if n < left.len() {
            lemma_cut_runs(s, n, from + 1)
        } else {
            Seq::<nat>::empty()
        };
        let rest = chapters::cuts(left.skip(m), n);
        if n < left.len() {
            assert(left.skip(m) =~= s.skip(((from + 1) * n) as int));
        } else {
            assert(left.skip(m).len() == 0);
            assert forall|j: nat|
                from + 1 <= j && j * n < s.len() && !blank(#[trigger] nth_run(s, n, j)) implies later.contains(
                j,
            ) by {
                assert((from + 1) * n <= j * n) by (nonlinear_arith)
                    requires
                        from + 1 <= j,
                ;
            }
        }
        assert(pieces_are_runs(rest, later, s, n, from + 1));
        if piece.len() > 0 {
            let js = seq![from] + later;
            let pieces = chapters::cuts(left, n);
            assert(pieces == seq![piece] + rest);
            assert forall|a: int, b: int| 0 <= a < b < js.len() implies (#[trigger] js[a]) < (
            #[trigger] js[b]) by {
                assert(js[b] == later[b - 1]);
                if a > 0 {
                    assert(js[a] == later[a - 1]);
                }
            }
            assert forall|a: int| 0 <= a < js.len() implies from <= #[trigger] js[a] && js[a] * n
                < s.len() && !blank(nth_run(s, n, js[a])) && pieces[a] == text::trim(
                nth_run(s, n, js[a]),
            ) by {
                if a > 0 {
                    assert(js[a] == later[a - 1]);
                    assert(pieces[a] == rest[a - 1]);
                }
            }
            assert forall|j: nat|
                from <= j && j * n < s.len() && !blank(
                    #[trigger] nth_run(s, n, j),
                ) implies js.contains(j) by {
                if j == from {
                    assert(js[0] == j);
                } else {
                    assert(later.contains(j));
                    let k = choose|k: int| 0 <= k < later.len() && later[k] == j;
                    assert(js[k + 1] == j);
                }
            }
            js
        } else {
            assert(chapters::cuts(left, n) == rest);
            later
        }
    }
}

/// By word count the chapters are the runs of so many characters, from the start of
/// the text to its end, each trimmed; only blank ones are left out.
pub proof fn chapters_by_length_are_the_runs_of_the_text(
    raw: Seq<char>,
    book: Seq<char>,
    opts: SplitOptionsView,
)
    requires
        opts.mode == SplitMode::ByWordCount,
        !blank(raw),
    ensures
        exists|js: Seq<nat>| #[trigger]
            pieces_are_runs(
                chapters::contents(chapters::book_chapters(raw, book, opts)),
                js,
                chapters::normalized(raw),
                chapter_length(opts),
                0,
            ),
{
    let s = chapters::normalized(raw);
    let n = chapter_length(opts);
    let cs = chapters::book_chapters(raw, book, opts);
    assert(s.skip(0) =~= s);
    assert(0 * n == 0) by (nonlinear_arith);
    let js = lemma_cut_runs(s, n, 0);
    lemma_cuts_not_empty(raw, n);
    assert(chapters::contents(cs) =~= chapters::cuts(s, n));
}

/// A text that is not blank has a run that is not.
proof fn lemma_cuts_not_empty(raw: Seq<char>, n: nat)
    requires
        n > 0,
        !blank(raw),
    ensures
        chapters::cuts(chapters::normalized(raw), n).len() > 0,
{
    let s = chapters::normalized(raw);
    lemma_solid_normalized(raw);
    lemma_solid_cuts(s, n);
    let i = choose|i: int| 0 <= i < raw.len() && !text::whitespace(#[trigger] raw[i]);
    let a = raw.take(i);
    let b = raw.skip(i + 1);
    assert(raw =~= a.push(raw[i]) + b);
    lemma_solid_concat(a.push(raw[i]), b);
    assert(a.push(raw[i]).drop_last() =~= a);
    assert(solid(raw).len() > 0);
    if chapters::cuts(s, n).len() == 0 {
        assert(text::concat(chapters::cuts(s, n)) =~= Seq::<char>::empty());
    }
}

proof fn lemma_cuts_solid(s: Seq<char>, n: nat, i: nat)
    requires
        n > 0,
        forall|k: int| 0 <= k < s.len() ==> !text::whitespace(#[trigger] s[k]),
    ensures
        i < chapters::cuts(s, n).len() <==> i * n < s.len(),
        i * n < s.len() ==> chapters::cuts(s, n)[i as int] == nth_run(s, n, i),
    decreases s.len(),
{
    assert(0 * n == 0) by (nonlinear_arith);
    assert(i * n >= 0) by (nonlinear_arith);
    if s.len() > 0 {
        let m = if n < s.len() {
            n as int
        } else {
            s.len() as int
        };
        let head = s.take(m);
        let rest = s.skip(m);
        assert forall|k: int| 0 <= k < rest.len() implies !text::whitespace(#[trigger] rest[k]) by {
            assert(rest[k] == s[k + m]);
        }
        let none = Seq::<char>::empty();
        assert(head[0] == s[0]);
        assert(head.last() == s[m - 1]);
        assert(none + (head + none) =~= head);
        trimming_leaves_the_core(none, head, none);
        assert(chapters::cuts(s, n) == seq![head] + chapters::cuts(rest, n));
        if i == 0 {
            assert(head =~= nth_run(s, n, 0));
        } else {
            let j = (i - 1) as nat;
            lemma_cuts_solid(rest, n, j);
            assert(i * n == j * n + n) by (nonlinear_arith)
                requires
                    i == j + 1,
            ;
            assert(j * n >= 0) by (nonlinear_arith);
            if i * n < s.len() {
                assert(nth_run(rest, n, j) =~= nth_run(s, n, i));
            }
        }
    }
}

/// Chapter `i` of a text without whitespace is its characters from `i * n` on, and
/// there are as many chapters as it takes.
pub proof fn chapters_by_length_go_through_the_text(
    raw: Seq<char>,
    book: Seq<char>,
    opts: SplitOptionsView,
    i: nat,
)
    requires
        opts.mode == SplitMode::ByWordCount,
        raw.len() > 0,
        forall|k: int| 0 <= k < raw.len() ==> !text::whitespace(#[trigger] raw[k]),
    ensures
        i < chapters::book_chapters(raw, book, opts).len() <==> i * chapter_length(opts) < raw.len(),
        i * chapter_length(opts) < raw.len() ==> chapters::book_chapters(
            raw,
            book,
            opts,
        )[i as int].content == nth_run(raw, chapter_length(opts), i),
{
    let n = chapter_length(opts);
    assert(!raw.contains('\r')) by {
        if raw.contains('\r') {
            let k = choose|k: int| 0 <= k < raw.len() && raw[k] == '\r';
            assert(!text::whitespace(raw[k]));
        }
    }
    lemma_plain(raw);
    assert(!text::whitespace(raw[0]));
    lemma_cuts_not_empty(raw, n);
    lemma_cuts_solid(raw, n, i);
}

/// A numeral of the number, in decimal.
proof fn lemma_name(n: nat)
    ensures
        text::all_digits(text::decimal(n)) && text::digits_value(text::decimal(n)) == n,
{
    text::lemma_decimal(n);
}

/// By word count the chapters are called after their place, counted from one, and
/// their word count is the number of their characters; a blank text is one chapter
/// of its own, as it stands.
pub proof fn chapters_by_length_are_counted(
    raw: Seq<char>,
    book: Seq<char>,
    opts: SplitOptionsView,
    i: int,
)
    requires
        opts.mode == SplitMode::ByWordCount,
        0 <= i < chapters::book_chapters(raw, book, opts).len(),
    ensures
        ({
            let c = chapters::book_chapters(raw, book, opts)[i];
            if blank(raw) {
                &&& chapters::book_chapters(raw, book, opts).len() == 1
                &&& c.index == 0
                &&& c.name == "全文"@
                &&& c.word_count == 0
                &&& c.content == chapters::normalized(raw)
            } else {
                &&& c.index == i
                &&& c.word_count == c.content.len()
                &&& exists|number: Seq<char>|
                    c.name == "第 "@ + number + " 章"@ && text::all_digits(number)
                        && #[trigger] text::digits_value(number) == i + 1
            }
        }),
{
    let s = chapters::normalized(raw);
    let n = chapter_length(opts);
    if blank(raw) {
        lemma_solid_blank(raw);
        lemma_solid_normalized(raw);
        lemma_solid_cuts(s, n);
        if chapters::cuts(s, n).len() > 0 {
            let pieces = chapters::cuts(s, n);
            chapters::lemma_concat_first(pieces);
            lemma_solid_concat(pieces[0], text::concat(pieces.skip(1)));
            let rest = solid(text::concat(pieces.skip(1)));
            assert((solid(pieces[0]) + rest).len() == solid(pieces[0]).len() + rest.len());
            assert(solid(pieces[0]).len() == 0);
            words_are_counted_without_blanks(pieces[0]);
            lemma_first_cut(s, n);
        }
    } else {
        lemma_cuts_not_empty(raw, n);
        lemma_name((i + 1) as nat);
        let number = text::decimal((i + 1) as nat);
        assert(text::digits_value(number) == i + 1);
    }
}

/// No cut is blank.
proof fn lemma_first_cut(s: Seq<char>, n: nat)
    requires
        n > 0,
        chapters::cuts(s, n).len() > 0,
    ensures
        text::words(chapters::cuts(s, n)[0]) > 0,
    decreases s.len(),
{
    let m = if n < s.len() {
        n as int
    } else {
        s.len() as int
    };
    let head = s.take(m);
    text::lemma_trim(head);
    if text::trim(head).len() == 0 {
        lemma_first_cut(s.skip(m), n);
    }
}

// ---------------------------------------------------------------- chapters between headings

/// Every heading begins a chapter that is called after it and runs up to the next
/// heading; text before the first heading is a chapter of its own unless it is blank,
/// and a book without headings is one chapter. Chapters are numbered from zero, and
/// their word count leaves whitespace out.
pub proof fn chapters_run_from_heading_to_heading(
    raw: Seq<char>,
    book: Seq<char>,
    opts: SplitOptionsView,
)
    requires
        opts.mode != SplitMode::ByWordCount,
    ensures
        ({
            let lines = text::split_on(chapters::normalized(raw), '\n');
            let hs = chapters::heading_lines(lines, opts.mode, opts.keyword);
            let cs = chapters::book_chapters(raw, book, opts);
            let auto = opts.mode == SplitMode::Auto;
            let front = text::join(lines.take(hs[0]), '\n');
            let p: int = if hs[0] == 0 || blank(front) {
                0
            } else {
                1
            };
            &&& forall|i: int|
                0 <= i < cs.len() ==> (#[trigger] cs[i]).index == i && cs[i].word_count == solid(
                    cs[i].content,
                ).len()
            &&& if hs.len() == 0 {
                &&& cs.len() == 1
                &&& cs[0].content == chapters::normalized(raw)
                &&& cs[0].name == (if auto {
                    book
                } else {
                    "全文"@
                })
            } else {
                &&& cs.len() == p + hs.len()
                &&& p == 1 ==> cs[0].content == front && cs[0].name == (if auto {
                    book
                } else {
                    "前言"@
                })
                &&& forall|k: int|
                    0 <= k < hs.len() ==> ({
                        let line = text::trim(lines[#[trigger] hs[k]]);
                        let end = if k + 1 < hs.len() {
                            hs[k + 1]
                        } else {
                            lines.len() as int
                        };
                        let c = cs[p + k];
                        &&& c.content == text::join(lines.subrange(hs[k], end), '\n')
                        &&& c.name == (if line.len() <= 50 {
                            line
                        } else {
                            line.take(50)
                        })
                    })
            }
        }),
{
    let lines = text::split_on(chapters::normalized(raw), '\n');
    let hs = chapters::heading_lines(lines, opts.mode, opts.keyword);
    let cs = chapters::book_chapters(raw, book, opts);
    chapters::lemma_heading_lines(lines, opts.mode, opts.keyword);
    assert forall|i: int| 0 <= i < cs.len() implies (#[trigger] cs[i]).index == i
        && cs[i].word_count == solid(cs[i].content).len() by {
        words_are_counted_without_blanks(cs[i].content);
    }
    if hs.len() > 0 {
        let front = text::join(lines.take(hs[0]), '\n');
        lemma_solid_trim(front);
    }
}

/// The lines of a book, joined again, are its text; and no line holds a line end.
pub proof fn the_lines_make_up_the_book(raw: Seq<char>)
    ensures
        ({
            let lines = text::split_on(chapters::normalized(raw), '\n');
            &&& lines.len() > 0
            &&& text::join(lines, '\n') == chapters::normalized(raw)
            &&& forall|i: int, j: int|
                0 <= i < lines.len() && 0 <= j < lines[i].len() ==> (#[trigger] lines[i][j]) != '\n'
        }),
{
    text::join_of_split(chapters::normalized(raw), '\n');
    text::lemma_split_on(chapters::normalized(raw), '\n');
}

/// Joined pieces follow one another with one separator between two neighbours.
pub proof fn joining_puts_separators_between(
    front: Seq<Seq<char>>,
    piece: Seq<char>,
    sep: char,
)
    ensures
        text::join(seq![piece], sep) == piece,
        front.len() > 0 ==> text::join(front.push(piece), sep) == text::join(front, sep) + seq![sep]
            + piece,
{
    if front.len() > 0 {
        let all = front.push(piece);
        assert(all.drop_last() =~= front);
        assert(text::join(front, sep).push(sep) + piece =~= text::join(front, sep) + seq![sep]
            + piece);
    }
}

/// The chapter is called after the line, and begins with it.
pub open spec fn headed_by(c: ChapterView, line: Seq<char>) -> bool {
    let t = text::trim(line);
    &&& c.name == (if t.len() <= 50 {
        t
    } else {
        t.take(50)
    })
    &&& heading_laws::begins_with(c.content, line)
}

/// A book put together from lines: each line that is a heading begins a chapter,
/// which is called after it.
pub proof fn a_chapter_for_each_heading(
    lines: Seq<Seq<char>>,
    book: Seq<char>,
    opts: SplitOptionsView,
    i: int,
)
    requires
        opts.mode != SplitMode::ByWordCount,
        0 <= i < lines.len(),
        forall|k: int|
            0 <= k < lines.len() ==> !(#[trigger] lines[k]).contains('\n') && !lines[k].contains(
                '\r',
            ),
        crate::headings::heading_line(opts.mode, lines[i], opts.keyword),
    ensures
        exists|k: int|
            0 <= k < chapters::book_chapters(text::join(lines, '\n'), book, opts).len()
                && #[trigger] headed_by(
                chapters::book_chapters(text::join(lines, '\n'), book, opts)[k],
                lines[i],
            ),
{
    let raw = text::join(lines, '\n');
    lemma_join_plain(lines);
    lemma_plain(raw);
    heading_laws::split_of_join(lines, '\n');
    let hs = chapters::heading_lines(lines, opts.mode, opts.keyword);
    assert(hs.contains(i)) by {
        heading_laws::the_headings_of_a_book(lines, opts.mode, opts.keyword, i);
    }
    let k = choose|k: int| 0 <= k < hs.len() && hs[k] == i;
    lemma_headed(raw, book, opts, k);
}

proof fn lemma_headed(raw: Seq<char>, book: Seq<char>, opts: SplitOptionsView, k: int)
    requires
        opts.mode != SplitMode::ByWordCount,
        ({
            let lines = text::split_on(chapters::normalized(raw), '\n');
            0 <= k < chapters::heading_lines(lines, opts.mode, opts.keyword).len()
        }),
    ensures
        ({
            let lines = text::split_on(chapters::normalized(raw), '\n');
            let hs = chapters::heading_lines(lines, opts.mode, opts.keyword);
            exists|j: int|
                0 <= j < chapters::book_chapters(raw, book, opts).len() && #[trigger] headed_by(
                    chapters::book_chapters(raw, book, opts)[j],
                    lines[hs[k]],
                )
        }),
{
    let lines = text::split_on(chapters::normalized(raw), '\n');
    let hs = chapters::heading_lines(lines, opts.mode, opts.keyword);
    let cs = chapters::book_chapters(raw, book, opts);
    chapters::lemma_heading_lines(lines, opts.mode, opts.keyword);
    let end = chapters::block_end(lines, hs, k);
    assert(hs[k] < end <= lines.len());
    let part = lines.subrange(hs[k], end);
    lemma_join_begins(part);
    assert(part[0] == lines[hs[k]]);
    let p: int = if chapters::has_preface(lines, hs) {
        1
    } else {
        0
    };
    assert(headed_by(cs[p + k], lines[hs[k]]));
}

proof fn lemma_join_begins(pieces: Seq<Seq<char>>)
    requires
        pieces.len() > 0,
    ensures
        heading_laws::begins_with(text::join(pieces, '\n'), pieces[0]),
    decreases pieces.len(),
{
    if pieces.len() == 1 {
        assert(pieces[0] =~= pieces[0] + Seq::<char>::empty());
    } else {
        lemma_join_begins(pieces.drop_last());
        let j = text::join(pieces.drop_last(), '\n');
        let rest = choose|rest: Seq<char>| j == #[trigger] (pieces[0] + rest);
        assert(text::join(pieces, '\n') =~= pieces[0] + (rest.push('\n') + pieces.last()));
    }
}

proof fn lemma_join_plain(lines: Seq<Seq<char>>)
    requires
        forall|k: int| 0 <= k < lines.len() ==> !(#[trigger] lines[k]).contains('\r'),
    ensures
        !text::join(lines, '\n').contains('\r'),
    decreases lines.len(),
{
    let all = text::join(lines, '\n');
    if lines.len() == 1 {
        assert(!lines[0].contains('\r'));
    } else if lines.len() > 1 {
        let front = lines.drop_last();
        assert forall|k: int| 0 <= k < front.len() implies !(#[trigger] front[k]).contains('\r') by {
            assert(front[k] == lines[k]);
        }
        lemma_join_plain(front);
        let j = text::join(front, '\n');
        assert(!lines[lines.len() - 1].contains('\r'));
        if all.contains('\r') {
            let i = choose|i: int| 0 <= i < all.len() && all[i] == '\r';
            if i < j.len() {
                assert(j[i] == '\r');
                assert(j.contains('\r'));
            } else if i > j.len() {
                assert(lines.last()[i - j.len() - 1] == '\r');
                assert(lines.last().contains('\r'));
            }
        }
    }
}

// ---------------------------------------------------------------- chunks

/// The chunks of a chapter are its content, in order; no chunk has more bytes than
/// the budget, unless it is one character that alone has more, and each goes on until
/// the next character would not fit. An empty content is one empty chunk.
pub proof fn chunks_are_as_long_as_they_can_be(content: Seq<char>, max_bytes: nat, i: int)
    requires
        0 <= i < chapters::chunks_of(content, max_bytes).len(),
    ensures
        text::concat(chapters::chunks_of(content, max_bytes)) == content,
        vstd::utf8::encode_utf8(chapters::chunks_of(content, max_bytes)[i]).len() <= max_bytes
            || chapters::chunks_of(content, max_bytes)[i].len() == 1,
        max_bytes >= 4 ==> vstd::utf8::encode_utf8(chapters::chunks_of(content, max_bytes)[i]).len()
            <= max_bytes,
        content.len() > 0 ==> chapters::chunks_of(content, max_bytes)[i].len() > 0,
        content.len() == 0 ==> chapters::chunks_of(content, max_bytes).len() == 1,
        i + 1 < chapters::chunks_of(content, max_bytes).len() ==> vstd::utf8::encode_utf8(
            chapters::chunks_of(content, max_bytes)[i].push(
                chapters::chunks_of(content, max_bytes)[i + 1][0],
            ),
        ).len() > max_bytes,
{
    let all = chapters::chunks_of(content, max_bytes);
    chapters::chunks_exist(content, max_bytes);
    chapters::chunks_restore_the_content(all, content, max_bytes);
    text::lemma_text_bytes_encode(all[i]);
    if max_bytes >= 4 {
        chapters::chunks_fit_the_budget(all, content, max_bytes, i);
    }
    if i + 1 < all.len() {
        let c = all[i + 1][0];
        assert(text::text_bytes(all[i]) + text::char_bytes(c) > max_bytes);
        assert(all[i].push(c).drop_last() =~= all[i]);
        text::lemma_text_bytes_encode(all[i].push(c));
    }
}

/// There is at least one chunk, whatever the content and the budget.
pub proof fn there_is_always_a_chunk(content: Seq<char>, max_bytes: nat)
    ensures
        chapters::chunks_of(content, max_bytes).len() > 0,
{
    chapters::chunks_exist(content, max_bytes);
    chapters::chunks_restore_the_content(
        chapters::chunks_of(content, max_bytes),
        content,
        max_bytes,
    );
}

/// Pieces are put together one after the other, with nothing between.
pub proof fn pieces_put_together(front: Seq<Seq<char>>, piece: Seq<char>)
    ensures
        text::concat(front.push(piece)) == text::concat(front) + piece,
        text::concat(Seq::<Seq<char>>::empty()).len() == 0,
{
    assert(front.push(piece).drop_last() =~= front);
}

/// The words of chapters are added up one by one.
pub proof fn word_counts_add_up(cs: Seq<ChapterView>, c: ChapterView)
    ensures
        chapters::total_words(cs.push(c)) == chapters::total_words(cs) + c.word_count,
        chapters::total_words(Seq::<ChapterView>::empty()) == 0,
{
    assert(cs.push(c).drop_last() =~= cs);
}

} // verus!
