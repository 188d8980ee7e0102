//! Books as chapters, and chapters as chunks.
//!
//! The receiver takes a book chapter by chapter, and a chapter in chunks of
//! UTF-8 text that stay below a byte budget.
use crate::headings;
use crate::text;
use vstd::prelude::*;
use vstd::string::StringExecFns;

verus! {

// ---------------------------------------------------------------- types

/// A chapter of a book.
pub struct Chapter {
    /// The position of the chapter in the book.
    pub index: usize,
    pub name: String,
    pub word_count: usize,
    pub content: String,
}

/// A chapter as mathematical values.
#[verifier::ext_equal]
pub struct ChapterView {
    pub index: nat,
    pub name: Seq<char>,
    pub word_count: nat,
    pub content: Seq<char>,
}

impl View for Chapter {
    type V = ChapterView;

    open spec fn view(&self) -> ChapterView {
        ChapterView {
            index: self.index as nat,
            name: self.name@,
            word_count: self.word_count as nat,
            content: self.content@,
        }
    }
}

/// How a book is split into chapters.
#[derive(Clone, Copy, PartialEq, Eq, Debug, Structural)]
pub enum SplitMode {
    /// Numbered and special headings; bare numbers where there are none.
    Auto,
    /// `第X章` and its kin, or `番外N`.
    Default,
    /// As the default, with `第` optional and free spacing.
    Loose,
    /// `Chapter N`.
    English,
    /// `一、`, `二.` and so on.
    ZhNumDot,
    /// `1.`, `2、` and so on.
    DigitDot,
    /// A fixed number of characters per chapter.
    ByWordCount,
    /// Keywords at the start of the line.
    Custom,
}

/// The options of a split.
pub struct SplitOptions {
    pub mode: SplitMode,
    /// The length of a chapter when splitting by word count.
    pub words_per_chapter: usize,
    /// Keywords that begin a heading, separated by `|`.
    pub keyword: String,
}

impl Clone for SplitOptions {
    fn clone(&self) -> (r: SplitOptions)
        ensures
            r@ == self@,
    {
        SplitOptions {
            mode: self.mode,
            words_per_chapter: self.words_per_chapter,
            keyword: self.keyword.clone(),
        }
    }
}

/// The options of a split as mathematical values.
#[verifier::ext_equal]
pub struct SplitOptionsView {
    pub mode: SplitMode,
    pub words_per_chapter: nat,
    pub keyword: Seq<char>,
}

impl View for SplitOptions {
    type V = SplitOptionsView;

    open spec fn view(&self) -> SplitOptionsView {
        SplitOptionsView {
            mode: self.mode,
            words_per_chapter: self.words_per_chapter as nat,
            keyword: self.keyword@,
        }
    }
}

impl SplitMode {
    /// The name that the window shows.
    pub open spec fn name(self) -> Seq<char> {
        match self {
            SplitMode::Auto => "智能识别"@,
            SplitMode::Default => "第X章/回"@,
            SplitMode::Loose => "宽松匹配"@,
            SplitMode::English => "Chapter N"@,
            SplitMode::ZhNumDot => "中文数字 一、"@,
            SplitMode::DigitDot => "数字 1. 2、"@,
            SplitMode::ByWordCount => "按字数分章"@,
            SplitMode::Custom => "行首关键字"@,
        }
    }

    /// The mode that follows in the cycle.
    pub open spec fn successor(self) -> SplitMode {
        match self {
            SplitMode::Auto => SplitMode::Default,
            SplitMode::Default => SplitMode::Loose,
            SplitMode::Loose => SplitMode::English,
            SplitMode::English => SplitMode::ZhNumDot,
            SplitMode::ZhNumDot => SplitMode::DigitDot,
            SplitMode::DigitDot => SplitMode::ByWordCount,
            SplitMode::ByWordCount => SplitMode::Custom,
            SplitMode::Custom => SplitMode::Auto,
        }
    }

    /// The mode after `n` steps of the cycle.
    pub open spec fn after(self, n: nat) -> SplitMode
        decreases n,
    {
        if n == 0 {
            self
        } else {
            self.after((n - 1) as nat).successor()
        }
    }

    /// The name that the window shows.
    pub fn label(self) -> (r: &'static str)
        ensures
            r@ == self.name(),
    {
        match self {
            SplitMode::Auto => "智能识别",
            SplitMode::Default => "第X章/回",
            SplitMode::Loose => "宽松匹配",
            SplitMode::English => "Chapter N",
            SplitMode::ZhNumDot => "中文数字 一、",
            SplitMode::DigitDot => "数字 1. 2、",
            SplitMode::ByWordCount => "按字数分章",
            SplitMode::Custom => "行首关键字",
        }
    }

    /// Tells whether the mode reads the keywords.
    pub fn uses_keyword(self) -> (r: bool)
        ensures
            r == (self == SplitMode::Custom),
    {
        self == SplitMode::Custom
    }

    /// Tells whether the mode reads the number of words per chapter.
    pub fn uses_words(self) -> (r: bool)
        ensures
            r == (self == SplitMode::ByWordCount),
    {
        self == SplitMode::ByWordCount
    }

    /// The mode that follows in the cycle.
    pub fn next(self) -> (r: Self)
        ensures
            r == self.successor(),
    {
        match self {
            SplitMode::Auto => SplitMode::Default,
            SplitMode::Default => SplitMode::Loose,
            SplitMode::Loose => SplitMode::English,
            SplitMode::English => SplitMode::ZhNumDot,
            SplitMode::ZhNumDot => SplitMode::DigitDot,
            SplitMode::DigitDot => SplitMode::ByWordCount,
            SplitMode::ByWordCount => SplitMode::Custom,
            SplitMode::Custom => SplitMode::Auto,
        }
    }
}

/// Eight steps lead back to any mode, and fewer do not: the cycle visits every
/// mode once.
pub proof fn modes_form_one_cycle(mode: SplitMode, n: nat)
    requires
        0 < n <= 8,
    ensures
        mode.after(n) == mode <==> n == 8,
{
    reveal_with_fuel(SplitMode::after, 9);
}

/// Every mode is reached from every other within seven steps.
pub proof fn cycle_reaches_every_mode(from: SplitMode, to: SplitMode)
    ensures
        exists|n: nat| n < 8 && #[trigger] from.after(n) == to,
{
    reveal_with_fuel(SplitMode::after, 9);
    if from.after(0) == to {
    } else if from.after(1) == to {
    } else if from.after(2) == to {
    } else if from.after(3) == to {
    } else if from.after(4) == to {
    } else if from.after(5) == to {
    } else if from.after(6) == to {
    } else {
        assert(from.after(7) == to);
    }
}

impl SplitOptions {
    /// The options that a new window starts with.
    pub open spec fn initial() -> SplitOptionsView {
        SplitOptionsView {
            mode: SplitMode::Auto,
            words_per_chapter: 5000,
            keyword: Seq::empty(),
        }
    }
}

impl Default for SplitOptions {
    fn default() -> (r: SplitOptions)
        ensures
            r@ == SplitOptions::initial(),
    {
        SplitOptions {
            mode: SplitMode::Auto,
            words_per_chapter: 5000,
            keyword: String::new(),
        }
    }
}

// ---------------------------------------------------------------- the split, as mathematics

/// The chapters of a sequence, as values.
pub open spec fn chapter_views(cs: Seq<Chapter>) -> Seq<ChapterView> {
    Seq::new(cs.len(), |i: int| cs[i]@)
}

/// `s` with every line end, `\r\n` or `\r`, written as `\n`.
pub open spec fn normalized(s: Seq<char>) -> Seq<char>
    decreases s.len(),
{
    if s.len() == 0 {
        Seq::empty()
    } else {
        let before = s.drop_last();
        if s.last() == '\n' && before.len() > 0 && before.last() == '\r' {
            normalized(before)
        } else {
            normalized(before).push(
                if s.last() == '\r' {
                    '\n'
                } else {
                    s.last()
                },
            )
        }
    }
}

/// The positions of the lines that meet the rule, in order.
pub open spec fn lines_that(
    lines: Seq<Seq<char>>,
    rule: spec_fn(Seq<char>) -> bool,
) -> Seq<int>
    decreases lines.len(),
{
    if lines.len() == 0 {
        Seq::empty()
    } else {
        let before = lines_that(lines.drop_last(), rule);
        if rule(lines.last()) {
            before.push(lines.len() - 1)
        } else {
            before
        }
    }
}

/// The rule of a mode, as a predicate on lines.
pub open spec fn mode_rule(mode: SplitMode, keyword: Seq<char>) -> spec_fn(Seq<char>) -> bool {
    |line: Seq<char>| headings::heading_line(mode, line, keyword)
}

/// The rule for books without strong headings: bare numbers count too.
pub open spec fn weak_rule() -> spec_fn(Seq<char>) -> bool {
    |line: Seq<char>|
        headings::heading_sized(line) && (headings::strong_heading(text::trim(line))
            || headings::weak_heading(text::trim(line)))
}

/// The positions of the headings of a book.
pub open spec fn heading_lines(
    lines: Seq<Seq<char>>,
    mode: SplitMode,
    keyword: Seq<char>,
) -> Seq<int> {
    let strong = lines_that(lines, mode_rule(mode, keyword));
    if mode == SplitMode::Auto && strong.len() == 0 {
        lines_that(lines, weak_rule())
    } else {
        strong
    }
}

/// The name of the text before the first heading.
pub open spec fn preface_name(mode: SplitMode, book: Seq<char>) -> Seq<char> {
    if mode == SplitMode::Auto {
        book
    } else {
        "前言"@
    }
}

/// The name of a book without headings.
pub open spec fn whole_name(mode: SplitMode, book: Seq<char>) -> Seq<char> {
    if mode == SplitMode::Auto {
        book
    } else {
        "全文"@
    }
}

/// A chapter whose word count is that of its content.
pub open spec fn counted(index: nat, name: Seq<char>, content: Seq<char>) -> ChapterView {
    ChapterView { index, name, word_count: text::words(content), content }
}

/// The name of the chapter under a heading line.
pub open spec fn title(line: Seq<char>) -> Seq<char> {
    let t = text::trim(line);
    if t.len() > headings::MAX_HEADING_LEN {
        t.take(headings::MAX_HEADING_LEN as int)
    } else {
        t
    }
}

/// The line at which the `k`-th heading's chapter ends.
pub open spec fn block_end(lines: Seq<Seq<char>>, hs: Seq<int>, k: int) -> int {
    if k + 1 < hs.len() {
        hs[k + 1]
    } else {
        lines.len() as int
    }
}

/// The text from the `k`-th heading up to the next.
pub open spec fn block(lines: Seq<Seq<char>>, hs: Seq<int>, k: int) -> Seq<char> {
    text::join(lines.subrange(hs[k], block_end(lines, hs, k)), '\n')
}

/// The text before the first heading.
pub open spec fn front_matter(lines: Seq<Seq<char>>, hs: Seq<int>) -> Seq<char> {
    text::join(lines.take(hs[0]), '\n')
}

/// The text before the first heading is a chapter of its own where it is not blank.
pub open spec fn has_preface(lines: Seq<Seq<char>>, hs: Seq<int>) -> bool {
    hs[0] > 0 && text::trim(front_matter(lines, hs)).len() > 0
}

/// The chapters between the headings `hs`, with the preface first where there is one.
pub open spec fn by_headings(
    lines: Seq<Seq<char>>,
    hs: Seq<int>,
    preface: Seq<char>,
) -> Seq<ChapterView> {
    if has_preface(lines, hs) {
        seq![counted(0, preface, front_matter(lines, hs))] + Seq::new(
            hs.len(),
            |k: int| counted((k + 1) as nat, title(lines[hs[k]]), block(lines, hs, k)),
        )
    } else {
        Seq::new(
            hs.len(),
            |k: int| counted(k as nat, title(lines[hs[k]]), block(lines, hs, k)),
        )
    }
}

/// `s` cut into runs of `n` characters, each trimmed, the blank ones left out.
pub open spec fn cuts(s: Seq<char>, n: nat) -> Seq<Seq<char>>
    decreases s.len(),
{
    if s.len() == 0 || n == 0 {
        Seq::empty()
    } else {
        let m = if n < s.len() {
            n as int
        } else {
            s.len() as int
        };
        let piece = text::trim(s.take(m));
        if piece.len() > 0 {
            seq![piece] + cuts(s.skip(m), n)
        } else {
            cuts(s.skip(m), n)
        }
    }
}

/// `第 N 章`.
pub open spec fn ordinal_name(n: nat) -> Seq<char> {
    "第 "@ + text::decimal(n) + " 章"@
}

/// The chapters of `n` characters each.
pub open spec fn by_word_count(s: Seq<char>, n: nat) -> Seq<ChapterView> {
    let pieces = cuts(s, n);
    if pieces.len() == 0 {
        seq![ChapterView { index: 0, name: "全文"@, word_count: 0, content: s }]
    } else {
        Seq::new(
            pieces.len(),
            |i: int|
                ChapterView {
                    index: i as nat,
                    name: ordinal_name((i + 1) as nat),
                    word_count: pieces[i].len(),
                    content: pieces[i],
                },
        )
    }
}

/// The chapters of a book.
pub open spec fn book_chapters(
    raw: Seq<char>,
    book: Seq<char>,
    opts: SplitOptionsView,
) -> Seq<ChapterView> {
    let whole = normalized(raw);
    if opts.mode == SplitMode::ByWordCount {
        by_word_count(
            whole,
            if opts.words_per_chapter == 0 {
                1
            } else {
                opts.words_per_chapter
            },
        )
    } else {
        let lines = text::split_on(whole, '\n');
        let hs = heading_lines(lines, opts.mode, opts.keyword);
        if hs.len() == 0 {
            seq![counted(0, whole_name(opts.mode, book), whole)]
        } else {
            by_headings(lines, hs, preface_name(opts.mode, book))
        }
    }
}

/// The word counts of the chapters, added up.
pub open spec fn total_words(cs: Seq<ChapterView>) -> nat
    decreases cs.len(),
{
    if cs.len() == 0 {
        0
    } else {
        total_words(cs.drop_last()) + cs.last().word_count
    }
}

/// Adds up the word counts of chapters.
pub fn sum_words(cs: &Vec<Chapter>) -> (n: usize)
    requires
        total_words(chapter_views(cs@)) <= usize::MAX,
    ensures
        n == total_words(chapter_views(cs@)),
{
    let ghost all = chapter_views(cs@);
    let mut n: usize = 0;
    let mut i: usize = 0;
    while i < cs.len()
        invariant
            i <= cs@.len(),
            all == chapter_views(cs@),
            n == total_words(all.take(i as int)),
            total_words(all) <= usize::MAX,
        decreases cs@.len() - i,
    {
        proof {
            assert(all.take(i + 1).drop_last() =~= all.take(i as int));
            lemma_total_grows(all, i + 1);
        }
        n += cs[i].word_count;
        i += 1;
    }
    assert(all.take(i as int) =~= all);
    n
}

/// The first chapters have no more words than all.
proof fn lemma_total_grows(cs: Seq<ChapterView>, n: int)
    requires
        0 <= n <= cs.len(),
    ensures
        total_words(cs.take(n)) <= total_words(cs),
    decreases cs.len(),
{
    if n < cs.len() {
        lemma_total_grows(cs.drop_last(), n);
        assert(cs.drop_last().take(n) =~= cs.take(n));
    } else {
        assert(cs.take(n) =~= cs);
    }
}

// ---------------------------------------------------------------- splitting

/// The number of characters of `s` that are not whitespace.
pub fn count_words(s: &str) -> (n: usize)
    ensures
        n == text::words(s@),
{
    text::word_total(text::chars_of(s).as_slice())
}

/// Writes every line end as `\n`.
fn normalize(raw: &str) -> (r: String)
    ensures
        r@ == normalized(raw@),
{
    let cs = text::chars_of(raw);
    let mut out = String::new();
    let mut i: usize = 0;
    while i < cs.len()
        invariant
            i <= cs@.len(),
            out@ == normalized(cs@.take(i as int)),
        decreases cs@.len() - i,
    {
        assert(cs@.take(i + 1).drop_last() =~= cs@.take(i as int));
        if cs[i] == '\n' && i > 0 && cs[i - 1] == '\r' {
        } else if cs[i] == '\r' {
            out.push('\n');
        } else {
            out.push(cs[i]);
        }
        i += 1;
    }
    assert(cs@.take(i as int) =~= raw@);
    out
}

/// The positions of the headings under the rule of the mode.
fn find_headings(lines: &Vec<String>, opts: &SplitOptions) -> (r: Vec<usize>)
    ensures
        r@.map_values(|i: usize| i as int) == lines_that(
            text::texts(lines@),
            mode_rule(opts.mode, opts.keyword@),
        ),
{
    let ghost all = text::texts(lines@);
    let ghost rule = mode_rule(opts.mode, opts.keyword@);
    let mut out: Vec<usize> = Vec::new();
    let mut i: usize = 0;
    assert(out@.map_values(|i: usize| i as int) =~= lines_that(all.take(0), rule));
    while i < lines.len()
        invariant
            i <= lines@.len(),
            all == text::texts(lines@),
            rule == mode_rule(opts.mode, opts.keyword@),
            out@.map_values(|i: usize| i as int) == lines_that(all.take(i as int), rule),
        decreases lines@.len() - i,
    {
        assert(all.take(i + 1).drop_last() =~= all.take(i as int));
        let ghost before = out@;
        if headings::line_is_heading(opts.mode, lines[i].as_str(), opts) {
            assert(rule(all[i as int]));
            out.push(i);
            assert(out@.map_values(|i: usize| i as int) =~= before.map_values(
                |i: usize| i as int,
            ).push(i as int));
        }
        i += 1;
    }
    assert(all.take(i as int) =~= all);
    out
}

/// The positions of the headings where bare numbers count too.
fn find_weak_headings(lines: &Vec<String>) -> (r: Vec<usize>)
    ensures
        r@.map_values(|i: usize| i as int) == lines_that(text::texts(lines@), weak_rule()),
{
    let ghost all = text::texts(lines@);
    let ghost rule = weak_rule();
    let mut out: Vec<usize> = Vec::new();
    let mut i: usize = 0;
    assert(out@.map_values(|i: usize| i as int) =~= lines_that(all.take(0), rule));
    while i < lines.len()
        invariant
            i <= lines@.len(),
            all == text::texts(lines@),
            rule == weak_rule(),
            out@.map_values(|i: usize| i as int) == lines_that(all.take(i as int), rule),
        decreases lines@.len() - i,
    {
        assert(all.take(i + 1).drop_last() =~= all.take(i as int));
        let ghost before = out@;
        let line = lines[i].as_str();
        let t = text::trimmed(line);
        if headings::heading_ok(line) && (headings::is_strong_heading(t.as_str())
            || headings::is_weak_heading(t.as_str())) {
            assert(rule(all[i as int]));
            out.push(i);
            assert(out@.map_values(|i: usize| i as int) =~= before.map_values(
                |i: usize| i as int,
            ).push(i as int));
        }
        i += 1;
    }
    assert(all.take(i as int) =~= all);
    out
}

/// The positions that meet a rule are positions, in rising order, and meet it;
/// and no other line does.
pub proof fn lemma_lines_that(lines: Seq<Seq<char>>, rule: spec_fn(Seq<char>) -> bool)
    ensures
        forall|k: int|
            0 <= k < lines_that(lines, rule).len() ==> 0 <= (#[trigger] lines_that(lines, rule)[k])
                < lines.len() && rule(lines[lines_that(lines, rule)[k]]),
        forall|j: int, k: int|
            0 <= j < k < lines_that(lines, rule).len() ==> (#[trigger] lines_that(lines, rule)[j])
                < (#[trigger] lines_that(lines, rule)[k]),
        forall|i: int|
            0 <= i < lines.len() && rule(#[trigger] lines[i]) ==> lines_that(
                lines,
                rule,
            ).contains(i),
    decreases lines.len(),
{
    if lines.len() > 0 {
        lemma_lines_that(lines.drop_last(), rule);
        let before = lines_that(lines.drop_last(), rule);
        let hs = lines_that(lines, rule);
        assert forall|k: int| 0 <= k < hs.len() implies 0 <= (#[trigger] hs[k]) < lines.len()
            && rule(lines[hs[k]]) by {
            if k < before.len() {
                assert(hs[k] == before[k]);
                assert(lines[before[k]] == lines.drop_last()[before[k]]);
            }
        }
        assert forall|j: int, k: int| 0 <= j < k < hs.len() implies (#[trigger] hs[j])
            < (#[trigger] hs[k]) by {
            assert(hs[j] == before[j]);
            if k < before.len() {
                assert(hs[k] == before[k]);
            }
        }
        assert forall|i: int| 0 <= i < lines.len() && rule(#[trigger] lines[i]) implies hs.contains(
            i,
        ) by {
            if i < lines.len() - 1 {
                assert(lines.drop_last()[i] == lines[i]);
                assert(before.contains(i));
                let k = choose|k: int| 0 <= k < before.len() && before[k] == i;
                assert(hs[k] == i);
            } else {
                assert(hs[hs.len() - 1] == i);
            }
        }
    }
}

/// The heading positions are positions, in rising order, of lines that are not blank.
pub proof fn lemma_heading_lines(lines: Seq<Seq<char>>, mode: SplitMode, keyword: Seq<char>)
    ensures
        forall|k: int|
            0 <= k < heading_lines(lines, mode, keyword).len() ==> 0 <= (#[trigger] heading_lines(
                lines,
                mode,
                keyword,
            )[k]) < lines.len() && text::trim(
                lines[heading_lines(lines, mode, keyword)[k]],
            ).len() > 0,
        forall|j: int, k: int|
            0 <= j < k < heading_lines(lines, mode, keyword).len() ==> (#[trigger] heading_lines(
                lines,
                mode,
                keyword,
            )[j]) < (#[trigger] heading_lines(lines, mode, keyword)[k]),
{
    lemma_lines_that(lines, mode_rule(mode, keyword));
    lemma_lines_that(lines, weak_rule());
    let hs = heading_lines(lines, mode, keyword);
    assert forall|k: int| 0 <= k < hs.len() implies 0 <= (#[trigger] hs[k]) < lines.len()
        && text::trim(lines[hs[k]]).len() > 0 by {
        if mode == SplitMode::Auto && lines_that(lines, mode_rule(mode, keyword)).len() == 0 {
            assert(hs[k] == lines_that(lines, weak_rule())[k]);
        } else {
            assert(hs[k] == lines_that(lines, mode_rule(mode, keyword))[k]);
        }
    }
}

/// The name of the chapter under a heading line.
fn heading_title(line: &str) -> (r: String)
    ensures
        r@ == title(line@),
{
    let cs = text::chars_of(line);
    let t = text::trim_chars(cs.as_slice());
    if t.len() > headings::MAX_HEADING_LEN {
        text::string_of(vstd::slice::slice_subrange(t, 0, headings::MAX_HEADING_LEN))
    } else {
        text::string_of(t)
    }
}

/// A chapter with its words counted.
fn new_chapter(index: usize, name: String, content: String) -> (r: Chapter)
    ensures
        r@ == counted(index as nat, name@, content@),
{
    let word_count = count_words(content.as_str());
    Chapter { index, name, word_count, content }
}

/// Splits a book into chapters with the options of a new window.
pub fn split_chapters(raw_text: &str, book_name: &str) -> (r: Vec<Chapter>)
    ensures
        chapter_views(r@) == book_chapters(raw_text@, book_name@, SplitOptions::initial()),
{
    split_chapters_with(raw_text, book_name, &SplitOptions::default())
}

/// Splits a book into chapters.
///
/// By word count, every chapter has the given number of characters and is named
/// `第 N 章`. Otherwise a chapter runs from one heading to the next; text before
/// the first heading is a preface, and a book without headings is one chapter.
pub fn split_chapters_with(raw_text: &str, book_name: &str, opts: &SplitOptions) -> (r: Vec<
    Chapter,
>)
    ensures
        chapter_views(r@) == book_chapters(raw_text@, book_name@, opts@),
{
    let whole = normalize(raw_text);
    if opts.mode == SplitMode::ByWordCount {
        let n = if opts.words_per_chapter == 0 {
            1
        } else {
            opts.words_per_chapter
        };
        return split_by_word_count(whole.as_str(), n);
    }
    let lines = text::split_text(whole.as_str(), '\n');
    let strong = find_headings(&lines, opts);
    let found = if opts.mode == SplitMode::Auto && strong.len() == 0 {
        find_weak_headings(&lines)
    } else {
        strong
    };
    let ghost all = text::split_on(whole@, '\n');
    let ghost hs = heading_lines(all, opts.mode, opts.keyword@);
    assert(found@.map_values(|i: usize| i as int) == hs);
    proof {
        lemma_heading_lines(all, opts.mode, opts.keyword@);
        assert forall|k: int| 0 <= k < found@.len() implies (#[trigger] found@[k]) as int
            == hs[k] by {
            assert(found@.map_values(|i: usize| i as int)[k] == found@[k] as int);
        }
    }
    let mut out: Vec<Chapter> = Vec::new();
    if found.len() == 0 {
        let name = if opts.mode == SplitMode::Auto {
            book_name.to_owned()
        } else {
            "全文".to_owned()
        };
        out.push(new_chapter(0, name, whole));
        assert(chapter_views(out@) =~= seq![counted(0, whole_name(opts.mode, book_name@), whole@)]);
        return out;
    }
    if found[0] > 0 {
        let front = text::join_texts(&lines, 0, found[0], '\n');
        assert(all.subrange(0, hs[0]) =~= all.take(hs[0]));
        let blank = text::trim_chars(text::chars_of(front.as_str()).as_slice()).len() == 0;
        if !blank {
            let name = if opts.mode == SplitMode::Auto {
                book_name.to_owned()
            } else {
                "前言".to_owned()
            };
            out.push(new_chapter(0, name, front));
        }
    }
    let ghost shift: nat = out@.len();
    let ghost expected = by_headings(all, hs, preface_name(opts.mode, book_name@));
    assert(chapter_views(out@) =~= expected.take(shift as int));
    let mut k: usize = 0;
    while k < found.len()
        invariant
            k <= found@.len(),
            found@.len() == hs.len(),
            hs.len() > 0,
            hs == heading_lines(all, opts.mode, opts.keyword@),
            all == text::texts(lines@),
            forall|j: int| 0 <= j < found@.len() ==> (#[trigger] found@[j]) as int == hs[j],
            forall|j: int| 0 <= j < hs.len() ==> 0 <= (#[trigger] hs[j]) < all.len(),
            forall|i: int, j: int|
                0 <= i < j < hs.len() ==> (#[trigger] hs[i]) < (#[trigger] hs[j]),
            shift == (if has_preface(all, hs) {
                1nat
            } else {
                0nat
            }),
            out@.len() == shift + k,
            expected == by_headings(all, hs, preface_name(opts.mode, book_name@)),
            chapter_views(out@) == expected.take(shift + k),
        decreases found@.len() - k,
    {
        let start = found[k];
        let end = if k + 1 < found.len() {
            found[k + 1]
        } else {
            lines.len()
        };
        assert(start as int == hs[k as int]);
        assert(end as int == block_end(all, hs, k as int));
        assert(start < end);
        let name = heading_title(lines[start].as_str());
        let content = text::join_texts(&lines, start, end, '\n');
        let ghost before = out@;
        let index = out.len();
        out.push(new_chapter(index, name, content));
        assert(chapter_views(out@) =~= chapter_views(before).push(expected[shift + k]));
        assert(expected.take(shift + k + 1) =~= expected.take(shift + k).push(expected[shift + k]));
        k += 1;
    }
    assert(expected.take(shift + k) =~= expected);
    out
}

/// `第 N 章`.
fn ordinal_title(n: u64) -> (r: String)
    ensures
        r@ == ordinal_name(n as nat),
{
    let mut out = "第 ".to_owned();
    out.append(text::decimal_text(n).as_str());
    out.append(" 章");
    out
}

/// Splits a text into chapters of a fixed number of characters. Blank stretches
/// make no chapter, and a blank text is one chapter as it stands.
pub fn split_by_word_count(text: &str, words_per_chapter: usize) -> (r: Vec<Chapter>)
    requires
        words_per_chapter > 0,
    ensures
        chapter_views(r@) == by_word_count(text@, words_per_chapter as nat),
{
    let chars = crate::text::chars_of(text);
    let n = words_per_chapter;
    let mut out: Vec<Chapter> = Vec::new();
    let mut start: usize = 0;
    let ghost pieces = cuts(text@, n as nat);
    assert(text@.skip(0) =~= text@);
    assert(chapter_views(out@) =~= Seq::<ChapterView>::empty());
    while start < chars.len()
        invariant
            start <= chars@.len(),
            chars@ == text@,
            n == words_per_chapter,
            n > 0,
            pieces == cuts(text@, n as nat),
            out@.len() <= start,
            out@.len() <= pieces.len(),
            pieces.skip(out@.len() as int) == cuts(text@.skip(start as int), n as nat),
            forall|i: int|
                0 <= i < out@.len() ==> (#[trigger] out@[i])@ == (ChapterView {
                    index: i as nat,
                    name: ordinal_name((i + 1) as nat),
                    word_count: pieces[i].len(),
                    content: pieces[i],
                }),
        decreases chars@.len() - start,
    {
        let end = if n < chars.len() - start {
            start + n
        } else {
            chars.len()
        };
        let cut = vstd::slice::slice_subrange(chars.as_slice(), start, end);
        let piece = crate::text::trim_chars(cut);
        let ghost rest = text@.skip(start as int);
        let ghost done = out@.len() as int;
        proof {
            assert(cut@ =~= rest.take(end - start));
            assert(rest.skip(end - start) =~= text@.skip(end as int));
            crate::text::lemma_trim(cut@);
        }
        if piece.len() > 0 {
            let content = crate::text::string_of(piece);
            let name = ordinal_title(out.len() as u64 + 1);
            let ghost tail = cuts(text@.skip(end as int), n as nat);
            assert(cuts(rest, n as nat) == seq![piece@] + tail);
            assert(pieces.skip(done)[0] == piece@);
            assert(pieces.skip(done + 1) =~= pieces.skip(done).skip(1));
            assert((seq![piece@] + tail).skip(1) =~= tail);
            out.push(
                Chapter { index: out.len(), name, word_count: piece.len(), content },
            );
        }
        start = end;
    }
    assert(text@.skip(start as int) =~= Seq::<char>::empty());
    assert(pieces.skip(out@.len() as int).len() == 0);
    assert(out@.len() == pieces.len());
    if out.len() == 0 {
        out.push(
            Chapter { index: 0, name: "全文".to_owned(), word_count: 0, content: text.to_owned() },
        );
    }
    assert(chapter_views(out@) =~= by_word_count(text@, n as nat));
    out
}

// ---------------------------------------------------------------- chunks

/// `chunks` is `content` in order, each chunk as long as the byte budget allows:
/// a chunk exceeds the budget only where its one character does, and no chunk
/// could have taken the first character of the next.
pub open spec fn chunked(chunks: Seq<Seq<char>>, content: Seq<char>, max_bytes: nat) -> bool {
    if content.len() == 0 {
        chunks == seq![Seq::<char>::empty()]
    } else {
        &&& text::concat(chunks) == content
        &&& forall|i: int|
            0 <= i < chunks.len() ==> 0 < (#[trigger] chunks[i]).len() && (chunks[i].len() == 1
                || text::text_bytes(chunks[i]) <= max_bytes)
        &&& forall|i: int, j: int|
            0 <= i && j == i + 1 && j < chunks.len() ==> text::text_bytes(#[trigger] chunks[i])
                + text::char_bytes((#[trigger] chunks[j])[0]) > max_bytes
    }
}

/// The chunks of a content under a byte budget.
pub open spec fn chunks_of(content: Seq<char>, max_bytes: nat) -> Seq<Seq<char>> {
    choose|chunks: Seq<Seq<char>>| chunked(chunks, content, max_bytes)
}

/// Cuts a text into chunks of at most `max_bytes` bytes of UTF-8, without
/// breaking a character. An empty text is one empty chunk.
pub fn split_into_chunks(content: &str, max_bytes: usize) -> (r: Vec<String>)
    ensures
        chunked(text::texts(r@), content@, max_bytes as nat),
        text::texts(r@) == chunks_of(content@, max_bytes as nat),
        r@.len() > 0,
{
    let r = cut_chunks(content, max_bytes);
    proof {
        chunks_restore_the_content(text::texts(r@), content@, max_bytes as nat);
        chunks_are_determined(
            text::texts(r@),
            chunks_of(content@, max_bytes as nat),
            content@,
            max_bytes as nat,
        );
    }
    r
}

fn cut_chunks(content: &str, max_bytes: usize) -> (r: Vec<String>)
    ensures
        chunked(text::texts(r@), content@, max_bytes as nat),
{
    broadcast use text::lemma_texts_push;

    let mut chunks: Vec<String> = Vec::new();
    let mut cur = String::new();
    let mut cur_bytes: usize = 0;
    if content.is_empty() {
        chunks.push(cur);
        assert(text::texts(chunks@) =~= seq![Seq::<char>::empty()]);
        return chunks;
    }
    let cs = text::chars_of(content);
    let mut i: usize = 0;
    assert(cs@.take(0) =~= Seq::<char>::empty());
    while i < cs.len()
        invariant
            i <= cs@.len(),
            cs@ == content@,
            cur_bytes == text::text_bytes(cur@),
            cur@.len() > 0 <==> i > 0,
            cur@.len() <= 1 ==> cur_bytes <= 4,
            cur@.len() > 1 ==> cur_bytes <= max_bytes,
            text::concat(text::texts(chunks@)) + cur@ == cs@.take(i as int),
            forall|k: int|
                0 <= k < chunks@.len() ==> 0 < (#[trigger] text::texts(chunks@)[k]).len() && (
                text::texts(chunks@)[k].len() == 1 || text::text_bytes(text::texts(chunks@)[k])
                    <= max_bytes),
            forall|k: int, j: int|
                0 <= k && j == k + 1 && j < chunks@.len() ==> text::text_bytes(
                    #[trigger] text::texts(chunks@)[k],
                ) + text::char_bytes((#[trigger] text::texts(chunks@)[j])[0]) > max_bytes,
            chunks@.len() > 0 && cur@.len() > 0 ==> text::text_bytes(text::texts(chunks@).last())
                + text::char_bytes(cur@[0]) > max_bytes,
        decreases cs@.len() - i,
    {
        broadcast use text::lemma_texts_push;

        let c = cs[i];
        let b = text::len_utf8(c);
        let ghost before = text::texts(chunks@);
        if i > 0 && (b > max_bytes || cur_bytes > max_bytes - b) {
            let ghost full = cur@;
            chunks.push(cur);
            cur = String::new();
            cur_bytes = 0;
            assert(text::text_bytes(cur@) == 0);
            assert(text::texts(chunks@) == before.push(full));
            assert(before.push(full).drop_last() =~= before);
            assert(text::concat(text::texts(chunks@)) == text::concat(before) + full);
            assert forall|k: int, j: int|
                0 <= k && j == k + 1 && j < chunks@.len() implies text::text_bytes(
                #[trigger] text::texts(chunks@)[k],
            ) + text::char_bytes((#[trigger] text::texts(chunks@)[j])[0]) > max_bytes by {
                assert(text::texts(chunks@)[k] == before[k]);
                if j < before.len() {
                    assert(text::texts(chunks@)[j] == before[j]);
                }
            }
        }
        let ghost whole = text::concat(text::texts(chunks@)) + cur@;
        let ghost part = cur@;
        cur.push(c);
        cur_bytes += b;
        assert(cur@.drop_last() =~= part);
        assert(text::concat(text::texts(chunks@)) + cur@ =~= whole.push(c));
        assert(cs@.take(i + 1) =~= cs@.take(i as int).push(c));
        i += 1;
    }
    let ghost before = text::texts(chunks@);
    let ghost full = cur@;
    chunks.push(cur);
    assert(text::texts(chunks@) == before.push(full));
    assert(before.push(full).drop_last() =~= before);
    assert(cs@.take(i as int) =~= content@);
    assert forall|k: int, j: int|
        0 <= k && j == k + 1 && j < chunks@.len() implies text::text_bytes(
        #[trigger] text::texts(chunks@)[k],
    ) + text::char_bytes((#[trigger] text::texts(chunks@)[j])[0]) > max_bytes by {
        assert(text::texts(chunks@)[k] == before[k]);
        if j < before.len() {
            assert(text::texts(chunks@)[j] == before[j]);
        }
    }
    chunks
}

/// A concatenation begins with its first piece.
pub proof fn lemma_concat_first(pieces: Seq<Seq<char>>)
    requires
        pieces.len() > 0,
    ensures
        text::concat(pieces) == pieces[0] + text::concat(pieces.skip(1)),
    decreases pieces.len(),
{
    if pieces.len() == 1 {
        assert(pieces.drop_last() =~= Seq::empty());
        assert(pieces.skip(1) =~= Seq::empty());
        assert(text::concat(pieces.drop_last()) =~= Seq::<char>::empty());
        assert(text::concat(pieces.skip(1)) =~= Seq::<char>::empty());
        assert(text::concat(pieces) =~= pieces[0]);
        assert(pieces[0] + text::concat(pieces.skip(1)) =~= pieces[0]);
    } else {
        lemma_concat_first(pieces.drop_last());
        assert(pieces.drop_last().skip(1) =~= pieces.skip(1).drop_last());
        assert(text::concat(pieces) =~= pieces[0] + text::concat(pieces.skip(1)));
    }
}

/// The chunks put together are the content: nothing is lost, added or reordered.
pub proof fn chunks_restore_the_content(
    chunks: Seq<Seq<char>>,
    content: Seq<char>,
    max_bytes: nat,
)
    requires
        chunked(chunks, content, max_bytes),
    ensures
        text::concat(chunks) == content,
        chunks.len() > 0,
{
    if content.len() == 0 {
        assert(chunks.drop_last() =~= Seq::empty());
        assert(text::concat(chunks.drop_last()).len() == 0);
        assert(text::concat(chunks) =~= content);
    } else if chunks.len() == 0 {
        assert(text::concat(chunks).len() == 0);
    }
}

/// With a budget that fits any character, every chunk stays within it.
pub proof fn chunks_fit_the_budget(
    chunks: Seq<Seq<char>>,
    content: Seq<char>,
    max_bytes: nat,
    i: int,
)
    requires
        chunked(chunks, content, max_bytes),
        max_bytes >= 4,
        0 <= i < chunks.len(),
    ensures
        vstd::utf8::encode_utf8(chunks[i]).len() <= max_bytes,
{
    text::lemma_text_bytes_encode(chunks[i]);
    if content.len() > 0 && chunks[i].len() == 1 {
        let c = chunks[i];
        assert(c.drop_last() =~= Seq::<char>::empty());
        assert(text::text_bytes(c.drop_last()) == 0);
    }
}

/// A longer prefix takes more bytes.
proof fn lemma_text_bytes_prefix(s: Seq<char>, n: int)
    requires
        0 <= n <= s.len(),
    ensures
        text::text_bytes(s.take(n)) <= text::text_bytes(s),
{
    assert(s =~= s.take(n) + s.skip(n));
    text::lemma_text_bytes_concat(s.take(n), s.skip(n));
}

/// Where two greedy cuts of one content begin, neither first chunk is shorter.
proof fn lemma_first_chunk(
    a: Seq<Seq<char>>,
    b: Seq<Seq<char>>,
    content: Seq<char>,
    max_bytes: nat,
)
    requires
        content.len() > 0,
        chunked(a, content, max_bytes),
        chunked(b, content, max_bytes),
    ensures
        a.len() > 0,
        b.len() > 0,
        a[0].len() >= b[0].len(),
{
    chunks_restore_the_content(a, content, max_bytes);
    chunks_restore_the_content(b, content, max_bytes);
    lemma_concat_first(a);
    lemma_concat_first(b);
    if a[0].len() < b[0].len() {
        if a.len() == 1 {
            assert(a.skip(1) =~= Seq::empty());
            assert(text::concat(a.skip(1)).len() == 0);
        } else {
            lemma_concat_first(a.skip(1));
            let n = a[0].len() as int;
            assert(a.skip(1)[0] == a[1]);
            assert(content[n] == a[1][0]);
            assert(a[0] =~= content.take(n));
            assert(b[0] =~= content.take(b[0].len() as int));
            assert(b[0].take(n + 1) =~= a[0].push(a[1][0]));
            assert(a[0].push(a[1][0]).drop_last() =~= a[0]);
            lemma_text_bytes_prefix(b[0], n + 1);
        }
    }
}

/// Every content can be cut into chunks.
pub proof fn chunks_exist(content: Seq<char>, max_bytes: nat)
    ensures
        chunked(chunks_of(content, max_bytes), content, max_bytes),
    decreases content.len(),
{
    if content.len() == 0 {
        assert(chunked(seq![Seq::<char>::empty()], content, max_bytes));
    } else {
        let before = content.drop_last();
        let c = content.last();
        assert(before.push(c) =~= content);
        if before.len() == 0 {
            let all = seq![content];
            assert(all.drop_last() =~= Seq::<Seq<char>>::empty());
            reveal_with_fuel(text::concat, 2);
            assert(Seq::<char>::empty() + content =~= content);
            assert(chunked(all, content, max_bytes));
        } else {
            chunks_exist(before, max_bytes);
            let old_chunks = chunks_of(before, max_bytes);
            chunks_restore_the_content(old_chunks, before, max_bytes);
            let front = old_chunks.drop_last();
            let full = old_chunks.last();
            assert(front.push(full) =~= old_chunks);
            assert(old_chunks[old_chunks.len() - 1] == full);
            if text::text_bytes(full) + text::char_bytes(c) <= max_bytes {
                let all = front.push(full.push(c));
                assert(all.drop_last() =~= front);
                assert(text::concat(all) =~= content);
                assert(full.push(c).drop_last() =~= full);
                assert forall|i: int| 0 <= i < all.len() implies 0 < (#[trigger] all[i]).len() && (
                all[i].len() == 1 || text::text_bytes(all[i]) <= max_bytes) by {
                    if i < front.len() {
                        assert(all[i] == old_chunks[i]);
                    }
                }
                assert forall|i: int, j: int|
                    0 <= i && j == i + 1 && j < all.len() implies text::text_bytes(
                    #[trigger] all[i],
                ) + text::char_bytes((#[trigger] all[j])[0]) > max_bytes by {
                    assert(all[i] == old_chunks[i]);
                    assert(all[j][0] == old_chunks[j][0]);
                }
                assert(chunked(all, content, max_bytes));
            } else {
                let all = old_chunks.push(seq![c]);
                assert(all.drop_last() =~= old_chunks);
                assert(text::concat(all) =~= content);
                assert forall|i: int| 0 <= i < all.len() implies 0 < (#[trigger] all[i]).len() && (
                all[i].len() == 1 || text::text_bytes(all[i]) <= max_bytes) by {
                    if i < old_chunks.len() {
                        assert(all[i] == old_chunks[i]);
                    }
                }
                assert forall|i: int, j: int|
                    0 <= i && j == i + 1 && j < all.len() implies text::text_bytes(
                    #[trigger] all[i],
                ) + text::char_bytes((#[trigger] all[j])[0]) > max_bytes by {
                    assert(all[i] == old_chunks[i]);
                    if j < old_chunks.len() {
                        assert(all[j] == old_chunks[j]);
                    }
                }
                assert(chunked(all, content, max_bytes));
            }
        }
    }
}

/// The byte budget determines the chunks: a content has one such cut.
pub proof fn chunks_are_determined(
    a: Seq<Seq<char>>,
    b: Seq<Seq<char>>,
    content: Seq<char>,
    max_bytes: nat,
)
    requires
        chunked(a, content, max_bytes),
        chunked(b, content, max_bytes),
    ensures
        a == b,
    decreases content.len(),
{
    if content.len() > 0 {
        lemma_first_chunk(a, b, content, max_bytes);
        lemma_first_chunk(b, a, content, max_bytes);
        lemma_concat_first(a);
        lemma_concat_first(b);
        let n = a[0].len() as int;
        assert(a[0] =~= content.take(n));
        assert(b[0] =~= content.take(n));
        let rest = content.skip(n);
        assert(text::concat(a.skip(1)) =~= rest);
        assert(text::concat(b.skip(1)) =~= rest);
        if rest.len() == 0 {
            lemma_no_chunk_left(a.skip(1));
            lemma_no_chunk_left(b.skip(1));
            assert(a =~= b);
        } else {
            lemma_chunked_rest(a, content, max_bytes);
            lemma_chunked_rest(b, content, max_bytes);
            chunks_are_determined(a.skip(1), b.skip(1), rest, max_bytes);
            assert(a =~= seq![a[0]] + a.skip(1));
            assert(b =~= seq![b[0]] + b.skip(1));
        }
    }
}

/// Chunks that are not empty make no empty text.
proof fn lemma_no_chunk_left(chunks: Seq<Seq<char>>)
    requires
        text::concat(chunks).len() == 0,
        forall|i: int| 0 <= i < chunks.len() ==> 0 < (#[trigger] chunks[i]).len(),
    ensures
        chunks.len() == 0,
{
    if chunks.len() > 0 {
        assert(chunks[chunks.len() - 1].len() > 0);
    }
}

/// Without its first chunk a cut is a cut of the rest.
proof fn lemma_chunked_rest(chunks: Seq<Seq<char>>, content: Seq<char>, max_bytes: nat)
    requires
        chunked(chunks, content, max_bytes),
        content.len() > 0,
        chunks.len() > 0,
        text::concat(chunks.skip(1)) == content.skip(chunks[0].len() as int),
        content.skip(chunks[0].len() as int).len() > 0,
    ensures
        chunked(chunks.skip(1), content.skip(chunks[0].len() as int), max_bytes),
{
    let rest = chunks.skip(1);
    assert forall|i: int| 0 <= i < rest.len() implies 0 < (#[trigger] rest[i]).len() && (
    rest[i].len() == 1 || text::text_bytes(rest[i]) <= max_bytes) by {
        assert(rest[i] == chunks[i + 1]);
    }
    assert forall|i: int, j: int| 0 <= i && j == i + 1 && j < rest.len() implies text::text_bytes(
        #[trigger] rest[i],
    ) + text::char_bytes((#[trigger] rest[j])[0]) > max_bytes by {
        assert(rest[i] == chunks[i + 1]);
        assert(rest[j] == chunks[j + 1]);
    }
}

// ---------------------------------------------------------------- laws of the split

/// The contents of the chapters.
pub open spec fn contents(cs: Seq<ChapterView>) -> Seq<Seq<char>> {
    Seq::new(cs.len(), |i: int| cs[i].content)
}

/// The words of the texts, added up.
pub open spec fn words_of_all(pieces: Seq<Seq<char>>) -> nat
    decreases pieces.len(),
{
    if pieces.len() == 0 {
        0
    } else {
        words_of_all(pieces.drop_last()) + text::words(pieces.last())
    }
}

/// Writing line ends anew loses no word and lengthens nothing.
proof fn lemma_normalized(s: Seq<char>)
    ensures
        text::words(normalized(s)) == text::words(s),
        normalized(s).len() <= s.len(),
    decreases s.len(),
{
    if s.len() > 0 {
        let before = s.drop_last();
        lemma_normalized(before);
        if s.last() == '\n' && before.len() > 0 && before.last() == '\r' {
        } else {
            assert(normalized(s).drop_last() =~= normalized(before));
        }
    }
}

/// A joined text holds the words of its pieces.
proof fn lemma_words_join(pieces: Seq<Seq<char>>)
    ensures
        text::words(text::join(pieces, '\n')) == words_of_all(pieces),
    decreases pieces.len(),
{
    if pieces.len() == 1 {
        assert(pieces.drop_last() =~= Seq::empty());
        assert(words_of_all(pieces.drop_last()) == 0);
    } else if pieces.len() > 1 {
        lemma_words_join(pieces.drop_last());
        let front = text::join(pieces.drop_last(), '\n');
        assert(front.push('\n').drop_last() =~= front);
        text::lemma_words_concat(front.push('\n'), pieces.last());
    }
}

/// The first blocks joined are the lines up to the end of the last of them.
proof fn lemma_blocks_join(lines: Seq<Seq<char>>, hs: Seq<int>, n: int)
    requires
        0 < n <= hs.len(),
        forall|k: int| 0 <= k < hs.len() ==> 0 <= (#[trigger] hs[k]) < lines.len(),
        forall|j: int, k: int| 0 <= j < k < hs.len() ==> (#[trigger] hs[j]) < (#[trigger] hs[k]),
    ensures
        text::join(Seq::new(n as nat, |k: int| block(lines, hs, k)), '\n') == text::join(
            lines.subrange(hs[0], block_end(lines, hs, n - 1)),
            '\n',
        ),
        hs[0] < block_end(lines, hs, n - 1) <= lines.len(),
    decreases n,
{
    let blocks = Seq::new(n as nat, |k: int| block(lines, hs, k));
    if n > 1 {
        let front = Seq::new((n - 1) as nat, |k: int| block(lines, hs, k));
        lemma_blocks_join(lines, hs, n - 1);
        assert(blocks.drop_last() =~= front);
        let a = lines.subrange(hs[0], hs[n - 1]);
        let b = lines.subrange(hs[n - 1], block_end(lines, hs, n - 1));
        assert(block_end(lines, hs, n - 2) == hs[n - 1]);
        assert(lines.subrange(hs[0], block_end(lines, hs, n - 1)) =~= a + b);
        text::lemma_join_concat(a, b, '\n');
    }
}

/// The chapters under headings, joined, are the book's text, but for blank lines
/// before the first heading.
proof fn lemma_by_headings(lines: Seq<Seq<char>>, hs: Seq<int>, preface: Seq<char>)
    requires
        hs.len() > 0,
        forall|k: int| 0 <= k < hs.len() ==> 0 <= (#[trigger] hs[k]) < lines.len(),
        forall|j: int, k: int| 0 <= j < k < hs.len() ==> (#[trigger] hs[j]) < (#[trigger] hs[k]),
    ensures
        has_preface(lines, hs) || hs[0] == 0 ==> text::join(
            contents(by_headings(lines, hs, preface)),
            '\n',
        ) == text::join(lines, '\n'),
        !has_preface(lines, hs) && hs[0] > 0 ==> text::join(lines, '\n') == front_matter(
            lines,
            hs,
        ).push('\n') + text::join(contents(by_headings(lines, hs, preface)), '\n')
            && text::trim(front_matter(lines, hs)).len() == 0,
{
    let n = hs.len() as int;
    let blocks = Seq::new(n as nat, |k: int| block(lines, hs, k));
    lemma_blocks_join(lines, hs, n);
    let back = lines.subrange(hs[0], lines.len() as int);
    let cs = by_headings(lines, hs, preface);
    if hs[0] > 0 {
        assert(lines =~= lines.take(hs[0]) + back);
        text::lemma_join_concat(lines.take(hs[0]), back, '\n');
    } else {
        assert(back =~= lines);
    }
    if has_preface(lines, hs) {
        let front = seq![front_matter(lines, hs)];
        assert(contents(cs) =~= front + blocks);
        text::lemma_join_concat(front, blocks, '\n');
    } else {
        assert(contents(cs) =~= blocks);
    }
}

/// Splitting at headings keeps the text: the chapters joined by line ends are the
/// book, but for blank lines before the first heading.
pub proof fn chapters_restore_the_text(raw: Seq<char>, book: Seq<char>, opts: SplitOptionsView)
    requires
        opts.mode != SplitMode::ByWordCount,
    ensures
        ({
            let joined = text::join(contents(book_chapters(raw, book, opts)), '\n');
            ||| joined == normalized(raw)
            ||| exists|front: Seq<char>|
                text::trim(front).len() == 0 && normalized(raw) == #[trigger] front.push('\n')
                    + joined
        }),
{
    let whole = normalized(raw);
    let lines = text::split_on(whole, '\n');
    let hs = heading_lines(lines, opts.mode, opts.keyword);
    text::join_of_split(whole, '\n');
    let cs = book_chapters(raw, book, opts);
    if hs.len() == 0 {
        assert(contents(cs) =~= seq![whole]);
    } else {
        lemma_heading_lines(lines, opts.mode, opts.keyword);
        lemma_by_headings(lines, hs, preface_name(opts.mode, book));
    }
}

/// What the cuts hold: every word of the text, in pieces of at most `n`
/// characters, none of them blank.
proof fn lemma_cuts(s: Seq<char>, n: nat)
    requires
        n > 0,
    ensures
        words_of_all(cuts(s, n)) == text::words(s),
        forall|i: int| 0 <= i < cuts(s, n).len() ==> 0 < (#[trigger] cuts(s, n)[i]).len() <= n,
        text::concat(cuts(s, n)).len() <= s.len(),
    decreases s.len(),
{
    if s.len() > 0 {
        let m = if n < s.len() {
            n as int
        } else {
            s.len() as int
        };
        let piece = text::trim(s.take(m));
        let rest = cuts(s.skip(m), n);
        lemma_cuts(s.skip(m), n);
        text::lemma_trim(s.take(m));
        assert(s =~= s.take(m) + s.skip(m));
        text::lemma_words_concat(s.take(m), s.skip(m));
        if piece.len() > 0 {
            let all = seq![piece] + rest;
            lemma_words_of_all_first(all);
            lemma_concat_first(all);
            assert(all.skip(1) =~= rest);
            assert forall|i: int| 0 <= i < all.len() implies 0 < (#[trigger] all[i]).len() <= n by {
                if i > 0 {
                    assert(all[i] == rest[i - 1]);
                }
            }
        }
    }
}

/// The words of the first piece and of the others.
proof fn lemma_words_of_all_first(pieces: Seq<Seq<char>>)
    requires
        pieces.len() > 0,
    ensures
        words_of_all(pieces) == text::words(pieces[0]) + words_of_all(pieces.skip(1)),
    decreases pieces.len(),
{
    if pieces.len() == 1 {
        assert(pieces.drop_last() =~= Seq::empty());
        assert(pieces.skip(1) =~= Seq::empty());
        assert(words_of_all(pieces.drop_last()) == 0);
    } else {
        lemma_words_of_all_first(pieces.drop_last());
        assert(pieces.drop_last().skip(1) =~= pieces.skip(1).drop_last());
    }
}

/// No split loses a word: the chapters hold as many as the book.
pub proof fn no_word_is_lost(raw: Seq<char>, book: Seq<char>, opts: SplitOptionsView)
    ensures
        words_of_all(contents(book_chapters(raw, book, opts))) == text::words(raw),
{
    let whole = normalized(raw);
    let cs = book_chapters(raw, book, opts);
    lemma_normalized(raw);
    if opts.mode == SplitMode::ByWordCount {
        let n = if opts.words_per_chapter == 0 {
            1
        } else {
            opts.words_per_chapter
        };
        lemma_cuts(whole, n);
        if cuts(whole, n).len() == 0 {
            assert(contents(cs) =~= seq![whole]);
            lemma_words_of_all_first(contents(cs));
            assert(contents(cs).skip(1) =~= Seq::empty());
            assert(words_of_all(contents(cs).skip(1)) == 0);
        } else {
            assert(contents(cs) =~= cuts(whole, n));
        }
    } else {
        let joined = text::join(contents(cs), '\n');
        chapters_restore_the_text(raw, book, opts);
        lemma_words_join(contents(cs));
        if joined != whole {
            let front = choose|front: Seq<char>|
                text::trim(front).len() == 0 && whole == #[trigger] front.push('\n') + joined;
            text::lemma_trim(front);
            text::lemma_words_concat(front.push('\n'), joined);
            assert(front.push('\n').drop_last() =~= front);
        }
    }
}

/// The chapters are numbered from zero, and there is at least one.
pub proof fn chapters_are_numbered(raw: Seq<char>, book: Seq<char>, opts: SplitOptionsView)
    ensures
        book_chapters(raw, book, opts).len() > 0,
        forall|i: int|
            0 <= i < book_chapters(raw, book, opts).len() ==> (#[trigger] book_chapters(
                raw,
                book,
                opts,
            )[i]).index == i,
{
}

/// The word count of a chapter under headings is that of its content; by word
/// count it is the length of the content, and at most what was asked for.
pub proof fn word_counts_are_true(
    raw: Seq<char>,
    book: Seq<char>,
    opts: SplitOptionsView,
    i: int,
)
    requires
        0 <= i < book_chapters(raw, book, opts).len(),
    ensures
        opts.mode != SplitMode::ByWordCount ==> book_chapters(raw, book, opts)[i].word_count
            == text::words(book_chapters(raw, book, opts)[i].content),
        opts.mode == SplitMode::ByWordCount && text::words(raw) > 0 ==> {
            let c = book_chapters(raw, book, opts)[i];
            c.word_count == c.content.len() && 0 < c.word_count && (c.word_count
                <= opts.words_per_chapter || c.word_count == 1)
        },
{
    if opts.mode == SplitMode::ByWordCount {
        lemma_normalized(raw);
        lemma_cuts(
            normalized(raw),
            if opts.words_per_chapter == 0 {
                1
            } else {
                opts.words_per_chapter
            },
        );
    }
}

/// The name of a chapter under a heading is the heading line, trimmed and cut to
/// the longest length of a heading; it is never empty.
pub proof fn chapters_are_named_by_headings(
    raw: Seq<char>,
    book: Seq<char>,
    opts: SplitOptionsView,
    k: int,
)
    requires
        opts.mode != SplitMode::ByWordCount,
        ({
            let lines = text::split_on(normalized(raw), '\n');
            0 <= k < heading_lines(lines, opts.mode, opts.keyword).len()
        }),
    ensures
        ({
            let lines = text::split_on(normalized(raw), '\n');
            let hs = heading_lines(lines, opts.mode, opts.keyword);
            let cs = book_chapters(raw, book, opts);
            let c = cs[cs.len() - hs.len() + k];
            c.name == title(lines[hs[k]]) && 0 < c.name.len() <= headings::MAX_HEADING_LEN
        }),
{
    let lines = text::split_on(normalized(raw), '\n');
    lemma_heading_lines(lines, opts.mode, opts.keyword);
}

/// In the automatic mode bare numbers are headings only where no line is a strong one.
pub proof fn weak_headings_need_a_book_without_strong_ones(
    lines: Seq<Seq<char>>,
    keyword: Seq<char>,
    i: int,
)
    requires
        0 <= i < lines.len(),
        headings::heading_line(SplitMode::Auto, lines[i], keyword),
    ensures
        forall|k: int|
            0 <= k < heading_lines(lines, SplitMode::Auto, keyword).len() ==> headings::heading_line(
                SplitMode::Auto,
                lines[#[trigger] heading_lines(lines, SplitMode::Auto, keyword)[k]],
                keyword,
            ),
{
    let rule = mode_rule(SplitMode::Auto, keyword);
    lemma_lines_that(lines, rule);
    assert(rule(lines[i]));
    assert(lines_that(lines, rule).contains(i));
    assert forall|k: int| 0 <= k < heading_lines(lines, SplitMode::Auto, keyword).len() implies
        headings::heading_line(
        SplitMode::Auto,
        lines[#[trigger] heading_lines(lines, SplitMode::Auto, keyword)[k]],
        keyword,
    ) by {
        assert(rule(lines[lines_that(lines, rule)[k]]));
    }
}

/// Word counts add up to the counts of the contents where each is true.
proof fn lemma_total_words(cs: Seq<ChapterView>)
    requires
        forall|i: int|
            0 <= i < cs.len() ==> (#[trigger] cs[i]).word_count == text::words(cs[i].content),
    ensures
        total_words(cs) == words_of_all(contents(cs)),
    decreases cs.len(),
{
    if cs.len() > 0 {
        assert(contents(cs).drop_last() =~= contents(cs.drop_last()));
        lemma_total_words(cs.drop_last());
    }
}

/// Lengths add up to the length of the concatenation.
proof fn lemma_total_lengths(cs: Seq<ChapterView>)
    requires
        forall|i: int| 0 <= i < cs.len() ==> (#[trigger] cs[i]).word_count == cs[i].content.len(),
    ensures
        total_words(cs) == text::concat(contents(cs)).len(),
    decreases cs.len(),
{
    if cs.len() > 0 {
        assert(contents(cs).drop_last() =~= contents(cs.drop_last()));
        lemma_total_lengths(cs.drop_last());
    }
}

/// The word counts of a book add up to no more than its characters.
pub proof fn total_is_bounded(raw: Seq<char>, book: Seq<char>, opts: SplitOptionsView)
    ensures
        total_words(book_chapters(raw, book, opts)) <= raw.len(),
{
    let cs = book_chapters(raw, book, opts);
    lemma_normalized(raw);
    if opts.mode == SplitMode::ByWordCount {
        let n = if opts.words_per_chapter == 0 {
            1
        } else {
            opts.words_per_chapter
        };
        lemma_cuts(normalized(raw), n);
        if cuts(normalized(raw), n).len() == 0 {
            assert(cs.drop_last() =~= Seq::empty());
            assert(total_words(cs.drop_last()) == 0);
        } else {
            assert(contents(cs) =~= cuts(normalized(raw), n));
            lemma_total_lengths(cs);
        }
    } else {
        no_word_is_lost(raw, book, opts);
        text::lemma_words_bound(raw);
        lemma_total_words(cs);
    }
}

} // verus!
