//! Which lines of a book are chapter headings.
//!
//! Every rule is a predicate on the characters of a line. The rules use no
//! regular expressions: each is a walk over runs of characters of one class.
use crate::chapters::{SplitMode, SplitOptions};
use crate::text;
use vstd::prelude::*;

verus! {

/// The longest heading, in characters.
pub const MAX_HEADING_LEN: usize = 50;

/// How many characters may follow the heading proper on its line.
pub const TAIL_LIMIT: usize = 30;

/// The longest chapter number, in characters.
pub const MAX_NUMBER_LEN: usize = 20;

// ---------------------------------------------------------------- character classes

/// A character of a Chinese numeral, without the digits and without `两`.
pub open spec fn zh_num(c: char) -> bool {
    ||| c == '零'
    ||| c == '一'
    ||| c == '二'
    ||| c == '三'
    ||| c == '四'
    ||| c == '五'
    ||| c == '六'
    ||| c == '七'
    ||| c == '八'
    ||| c == '九'
    ||| c == '十'
    ||| c == '百'
    ||| c == '千'
    ||| c == '万'
    ||| c == '〇'
}

/// A character of a chapter number: a digit or a character of a Chinese numeral.
pub open spec fn cn_num(c: char) -> bool {
    text::ascii_digit(c) || zh_num(c) || c == '两'
}

/// A word for a part of a book: chapter, volume, section and so on.
pub open spec fn unit(c: char) -> bool {
    ||| c == '章'
    ||| c == '卷'
    ||| c == '节'
    ||| c == '部'
    ||| c == '篇'
    ||| c == '回'
    ||| c == '本'
    ||| c == '集'
}

/// A digit or a letter of a Roman numeral.
pub open spec fn roman_or_digit(c: char) -> bool {
    ||| text::ascii_digit(c)
    ||| c == 'I'
    ||| c == 'V'
    ||| c == 'X'
    ||| c == 'L'
    ||| c == 'C'
    ||| c == 'D'
    ||| c == 'M'
    ||| c == 'i'
    ||| c == 'v'
    ||| c == 'x'
    ||| c == 'l'
    ||| c == 'c'
    ||| c == 'd'
    ||| c == 'm'
}

/// What may separate a special chapter name from its title.
pub open spec fn separator(c: char) -> bool {
    ||| c == ' '
    ||| c == '\t'
    ||| c == '：'
    ||| c == ':'
    ||| c == '、'
    ||| c == '.'
    ||| c == '．'
    ||| c == '-'
    ||| c == '—'
}

/// The characters of chapter numbers, as a predicate.
pub open spec fn cn_nums() -> spec_fn(char) -> bool {
    |c: char| cn_num(c)
}

/// The characters of Chinese numerals, as a predicate.
pub open spec fn zh_nums() -> spec_fn(char) -> bool {
    |c: char| zh_num(c)
}

/// Digits and letters of Roman numerals, as a predicate.
pub open spec fn romans_or_digits() -> spec_fn(char) -> bool {
    |c: char| roman_or_digit(c)
}

/// The separators after special chapter names, as a predicate.
pub open spec fn separators() -> spec_fn(char) -> bool {
    |c: char| separator(c)
}

/// Tells whether `c` belongs to a Chinese numeral, digits and `两` left out.
fn is_zh_num(c: char) -> (r: bool)
    ensures
        r == zh_num(c),
{
    c == '零' || c == '一' || c == '二' || c == '三' || c == '四' || c == '五' || c == '六' || c
        == '七' || c == '八' || c == '九' || c == '十' || c == '百' || c == '千' || c == '万' || c
        == '〇'
}

/// Tells whether `c` may stand in a chapter number.
pub fn is_cn_num(c: char) -> (r: bool)
    ensures
        r == cn_num(c),
{
    text::is_ascii_digit(c) || is_zh_num(c) || c == '两'
}

/// Tells whether `c` names a part of a book.
pub fn is_unit(c: char) -> (r: bool)
    ensures
        r == unit(c),
{
    c == '章' || c == '卷' || c == '节' || c == '部' || c == '篇' || c == '回' || c == '本' || c
        == '集'
}

fn is_roman_or_digit(c: char) -> (r: bool)
    ensures
        r == roman_or_digit(c),
{
    text::is_ascii_digit(c) || c == 'I' || c == 'V' || c == 'X' || c == 'L' || c == 'C' || c == 'D'
        || c == 'M' || c == 'i' || c == 'v' || c == 'x' || c == 'l' || c == 'c' || c == 'd' || c
        == 'm'
}

fn is_separator(c: char) -> (r: bool)
    ensures
        r == separator(c),
{
    c == ' ' || c == '\t' || c == '：' || c == ':' || c == '、' || c == '.' || c == '．' || c == '-'
        || c == '—'
}

// ---------------------------------------------------------------- walking over runs

/// `s` after at most `limit` leading whitespace characters.
pub open spec fn after_spaces(s: Seq<char>, limit: nat) -> Seq<char> {
    s.skip(text::run(s, text::spaces(), limit) as int)
}

/// The length of the chapter number that `s` begins with.
pub open spec fn number_len(s: Seq<char>) -> nat {
    text::run(s, cn_nums(), MAX_NUMBER_LEN as nat)
}

/// `s` after the chapter number that it begins with.
pub open spec fn after_number(s: Seq<char>) -> Seq<char> {
    s.skip(number_len(s) as int)
}

/// `s` begins with a unit.
pub open spec fn unit_first(s: Seq<char>) -> bool {
    s.len() > 0 && unit(s[0])
}

/// `s` begins with a unit and what follows fits the tail.
pub open spec fn unit_and_tail(s: Seq<char>) -> bool {
    unit_first(s) && s.len() - 1 <= TAIL_LIMIT
}

/// Drops at most `n` leading whitespace characters.
pub fn eat_spaces(s: &[char], n: usize) -> (r: &[char])
    ensures
        r@ == after_spaces(s@, n as nat),
{
    text::tail(s, text::space_run(s, n))
}

/// Drops all leading whitespace.
pub fn eat_spaces_all(s: &[char]) -> (r: &[char])
    ensures
        r@ == after_spaces(s@, s@.len()),
{
    eat_spaces(s, s.len())
}

/// Drops the leading chapter number, and says how long it was: twenty characters
/// at most.
pub fn eat_number(s: &[char]) -> (r: (usize, &[char]))
    ensures
        r.0 == number_len(s@),
        r.1@ == after_number(s@),
{
    let mut n: usize = 0;
    while n < MAX_NUMBER_LEN && n < s.len() && is_cn_num(s[n])
        invariant
            n <= MAX_NUMBER_LEN,
            n <= s@.len(),
            forall|i: int| 0 <= i < n ==> cn_num(#[trigger] s@[i]),
        decreases s@.len() - n,
    {
        n += 1;
    }
    proof {
        assert forall|i: int| 0 <= i < n implies cn_nums()(#[trigger] s@[i]) by {}
        text::lemma_run_is(s@, cn_nums(), MAX_NUMBER_LEN as nat, n as nat);
    }
    (n, text::tail(s, n))
}

/// The number of leading digits and letters of Roman numerals.
fn roman_run(s: &[char]) -> (n: usize)
    ensures
        n == text::run(s@, romans_or_digits(), s@.len()),
{
    let mut n: usize = 0;
    while n < s.len() && is_roman_or_digit(s[n])
        invariant
            n <= s@.len(),
            forall|i: int| 0 <= i < n ==> roman_or_digit(#[trigger] s@[i]),
        decreases s@.len() - n,
    {
        n += 1;
    }
    proof {
        assert forall|i: int| 0 <= i < n implies romans_or_digits()(#[trigger] s@[i]) by {}
        text::lemma_run_is(s@, romans_or_digits(), s@.len(), n as nat);
    }
    n
}

/// The number of leading separators.
fn separator_run(s: &[char]) -> (n: usize)
    ensures
        n == text::run(s@, separators(), s@.len()),
        n <= s@.len(),
{
    let mut n: usize = 0;
    while n < s.len() && is_separator(s[n])
        invariant
            n <= s@.len(),
            forall|i: int| 0 <= i < n ==> separator(#[trigger] s@[i]),
        decreases s@.len() - n,
    {
        n += 1;
    }
    proof {
        assert forall|i: int| 0 <= i < n implies separators()(#[trigger] s@[i]) by {}
        text::lemma_run_is(s@, separators(), s@.len(), n as nat);
    }
    n
}

/// The number of leading characters of Chinese numerals.
fn zh_run(s: &[char]) -> (n: usize)
    ensures
        n == text::run(s@, zh_nums(), s@.len()),
        n <= s@.len(),
{
    let mut n: usize = 0;
    while n < s.len() && is_zh_num(s[n])
        invariant
            n <= s@.len(),
            forall|i: int| 0 <= i < n ==> zh_num(#[trigger] s@[i]),
        decreases s@.len() - n,
    {
        n += 1;
    }
    proof {
        assert forall|i: int| 0 <= i < n implies zh_nums()(#[trigger] s@[i]) by {}
        text::lemma_run_is(s@, zh_nums(), s@.len(), n as nat);
    }
    n
}

// ---------------------------------------------------------------- numbered headings

/// `第`, a number and a unit, with whitespace allowed between them.
pub open spec fn counted_unit(t: Seq<char>) -> bool {
    t.len() > 0 && t[0] == '第' && {
        let number = after_spaces(t.skip(1), (t.len() - 1) as nat);
        let rest = after_number(number);
        number_len(number) >= 1 && unit_first(after_spaces(rest, rest.len()))
    }
}

/// `word`, then a number of one to eight digits or Roman letters.
pub open spec fn word_and_number(t: Seq<char>, word: Seq<char>) -> bool {
    text::starts_with(t, word) && {
        let rest = t.skip(word.len() as int);
        let number = after_spaces(rest, rest.len());
        1 <= text::run(number, romans_or_digits(), number.len()) <= 8
    }
}

/// A numbered heading: `第X章` and its kin, or `Chapter N`.
pub open spec fn numbered_heading(t: Seq<char>) -> bool {
    ||| counted_unit(t)
    ||| word_and_number(t, "chapter"@)
    ||| word_and_number(t, "CHAPTER"@)
    ||| word_and_number(t, "Chapter"@)
}

/// What may follow a special chapter name: nothing, or separators and a short
/// title without whitespace.
pub open spec fn special_tail(rest: Seq<char>) -> bool {
    rest.len() == 0 || {
        let n = text::run(rest, separators(), rest.len());
        let title = rest.skip(n as int);
        n > 0 && title.len() <= 20 && forall|i: int|
            0 <= i < title.len() ==> !text::whitespace(#[trigger] title[i])
    }
}

/// The special chapter name `name`, and what may follow it.
pub open spec fn special_named(t: Seq<char>, name: Seq<char>) -> bool {
    text::starts_with(t, name) && special_tail(t.skip(name.len() as int))
}

/// A special chapter: a prologue, a preface, an epilogue and so on.
pub open spec fn special_heading(t: Seq<char>) -> bool {
    ||| special_named(t, "序章"@)
    ||| special_named(t, "序言"@)
    ||| special_named(t, "前言"@)
    ||| special_named(t, "引子"@)
    ||| special_named(t, "楔子"@)
    ||| special_named(t, "后记"@)
    ||| special_named(t, "尾声"@)
    ||| special_named(t, "终章"@)
    ||| special_named(t, "番外"@)
}

/// A heading that is recognised on its own.
pub open spec fn strong_heading(t: Seq<char>) -> bool {
    numbered_heading(t) || special_heading(t)
}

/// A bare number with a dot and a title, such as `1、开始`.
pub open spec fn weak_heading(t: Seq<char>) -> bool {
    let s = text::trim_start(t);
    let n = text::run(s, text::digits(), s.len());
    let rest = text::trim_start(s.skip(n as int));
    1 <= n <= 4 && rest.len() > 0 && (rest[0] == '、' || rest[0] == '.' || rest[0] == '．')
        && text::trim_start(rest.skip(1)).len() > 0
}

/// A line that is neither blank nor too long for a heading.
pub open spec fn heading_sized(line: Seq<char>) -> bool {
    0 < text::trim(line).len() <= MAX_HEADING_LEN
}

fn is_counted_unit(t: &[char]) -> (r: bool)
    ensures
        r == counted_unit(t@),
{
    if t.len() > 0 && t[0] == '第' {
        let (n, rest) = eat_number(eat_spaces_all(text::tail(t, 1)));
        let unit = eat_spaces_all(rest);
        n >= 1 && unit.len() > 0 && is_unit(unit[0])
    } else {
        false
    }
}

fn is_word_and_number(t: &[char], word: &str) -> (r: bool)
    ensures
        r == word_and_number(t@, word@),
{
    let w = text::chars_of(word);
    if text::starts_with_chars(t, w.as_slice()) {
        let n = roman_run(eat_spaces_all(text::tail(t, w.len())));
        1 <= n && n <= 8
    } else {
        false
    }
}

/// Recognises `第X章` and its kin, and `Chapter N`.
pub fn is_numbered_heading(t: &str) -> (r: bool)
    ensures
        r == numbered_heading(t@),
{
    let cs = text::chars_of(t);
    let t = cs.as_slice();
    is_counted_unit(t) || is_word_and_number(t, "chapter") || is_word_and_number(t, "CHAPTER")
        || is_word_and_number(t, "Chapter")
}

fn has_whitespace(s: &[char]) -> (r: bool)
    ensures
        r == exists|i: int| 0 <= i < s@.len() && text::whitespace(#[trigger] s@[i]),
{
    let mut i: usize = 0;
    while i < s.len()
        invariant
            i <= s@.len(),
            forall|j: int| 0 <= j < i ==> !text::whitespace(#[trigger] s@[j]),
        decreases s@.len() - i,
    {
        if text::is_whitespace(s[i]) {
            return true;
        }
        i += 1;
    }
    false
}

fn is_special_named(t: &[char], name: &str) -> (r: bool)
    ensures
        r == special_named(t@, name@),
{
    let w = text::chars_of(name);
    if !text::starts_with_chars(t, w.as_slice()) {
        return false;
    }
    let rest = text::tail(t, w.len());
    if rest.len() == 0 {
        return true;
    }
    let n = separator_run(rest);
    let title = text::tail(rest, n);
    n > 0 && title.len() <= 20 && !has_whitespace(title)
}

/// Recognises the special chapter names, alone or with a short title. A name
/// that runs on into a sentence is no heading.
pub fn is_special_heading(t: &str) -> (r: bool)
    ensures
        r == special_heading(t@),
{
    let cs = text::chars_of(t);
    let t = cs.as_slice();
    is_special_named(t, "序章") || is_special_named(t, "序言") || is_special_named(t, "前言")
        || is_special_named(t, "引子") || is_special_named(t, "楔子") || is_special_named(t, "后记")
        || is_special_named(t, "尾声") || is_special_named(t, "终章") || is_special_named(t, "番外")
}

/// Recognises a bare number with a title. Such lines count only in a book
/// without stronger headings.
pub fn is_weak_heading(t: &str) -> (r: bool)
    ensures
        r == weak_heading(t@),
{
    let cs = text::chars_of(t);
    let s = text::trim_start_chars(cs.as_slice());
    let n = text::digit_run(s);
    if n < 1 || n > 4 {
        return false;
    }
    let rest = text::trim_start_chars(text::tail(s, n));
    rest.len() > 0 && (rest[0] == '、' || rest[0] == '.' || rest[0] == '．')
        && text::trim_start_chars(text::tail(rest, 1)).len() > 0
}

/// Recognises a heading that counts in any book.
pub fn is_strong_heading(t: &str) -> (r: bool)
    ensures
        r == strong_heading(t@),
{
    is_numbered_heading(t) || is_special_heading(t)
}

/// Tells whether a line is neither blank nor too long for a heading.
pub fn heading_ok(line: &str) -> (r: bool)
    ensures
        r == heading_sized(line@),
{
    let cs = text::chars_of(line);
    let t = text::trim_chars(cs.as_slice());
    t.len() > 0 && t.len() <= MAX_HEADING_LEN
}

// ---------------------------------------------------------------- one rule per mode

/// `第X章` and its kin, or `番外N`, with at most one space (two after `番外`)
/// between the parts and a short tail.
pub open spec fn default_heading(t: Seq<char>) -> bool {
    if t.len() > 0 && t[0] == '第' {
        let number = after_spaces(t.skip(1), 1);
        number_len(number) >= 1 && unit_and_tail(after_spaces(after_number(number), 1))
    } else {
        text::starts_with(t, "番外"@) && after_number(after_spaces(t.skip("番外"@.len() as int), 2)).len()
            <= TAIL_LIMIT
    }
}

/// As the default rule, but `第` may be missing and any whitespace may stand
/// between the parts.
pub open spec fn loose_heading(t: Seq<char>) -> bool {
    let s = text::trim_start(t);
    let body = if s.len() > 0 && s[0] == '第' {
        s.skip(1)
    } else {
        s
    };
    let number = after_spaces(body, body.len());
    if number_len(number) >= 1 {
        let rest = after_number(number);
        unit_and_tail(after_spaces(rest, rest.len()))
    } else {
        text::starts_with(s, "番外"@) && {
            let rest = s.skip("番外"@.len() as int);
            after_number(after_spaces(rest, rest.len())).len() <= TAIL_LIMIT
        }
    }
}

/// `word`, at least one whitespace character, then a digit.
pub open spec fn word_space_digit(s: Seq<char>, word: Seq<char>) -> bool {
    text::starts_with(s, word) && {
        let rest = s.skip(word.len() as int);
        let n = text::run(rest, text::spaces(), rest.len());
        1 <= n < rest.len() && text::ascii_digit(rest[n as int])
    }
}

/// `Chapter N` or `CHAPTER N`.
pub open spec fn english_heading(t: Seq<char>) -> bool {
    let s = text::trim_start(t);
    word_space_digit(s, "Chapter"@) || word_space_digit(s, "CHAPTER"@)
}

/// `s` begins with `、`, `.` or whitespace.
pub open spec fn dot_first(s: Seq<char>) -> bool {
    s.len() > 0 && (s[0] == '、' || s[0] == '.' || text::whitespace(s[0]))
}

/// A Chinese numeral followed by a dot or whitespace.
pub open spec fn zh_dot_heading(t: Seq<char>) -> bool {
    let s = text::trim_start(t);
    let n = text::run(s, zh_nums(), s.len());
    n > 0 && dot_first(s.skip(n as int))
}

/// A decimal number followed by a dot or whitespace.
pub open spec fn digit_dot_heading(t: Seq<char>) -> bool {
    let s = text::trim_start(t);
    let n = text::run(s, text::digits(), s.len());
    n > 0 && dot_first(s.skip(n as int))
}

/// The text begins with one of the keywords that `|` separates; blank keywords
/// do not count.
pub open spec fn keyword_heading(t: Seq<char>, keyword: Seq<char>) -> bool {
    let s = text::trim_start(t);
    let pieces = text::split_on(keyword, '|');
    s.len() > 0 && exists|i: int|
        0 <= i < pieces.len() && text::trim(#[trigger] pieces[i]).len() > 0 && text::starts_with(
            s,
            text::trim(pieces[i]),
        )
}

/// The rule of `mode`, on a whole line.
pub open spec fn heading_line(mode: SplitMode, line: Seq<char>, keyword: Seq<char>) -> bool {
    let t = text::trim(line);
    t.len() > 0 && match mode {
        SplitMode::Auto => heading_sized(line) && strong_heading(t),
        SplitMode::Default => default_heading(t) && t.len() <= MAX_HEADING_LEN,
        SplitMode::Loose => loose_heading(t) && t.len() <= MAX_HEADING_LEN,
        SplitMode::English => english_heading(t),
        SplitMode::ZhNumDot => zh_dot_heading(t),
        SplitMode::DigitDot => digit_dot_heading(t),
        SplitMode::Custom => keyword_heading(t, keyword),
        SplitMode::ByWordCount => false,
    }
}

fn is_unit_and_tail(s: &[char]) -> (r: bool)
    ensures
        r == unit_and_tail(s@),
{
    s.len() > 0 && is_unit(s[0]) && s.len() - 1 <= TAIL_LIMIT
}

/// The default rule.
pub fn match_default(t: &str) -> (r: bool)
    ensures
        r == default_heading(t@),
{
    let cs = text::chars_of(t);
    let t = cs.as_slice();
    if t.len() > 0 && t[0] == '第' {
        let (n, rest) = eat_number(eat_spaces(text::tail(t, 1), 1));
        return n >= 1 && is_unit_and_tail(eat_spaces(rest, 1));
    }
    let extra = text::chars_of("番外");
    if text::starts_with_chars(t, extra.as_slice()) {
        let (_, rest) = eat_number(eat_spaces(text::tail(t, extra.len()), 2));
        return rest.len() <= TAIL_LIMIT;
    }
    false
}

/// The loose rule.
pub fn match_loose(t: &str) -> (r: bool)
    ensures
        r == loose_heading(t@),
{
    let cs = text::chars_of(t);
    let s = text::trim_start_chars(cs.as_slice());
    let body = if s.len() > 0 && s[0] == '第' {
        text::tail(s, 1)
    } else {
        s
    };
    let (n, rest) = eat_number(eat_spaces_all(body));
    if n >= 1 {
        return is_unit_and_tail(eat_spaces_all(rest));
    }
    let extra = text::chars_of("番外");
    if text::starts_with_chars(s, extra.as_slice()) {
        let (_, rest) = eat_number(eat_spaces_all(text::tail(s, extra.len())));
        return rest.len() <= TAIL_LIMIT;
    }
    false
}

fn is_word_space_digit(s: &[char], word: &str) -> (r: bool)
    ensures
        r == word_space_digit(s@, word@),
{
    let w = text::chars_of(word);
    if text::starts_with_chars(s, w.as_slice()) {
        let rest = text::tail(s, w.len());
        let n = text::space_run(rest, rest.len());
        1 <= n && n < rest.len() && text::is_ascii_digit(rest[n])
    } else {
        false
    }
}

/// The English rule.
pub fn match_english(t: &str) -> (r: bool)
    ensures
        r == english_heading(t@),
{
    let cs = text::chars_of(t);
    let s = text::trim_start_chars(cs.as_slice());
    is_word_space_digit(s, "Chapter") || is_word_space_digit(s, "CHAPTER")
}

fn is_dot_first(s: &[char]) -> (r: bool)
    ensures
        r == dot_first(s@),
{
    s.len() > 0 && (s[0] == '、' || s[0] == '.' || text::is_whitespace(s[0]))
}

/// The rule for Chinese numerals.
pub fn match_zh_num_dot(t: &str) -> (r: bool)
    ensures
        r == zh_dot_heading(t@),
{
    let cs = text::chars_of(t);
    let s = text::trim_start_chars(cs.as_slice());
    let n = zh_run(s);
    n > 0 && is_dot_first(text::tail(s, n))
}

/// The rule for decimal numbers.
pub fn match_digit_dot(t: &str) -> (r: bool)
    ensures
        r == digit_dot_heading(t@),
{
    let cs = text::chars_of(t);
    let s = text::trim_start_chars(cs.as_slice());
    let n = text::digit_run(s);
    n > 0 && is_dot_first(text::tail(s, n))
}

/// The rule for keywords at the start of the line.
pub fn match_keyword(t: &str, keyword: &str) -> (r: bool)
    ensures
        r == keyword_heading(t@, keyword@),
{
    let cs = text::chars_of(t);
    let s = text::trim_start_chars(cs.as_slice());
    if s.len() == 0 {
        return false;
    }
    let pieces = text::split_text(keyword, '|');
    let ghost all = text::split_on(keyword@, '|');
    let mut i: usize = 0;
    while i < pieces.len()
        invariant
            i <= pieces@.len(),
            s@ == text::trim_start(t@),
            s@.len() > 0,
            all == text::split_on(keyword@, '|'),
            text::texts(pieces@) == all,
            forall|j: int|
                0 <= j < i ==> !(text::trim(#[trigger] all[j]).len() > 0 && text::starts_with(
                    s@,
                    text::trim(all[j]),
                )),
        decreases pieces@.len() - i,
    {
        let piece = text::chars_of(pieces[i].as_str());
        let k = text::trim_chars(piece.as_slice());
        assert(piece@ == all[i as int]);
        if k.len() > 0 && text::starts_with_chars(s, k) {
            return true;
        }
        i += 1;
    }
    false
}

/// Tells whether a line is a heading under the rule of `mode`. A blank line
/// never is; and splitting by word count knows no headings.
pub fn line_is_heading(mode: SplitMode, line: &str, opts: &SplitOptions) -> (r: bool)
    ensures
        r == heading_line(mode, line@, opts.keyword@),
{
    let t = text::trimmed(line);
    let n = text::chars_of(t.as_str()).len();
    if n == 0 {
        return false;
    }
    let t = t.as_str();
    match mode {
        SplitMode::Auto => heading_ok(line) && is_strong_heading(t),
        SplitMode::Default => match_default(t) && n <= MAX_HEADING_LEN,
        SplitMode::Loose => match_loose(t) && n <= MAX_HEADING_LEN,
        SplitMode::English => match_english(t),
        SplitMode::ZhNumDot => match_zh_num_dot(t),
        SplitMode::DigitDot => match_digit_dot(t),
        SplitMode::Custom => match_keyword(t, opts.keyword.as_str()),
        SplitMode::ByWordCount => false,
    }
}

} // verus!
