//! What holds of headings, said of how a line is written.
use crate::chapters;
use crate::chapters::SplitMode;
use crate::headings;
use crate::text;
use vstd::prelude::*;

verus! {

// ---------------------------------------------------------------- characters

/// A digit, or a character of a Chinese numeral.
pub open spec fn number_char(c: char) -> bool {
    "0123456789零一二三四五六七八九十百千万两〇"@.contains(c)
}

/// A character of a Chinese numeral.
pub open spec fn numeral_char(c: char) -> bool {
    "零一二三四五六七八九十百千万〇"@.contains(c)
}

/// A word for a part of a book.
pub open spec fn part_char(c: char) -> bool {
    "章卷节部篇回本集"@.contains(c)
}

/// A digit or a Roman numeral's letter, large or small.
pub open spec fn roman_char(c: char) -> bool {
    "0123456789IVXLCDMivxlcdm"@.contains(c)
}

/// What may stand between a special name and its title.
pub open spec fn mark_char(c: char) -> bool {
    " \t：:、.．-—"@.contains(c)
}

/// A digit.
pub open spec fn digit_char(c: char) -> bool {
    "0123456789"@.contains(c)
}

/// All characters of the text are whitespace.
pub open spec fn blank(s: Seq<char>) -> bool {
    forall|i: int| 0 <= i < s.len() ==> text::whitespace(#[trigger] s[i])
}

/// All characters of the text can stand in a chapter number.
pub open spec fn all_number(s: Seq<char>) -> bool {
    forall|i: int| 0 <= i < s.len() ==> number_char(#[trigger] s[i])
}

/// The characters that each class holds, one by one.
pub proof fn the_classes_of_characters(c: char)
    ensures
        headings::cn_num(c) <==> number_char(c),
        headings::zh_num(c) <==> numeral_char(c),
        headings::unit(c) <==> part_char(c),
        headings::roman_or_digit(c) <==> roman_char(c),
        headings::separator(c) <==> mark_char(c),
        text::ascii_digit(c) <==> digit_char(c),
{
    lemma_numbers(c);
    lemma_others(c);
    lemma_romans(c);
}

proof fn lemma_numbers(c: char)
    ensures
        headings::cn_num(c) <==> number_char(c),
        headings::zh_num(c) <==> numeral_char(c),
        text::ascii_digit(c) <==> digit_char(c),
{
    reveal_strlit("0123456789");
    reveal_strlit("零一二三四五六七八九十百千万〇");
    reveal_strlit("0123456789零一二三四五六七八九十百千万两〇");
    let d = "0123456789"@;
    let z = "零一二三四五六七八九十百千万〇"@;
    let all = "0123456789零一二三四五六七八九十百千万两〇"@;
    if text::ascii_digit(c) {
        let i = c as int - '0' as int;
        assert(d[i] == c);
        assert(all[i] == c);
    }
    if headings::zh_num(c) {
        assert(z[0] == '零' && z[1] == '一' && z[2] == '二' && z[3] == '三' && z[4] == '四' && z[5]
            == '五' && z[6] == '六' && z[7] == '七' && z[8] == '八' && z[9] == '九' && z[10] == '十'
            && z[11] == '百' && z[12] == '千' && z[13] == '万' && z[14] == '〇');
        assert(z.contains(c));
        assert(all[10] == '零' && all[11] == '一' && all[12] == '二' && all[13] == '三' && all[14]
            == '四' && all[15] == '五' && all[16] == '六' && all[17] == '七' && all[18] == '八'
            && all[19] == '九' && all[20] == '十' && all[21] == '百' && all[22] == '千' && all[23]
            == '万' && all[25] == '〇');
        assert(all.contains(c));
    }
    if c == '两' {
        assert(all[24] == c);
    }
}

proof fn lemma_others(c: char)
    ensures
        headings::unit(c) <==> part_char(c),
        headings::separator(c) <==> mark_char(c),
{
    reveal_strlit("章卷节部篇回本集");
    reveal_strlit(" \t：:、.．-—");
    let u = "章卷节部篇回本集"@;
    assert(u[0] == '章' && u[1] == '卷' && u[2] == '节' && u[3] == '部' && u[4] == '篇' && u[5]
        == '回' && u[6] == '本' && u[7] == '集');
    let m = " \t：:、.．-—"@;
    assert(m[0] == ' ' && m[1] == '\t' && m[2] == '：' && m[3] == ':' && m[4] == '、' && m[5] == '.'
        && m[6] == '．' && m[7] == '-' && m[8] == '—');
}

proof fn lemma_romans(c: char)
    ensures
        headings::roman_or_digit(c) <==> roman_char(c),
{
    reveal_strlit("0123456789IVXLCDMivxlcdm");
    let r = "0123456789IVXLCDMivxlcdm"@;
    if text::ascii_digit(c) {
        let i = c as int - '0' as int;
        assert(r[i] == c);
    }
    assert(r[10] == 'I' && r[11] == 'V' && r[12] == 'X' && r[13] == 'L' && r[14] == 'C' && r[15]
        == 'D' && r[16] == 'M' && r[17] == 'i' && r[18] == 'v' && r[19] == 'x' && r[20] == 'l'
        && r[21] == 'c' && r[22] == 'd' && r[23] == 'm');
}

/// The classes, for all characters at once.
proof fn lemma_classes()
    ensures
        forall|c: char| #[trigger] headings::cn_num(c) <==> number_char(c),
        forall|c: char| #[trigger] number_char(c) <==> headings::cn_num(c),
        forall|c: char| #[trigger] headings::zh_num(c) <==> numeral_char(c),
        forall|c: char| #[trigger] numeral_char(c) <==> headings::zh_num(c),
        forall|c: char| #[trigger] headings::unit(c) <==> part_char(c),
        forall|c: char| #[trigger] part_char(c) <==> headings::unit(c),
        forall|c: char| #[trigger] headings::roman_or_digit(c) <==> roman_char(c),
        forall|c: char| #[trigger] roman_char(c) <==> headings::roman_or_digit(c),
        forall|c: char| #[trigger] headings::separator(c) <==> mark_char(c),
        forall|c: char| #[trigger] mark_char(c) <==> headings::separator(c),
        forall|c: char| #[trigger] text::ascii_digit(c) <==> digit_char(c),
        forall|c: char| #[trigger] digit_char(c) <==> text::ascii_digit(c),
{
    assert forall|c: char| #[trigger] headings::cn_num(c) <==> number_char(c) by {
        the_classes_of_characters(c);
    }
    assert forall|c: char| #[trigger] headings::zh_num(c) <==> numeral_char(c) by {
        the_classes_of_characters(c);
    }
    assert forall|c: char| #[trigger] headings::unit(c) <==> part_char(c) by {
        the_classes_of_characters(c);
    }
    assert forall|c: char| #[trigger] headings::roman_or_digit(c) <==> roman_char(c) by {
        the_classes_of_characters(c);
    }
    assert forall|c: char| #[trigger] headings::separator(c) <==> mark_char(c) by {
        the_classes_of_characters(c);
    }
    assert forall|c: char| #[trigger] text::ascii_digit(c) <==> digit_char(c) by {
        the_classes_of_characters(c);
    }
}

/// Whitespace is these characters, by their code points.
pub proof fn the_white_characters(c: char)
    ensures
        text::whitespace(c) <==> (9 <= c as u32 <= 13 || c as u32 == 32 || c as u32 == 133 || c as u32
            == 160 || c as u32 == 5760 || 8192 <= c as u32 <= 8202 || c as u32 == 8232 || c as u32
            == 8233 || c as u32 == 8239 || c as u32 == 8287 || c as u32 == 12288),
{
}

// ---------------------------------------------------------------- runs

/// A run ends where its characters do.
proof fn lemma_run_of(head: Seq<char>, rest: Seq<char>, p: spec_fn(char) -> bool, limit: nat)
    requires
        head.len() <= limit,
        forall|i: int| 0 <= i < head.len() ==> p(#[trigger] head[i]),
        head.len() == limit || rest.len() == 0 || !p(rest[0]),
    ensures
        text::run(head + rest, p, limit) == head.len(),
        (head + rest).skip(head.len() as int) == rest,
        (head + rest).take(head.len() as int) == head,
{
    let s = head + rest;
    assert forall|i: int| 0 <= i < head.len() implies p(#[trigger] s[i]) by {
        assert(s[i] == head[i]);
    }
    if head.len() < s.len() {
        assert(s[head.len() as int] == rest[0]);
    }
    text::lemma_run_is(s, p, limit, head.len());
    assert(s.skip(head.len() as int) =~= rest);
    assert(s.take(head.len() as int) =~= head);
}

/// A text is its run and what follows.
proof fn lemma_run_parts(s: Seq<char>, p: spec_fn(char) -> bool, limit: nat)
    ensures
        ({
            let n = text::run(s, p, limit) as int;
            &&& 0 <= n <= s.len()
            &&& n <= limit
            &&& s == s.take(n) + s.skip(n)
            &&& s.take(n).len() == n
            &&& forall|i: int| 0 <= i < n ==> p(#[trigger] s.take(n)[i])
            &&& n < limit && s.skip(n).len() > 0 ==> !p(s.skip(n)[0])
        }),
{
    text::lemma_run(s, p, limit);
    let n = text::run(s, p, limit) as int;
    assert(s =~= s.take(n) + s.skip(n));
    assert forall|i: int| 0 <= i < n implies p(#[trigger] s.take(n)[i]) by {
        assert(s.take(n)[i] == s[i]);
    }
}

/// Nothing is trimmed from the start of a trimmed text.
proof fn lemma_trimmed(line: Seq<char>)
    ensures
        text::trim_start(text::trim(line)) == text::trim(line),
{
    let t = text::trim(line);
    text::lemma_trim(line);
    assert(t.skip(0) =~= t);
    text::lemma_run(t, text::spaces(), t.len());
    if text::run(t, text::spaces(), t.len()) > 0 {
        assert(text::spaces()(t[0]));
    }
}

/// A text that begins with a word is the word and what follows.
proof fn lemma_begins(s: Seq<char>, word: Seq<char>)
    ensures
        text::starts_with(s, word) ==> s == word + s.skip(word.len() as int),
        forall|rest: Seq<char>| s == #[trigger] (word + rest) ==> text::starts_with(s, word)
            && s.skip(word.len() as int) == rest,
{
    if text::starts_with(s, word) {
        assert(s =~= word + s.skip(word.len() as int));
    }
    assert forall|rest: Seq<char>| s == #[trigger] (word + rest) implies text::starts_with(s, word)
        && s.skip(word.len() as int) == rest by {
        assert(s.take(word.len() as int) =~= word);
        assert(s.skip(word.len() as int) =~= rest);
    }
}

/// The text begins with the word.
pub open spec fn begins_with(t: Seq<char>, word: Seq<char>) -> bool {
    exists|rest: Seq<char>| t == #[trigger] (word + rest)
}

/// Beginning with a word is having it at the front.
pub proof fn to_begin_with_a_word(t: Seq<char>, word: Seq<char>)
    ensures
        text::starts_with(t, word) <==> begins_with(t, word),
{
    lemma_begins(t, word);
}

// ---------------------------------------------------------------- numbered lines

/// A numbered line: perhaps `第`, a number, a word for a part, and a title, with
/// whitespace between.
pub struct Numbered {
    pub first: Seq<char>,
    pub number: Seq<char>,
    pub second: Seq<char>,
    pub part: char,
    pub title: Seq<char>,
}

impl Numbered {
    /// What follows the first word.
    pub open spec fn body(self) -> Seq<char> {
        self.first + (self.number + (self.second + (seq![self.part] + self.title)))
    }

    /// The parts are what they are called: blanks, one to twenty characters of a
    /// number, and a word for a part.
    pub open spec fn wf(self) -> bool {
        &&& blank(self.first)
        &&& blank(self.second)
        &&& all_number(self.number)
        &&& 1 <= self.number.len() <= 20
        &&& part_char(self.part)
    }
}

/// `第`, a number and a word for a part.
pub open spec fn counted(t: Seq<char>, n: Numbered) -> bool {
    n.wf() && t == "第"@ + n.body()
}

/// How a text splits into the parts of a numbered line, with limits on the blanks.
spec fn parts(body: Seq<char>, first: nat, second: nat) -> Numbered {
    let number = headings::after_spaces(body, first);
    let rest = headings::after_number(number);
    let end = headings::after_spaces(rest, second);
    Numbered {
        first: body.take(text::run(body, text::spaces(), first) as int),
        number: number.take(headings::number_len(number) as int),
        second: rest.take(text::run(rest, text::spaces(), second) as int),
        part: end[0],
        title: end.skip(1),
    }
}

/// Where the walk over a text finds a number and a unit, the text is so made.
proof fn lemma_parts(body: Seq<char>, first: nat, second: nat)
    requires
        ({
            let number = headings::after_spaces(body, first);
            let end = headings::after_spaces(headings::after_number(number), second);
            headings::number_len(number) >= 1 && headings::unit_first(end)
        }),
    ensures
        ({
            let n = parts(body, first, second);
            let number = headings::after_spaces(body, first);
            let end = headings::after_spaces(headings::after_number(number), second);
            &&& n.wf()
            &&& n.body() == body
            &&& n.first.len() <= first
            &&& n.second.len() <= second
            &&& n.title.len() == end.len() - 1
        }),
{
    lemma_classes();
    let n = parts(body, first, second);
    let number = headings::after_spaces(body, first);
    let rest = headings::after_number(number);
    let end = headings::after_spaces(rest, second);
    lemma_run_parts(body, text::spaces(), first);
    lemma_run_parts(number, headings::cn_nums(), 20);
    lemma_run_parts(rest, text::spaces(), second);
    assert forall|i: int| 0 <= i < n.first.len() implies text::whitespace(#[trigger] n.first[i]) by {
        assert(text::spaces()(n.first[i]));
    }
    assert forall|i: int| 0 <= i < n.second.len() implies text::whitespace(
        #[trigger] n.second[i],
    ) by {
        assert(text::spaces()(n.second[i]));
    }
    assert forall|i: int| 0 <= i < n.number.len() implies number_char(#[trigger] n.number[i]) by {
        assert(headings::cn_nums()(n.number[i]));
    }
    assert(end =~= seq![n.part] + n.title);
}

/// The walk over a text that is so made finds its parts.
proof fn lemma_walk(n: Numbered, first: nat, second: nat)
    requires
        n.wf(),
        n.first.len() <= first,
        n.second.len() <= second,
    ensures
        ({
            let number = headings::after_spaces(n.body(), first);
            let end = headings::after_spaces(headings::after_number(number), second);
            &&& headings::number_len(number) == n.number.len()
            &&& end == seq![n.part] + n.title
            &&& headings::unit_first(end)
        }),
{
    lemma_classes();
    let end = seq![n.part] + n.title;
    let rest = n.second + end;
    let number = n.number + rest;
    assert(headings::cn_num(n.number[0]));
    assert(headings::unit(n.part));
    assert(number[0] == n.number[0]);
    assert(end[0] == n.part);
    assert forall|i: int| 0 <= i < n.first.len() implies text::spaces()(#[trigger] n.first[i]) by {}
    assert forall|i: int| 0 <= i < n.second.len() implies text::spaces()(
        #[trigger] n.second[i],
    ) by {}
    assert forall|i: int| 0 <= i < n.number.len() implies headings::cn_nums()(
        #[trigger] n.number[i],
    ) by {
        assert(number_char(n.number[i]));
    }
    lemma_run_of(n.first, number, text::spaces(), first);
    if n.second.len() > 0 {
        assert(rest[0] == n.second[0]);
        assert(text::whitespace(n.second[0]));
    } else {
        assert(rest[0] == n.part);
    }
    lemma_run_of(n.number, rest, headings::cn_nums(), 20);
    lemma_run_of(n.second, end, text::spaces(), second);
}

/// The word `第` is one character.
proof fn lemma_di(t: Seq<char>)
    ensures
        t.len() > 0 && t[0] == '第' ==> t == "第"@ + t.skip(1),
        forall|rest: Seq<char>| t == #[trigger] ("第"@ + rest) ==> t.len() > 0 && t[0] == '第'
            && t.skip(1) == rest,
{
    reveal_strlit("第");
    if t.len() > 0 && t[0] == '第' {
        assert(t =~= "第"@ + t.skip(1));
    }
    assert forall|rest: Seq<char>| t == #[trigger] ("第"@ + rest) implies t.len() > 0 && t[0] == '第'
        && t.skip(1) == rest by {
        assert(t.skip(1) =~= rest);
    }
}

proof fn lemma_counted(t: Seq<char>)
    ensures
        headings::counted_unit(t) <==> exists|n: Numbered| counted(t, n),
{
    lemma_di(t);
    if headings::counted_unit(t) {
        let body = t.skip(1);
        let rest = headings::after_number(headings::after_spaces(body, body.len()));
        lemma_parts(body, body.len(), rest.len());
        assert(counted(t, parts(body, body.len(), rest.len())));
    }
    if exists|n: Numbered| counted(t, n) {
        let n = choose|n: Numbered| counted(t, n);
        let body = t.skip(1);
        assert(body == n.body());
        lemma_walk(n, body.len(), body.len());
        let rest = headings::after_number(headings::after_spaces(body, body.len()));
        text::lemma_run(body, text::spaces(), body.len());
        text::lemma_run(headings::after_spaces(body, body.len()), headings::cn_nums(), 20);
        lemma_limit(rest, text::spaces(), body.len());
    }
}

/// A limit past the end of the text is none.
proof fn lemma_limit(s: Seq<char>, p: spec_fn(char) -> bool, limit: nat)
    requires
        s.len() <= limit,
    ensures
        text::run(s, p, limit) == text::run(s, p, s.len()),
{
    text::lemma_run(s, p, limit);
    text::lemma_run_is(s, p, s.len(), text::run(s, p, limit));
}

// ---------------------------------------------------------------- other lines

/// `chapter`, perhaps blanks, and one to eight digits or letters of a Roman numeral;
/// what follows does not go on with one.
pub open spec fn chapter_line(
    t: Seq<char>,
    word: Seq<char>,
    gap: Seq<char>,
    number: Seq<char>,
    rest: Seq<char>,
) -> bool {
    &&& word == "chapter"@ || word == "CHAPTER"@ || word == "Chapter"@
    &&& t == word + (gap + (number + rest))
    &&& blank(gap)
    &&& 1 <= number.len() <= 8
    &&& forall|i: int| 0 <= i < number.len() ==> roman_char(#[trigger] number[i])
    &&& rest.len() > 0 ==> !roman_char(rest[0])
}

proof fn lemma_chapter_word(t: Seq<char>, word: Seq<char>)
    requires
        word == "chapter"@ || word == "CHAPTER"@ || word == "Chapter"@,
    ensures
        headings::word_and_number(t, word) <==> exists|gap: Seq<char>, number: Seq<char>, rest: Seq<char>|
            chapter_line(t, word, gap, number, rest),
{
    lemma_classes();
    lemma_begins(t, word);
    let after = t.skip(word.len() as int);
    if headings::word_and_number(t, word) {
        lemma_run_parts(after, text::spaces(), after.len());
        let k = text::run(after, text::spaces(), after.len()) as int;
        let more = after.skip(k);
        lemma_run_parts(more, headings::romans_or_digits(), more.len());
        let n = text::run(more, headings::romans_or_digits(), more.len()) as int;
        let gap = after.take(k);
        let number = more.take(n);
        let rest = more.skip(n);
        assert forall|i: int| 0 <= i < gap.len() implies text::whitespace(#[trigger] gap[i]) by {
            assert(text::spaces()(gap[i]));
        }
        assert forall|i: int| 0 <= i < number.len() implies roman_char(#[trigger] number[i]) by {
            assert(headings::romans_or_digits()(number[i]));
        }
        if rest.len() > 0 {
            assert(!headings::romans_or_digits()(rest[0]));
        }
        assert(chapter_line(t, word, gap, number, rest));
    }
    if exists|gap: Seq<char>, number: Seq<char>, rest: Seq<char>|
        chapter_line(t, word, gap, number, rest) {
        let (gap, number, rest) = choose|gap: Seq<char>, number: Seq<char>, rest: Seq<char>|
            chapter_line(t, word, gap, number, rest);
        assert(after == gap + (number + rest));
        assert forall|i: int| 0 <= i < gap.len() implies text::spaces()(#[trigger] gap[i]) by {}
        assert((number + rest)[0] == number[0]);
        assert(headings::roman_or_digit(number[0]));
        lemma_run_of(gap, number + rest, text::spaces(), after.len());
        assert forall|i: int| 0 <= i < number.len() implies headings::romans_or_digits()(
            #[trigger] number[i],
        ) by {
            assert(roman_char(number[i]));
        }
        lemma_run_of(number, rest, headings::romans_or_digits(), (number + rest).len());
    }
}

/// One of the names of special chapters.
pub open spec fn special_name(name: Seq<char>) -> bool {
    seq!["序章"@, "序言"@, "前言"@, "引子"@, "楔子"@, "后记"@, "尾声"@, "终章"@, "番外"@].contains(name)
}

/// A special name alone, or with marks and a title of at most twenty characters
/// without whitespace.
pub open spec fn special_line(
    t: Seq<char>,
    name: Seq<char>,
    marks: Seq<char>,
    title: Seq<char>,
) -> bool {
    &&& special_name(name)
    &&& t == name + (marks + title)
    &&& forall|i: int| 0 <= i < marks.len() ==> mark_char(#[trigger] marks[i])
    &&& title.len() > 0 ==> marks.len() > 0 && !mark_char(title[0])
    &&& title.len() <= 20
    &&& forall|i: int| 0 <= i < title.len() ==> !text::whitespace(#[trigger] title[i])
}

proof fn lemma_special_name(t: Seq<char>, name: Seq<char>)
    requires
        special_name(name),
    ensures
        headings::special_named(t, name) <==> exists|marks: Seq<char>, title: Seq<char>|
            special_line(t, name, marks, title),
{
    lemma_classes();
    lemma_begins(t, name);
    let rest = t.skip(name.len() as int);
    lemma_run_parts(rest, headings::separators(), rest.len());
    let n = text::run(rest, headings::separators(), rest.len()) as int;
    if headings::special_named(t, name) {
        let marks = rest.take(n);
        let title = rest.skip(n);
        assert forall|i: int| 0 <= i < marks.len() implies mark_char(#[trigger] marks[i]) by {
            assert(headings::separators()(marks[i]));
        }
        if title.len() > 0 {
            assert(!headings::separators()(title[0]));
        }
        assert(special_line(t, name, marks, title));
    }
    if exists|marks: Seq<char>, title: Seq<char>| special_line(t, name, marks, title) {
        let (marks, title) = choose|marks: Seq<char>, title: Seq<char>|
            special_line(t, name, marks, title);
        assert(rest == marks + title);
        assert forall|i: int| 0 <= i < marks.len() implies headings::separators()(
            #[trigger] marks[i],
        ) by {
            assert(mark_char(marks[i]));
        }
        lemma_run_of(marks, title, headings::separators(), rest.len());
    }
}

proof fn lemma_special(t: Seq<char>)
    ensures
        headings::special_heading(t) <==> exists|name: Seq<char>, marks: Seq<char>, title: Seq<char>|
            special_line(t, name, marks, title),
{
    let names = seq!["序章"@, "序言"@, "前言"@, "引子"@, "楔子"@, "后记"@, "尾声"@, "终章"@, "番外"@];
    assert(names[0] == "序章"@ && names[1] == "序言"@ && names[2] == "前言"@ && names[3] == "引子"@
        && names[4] == "楔子"@ && names[5] == "后记"@ && names[6] == "尾声"@ && names[7] == "终章"@
        && names[8] == "番外"@);
    assert forall|k: int| 0 <= k < 9 implies (headings::special_named(t, #[trigger] names[k]) <==> exists|
        marks: Seq<char>,
        title: Seq<char>,
    | special_line(t, names[k], marks, title)) by {
        lemma_special_name(t, names[k]);
    }
    if headings::special_heading(t) {
        assert(exists|k: int| 0 <= k < 9 && headings::special_named(t, #[trigger] names[k]));
    }
    if exists|name: Seq<char>, marks: Seq<char>, title: Seq<char>|
        special_line(t, name, marks, title) {
        let (name, marks, title) = choose|name: Seq<char>, marks: Seq<char>, title: Seq<char>|
            special_line(t, name, marks, title);
        let k = choose|k: int| 0 <= k < 9 && names[k] == name;
        assert(special_line(t, names[k], marks, title));
        assert(headings::special_named(t, names[k]));
    }
}

/// A number of one to four digits, a dot or a comma, and a title.
pub open spec fn bare_line(
    t: Seq<char>,
    number: Seq<char>,
    gap: Seq<char>,
    dot: char,
    title: Seq<char>,
) -> bool {
    &&& t == number + (gap + (seq![dot] + title))
    &&& 1 <= number.len() <= 4
    &&& forall|i: int| 0 <= i < number.len() ==> digit_char(#[trigger] number[i])
    &&& blank(gap)
    &&& dot == '、' || dot == '.' || dot == '．'
    &&& !blank(title)
}

proof fn lemma_blank(s: Seq<char>)
    ensures
        blank(s) <==> text::trim_start(s).len() == 0,
{
    text::lemma_trim_start(s);
    let n = s.len() - text::trim_start(s).len();
    if text::trim_start(s).len() > 0 {
        assert(s[n as int] == text::trim_start(s)[0]);
    }
}

proof fn lemma_bare(t: Seq<char>)
    requires
        text::trim_start(t) == t,
    ensures
        headings::weak_heading(t) <==> exists|number: Seq<char>, gap: Seq<char>, dot: char, title: Seq<char>|
            bare_line(t, number, gap, dot, title),
{
    lemma_classes();
    lemma_run_parts(t, text::digits(), t.len());
    let n = text::run(t, text::digits(), t.len()) as int;
    let after = t.skip(n);
    lemma_run_parts(after, text::spaces(), after.len());
    let k = text::run(after, text::spaces(), after.len()) as int;
    if headings::weak_heading(t) {
        let rest = text::trim_start(after);
        let number = t.take(n);
        let gap = after.take(k);
        let title = rest.skip(1);
        assert forall|i: int| 0 <= i < number.len() implies digit_char(#[trigger] number[i]) by {
            assert(text::digits()(number[i]));
        }
        assert forall|i: int| 0 <= i < gap.len() implies text::whitespace(#[trigger] gap[i]) by {
            assert(text::spaces()(gap[i]));
        }
        lemma_blank(title);
        assert(rest =~= seq![rest[0]] + title);
        assert(bare_line(t, number, gap, rest[0], title));
    }
    if exists|number: Seq<char>, gap: Seq<char>, dot: char, title: Seq<char>|
        bare_line(t, number, gap, dot, title) {
        let (number, gap, dot, title) = choose|
            number: Seq<char>,
            gap: Seq<char>,
            dot: char,
            title: Seq<char>,
        | bare_line(t, number, gap, dot, title);
        let end = seq![dot] + title;
        let rest = gap + end;
        assert forall|i: int| 0 <= i < number.len() implies text::digits()(#[trigger] number[i]) by {
            assert(digit_char(number[i]));
        }
        if gap.len() > 0 {
            assert(rest[0] == gap[0]);
            assert(text::whitespace(gap[0]));
        } else {
            assert(rest[0] == dot);
        }
        lemma_run_of(number, rest, text::digits(), t.len());
        assert forall|i: int| 0 <= i < gap.len() implies text::spaces()(#[trigger] gap[i]) by {}
        assert(end[0] == dot);
        lemma_run_of(gap, end, text::spaces(), rest.len());
        assert(end.skip(1) =~= title);
        lemma_blank(title);
    }
}

/// The text splits into a bare number, a dot and a title.
pub open spec fn bare(t: Seq<char>) -> bool {
    exists|number: Seq<char>, gap: Seq<char>, dot: char, title: Seq<char>|
        bare_line(t, number, gap, dot, title)
}

/// A line that the automatic mode takes for a heading in any book.
pub open spec fn strong(t: Seq<char>) -> bool {
    ||| exists|n: Numbered| counted(t, n)
    ||| exists|word: Seq<char>, gap: Seq<char>, number: Seq<char>, rest: Seq<char>|
        chapter_line(t, word, gap, number, rest)
    ||| exists|name: Seq<char>, marks: Seq<char>, title: Seq<char>|
        special_line(t, name, marks, title)
}

proof fn lemma_strong(t: Seq<char>)
    ensures
        headings::strong_heading(t) <==> strong(t),
{
    lemma_counted(t);
    lemma_special(t);
    lemma_chapter_word(t, "chapter"@);
    lemma_chapter_word(t, "CHAPTER"@);
    lemma_chapter_word(t, "Chapter"@);
}

/// In the automatic mode a line of at most fifty characters is a heading exactly
/// where it is `第`, a number of one to twenty characters, a word for a part and any
/// title; `Chapter` and a number; or a special name, alone or with a short title.
pub proof fn the_headings_of_the_automatic_mode(line: Seq<char>, keyword: Seq<char>)
    ensures
        headings::heading_line(SplitMode::Auto, line, keyword) <==> text::trim(line).len() <= 50
            && strong(text::trim(line)),
{
    let t = text::trim(line);
    lemma_strong(t);
    if t.len() == 0 {
        lemma_strong_is_long(t);
    }
}

/// No heading is empty.
proof fn lemma_strong_is_long(t: Seq<char>)
    requires
        t.len() == 0,
    ensures
        !strong(t),
{
    reveal_strlit("第");
    reveal_strlit("序章");
    reveal_strlit("序言");
    reveal_strlit("前言");
    reveal_strlit("引子");
    reveal_strlit("楔子");
    reveal_strlit("后记");
    reveal_strlit("尾声");
    reveal_strlit("终章");
    reveal_strlit("番外");
}

/// Whatever its number and its title, a line that names a part of the book is a
/// heading in the automatic mode, and in the others that read such lines where the
/// title is not too long.
pub proof fn a_numbered_line_is_a_heading(line: Seq<char>, n: Numbered, keyword: Seq<char>)
    requires
        counted(text::trim(line), n),
        text::trim(line).len() <= 50,
    ensures
        headings::heading_line(SplitMode::Auto, line, keyword),
        n.title.len() <= 30 ==> headings::heading_line(SplitMode::Loose, line, keyword),
        n.title.len() <= 30 && n.first.len() <= 1 && n.second.len() <= 1
            ==> headings::heading_line(SplitMode::Default, line, keyword),
{
    the_headings_of_the_automatic_mode(line, keyword);
    the_headings_of_the_default_mode(line, keyword);
    the_headings_of_the_loose_mode(line, keyword);
    let t = text::trim(line);
    if n.title.len() <= 30 {
        assert(loose_number(t, "第"@, n));
        if n.first.len() <= 1 && n.second.len() <= 1 {
            assert(default_number(t, n));
        }
    }
}

// ---------------------------------------------------------------- the other modes

/// A numbered line with at most one blank between its parts and a title of at most
/// thirty characters.
pub open spec fn default_number(t: Seq<char>, n: Numbered) -> bool {
    counted(t, n) && n.first.len() <= 1 && n.second.len() <= 1 && n.title.len() <= 30
}

/// `番外`, some blanks, a number of at most twenty characters that may be missing,
/// and at most thirty characters.
pub open spec fn extra_line(
    t: Seq<char>,
    gap: Seq<char>,
    number: Seq<char>,
    title: Seq<char>,
    blanks: nat,
) -> bool {
    &&& t == "番外"@ + (gap + (number + title))
    &&& blank(gap)
    &&& gap.len() <= blanks
    &&& all_number(number)
    &&& number.len() <= 20
    &&& title.len() <= 30
}

/// The text is an extra chapter with at most so many blanks.
pub open spec fn extra(t: Seq<char>, blanks: nat) -> bool {
    exists|gap: Seq<char>, number: Seq<char>, title: Seq<char>|
        extra_line(t, gap, number, title, blanks)
}

proof fn lemma_extra(t: Seq<char>, blanks: nat)
    ensures
        extra(t, blanks) <==> text::starts_with(t, "番外"@) && headings::after_number(
            headings::after_spaces(t.skip("番外"@.len() as int), blanks),
        ).len() <= 30,
{
    lemma_classes();
    lemma_begins(t, "番外"@);
    let after = t.skip("番外"@.len() as int);
    lemma_run_parts(after, text::spaces(), blanks);
    let k = text::run(after, text::spaces(), blanks) as int;
    let more = after.skip(k);
    lemma_run_parts(more, headings::cn_nums(), 20);
    let m = text::run(more, headings::cn_nums(), 20) as int;
    if text::starts_with(t, "番外"@) && more.skip(m).len() <= 30 {
        let gap = after.take(k);
        let number = more.take(m);
        assert forall|i: int| 0 <= i < gap.len() implies text::whitespace(#[trigger] gap[i]) by {
            assert(text::spaces()(gap[i]));
        }
        assert forall|i: int| 0 <= i < number.len() implies number_char(#[trigger] number[i]) by {
            assert(headings::cn_nums()(number[i]));
        }
        assert(extra_line(t, gap, number, more.skip(m), blanks));
    }
    if extra(t, blanks) {
        let (gap, number, title) = choose|gap: Seq<char>, number: Seq<char>, title: Seq<char>|
            extra_line(t, gap, number, title, blanks);
        assert(after == gap + (number + title));
        if k < gap.len() {
            assert(after.skip(k)[0] == gap[k]);
            assert(!text::spaces()(gap[k]));
        }
        if k > gap.len() {
            if number.len() > 0 {
                assert(after.take(k)[gap.len() as int] == number[0]);
                assert(text::spaces()(number[0]));
                assert(headings::cn_num(number[0]));
            }
        } else {
            assert(more =~= number + title);
            if m < number.len() {
                assert(more.skip(m)[0] == number[m]);
                assert(!headings::cn_nums()(number[m]));
            }
        }
    }
}

/// In the default mode a line is a heading exactly where it is a numbered line with
/// at most one blank between its parts, or an extra chapter with at most two, and
/// its title has at most thirty characters, the line fifty.
pub proof fn the_headings_of_the_default_mode(line: Seq<char>, keyword: Seq<char>)
    ensures
        headings::heading_line(SplitMode::Default, line, keyword) <==> text::trim(line).len() <= 50
            && ((exists|n: Numbered| default_number(text::trim(line), n)) || extra(
            text::trim(line),
            2,
        )),
{
    let t = text::trim(line);
    lemma_di(t);
    lemma_extra(t, 2);
    reveal_strlit("第");
    reveal_strlit("番外");
    if t.len() > 0 && t[0] == '第' {
        let body = t.skip(1);
        if headings::default_heading(t) {
            lemma_parts(body, 1, 1);
            assert(default_number(t, parts(body, 1, 1)));
        }
        if exists|n: Numbered| default_number(t, n) {
            let n = choose|n: Numbered| default_number(t, n);
            lemma_walk(n, 1, 1);
        }
        if extra(t, 2) {
            assert(t.take(2)[0] == "番外"@[0]);
        }
    } else {
        assert forall|n: Numbered| default_number(t, n) implies false by {
            assert(t == "第"@ + n.body());
        }
    }
}

/// A numbered line, whose `第` may be missing, with a title of at most thirty
/// characters.
pub open spec fn loose_number(t: Seq<char>, word: Seq<char>, n: Numbered) -> bool {
    n.wf() && (word == "第"@ || word == ""@) && t == word + n.body() && n.title.len() <= 30
}

/// In the loose mode a line is a heading exactly where it is a numbered line, with
/// or without `第` and with any blanks between its parts, or an extra chapter with any
/// blanks, and its title has at most thirty characters, the line fifty.
pub proof fn the_headings_of_the_loose_mode(line: Seq<char>, keyword: Seq<char>)
    ensures
        headings::heading_line(SplitMode::Loose, line, keyword) <==> text::trim(line).len() <= 50
            && ((exists|word: Seq<char>, n: Numbered| loose_number(text::trim(line), word, n))
            || extra(text::trim(line), text::trim(line).len())),
{
    let t = text::trim(line);
    lemma_trimmed(line);
    lemma_di(t);
    lemma_classes();
    reveal_strlit("第");
    reveal_strlit("番外");
    reveal_strlit("");
    let body = if t.len() > 0 && t[0] == '第' {
        t.skip(1)
    } else {
        t
    };
    let word = if t.len() > 0 && t[0] == '第' {
        "第"@
    } else {
        ""@
    };
    assert(""@ + t =~= t);
    assert(t == word + body);
    let number = headings::after_spaces(body, body.len());
    let rest = headings::after_number(number);
    text::lemma_run(body, text::spaces(), body.len());
    text::lemma_run(number, headings::cn_nums(), 20);
    lemma_limit(rest, text::spaces(), body.len());
    let end = headings::after_spaces(rest, body.len());
    if headings::number_len(number) >= 1 && headings::unit_and_tail(end) {
        lemma_parts(body, body.len(), body.len());
        assert(loose_number(t, word, parts(body, body.len(), body.len())));
    }
    if exists|w: Seq<char>, n: Numbered| loose_number(t, w, n) {
        let (w, n) = choose|w: Seq<char>, n: Numbered| loose_number(t, w, n);
        if w == ""@ {
            assert(""@ + n.body() =~= n.body());
            if t[0] == '第' {
                if n.first.len() > 0 {
                    assert(t[0] == n.first[0]);
                    assert(text::whitespace(n.first[0]));
                } else {
                    assert(t[0] == n.number[0]);
                    assert(number_char(n.number[0]));
                }
            }
        }
        assert(body == n.body());
        lemma_walk(n, body.len(), body.len());
    }
    lemma_extra(t, t.len());
    if text::starts_with(t, "番外"@) {
        assert(t.take(2)[0] == t[0]);
        assert(t[0] == '番');
        let after = t.skip(2);
        lemma_limit(after, text::spaces(), t.len());
        if text::run(body, text::spaces(), body.len()) > 0 {
            assert(text::spaces()(t[0]));
        }
        assert(number =~= t);
        if headings::number_len(number) > 0 {
            text::lemma_run(number, headings::cn_nums(), 20);
            assert(headings::cn_nums()(t[0]));
        }
    }
}

/// In the English mode a line is a heading exactly where it is `Chapter` or
/// `CHAPTER`, at least one blank, and a digit.
pub proof fn the_headings_of_the_english_mode(line: Seq<char>, keyword: Seq<char>)
    ensures
        headings::heading_line(SplitMode::English, line, keyword) <==> exists|
            word: Seq<char>,
            gap: Seq<char>,
            digit: char,
            rest: Seq<char>,
        | english_line(text::trim(line), word, gap, digit, rest),
{
    let t = text::trim(line);
    lemma_trimmed(line);
    lemma_english(t, "Chapter"@);
    lemma_english(t, "CHAPTER"@);
}

/// The word, at least one blank, and a digit.
pub open spec fn english_line(
    t: Seq<char>,
    word: Seq<char>,
    gap: Seq<char>,
    digit: char,
    rest: Seq<char>,
) -> bool {
    &&& word == "Chapter"@ || word == "CHAPTER"@
    &&& t == word + (gap + (seq![digit] + rest))
    &&& gap.len() > 0
    &&& blank(gap)
    &&& digit_char(digit)
}

proof fn lemma_english(t: Seq<char>, word: Seq<char>)
    requires
        word == "Chapter"@ || word == "CHAPTER"@,
    ensures
        headings::word_space_digit(t, word) <==> exists|gap: Seq<char>, digit: char, rest: Seq<char>|
            english_line(t, word, gap, digit, rest),
{
    lemma_classes();
    lemma_begins(t, word);
    let after = t.skip(word.len() as int);
    lemma_run_parts(after, text::spaces(), after.len());
    let n = text::run(after, text::spaces(), after.len()) as int;
    if headings::word_space_digit(t, word) {
        let gap = after.take(n);
        let end = after.skip(n);
        assert forall|i: int| 0 <= i < gap.len() implies text::whitespace(#[trigger] gap[i]) by {
            assert(text::spaces()(gap[i]));
        }
        assert(end =~= seq![after[n]] + end.skip(1));
        assert(english_line(t, word, gap, after[n], end.skip(1)));
    }
    if exists|gap: Seq<char>, digit: char, rest: Seq<char>|
        english_line(t, word, gap, digit, rest) {
        let (gap, digit, rest) = choose|gap: Seq<char>, digit: char, rest: Seq<char>|
            english_line(t, word, gap, digit, rest);
        let end = seq![digit] + rest;
        assert(after == gap + end);
        assert forall|i: int| 0 <= i < gap.len() implies text::spaces()(#[trigger] gap[i]) by {}
        assert(end[0] == digit);
        assert(text::ascii_digit(digit));
        lemma_run_of(gap, end, text::spaces(), after.len());
        assert(after[n] == end[0]);
    }
}

/// A number, and then a dot, a comma or a blank.
pub open spec fn dotted(
    t: Seq<char>,
    number: Seq<char>,
    dot: char,
    rest: Seq<char>,
    digits: bool,
) -> bool {
    &&& t == number + (seq![dot] + rest)
    &&& number.len() > 0
    &&& forall|i: int|
        0 <= i < number.len() ==> if digits {
            digit_char(#[trigger] number[i])
        } else {
            numeral_char(number[i])
        }
    &&& dot == '、' || dot == '.' || text::whitespace(dot)
}

/// With Chinese numerals, or with digits, a line is a heading exactly where it
/// begins with a number of them and then a dot, a comma or a blank.
pub proof fn the_headings_of_the_dotted_modes(line: Seq<char>, keyword: Seq<char>)
    ensures
        headings::heading_line(SplitMode::ZhNumDot, line, keyword) <==> exists|
            number: Seq<char>,
            dot: char,
            rest: Seq<char>,
        | dotted(text::trim(line), number, dot, rest, false),
        headings::heading_line(SplitMode::DigitDot, line, keyword) <==> exists|
            number: Seq<char>,
            dot: char,
            rest: Seq<char>,
        | dotted(text::trim(line), number, dot, rest, true),
{
    let t = text::trim(line);
    lemma_trimmed(line);
    lemma_dotted(t, headings::zh_nums(), false);
    lemma_dotted(t, text::digits(), true);
}

proof fn lemma_dotted(t: Seq<char>, p: spec_fn(char) -> bool, digits: bool)
    requires
        p == (if digits {
            text::digits()
        } else {
            headings::zh_nums()
        }),
    ensures
        ({
            let n = text::run(t, p, t.len());
            n > 0 && headings::dot_first(t.skip(n as int))
        }) <==> exists|number: Seq<char>, dot: char, rest: Seq<char>|
            dotted(t, number, dot, rest, digits),
{
    lemma_classes();
    lemma_run_parts(t, p, t.len());
    let n = text::run(t, p, t.len()) as int;
    if n > 0 && headings::dot_first(t.skip(n)) {
        let number = t.take(n);
        let end = t.skip(n);
        assert forall|i: int| 0 <= i < number.len() implies if digits {
            digit_char(#[trigger] number[i])
        } else {
            numeral_char(number[i])
        } by {
            assert(p(number[i]));
        }
        assert(end =~= seq![end[0]] + end.skip(1));
        assert(dotted(t, number, end[0], end.skip(1), digits));
    }
    if exists|number: Seq<char>, dot: char, rest: Seq<char>| dotted(t, number, dot, rest, digits) {
        let (number, dot, rest) = choose|number: Seq<char>, dot: char, rest: Seq<char>|
            dotted(t, number, dot, rest, digits);
        let end = seq![dot] + rest;
        assert forall|i: int| 0 <= i < number.len() implies p(#[trigger] number[i]) by {}
        assert(end[0] == dot);
        assert(!p(dot)) by {
            assert(!headings::zh_num(dot) && !text::ascii_digit(dot));
        }
        lemma_run_of(number, end, p, t.len());
    }
}

// ---------------------------------------------------------------- keywords

/// A text without the separator is one piece.
proof fn lemma_one_piece(p: Seq<char>, sep: char)
    requires
        !p.contains(sep),
    ensures
        text::split_on(p, sep) == seq![p],
    decreases p.len(),
{
    if p.len() > 0 {
        let before = p.drop_last();
        assert(!before.contains(sep)) by {
            if before.contains(sep) {
                let i = choose|i: int| 0 <= i < before.len() && before[i] == sep;
                assert(p[i] == sep);
            }
        }
        lemma_one_piece(before, sep);
        assert(p[p.len() - 1] != sep);
        assert(text::split_on(p, sep) =~= seq![before.push(p.last())]);
        assert(before.push(p.last()) =~= p);
    } else {
        assert(p =~= Seq::<char>::empty());
    }
}

/// A separator begins a new piece.
proof fn lemma_next_piece(front: Seq<char>, p: Seq<char>, sep: char)
    requires
        !p.contains(sep),
    ensures
        text::split_on(front.push(sep) + p, sep) == text::split_on(front, sep).push(p),
    decreases p.len(),
{
    let s = front.push(sep) + p;
    if p.len() > 0 {
        let before = p.drop_last();
        assert(!before.contains(sep)) by {
            if before.contains(sep) {
                let i = choose|i: int| 0 <= i < before.len() && before[i] == sep;
                assert(p[i] == sep);
            }
        }
        lemma_next_piece(front, before, sep);
        assert(p[p.len() - 1] != sep);
        assert(s.drop_last() =~= front.push(sep) + before);
        assert(before.push(p.last()) =~= p);
        let old_pieces = text::split_on(front, sep);
        assert(old_pieces.push(before).drop_last() =~= old_pieces);
    } else {
        assert(s =~= front.push(sep));
        assert(s.drop_last() =~= front);
        assert(p =~= Seq::<char>::empty());
    }
}

/// Splitting a text that was joined from pieces gives the pieces.
pub proof fn split_of_join(pieces: Seq<Seq<char>>, sep: char)
    requires
        pieces.len() > 0,
        forall|i: int| 0 <= i < pieces.len() ==> !(#[trigger] pieces[i]).contains(sep),
    ensures
        text::split_on(text::join(pieces, sep), sep) == pieces,
    decreases pieces.len(),
{
    if pieces.len() == 1 {
        lemma_one_piece(pieces[0], sep);
        assert(pieces =~= seq![pieces[0]]);
    } else {
        let front = pieces.drop_last();
        assert forall|i: int| 0 <= i < front.len() implies !(#[trigger] front[i]).contains(sep) by {
            assert(front[i] == pieces[i]);
        }
        split_of_join(front, sep);
        assert(pieces.last() == pieces[pieces.len() - 1]);
        lemma_next_piece(text::join(front, sep), pieces.last(), sep);
        assert(front.push(pieces.last()) =~= pieces);
    }
}

/// With keywords, given with `|` between them, a line is a heading exactly where it
/// begins with one of them; blanks around a keyword do not count, nor do empty ones.
pub proof fn the_headings_of_the_keyword_mode(line: Seq<char>, words: Seq<Seq<char>>)
    requires
        words.len() > 0,
        forall|i: int| 0 <= i < words.len() ==> !(#[trigger] words[i]).contains('|'),
    ensures
        headings::heading_line(SplitMode::Custom, line, text::join(words, '|')) <==> exists|i: int|
            0 <= i < words.len() && text::trim(#[trigger] words[i]).len() > 0 && begins_with(
                text::trim(line),
                text::trim(words[i]),
            ),
{
    split_of_join(words, '|');
    lemma_trimmed(line);
    let t = text::trim(line);
    assert forall|i: int| 0 <= i < words.len() implies (text::starts_with(
        t,
        text::trim(#[trigger] words[i]),
    ) <==> begins_with(t, text::trim(words[i]))) by {
        lemma_begins(t, text::trim(words[i]));
    }
}

/// Splitting by word count knows no headings, and a blank line is none in any mode.
pub proof fn what_is_no_heading(line: Seq<char>, keyword: Seq<char>, mode: SplitMode)
    ensures
        !headings::heading_line(SplitMode::ByWordCount, line, keyword),
        blank(line) ==> !headings::heading_line(mode, line, keyword),
{
    text::lemma_trim(line);
    if blank(line) {
        text::lemma_words_blank(line);
    }
}

// ---------------------------------------------------------------- the headings of a book

/// The headings of a book are its lines that the mode takes for one, each once and
/// in order; where the automatic mode finds none, lines with a bare number and a
/// title are taken.
pub proof fn the_headings_of_a_book(
    lines: Seq<Seq<char>>,
    mode: SplitMode,
    keyword: Seq<char>,
    i: int,
)
    ensures
        ({
            let hs = chapters::heading_lines(lines, mode, keyword);
            let bare_too = mode == SplitMode::Auto && forall|j: int|
                0 <= j < lines.len() ==> !headings::heading_line(mode, #[trigger] lines[j], keyword);
            &&& hs.contains(i) <==> 0 <= i < lines.len() && if bare_too {
                text::trim(lines[i]).len() <= 50 && bare(text::trim(lines[i]))
            } else {
                headings::heading_line(mode, lines[i], keyword)
            }
            &&& forall|j: int, k: int|
                0 <= j < k < hs.len() ==> (#[trigger] hs[j]) < (#[trigger] hs[k])
        }),
{
    let rule = chapters::mode_rule(mode, keyword);
    let weak = chapters::weak_rule();
    chapters::lemma_lines_that(lines, rule);
    chapters::lemma_lines_that(lines, weak);
    let hs = chapters::heading_lines(lines, mode, keyword);
    let found = chapters::lines_that(lines, rule);
    let bare_too = mode == SplitMode::Auto && forall|j: int|
        0 <= j < lines.len() ==> !headings::heading_line(mode, #[trigger] lines[j], keyword);
    if found.len() > 0 {
        let j = found[0];
        assert(rule(lines[j]));
        assert(headings::heading_line(mode, lines[j], keyword));
    } else if mode == SplitMode::Auto {
        assert forall|j: int| 0 <= j < lines.len() implies !headings::heading_line(
            mode,
            #[trigger] lines[j],
            keyword,
        ) by {
            if rule(lines[j]) {
                assert(found.contains(j));
            }
        }
        assert(bare_too);
    }
    if bare_too {
        assert(found.len() == 0);
        if 0 <= i < lines.len() {
            lemma_trimmed(lines[i]);
            lemma_bare(text::trim(lines[i]));
            assert(!headings::heading_line(mode, lines[i], keyword));
            text::lemma_trim(lines[i]);
            assert(weak(lines[i]) <==> headings::heading_sized(lines[i]) && bare(
                text::trim(lines[i]),
            ));
        }
        if hs.contains(i) {
            let k = choose|k: int| 0 <= k < hs.len() && hs[k] == i;
            assert(weak(lines[hs[k]]));
        }
    } else {
        if 0 <= i < lines.len() {
            assert(rule(lines[i]) <==> headings::heading_line(mode, lines[i], keyword));
        }
        if hs.contains(i) {
            let k = choose|k: int| 0 <= k < hs.len() && hs[k] == i;
            assert(rule(lines[hs[k]]));
        }
    }
}

} // verus!
