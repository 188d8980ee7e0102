//! Books, headings and chunks.
use ebooksync::chapters::count_words;
use ebooksync::chapters::split_by_word_count;
use ebooksync::chapters::split_chapters;
use ebooksync::chapters::split_chapters_with;
use ebooksync::chapters::split_into_chunks;
use ebooksync::chapters::SplitMode;
use ebooksync::chapters::SplitOptions;
use ebooksync::headings::match_default;
use ebooksync::headings::match_digit_dot;
use ebooksync::headings::match_english;
use ebooksync::headings::match_loose;
use ebooksync::headings::match_zh_num_dot;

#[test]
fn single_book_without_headings() {
    let ch = split_chapters("hello\nworld", "book.txt");
    assert_eq!(ch.len(), 1);
    assert_eq!(ch[0].name, "book.txt");
}

#[test]
fn chinese_numbered_headings() {
    let text = "第一章 开始\n内容一\n第二章 继续\n内容二";
    let ch = split_chapters(text, "b.txt");
    assert_eq!(ch.len(), 2);
    assert_eq!(ch[0].name, "第一章 开始");
    assert_eq!(ch[1].index, 1);
}

#[test]
fn preface_is_separate_chapter() {
    let text = "前言部分\n\n序章\n正文";
    let ch = split_chapters(text, "b.txt");
    assert_eq!(ch[0].name, "b.txt");
    assert_eq!(ch[1].name, "序章");
}

#[test]
fn special_word_inside_sentence_not_heading() {
    let text = "第一章\n他说前言不搭后语，然后继续说话";
    let ch = split_chapters(text, "b.txt");
    assert_eq!(ch.len(), 1);
}

#[test]
fn chapter_prefixed_heading() {
    let text = "Chapter 1\nbody\nChapter 2\nbody2";
    let ch = split_chapters(text, "b.txt");
    assert_eq!(ch.len(), 2);
}

#[test]
fn weak_numeric_heading_used_only_without_strong() {
    let text = "1、开始\n内容\n2、继续\n内容";
    let ch = split_chapters(text, "b.txt");
    assert_eq!(ch.len(), 2);
}

#[test]
fn chunk_never_splits_multibyte() {
    let s = "中".repeat(100);
    let chunks = split_into_chunks(&s, 10);
    for c in &chunks {
        assert!(c.len() <= 10);
    }
    assert_eq!(chunks.concat(), s);
}

#[test]
fn chunk_preserves_emoji() {
    let s = "😀".repeat(50);
    let chunks = split_into_chunks(&s, 7);
    assert_eq!(chunks.concat(), s);
    for c in &chunks {
        assert!(c.len() <= 7);
    }
}

#[test]
fn empty_content_yields_one_empty_chunk() {
    assert_eq!(split_into_chunks("", 16), vec![String::new()]);
}

#[test]
fn indexes_are_sequential() {
    let text = "第一章 a\n1\n第二章 b\n2\n第三章 c\n3";
    let ch = split_chapters(text, "b.txt");
    for (i, c) in ch.iter().enumerate() {
        assert_eq!(c.index, i);
    }
}

fn opts(mode: SplitMode) -> SplitOptions {
    SplitOptions {
        mode,
        ..Default::default()
    }
}

#[test]
fn mode_default_matches_app_regex() {
    let o = opts(SplitMode::Default);
    for line in ["第一章 开始", "第1章", "第 3 卷 风起", "第2回 归途", "番外 1", "番外"] {
        assert!(match_default(line.trim()), "应命中: {line}");
    }
    for line in ["他说第一章很好看", "前言不搭后语", "第x章"] {
        assert!(!match_default(line.trim()), "不应命中: {line}");
    }
    let long_tail = format!("第1章 {}", "字".repeat(31));
    assert!(!match_default(&long_tail), "超长尾部不应命中");
    let ch = split_chapters_with("第一章 a\nx\n第二章 b\ny", "b.txt", &o);
    assert_eq!(ch.len(), 2);
}

#[test]
fn mode_loose_allows_missing_di() {
    let o = opts(SplitMode::Loose);
    for line in ["1 章 开始", "  2章", "第三章 尾声", "番外 3"] {
        assert!(match_loose(line.trim()), "应命中: {line}");
    }
    let ch = split_chapters_with("1 章 a\nx\n2章 b\ny", "b.txt", &o);
    assert_eq!(ch.len(), 2);
}

#[test]
fn mode_english_requires_space_then_digits() {
    assert!(match_english("Chapter 1"));
    assert!(match_english("CHAPTER 42"));
    assert!(!match_english("ChapterOne"));
    assert!(!match_english("chapter"));
    let ch = split_chapters_with("Chapter 1\na\nChapter 2\nb", "b.txt", &opts(SplitMode::English));
    assert_eq!(ch.len(), 2);
}

#[test]
fn mode_zh_num_dot() {
    assert!(match_zh_num_dot("一、开始"));
    assert!(match_zh_num_dot("三. 继续"));
    assert!(match_zh_num_dot("  十二、终"));
    assert!(!match_zh_num_dot("一开始就很好"));
    let ch = split_chapters_with("一、开始\nx\n二、继续\ny", "b.txt", &opts(SplitMode::ZhNumDot));
    assert_eq!(ch.len(), 2);
}

#[test]
fn mode_digit_dot() {
    assert!(match_digit_dot("1、开始"));
    assert!(match_digit_dot("12. 继续"));
    assert!(!match_digit_dot("2024年"));
    let ch = split_chapters_with("1. a\nx\n2. b\ny", "b.txt", &opts(SplitMode::DigitDot));
    assert_eq!(ch.len(), 2);
}

#[test]
fn mode_by_word_count() {
    let text = "字".repeat(25);
    let o = SplitOptions {
        mode: SplitMode::ByWordCount,
        words_per_chapter: 10,
        keyword: String::new(),
    };
    let ch = split_chapters_with(&text, "b.txt", &o);
    assert_eq!(ch.len(), 3);
    assert_eq!(ch[0].name, "第 1 章");
    assert_eq!(ch[0].word_count, 10);
    assert_eq!(ch[2].word_count, 5);
}

#[test]
fn mode_custom_keyword_prefix() {
    let o = SplitOptions {
        mode: SplitMode::Custom,
        words_per_chapter: 5000,
        keyword: "【卷|###".to_string(),
    };
    let text = "【卷一】起\n内容\n### 转折\n内容2";
    let ch = split_chapters_with(text, "b.txt", &o);
    assert_eq!(ch.len(), 2);
    assert_eq!(ch[0].name, "【卷一】起");
}

#[test]
fn mode_non_auto_uses_preface_and_fulltext_names() {
    let o = opts(SplitMode::DigitDot);
    let ch = split_chapters_with("引子内容\n1. 开始\n正文", "b.txt", &o);
    assert_eq!(ch[0].name, "前言");

    let ch2 = split_chapters_with("没有任何标题的正文", "b.txt", &o);
    assert_eq!(ch2.len(), 1);
    assert_eq!(ch2[0].name, "全文");
}

#[test]
fn split_mode_cycles_through_all() {
    let mut m = SplitMode::Auto;
    let mut seen = vec![m];
    for _ in 0..7 {
        m = m.next();
        seen.push(m);
    }
    assert_eq!(m.next(), SplitMode::Auto);
    assert_eq!(seen.len(), 8);
}

fn every_mode() -> Vec<SplitMode> {
    vec![
        SplitMode::Auto,
        SplitMode::Default,
        SplitMode::Loose,
        SplitMode::English,
        SplitMode::ZhNumDot,
        SplitMode::DigitDot,
        SplitMode::ByWordCount,
        SplitMode::Custom,
    ]
}

const MIXED: &str = "  \n引子 起\r\n正文一\r第1章 甲\n1. 乙\n一、丙\nChapter 3 丁\n  2章 戊  \n卷一\n末 尾\n";

fn mixed(mode: SplitMode) -> SplitOptions {
    SplitOptions {
        mode,
        words_per_chapter: 7,
        keyword: "卷| |Chap".to_string(),
    }
}

#[test]
fn no_mode_loses_a_word() {
    for mode in every_mode() {
        let ch = split_chapters_with(MIXED, "b.txt", &mixed(mode));
        let words: usize = ch.iter().map(|c| count_words(&c.content)).sum();
        assert_eq!(words, count_words(MIXED), "{:?}", mode);
        assert!(ch.iter().enumerate().all(|(i, c)| c.index == i));
        if mode != SplitMode::ByWordCount {
            assert!(ch.iter().all(|c| c.word_count == count_words(&c.content)));
        }
    }
}

#[test]
fn chapters_by_heading_join_to_the_text() {
    let whole = MIXED.replace("\r\n", "\n").replace('\r', "\n");
    for mode in every_mode() {
        if mode == SplitMode::ByWordCount {
            continue;
        }
        let ch = split_chapters_with(MIXED, "b.txt", &mixed(mode));
        let joined = ch.iter().map(|c| c.content.clone()).collect::<Vec<_>>().join("\n");
        assert!(whole.ends_with(&joined), "{:?}", mode);
        assert!(whole[..whole.len() - joined.len()].trim().is_empty(), "{:?}", mode);
    }
}

#[test]
fn each_mode_finds_its_headings() {
    let names = |mode: SplitMode| -> Vec<String> {
        split_chapters_with(MIXED, "b.txt", &mixed(mode)).into_iter().map(|c| c.name).collect()
    };
    assert_eq!(names(SplitMode::Auto), vec!["引子 起", "第1章 甲", "Chapter 3 丁"]);
    assert_eq!(names(SplitMode::Default), vec!["前言", "第1章 甲"]);
    assert_eq!(names(SplitMode::Loose), vec!["前言", "第1章 甲", "2章 戊"]);
    assert_eq!(names(SplitMode::English), vec!["前言", "Chapter 3 丁"]);
    assert_eq!(names(SplitMode::ZhNumDot), vec!["前言", "一、丙"]);
    assert_eq!(names(SplitMode::DigitDot), vec!["前言", "1. 乙"]);
    assert_eq!(names(SplitMode::Custom), vec!["前言", "Chapter 3 丁", "卷一"]);
}

#[test]
fn long_headings_are_cut_to_their_limit() {
    let line = format!("一、{}", "长".repeat(80));
    let o = opts(SplitMode::ZhNumDot);
    let ch = split_chapters_with(&line, "b.txt", &o);
    assert_eq!(ch.len(), 1);
    assert_eq!(ch[0].name.chars().count(), 50);
    assert!(line.starts_with(&ch[0].name));
}

#[test]
fn strong_headings_hide_weak_ones() {
    let ch = split_chapters("1、甲\n正文\n第一章\n2、乙", "b.txt");
    assert_eq!(ch.len(), 2);
    assert_eq!(ch[1].name, "第一章");
}

#[test]
fn splitting_by_words_leaves_blank_runs_out() {
    let o = SplitOptions {
        mode: SplitMode::ByWordCount,
        words_per_chapter: 4,
        keyword: String::new(),
    };
    let ch = split_chapters_with("abcd        ef", "b.txt", &o);
    assert_eq!(ch.len(), 2);
    assert_eq!(ch[1].content, "ef");
    assert_eq!(ch[1].name, "第 2 章");
    let blank = split_chapters_with("   ", "b.txt", &o);
    assert_eq!((blank.len(), blank[0].name.as_str(), blank[0].word_count), (1, "全文", 0));
    let zero = SplitOptions { words_per_chapter: 0, ..o };
    assert_eq!(split_by_word_count("ab", 1).len(), split_chapters_with("ab", "b.txt", &zero).len());
}

#[test]
fn chunks_are_as_long_as_the_budget_allows() {
    let chunks = split_into_chunks("ab中cd文e", 4);
    assert_eq!(chunks, vec!["ab", "中c", "d文", "e"]);
    assert_eq!(split_into_chunks("中文", 1), vec!["中", "文"]);
}
