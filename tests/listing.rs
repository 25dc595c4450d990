use thread_board::listing::{prepare, summarize, ListingError, PageState};
use thread_board::order::{cmp_newer_first, newest_first, ThreadRow, Timestamp};
use thread_board::text::{shorten, truncate_by_chars, CONTENT_CHAR_LIMIT, TITLE_CHAR_LIMIT};
use std::cmp::Ordering;

const PATTERN: &str = "%Y-%m-%d %H:%M:%S";

fn row(id: &str, updated: i64, title: &str, content: &str, comments: i32) -> ThreadRow {
    ThreadRow {
        thread_id: id.to_string(),
        user_id: format!("author-{}", id),
        created: Timestamp { micros: updated - 1_000_000 },
        last_updated: Timestamp { micros: updated },
        title: title.to_string(),
        content: content.to_string(),
        num_comments: comments,
    }
}

fn listed(rows: Vec<ThreadRow>) -> PageState {
    prepare(rows, "viewer".to_string(), PATTERN).unwrap()
}

#[test]
fn newer_thread_comes_first() {
    let t1: i64 = 1_662_921_288_000_000;
    let t2: i64 = t1 + 60_000_000;
    let page = listed(vec![row("b", t1, "B", "body b", 1), row("a", t2, "A", "body a", 2)]);
    assert_eq!(page.num_threads, 2);
    let ids: Vec<&str> = page.threads.iter().map(|t| t.thread_id.as_str()).collect();
    assert_eq!(ids, vec!["a", "b"]);
    assert!(!page.threads[0].overflow);
    assert!(!page.threads[1].overflow);
    assert_eq!(page.threads[0].title, "A");
    assert_eq!(page.threads[1].content, "body b");
    assert_eq!(page.user_id, "viewer");
}

#[test]
fn long_title_is_cut_with_marker() {
    let title: String = "t".repeat(61);
    let page = listed(vec![row("x", 0, &title, "c", 0)]);
    let t = &page.threads[0];
    assert_eq!(t.title, format!("{}...", "t".repeat(60)));
    assert_eq!(t.title.chars().count(), 63);
    assert!(!t.multiple_comments);
    assert_eq!(t.num_comments, 0);
}

#[test]
fn long_content_overflows() {
    let content: String = "é".repeat(701);
    let page = listed(vec![row("x", 0, "t", &content, 3)]);
    let t = &page.threads[0];
    assert!(t.overflow);
    assert_eq!(t.content.chars().count(), 703);
    assert_eq!(t.content, format!("{}...", "é".repeat(700)));
}

#[test]
fn empty_listing() {
    let page = listed(Vec::new());
    assert_eq!(page.num_threads, 0);
    assert!(page.threads.is_empty());
}

#[test]
fn text_at_the_limits_is_kept() {
    let title = "ü".repeat(TITLE_CHAR_LIMIT);
    let content = "x".repeat(CONTENT_CHAR_LIMIT);
    let page = listed(vec![row("x", 5, &title, &content, 1)]);
    let t = &page.threads[0];
    assert_eq!(t.title, title);
    assert_eq!(t.content, content);
    assert!(!t.overflow);
}

#[test]
fn comment_pluralization() {
    for (n, many) in [(0, false), (1, false), (2, true), (17, true)] {
        let t = summarize(&row("x", 0, "t", "c", n), "c".to_string(), "u".to_string());
        assert_eq!(t.num_comments, n);
        assert_eq!(t.multiple_comments, many);
        assert_eq!(t.created, "c");
        assert_eq!(t.last_updated, "u");
    }
}

#[test]
fn count_matches_input_and_no_row_is_lost() {
    let rows: Vec<ThreadRow> = (0..5).map(|i| row(&i.to_string(), (i * 7 % 5) as i64, "t", "c", 0)).collect();
    let page = listed(rows);
    assert_eq!(page.num_threads, 5);
    let mut ids: Vec<String> = page.threads.iter().map(|t| t.thread_id.clone()).collect();
    ids.sort();
    assert_eq!(ids, vec!["0", "1", "2", "3", "4"]);
}

#[test]
fn distinct_times_strictly_descend() {
    let rows = vec![row("a", 3, "t", "c", 0), row("b", 9, "t", "c", 0), row("c", -4, "t", "c", 0), row("d", 5, "t", "c", 0)];
    assert_eq!(newest_first(&rows), vec![1, 3, 0, 2]);
}

#[test]
fn equal_times_keep_input_order() {
    let rows = vec![row("a", 3, "t", "c", 0), row("b", 8, "t", "c", 0), row("c", 3, "t", "c", 0), row("d", 3, "t", "c", 0)];
    assert_eq!(newest_first(&rows), vec![1, 0, 2, 3]);
}

#[test]
fn comparator_puts_later_first() {
    assert_eq!(cmp_newer_first(&(5, 0), &(2, 1)), Ordering::Less);
    assert_eq!(cmp_newer_first(&(2, 0), &(5, 1)), Ordering::Greater);
    assert_eq!(cmp_newer_first(&(2, 0), &(2, 1)), Ordering::Equal);
}

#[test]
fn timestamps_are_rendered() {
    let page = listed(vec![row("x", 1_662_921_288_000_000, "t", "c", 0)]);
    assert_eq!(page.threads[0].last_updated, "2022-09-11 18:34:48");
    assert_eq!(page.threads[0].created, "2022-09-11 18:34:47");
}

#[test]
fn out_of_range_timestamp_is_an_error() {
    let r = prepare(vec![row("x", i64::MAX, "t", "c", 0)], "v".to_string(), PATTERN);
    assert_eq!(r.unwrap_err(), ListingError::UnformattableTimestamp);
}

#[test]
fn truncation_counts_characters_not_bytes() {
    assert_eq!(truncate_by_chars("héllo wörld".to_string(), 4), "héll");
    assert_eq!(truncate_by_chars("abc".to_string(), 10), "abc");
    assert_eq!(truncate_by_chars("abc".to_string(), 0), "");
    assert_eq!(shorten("abcdef".to_string(), 3), ("abc...".to_string(), true));
    assert_eq!(shorten("abc".to_string(), 3), ("abc".to_string(), false));
}
