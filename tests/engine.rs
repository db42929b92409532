use log_engine::args::ProcessCommand;
use log_engine::engine::{aggregate, is_valid_filter, scan_in_turn, spread_tasks, ConfigError};
use log_engine::level::{check_log_levels, LogLevel};
use log_engine::partition::{partition, Chunk};
use log_engine::report::{process, FinalReport, LevelCounts, PartialResult};
use log_engine::text::{chars_of, contains_in, string_of};
use log_engine::worker::scan_chunk;

const SAMPLE: &str = "2024-01-01T00:00:01 Error disk full\n\
2024-01-01T00:00:02 Info started\n\
2024-01-01T00:00:03 Warning slow reply\n\
2024-01-01T00:00:04 Debug state dump\n\
2024-01-01T00:00:05 Info retry after Error\n\
malformed line\n\
2024-01-01T00:00:06 Error out of memory\n\
\n\
2024-01-01T00:00:07 Debug done\n";

fn run(threads: u128, content: &str, filter: &str) -> FinalReport {
    spread_tasks(Some(threads), content, Some(filter.to_string())).unwrap()
}

fn chars(s: &str) -> Vec<char> {
    s.chars().collect()
}

#[test]
fn counts_by_level() {
    let r = run(1, SAMPLE, "Error");
    assert_eq!(r.counts.error, 3);
    assert_eq!(r.counts.info, 1);
    assert_eq!(r.counts.warning, 1);
    assert_eq!(r.counts.debug, 2);
}

#[test]
fn count_conservation_for_any_worker_count() {
    for w in [1u128, 2, 3, 16, 100] {
        let r = run(w, SAMPLE, "Error");
        assert_eq!(r.counts.total(), 7);
        assert_eq!(r.counts, LevelCounts { error: 3, warning: 1, info: 1, debug: 2 });
    }
}

#[test]
fn chunk_count_invariance() {
    let one = run(1, SAMPLE, "Info");
    let eight = run(8, SAMPLE, "Info");
    assert_eq!(one, eight);
    assert_eq!(one.filtered_lines.len(), 2);
}

#[test]
fn partition_keeps_every_line_once() {
    let content = chars(SAMPLE);
    for w in [1usize, 2, 4, 9, 20] {
        let chunks = partition(&content, w);
        assert_eq!(chunks.len(), w);
        assert_eq!(chunks[0].start, 0);
        assert_eq!(chunks[w - 1].end, content.len());
        let mut seen: Vec<String> = Vec::new();
        for (i, c) in chunks.iter().enumerate() {
            assert!(c.start <= c.end);
            if i + 1 < w {
                assert_eq!(c.end, chunks[i + 1].start);
            }
            assert!(c.end == 0 || c.end == content.len() || content[c.end - 1] == '\n');
            let text: String = content[c.start..c.end].iter().collect();
            seen.extend(text.lines().map(|l| l.to_string()));
        }
        let all: Vec<String> = SAMPLE.lines().map(|l| l.to_string()).collect();
        assert_eq!(seen, all);
    }
}

#[test]
fn filter_selects_lines_in_order() {
    let content = "2024-01-01T00:00:01 Error a\n\
2024-01-01T00:00:02 Info b\n\
2024-01-01T00:00:03 Info saw an Error here\n\
2024-01-01T00:00:04 Debug c\n\
2024-01-01T00:00:05 Error d\n";
    for w in [1u128, 2, 5] {
        let r = run(w, content, "Error");
        assert_eq!(r.filtered_count, 3);
        assert_eq!(
            r.filtered_lines,
            vec![
                "2024-01-01T00:00:01 Error a".to_string(),
                "2024-01-01T00:00:03 Info saw an Error here".to_string(),
                "2024-01-01T00:00:05 Error d".to_string(),
            ]
        );
    }
}

#[test]
fn empty_input_gives_empty_report() {
    let r = run(4, "", "Error");
    assert_eq!(r, FinalReport::new());
    assert_eq!(r.counts, LevelCounts { error: 0, warning: 0, info: 0, debug: 0 });
    assert_eq!(r.filtered_count, 0);
    assert!(r.filtered_lines.is_empty());
}

#[test]
fn default_filter_is_error() {
    let d = spread_tasks(Some(3), SAMPLE, None).unwrap();
    let e = run(3, SAMPLE, "Error");
    assert_eq!(d, e);
    assert_eq!(d.filtered_count, 3);
}

#[test]
fn default_worker_count_gives_same_report() {
    let d = spread_tasks(None, SAMPLE, Some("Debug".to_string())).unwrap();
    assert_eq!(d, run(1, SAMPLE, "Debug"));
    assert_eq!(d.filtered_count, 2);
}

#[test]
fn zero_workers_is_refused() {
    assert_eq!(spread_tasks(Some(0), SAMPLE, None), Err(ConfigError::InvalidWorkerCount));
}

#[test]
fn huge_worker_count_is_accepted() {
    let t = usize::MAX as u128 + 1;
    assert_eq!(spread_tasks(Some(t), SAMPLE, None).unwrap(), run(1, SAMPLE, "Error"));
    assert_eq!(spread_tasks(Some(u128::MAX), "", None).unwrap(), FinalReport::new());
}

#[test]
fn worker_count_checked_before_filter() {
    assert_eq!(
        spread_tasks(Some(0), SAMPLE, Some(String::new())),
        Err(ConfigError::InvalidWorkerCount)
    );
}

#[test]
fn empty_filter_is_refused() {
    assert_eq!(spread_tasks(Some(2), SAMPLE, Some(String::new())), Err(ConfigError::InvalidFilter));
}

#[test]
fn filter_with_line_feed_is_refused() {
    assert_eq!(
        spread_tasks(Some(2), SAMPLE, Some("Error\n".to_string())),
        Err(ConfigError::InvalidFilter)
    );
    assert!(!is_valid_filter(&chars("a\nb")));
    assert!(is_valid_filter(&chars("Warn")));
}

#[test]
fn more_workers_than_lines() {
    let r = run(50, "x Error\ny Info", "y");
    assert_eq!(r.counts, LevelCounts { error: 1, warning: 0, info: 1, debug: 0 });
    assert_eq!(r.filtered_lines, vec!["y Info".to_string()]);
}

#[test]
fn crlf_endings_are_dropped() {
    let r = run(2, "a Error\r\nb Warning\r\nc Info\r", "Error");
    assert_eq!(r.filtered_lines, vec!["a Error".to_string()]);
    let r = run(1, "a Info\r", "Info");
    assert_eq!(r.filtered_lines, vec!["a Info\r".to_string()]);
}

#[test]
fn last_line_without_line_feed() {
    let r = run(3, "one Debug\ntwo Debug", "two");
    assert_eq!(r.counts.debug, 2);
    assert_eq!(r.filtered_lines, vec!["two Debug".to_string()]);
}

#[test]
fn matching_is_case_sensitive() {
    let r = run(2, "x ERROR y\nx error y\n", "Error");
    assert_eq!(r.counts.total(), 0);
    assert_eq!(r.filtered_count, 0);
}

#[test]
fn level_priority_when_several_tokens() {
    let c = chars("Warning Debug Info Error");
    assert_eq!(check_log_levels(&c, 0, c.len()), Some(LogLevel::Error));
    let c = chars("Warning Debug Info");
    assert_eq!(check_log_levels(&c, 0, c.len()), Some(LogLevel::Info));
    let c = chars("Warning Debug");
    assert_eq!(check_log_levels(&c, 0, c.len()), Some(LogLevel::Debug));
    let c = chars("Warning");
    assert_eq!(check_log_levels(&c, 0, c.len()), Some(LogLevel::Warning));
    let c = chars("nothing here");
    assert_eq!(check_log_levels(&c, 0, c.len()), None);
}

#[test]
fn classification_looks_at_the_range_only() {
    let c = chars("Error|Info");
    assert_eq!(check_log_levels(&c, 6, c.len()), Some(LogLevel::Info));
    assert_eq!(check_log_levels(&c, 0, 4), None);
}

#[test]
fn substring_search() {
    let hay = chars("abcabd");
    assert!(contains_in(&hay, 0, 6, &chars("abd")));
    assert!(!contains_in(&hay, 0, 5, &chars("abd")));
    assert!(contains_in(&hay, 2, 4, &chars("")));
    assert!(!contains_in(&hay, 0, 2, &chars("abc")));
}

#[test]
fn chars_and_strings_round_trip() {
    let c = chars_of("héllo\nwörld");
    assert_eq!(c.len(), 11);
    assert_eq!(c[1], 'é');
    assert_eq!(string_of(&c, 6, 11), "wörld");
    assert_eq!(string_of(&c, 2, 2), "");
}

#[test]
fn scan_one_chunk() {
    let c = chars(SAMPLE);
    let r = scan_chunk(&c, &Chunk { start: 0, end: c.len() }, &chars("Warning"));
    assert_eq!(r.counts, LevelCounts { error: 3, warning: 1, info: 1, debug: 2 });
    assert_eq!(r.filtered_count, 1);
    assert_eq!(r.filtered_lines, vec!["2024-01-01T00:00:03 Warning slow reply".to_string()]);
}

#[test]
fn process_adds_one_line() {
    let c = chars("t Error boom");
    let mut acc = PartialResult::new();
    process(&c, 0, c.len(), &chars("boom"), &mut acc);
    process(&c, 0, 7, &chars("boom"), &mut acc);
    assert_eq!(acc.counts.get(LogLevel::Error), 2);
    assert_eq!(acc.filtered_count, 1);
    assert_eq!(acc.filtered_lines, vec!["t Error boom".to_string()]);
}

#[test]
fn aggregate_keeps_chunk_order() {
    let a = PartialResult {
        counts: LevelCounts { error: 1, warning: 2, info: 3, debug: 4 },
        filtered_count: 1,
        filtered_lines: vec!["first".to_string()],
    };
    let b = PartialResult {
        counts: LevelCounts { error: 10, warning: 20, info: 30, debug: 40 },
        filtered_count: 2,
        filtered_lines: vec!["second".to_string(), "third".to_string()],
    };
    let r = aggregate(vec![a, b]);
    assert_eq!(r.counts, LevelCounts { error: 11, warning: 22, info: 33, debug: 44 });
    assert_eq!(r.filtered_count, 3);
    assert_eq!(r.filtered_lines, vec!["first", "second", "third"]);
    assert_eq!(aggregate(Vec::new()), FinalReport::new());
}

#[test]
fn merge_appends_after_present_lines() {
    let mut r = FinalReport::new();
    let mut p = PartialResult::new();
    p.counts.info = 5;
    p.filtered_count = 1;
    p.filtered_lines.push("x".to_string());
    r.merge(&mut p);
    assert_eq!(r.counts.get(LogLevel::Info), 5);
    assert_eq!(r.filtered_lines, vec!["x".to_string()]);
}

#[test]
fn token_chars_of_levels() {
    assert_eq!(LogLevel::Warning.token_chars(), chars("Warning"));
    assert_eq!(LogLevel::Debug.token_chars(), chars("Debug"));
}

#[test]
fn process_command_runs_engine() {
    let cmd = ProcessCommand {
        file: "app.log".to_string(),
        threads: Some(2),
        log_level: Some("Info".to_string()),
    };
    let r = cmd.run(SAMPLE).unwrap();
    assert_eq!(r.filtered_count, 2);
    assert_eq!(r.counts.total(), 7);
}

#[test]
fn empty_line_is_never_filtered() {
    let c = chars("a\n\nb");
    let mut acc = PartialResult::new();
    process(&c, 2, 2, &chars(""), &mut acc);
    assert_eq!(acc.filtered_count, 0);
    assert!(acc.filtered_lines.is_empty());
    assert_eq!(acc.counts.total(), 0);
    let r = scan_chunk(&c, &Chunk { start: 0, end: c.len() }, &chars(""));
    assert_eq!(r.filtered_count, 2);
    assert_eq!(r.filtered_lines, vec!["a".to_string(), "b".to_string()]);
}

#[test]
fn partition_takes_even_shares() {
    let c = chars("aaaa\nbbbb\ncccc\ndddd\n");
    let chunks = partition(&c, 4);
    let ends: Vec<usize> = chunks.iter().map(|k| k.end).collect();
    assert_eq!(ends, vec![5, 10, 15, 20]);
    let chunks = partition(&c, 3);
    let ends: Vec<usize> = chunks.iter().map(|k| k.end).collect();
    assert_eq!(ends, vec![10, 15, 20]);
}

#[test]
fn partition_grows_to_line_end() {
    let c = chars("abcdefgh\nij\n");
    let chunks = partition(&c, 2);
    assert_eq!(chunks, vec![Chunk { start: 0, end: 9 }, Chunk { start: 9, end: 12 }]);
}

#[test]
fn scanning_in_turn_matches_chunk_scans() {
    let c = chars(SAMPLE);
    let chunks = partition(&c, 3);
    let f = chars("Info");
    let parts = scan_in_turn(&c, &chunks, &f);
    assert_eq!(parts.len(), 3);
    for (k, p) in chunks.iter().zip(parts.iter()) {
        assert_eq!(*p, scan_chunk(&c, k, &f));
    }
    assert_eq!(aggregate(parts), run(2, SAMPLE, "Info"));
}
