use sift::escapes::{clean_line, clean_lines};
use sift::fuzzy::{fuzzy_score, levenshtein_within};
use sift::search::{
    decode_escapes, encode_paste, fd_cmd, fd_excludes, fd_search, fd_search_cmd, filter_fd_list,
    ignore_rels, listed_files, parse_count_line, path_priority, rank, rg_cmd, rg_exclude_globs,
    rg_search, rg_search_cmd, sanitize_display, score_name, SearchMode, SearchResultItem, MANDATORY_IGNORES, MAX_RESULTS,
};

fn strings(v: &[&str]) -> Vec<String> {
    v.iter().map(|s| s.to_string()).collect()
}

#[test]
fn fuzzy_match_agents_md_examples() {
    let q = "test.sh";
    assert!(fuzzy_score(q, "xxxxtest.sh").is_some());
    assert!(fuzzy_score(q, "test.shxxxx").is_some());
    assert!(fuzzy_score(q, "xxxtest.shxxxx").is_some());
    assert!(fuzzy_score(q, "tesh.sh").is_some());
    assert!(fuzzy_score(q, "abc.txt").is_none());
    assert!(fuzzy_score(q, "readme.md").is_none());
    assert!(fuzzy_score(q, "stash").is_none());
    assert!(fuzzy_score("tsh", "test.sh").is_none());
    assert!(fuzzy_score("t_s_t", "test.sh").is_none());
}

#[test]
fn typo_tolerance_rejects_false_positives() {
    assert!(fuzzy_score("test.sh", "text.sh").is_none());
    assert!(fuzzy_score("test.shj", "test.sh").is_none());
    assert!(fuzzy_score("test.sh", "xest.sh").is_none());
    assert!(fuzzy_score("test.sh", "test.sx").is_none());
    assert!(fuzzy_score("test.sh", "tesh.sh").is_some());
    assert!(fuzzy_score("test.sh", "tett.sh").is_some());
    assert!(fuzzy_score("test.sh", "tes.sh").is_some());
}

#[test]
fn levenshtein_basics() {
    assert_eq!(levenshtein_within("test.sh", "tesh.sh", 3), Some(1));
    assert_eq!(levenshtein_within("abc", "abc", 1), Some(0));
    assert_eq!(levenshtein_within("abc", "xyz", 2), None);
}

#[test]
fn levenshtein_edges() {
    assert_eq!(levenshtein_within("", "", 0), Some(0));
    assert_eq!(levenshtein_within("", "abc", 3), Some(3));
    assert_eq!(levenshtein_within("", "abc", 2), None);
    assert_eq!(levenshtein_within("kitten", "sitting", 3), Some(3));
    assert_eq!(levenshtein_within("kitten", "sitting", 2), None);
    assert_eq!(levenshtein_within("sitting", "kitten", 5), Some(3));
    assert_eq!(levenshtein_within("搜索", "搜查", 1), Some(1));
}

#[test]
fn scores_are_exact() {
    // 1000 - 4 * position - what the name has more
    assert_eq!(fuzzy_score("test.sh", "test.sh"), Some(1000));
    assert_eq!(fuzzy_score("test.sh", "xxxxtest.sh"), Some(1000 - 16 - 4));
    assert_eq!(fuzzy_score("test.sh", "test.shxxxx"), Some(996));
    // positions and lengths count bytes
    assert_eq!(fuzzy_score("b", "搜b"), Some(1000 - 12 - 3));
    // 800 - 60 * distance - 10 * difference in length, from the least number up
    assert_eq!(fuzzy_score("test.sh", "tesh.sh"), Some(i64::MIN + 740));
    assert_eq!(fuzzy_score("test.sh", "tes.sh"), Some(i64::MIN + 730));
    assert_eq!(fuzzy_score("", "a"), None);
    assert_eq!(fuzzy_score("a", ""), None);
    // a query of three characters takes no typing errors
    assert_eq!(fuzzy_score("abc", "acc"), None);
}

#[test]
fn an_occurrence_ranks_above_a_typing_error() {
    let typo = fuzzy_score("test.sh", "tesh.sh");
    let mut last = Some(1001);
    for depth in [0, 1, 51, 52, 60, 255, 5000] {
        let name = format!("{}test.sh", "x".repeat(depth));
        let score = fuzzy_score("test.sh", &name);
        assert_eq!(score, Some(1000 - 5 * depth as i64));
        // the further behind, the lower, and still above
        assert!(typo < score && score < last);
        last = score;
    }
    let behind = |n: usize| fuzzy_score("q", &format!("{}q", "\u{10000}".repeat(n)));
    assert_eq!((behind(13), behind(14)), (Some(740), Some(720)));
}

#[test]
fn deep_occurrences_are_listed_by_their_depth() {
    let x = "x".repeat(60);
    let out = format!("/home/{x}xtest.sh\n/d/tesh.sh\n/usr/{x}test.sh\n");
    let (items, _) = fd_search("/", "test.sh", None, out.as_bytes());
    let paths: Vec<String> = items.iter().map(|i| i.path.clone()).collect();
    let want = [format!("/usr/{x}test.sh"), format!("/home/{x}xtest.sh"), "/d/tesh.sh".to_string()];
    assert_eq!(paths, want);
}

#[test]
fn upper_case_queries_find_lower_case_names() {
    let (items, _) = fd_search("/d", "TEST.sh", None, b"/d/xxxxtest.sh\n");
    assert_eq!(items.len(), 1);
}

#[test]
fn blocking_searches_have_their_commands() {
    let none: Vec<String> = Vec::new();
    let fd = fd_search_cmd("/d");
    assert_eq!(fd.program, "fd");
    assert_eq!(fd.args, fd_cmd("/d", &none, u64::MAX).args);
    assert!(fd.args.contains(&"-18446744073709551615b".to_string()));
    assert!(!fd.args.contains(&"--exclude".to_string()));
    assert_eq!(fd.args.last().unwrap(), "/d");

    let rg = rg_search_cmd("/", "q");
    let globs = rg_exclude_globs("/", &none);
    assert_eq!(rg.program, "rg");
    assert_eq!(rg.args, rg_cmd("/", "q", &globs, 10485760).args);
    assert!(rg.args.contains(&"10485760".to_string()), "{:?}", rg.args);
    for g in &globs {
        assert!(rg.args.contains(g), "{g}");
    }
    assert_eq!(rg.dir, Some("/".to_string()));
}

#[test]
fn decode_escapes_basics() {
    assert_eq!(decode_escapes("a\\nb"), "a\nb");
    assert_eq!(decode_escapes("a\\tb"), "a\tb");
    assert_eq!(decode_escapes("\\\\n"), "\\n");
    assert_eq!(decode_escapes("a\\xb"), "a\\xb");
    assert_eq!(decode_escapes("a\\"), "a\\");
    assert_eq!(decode_escapes("plain"), "plain");
    assert_eq!(decode_escapes("a\\rb"), "a\rb");
}

#[test]
fn encode_paste_basics() {
    assert_eq!(
        encode_paste("ceshi\ntest\n这是/usr/share"),
        "ceshi\\ntest\\n这是/usr/share"
    );
    assert_eq!(encode_paste("a\r\nb"), "a\\nb");
    assert_eq!(encode_paste("a\rb"), "a\\nb");
    assert_eq!(encode_paste("a\tb"), "a\\tb");
    assert_eq!(encode_paste("C:\\Users"), "C:\\\\Users");
    assert_eq!(encode_paste("plain"), "plain");
    assert_eq!(encode_paste(""), "");
    assert_eq!(encode_paste("a\u{7}b\u{1b}c\u{e}d"), "abcd");
    assert_eq!(decode_escapes(&encode_paste("x\ny\\z\tw")), "x\ny\\z\tw");
}

#[test]
fn decoding_what_was_pasted_normalizes_it() {
    assert_eq!(decode_escapes(&encode_paste("a\r\nb\rc\u{1b}d\\n")), "a\nb\ncd\\n");
}

#[test]
fn popup_text_is_cleaned() {
    assert_eq!(clean_lines("/a\r\n/b\n/c\t\u{1b}d"), "/a\n/b\n/cd");
    assert_eq!(clean_line("/a\r\n/b\u{7}"), "/a/b");
}

#[test]
fn sanitize_display_replaces_control_chars() {
    assert_eq!(sanitize_display("normal/file.txt"), "normal/file.txt");
    assert_eq!(sanitize_display("a\u{1b}[31mb.png"), "a\u{FFFD}[31mb.png");
    assert_eq!(sanitize_display("x\u{7}y\u{e}z"), "x\u{FFFD}y\u{FFFD}z");
    assert_eq!(sanitize_display(""), "");
}

#[test]
fn parse_count_lines() {
    let item = parse_count_line("/data", "./a/b.txt:3").unwrap();
    assert_eq!(item.display, "a/b.txt");
    assert_eq!(item.path, "/data/a/b.txt");
    assert_eq!(item.matches, 3);
    assert!(parse_count_line("/data", "./a.txt:0").is_none());
    assert!(parse_count_line("/data", "garbage").is_none());
}

#[test]
fn parse_count_line_edges() {
    let item = parse_count_line("/data", "a:b.txt: +7 ").unwrap();
    assert_eq!(item.path, "/data/a:b.txt");
    assert_eq!(item.matches, 7);
    assert_eq!(item.score, 7);
    assert!(parse_count_line("/data", "./:3").is_none());
    assert!(parse_count_line("/data", "./a:18446744073709551616").is_none());
    let most = parse_count_line("/data", "./a:18446744073709551615").unwrap();
    assert_eq!(most.matches, u64::MAX);
    assert_eq!(most.score, -1);
    let root = parse_count_line("/", "./home/x\u{1b}y:1").unwrap();
    assert_eq!(root.path, "/home/x\u{1b}y");
    assert_eq!(root.display, "home/x\u{FFFD}y");
    assert_eq!(root.priority, 0);
}

#[test]
fn path_priority_tiers() {
    assert_eq!(path_priority("/home/heng/a.txt"), 0);
    assert_eq!(path_priority("/etc/hosts"), 0);
    assert_eq!(path_priority("/usr/local/bin/x"), 0);
    assert_eq!(path_priority("/usr/share/x"), 2);
    assert_eq!(path_priority("/var/log/x"), 2);
    assert_eq!(path_priority("/opt/app/x"), 1);
    assert_eq!(path_priority("/home"), 0);
    assert_eq!(path_priority("/usr"), 2);
    assert_eq!(path_priority("/homes/x"), 1);
}

#[test]
fn ignore_rels_and_globs() {
    let none: Vec<String> = Vec::new();
    let rels = ignore_rels("/", &none);
    assert!(rels.contains(&"proc".to_string()), "got {rels:?}");
    assert!(rels.contains(&"sys".to_string()), "got {rels:?}");
    assert!(rels.contains(&"var/tmp".to_string()), "got {rels:?}");

    let globs = rg_exclude_globs("/", &strings(&["/data/logs"]));
    assert!(globs.contains(&"!.git".to_string()), "got {globs:?}");
    assert!(globs.contains(&"!/proc".to_string()), "got {globs:?}");
    assert!(globs.contains(&"!/data/logs".to_string()), "got {globs:?}");

    let rels2 = ignore_rels("/home", &strings(&["/proc"]));
    assert!(!rels2.contains(&"proc".to_string()), "got {rels2:?}");

    let rels3 = ignore_rels("/var", &none);
    assert!(rels3.contains(&"tmp".to_string()), "got {rels3:?}");
    assert!(rels3.contains(&"cache".to_string()), "got {rels3:?}");
    assert!(rels3.contains(&"lib".to_string()), "got {rels3:?}");

    let fde = fd_excludes("/", &none);
    assert!(fde.contains(&"/proc".to_string()), "got {fde:?}");
}

#[test]
fn ignored_directories_are_listed_once() {
    let rels = ignore_rels("/", &strings(&["/proc", "/data", "/data/", "/"]));
    assert_eq!(rels.len(), MANDATORY_IGNORES.len() + 1);
    assert_eq!(rels.iter().filter(|r| *r == "proc").count(), 1);
    assert_eq!(rels.last().unwrap(), "data");
}

#[test]
fn fd_cmd_contains_size_and_excludes() {
    let cmd = fd_cmd("/", &strings(&["/proc"]), 1048576);
    let args = cmd.args;
    let size_pos = args.iter().position(|a| a == "--size").expect("--size");
    assert_eq!(args[size_pos + 1], "-1048576b");
    let ex_pos = args
        .iter()
        .position(|a| a == "--exclude")
        .expect("--exclude");
    assert_eq!(args[ex_pos + 1], "/proc");
    assert_eq!(cmd.program, "fd");
    assert_eq!(
        args,
        strings(&[
            "--type", "f", "--absolute-path", "--color=never", "--size", "-1048576b", "--exclude",
            "/proc", ".", "/"
        ])
    );
}

#[test]
fn rg_cmd_contains_perf_flags() {
    let cmd = rg_cmd("/tmp", "q", &strings(&["!.git"]), 1048576);
    let args = cmd.args;
    for flag in [
        "--hidden",
        "--no-messages",
        "--max-filesize",
        "1048576",
        "-j",
        "0",
    ] {
        assert!(args.iter().any(|a| a == flag), "missing {flag} in {args:?}");
    }
    assert!(!args.contains(&"--multiline".to_string()));
    assert_eq!(cmd.dir, Some("/tmp".to_string()));
}

#[test]
fn rg_cmd_decodes_the_query() {
    let cmd = rg_cmd("/r", "a\\nb", &Vec::new(), 0);
    assert!(cmd.args.contains(&"--multiline".to_string()));
    let n = cmd.args.len();
    assert_eq!(cmd.args[n - 3..], strings(&["--", "a\nb", "."])[..]);
    assert!(cmd.args.contains(&"--case-sensitive".to_string()));
    assert!(cmd.args.contains(&"--fixed-strings".to_string()));
}

#[test]
fn fd_search_finds_files() {
    let out = "/d/xxxxtest.sh\n/d/tesh.sh\n\n/d/unrelated.txt\n/d/test.sh.d/plain.txt\n";
    let (items, cache) = fd_search("/d", "test.sh", None, out.as_bytes());
    assert!(cache.is_some());
    let names: Vec<String> = items.iter().map(|i| i.display.clone()).collect();
    assert_eq!(names, strings(&["xxxxtest.sh", "tesh.sh"]));
    assert!(!names.contains(&"unrelated.txt".to_string()));
    assert!(!names.contains(&"plain.txt".to_string()), "got {names:?}");
    assert_eq!(items[0].path, "/d/xxxxtest.sh");

    let (items2, cache2) = fd_search("/d", "test.sh", cache, b"");
    assert!(cache2.is_none());
    assert_eq!(items.len(), items2.len());
}

#[test]
fn fd_search_sanitizes_control_chars_in_names() {
    let out = "/d/ctrl_\u{1b}[31m_test.sh\n";
    let (items, _) = fd_search("/d", "test.sh", None, out.as_bytes());
    assert_eq!(items.len(), 1, "got {items:?}");
    assert!(!items[0].display.chars().any(|c| c.is_control()));
    assert!(items[0].display.contains('\u{FFFD}'));
    assert_eq!(items[0].path, "/d/ctrl_\u{1b}[31m_test.sh");
}

#[test]
fn rg_search_finds_content() {
    let items = rg_search("/d", b"./a.txt:2\n./b.txt:0\n");
    assert_eq!(items.len(), 1);
    assert_eq!(items[0].matches, 2);
    assert!(items[0].display.ends_with("a.txt"));
}

#[test]
fn output_that_is_not_utf8_is_read_with_replacements() {
    let items = rg_search("/d", b"./a\xff.txt:5\r\n./b.txt:9");
    assert_eq!(items[0].display, "b.txt");
    assert_eq!(items[1].display, "a\u{FFFD}.txt");
    assert_eq!(listed_files("a\r\n\nb"), strings(&["a", "b"]));
}

#[test]
fn names_match_in_any_case() {
    let list = strings(&["/r/README.MD", "/r/ÄRGER.txt", "/r/.."]);
    assert_eq!(filter_fd_list("/r", "readme", &list).len(), 1);
    assert_eq!(filter_fd_list("/r", "ärger", &list)[0].display, "ÄRGER.txt");
    assert!(filter_fd_list("/r", "", &list).is_empty());
    let outside = filter_fd_list("/other", "readme", &list);
    assert_eq!(outside[0].display, "/r/README.MD");
    let item = score_name("/r/", "/r//x.txt", "x", "x.txt").unwrap();
    assert_eq!(item.display, "x.txt");
    assert_eq!(item.score, 996);
}

fn item(display: &str, score: i64, priority: u8) -> SearchResultItem {
    SearchResultItem {
        path: format!("/{display}"),
        display: display.to_string(),
        matches: 1,
        score,
        priority,
    }
}

#[test]
fn results_are_ranked_and_cut() {
    let r = rank(vec![
        item("b", 5, 1),
        item("a", 5, 1),
        item("z", 5, 0),
        item("y", 9, 2),
    ]);
    let names: Vec<String> = r.into_iter().map(|i| i.display).collect();
    assert_eq!(names, strings(&["y", "z", "a", "b"]));

    let many: Vec<SearchResultItem> = (0..1000).map(|i| item("x", i % 7, 1)).collect();
    let r = rank(many);
    assert_eq!(r.len(), MAX_RESULTS);
    assert!(r.windows(2).all(|w| w[0].score >= w[1].score));
    assert_eq!(r[0].score, 6);
}

#[test]
fn modes_toggle_and_have_labels() {
    let mut m = SearchMode::FileName;
    assert_eq!(m.label(), "文件名");
    m.toggle();
    assert_eq!(m, SearchMode::Content);
    assert_eq!(m.label(), "文件内容");
    m.toggle();
    assert_eq!(m, SearchMode::FileName);
}

#[test]
fn containment_ranks_above_typing_errors() {
    let list = strings(&["/r/tesh.sh", "/r/a/b/c/my_test.sh.orig", "/r/test.sh"]);
    let names: Vec<String> = filter_fd_list("/r", "test.sh", &list)
        .into_iter()
        .map(|i| i.display)
        .collect();
    assert_eq!(names, strings(&["test.sh", "a/b/c/my_test.sh.orig", "tesh.sh"]));
}

#[test]
fn directories_are_not_matched() {
    let list = strings(&["/r/test.sh/plain", "/r/x/name.txt", "/r/y/z/name.txt"]);
    assert!(filter_fd_list("/r", "test.sh", &list).is_empty());
    let found = filter_fd_list("/r", "name", &list);
    assert_eq!(found.len(), 2);
    assert_eq!(found[0].score, found[1].score);
}
