use helptags::help::help;

fn db() -> String {
    [
        "CTRL-N\tmotion.txt\t/*CTRL-N*",
        "i_CTRL-X_CTRL-N\tinsert.txt\t/*i_CTRL-X_CTRL-N*",
        "nvim_cmd()\tapi.txt\t/*nvim_cmd()*",
        ":cd\tediting.txt\t/*:cd*",
        "'cd'\toptions.txt\t/*'cd'*",
        "/\\c\tpattern.txt\t/*/\\c*",
        ":let-&\teval.txt\t/*:let-&*",
        "'wildmenu'\toptions.txt\t/*'wildmenu'*",
    ]
    .join("\n")
}

fn resolve(query: &str, tagfile: &str) -> Option<(String, String)> {
    help(query, tagfile).map(|t| (t.name.to_string(), t.file.to_string()))
}

#[test]
fn help_works() {
    let tags = db();
    let t = |input: &str, name: &str, file: &str| {
        assert_eq!(
            resolve(input, &tags),
            Some((name.to_string(), file.to_string())),
            "query {:?}",
            input
        );
    };
    t("^N", "CTRL-N", "motion.txt");
    t("^n", "CTRL-N", "motion.txt");
    t("^X^N", "i_CTRL-X_CTRL-N", "insert.txt");
    t("^x^n", "i_CTRL-X_CTRL-N", "insert.txt");
    t("nvim_cmd", "nvim_cmd()", "api.txt");
    t("cd", ":cd", "editing.txt");
    t("'cd", "'cd'", "options.txt");
    t("\\c", "/\\c", "pattern.txt");
    t("let-&", ":let-&", "eval.txt");
    t("wildmenu", "'wildmenu'", "options.txt");
    t("'wildmenu'", "'wildmenu'", "options.txt");
}

#[test]
fn worked_examples() {
    let tags = "CTRL-N\tmotion.txt\t/*CTRL-N*\ni_CTRL-X_CTRL-N\tinsert.txt\t/*i_CTRL-X_CTRL-N*";
    assert_eq!(
        resolve("^N", tags),
        Some(("CTRL-N".to_string(), "motion.txt".to_string()))
    );
    assert_eq!(
        resolve("^X^N", tags),
        Some(("i_CTRL-X_CTRL-N".to_string(), "insert.txt".to_string()))
    );
    assert_eq!(resolve("^n", tags), resolve("^N", tags));
    let options = "'wildmenu'\toptions.txt\t/*'wildmenu'*";
    assert_eq!(
        resolve("wildmenu", options),
        Some(("'wildmenu'".to_string(), "options.txt".to_string()))
    );
    assert_eq!(resolve("nonexistent_xyz", &db()), None);
}

#[test]
fn case_insensitive_same_tag() {
    let tags = db();
    let lower = resolve("^n", &tags);
    let upper = resolve("^N", &tags);
    assert!(lower.is_some());
    assert_eq!(lower, upper);
}

#[test]
fn star_resolves_like_star_word() {
    let tags = "starstar\tfoo.txt\tx\nstar\tbar.txt\tx\n";
    let by_star = resolve("*", tags);
    let by_word = resolve("star", tags);
    assert_eq!(by_star, by_word);
    assert_eq!(by_star, Some(("star".to_string(), "bar.txt".to_string())));
}

#[test]
fn wildcard_decoy_never_selected() {
    // The empty-named line is exactly what the degenerate wildcard pattern
    // matches; a query without wildcards must not pick it.
    let tags = "CTRL-N\tmotion.txt\tx\n\tdecoy.txt\tx";
    assert_eq!(
        resolve("^N", tags),
        Some(("CTRL-N".to_string(), "motion.txt".to_string()))
    );
    assert_eq!(
        resolve("cd", "cd\tb.txt\tx\n\tdecoy.txt\tx"),
        Some(("cd".to_string(), "b.txt".to_string()))
    );
}

#[test]
fn resolve_is_idempotent() {
    let tags = db();
    for q in ["^N", "cd", "wildmenu", "nonexistent_xyz", "*"] {
        let first = resolve(q, &tags);
        let second = resolve(q, &tags);
        assert_eq!(first, second, "query {:?}", q);
    }
}

#[test]
fn exact_match_wins_over_longer_names() {
    let tags = "xcdy\ta.txt\tx\ncd\tb.txt\tx\n:cd\tc.txt\tx";
    assert_eq!(resolve("cd", tags), Some(("cd".to_string(), "b.txt".to_string())));
}

#[test]
fn scan_stops_at_empty_line() {
    let tags = "CTRL-N\tmotion.txt\tx\n\ncd\tb.txt\tx";
    assert_eq!(resolve("cd", tags), None);
    assert_eq!(
        resolve("^N", tags),
        Some(("CTRL-N".to_string(), "motion.txt".to_string()))
    );
}

#[test]
fn malformed_lines_are_skipped() {
    let tags = "notabshere\ncd\tb.txt\tx";
    assert_eq!(resolve("cd", tags), Some(("cd".to_string(), "b.txt".to_string())));
    assert_eq!(resolve("notabshere", tags), None);
}

#[test]
fn full_replacement_table() {
    // Each key is replaced wholesale before pattern generation.
    let tags = "gstar\tv.txt\tx\nquotestar\tv.txt\tx\nstarstar\tw.txt\tx";
    assert_eq!(resolve("g*", tags), Some(("gstar".to_string(), "v.txt".to_string())));
    assert_eq!(
        resolve("\"*", tags),
        Some(("quotestar".to_string(), "v.txt".to_string()))
    );
    assert_eq!(
        resolve("**", tags),
        Some(("starstar".to_string(), "w.txt".to_string()))
    );
}

#[test]
fn quote_and_bar_replacements() {
    let tags = "quote\tq.txt\tx\nbar\tb.txt\tx";
    assert_eq!(resolve("\"", tags), Some(("quote".to_string(), "q.txt".to_string())));
    assert_eq!(resolve("|", tags), Some(("bar".to_string(), "b.txt".to_string())));
}

#[test]
fn wildcard_query_matches() {
    // A `?` outside the replacement table keeps its wildcard meaning.
    let tags = "abc\tw.txt\tx";
    assert_eq!(resolve("a?c", tags), Some(("abc".to_string(), "w.txt".to_string())));
}

#[test]
fn deep_match_is_penalized() {
    // "cd" sits at position 4 of the first name, deeper than position 3,
    // so that candidate's score is multiplied by 200 and the longer name
    // with an early match wins.
    let tags = "xxxxcd\ta.txt\tx\ncdxxxxxx\tb.txt\tx";
    assert_eq!(
        resolve("cd", tags),
        Some(("cdxxxxxx".to_string(), "b.txt".to_string()))
    );
}

#[test]
fn word_boundary_bonus_is_added() {
    // In "ab_cd" the two characters before the match are word characters,
    // which adds 10000 to the score; under minimum selection the other
    // candidate wins even though its name is longer.
    let tags = "ab_cd\ta.txt\tx\nx:cdyyyy\tb.txt\tx";
    assert_eq!(
        resolve("cd", tags),
        Some(("x:cdyyyy".to_string(), "b.txt".to_string()))
    );
}

#[test]
fn crlf_lines_are_handled() {
    // A carriage return before the newline belongs to the line ending, not
    // to the fields, and a "\r\n" line is the empty sentinel.
    let tags = "CTRL-N\tmotion.txt\tx\r\ncd\tb.txt\tx\r\n";
    assert_eq!(
        resolve("cd", tags),
        Some(("cd".to_string(), "b.txt".to_string()))
    );
    let tag = help("cd", tags).unwrap();
    assert_eq!(tag.file, "b.txt");
    let with_sentinel = "a\tb.txt\tx\r\n\r\ncd\tc.txt\tx";
    assert_eq!(resolve("cd", with_sentinel), None);
}

#[test]
fn to_url_strips_extension() {
    let tags = "CTRL-N\tmotion.txt\t/*CTRL-N*";
    let tag = help("^N", tags).unwrap();
    assert_eq!(tag.to_url(), "https://neovim.io/doc/user/motion.html#CTRL-N");
}

#[test]
fn to_url_maps_index_to_vimindex() {
    let tags = "Q_ur\tindex\t/*Q_ur*";
    let tag = help("Q_ur", tags).unwrap();
    assert_eq!(tag.to_url(), "https://neovim.io/doc/user/vimindex.html#Q_ur");
}
