use taskargs::filter::{parse_ids, Filter, Report, Universe};
use taskargs::modification::{DescriptionMod, Modification, Status};
use taskargs::subcommand::{apply_keyword, parse_gc, parse_info, parse_modify, Subcommand};
use taskargs::tokens::{match_literal, token_is, NoMatch};
use taskargs::usage::Usage;

fn ids_filter(ids: Vec<usize>) -> Filter {
    Filter {
        universe: Universe::for_ids(ids),
    }
}

#[test]
fn unknown_keyword_is_no_match() {
    assert_eq!(Subcommand::parse(&["bogus"]), Err(NoMatch));
    assert_eq!(Subcommand::parse(&["bogus", "list"]), Err(NoMatch));
}

#[test]
fn empty_input_is_no_match() {
    let input: &[&str] = &[];
    assert_eq!(Subcommand::parse(input), Err(NoMatch));
}

#[test]
fn filter_without_keyword_is_no_match() {
    assert_eq!(Subcommand::parse(&["123"]), Err(NoMatch));
    assert_eq!(Subcommand::parse(&["12", "13", "list"]), Err(NoMatch));
}

#[test]
fn keywords_are_case_sensitive() {
    assert_eq!(Subcommand::parse(&["Version"]), Err(NoMatch));
    assert_eq!(Subcommand::parse(&["SYNC"]), Err(NoMatch));
}

#[test]
fn parsing_twice_gives_equal_results() {
    let input: &[&str] = &["12,13", "append", "more", "words"];
    assert_eq!(Subcommand::parse(input), Subcommand::parse(input));
    let bad: &[&str] = &["nothing"];
    assert_eq!(Subcommand::parse(bad), Subcommand::parse(bad));
}

#[test]
fn version_leaves_the_rest() {
    let rest: &[&str] = &["foo", "bar"];
    assert_eq!(
        Subcommand::parse(&["--version", "foo", "bar"]).unwrap(),
        (rest, Subcommand::Version)
    );
}

#[test]
fn help_leaves_the_rest() {
    let rest: &[&str] = &["add"];
    assert_eq!(
        Subcommand::parse(&["-h", "add"]).unwrap(),
        (rest, Subcommand::Help { summary: true })
    );
}

#[test]
fn list_and_info_leave_the_rest() {
    let rest: &[&str] = &["x"];
    assert_eq!(
        Subcommand::parse(&["7", "list", "x"]).unwrap(),
        (
            rest,
            Subcommand::List {
                report: Report {
                    filter: ids_filter(vec![7]),
                },
            }
        )
    );
    assert_eq!(
        Subcommand::parse(&["debug", "x"]).unwrap(),
        (
            rest,
            Subcommand::Info {
                filter: Filter::default(),
                debug: true,
            }
        )
    );
}

#[test]
fn gc_extra_args_without_dispatcher() {
    let rest: &[&str] = &["a", "b"];
    assert_eq!(parse_gc(&["gc", "a", "b"]).unwrap(), (rest, Subcommand::Gc));
    assert_eq!(parse_gc(&["sync"]), Err(NoMatch));
}

#[test]
fn modify_without_filter() {
    let empty: &[&str] = &[];
    assert_eq!(
        Subcommand::parse(&["done"]).unwrap(),
        (
            empty,
            Subcommand::Modify {
                filter: Filter::default(),
                modification: Modification {
                    status: Some(Status::Completed),
                    ..Default::default()
                },
            }
        )
    );
}

#[test]
fn prepend_without_words_changes_no_description() {
    let empty: &[&str] = &[];
    assert_eq!(
        parse_modify(&["4", "prepend"]).unwrap(),
        (
            empty,
            Subcommand::Modify {
                filter: ids_filter(vec![4]),
                modification: Modification::default(),
            }
        )
    );
}

#[test]
fn apply_keyword_only_reclassifies_a_replacement() {
    let m = Modification {
        description: DescriptionMod::Prepend("x".to_string()),
        ..Default::default()
    };
    assert_eq!(apply_keyword("append", m.clone()), m);
    let r = Modification {
        description: DescriptionMod::Replace("x".to_string()),
        active: Some(true),
        ..Default::default()
    };
    assert_eq!(
        apply_keyword("append", r.clone()).description,
        DescriptionMod::Append("x".to_string())
    );
    assert_eq!(apply_keyword("append", r.clone()).active, Some(true));
    assert_eq!(apply_keyword("modify", r.clone()), r);
    assert_eq!(apply_keyword("stop", r.clone()).active, Some(false));
    assert_eq!(
        apply_keyword("done", r.clone()).status,
        Some(Status::Completed)
    );
}

#[test]
fn description_words_keep_empty_tokens() {
    let empty: &[&str] = &[];
    assert_eq!(
        Subcommand::parse(&["add", "a", "", "b"]).unwrap(),
        (
            empty,
            Subcommand::Add {
                modification: Modification {
                    description: DescriptionMod::Replace("a  b".to_string()),
                    ..Default::default()
                },
            }
        )
    );
}

#[test]
fn add_without_words_is_no_change() {
    let empty: &[&str] = &[];
    assert_eq!(
        Subcommand::parse(&["add"]).unwrap(),
        (
            empty,
            Subcommand::Add {
                modification: Modification::default(),
            }
        )
    );
}

#[test]
fn info_takes_a_filter() {
    let empty: &[&str] = &[];
    assert_eq!(
        parse_info(&["3,1", "info"]).unwrap(),
        (
            empty,
            Subcommand::Info {
                filter: ids_filter(vec![3, 1]),
                debug: false,
            }
        )
    );
    assert_eq!(parse_info(&["3,1", "list"]), Err(NoMatch));
}

#[test]
fn id_lists() {
    assert_eq!(parse_ids("12,13"), Some(vec![12, 13]));
    assert_eq!(parse_ids("007"), Some(vec![7]));
    assert_eq!(parse_ids("0"), Some(vec![0]));
    assert_eq!(parse_ids(""), None);
    assert_eq!(parse_ids("1,,2"), None);
    assert_eq!(parse_ids(",1"), None);
    assert_eq!(parse_ids("1,"), None);
    assert_eq!(parse_ids("12a"), None);
    assert_eq!(parse_ids("-1"), None);
}

#[test]
fn id_list_bounds() {
    let max = usize::MAX.to_string();
    assert_eq!(parse_ids(&max), Some(vec![usize::MAX]));
    let over = format!("{}0", max);
    assert_eq!(parse_ids(&over), None);
}

#[test]
fn filter_parse_leaves_non_ids() {
    let input: &[&str] = &["foo", "list"];
    assert_eq!(Filter::parse(input), (input, Filter::default()));
    let rest: &[&str] = &["list"];
    assert_eq!(
        Report::parse(&["5", "list"]),
        (
            rest,
            Report {
                filter: ids_filter(vec![5]),
            }
        )
    );
}

#[test]
fn literal_matching() {
    let rest: &[&str] = &["b"];
    assert_eq!(match_literal(&["a", "b"], "a"), Ok((rest, "a")));
    assert_eq!(match_literal(&["ab", "b"], "a"), Err(NoMatch));
    assert!(token_is("done", "done"));
    assert!(!token_is("done", "don"));
    assert!(!token_is("donE", "done"));
}

#[test]
fn usage_lists_every_keyword_form() {
    let mut u = Usage::new();
    Subcommand::get_usage(&mut u);
    let names: Vec<&str> = u.subcommands.iter().map(|e| e.name).collect();
    assert_eq!(
        names,
        vec![
            "version", "add", "modify", "prepend", "append", "start", "stop", "done", "list",
            "info", "debug", "gc", "sync"
        ]
    );
    assert_eq!(u.subcommands[4].syntax, "[filter] append [modification]");
    Subcommand::get_usage(&mut u);
    assert_eq!(u.subcommands.len(), 26);
}

#[test]
fn usage_descriptions_keep_their_text() {
    let mut u = Usage::new();
    Subcommand::get_usage(&mut u);
    assert_eq!(
        u.subcommands[9].description,
        " Show information about all tasks matching the fiter."
    );
    assert_eq!(
        u.subcommands[10].description,
        " Show all key/value properties of the tasks matching the fiter."
    );
    assert!(u.subcommands[1].description.starts_with("\n"));
    assert!(u.subcommands[12].description.contains("configured.\n\n"));
}
