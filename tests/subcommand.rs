use taskargs::filter::{Filter, Report, Universe};
use taskargs::modification::{DescriptionMod, Modification, Status};
use taskargs::subcommand::Subcommand;

#[test]
fn test_version() {
    let empty: &[&str] = &[];
    assert_eq!(
        Subcommand::parse(&["version"]).unwrap(),
        (empty, Subcommand::Version)
    );
}

#[test]
fn test_dd_version() {
    let empty: &[&str] = &[];
    assert_eq!(
        Subcommand::parse(&["--version"]).unwrap(),
        (empty, Subcommand::Version)
    );
}

#[test]
fn test_d_h() {
    let empty: &[&str] = &[];
    assert_eq!(
        Subcommand::parse(&["-h"]).unwrap(),
        (empty, Subcommand::Help { summary: true })
    );
}

#[test]
fn test_help() {
    let empty: &[&str] = &[];
    assert_eq!(
        Subcommand::parse(&["help"]).unwrap(),
        (empty, Subcommand::Help { summary: false })
    );
}

#[test]
fn test_dd_help() {
    let empty: &[&str] = &[];
    assert_eq!(
        Subcommand::parse(&["--help"]).unwrap(),
        (empty, Subcommand::Help { summary: false })
    );
}

#[test]
fn test_add_description() {
    let empty: &[&str] = &[];
    let subcommand = Subcommand::Add {
        modification: Modification {
            description: DescriptionMod::Replace("foo".to_string()),
            ..Default::default()
        },
    };
    assert_eq!(
        Subcommand::parse(&["add", "foo"]).unwrap(),
        (empty, subcommand)
    );
}

#[test]
fn test_add_description_multi() {
    let empty: &[&str] = &[];
    let subcommand = Subcommand::Add {
        modification: Modification {
            description: DescriptionMod::Replace("foo bar".to_string()),
            ..Default::default()
        },
    };
    assert_eq!(
        Subcommand::parse(&["add", "foo", "bar"]).unwrap(),
        (empty, subcommand)
    );
}

#[test]
fn test_modify_description_multi() {
    let empty: &[&str] = &[];
    let subcommand = Subcommand::Modify {
        filter: Filter {
            universe: Universe::for_ids(vec![123]),
            ..Default::default()
        },
        modification: Modification {
            description: DescriptionMod::Replace("foo bar".to_string()),
            ..Default::default()
        },
    };
    assert_eq!(
        Subcommand::parse(&["123", "modify", "foo", "bar"]).unwrap(),
        (empty, subcommand)
    );
}

#[test]
fn test_append() {
    let empty: &[&str] = &[];
    let subcommand = Subcommand::Modify {
        filter: Filter {
            universe: Universe::for_ids(vec![123]),
            ..Default::default()
        },
        modification: Modification {
            description: DescriptionMod::Append("foo bar".to_string()),
            ..Default::default()
        },
    };
    assert_eq!(
        Subcommand::parse(&["123", "append", "foo", "bar"]).unwrap(),
        (empty, subcommand)
    );
}

#[test]
fn test_prepend() {
    let empty: &[&str] = &[];
    let subcommand = Subcommand::Modify {
        filter: Filter {
            universe: Universe::for_ids(vec![123]),
            ..Default::default()
        },
        modification: Modification {
            description: DescriptionMod::Prepend("foo bar".to_string()),
            ..Default::default()
        },
    };
    assert_eq!(
        Subcommand::parse(&["123", "prepend", "foo", "bar"]).unwrap(),
        (empty, subcommand)
    );
}

#[test]
fn test_done() {
    let empty: &[&str] = &[];
    let subcommand = Subcommand::Modify {
        filter: Filter {
            universe: Universe::for_ids(vec![123]),
            ..Default::default()
        },
        modification: Modification {
            status: Some(Status::Completed),
            ..Default::default()
        },
    };
    assert_eq!(
        Subcommand::parse(&["123", "done"]).unwrap(),
        (empty, subcommand)
    );
}

#[test]
fn test_done_modify() {
    let empty: &[&str] = &[];
    let subcommand = Subcommand::Modify {
        filter: Filter {
            universe: Universe::for_ids(vec![123]),
            ..Default::default()
        },
        modification: Modification {
            description: DescriptionMod::Replace("now-finished".to_string()),
            status: Some(Status::Completed),
            ..Default::default()
        },
    };
    assert_eq!(
        Subcommand::parse(&["123", "done", "now-finished"]).unwrap(),
        (empty, subcommand)
    );
}

#[test]
fn test_start() {
    let empty: &[&str] = &[];
    let subcommand = Subcommand::Modify {
        filter: Filter {
            universe: Universe::for_ids(vec![123]),
            ..Default::default()
        },
        modification: Modification {
            active: Some(true),
            ..Default::default()
        },
    };
    assert_eq!(
        Subcommand::parse(&["123", "start"]).unwrap(),
        (empty, subcommand)
    );
}

#[test]
fn test_start_modify() {
    let empty: &[&str] = &[];
    let subcommand = Subcommand::Modify {
        filter: Filter {
            universe: Universe::for_ids(vec![123]),
            ..Default::default()
        },
        modification: Modification {
            active: Some(true),
            description: DescriptionMod::Replace("mod".to_string()),
            ..Default::default()
        },
    };
    assert_eq!(
        Subcommand::parse(&["123", "start", "mod"]).unwrap(),
        (empty, subcommand)
    );
}

#[test]
fn test_stop() {
    let empty: &[&str] = &[];
    let subcommand = Subcommand::Modify {
        filter: Filter {
            universe: Universe::for_ids(vec![123]),
            ..Default::default()
        },
        modification: Modification {
            active: Some(false),
            ..Default::default()
        },
    };
    assert_eq!(
        Subcommand::parse(&["123", "stop"]).unwrap(),
        (empty, subcommand)
    );
}

#[test]
fn test_stop_modify() {
    let empty: &[&str] = &[];
    let subcommand = Subcommand::Modify {
        filter: Filter {
            universe: Universe::for_ids(vec![123]),
            ..Default::default()
        },
        modification: Modification {
            description: DescriptionMod::Replace("mod".to_string()),
            active: Some(false),
            ..Default::default()
        },
    };
    assert_eq!(
        Subcommand::parse(&["123", "stop", "mod"]).unwrap(),
        (empty, subcommand)
    );
}

#[test]
fn test_list() {
    let empty: &[&str] = &[];
    let subcommand = Subcommand::List {
        report: Report {
            ..Default::default()
        },
    };
    assert_eq!(
        Subcommand::parse(&["list"]).unwrap(),
        (empty, subcommand)
    );
}

#[test]
fn test_list_filter() {
    let empty: &[&str] = &[];
    let subcommand = Subcommand::List {
        report: Report {
            filter: Filter {
                universe: Universe::for_ids(vec![12, 13]),
                ..Default::default()
            },
        },
    };
    assert_eq!(
        Subcommand::parse(&["12,13", "list"]).unwrap(),
        (empty, subcommand)
    );
}

#[test]
fn test_info_filter() {
    let empty: &[&str] = &[];
    let subcommand = Subcommand::Info {
        debug: false,
        filter: Filter {
            universe: Universe::for_ids(vec![12, 13]),
            ..Default::default()
        },
    };
    assert_eq!(
        Subcommand::parse(&["12,13", "info"]).unwrap(),
        (empty, subcommand)
    );
}

#[test]
fn test_debug_filter() {
    let empty: &[&str] = &[];
    let subcommand = Subcommand::Info {
        debug: true,
        filter: Filter {
            universe: Universe::for_ids(vec![12]),
            ..Default::default()
        },
    };
    assert_eq!(
        Subcommand::parse(&["12", "debug"]).unwrap(),
        (empty, subcommand)
    );
}

#[test]
fn test_gc() {
    let empty: &[&str] = &[];
    let subcommand = Subcommand::Gc;
    assert_eq!(
        Subcommand::parse(&["gc"]).unwrap(),
        (empty, subcommand)
    );
}

#[test]
fn test_gc_extra_args() {
    let empty: &[&str] = &["foo"];
    let subcommand = Subcommand::Gc;
    assert_eq!(
        Subcommand::parse(&["gc", "foo"]).unwrap(),
        (empty, subcommand)
    );
}

#[test]
fn test_sync() {
    let empty: &[&str] = &[];
    let subcommand = Subcommand::Sync;
    assert_eq!(
        Subcommand::parse(&["sync"]).unwrap(),
        (empty, subcommand)
    );
}
