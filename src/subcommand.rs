//! The subcommand grammars and the dispatcher that tries them in order.
use vstd::prelude::*;

use crate::filter::{
    filter_spec, id_list, is_digit, is_id, lemma_split_nonempty, split_commas, Filter, Report,
    UniverseView,
};
use crate::modification::{
    modification_spec, DescriptionMod, DescriptionView, Modification, ModificationView, Status,
};
use crate::tokens::{match_literal, token_is, words, NoMatch};
use crate::usage::{
    add_usage, all_usage, gc_usage, info_usage, list_usage, modify_usage, sync_usage,
    version_usage, Usage, UsageEntry,
};

verus! {

/// The operation the command line asks for.
#[derive(Debug, PartialEq, Eq, Clone)]
pub enum Subcommand {
    /// Show the tool's version.
    Version,
    /// Show help; `summary` asks for the short form.
    Help { summary: bool },
    /// Add a new task.
    Add { modification: Modification },
    /// Modify the tasks that the filter selects.
    Modify { filter: Filter, modification: Modification },
    /// List the tasks of a report.
    List { report: Report },
    /// Show the tasks that the filter selects.
    Info { filter: Filter, debug: bool },
    /// Refresh the working set.
    Gc,
    /// Synchronize the task database.
    Sync,
}

/// Mathematical model of a `Subcommand`.
pub enum SubcommandView {
    Version,
    Help { summary: bool },
    Add { modification: ModificationView },
    Modify { filter: UniverseView, modification: ModificationView },
    List { report: UniverseView },
    Info { filter: UniverseView, debug: bool },
    Gc,
    Sync,
}

impl View for Subcommand {
    type V = SubcommandView;

    open spec fn view(&self) -> SubcommandView {
        match self {
            Subcommand::Version => SubcommandView::Version,
            Subcommand::Help { summary } => SubcommandView::Help { summary: *summary },
            Subcommand::Add { modification } => SubcommandView::Add {
                modification: modification@,
            },
            Subcommand::Modify { filter, modification } => SubcommandView::Modify {
                filter: filter@,
                modification: modification@,
            },
            Subcommand::List { report } => SubcommandView::List { report: report@ },
            Subcommand::Info { filter, debug } => SubcommandView::Info {
                filter: filter@,
                debug: *debug,
            },
            Subcommand::Gc => SubcommandView::Gc,
            Subcommand::Sync => SubcommandView::Sync,
        }
    }
}

/// What a grammar makes of a token stream: the subcommand and the number of
/// tokens it takes, or `None` when the stream does not have its shape.
pub type Parsed = Option<(SubcommandView, int)>;

/// `r` is the executable form of `expect` on `input`: the same subcommand and
/// the tokens that follow what was taken, or a failure exactly when `expect` is `None`.
pub open spec fn parsed_as<'a>(
    input: &'a [&'a str],
    r: Result<(&'a [&'a str], Subcommand), NoMatch>,
    expect: Parsed,
) -> bool {
    match r {
        Ok((rest, sc)) => {
            &&& expect.is_some()
            &&& sc@ == expect.unwrap().0
            &&& rest@ == input@.skip(expect.unwrap().1)
        },
        Err(_) => expect.is_none(),
    }
}

/// `version` or `--version` as the first token.
pub open spec fn version_spec(t: Seq<Seq<char>>) -> Parsed {
    if t.len() > 0 && (t[0] == "version"@ || t[0] == "--version"@) {
        Some((SubcommandView::Version, 1))
    } else {
        None
    }
}

/// `help`, `--help` or `-h` as the first token; the summary exactly for `-h`.
pub open spec fn help_spec(t: Seq<Seq<char>>) -> Parsed {
    if t.len() > 0 && (t[0] == "help"@ || t[0] == "--help"@ || t[0] == "-h"@) {
        Some((SubcommandView::Help { summary: t[0] == "-h"@ }, 1))
    } else {
        None
    }
}

/// `add`, then a modification made of all the tokens after it.
pub open spec fn add_spec(t: Seq<Seq<char>>) -> Parsed {
    if t.len() > 0 && t[0] == "add"@ {
        Some((SubcommandView::Add { modification: modification_spec(t.skip(1)) }, t.len() as int))
    } else {
        None
    }
}

/// The keywords that make a `Modify` subcommand.
pub open spec fn is_modify_keyword(w: Seq<char>) -> bool {
    ||| w == "modify"@
    ||| w == "prepend"@
    ||| w == "append"@
    ||| w == "start"@
    ||| w == "stop"@
    ||| w == "done"@
}

/// What the keyword of a `Modify` subcommand does to the parsed modification:
/// `prepend` and `append` turn a replaced description into a prepended or
/// appended one (and leave any other description alone), `start` and `stop`
/// set `active`, `done` sets the status to completed, `modify` changes nothing.
pub open spec fn keyword_effect(kw: Seq<char>, m: ModificationView) -> ModificationView {
    if kw == "prepend"@ {
        match m.description {
            DescriptionView::Replace(s) => ModificationView {
            description: DescriptionView::Prepend(s),
                status: m.status,
                active: m.active,
            },
            _ => m,
        }
    } else if kw == "append"@ {
        match m.description {
            DescriptionView::Replace(s) => ModificationView {
            description: DescriptionView::Append(s),
                status: m.status,
                active: m.active,
            },
            _ => m,
        }
    } else if kw == "start"@ {
        ModificationView { description: m.description, status: m.status, active: Some(true) }
    } else if kw == "stop"@ {
        ModificationView { description: m.description, status: m.status, active: Some(false) }
    } else if kw == "done"@ {
        ModificationView {
            description: m.description,
            status: Some(Status::Completed),
            active: m.active,
        }
    } else {
        m
    }
}

/// A filter, a `Modify` keyword, then a modification made of all the tokens
/// after it and adjusted by the keyword.
pub open spec fn modify_spec(t: Seq<Seq<char>>) -> Parsed {
    let (f, n) = filter_spec(t);
    if n < t.len() && is_modify_keyword(t[n]) {
        Some(
            (
                SubcommandView::Modify {
                    filter: f,
                    modification: keyword_effect(t[n], modification_spec(t.skip(n + 1))),
                },
                t.len() as int,
            ),
        )
    } else {
        None
    }
}

/// A filter, then `list`.
pub open spec fn list_spec(t: Seq<Seq<char>>) -> Parsed {
    let (f, n) = filter_spec(t);
    if n < t.len() && t[n] == "list"@ {
        Some((SubcommandView::List { report: f }, n + 1))
    } else {
        None
    }
}

/// A filter, then `info` or `debug`; the debug view exactly for `debug`.
pub open spec fn info_spec(t: Seq<Seq<char>>) -> Parsed {
    let (f, n) = filter_spec(t);
    if n < t.len() && (t[n] == "info"@ || t[n] == "debug"@) {
        Some((SubcommandView::Info { filter: f, debug: t[n] == "debug"@ }, n + 1))
    } else {
        None
    }
}

/// `gc` as the first token.
pub open spec fn gc_spec(t: Seq<Seq<char>>) -> Parsed {
    if t.len() > 0 && t[0] == "gc"@ {
        Some((SubcommandView::Gc, 1))
    } else {
        None
    }
}

/// `sync` as the first token.
pub open spec fn sync_spec(t: Seq<Seq<char>>) -> Parsed {
    if t.len() > 0 && t[0] == "sync"@ {
        Some((SubcommandView::Sync, 1))
    } else {
        None
    }
}

/// The first of the grammars, in the order Version, Help, Add, Modify, List,
/// Info, Gc, Sync, that accepts the tokens.
pub open spec fn subcommand_spec(t: Seq<Seq<char>>) -> Parsed {
    if version_spec(t).is_some() {
        version_spec(t)
    } else if help_spec(t).is_some() {
        help_spec(t)
    } else if add_spec(t).is_some() {
        add_spec(t)
    } else if modify_spec(t).is_some() {
        modify_spec(t)
    } else if list_spec(t).is_some() {
        list_spec(t)
    } else if info_spec(t).is_some() {
        info_spec(t)
    } else if gc_spec(t).is_some() {
        gc_spec(t)
    } else {
        sync_spec(t)
    }
}


/// `version` or `--version`.
pub fn parse_version<'a>(input: &'a [&'a str]) -> (r: Result<(&'a [&'a str], Subcommand), NoMatch>)
    ensures
        parsed_as(input, r, version_spec(words(input))),
{
    match match_literal(input, "version") {
        Ok((rest, _)) => Ok((rest, Subcommand::Version)),
        Err(_) => match match_literal(input, "--version") {
            Ok((rest, _)) => Ok((rest, Subcommand::Version)),
            Err(e) => Err(e),
        },
    }
}

/// `help`, `--help` or `-h`; only `-h` asks for the summary.
pub fn parse_help<'a>(input: &'a [&'a str]) -> (r: Result<(&'a [&'a str], Subcommand), NoMatch>)
    ensures
        parsed_as(input, r, help_spec(words(input))),
{
    let (rest, tok) = match match_literal(input, "help") {
        Ok(m) => m,
        Err(_) => match match_literal(input, "--help") {
            Ok(m) => m,
            Err(_) => match match_literal(input, "-h") {
                Ok(m) => m,
                Err(e) => {
                    return Err(e);
                },
            },
        },
    };
    Ok((rest, Subcommand::Help { summary: token_is(tok, "-h") }))
}

/// `add` followed by a modification.
pub fn parse_add<'a>(input: &'a [&'a str]) -> (r: Result<(&'a [&'a str], Subcommand), NoMatch>)
    ensures
        parsed_as(input, r, add_spec(words(input))),
{
    let (rest, _) = match match_literal(input, "add") {
        Ok(m) => m,
        Err(e) => {
            return Err(e);
        },
    };
    let (rest2, modification) = Modification::parse(rest);
    proof {
        assert(words(rest) =~= words(input).skip(1));
        assert(rest2@ =~= input@.skip(input@.len() as int));
    }
    Ok((rest2, Subcommand::Add { modification }))
}

/// One of the keywords of a `Modify` subcommand, tried in the order
/// `modify`, `prepend`, `append`, `start`, `stop`, `done`.
fn match_modify_keyword<'a>(input: &'a [&'a str]) -> (r: Result<(&'a [&'a str], &'a str), NoMatch>)
    ensures
        match r {
            Ok((rest, kw)) => {
                &&& words(input).len() > 0
                &&& is_modify_keyword(words(input)[0])
                &&& kw@ == words(input)[0]
                &&& rest@ == input@.skip(1)
            },
            Err(_) => words(input).len() == 0 || !is_modify_keyword(words(input)[0]),
        },
{
    if let Ok(m) = match_literal(input, "modify") {
        return Ok(m);
    }
    if let Ok(m) = match_literal(input, "prepend") {
        return Ok(m);
    }
    if let Ok(m) = match_literal(input, "append") {
        return Ok(m);
    }
    if let Ok(m) = match_literal(input, "start") {
        return Ok(m);
    }
    if let Ok(m) = match_literal(input, "stop") {
        return Ok(m);
    }
    match_literal(input, "done")
}

/// Applies what the keyword of a `Modify` subcommand means to the parsed modification.
pub fn apply_keyword(kw: &str, m: Modification) -> (r: Modification)
    ensures
        r@ == keyword_effect(kw@, m@),
{
    let mut m = m;
    if token_is(kw, "prepend") {
        if let DescriptionMod::Replace(s) = m.description {
            m.description = DescriptionMod::Prepend(s);
        }
    } else if token_is(kw, "append") {
        if let DescriptionMod::Replace(s) = m.description {
            m.description = DescriptionMod::Append(s);
        }
    } else if token_is(kw, "start") {
        m.active = Some(true);
    } else if token_is(kw, "stop") {
        m.active = Some(false);
    } else if token_is(kw, "done") {
        m.status = Some(Status::Completed);
    }
    m
}

/// A filter, a keyword of `modify`, `prepend`, `append`, `start`, `stop`,
/// `done`, then a modification that the keyword adjusts.
pub fn parse_modify<'a>(input: &'a [&'a str]) -> (r: Result<(&'a [&'a str], Subcommand), NoMatch>)
    ensures
        parsed_as(input, r, modify_spec(words(input))),
{
    let (rest, filter) = Filter::parse(input);
    let ghost n = filter_spec(words(input)).1;
    proof {
        assert(words(rest) =~= words(input).skip(n));
    }
    let (rest2, kw) = match match_modify_keyword(rest) {
        Ok(m) => m,
        Err(e) => {
            return Err(e);
        },
    };
    let (rest3, modification) = Modification::parse(rest2);
    proof {
        assert(words(rest2) =~= words(input).skip(n + 1));
        assert(rest3@ =~= input@.skip(input@.len() as int));
    }
    let modification = apply_keyword(kw, modification);
    Ok((rest3, Subcommand::Modify { filter, modification }))
}

/// A report's filter followed by `list`.
pub fn parse_list<'a>(input: &'a [&'a str]) -> (r: Result<(&'a [&'a str], Subcommand), NoMatch>)
    ensures
        parsed_as(input, r, list_spec(words(input))),
{
    let (rest, report) = Report::parse(input);
    let ghost n = filter_spec(words(input)).1;
    proof {
        assert(words(rest) =~= words(input).skip(n));
    }
    let (rest2, _) = match match_literal(rest, "list") {
        Ok(m) => m,
        Err(e) => {
            return Err(e);
        },
    };
    proof {
        assert(rest2@ =~= input@.skip(n + 1));
    }
    Ok((rest2, Subcommand::List { report }))
}

/// A filter followed by `info`, or by `debug` for the debug view.
pub fn parse_info<'a>(input: &'a [&'a str]) -> (r: Result<(&'a [&'a str], Subcommand), NoMatch>)
    ensures
        parsed_as(input, r, info_spec(words(input))),
{
    let (rest, filter) = Filter::parse(input);
    let ghost n = filter_spec(words(input)).1;
    proof {
        assert(words(rest) =~= words(input).skip(n));
    }
    let (rest2, kw) = match match_literal(rest, "info") {
        Ok(m) => m,
        Err(_) => match match_literal(rest, "debug") {
            Ok(m) => m,
            Err(e) => {
                return Err(e);
            },
        },
    };
    proof {
        assert(rest2@ =~= input@.skip(n + 1));
    }
    Ok((rest2, Subcommand::Info { filter, debug: token_is(kw, "debug") }))
}

/// `gc`; what follows it is left to the caller.
pub fn parse_gc<'a>(input: &'a [&'a str]) -> (r: Result<(&'a [&'a str], Subcommand), NoMatch>)
    ensures
        parsed_as(input, r, gc_spec(words(input))),
{
    match match_literal(input, "gc") {
        Ok((rest, _)) => Ok((rest, Subcommand::Gc)),
        Err(e) => Err(e),
    }
}

/// `sync`.
pub fn parse_sync<'a>(input: &'a [&'a str]) -> (r: Result<(&'a [&'a str], Subcommand), NoMatch>)
    ensures
        parsed_as(input, r, sync_spec(words(input))),
{
    match match_literal(input, "sync") {
        Ok((rest, _)) => Ok((rest, Subcommand::Sync)),
        Err(e) => Err(e),
    }
}

impl Subcommand {
    /// Reads a subcommand from the front of the tokens: the first grammar, in
    /// the order Version, Help, Add, Modify, List, Info, Gc, Sync, that
    /// accepts them; `NoMatch` when none does. Returns the tokens left over.
    pub fn parse<'a>(input: &'a [&'a str]) -> (r: Result<(&'a [&'a str], Subcommand), NoMatch>)
        ensures
            parsed_as(input, r, subcommand_spec(words(input))),
    {
        if let Ok(m) = parse_version(input) {
            return Ok(m);
        }
        if let Ok(m) = parse_help(input) {
            return Ok(m);
        }
        if let Ok(m) = parse_add(input) {
            return Ok(m);
        }
        if let Ok(m) = parse_modify(input) {
            return Ok(m);
        }
        if let Ok(m) = parse_list(input) {
            return Ok(m);
        }
        if let Ok(m) = parse_info(input) {
            return Ok(m);
        }
        if let Ok(m) = parse_gc(input) {
            return Ok(m);
        }
        parse_sync(input)
    }
}


/// Adds the usage entries of the version grammar.
pub fn describe_version(u: &mut Usage)
    ensures
        final(u).subcommands@ == old(u).subcommands@ + version_usage(),
{
    let ghost start = u.subcommands@;
    u.subcommands.push(
        UsageEntry {
            name: "version",
            syntax: "version",
            summary: "Show the TaskChampion version",
            description: "Show the version of the TaskChampion binary",
        },
    );
    proof {
        assert(u.subcommands@ =~= start + version_usage());
    }
}

/// Adds the usage entries of the add grammar.
pub fn describe_add(u: &mut Usage)
    ensures
        final(u).subcommands@ == old(u).subcommands@ + add_usage(),
{
    let ghost start = u.subcommands@;
    u.subcommands.push(
        UsageEntry {
            name: "add",
            syntax: "add [modification]",
            summary: "Add a new task",
            description: "
                Add a new, pending task to the list of tasks.  The modification must include a
                description.",
        },
    );
    proof {
        assert(u.subcommands@ =~= start + add_usage());
    }
}

/// Adds the usage entries of the modify grammar.
pub fn describe_modify(u: &mut Usage)
    ensures
        final(u).subcommands@ == old(u).subcommands@ + modify_usage(),
{
    let ghost start = u.subcommands@;
    u.subcommands.push(
        UsageEntry {
            name: "modify",
            syntax: "[filter] modify [modification]",
            summary: "Modify tasks",
            description: "
                Modify all tasks matching the filter.",
        },
    );
    u.subcommands.push(
        UsageEntry {
            name: "prepend",
            syntax: "[filter] prepend [modification]",
            summary: "Prepend task description",
            description: "
                Modify all tasks matching the filter by inserting the given description before each
                task's description.",
        },
    );
    u.subcommands.push(
        UsageEntry {
            name: "append",
            syntax: "[filter] append [modification]",
            summary: "Append task description",
            description: "
                Modify all tasks matching the filter by adding the given description to the end
                of each task's description.",
        },
    );
    u.subcommands.push(
        UsageEntry {
            name: "start",
            syntax: "[filter] start [modification]",
            summary: "Start tasks",
            description: "
                Start all tasks matching the filter, additionally applying any given modifications.",
        },
    );
    u.subcommands.push(
        UsageEntry {
            name: "stop",
            syntax: "[filter] stop [modification]",
            summary: "Stop tasks",
            description: "
                Stop all tasks matching the filter, additionally applying any given modifications.",
        },
    );
    u.subcommands.push(
        UsageEntry {
            name: "done",
            syntax: "[filter] done [modification]",
            summary: "Mark tasks as completed",
            description: "
                Mark all tasks matching the filter as completed, additionally applying any given
                modifications.",
        },
    );
    proof {
        assert(u.subcommands@ =~= start + modify_usage());
    }
}

/// Adds the usage entries of the list grammar.
pub fn describe_list(u: &mut Usage)
    ensures
        final(u).subcommands@ == old(u).subcommands@ + list_usage(),
{
    let ghost start = u.subcommands@;
    u.subcommands.push(
        UsageEntry {
            name: "list",
            syntax: "[filter] list",
            summary: "List tasks",
            description: "
                Show a list of the tasks matching the filter",
        },
    );
    proof {
        assert(u.subcommands@ =~= start + list_usage());
    }
}

/// Adds the usage entries of the info grammar.
pub fn describe_info(u: &mut Usage)
    ensures
        final(u).subcommands@ == old(u).subcommands@ + info_usage(),
{
    let ghost start = u.subcommands@;
    u.subcommands.push(
        UsageEntry {
            name: "info",
            syntax: "[filter] info",
            summary: "Show tasks",
            description: " Show information about all tasks matching the fiter.",
        },
    );
    u.subcommands.push(
        UsageEntry {
            name: "debug",
            syntax: "[filter] debug",
            summary: "Show task debug details",
            description: " Show all key/value properties of the tasks matching the fiter.",
        },
    );
    proof {
        assert(u.subcommands@ =~= start + info_usage());
    }
}

/// Adds the usage entries of the gc grammar.
pub fn describe_gc(u: &mut Usage)
    ensures
        final(u).subcommands@ == old(u).subcommands@ + gc_usage(),
{
    let ghost start = u.subcommands@;
    u.subcommands.push(
        UsageEntry {
            name: "gc",
            syntax: "gc",
            summary: "Perform 'garbage collection'",
            description: "
                Perform 'garbage collection'.  This refreshes the list of pending tasks
                and their short id's.",
        },
    );
    proof {
        assert(u.subcommands@ =~= start + gc_usage());
    }
}

/// Adds the usage entries of the sync grammar.
pub fn describe_sync(u: &mut Usage)
    ensures
        final(u).subcommands@ == old(u).subcommands@ + sync_usage(),
{
    let ghost start = u.subcommands@;
    u.subcommands.push(
        UsageEntry {
            name: "sync",
            syntax: "sync",
            summary: "Synchronize this replica",
            description: "
                Synchronize this replica locally or against a remote server, as configured.

                Synchronization is a critical part of maintaining the task database, and should
                be done regularly, even if only locally.  It is typically run in a crontask.",
        },
    );
    proof {
        assert(u.subcommands@ =~= start + sync_usage());
    }
}

/// The help grammar adds no usage entry.
pub fn describe_help(u: &mut Usage)
    ensures
        final(u).subcommands@ == old(u).subcommands@,
{
}

impl Subcommand {
    /// Adds the usage entries of every grammar, in the dispatcher's order.
    pub fn get_usage(u: &mut Usage)
        ensures
            final(u).subcommands@ == old(u).subcommands@ + all_usage(),
    {
        let ghost start = u.subcommands@;
        describe_version(u);
        describe_help(u);
        describe_add(u);
        describe_modify(u);
        describe_list(u);
        describe_info(u);
        describe_gc(u);
        describe_sync(u);
        proof {
            assert(u.subcommands@ =~= start + all_usage());
        }
    }
}

proof fn lemma_first_part(s: Seq<char>)
    requires
        s.len() > 0,
        s[0] != ',',
    ensures
        split_commas(s)[0].len() > 0,
        split_commas(s)[0][0] == s[0],
    decreases s.len(),
{
    let p = s.drop_last();
    if s.len() == 1 {
        assert(p =~= Seq::<char>::empty());
        assert(split_commas(s)[0] =~= seq![s[0]]);
    } else {
        lemma_first_part(p);
        lemma_split_nonempty(p);
        let prev = split_commas(p);
        if s.last() != ',' && prev.len() == 1 {
            assert(split_commas(s)[0] == prev[0].push(s.last()));
        }
    }
}

/// A token that starts with a letter or a dash is no id list.
proof fn lemma_word_is_no_id_list(s: Seq<char>)
    requires
        s.len() > 0,
        s[0] != ',',
        !is_digit(s[0]),
    ensures
        id_list(s).is_none(),
{
    lemma_first_part(s);
    lemma_split_nonempty(s);
    assert(!is_id(split_commas(s)[0]));
}

/// `version` or `--version` at the front gives `Version`, whatever follows,
/// and the tokens after the keyword are all left over.
pub proof fn lemma_version_first(t: Seq<Seq<char>>)
    requires
        t.len() > 0,
        t[0] == "version"@ || t[0] == "--version"@,
    ensures
        subcommand_spec(t) == Some((SubcommandView::Version, 1int)),
{
}

/// `-h` gives the summary help; `help` and `--help` give the full help.
pub proof fn lemma_help_summary(t: Seq<Seq<char>>)
    requires
        t.len() > 0,
        t[0] == "help"@ || t[0] == "--help"@ || t[0] == "-h"@,
    ensures
        subcommand_spec(t) == Some((SubcommandView::Help { summary: t[0] == "-h"@ }, 1int)),
{
    reveal_strlit("version");
    reveal_strlit("--version");
    reveal_strlit("help");
    reveal_strlit("--help");
    reveal_strlit("-h");
    assert(version_spec(t).is_none());
}

/// `gc` gives `Gc` and leaves every token after it to the caller.
pub proof fn lemma_gc_keeps_trailing(t: Seq<Seq<char>>)
    requires
        t.len() > 0,
        t[0] == "gc"@,
    ensures
        subcommand_spec(t) == Some((SubcommandView::Gc, 1int)),
{
    reveal_strlit("gc");
    reveal_strlit("version");
    reveal_strlit("--version");
    reveal_strlit("help");
    reveal_strlit("--help");
    reveal_strlit("-h");
    reveal_strlit("add");
    reveal_strlit("modify");
    reveal_strlit("prepend");
    reveal_strlit("append");
    reveal_strlit("start");
    reveal_strlit("stop");
    reveal_strlit("done");
    reveal_strlit("list");
    reveal_strlit("info");
    reveal_strlit("debug");
    lemma_word_is_no_id_list(t[0]);
    assert(filter_spec(t).1 == 0);
    assert(version_spec(t).is_none());
    assert(help_spec(t).is_none());
    assert(add_spec(t).is_none());
    assert(!is_modify_keyword(t[0]));
    assert(modify_spec(t).is_none());
    assert(list_spec(t).is_none());
    assert(info_spec(t).is_none());
}

/// A keyword of some grammar.
pub open spec fn is_keyword(w: Seq<char>) -> bool {
    ||| w == "version"@
    ||| w == "--version"@
    ||| w == "help"@
    ||| w == "--help"@
    ||| w == "-h"@
    ||| w == "add"@
    ||| is_modify_keyword(w)
    ||| w == "list"@
    ||| w == "info"@
    ||| w == "debug"@
    ||| w == "gc"@
    ||| w == "sync"@
}

/// A stream that is empty, or whose first token is neither a keyword nor an
/// id list, matches no grammar.
pub proof fn lemma_unknown_first_token(t: Seq<Seq<char>>)
    requires
        t.len() == 0 || (!is_keyword(t[0]) && id_list(t[0]).is_none()),
    ensures
        subcommand_spec(t).is_none(),
{
}

/// Parsing is a function of the tokens' text: two results that both meet the
/// dispatcher's contract on the same input agree on success, on the
/// subcommand and on what is left over.
pub proof fn lemma_parse_repeatable<'a>(
    input: &'a [&'a str],
    r1: Result<(&'a [&'a str], Subcommand), NoMatch>,
    r2: Result<(&'a [&'a str], Subcommand), NoMatch>,
)
    requires
        parsed_as(input, r1, subcommand_spec(words(input))),
        parsed_as(input, r2, subcommand_spec(words(input))),
    ensures
        r1.is_ok() == r2.is_ok(),
        r1.is_ok() ==> r1.unwrap().1@ == r2.unwrap().1@ && r1.unwrap().0@ == r2.unwrap().0@,
{
}

} // verus!
