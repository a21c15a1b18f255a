//! The usage registry: descriptions of every keyword form, for help output.
use vstd::prelude::*;

verus! {

/// The description of one keyword form.
#[derive(Debug, PartialEq, Eq, Clone, Copy)]
pub struct UsageEntry {
    pub name: &'static str,
    pub syntax: &'static str,
    pub summary: &'static str,
    pub description: &'static str,
}

/// The entries gathered so far, in the order they were added.
#[derive(Debug, Clone)]
pub struct Usage {
    pub subcommands: Vec<UsageEntry>,
}

impl Usage {
    /// An empty registry.
    pub fn new() -> (r: Usage)
        ensures
            r.subcommands@ == Seq::<UsageEntry>::empty(),
    {
        Usage { subcommands: Vec::new() }
    }
}

pub open spec fn version_usage() -> Seq<UsageEntry> {
    seq![
        UsageEntry {
            name: "version",
            syntax: "version",
            summary: "Show the TaskChampion version",
            description: "Show the version of the TaskChampion binary",
        },
    ]
}

pub open spec fn add_usage() -> Seq<UsageEntry> {
    seq![
        UsageEntry {
            name: "add",
            syntax: "add [modification]",
            summary: "Add a new task",
            description: "
                Add a new, pending task to the list of tasks.  The modification must include a
                description.",
        },
    ]
}

pub open spec fn modify_usage() -> Seq<UsageEntry> {
    seq![
        UsageEntry {
            name: "modify",
            syntax: "[filter] modify [modification]",
            summary: "Modify tasks",
            description: "
                Modify all tasks matching the filter.",
        },
        UsageEntry {
            name: "prepend",
            syntax: "[filter] prepend [modification]",
            summary: "Prepend task description",
            description: "
                Modify all tasks matching the filter by inserting the given description before each
                task's description.",
        },
        UsageEntry {
            name: "append",
            syntax: "[filter] append [modification]",
            summary: "Append task description",
            description: "
                Modify all tasks matching the filter by adding the given description to the end
                of each task's description.",
        },
        UsageEntry {
            name: "start",
            syntax: "[filter] start [modification]",
            summary: "Start tasks",
            description: "
                Start all tasks matching the filter, additionally applying any given modifications.",
        },
        UsageEntry {
            name: "stop",
            syntax: "[filter] stop [modification]",
            summary: "Stop tasks",
            description: "
                Stop all tasks matching the filter, additionally applying any given modifications.",
        },
        UsageEntry {
            name: "done",
            syntax: "[filter] done [modification]",
            summary: "Mark tasks as completed",
            description: "
                Mark all tasks matching the filter as completed, additionally applying any given
                modifications.",
        },
    ]
}

pub open spec fn list_usage() -> Seq<UsageEntry> {
    seq![
        UsageEntry {
            name: "list",
            syntax: "[filter] list",
            summary: "List tasks",
            description: "
                Show a list of the tasks matching the filter",
        },
    ]
}

pub open spec fn info_usage() -> Seq<UsageEntry> {
    seq![
        UsageEntry {
            name: "info",
            syntax: "[filter] info",
            summary: "Show tasks",
            description: " Show information about all tasks matching the fiter.",
        },
        UsageEntry {
            name: "debug",
            syntax: "[filter] debug",
            summary: "Show task debug details",
            description: " Show all key/value properties of the tasks matching the fiter.",
        },
    ]
}

pub open spec fn gc_usage() -> Seq<UsageEntry> {
    seq![
        UsageEntry {
            name: "gc",
            syntax: "gc",
            summary: "Perform 'garbage collection'",
            description: "
                Perform 'garbage collection'.  This refreshes the list of pending tasks
                and their short id's.",
        },
    ]
}

pub open spec fn sync_usage() -> Seq<UsageEntry> {
    seq![
        UsageEntry {
            name: "sync",
            syntax: "sync",
            summary: "Synchronize this replica",
            description: "
                Synchronize this replica locally or against a remote server, as configured.

                Synchronization is a critical part of maintaining the task database, and should
                be done regularly, even if only locally.  It is typically run in a crontask.",
        },
    ]
}

/// Every entry, in the order of the grammars (help adds none).
pub open spec fn all_usage() -> Seq<UsageEntry> {
    version_usage() + add_usage() + modify_usage() + list_usage() + info_usage() + gc_usage()
        + sync_usage()
}

} // verus!
