//! The command-line client's arguments, read into the command to run.
use vstd::prelude::*;
use crate::decimal::{parse_id, parsed_id};
use crate::item::TodoItem;
use crate::text::same_text;
use crate::timestamp::{from_parts, rfc3339_instant, Timestamp, SECONDS_PER_DAY};

verus! {

/// Days from now to the due date of an item inserted without one.
pub const DEFAULT_DUE_DAYS: u32 = 3;

/// What the client is asked to do.
#[derive(Debug)]
pub enum Command {
    /// Print how to use the client.
    Help,
    /// List all items.
    List,
    /// Show the item under `id`.
    View { id: u32 },
    /// Insert a new item.
    Insert { item: TodoItem },
    /// Replace the item under `id`.
    Update { id: u32, item: TodoItem },
    /// Fetch the item under `id` and store it back with its completion flag
    /// set to `completed`.
    SetCompleted { id: u32, completed: bool },
    /// Delete the item under `id`.
    Delete { id: u32 },
}

/// Why the arguments were refused; the client prints a message and sends
/// nothing.
#[derive(Clone, Copy, Debug, PartialEq, Eq, Structural)]
pub enum CliError {
    /// `view` without an id.
    ViewUsage,
    /// `insert` without a title and a description.
    InsertUsage,
    /// `update` without an id, title, description, due date and flag.
    UpdateUsage,
    /// `complete` or `incomplete` without an id.
    CompletionUsage,
    /// `delete` without an id.
    DeleteUsage,
    /// An id that does not read as a `u32`.
    InvalidId,
    /// A due date that is not an RFC 3339 date and time.
    InvalidDueDate,
    /// The default due date lies beyond what a timestamp holds.
    DueDateOutOfRange,
}

/// The id argument at `i` read as an id.
pub open spec fn id_arg(args: Seq<String>, i: int) -> Result<u32, CliError> {
    match parsed_id(args[i]@) {
        Some(id) => Ok(id),
        None => Err(CliError::InvalidId),
    }
}

/// The due-date argument at `i` read as a timestamp.
pub open spec fn date_arg(args: Seq<String>, i: int) -> Result<Timestamp, CliError> {
    match from_parts(rfc3339_instant(args[i]@)) {
        Some(t) => Ok(t),
        None => Err(CliError::InvalidDueDate),
    }
}

/// The due date of an item inserted without one: three days after `now`.
pub open spec fn default_due(now: Timestamp) -> Result<Timestamp, CliError> {
    let secs = now.secs + DEFAULT_DUE_DAYS * SECONDS_PER_DAY;
    if secs <= i64::MAX {
        Ok(Timestamp { secs: secs as i64, nanos: now.nanos })
    } else {
        Err(CliError::DueDateOutOfRange)
    }
}

/// Whether `r` is an item with the given fields, the text ones given as
/// character sequences.
pub open spec fn item_is(
    r: TodoItem,
    title: Seq<char>,
    description: Seq<char>,
    due_date: Timestamp,
    created_at: Timestamp,
    completed: bool,
) -> bool {
    &&& r.title@ == title
    &&& r.description@ == description
    &&& r.due_date == due_date
    &&& r.created_at == created_at
    &&& r.completed == completed
}

/// The command word of the arguments, after the program's name.
pub open spec fn word(args: Seq<String>) -> Seq<char> {
    args[1]@
}

/// Whether `w` names a command.
pub open spec fn is_command_word(w: Seq<char>) -> bool {
    w == "list"@ || w == "view"@ || w == "insert"@ || w == "update"@ || w == "complete"@ || w
        == "incomplete"@ || w == "delete"@
}

/// Reads the id argument at `i`.
fn read_id(args: &Vec<String>, i: usize) -> (r: Result<u32, CliError>)
    requires
        i < args.len(),
    ensures
        r == id_arg(args@, i as int),
{
    match parse_id(args[i].as_str()) {
        Some(id) => Ok(id),
        None => Err(CliError::InvalidId),
    }
}

/// Reads the due-date argument at `i`.
fn read_date(args: &Vec<String>, i: usize) -> (r: Result<Timestamp, CliError>)
    requires
        i < args.len(),
    ensures
        r == date_arg(args@, i as int),
{
    match Timestamp::parse(args[i].as_str()) {
        Some(t) => Ok(t),
        None => Err(CliError::InvalidDueDate),
    }
}

/// Reads the client's arguments; `args[0]` is the program's name and `now`
/// the time of the call, which becomes the creation time of an inserted or
/// updated item.
pub fn parse_command(args: &Vec<String>, now: Timestamp) -> (r: Result<Command, CliError>)
    ensures
        args.len() < 2 ==> r == Ok::<Command, CliError>(Command::Help),
        args.len() >= 2 && !is_command_word(word(args@)) ==> r == Ok::<Command, CliError>(
            Command::Help,
        ),
        args.len() >= 2 && word(args@) == "list"@ ==> r == Ok::<Command, CliError>(Command::List),
        args.len() >= 2 && word(args@) == "view"@ ==> r == (if args.len() < 3 {
            Err(CliError::ViewUsage)
        } else {
            match id_arg(args@, 2) {
                Ok(id) => Ok(Command::View { id }),
                Err(e) => Err(e),
            }
        }),
        args.len() >= 2 && word(args@) == "delete"@ ==> r == (if args.len() < 3 {
            Err(CliError::DeleteUsage)
        } else {
            match id_arg(args@, 2) {
                Ok(id) => Ok(Command::Delete { id }),
                Err(e) => Err(e),
            }
        }),
        args.len() >= 2 && (word(args@) == "complete"@ || word(args@) == "incomplete"@) ==> r == (
        if args.len() < 3 {
            Err(CliError::CompletionUsage)
        } else {
            match id_arg(args@, 2) {
                Ok(id) => Ok(Command::SetCompleted { id, completed: word(args@) == "complete"@ }),
                Err(e) => Err(e),
            }
        }),
        args.len() >= 2 && word(args@) == "insert"@ ==> {
            let due = if args.len() > 4 {
                date_arg(args@, 4)
            } else {
                default_due(now)
            };
            if args.len() < 4 {
                r == Err::<Command, CliError>(CliError::InsertUsage)
            } else {
                match due {
                    Err(e) => r == Err::<Command, CliError>(e),
                    Ok(d) => match r {
                        Ok(Command::Insert { item }) => item_is(
                            item,
                            args@[2]@,
                            args@[3]@,
                            d,
                            now,
                            false,
                        ),
                        _ => false,
                    },
                }
            }
        },
        args.len() >= 2 && word(args@) == "update"@ ==> {
            if args.len() < 7 {
                r == Err::<Command, CliError>(CliError::UpdateUsage)
            } else {
                match (id_arg(args@, 2), date_arg(args@, 5)) {
                    (Err(e), _) => r == Err::<Command, CliError>(e),
                    (Ok(_), Err(e)) => r == Err::<Command, CliError>(e),
                    (Ok(id), Ok(d)) => match r {
                        Ok(Command::Update { id: rid, item }) => rid == id && item_is(
                            item,
                            args@[3]@,
                            args@[4]@,
                            d,
                            now,
                            args@[6]@ == "true"@,
                        ),
                        _ => false,
                    },
                }
            }
        },
{
    proof {
        reveal_strlit("list");
        reveal_strlit("view");
        reveal_strlit("insert");
        reveal_strlit("update");
        reveal_strlit("complete");
        reveal_strlit("incomplete");
        reveal_strlit("delete");
        assert("list"@.len() == 4 && "list"@[0] == 'l');
        assert("view"@.len() == 4 && "view"@[0] == 'v');
        assert("insert"@.len() == 6 && "insert"@[0] == 'i');
        assert("update"@.len() == 6 && "update"@[0] == 'u');
        assert("delete"@.len() == 6 && "delete"@[0] == 'd');
        assert("complete"@.len() == 8);
        assert("incomplete"@.len() == 10);
    }
    if args.len() < 2 {
        return Ok(Command::Help);
    }
    let w = args[1].as_str();
    if same_text(w, "list") {
        Ok(Command::List)
    } else if same_text(w, "view") {
        if args.len() < 3 {
            return Err(CliError::ViewUsage);
        }
        let id = match read_id(args, 2) {
            Ok(v) => v,
            Err(e) => {
                return Err(e);
            },
        };
        Ok(Command::View { id })
    } else if same_text(w, "delete") {
        if args.len() < 3 {
            return Err(CliError::DeleteUsage);
        }
        let id = match read_id(args, 2) {
            Ok(v) => v,
            Err(e) => {
                return Err(e);
            },
        };
        Ok(Command::Delete { id })
    } else if same_text(w, "complete") || same_text(w, "incomplete") {
        if args.len() < 3 {
            return Err(CliError::CompletionUsage);
        }
        let id = match read_id(args, 2) {
            Ok(v) => v,
            Err(e) => {
                return Err(e);
            },
        };
        Ok(Command::SetCompleted { id, completed: same_text(w, "complete") })
    } else if same_text(w, "insert") {
        if args.len() < 4 {
            return Err(CliError::InsertUsage);
        }
        let due_date = if args.len() > 4 {
            match read_date(args, 4) {
                Ok(t) => t,
                Err(e) => {
                    return Err(e);
                },
            }
        } else {
            match now.plus_days(DEFAULT_DUE_DAYS) {
                Some(t) => t,
                None => {
                    return Err(CliError::DueDateOutOfRange);
                },
            }
        };
        let item = TodoItem {
            title: args[2].clone(),
            description: args[3].clone(),
            due_date,
            created_at: now,
            completed: false,
        };
        Ok(Command::Insert { item })
    } else if same_text(w, "update") {
        if args.len() < 7 {
            return Err(CliError::UpdateUsage);
        }
        let id = match read_id(args, 2) {
            Ok(v) => v,
            Err(e) => {
                return Err(e);
            },
        };
        let due_date = match read_date(args, 5) {
            Ok(v) => v,
            Err(e) => {
                return Err(e);
            },
        };
        let item = TodoItem {
            title: args[3].clone(),
            description: args[4].clone(),
            due_date,
            created_at: now,
            completed: same_text(args[6].as_str(), "true"),
        };
        Ok(Command::Update { id, item })
    } else {
        Ok(Command::Help)
    }
}

} // verus!
