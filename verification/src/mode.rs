//! Benchmark modes: their names, the operations they issue, and what has to
//! happen before and after the timed run.

use vstd::prelude::*;
use vstd::string::*;

verus! {

/// One logical operation against the backend.
#[derive(Clone, Copy, Debug, PartialEq, Eq, Structural)]
pub enum Operation {
    /// Existence check of a prepared key.
    Stat,
    /// Full read of a prepared key.
    Read,
    /// Write of a payload under a fresh key.
    Write,
    /// Deletion of a prepared key.
    Delete,
    /// Listing under the run's prefix.
    List,
}

/// A benchmark mode.
#[derive(Clone, Copy, Debug, PartialEq, Eq, Structural)]
pub enum Mode {
    Stat,
    ReadSmall,
    WriteSmall,
    Delete,
    List,
    /// A read run followed by a write run.
    ReadWrite,
}

/// Why a run cannot be set up.
#[derive(Clone, Copy, Debug, PartialEq, Eq, Structural)]
pub enum ConfigError {
    /// The mode name stands for no mode.
    UnknownMode,
    /// No attempt could ever be admitted.
    ZeroConcurrency,
    /// The operation works on prepared keys and there is none.
    EmptyKeySet,
}

/// What is fixed for the whole of a run.
#[derive(Clone, Copy, Debug, PartialEq, Eq, Structural)]
pub struct RunConfig {
    pub mode: Mode,
    /// The number of objects of the data set.
    pub objects: usize,
    /// The size of an object in bytes.
    pub object_size: usize,
    /// The number of permits.
    pub concurrency: usize,
    pub duration_seconds: u64,
    /// Whether the data set is to be deleted at the end.
    pub cleanup: bool,
}

/// What a mode asks for around its timed runs.
#[derive(Clone, Copy, Debug, PartialEq, Eq, Structural)]
pub struct Plan {
    /// Whether the data set is written before the first run.
    pub populate: bool,
    /// The operation of the first run.
    pub first: Operation,
    /// The operation of the second run, for a mode of two runs.
    pub second: Option<Operation>,
    /// Whether the data set is deleted after the last run.
    pub cleanup: bool,
}

/// The name of a mode.
pub open spec fn mode_label(mode: Mode) -> Seq<char> {
    match mode {
        Mode::Stat => "stat"@,
        Mode::ReadSmall => "read_small"@,
        Mode::WriteSmall => "write_small"@,
        Mode::Delete => "delete"@,
        Mode::List => "list"@,
        Mode::ReadWrite => "read_write"@,
    }
}

/// The mode that a name stands for, if any.
pub open spec fn mode_named(name: Seq<char>) -> Option<Mode> {
    if name == "stat"@ {
        Some(Mode::Stat)
    } else if name == "read_small"@ {
        Some(Mode::ReadSmall)
    } else if name == "write_small"@ {
        Some(Mode::WriteSmall)
    } else if name == "delete"@ {
        Some(Mode::Delete)
    } else if name == "list"@ {
        Some(Mode::List)
    } else if name == "read_write"@ {
        Some(Mode::ReadWrite)
    } else {
        None
    }
}

/// The name under which the results of an operation are reported: that of the
/// mode which issues this operation alone.
pub open spec fn operation_label(operation: Operation) -> Seq<char> {
    match operation {
        Operation::Stat => "stat"@,
        Operation::Read => "read_small"@,
        Operation::Write => "write_small"@,
        Operation::Delete => "delete"@,
        Operation::List => "list"@,
    }
}

/// Whether an operation is aimed at a key of the prepared data set.
pub open spec fn takes_prepared_key(operation: Operation) -> bool {
    operation == Operation::Stat || operation == Operation::Read || operation == Operation::Delete
}

/// Whether a mode works on a prepared data set.
pub open spec fn wants_dataset(mode: Mode) -> bool {
    mode != Mode::WriteSmall
}

/// The operation of a mode's first run.
pub open spec fn first_operation(mode: Mode) -> Operation {
    match mode {
        Mode::Stat => Operation::Stat,
        Mode::ReadSmall => Operation::Read,
        Mode::WriteSmall => Operation::Write,
        Mode::Delete => Operation::Delete,
        Mode::List => Operation::List,
        Mode::ReadWrite => Operation::Read,
    }
}

/// The operation of a mode's second run, if it has one.
pub open spec fn second_operation(mode: Mode) -> Option<Operation> {
    if mode == Mode::ReadWrite {
        Some(Operation::Write)
    } else {
        None
    }
}

/// The plan of a mode.
pub open spec fn plan_of(mode: Mode, cleanup_requested: bool) -> Plan {
    Plan {
        populate: wants_dataset(mode),
        first: first_operation(mode),
        second: second_operation(mode),
        cleanup: cleanup_requested && wants_dataset(mode),
    }
}

/// The message that rejects an unknown mode name.
pub open spec fn unknown_mode_text(name: Seq<char>) -> Seq<char> {
    "Unknown mode: "@ + name
        + ". Supported modes: stat, read_small, write_small, delete, list, read_write"@
}

/// Whether two texts are equal.
fn same_text(a: &str, b: &str) -> (same: bool)
    ensures
        same <==> a@ == b@,
{
    let a = a.to_owned();
    let b = b.to_owned();
    a == b
}

/// Reads a mode name. An unknown name gives `None`.
pub fn parse_mode(name: &str) -> (mode: Option<Mode>)
    ensures
        mode == mode_named(name@),
{
    if same_text(name, "stat") {
        Some(Mode::Stat)
    } else if same_text(name, "read_small") {
        Some(Mode::ReadSmall)
    } else if same_text(name, "write_small") {
        Some(Mode::WriteSmall)
    } else if same_text(name, "delete") {
        Some(Mode::Delete)
    } else if same_text(name, "list") {
        Some(Mode::List)
    } else if same_text(name, "read_write") {
        Some(Mode::ReadWrite)
    } else {
        None
    }
}

/// Checks what a run is to be set up with, before anything is done. Fails
/// with `UnknownMode` where the name stands for no mode, and else with
/// `ZeroConcurrency` where no permit is given.
pub fn configure(
    mode_name: &str,
    objects: usize,
    object_size: usize,
    concurrency: usize,
    duration_seconds: u64,
    cleanup: bool,
) -> (r: Result<RunConfig, ConfigError>)
    ensures
        match r {
            Ok(config) => mode_named(mode_name@) == Some(config.mode) && concurrency > 0 && config
                == (RunConfig {
                mode: config.mode,
                objects,
                object_size,
                concurrency,
                duration_seconds,
                cleanup,
            }),
            Err(ConfigError::UnknownMode) => mode_named(mode_name@) is None,
            Err(ConfigError::ZeroConcurrency) => mode_named(mode_name@) is Some && concurrency == 0,
            Err(ConfigError::EmptyKeySet) => false,
        },
{
    let mode = match parse_mode(mode_name) {
        Some(mode) => mode,
        None => {
            return Err(ConfigError::UnknownMode);
        },
    };
    if concurrency == 0 {
        return Err(ConfigError::ZeroConcurrency);
    }
    Ok(RunConfig { mode, objects, object_size, concurrency, duration_seconds, cleanup })
}

/// The name of a mode.
pub fn mode_name(mode: Mode) -> (name: &'static str)
    ensures
        name@ == mode_label(mode),
{
    match mode {
        Mode::Stat => "stat",
        Mode::ReadSmall => "read_small",
        Mode::WriteSmall => "write_small",
        Mode::Delete => "delete",
        Mode::List => "list",
        Mode::ReadWrite => "read_write",
    }
}

/// The name under which the results of an operation are reported.
pub fn operation_name(operation: Operation) -> (name: &'static str)
    ensures
        name@ == operation_label(operation),
{
    match operation {
        Operation::Stat => "stat",
        Operation::Read => "read_small",
        Operation::Write => "write_small",
        Operation::Delete => "delete",
        Operation::List => "list",
    }
}

/// Whether an operation is aimed at a key of the prepared data set.
pub fn needs_prepared_key(operation: Operation) -> (needs: bool)
    ensures
        needs == takes_prepared_key(operation),
{
    match operation {
        Operation::Stat => true,
        Operation::Read => true,
        Operation::Delete => true,
        Operation::Write => false,
        Operation::List => false,
    }
}

/// The plan of a mode: whether the data set is written first, which
/// operations the runs issue, and whether the data set is deleted afterwards.
pub fn plan(mode: Mode, cleanup_requested: bool) -> (p: Plan)
    ensures
        p == plan_of(mode, cleanup_requested),
{
    let populate = match mode {
        Mode::WriteSmall => false,
        _ => true,
    };
    let first = match mode {
        Mode::Stat => Operation::Stat,
        Mode::ReadSmall => Operation::Read,
        Mode::WriteSmall => Operation::Write,
        Mode::Delete => Operation::Delete,
        Mode::List => Operation::List,
        Mode::ReadWrite => Operation::Read,
    };
    let second = match mode {
        Mode::ReadWrite => Some(Operation::Write),
        _ => None,
    };
    Plan { populate, first, second, cleanup: cleanup_requested && populate }
}

/// The message that rejects an unknown mode name.
pub fn unknown_mode_message(name: &str) -> (message: String)
    ensures
        message@ == unknown_mode_text(name@),
{
    let mut message = "Unknown mode: ".to_owned();
    message.append(name);
    message.append(". Supported modes: stat, read_small, write_small, delete, list, read_write");
    message
}

/// Law: every mode is read back from its own name.
pub proof fn lemma_mode_name_round_trip(mode: Mode)
    ensures
        mode_named(mode_label(mode)) == Some(mode),
{
    reveal_strlit("stat");
    reveal_strlit("read_small");
    reveal_strlit("write_small");
    reveal_strlit("delete");
    reveal_strlit("list");
    reveal_strlit("read_write");
    assert("stat"@.len() == 4 && "list"@.len() == 4 && "delete"@.len() == 6);
    assert("read_small"@.len() == 10 && "read_write"@.len() == 10 && "write_small"@.len() == 11);
    assert("stat"@[0] == 's' && "list"@[0] == 'l');
    assert("read_small"@[5] == 's' && "read_write"@[5] == 'w');
}

/// Law: a mode of one run is reported under its own name, and the two runs of
/// the combined mode under the names of the read and the write mode.
pub proof fn lemma_operation_labels(mode: Mode)
    ensures
        mode != Mode::ReadWrite ==> operation_label(first_operation(mode)) == mode_label(mode),
        mode == Mode::ReadWrite ==> operation_label(first_operation(mode)) == mode_label(
            Mode::ReadSmall,
        ) && second_operation(mode) == Some(Operation::Write) && operation_label(Operation::Write)
            == mode_label(Mode::WriteSmall),
{
}

} // verus!
