//! The size of the volumes, the running containers and the text for elapsed
//! time.

use crate::backup_result::{BackupError, BackupErrorView, ErrorKind};
use crate::destination::{
    error_view, number_result_view, push_arg, push_args, unit_result_view, CommandLine,
    CommandView,
};
use crate::text::{contains_text, joined, texts, two_digit_string, two_digits};
use vstd::prelude::*;
use vstd::string::*;

verus! {

/// `seconds` as hours, minutes and seconds, each with two digits at least.
pub open spec fn clock(seconds: nat) -> Seq<char> {
    two_digits(seconds / 3600) + ":"@ + two_digits(seconds % 3600 / 60) + ":"@ + two_digits(
        seconds % 60,
    )
}

/// The text that says how long `description` has taken.
pub open spec fn elapsed_text(description: Seq<char>, seconds: nat) -> Seq<char> {
    description + ": "@ + clock(seconds)
}

/// `seconds` as hours, minutes and seconds.
pub fn clock_string(seconds: u64) -> (out: String)
    ensures
        out@ == clock(seconds as nat),
{
    let mut out = two_digit_string(seconds / 3600);
    out.append(":");
    out.append(two_digit_string(seconds % 3600 / 60).as_str());
    out.append(":");
    out.append(two_digit_string(seconds % 60).as_str());
    out
}

/// The text that says how long `description` has taken, given the seconds
/// since it began.
pub fn get_elapsed_time(elapsed_seconds: u64, description: &str) -> (out: String)
    ensures
        out@ == elapsed_text(description@, elapsed_seconds as nat),
{
    let mut out = joined(description, ": ");
    out.append(clock_string(elapsed_seconds).as_str());
    out
}

/// What is found at a path below the volume directory.
#[derive(Debug)]
pub enum FsNode {
    /// Anything but a directory, with its size in bytes.
    File { size: u64 },
    /// A directory with what it holds.
    Dir { entries: Vec<FsNode> },
    /// An entry that could not be read, with the reason.
    Unreadable { reason: String },
}

/// Why a size could not be computed.
pub enum SizeError {
    /// An entry could not be read.
    Unreadable { reason: Seq<char> },
    /// The sizes add up to more than a `u64` holds.
    TooLarge,
}

/// `sum` and `size` added up.
pub open spec fn add_size(sum: Result<u64, SizeError>, size: Result<u64, SizeError>) -> Result<
    u64,
    SizeError,
> {
    match sum {
        Err(err) => Err(err),
        Ok(a) => match size {
            Err(err) => Err(err),
            Ok(b) => if a + b <= u64::MAX {
                Ok((a + b) as u64)
            } else {
                Err(SizeError::TooLarge)
            },
        },
    }
}

/// The bytes below a path: the size of a file, the sizes of all files below
/// a directory.  The first entry that cannot be read, in the order in which
/// the directories list their entries, makes the size an error.
pub open spec fn dir_size(node: FsNode) -> Result<u64, SizeError>
    decreases node, 0nat,
{
    match node {
        FsNode::File { size } => Ok(size),
        FsNode::Unreadable { reason } => Err(SizeError::Unreadable { reason: reason@ }),
        FsNode::Dir { entries } => entries_size(entries, entries.len() as nat),
    }
}

/// The bytes below the first `count` of `entries`.
pub open spec fn entries_size(entries: Vec<FsNode>, count: nat) -> Result<u64, SizeError>
    decreases entries, count,
{
    if count == 0 || count > entries.len() {
        Ok(0)
    } else {
        add_size(entries_size(entries, (count - 1) as nat), dir_size(entries[count - 1]))
    }
}

/// The text of the error for a size that cannot be had.
pub open spec fn size_error_text(err: SizeError) -> Seq<char> {
    match err {
        SizeError::Unreadable { reason } => reason,
        SizeError::TooLarge => "Size exceeds the supported range"@,
    }
}

/// The content of a size or of the text of the error in its place.
pub open spec fn size_result_view(r: Result<u64, String>) -> Result<u64, Seq<char>> {
    match r {
        Ok(n) => Ok(n),
        Err(text) => Err(text@),
    }
}

/// `dir_size` with the error as text.
pub open spec fn dir_size_text(node: FsNode) -> Result<u64, Seq<char>> {
    match dir_size(node) {
        Ok(n) => Ok(n),
        Err(err) => Err(size_error_text(err)),
    }
}

/// The bytes below a path.
pub fn get_dir_size(node: &FsNode) -> (size: Result<u64, String>)
    ensures
        size_result_view(size) == dir_size_text(*node),
    decreases node,
{
    match node {
        FsNode::File { size } => Ok(*size),
        FsNode::Unreadable { reason } => Err(reason.clone()),
        FsNode::Dir { entries } => {
            let mut total: u64 = 0;
            let mut i: usize = 0;
            while i < entries.len()
                invariant
                    i <= entries.len(),
                    *node == (FsNode::Dir { entries: *entries }),
                    entries_size(*entries, i as nat) == Ok::<u64, SizeError>(total),
                decreases entries.len() - i,
            {
                match get_dir_size(&entries[i]) {
                    Err(text) => {
                        proof {
                            lemma_entries_size_error(
                                *entries,
                                (i + 1) as nat,
                                entries.len() as nat,
                            );
                        }
                        return Err(text);
                    },
                    Ok(size) => {
                        if size > u64::MAX - total {
                            proof {
                                lemma_entries_size_error(
                                    *entries,
                                    (i + 1) as nat,
                                    entries.len() as nat,
                                );
                            }
                            return Err(String::from_str("Size exceeds the supported range"));
                        }
                        total = total + size;
                    },
                }
                i += 1;
            }
            Ok(total)
        },
    }
}

/// An error among the first entries is the error of all entries.
proof fn lemma_entries_size_error(entries: Vec<FsNode>, count: nat, all: nat)
    requires
        count <= all <= entries.len(),
        entries_size(entries, count) is Err,
    ensures
        entries_size(entries, all) == entries_size(entries, count),
    decreases all - count,
{
    if count < all {
        lemma_entries_size_error(entries, count, (all - 1) as nat);
    }
}

/// The bytes of all files below a path, leaving out what cannot be read.
pub open spec fn bytes_below(node: FsNode) -> nat
    decreases node, 0nat,
{
    match node {
        FsNode::File { size } => size as nat,
        FsNode::Unreadable { reason } => 0,
        FsNode::Dir { entries } => entries_bytes(entries, entries.len() as nat),
    }
}

/// The bytes of all files below the first `count` of `entries`.
pub open spec fn entries_bytes(entries: Vec<FsNode>, count: nat) -> nat
    decreases entries, count,
{
    if count == 0 || count > entries.len() {
        0
    } else {
        entries_bytes(entries, (count - 1) as nat) + bytes_below(entries[count - 1])
    }
}

/// Whether everything below a path can be read.
pub open spec fn readable(node: FsNode) -> bool
    decreases node, 0nat,
{
    match node {
        FsNode::File { size } => true,
        FsNode::Unreadable { reason } => false,
        FsNode::Dir { entries } => entries_readable(entries, entries.len() as nat),
    }
}

/// Whether everything below the first `count` of `entries` can be read.
pub open spec fn entries_readable(entries: Vec<FsNode>, count: nat) -> bool
    decreases entries, count,
{
    if count == 0 || count > entries.len() {
        true
    } else {
        entries_readable(entries, (count - 1) as nat) && readable(entries[count - 1])
    }
}

/// The size of a path is the sum of the sizes of the files below it: it is
/// had exactly when everything below the path can be read and the sum fits,
/// and then it is that sum.
pub proof fn lemma_dir_size_is_sum(node: FsNode)
    ensures
        dir_size(node) is Ok <==> readable(node) && bytes_below(node) <= u64::MAX,
        dir_size(node) matches Ok(size) ==> size == bytes_below(node),
    decreases node, 0nat,
{
    match node {
        FsNode::Dir { entries } => {
            lemma_entries_size_is_sum(entries, entries.len() as nat);
        },
        _ => {},
    }
}

/// The size of the first entries of a directory is the sum of the sizes of
/// the files below them.
pub proof fn lemma_entries_size_is_sum(entries: Vec<FsNode>, count: nat)
    requires
        count <= entries.len(),
    ensures
        entries_size(entries, count) is Ok <==> entries_readable(entries, count) && entries_bytes(
            entries,
            count,
        ) <= u64::MAX,
        entries_size(entries, count) matches Ok(size) ==> size == entries_bytes(entries, count),
    decreases entries, count,
{
    if count > 0 {
        lemma_entries_size_is_sum(entries, (count - 1) as nat);
        lemma_dir_size_is_sum(entries[count - 1]);
    }
}

/// One entry of the volume directory.
#[derive(Debug)]
pub struct VolumeEntry {
    pub name: String,
    pub tree: FsNode,
}

/// The text of the error for a volume called `name` whose size cannot be had.
pub open spec fn size_failed_text(name: Seq<char>, reason: Seq<char>) -> Seq<char> {
    "Failed to calculate size for "@ + name + ": "@ + reason
}

/// `sum` with the size of one more entry of the volume directory: an entry
/// that could not be listed fails the sum, an excluded volume adds nothing,
/// any other adds the bytes below it.
pub open spec fn add_volume(
    sum: Result<u64, BackupErrorView>,
    entry: Result<VolumeEntry, String>,
    excluded: Seq<Seq<char>>,
) -> Result<u64, BackupErrorView> {
    match sum {
        Err(err) => Err(err),
        Ok(total) => match entry {
            Err(reason) => Err(error_view(ErrorKind::Io, "Failed to read entry: "@ + reason@)),
            Ok(volume) => if excluded.contains(volume.name@) {
                Ok(total)
            } else {
                match dir_size_text(volume.tree) {
                    Err(reason) => Err(
                        error_view(ErrorKind::Io, size_failed_text(volume.name@, reason)),
                    ),
                    Ok(size) => if total + size <= u64::MAX {
                        Ok((total + size) as u64)
                    } else {
                        Err(
                            error_view(
                                ErrorKind::Io,
                                size_failed_text(
                                    volume.name@,
                                    size_error_text(SizeError::TooLarge),
                                ),
                            ),
                        )
                    },
                }
            },
        },
    }
}

/// The bytes to transfer for the first `count` entries of the volume
/// directory.
pub open spec fn volumes_size(
    listing: Seq<Result<VolumeEntry, String>>,
    excluded: Seq<Seq<char>>,
    count: nat,
) -> Result<u64, BackupErrorView>
    decreases count,
{
    if count == 0 || count > listing.len() {
        Ok(0)
    } else {
        add_volume(
            volumes_size(listing, excluded, (count - 1) as nat),
            listing[count - 1],
            excluded,
        )
    }
}

proof fn lemma_volumes_size_error(
    listing: Seq<Result<VolumeEntry, String>>,
    excluded: Seq<Seq<char>>,
    count: nat,
    all: nat,
)
    requires
        count <= all <= listing.len(),
        volumes_size(listing, excluded, count) is Err,
    ensures
        volumes_size(listing, excluded, all) == volumes_size(listing, excluded, count),
    decreases all - count,
{
    if count < all {
        lemma_volumes_size_error(listing, excluded, count, (all - 1) as nat);
    }
}

/// The bytes to transfer: what lies below the entries of the volume
/// directory, but for the excluded volumes.  `listing` holds the entries in
/// the order in which the directory lists them, each with what lies below
/// it, or the reason why the entry could not be listed.
pub fn get_volumes_size(
    listing: &Vec<Result<VolumeEntry, String>>,
    excluded_volumes: &Vec<String>,
) -> (size: Result<u64, BackupError>)
    ensures
        number_result_view(size) == volumes_size(
            listing@,
            texts(excluded_volumes@),
            listing@.len(),
        ),
{
    let ghost excluded = texts(excluded_volumes@);
    let mut total: u64 = 0;
    let mut i: usize = 0;
    while i < listing.len()
        invariant
            i <= listing.len(),
            excluded == texts(excluded_volumes@),
            volumes_size(listing@, excluded, i as nat) == Ok::<u64, BackupErrorView>(total),
        decreases listing.len() - i,
    {
        match &listing[i] {
            Err(reason) => {
                proof {
                    lemma_volumes_size_error(listing@, excluded, (i + 1) as nat, listing@.len());
                }
                return Err(
                    BackupError::with_kind(
                        ErrorKind::Io,
                        joined("Failed to read entry: ", reason.as_str()).as_str(),
                    ),
                );
            },
            Ok(volume) => {
                if !contains_text(excluded_volumes, volume.name.as_str()) {
                    let measured = match get_dir_size(&volume.tree) {
                        Err(reason) => Err(reason),
                        Ok(size) => if size > u64::MAX - total {
                            Err(String::from_str("Size exceeds the supported range"))
                        } else {
                            Ok(size)
                        },
                    };
                    match measured {
                        Err(reason) => {
                            let mut text = joined(
                                "Failed to calculate size for ",
                                volume.name.as_str(),
                            );
                            text.append(": ");
                            text.append(reason.as_str());
                            proof {
                                lemma_volumes_size_error(
                                    listing@,
                                    excluded,
                                    (i + 1) as nat,
                                    listing@.len(),
                                );
                            }
                            return Err(BackupError::with_kind(ErrorKind::Io, text.as_str()));
                        },
                        Ok(size) => {
                            total = total + size;
                        },
                    }
                }
            },
        }
        i += 1;
    }
    Ok(total)
}

/// What a command came to that either succeeds or does not: nothing if it
/// reported success, an error with `failure` as its text if it reported
/// failure, an error with the reason if it could not be run.
pub open spec fn command_result(ran: Result<bool, Seq<char>>, failure: Seq<char>) -> Result<
    (),
    BackupErrorView,
> {
    match ran {
        Ok(success) => if success {
            Ok(())
        } else {
            Err(error_view(ErrorKind::Runtime, failure))
        },
        Err(reason) => Err(error_view(ErrorKind::Io, reason)),
    }
}

/// The content of what running a command gave: whether it reported success,
/// or the reason why it could not be run.
pub open spec fn status_view(ran: Result<bool, String>) -> Result<bool, Seq<char>> {
    match ran {
        Ok(success) => Ok(success),
        Err(reason) => Err(reason@),
    }
}

fn check_command(ran: Result<bool, String>, failure: &str) -> (checked: Result<(), BackupError>)
    ensures
        unit_result_view(checked) == command_result(status_view(ran), failure@),
{
    match ran {
        Ok(success) => {
            if success {
                Ok(())
            } else {
                Err(BackupError::new(failure))
            }
        },
        Err(reason) => Err(BackupError::with_kind(ErrorKind::Io, reason.as_str())),
    }
}

/// The command that shows whether Docker is installed.
pub fn docker_version_command() -> (command: CommandLine)
    ensures
        command@ == (CommandView { program: "docker"@, args: seq!["--version"@] }),
{
    let mut args: Vec<String> = Vec::new();
    push_arg(&mut args, "--version");
    let command = CommandLine { program: String::from_str("docker"), args };
    assert(command@.args =~= seq!["--version"@]);
    command
}

/// Whether Docker is installed, given what `docker_version_command` came to.
pub fn check_docker(ran: Result<bool, String>) -> (checked: Result<(), BackupError>)
    ensures
        unit_result_view(checked) == command_result(
            status_view(ran),
            "Can't continue without Docker installed"@,
        ),
{
    check_command(ran, "Can't continue without Docker installed")
}

/// The command that lists the names of the running containers, one to a
/// line.
pub fn list_containers_command() -> (command: CommandLine)
    ensures
        command@ == (CommandView {
            program: "docker"@,
            args: seq!["ps"@, "--format"@, "{{.Names}}"@],
        }),
{
    let mut args: Vec<String> = Vec::new();
    push_arg(&mut args, "ps");
    push_arg(&mut args, "--format");
    push_arg(&mut args, "{{.Names}}");
    let command = CommandLine { program: String::from_str("docker"), args };
    assert(command@.args =~= seq!["ps"@, "--format"@, "{{.Names}}"@]);
    command
}

/// The listing of the running containers, given what
/// `list_containers_command` printed, or the reason why it could not be run
/// or read.
pub fn check_running_containers(ran: Result<String, String>) -> (listing: Result<
    String,
    BackupError,
>)
    ensures
        match ran {
            Ok(text) => listing matches Ok(same) && same@ == text@,
            Err(reason) => listing matches Err(err) && err@ == error_view(ErrorKind::Io, reason@),
        },
{
    match ran {
        Ok(text) => Ok(text),
        Err(reason) => Err(BackupError::with_kind(ErrorKind::Io, reason.as_str())),
    }
}

/// The command that does `command` (`stop` or `start`) to the containers.
pub fn handle_containers(containers: &Vec<String>, command: &str) -> (line: CommandLine)
    ensures
        line@ == (CommandView { program: "docker"@, args: seq![command@] + texts(containers@) }),
{
    let mut args: Vec<String> = Vec::new();
    push_arg(&mut args, command);
    push_args(&mut args, containers);
    let line = CommandLine { program: String::from_str("docker"), args };
    assert(line@.args =~= seq![command@] + texts(containers@));
    line
}

/// Whether the containers were stopped or started, given what the command
/// of `handle_containers` came to.
pub fn containers_handled(ran: Result<bool, String>) -> (checked: Result<(), BackupError>)
    ensures
        unit_result_view(checked) == command_result(
            status_view(ran),
            "Error handling containers"@,
        ),
{
    check_command(ran, "Error handling containers")
}

} // verus!
