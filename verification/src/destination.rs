//! Backup destinations: where a run copies the volumes to, how the free space
//! there is probed and how the transfer to it is started.
//!
//! Nothing here runs a command.  A destination plans the command lines and
//! reads what they printed; running them is the caller's part.

use crate::backup_result::{BackupError, BackupErrorView, ErrorKind};
use crate::text::{
    joined, decimal, decimal_string, ends_with, eq_ignoring_case, find_from, has_char, is_suffix,
    index_of, lemma_index_of, matches_ignoring_case, nth_word, parse_u64, parsed_u64, slice,
    split, split_on, texts, trim, trimmed, word,
};
use vstd::prelude::*;
use vstd::string::*;

verus! {

/// The operating system of a remote host.
#[derive(Clone, Copy, Debug, PartialEq, Eq, Structural)]
pub enum TargetOs {
    Unix,
    Windows,
}

/// The content of an error of kind `kind` with the text `message`.
pub open spec fn error_view(kind: ErrorKind, message: Seq<char>) -> BackupErrorView {
    BackupErrorView { kind, message }
}

impl TargetOs {
    /// The system that `os` names: `windows` or `unix`, in any case of the
    /// letters.
    pub open spec fn parse(os: Seq<char>) -> Option<TargetOs> {
        if matches_ignoring_case(os, "windows"@) {
            Some(TargetOs::Windows)
        } else if matches_ignoring_case(os, "unix"@) {
            Some(TargetOs::Unix)
        } else {
            None
        }
    }

    /// Reads the name of an operating system.
    pub fn from_str(os: &str) -> (parsed: Result<TargetOs, BackupError>)
        ensures
            match TargetOs::parse(os@) {
                Some(target) => parsed == Ok::<TargetOs, BackupError>(target),
                None => parsed matches Err(err) && err@ == error_view(
                    ErrorKind::Config,
                    "Unsupported os"@,
                ),
            },
    {
        if eq_ignoring_case(os, "windows") {
            Ok(TargetOs::Windows)
        } else if eq_ignoring_case(os, "unix") {
            Ok(TargetOs::Unix)
        } else {
            Err(BackupError::with_kind(ErrorKind::Config, "Unsupported os"))
        }
    }
}

/// A directory on this machine.
#[derive(Debug)]
pub struct LocalDestination {
    pub path: String,
}

/// A directory on a host that is reached over a secure shell.
#[derive(Debug)]
pub struct SshDestination {
    pub host: String,
    pub path: String,
    pub target_os: TargetOs,
}

/// One configured backup target.
#[derive(Debug)]
pub enum Destination {
    Local(LocalDestination),
    Ssh(SshDestination),
}

/// Mathematical content of a [`Destination`].
pub enum DestinationView {
    Local { path: Seq<char> },
    Remote { host: Seq<char>, path: Seq<char>, target_os: TargetOs },
}

impl View for LocalDestination {
    type V = DestinationView;

    open spec fn view(&self) -> DestinationView {
        DestinationView::Local { path: self.path@ }
    }
}

impl View for SshDestination {
    type V = DestinationView;

    open spec fn view(&self) -> DestinationView {
        DestinationView::Remote { host: self.host@, path: self.path@, target_os: self.target_os }
    }
}

impl View for Destination {
    type V = DestinationView;

    open spec fn view(&self) -> DestinationView {
        match self {
            Destination::Local(local) => local@,
            Destination::Ssh(remote) => remote@,
        }
    }
}

impl Clone for LocalDestination {
    fn clone(&self) -> (copy: LocalDestination)
        ensures
            copy@ == self@,
    {
        LocalDestination { path: self.path.clone() }
    }
}

impl Clone for SshDestination {
    fn clone(&self) -> (copy: SshDestination)
        ensures
            copy@ == self@,
    {
        SshDestination {
            host: self.host.clone(),
            path: self.path.clone(),
            target_os: self.target_os,
        }
    }
}

impl Clone for Destination {
    fn clone(&self) -> (copy: Destination)
        ensures
            copy@ == self@,
    {
        match self {
            Destination::Local(local) => Destination::Local(local.clone()),
            Destination::Ssh(remote) => Destination::Ssh(remote.clone()),
        }
    }
}

/// A program and the arguments it is started with.
#[derive(Debug)]
pub struct CommandLine {
    pub program: String,
    pub args: Vec<String>,
}

/// Mathematical content of a [`CommandLine`].
pub struct CommandView {
    pub program: Seq<char>,
    pub args: Seq<Seq<char>>,
}

impl View for CommandLine {
    type V = CommandView;

    open spec fn view(&self) -> CommandView {
        CommandView { program: self.program@, args: texts(self.args@) }
    }
}

/// How the volumes get to a destination.
#[derive(Debug)]
pub enum TransferPlan {
    /// One process copies them.  Its standard error is the diagnostic
    /// channel.
    Copy { command: CommandLine },
    /// One process archives them to its standard output, which is the
    /// standard input of a second process that unpacks the archive at the
    /// remote host.  The second process is the one to watch; its standard
    /// error is the diagnostic channel.
    Pipe { archive: CommandLine, unpack: CommandLine },
}

/// Mathematical content of a [`TransferPlan`].
pub enum TransferPlanView {
    Copy { command: CommandView },
    Pipe { archive: CommandView, unpack: CommandView },
}

impl View for TransferPlan {
    type V = TransferPlanView;

    open spec fn view(&self) -> TransferPlanView {
        match self {
            TransferPlan::Copy { command } => TransferPlanView::Copy { command: command@ },
            TransferPlan::Pipe { archive, unpack } => TransferPlanView::Pipe {
                archive: archive@,
                unpack: unpack@,
            },
        }
    }
}

pub(crate) fn push_arg(args: &mut Vec<String>, arg: &str)
    ensures
        texts(final(args)@) == texts(old(args)@).push(arg@),
{
    args.push(String::from_str(arg));
    assert(texts(args@) =~= texts(old(args)@).push(arg@));
}

pub(crate) fn push_args(args: &mut Vec<String>, more: &Vec<String>)
    ensures
        texts(final(args)@) == texts(old(args)@) + texts(more@),
{
    let mut i: usize = 0;
    assert(texts(args@) =~= texts(old(args)@) + texts(more@).take(0));
    while i < more.len()
        invariant
            i <= more.len(),
            texts(args@) == texts(old(args)@) + texts(more@).take(i as int),
        decreases more.len() - i,
    {
        let ghost before = texts(args@);
        push_arg(args, more[i].as_str());
        assert(texts(args@) =~= texts(old(args)@) + texts(more@).take(i + 1));
        i += 1;
    }
    assert(texts(more@).take(more.len() as int) =~= texts(more@));
}

/// The name that a destination is shown under.
pub open spec fn display_name(destination: DestinationView) -> Seq<char> {
    match destination {
        DestinationView::Local { path } => path,
        DestinationView::Remote { host, path, target_os } => host + ":"@ + path,
    }
}

/// `path` with `new_dir` below it, as the remote system writes paths: with
/// a backslash on Windows, with a slash elsewhere.
pub open spec fn appended_path(path: Seq<char>, new_dir: Seq<char>, target_os: TargetOs) -> Seq<
    char,
> {
    if target_os == TargetOs::Windows {
        path + "\\"@ + new_dir
    } else {
        path + "/"@ + new_dir
    }
}

/// `path` with `new_dir` below it, as the remote system writes paths.
pub fn append_to_path(path: &str, new_dir: &str, target_os: &TargetOs) -> (joined: String)
    ensures
        joined@ == appended_path(path@, new_dir@, *target_os),
{
    let mut joined = String::from_str(path);
    match target_os {
        TargetOs::Windows => {
            joined.append("\\");
        },
        TargetOs::Unix => {
            joined.append("/");
        },
    }
    joined.append(new_dir);
    joined
}

/// `child` below `base` on this machine: `child` itself if it starts at the
/// root; else `base`, a slash unless `base` is empty or ends with one, and
/// `child`.
pub open spec fn joined_path(base: Seq<char>, child: Seq<char>) -> Seq<char> {
    if child.len() > 0 && child[0] == '/' {
        child
    } else if base.len() == 0 || base.last() == '/' {
        base + child
    } else {
        base + "/"@ + child
    }
}

/// `child` below `base` on this machine.
pub fn join_path(base: &str, child: &str) -> (joined: String)
    ensures
        joined@ == joined_path(base@, child@),
{
    let base_len = base.unicode_len();
    if child.unicode_len() > 0 && child.get_char(0) == '/' {
        String::from_str(child)
    } else if base_len == 0 || base.get_char(base_len - 1) == '/' {
        joined(base, child)
    } else {
        let mut joined = joined(base, "/");
        joined.append(child);
        joined
    }
}

/// What the text that names a destination means.  One with an `@` names a
/// remote directory as `user@host:path,os`; any other names a local
/// directory, which has to exist.
pub open spec fn parsed_destination(path: Seq<char>, exists: bool) -> Result<
    DestinationView,
    BackupErrorView,
> {
    if path.contains('@') {
        let comma = index_of(path, ',');
        if comma >= path.len() {
            Err(
                error_view(ErrorKind::Config, "Destination path and target os must be provided"@),
            )
        } else {
            let target = path.take(comma);
            let os = path.skip(comma + 1);
            let colon = index_of(target, ':');
            if colon < target.len() && target.take(colon).contains('@') {
                match TargetOs::parse(os) {
                    Some(target_os) => Ok(
                        DestinationView::Remote {
                            host: target.take(colon),
                            path: target.skip(colon + 1),
                            target_os,
                        },
                    ),
                    None => Err(error_view(ErrorKind::Config, "Unsupported os"@)),
                }
            } else {
                Err(error_view(ErrorKind::Config, "SSH path must be in the format user@host:path"@))
            }
        }
    } else if exists {
        Ok(DestinationView::Local { path })
    } else {
        Err(error_view(ErrorKind::Config, "Local path does not exist"@))
    }
}

/// The content of a parsed destination or of the error in its place.
pub open spec fn destination_result_view(r: Result<Destination, BackupError>) -> Result<
    DestinationView,
    BackupErrorView,
> {
    match r {
        Ok(destination) => Ok(destination@),
        Err(err) => Err(err@),
    }
}

/// Reads the text that names a destination.  `exists` says whether `path`,
/// taken as a path on this machine, is there.
pub fn parse_destination_path(path: &str, exists: bool) -> (parsed: Result<
    Destination,
    BackupError,
>)
    ensures
        destination_result_view(parsed) == parsed_destination(path@, exists),
{
    if has_char(path, '@') {
        let len = path.unicode_len();
        let comma = find_from(path, ',', 0);
        proof {
            assert(path@.skip(0) =~= path@);
            lemma_index_of(path@, ',');
        }
        if comma == len {
            return Err(
                BackupError::with_kind(
                    ErrorKind::Config,
                    "Destination path and target os must be provided",
                ),
            );
        }
        let target = slice(path, 0, comma);
        let os = slice(path, comma + 1, len);
        let colon = find_from(target.as_str(), ':', 0);
        proof {
            assert(target@ =~= path@.take(comma as int));
            assert(os@ =~= path@.skip(comma + 1));
            assert(target@.skip(0) =~= target@);
            lemma_index_of(target@, ':');
        }
        if colon < comma {
            let host = slice(target.as_str(), 0, colon);
            assert(host@ =~= target@.take(colon as int));
            if has_char(host.as_str(), '@') {
                let remote_path = slice(target.as_str(), colon + 1, comma);
                assert(remote_path@ =~= target@.skip(colon + 1));
                return match TargetOs::from_str(os.as_str()) {
                    Ok(target_os) => Ok(
                        Destination::Ssh(SshDestination { host, path: remote_path, target_os }),
                    ),
                    Err(err) => Err(err),
                };
            }
        }
        Err(
            BackupError::with_kind(
                ErrorKind::Config,
                "SSH path must be in the format user@host:path",
            ),
        )
    } else if exists {
        Ok(Destination::Local(LocalDestination { path: String::from_str(path) }))
    } else {
        Err(BackupError::with_kind(ErrorKind::Config, "Local path does not exist"))
    }
}

/// Text of the error for a destination called `name` that offers `available`
/// bytes where `required` are needed.
pub open spec fn insufficient_space_text(name: Seq<char>, required: u64, available: u64) -> Seq<
    char,
> {
    "Not enough space on destination "@ + name + ". Required: "@ + decimal(required as nat)
        + " bytes, Available: "@ + decimal(available as nat) + " bytes"@
}

/// What the space check of a destination called `name` gives when it offers
/// `available` bytes and `required` are needed.
pub open spec fn space_check(name: Seq<char>, required: u64, available: u64) -> Result<
    (),
    BackupErrorView,
> {
    if available < required {
        Err(
            BackupErrorView {
                kind: ErrorKind::InsufficientSpace { required, available },
                message: insufficient_space_text(name, required, available),
            },
        )
    } else {
        Ok(())
    }
}

/// The content of a result that carries nothing or an error.
pub open spec fn unit_result_view(r: Result<(), BackupError>) -> Result<(), BackupErrorView> {
    match r {
        Ok(_) => Ok(()),
        Err(err) => Err(err@),
    }
}

/// Compares the free space of a destination with what the volumes need.
pub fn check_space(name: &str, required: u64, available: u64) -> (checked: Result<(), BackupError>)
    ensures
        checked is Ok <==> available >= required,
        unit_result_view(checked) == space_check(name@, required, available),
{
    if available < required {
        let mut text = joined("Not enough space on destination ", name);
        text.append(". Required: ");
        text.append(decimal_string(required).as_str());
        text.append(" bytes, Available: ");
        text.append(decimal_string(available).as_str());
        text.append(" bytes");
        Err(
            BackupError::with_kind(
                ErrorKind::InsufficientSpace { required, available },
                text.as_str(),
            ),
        )
    } else {
        Ok(())
    }
}

/// Whether some volume is called `name` or has a name that ends with it.
pub open spec fn is_known_volume(volumes: Seq<Seq<char>>, name: Seq<char>) -> bool {
    exists|k: int| 0 <= k < volumes.len() && is_suffix(name, #[trigger] volumes[k])
}

/// The argument that keeps the volume `name` out of a transfer.
pub open spec fn exclude_arg(name: Seq<char>) -> Seq<char> {
    "--exclude="@ + name
}

/// The arguments that keep the volumes `excluded` out of a transfer.
pub open spec fn exclude_args(excluded: Seq<Seq<char>>) -> Seq<Seq<char>> {
    excluded.map_values(|name: Seq<char>| exclude_arg(name))
}

/// The error for an excluded volume that does not exist.
pub open spec fn unknown_exclusion(name: Seq<char>) -> BackupErrorView {
    error_view(ErrorKind::UnknownExclusion, "Excluded volume '"@ + name + "' does not exist"@)
}

/// Whether `at` is the first excluded volume that names no volume.
pub open spec fn first_unknown(excluded: Seq<Seq<char>>, volumes: Seq<Seq<char>>, at: int) -> bool {
    &&& 0 <= at < excluded.len()
    &&& !is_known_volume(volumes, excluded[at])
    &&& forall|k: int| 0 <= k < at ==> is_known_volume(volumes, #[trigger] excluded[k])
}

/// Whether every excluded volume names a volume.
pub open spec fn all_known(excluded: Seq<Seq<char>>, volumes: Seq<Seq<char>>) -> bool {
    forall|k: int| 0 <= k < excluded.len() ==> is_known_volume(volumes, #[trigger] excluded[k])
}

fn known_volume(volumes: &Vec<String>, name: &str) -> (known: bool)
    ensures
        known == is_known_volume(texts(volumes@), name@),
{
    let mut i: usize = 0;
    while i < volumes.len()
        invariant
            i <= volumes.len(),
            forall|k: int| 0 <= k < i ==> !is_suffix(name@, #[trigger] texts(volumes@)[k]),
        decreases volumes.len() - i,
    {
        if ends_with(volumes[i].as_str(), name) {
            assert(is_suffix(name@, texts(volumes@)[i as int]));
            return true;
        }
        i += 1;
    }
    false
}

/// Checks the excluded volumes against the volumes that exist, given by the
/// names of the entries of the volume directory, and makes the arguments that
/// keep them out of a transfer.  The first excluded volume that names no
/// volume fails the call.
pub fn exclude_volumes(dirs_to_exclude: &Vec<String>, volumes: &Vec<String>) -> (checked: Result<
    Vec<String>,
    BackupError,
>)
    ensures
        checked is Ok <==> all_known(texts(dirs_to_exclude@), texts(volumes@)),
        checked matches Ok(args) ==> texts(args@) == exclude_args(texts(dirs_to_exclude@)),
        checked matches Err(err) ==> exists|at: int|
            #![trigger texts(dirs_to_exclude@)[at]]
            first_unknown(texts(dirs_to_exclude@), texts(volumes@), at) && err@
                == unknown_exclusion(texts(dirs_to_exclude@)[at]),
{
    let ghost excluded = texts(dirs_to_exclude@);
    let mut args: Vec<String> = Vec::new();
    let mut i: usize = 0;
    while i < dirs_to_exclude.len()
        invariant
            i <= dirs_to_exclude.len(),
            excluded == texts(dirs_to_exclude@),
            forall|k: int| 0 <= k < i ==> is_known_volume(texts(volumes@), #[trigger] excluded[k]),
            texts(args@) == exclude_args(excluded.take(i as int)),
        decreases dirs_to_exclude.len() - i,
    {
        let name = dirs_to_exclude[i].as_str();
        assert(name@ == excluded[i as int]);
        if !known_volume(volumes, name) {
            let mut text = joined("Excluded volume '", name);
            text.append("' does not exist");
            let err = BackupError::with_kind(ErrorKind::UnknownExclusion, text.as_str());
            assert(first_unknown(excluded, texts(volumes@), i as int));
            return Err(err);
        }
        let arg = joined("--exclude=", name);
        let ghost before = texts(args@);
        args.push(arg);
        proof {
            assert(texts(args@) =~= before.push(exclude_arg(name@)));
            assert(exclude_args(excluded.take(i + 1)) =~= exclude_args(
                excluded.take(i as int),
            ).push(exclude_arg(name@)));
        }
        i += 1;
    }
    assert(excluded.take(i as int) =~= excluded);
    Ok(args)
}

/// The error for a volume directory that cannot be listed.
pub fn volume_listing_failed(reason: &str) -> (err: BackupError)
    ensures
        err@ == error_view(ErrorKind::Io, "Failed to read volume directory: "@ + reason@),
{
    BackupError::with_kind(
        ErrorKind::Io,
        joined("Failed to read volume directory: ", reason).as_str(),
    )
}

/// The error for a transfer whose program `program` could not be started.
pub fn spawn_failed(program: &str, reason: &str) -> (err: BackupError)
    ensures
        err@ == error_view(
            ErrorKind::Spawn,
            "Failed to spawn "@ + program@ + ": "@ + reason@,
        ),
{
    let mut text = joined("Failed to spawn ", program);
    text.append(": ");
    text.append(reason);
    BackupError::with_kind(ErrorKind::Spawn, text.as_str())
}

/// How the volumes below `volume_path`, but for those `excluded`, get to the
/// directory `new_dir` of a destination.
///
/// To a local directory one recursive copy runs.  To a remote host an
/// archive of the volumes is piped into a shell on the host, which makes the
/// directory and unpacks the archive into it.
pub open spec fn transfer_plan(
    destination: DestinationView,
    volume_path: Seq<char>,
    excluded: Seq<Seq<char>>,
    new_dir: Seq<char>,
) -> TransferPlanView {
    match destination {
        DestinationView::Local { path } => TransferPlanView::Copy {
            command: CommandView {
                program: "rsync"@,
                args: exclude_args(excluded) + seq![
                    "-aW"@,
                    volume_path,
                    joined_path(path, new_dir),
                ],
            },
        },
        DestinationView::Remote { host, path, target_os } => {
            let target = appended_path(path, new_dir, target_os);
            TransferPlanView::Pipe {
                archive: CommandView {
                    program: "tar"@,
                    args: seq!["-cf-"@, "-C"@, volume_path] + exclude_args(excluded) + seq!["."@],
                },
                unpack: CommandView {
                    program: "ssh"@,
                    args: seq![host, "mkdir"@, target, "&&"@, "tar"@, "-C"@, target, "-xf-"@],
                },
            }
        },
    }
}

impl LocalDestination {
    pub fn get_display_name(&self) -> (name: String)
        ensures
            name@ == display_name(self@),
    {
        self.path.clone()
    }

    /// Plans the copy of the volumes into the directory `new_dir` below this
    /// destination.  `volumes` are the names of the entries of
    /// `volume_path`; an excluded volume that names none of them fails the
    /// call, and nothing is to be started.
    pub fn spawn_backup(
        &self,
        volume_path: &str,
        excluded_volumes: &Vec<String>,
        new_dir: &str,
        volumes: &Vec<String>,
    ) -> (planned: Result<TransferPlan, BackupError>)
        ensures
            planned is Ok <==> all_known(texts(excluded_volumes@), texts(volumes@)),
            planned matches Ok(plan) ==> plan@ == transfer_plan(
                self@,
                volume_path@,
                texts(excluded_volumes@),
                new_dir@,
            ),
            planned matches Err(err) ==> exists|at: int|
                #![trigger texts(excluded_volumes@)[at]]
                first_unknown(texts(excluded_volumes@), texts(volumes@), at) && err@
                    == unknown_exclusion(texts(excluded_volumes@)[at]),
    {
        match exclude_volumes(excluded_volumes, volumes) {
            Err(err) => Err(err),
            Ok(excludes) => {
                let mut args = excludes;
                push_arg(&mut args, "-aW");
                push_arg(&mut args, volume_path);
                push_arg(&mut args, join_path(self.path.as_str(), new_dir).as_str());
                let command = CommandLine { program: String::from_str("rsync"), args };
                assert(command@.args =~= exclude_args(texts(excluded_volumes@)) + seq![
                    "-aW"@,
                    volume_path@,
                    joined_path(self.path@, new_dir@),
                ]);
                Ok(TransferPlan::Copy { command })
            },
        }
    }
}

impl SshDestination {
    pub fn get_display_name(&self) -> (name: String)
        ensures
            name@ == display_name(self@),
    {
        let mut name = joined(self.host.as_str(), ":");
        name.append(self.path.as_str());
        name
    }

    /// Plans the transfer of the volumes into the directory `new_dir` below
    /// this destination.  `volumes` are the names of the entries of
    /// `volume_path`; an excluded volume that names none of them fails the
    /// call, and nothing is to be started.
    pub fn spawn_backup(
        &self,
        volume_path: &str,
        excluded_volumes: &Vec<String>,
        new_dir: &str,
        volumes: &Vec<String>,
    ) -> (planned: Result<TransferPlan, BackupError>)
        ensures
            planned is Ok <==> all_known(texts(excluded_volumes@), texts(volumes@)),
            planned matches Ok(plan) ==> plan@ == transfer_plan(
                self@,
                volume_path@,
                texts(excluded_volumes@),
                new_dir@,
            ),
            planned matches Err(err) ==> exists|at: int|
                #![trigger texts(excluded_volumes@)[at]]
                first_unknown(texts(excluded_volumes@), texts(volumes@), at) && err@
                    == unknown_exclusion(texts(excluded_volumes@)[at]),
    {
        match exclude_volumes(excluded_volumes, volumes) {
            Err(err) => Err(err),
            Ok(excludes) => {
                let mut pack: Vec<String> = Vec::new();
                push_arg(&mut pack, "-cf-");
                push_arg(&mut pack, "-C");
                push_arg(&mut pack, volume_path);
                push_args(&mut pack, &excludes);
                push_arg(&mut pack, ".");
                let target = append_to_path(self.path.as_str(), new_dir, &self.target_os);
                let mut unpack: Vec<String> = Vec::new();
                push_arg(&mut unpack, self.host.as_str());
                push_arg(&mut unpack, "mkdir");
                push_arg(&mut unpack, target.as_str());
                push_arg(&mut unpack, "&&");
                push_arg(&mut unpack, "tar");
                push_arg(&mut unpack, "-C");
                push_arg(&mut unpack, target.as_str());
                push_arg(&mut unpack, "-xf-");
                let archive = CommandLine { program: String::from_str("tar"), args: pack };
                let unpack = CommandLine { program: String::from_str("ssh"), args: unpack };
                proof {
                    assert(archive@.args =~= seq!["-cf-"@, "-C"@, volume_path@] + exclude_args(
                        texts(excluded_volumes@),
                    ) + seq!["."@]);
                    assert(unpack@.args =~= seq![
                        self.host@,
                        "mkdir"@,
                        target@,
                        "&&"@,
                        "tar"@,
                        "-C"@,
                        target@,
                        "-xf-"@,
                    ]);
                }
                Ok(TransferPlan::Pipe { archive, unpack })
            },
        }
    }
}

/// One way to ask a destination for its free space.
#[derive(Clone, Copy, Debug, PartialEq, Eq, Structural)]
pub enum ProbeFormat {
    /// `df` prints the free bytes alone, below a heading.
    AvailableBytes,
    /// `df` prints the portable table in units of 1024 bytes; the free space
    /// is the fourth column of the line below the heading.
    PosixKilobytes,
    /// PowerShell prints the free bytes alone.
    PowershellBytes,
}

/// The ways to ask a destination for its free space, in the order in which
/// they are tried: a later one is tried when the one before it reports
/// failure.
pub open spec fn probe_formats(destination: DestinationView) -> Seq<ProbeFormat> {
    match destination {
        DestinationView::Local { path } => seq![ProbeFormat::AvailableBytes],
        DestinationView::Remote { host, path, target_os } => if target_os == TargetOs::Windows {
            seq![ProbeFormat::PowershellBytes]
        } else {
            seq![ProbeFormat::AvailableBytes, ProbeFormat::PosixKilobytes]
        },
    }
}

/// The arguments with which `df` reports on `path` in the given format.
pub open spec fn df_args(format: ProbeFormat, path: Seq<char>) -> Seq<Seq<char>> {
    if format == ProbeFormat::PosixKilobytes {
        seq!["-Pk"@, path]
    } else {
        seq!["-B1"@, "--output=avail"@, path]
    }
}

/// The command that asks PowerShell for the free bytes of the volume of `path`.
pub open spec fn powershell_probe(path: Seq<char>) -> Seq<char> {
    "powershell -Command \"Get-Volume -FilePath '"@ + path
        + "' | Select-Object -ExpandProperty SizeRemaining\""@
}

/// The command line that asks a destination for its free space in the
/// given format.
pub open spec fn probe_command(destination: DestinationView, format: ProbeFormat) -> CommandView {
    match destination {
        DestinationView::Local { path } => CommandView {
            program: "df"@,
            args: df_args(format, path),
        },
        DestinationView::Remote { host, path, target_os } => CommandView {
            program: "ssh"@,
            args: if format == ProbeFormat::PowershellBytes {
                seq![host, powershell_probe(path)]
            } else {
                seq![host, "df"@] + df_args(format, path)
            },
        },
    }
}

/// The second line of `text`, if it has two lines.  A line ends at a line
/// feed or at the end of the text; nothing after the last line feed is no
/// line.
pub open spec fn second_line(text: Seq<char>) -> Option<Seq<char>> {
    let pieces = split(text, '\n');
    if pieces.len() >= 3 || (pieces.len() == 2 && pieces[1].len() > 0) {
        Some(pieces[1])
    } else {
        None
    }
}

/// The error for probe output that is no number.
pub open spec fn unparsable_space() -> BackupErrorView {
    error_view(ErrorKind::Probe, "Failed to parse available space"@)
}

/// The error for `df` output without a second line.
pub open spec fn invalid_df_output() -> BackupErrorView {
    error_view(ErrorKind::Probe, "Invalid df output"@)
}

/// The number that `text` writes once white space around it is cut off.
pub open spec fn parsed_bytes(text: Seq<char>) -> Result<u64, BackupErrorView> {
    match parsed_u64(trimmed(text)) {
        Some(bytes) => Ok(bytes),
        None => Err(unparsable_space()),
    }
}

/// The number of bytes for the number of units of 1024 bytes that `text`
/// writes.
pub open spec fn parsed_kilobytes(text: Seq<char>) -> Result<u64, BackupErrorView> {
    match parsed_u64(text) {
        Some(units) => if units * 1024 <= u64::MAX {
            Ok((units * 1024) as u64)
        } else {
            Err(unparsable_space())
        },
        None => Err(unparsable_space()),
    }
}

/// The free bytes that a probe in the given format printed.
pub open spec fn parsed_probe(format: ProbeFormat, stdout: Seq<char>) -> Result<
    u64,
    BackupErrorView,
> {
    match format {
        ProbeFormat::PowershellBytes => parsed_bytes(stdout),
        ProbeFormat::AvailableBytes => match second_line(stdout) {
            Some(line) => parsed_bytes(line),
            None => Err(invalid_df_output()),
        },
        ProbeFormat::PosixKilobytes => match second_line(stdout) {
            Some(line) => parsed_kilobytes(word(line, 3)),
            None => Err(invalid_df_output()),
        },
    }
}

/// The content of a number or of the error in its place.
pub open spec fn number_result_view(r: Result<u64, BackupError>) -> Result<u64, BackupErrorView> {
    match r {
        Ok(n) => Ok(n),
        Err(err) => Err(err@),
    }
}

fn parse_bytes(text: &str) -> (parsed: Result<u64, BackupError>)
    ensures
        number_result_view(parsed) == parsed_bytes(text@),
{
    match parse_u64(trim(text).as_str()) {
        Some(bytes) => Ok(bytes),
        None => Err(BackupError::with_kind(ErrorKind::Probe, "Failed to parse available space")),
    }
}

fn parse_kilobytes(text: &str) -> (parsed: Result<u64, BackupError>)
    ensures
        number_result_view(parsed) == parsed_kilobytes(text@),
{
    match parse_u64(text) {
        Some(units) => {
            if units <= u64::MAX / 1024 {
                Ok(units * 1024)
            } else {
                Err(BackupError::with_kind(ErrorKind::Probe, "Failed to parse available space"))
            }
        },
        None => Err(BackupError::with_kind(ErrorKind::Probe, "Failed to parse available space")),
    }
}

fn take_second_line(text: &str) -> (line: Option<String>)
    ensures
        match line {
            Some(found) => second_line(text@) == Some(found@),
            None => second_line(text@) is None,
        },
{
    let pieces = split_on(text, '\n');
    assert(texts(pieces@).len() == pieces@.len());
    if pieces.len() >= 3 || (pieces.len() == 2 && pieces[1].as_str().unicode_len() > 0) {
        assert(texts(pieces@)[1] == pieces@[1]@);
        Some(pieces[1].clone())
    } else {
        if pieces.len() == 2 {
            assert(texts(pieces@)[1] == pieces@[1]@);
        }
        None
    }
}

/// Reads the free bytes from what a probe in the given format printed.
pub fn parse_probe_output(format: ProbeFormat, stdout: &str) -> (parsed: Result<u64, BackupError>)
    ensures
        number_result_view(parsed) == parsed_probe(format, stdout@),
{
    match format {
        ProbeFormat::PowershellBytes => parse_bytes(stdout),
        ProbeFormat::AvailableBytes => match take_second_line(stdout) {
            Some(line) => parse_bytes(line.as_str()),
            None => Err(BackupError::with_kind(ErrorKind::Probe, "Invalid df output")),
        },
        ProbeFormat::PosixKilobytes => match take_second_line(stdout) {
            Some(line) => parse_kilobytes(nth_word(line.as_str(), 3).as_str()),
            None => Err(BackupError::with_kind(ErrorKind::Probe, "Invalid df output")),
        },
    }
}

/// What a probe command left behind.
#[derive(Debug)]
pub struct ProbeOutput {
    /// Whether the command reported success.
    pub success: bool,
    pub stdout: String,
    pub stderr: String,
}

/// Mathematical content of a [`ProbeOutput`].
pub struct ProbeOutputView {
    pub success: bool,
    pub stdout: Seq<char>,
    pub stderr: Seq<char>,
}

impl View for ProbeOutput {
    type V = ProbeOutputView;

    open spec fn view(&self) -> ProbeOutputView {
        ProbeOutputView { success: self.success, stdout: self.stdout@, stderr: self.stderr@ }
    }
}

/// What follows a probe.
#[derive(Debug)]
pub enum ProbeStep {
    /// The free space is known, or cannot be had.
    Done(Result<u64, BackupError>),
    /// The probe reported failure: the format with index `attempt` is next.
    Retry { attempt: usize },
}

/// Mathematical content of a [`ProbeStep`].
pub enum ProbeStepView {
    Done(Result<u64, BackupErrorView>),
    Retry { attempt: usize },
}

impl View for ProbeStep {
    type V = ProbeStepView;

    open spec fn view(&self) -> ProbeStepView {
        match *self {
            ProbeStep::Done(r) => ProbeStepView::Done(number_result_view(r)),
            ProbeStep::Retry { attempt } => ProbeStepView::Retry { attempt },
        }
    }
}

/// The content of what running a probe gave: its output, or the reason why
/// it could not be run.
pub open spec fn ran_view(ran: Result<ProbeOutput, String>) -> Result<ProbeOutputView, Seq<char>> {
    match ran {
        Ok(output) => Ok(output@),
        Err(reason) => Err(reason@),
    }
}

/// The program that probes a destination.
pub open spec fn probe_program(destination: DestinationView) -> Seq<char> {
    match destination {
        DestinationView::Local { path } => "df"@,
        DestinationView::Remote { host, path, target_os } => "ssh"@,
    }
}

/// How the error for a probe that reported failure begins.
pub open spec fn probe_failure_prefix(destination: DestinationView) -> Seq<char> {
    match destination {
        DestinationView::Local { path } => "df command failed: "@,
        DestinationView::Remote { host, path, target_os } => if target_os == TargetOs::Windows {
            "ssh powershell command failed: "@
        } else {
            "ssh df command failed: "@
        },
    }
}

/// What follows the probe of a destination in its format with index
/// `attempt`.
///
/// A probe that could not be run ends the probing with an error, and so does
/// one that reported failure when no format is left; with a format left, that
/// one is next.  A probe that reported success is read in its format.
pub open spec fn probe_step(
    destination: DestinationView,
    attempt: usize,
    ran: Result<ProbeOutputView, Seq<char>>,
) -> ProbeStepView {
    let formats = probe_formats(destination);
    if attempt >= formats.len() {
        ProbeStepView::Done(Err(error_view(ErrorKind::Probe, "No such probe"@)))
    } else {
        match ran {
            Err(reason) => ProbeStepView::Done(
                Err(
                    error_view(
                        ErrorKind::Probe,
                        "Failed to execute "@ + probe_program(destination) + ": "@ + reason,
                    ),
                ),
            ),
            Ok(output) => if output.success {
                ProbeStepView::Done(parsed_probe(formats[attempt as int], output.stdout))
            } else if attempt + 1 < formats.len() {
                ProbeStepView::Retry { attempt: (attempt + 1) as usize }
            } else {
                ProbeStepView::Done(
                    Err(
                        error_view(
                            ErrorKind::Probe,
                            probe_failure_prefix(destination) + output.stderr,
                        ),
                    ),
                )
            },
        }
    }
}

/// The directory that a run called `new_dir` fills at a destination, if the
/// destination is one whose directory is made before the transfer.
pub open spec fn target_dir(destination: DestinationView, new_dir: Seq<char>) -> Option<Seq<char>> {
    match destination {
        DestinationView::Local { path } => Some(joined_path(path, new_dir)),
        DestinationView::Remote { host, path, target_os } => None,
    }
}

/// The error for a target directory that is already there.
pub open spec fn already_exists() -> BackupErrorView {
    error_view(ErrorKind::AlreadyExists, "Directory already exists"@)
}

/// What preparing a destination for the run called `new_dir` asks for, when
/// `exists` says whether its target directory is there: the directory to
/// make, nothing for a remote destination, or an error for a directory that
/// is there already.
pub open spec fn prepared(destination: DestinationView, new_dir: Seq<char>, exists: bool) -> Result<
    Option<Seq<char>>,
    BackupErrorView,
> {
    match target_dir(destination, new_dir) {
        None => Ok(None),
        Some(dir) => if exists {
            Err(already_exists())
        } else {
            Ok(Some(dir))
        },
    }
}

/// The content of what preparing asks for.
pub open spec fn prepare_view(r: Result<Option<String>, BackupError>) -> Result<
    Option<Seq<char>>,
    BackupErrorView,
> {
    match r {
        Ok(Some(dir)) => Ok(Some(dir@)),
        Ok(None) => Ok(None),
        Err(err) => Err(err@),
    }
}

/// The directories that are there once the caller did what preparing asked
/// for.
pub open spec fn directories_after(
    directories: Set<Seq<char>>,
    asked: Result<Option<Seq<char>>, BackupErrorView>,
) -> Set<Seq<char>> {
    match asked {
        Ok(Some(dir)) => directories.insert(dir),
        _ => directories,
    }
}

/// Preparing a local destination twice for the same run fails the second
/// time because the directory is there, whatever was there before: the
/// directory is never used again or overwritten.
pub proof fn lemma_prepare_twice_fails(
    path: Seq<char>,
    new_dir: Seq<char>,
    directories: Set<Seq<char>>,
)
    ensures
        ({
            let destination = DestinationView::Local { path };
            let target = joined_path(path, new_dir);
            let first = prepared(destination, new_dir, directories.contains(target));
            let then = directories_after(directories, first);
            prepared(destination, new_dir, then.contains(target)) == Err::<
                Option<Seq<char>>,
                BackupErrorView,
            >(already_exists())
        }),
{
}

impl LocalDestination {
    /// The directory that a run called `new_dir` fills.
    pub fn target_dir(&self, new_dir: &str) -> (dir: String)
        ensures
            target_dir(self@, new_dir@) == Some(dir@),
    {
        join_path(self.path.as_str(), new_dir)
    }

    /// Says which directory to make for the run called `new_dir`, or fails
    /// if `exists` says that it is there.
    pub fn prepare(&self, new_dir: &str, exists: bool) -> (asked: Result<
        Option<String>,
        BackupError,
    >)
        ensures
            prepare_view(asked) == prepared(self@, new_dir@, exists),
    {
        if exists {
            Err(BackupError::with_kind(ErrorKind::AlreadyExists, "Directory already exists"))
        } else {
            Ok(Some(self.target_dir(new_dir)))
        }
    }
}

impl SshDestination {
    /// Asks for nothing: the transfer itself makes the directory.
    pub fn prepare(&self, new_dir: &str, exists: bool) -> (asked: Result<
        Option<String>,
        BackupError,
    >)
        ensures
            prepare_view(asked) == prepared(self@, new_dir@, exists),
    {
        Ok(None)
    }
}

impl Destination {
    pub fn get_display_name(&self) -> (name: String)
        ensures
            name@ == display_name(self@),
    {
        match self {
            Destination::Local(local) => local.get_display_name(),
            Destination::Ssh(remote) => remote.get_display_name(),
        }
    }

    /// The ways to ask this destination for its free space, in the order in
    /// which they are tried.
    pub fn probe_formats(&self) -> (formats: Vec<ProbeFormat>)
        ensures
            formats@ == probe_formats(self@),
    {
        let mut formats: Vec<ProbeFormat> = Vec::new();
        match self {
            Destination::Local(_) => {
                formats.push(ProbeFormat::AvailableBytes);
            },
            Destination::Ssh(remote) => match remote.target_os {
                TargetOs::Windows => {
                    formats.push(ProbeFormat::PowershellBytes);
                },
                TargetOs::Unix => {
                    formats.push(ProbeFormat::AvailableBytes);
                    formats.push(ProbeFormat::PosixKilobytes);
                },
            },
        }
        assert(formats@ =~= probe_formats(self@));
        formats
    }

    /// The command line that asks this destination for its free space in its
    /// format with index `attempt`, if it has that many.
    pub fn probe_command(&self, attempt: usize) -> (command: Option<CommandLine>)
        ensures
            match command {
                Some(line) => attempt < probe_formats(self@).len() && line@ == probe_command(
                    self@,
                    probe_formats(self@)[attempt as int],
                ),
                None => attempt >= probe_formats(self@).len(),
            },
    {
        let formats = self.probe_formats();
        if attempt >= formats.len() {
            return None;
        }
        let format = formats[attempt];
        let mut args: Vec<String> = Vec::new();
        match self {
            Destination::Local(local) => {
                push_df_args(&mut args, format, local.path.as_str());
                let line = CommandLine { program: String::from_str("df"), args };
                assert(line@.args =~= df_args(format, local.path@));
                Some(line)
            },
            Destination::Ssh(remote) => {
                push_arg(&mut args, remote.host.as_str());
                match format {
                    ProbeFormat::PowershellBytes => {
                        let mut script = joined(
                            "powershell -Command \"Get-Volume -FilePath '",
                            remote.path.as_str(),
                        );
                        script.append("' | Select-Object -ExpandProperty SizeRemaining\"");
                        push_arg(&mut args, script.as_str());
                        assert(texts(args@) =~= seq![remote.host@, powershell_probe(remote.path@)]);
                    },
                    _ => {
                        push_arg(&mut args, "df");
                        push_df_args(&mut args, format, remote.path.as_str());
                        assert(texts(args@) =~= seq![remote.host@, "df"@] + df_args(
                            format,
                            remote.path@,
                        ));
                    },
                }
                Some(CommandLine { program: String::from_str("ssh"), args })
            },
        }
    }

    /// Decides what follows the probe in the format with index `attempt`.
    /// `ran` is what the probe command left behind, or the reason why it
    /// could not be run.
    pub fn available_space(
        &self,
        attempt: usize,
        ran: Result<ProbeOutput, String>,
    ) -> (step: ProbeStep)
        ensures
            step@ == probe_step(self@, attempt, ran_view(ran)),
    {
        let formats = self.probe_formats();
        if attempt >= formats.len() {
            return ProbeStep::Done(Err(BackupError::with_kind(ErrorKind::Probe, "No such probe")));
        }
        match ran {
            Err(reason) => {
                let program = match self {
                    Destination::Local(_) => "df",
                    Destination::Ssh(_) => "ssh",
                };
                let mut text = joined("Failed to execute ", program);
                text.append(": ");
                text.append(reason.as_str());
                ProbeStep::Done(Err(BackupError::with_kind(ErrorKind::Probe, text.as_str())))
            },
            Ok(output) => {
                if output.success {
                    ProbeStep::Done(parse_probe_output(formats[attempt], output.stdout.as_str()))
                } else if attempt + 1 < formats.len() {
                    ProbeStep::Retry { attempt: attempt + 1 }
                } else {
                    let prefix = match self {
                        Destination::Local(_) => "df command failed: ",
                        Destination::Ssh(remote) => match remote.target_os {
                            TargetOs::Windows => "ssh powershell command failed: ",
                            TargetOs::Unix => "ssh df command failed: ",
                        },
                    };
                    let text = joined(prefix, output.stderr.as_str());
                    ProbeStep::Done(Err(BackupError::with_kind(ErrorKind::Probe, text.as_str())))
                }
            },
        }
    }

    /// Compares the free space of this destination, if the probe gave it,
    /// with what the volumes need.  An error of the probe is handed on.
    pub fn check_available_space(
        &self,
        required_size: u64,
        available: Result<u64, BackupError>,
    ) -> (checked: Result<(), BackupError>)
        ensures
            unit_result_view(checked) == match number_result_view(available) {
                Ok(bytes) => space_check(display_name(self@), required_size, bytes),
                Err(err) => Err(err),
            },
    {
        match available {
            Ok(bytes) => check_space(self.get_display_name().as_str(), required_size, bytes),
            Err(err) => Err(err),
        }
    }

    /// Says which directory to make for the run called `new_dir`, or fails if
    /// `exists` says that it is there.  For a remote destination nothing is
    /// to be made.
    pub fn prepare(&self, new_dir: &str, exists: bool) -> (asked: Result<
        Option<String>,
        BackupError,
    >)
        ensures
            prepare_view(asked) == prepared(self@, new_dir@, exists),
    {
        match self {
            Destination::Local(local) => local.prepare(new_dir, exists),
            Destination::Ssh(remote) => remote.prepare(new_dir, exists),
        }
    }

    /// Plans the transfer of the volumes into the directory `new_dir` below
    /// this destination.  `volumes` are the names of the entries of
    /// `volume_path`; an excluded volume that names none of them fails the
    /// call, and nothing is to be started.
    pub fn spawn_backup(
        &self,
        volume_path: &str,
        excluded_volumes: &Vec<String>,
        new_dir: &str,
        volumes: &Vec<String>,
    ) -> (planned: Result<TransferPlan, BackupError>)
        ensures
            planned is Ok <==> all_known(texts(excluded_volumes@), texts(volumes@)),
            planned matches Ok(plan) ==> plan@ == transfer_plan(
                self@,
                volume_path@,
                texts(excluded_volumes@),
                new_dir@,
            ),
            planned matches Err(err) ==> exists|at: int|
                #![trigger texts(excluded_volumes@)[at]]
                first_unknown(texts(excluded_volumes@), texts(volumes@), at) && err@
                    == unknown_exclusion(texts(excluded_volumes@)[at]),
    {
        match self {
            Destination::Local(local) => local.spawn_backup(
                volume_path,
                excluded_volumes,
                new_dir,
                volumes,
            ),
            Destination::Ssh(remote) => remote.spawn_backup(
                volume_path,
                excluded_volumes,
                new_dir,
                volumes,
            ),
        }
    }
}

fn push_df_args(args: &mut Vec<String>, format: ProbeFormat, path: &str)
    ensures
        texts(final(args)@) == texts(old(args)@) + df_args(format, path@),
{
    match format {
        ProbeFormat::PosixKilobytes => {
            push_arg(args, "-Pk");
        },
        _ => {
            push_arg(args, "-B1");
            push_arg(args, "--output=avail");
        },
    }
    push_arg(args, path);
    assert(texts(args@) =~= texts(old(args)@) + df_args(format, path@));
}

} // verus!
