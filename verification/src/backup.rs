//! A backup as a whole: its configuration, the containers that are paused
//! while it runs, what happens around the run and who is told about it.

use crate::backup_result::{
    report_view, BackupError, BackupErrorView, BackupSuccess, Outcome, OutcomeView,
};
use crate::destination::{display_name, unit_result_view, Destination, DestinationView};
use crate::notification::{message_view, Discord, Gotify};
use crate::orchestrator::{Orchestrator, RunModel};
use crate::text::{
    joined, contains_text, decimal, decimal_string, signed_decimal, signed_decimal_string, split,
    split_on, texts, trim, trimmed,
};
use vstd::prelude::*;
use vstd::string::*;

verus! {

/// The volume that is never part of a backup.
pub open spec fn implicit_exclusion() -> Seq<char> {
    "backingFsBlockDev"@
}

/// The name of the directory that a run on the given day fills at every
/// destination.
pub open spec fn run_id(year: i32, month: u32, day: u32) -> Seq<char> {
    signed_decimal(year as int) + "-"@ + decimal(month as nat) + "-"@ + decimal(day as nat)
}

/// The name of the directory that a run on the given day fills at every
/// destination.
pub fn new_dir_name(year: i32, month: u32, day: u32) -> (name: String)
    ensures
        name@ == run_id(year, month, day),
{
    let mut name = signed_decimal_string(year as i64);
    name.append("-");
    name.append(decimal_string(month as u64).as_str());
    name.append("-");
    name.append(decimal_string(day as u64).as_str());
    name
}

/// What one backup is to do.  It is made once and only read afterwards.
#[derive(Debug)]
pub struct DockerBackup {
    dest_paths: Vec<Destination>,
    new_dir: String,
    volume_path: String,
    excluded_containers: Vec<String>,
    excluded_volumes: Vec<String>,
    gotify_url: Option<String>,
    discord_url: Option<String>,
}

/// Mathematical content of a [`DockerBackup`].
pub struct DockerBackupView {
    pub dest_paths: Seq<DestinationView>,
    pub new_dir: Seq<char>,
    pub volume_path: Seq<char>,
    pub excluded_containers: Seq<Seq<char>>,
    pub excluded_volumes: Seq<Seq<char>>,
    pub gotify_url: Option<Seq<char>>,
    pub discord_url: Option<Seq<char>>,
}

/// The contents of a list of destinations.
pub open spec fn destination_views(list: Seq<Destination>) -> Seq<DestinationView> {
    list.map_values(|d: Destination| d@)
}

/// The names that a list of destinations is shown under.
pub open spec fn display_names(list: Seq<DestinationView>) -> Seq<Seq<char>> {
    list.map_values(|d: DestinationView| display_name(d))
}

impl View for DockerBackup {
    type V = DockerBackupView;

    closed spec fn view(&self) -> DockerBackupView {
        DockerBackupView {
            dest_paths: destination_views(self.dest_paths@),
            new_dir: self.new_dir@,
            volume_path: self.volume_path@,
            excluded_containers: texts(self.excluded_containers@),
            excluded_volumes: texts(self.excluded_volumes@),
            gotify_url: message_view(self.gotify_url),
            discord_url: message_view(self.discord_url),
        }
    }
}

/// Someone to tell about an outcome.
#[derive(Debug)]
pub enum Notice {
    Gotify(Gotify),
    Discord(Discord),
}

/// Mathematical content of a [`Notice`].
pub enum NoticeView {
    Gotify { message: Option<Seq<char>>, url: Seq<char>, success: bool },
    Discord { message: Option<Seq<char>>, url: Seq<char>, success: bool },
}

impl View for Notice {
    type V = NoticeView;

    open spec fn view(&self) -> NoticeView {
        match self {
            Notice::Gotify(n) => NoticeView::Gotify {
                message: message_view(n.message),
                url: n.url@,
                success: n.success,
            },
            Notice::Discord(n) => NoticeView::Discord {
                message: message_view(n.message),
                url: n.url@,
                success: n.success,
            },
        }
    }
}

/// The contents of a list of notices.
pub open spec fn notice_views(list: Seq<Notice>) -> Seq<NoticeView> {
    list.map_values(|n: Notice| n@)
}

/// Who is told about a result with the text `message`, and how: Gotify, if
/// it is configured, gets `gotify_text`, Discord, if it is configured, the
/// message itself.
pub open spec fn notices(
    config: DockerBackupView,
    gotify_text: Seq<char>,
    message: Seq<char>,
    success: bool,
) -> Seq<NoticeView> {
    (match config.gotify_url {
        Some(url) => seq![NoticeView::Gotify { message: Some(gotify_text), url, success }],
        None => Seq::<NoticeView>::empty(),
    }) + (match config.discord_url {
        Some(url) => seq![NoticeView::Discord { message: Some(message), url, success }],
        None => Seq::<NoticeView>::empty(),
    })
}

/// Who is told about an outcome.
pub open spec fn outcome_notices(config: DockerBackupView, outcome: OutcomeView) -> Seq<
    NoticeView,
> {
    match outcome {
        OutcomeView::Success { message } => notices(config, message, message, true),
        OutcomeView::Error { kind, message } => notices(
            config,
            "Backup failed with error: "@ + message,
            message,
            false,
        ),
    }
}

/// Who is told about the first `count` outcomes of a report, in their order.
pub open spec fn report_notices(
    config: DockerBackupView,
    report: Seq<OutcomeView>,
    count: nat,
) -> Seq<NoticeView>
    decreases count,
{
    if count == 0 || count > report.len() {
        Seq::empty()
    } else {
        report_notices(config, report, (count - 1) as nat) + outcome_notices(
            config,
            report[count - 1],
        )
    }
}

/// The containers to pause: the names that the listing holds, one to a line,
/// but for the excluded ones, each once, in the order of the listing.
pub open spec fn containers_to_pause(
    names: Seq<Seq<char>>,
    excluded: Seq<Seq<char>>,
    count: nat,
) -> Seq<Seq<char>>
    decreases count,
{
    if count == 0 || count > names.len() {
        Seq::empty()
    } else {
        let before = containers_to_pause(names, excluded, (count - 1) as nat);
        let name = names[count - 1];
        if name.len() > 0 && !excluded.contains(name) && !before.contains(name) {
            before.push(name)
        } else {
            before
        }
    }
}

/// The names that a listing of containers holds, one to a line.
pub open spec fn listed_names(listing: Seq<char>) -> Seq<Seq<char>> {
    split(trimmed(listing), '\n')
}

/// What `containers_to_pause` holds: every name once that is listed, not
/// empty and not excluded, and nothing else.
pub proof fn lemma_containers_to_pause(names: Seq<Seq<char>>, excluded: Seq<Seq<char>>, count: nat)
    requires
        count <= names.len(),
    ensures
        ({
            let kept = containers_to_pause(names, excluded, count);
            &&& forall|i: int, j: int| 0 <= i < j < kept.len() ==> kept[i] != kept[j]
            &&& forall|name: Seq<char>| #[trigger]
                kept.contains(name) <==> name.len() > 0 && !excluded.contains(name) && exists|k: int|
                    0 <= k < count && names[k] == name
        }),
    decreases count,
{
    if count > 0 {
        let before = containers_to_pause(names, excluded, (count - 1) as nat);
        let kept = containers_to_pause(names, excluded, count);
        let last = names[count - 1];
        lemma_containers_to_pause(names, excluded, (count - 1) as nat);
        assert forall|name: Seq<char>| #[trigger]
            kept.contains(name) <==> name.len() > 0 && !excluded.contains(name) && exists|k: int|
                0 <= k < count && names[k] == name by {
            if kept.contains(name) {
                let at = choose|at: int| 0 <= at < kept.len() && kept[at] == name;
                if at < before.len() {
                    assert(before[at] == name);
                    assert(before.contains(name));
                    let k = choose|k: int| 0 <= k < count - 1 && names[k] == name;
                    assert(names[k] == name);
                } else {
                    assert(name == last);
                }
            }
            if name.len() > 0 && !excluded.contains(name) && exists|k: int|
                0 <= k < count && names[k] == name {
                let k = choose|k: int| 0 <= k < count && names[k] == name;
                if k < count - 1 {
                    assert(before.contains(name));
                    let at = choose|at: int| 0 <= at < before.len() && before[at] == name;
                    assert(kept[at] == name);
                } else if before.contains(name) {
                    let at = choose|at: int| 0 <= at < before.len() && before[at] == name;
                    assert(kept[at] == name);
                } else {
                    assert(kept[kept.len() - 1] == name);
                }
            }
        }
        assert forall|i: int, j: int| 0 <= i < j < kept.len() implies kept[i] != kept[j] by {
            if j == before.len() {
                assert(before[i] == kept[i]);
                if kept[i] == kept[j] {
                    assert(before.contains(last));
                }
            }
        }
    }
}

impl DockerBackup {
    /// The configuration of a backup that runs on the given day.  The run
    /// gets its name from the day, and the volume that is never part of a
    /// backup joins the excluded volumes.
    pub fn build(
        dest_paths: Vec<Destination>,
        volume_path: String,
        excluded_containers: Vec<String>,
        excluded_volumes: Vec<String>,
        gotify_url: Option<String>,
        discord_url: Option<String>,
        year: i32,
        month: u32,
        day: u32,
    ) -> (config: DockerBackup)
        ensures
            config@ == (DockerBackupView {
                dest_paths: destination_views(dest_paths@),
                new_dir: run_id(year, month, day),
                volume_path: volume_path@,
                excluded_containers: texts(excluded_containers@),
                excluded_volumes: texts(excluded_volumes@).push(implicit_exclusion()),
                gotify_url: message_view(gotify_url),
                discord_url: message_view(discord_url),
            }),
    {
        let mut excluded_volumes = excluded_volumes;
        let ghost given = texts(excluded_volumes@);
        excluded_volumes.push(String::from_str("backingFsBlockDev"));
        assert(texts(excluded_volumes@) =~= given.push(implicit_exclusion()));
        DockerBackup {
            dest_paths,
            new_dir: new_dir_name(year, month, day),
            volume_path,
            excluded_containers,
            excluded_volumes,
            gotify_url,
            discord_url,
        }
    }

    /// How many destinations there are.
    pub fn destination_count(&self) -> (count: usize)
        ensures
            count == self@.dest_paths.len(),
    {
        self.dest_paths.len()
    }

    /// The destination with the given index.
    pub fn destination(&self, index: usize) -> (destination: &Destination)
        requires
            index < self@.dest_paths.len(),
        ensures
            destination@ == self@.dest_paths[index as int],
    {
        &self.dest_paths[index]
    }

    /// The name of the directory that the run fills at every destination.
    pub fn new_dir(&self) -> (name: &String)
        ensures
            name@ == self@.new_dir,
    {
        &self.new_dir
    }

    /// The directory that holds the volumes.
    pub fn volume_path(&self) -> (path: &String)
        ensures
            path@ == self@.volume_path,
    {
        &self.volume_path
    }

    /// The volumes that are not part of the backup.
    pub fn excluded_volumes(&self) -> (excluded: &Vec<String>)
        ensures
            texts(excluded@) == self@.excluded_volumes,
    {
        &self.excluded_volumes
    }

    /// The containers to stop before the run and to start after it: those
    /// that `listing` names, one to a line, but for the excluded ones.
    pub fn running_containers(&self, listing: &str) -> (containers: Vec<String>)
        ensures
            texts(containers@) == containers_to_pause(
                listed_names(listing@),
                self@.excluded_containers,
                listed_names(listing@).len(),
            ),
    {
        let names = split_on(trim(listing).as_str(), '\n');
        let ghost listed = listed_names(listing@);
        let ghost excluded = self@.excluded_containers;
        let mut containers: Vec<String> = Vec::new();
        let mut i: usize = 0;
        assert(texts(containers@) =~= containers_to_pause(listed, excluded, 0));
        while i < names.len()
            invariant
                i <= names.len(),
                listed == texts(names@),
                excluded == texts(self.excluded_containers@),
                texts(containers@) == containers_to_pause(listed, excluded, i as nat),
            decreases names.len() - i,
        {
            let name = names[i].as_str();
            assert(listed[i as int] == name@);
            if name.unicode_len() > 0 && !contains_text(&self.excluded_containers, name)
                && !contains_text(&containers, name) {
                let ghost before = texts(containers@);
                containers.push(String::from_str(name));
                assert(texts(containers@) =~= before.push(name@));
            }
            i += 1;
        }
        containers
    }

    /// The run over the destinations of this backup, not yet started.
    pub fn run(&self) -> (run: Orchestrator)
        ensures
            run.wf(),
            run@ == RunModel::init(display_names(self@.dest_paths)),
    {
        let mut names: Vec<String> = Vec::new();
        let mut i: usize = 0;
        while i < self.dest_paths.len()
            invariant
                i <= self.dest_paths.len(),
                texts(names@) == display_names(self@.dest_paths).take(i as int),
            decreases self.dest_paths.len() - i,
        {
            let ghost before = texts(names@);
            let name = self.dest_paths[i].get_display_name();
            names.push(name);
            proof {
                assert(texts(names@) =~= before.push(name@));
                assert(display_names(self@.dest_paths).take(i + 1) =~= display_names(
                    self@.dest_paths,
                ).take(i as int).push(display_name(self.dest_paths@[i as int]@)));
            }
            i += 1;
        }
        assert(texts(names@) =~= display_names(self@.dest_paths));
        Orchestrator::new(names)
    }

    fn notices(&self, gotify_text: String, message: &str, success: bool) -> (list: Vec<Notice>)
        ensures
            notice_views(list@) == notices(self@, gotify_text@, message@, success),
    {
        let mut list: Vec<Notice> = Vec::new();
        match &self.gotify_url {
            Some(url) => {
                list.push(
                    Notice::Gotify(
                        Gotify { message: Some(gotify_text), url: url.clone(), success },
                    ),
                );
            },
            None => {},
        }
        match &self.discord_url {
            Some(url) => {
                list.push(
                    Notice::Discord(
                        Discord {
                            message: Some(String::from_str(message)),
                            url: url.clone(),
                            success,
                        },
                    ),
                );
            },
            None => {},
        }
        assert(notice_views(list@) =~= notices(self@, gotify_text@, message@, success));
        list
    }

    /// Who is told about the outcomes of a report, in their order.
    pub fn report_notices(&self, report: &Vec<Outcome>) -> (list: Vec<Notice>)
        ensures
            notice_views(list@) == report_notices(self@, report_view(report@), report@.len()),
    {
        let ghost outcomes = report_view(report@);
        let mut list: Vec<Notice> = Vec::new();
        let mut i: usize = 0;
        assert(notice_views(list@) =~= report_notices(self@, outcomes, 0));
        while i < report.len()
            invariant
                i <= report.len(),
                outcomes == report_view(report@),
                notice_views(list@) == report_notices(self@, outcomes, i as nat),
            decreases report.len() - i,
        {
            let mut more = match &report[i] {
                Ok(done) => done.notify(self),
                Err(err) => err.notify(self),
            };
            let ghost before = notice_views(list@);
            let ghost added = notice_views(more@);
            assert(added == outcome_notices(self@, outcomes[i as int]));
            list.append(&mut more);
            assert(notice_views(list@) =~= before + added);
            i += 1;
        }
        list
    }
}

impl BackupError {
    /// Who is told about this error.
    pub fn notify(&self, config: &DockerBackup) -> (list: Vec<Notice>)
        ensures
            notice_views(list@) == outcome_notices(
                config@,
                OutcomeView::Error { kind: self@.kind, message: self@.message },
            ),
    {
        config.notices(
            joined("Backup failed with error: ", self.message.as_str()),
            self.message.as_str(),
            false,
        )
    }
}

impl BackupSuccess {
    /// Who is told about this success.
    pub fn notify(&self, config: &DockerBackup) -> (list: Vec<Notice>)
        ensures
            notice_views(list@) == outcome_notices(
                config@,
                OutcomeView::Success { message: self@ },
            ),
    {
        let message = self.message();
        config.notices(message.clone(), message.as_str(), true)
    }
}

/// Where a backup stands between its first and its last step.
#[derive(Debug)]
pub enum Session {
    /// The running containers are being listed.
    Listing,
    /// The containers are being stopped.
    Stopping { containers: Vec<String> },
    /// The run is under way.
    Running { containers: Vec<String> },
    /// The containers are being started again.
    Starting { report: Vec<Outcome> },
    /// The backup is over.
    Done,
}

/// Mathematical content of a [`Session`].
pub enum SessionView {
    Listing,
    Stopping { containers: Seq<Seq<char>> },
    Running { containers: Seq<Seq<char>> },
    Starting { report: Seq<OutcomeView> },
    Done,
}

impl View for Session {
    type V = SessionView;

    open spec fn view(&self) -> SessionView {
        match self {
            Session::Listing => SessionView::Listing,
            Session::Stopping { containers } => SessionView::Stopping {
                containers: texts(containers@),
            },
            Session::Running { containers } => SessionView::Running {
                containers: texts(containers@),
            },
            Session::Starting { report } => SessionView::Starting { report: report_view(report@) },
            Session::Done => SessionView::Done,
        }
    }
}

/// What happened around the run.
#[derive(Debug)]
pub enum SessionEvent {
    /// The running containers were listed, one name to a line, or could not
    /// be.
    Listed(Result<String, BackupError>),
    /// The containers were stopped, or could not be.
    Stopped(Result<(), BackupError>),
    /// The run returned its report.
    Finished(Vec<Outcome>),
    /// The containers were started again, or could not be.
    Started(Result<(), BackupError>),
}

/// Mathematical content of a [`SessionEvent`].
pub enum SessionEventView {
    Listed(Result<Seq<char>, BackupErrorView>),
    Stopped(Result<(), BackupErrorView>),
    Finished(Seq<OutcomeView>),
    Started(Result<(), BackupErrorView>),
}

impl View for SessionEvent {
    type V = SessionEventView;

    open spec fn view(&self) -> SessionEventView {
        match *self {
            SessionEvent::Listed(Ok(listing)) => SessionEventView::Listed(Ok(listing@)),
            SessionEvent::Listed(Err(err)) => SessionEventView::Listed(Err(err@)),
            SessionEvent::Stopped(r) => SessionEventView::Stopped(unit_result_view(r)),
            SessionEvent::Finished(report) => SessionEventView::Finished(report_view(report@)),
            SessionEvent::Started(r) => SessionEventView::Started(unit_result_view(r)),
        }
    }
}

/// What to do next around the run.
#[derive(Debug)]
pub enum SessionAction {
    /// Stop these containers.
    Stop { containers: Vec<String> },
    /// Run the backup.
    Run,
    /// Start these containers.
    Start { containers: Vec<String> },
    /// Tell about the outcomes and end with the given result.
    Exit { notices: Vec<Notice>, result: Result<(), BackupError> },
    /// Nothing: the event does not belong here.
    Nothing,
}

/// Mathematical content of a [`SessionAction`].
pub enum SessionActionView {
    Stop { containers: Seq<Seq<char>> },
    Run,
    Start { containers: Seq<Seq<char>> },
    Exit { notices: Seq<NoticeView>, result: Result<(), BackupErrorView> },
    Nothing,
}

impl View for SessionAction {
    type V = SessionActionView;

    open spec fn view(&self) -> SessionActionView {
        match *self {
            SessionAction::Stop { containers } => SessionActionView::Stop {
                containers: texts(containers@),
            },
            SessionAction::Run => SessionActionView::Run,
            SessionAction::Start { containers } => SessionActionView::Start {
                containers: texts(containers@),
            },
            SessionAction::Exit { notices, result } => SessionActionView::Exit {
                notices: notice_views(notices@),
                result: unit_result_view(result),
            },
            SessionAction::Nothing => SessionActionView::Nothing,
        }
    }
}

/// What follows an event around the run.
///
/// The containers that run and are not excluded are stopped before the run
/// and started after it; with none of them the run is all there is.  If the
/// containers cannot be listed or stopped, the backup ends with that error
/// and without any transfer.  If they cannot be started again, everyone is
/// still told about the outcomes, and the backup ends with that error.
pub open spec fn session_step(
    config: DockerBackupView,
    session: SessionView,
    event: SessionEventView,
) -> (SessionView, SessionActionView) {
    match (session, event) {
        (SessionView::Listing, SessionEventView::Listed(Err(err))) => (
            SessionView::Done,
            SessionActionView::Exit { notices: Seq::empty(), result: Err(err) },
        ),
        (SessionView::Listing, SessionEventView::Listed(Ok(listing))) => {
            let containers = containers_to_pause(
                listed_names(listing),
                config.excluded_containers,
                listed_names(listing).len(),
            );
            if containers.len() == 0 {
                (SessionView::Running { containers }, SessionActionView::Run)
            } else {
                (SessionView::Stopping { containers }, SessionActionView::Stop { containers })
            }
        },
        (SessionView::Stopping { containers }, SessionEventView::Stopped(Err(err))) => (
            SessionView::Done,
            SessionActionView::Exit { notices: Seq::empty(), result: Err(err) },
        ),
        (SessionView::Stopping { containers }, SessionEventView::Stopped(Ok(_))) => (
            SessionView::Running { containers },
            SessionActionView::Run,
        ),
        (SessionView::Running { containers }, SessionEventView::Finished(report)) => {
            if containers.len() == 0 {
                (
                    SessionView::Done,
                    SessionActionView::Exit {
                        notices: report_notices(config, report, report.len()),
                        result: Ok(()),
                    },
                )
            } else {
                (SessionView::Starting { report }, SessionActionView::Start { containers })
            }
        },
        (SessionView::Starting { report }, SessionEventView::Started(result)) => (
            SessionView::Done,
            SessionActionView::Exit {
                notices: report_notices(config, report, report.len()),
                result,
            },
        ),
        _ => (session, SessionActionView::Nothing),
    }
}

impl DockerBackup {
    /// Decides what follows an event around the run.  A backup begins with
    /// `Session::Listing` and the listing of the running containers.
    pub fn backup(&self, session: Session, event: SessionEvent) -> (next: (Session, SessionAction))
        ensures
            (next.0@, next.1@) == session_step(self@, session@, event@),
    {
        match (session, event) {
            (Session::Listing, SessionEvent::Listed(Err(err))) => {
                let notices: Vec<Notice> = Vec::new();
                assert(notice_views(notices@) =~= Seq::<NoticeView>::empty());
                (Session::Done, SessionAction::Exit { notices, result: Err(err) })
            },
            (Session::Listing, SessionEvent::Listed(Ok(listing))) => {
                let containers = self.running_containers(listing.as_str());
                if containers.len() == 0 {
                    (Session::Running { containers }, SessionAction::Run)
                } else {
                    let names = clone_texts(&containers);
                    (Session::Stopping { containers }, SessionAction::Stop { containers: names })
                }
            },
            (Session::Stopping { containers }, SessionEvent::Stopped(Err(err))) => {
                let notices: Vec<Notice> = Vec::new();
                assert(notice_views(notices@) =~= Seq::<NoticeView>::empty());
                (Session::Done, SessionAction::Exit { notices, result: Err(err) })
            },
            (Session::Stopping { containers }, SessionEvent::Stopped(Ok(_))) => (
                Session::Running { containers },
                SessionAction::Run,
            ),
            (Session::Running { containers }, SessionEvent::Finished(report)) => {
                if containers.len() == 0 {
                    let notices = self.report_notices(&report);
                    (Session::Done, SessionAction::Exit { notices, result: Ok(()) })
                } else {
                    (Session::Starting { report }, SessionAction::Start { containers })
                }
            },
            (Session::Starting { report }, SessionEvent::Started(result)) => {
                let notices = self.report_notices(&report);
                (Session::Done, SessionAction::Exit { notices, result })
            },
            (session, _) => (session, SessionAction::Nothing),
        }
    }
}

fn clone_texts(list: &Vec<String>) -> (copy: Vec<String>)
    ensures
        texts(copy@) == texts(list@),
{
    let mut copy: Vec<String> = Vec::new();
    let mut i: usize = 0;
    while i < list.len()
        invariant
            i <= list.len(),
            copy.len() == i,
            forall|k: int| 0 <= k < i ==> copy[k]@ == list[k]@,
        decreases list.len() - i,
    {
        copy.push(list[i].clone());
        i += 1;
    }
    assert(texts(copy@) =~= texts(list@));
    copy
}

/// What to do about an interrupt signal.
#[derive(Clone, Copy, Debug, PartialEq, Eq, Structural)]
pub enum InterruptAction {
    /// Put one cancel request on the result channel.
    RequestCancel,
    /// Leave the process at once.
    ForceExit,
}

/// The interrupt signals of one run.  The first asks the run to cancel;
/// every later one forces the exit.
#[derive(Debug)]
pub struct Interrupts {
    cancel_requested: bool,
}

impl View for Interrupts {
    type V = bool;

    /// Whether the cancel request was made.
    closed spec fn view(&self) -> bool {
        self.cancel_requested
    }
}

impl Interrupts {
    /// No signal has come yet.
    pub fn new() -> (interrupts: Interrupts)
        ensures
            !interrupts@,
    {
        Interrupts { cancel_requested: false }
    }

    /// Takes in one interrupt signal.  The handler of the signal does what
    /// the answer says and nothing else.
    pub fn signal(&mut self) -> (action: InterruptAction)
        ensures
            final(self)@,
            action == if old(self)@ {
                InterruptAction::ForceExit
            } else {
                InterruptAction::RequestCancel
            },
    {
        if self.cancel_requested {
            InterruptAction::ForceExit
        } else {
            self.cancel_requested = true;
            InterruptAction::RequestCancel
        }
    }
}

} // verus!
