//! Notifications about the result of a backup: what is sent to a Gotify
//! server or to a Discord webhook, and what follows each attempt to send it.
//!
//! Nothing here talks to the network.  A notification says which request to
//! make; the caller makes it and reports the reply.

use crate::backup_result::{BackupError, BackupErrorView, ErrorKind};
use crate::destination::{error_view, unit_result_view};
use vstd::prelude::*;
use vstd::string::*;

verus! {

/// A name with its value: a header of a request or a field of its body.
#[derive(Debug)]
pub struct Field {
    pub name: String,
    pub value: String,
}

impl View for Field {
    type V = (Seq<char>, Seq<char>);

    open spec fn view(&self) -> (Seq<char>, Seq<char>) {
        (self.name@, self.value@)
    }
}

/// The contents of a list of fields.
pub open spec fn fields_view(fields: Seq<Field>) -> Seq<(Seq<char>, Seq<char>)> {
    fields.map_values(|f: Field| f@)
}

/// What a request carries.
#[derive(Debug)]
pub enum Body {
    /// A JSON object with these members, each a string.
    Json { fields: Vec<Field> },
    /// This text as it stands.
    Text { content: String },
}

/// Mathematical content of a [`Body`].
pub enum BodyView {
    Json { fields: Seq<(Seq<char>, Seq<char>)> },
    Text { content: Seq<char> },
}

impl View for Body {
    type V = BodyView;

    open spec fn view(&self) -> BodyView {
        match self {
            Body::Json { fields } => BodyView::Json { fields: fields_view(fields@) },
            Body::Text { content } => BodyView::Text { content: content@ },
        }
    }
}

/// A POST request.
#[derive(Debug)]
pub struct Request {
    pub url: String,
    pub headers: Vec<Field>,
    pub body: Body,
}

/// Mathematical content of a [`Request`].
pub struct RequestView {
    pub url: Seq<char>,
    pub headers: Seq<(Seq<char>, Seq<char>)>,
    pub body: BodyView,
}

impl View for Request {
    type V = RequestView;

    open spec fn view(&self) -> RequestView {
        RequestView { url: self.url@, headers: fields_view(self.headers@), body: self.body@ }
    }
}

/// The headers that every notification is sent with.
pub open spec fn json_headers() -> Seq<(Seq<char>, Seq<char>)> {
    seq![("Accept"@, "application/json"@), ("Content-Type"@, "application/json"@)]
}

fn make_json_headers() -> (headers: Vec<Field>)
    ensures
        fields_view(headers@) == json_headers(),
{
    let mut headers: Vec<Field> = Vec::new();
    headers.push(
        Field { name: String::from_str("Accept"), value: String::from_str("application/json") },
    );
    headers.push(
        Field {
            name: String::from_str("Content-Type"),
            value: String::from_str("application/json"),
        },
    );
    assert(fields_view(headers@) =~= json_headers());
    headers
}

/// What came of one attempt to send a request.
#[derive(Debug)]
pub enum Reply {
    /// The server answered; `success` says whether its status was one of
    /// success.
    Status { success: bool },
    /// No answer came, for the given reason.
    Failed { reason: String },
}

/// Mathematical content of a [`Reply`].
pub enum ReplyView {
    Status { success: bool },
    Failed { reason: Seq<char> },
}

impl View for Reply {
    type V = ReplyView;

    open spec fn view(&self) -> ReplyView {
        match self {
            Reply::Status { success } => ReplyView::Status { success: *success },
            Reply::Failed { reason } => ReplyView::Failed { reason: reason@ },
        }
    }
}

/// What follows an attempt to send a notification.
#[derive(Debug)]
pub enum SendStep {
    /// The notification was delivered, or is given up with an error.
    Done(Result<(), BackupError>),
    /// Pause, then make the attempt with the given number.
    Retry { pause_seconds: u64, attempt: u32 },
}

/// Mathematical content of a [`SendStep`].
pub enum SendStepView {
    Done(Result<(), BackupErrorView>),
    Retry { pause_seconds: u64, attempt: u32 },
}

impl View for SendStep {
    type V = SendStepView;

    open spec fn view(&self) -> SendStepView {
        match *self {
            SendStep::Done(r) => SendStepView::Done(unit_result_view(r)),
            SendStep::Retry { pause_seconds, attempt } => SendStepView::Retry {
                pause_seconds,
                attempt,
            },
        }
    }
}

/// Something that can be told about the result of a backup.
pub trait Notification {
    /// The request that delivers the notification.
    spec fn request_view(&self) -> RequestView;

    /// What follows the attempt with number `attempt`, counted from zero,
    /// that got `reply`.
    spec fn next_step(&self, attempt: u32, reply: ReplyView) -> SendStepView;

    /// The request that delivers the notification.
    fn request(&self) -> (request: Request)
        ensures
            request@ == self.request_view(),
    ;

    /// Decides what follows the attempt with number `attempt`, counted from
    /// zero, that got `reply`.
    fn send_notification(&self, attempt: u32, reply: &Reply) -> (step: SendStep)
        ensures
            step@ == self.next_step(attempt, reply@),
    ;
}

/// A notification for a Gotify server.
#[derive(Debug)]
pub struct Gotify {
    pub message: Option<String>,
    pub url: String,
    pub success: bool,
}

/// A notification for a Discord webhook.
#[derive(Debug)]
pub struct Discord {
    pub message: Option<String>,
    pub url: String,
    pub success: bool,
}

/// The text of an optional message.
pub open spec fn message_view(message: Option<String>) -> Option<Seq<char>> {
    match message {
        Some(text) => Some(text@),
        None => None,
    }
}

/// The text that Gotify shows: the message, or a general text if there is
/// none.
pub open spec fn gotify_message(message: Option<Seq<char>>, success: bool) -> Seq<char> {
    match message {
        Some(text) => text,
        None => if success {
            "Backup successful"@
        } else {
            "Backup failed"@
        },
    }
}

/// How often a notification for Gotify is tried.
pub const GOTIFY_ATTEMPTS: u32 = 10;

/// The seconds between two attempts to notify Gotify.
pub const GOTIFY_PAUSE_SECONDS: u64 = 10;

/// The error of a notification for Gotify that is given up.
pub open spec fn gotify_given_up() -> BackupErrorView {
    error_view(ErrorKind::Io, "Error sending request to gotify after 10 attempts"@)
}

/// The body that tells Discord about a backup.
pub open spec fn discord_body(message: Option<Seq<char>>, success: bool) -> Seq<char> {
    "\n        {\n            \"embeds\": [\n                {\n                    \"title\": \"Docker backup result\",\n                    \"fields\": [\n                        "@
        + "{\n            \"name\": \"Status\",\n            \"value\": \""@ + (if success {
        "Success"@
    } else {
        "Failed"@
    }) + "\"\n        }"@ + "\n                        "@
        + ",{\n            \"name\": \"Message\",\n            \"value\": \""@ + (match message {
        Some(text) => text,
        None => "No message"@,
    }) + "\"\n        }"@
        + "\n                    ]\n                }\n            ]\n        }\n    "@
}

/// The error of a notification that Discord did not accept.
pub open spec fn discord_refused() -> BackupErrorView {
    error_view(ErrorKind::Io, "Error sending notification to discord"@)
}

impl Notification for Gotify {
    open spec fn request_view(&self) -> RequestView {
        RequestView {
            url: self.url@,
            headers: json_headers(),
            body: BodyView::Json {
                fields: seq![
                    ("title"@, "Backup result"@),
                    ("message"@, gotify_message(message_view(self.message), self.success)),
                ],
            },
        }
    }

    /// An attempt that the server answered with success ends the sending.
    /// After any other a pause and the next attempt follow, until the
    /// attempts are used up.
    open spec fn next_step(&self, attempt: u32, reply: ReplyView) -> SendStepView {
        if reply == (ReplyView::Status { success: true }) {
            SendStepView::Done(Ok(()))
        } else if attempt + 1 < GOTIFY_ATTEMPTS {
            SendStepView::Retry {
                pause_seconds: GOTIFY_PAUSE_SECONDS,
                attempt: (attempt + 1) as u32,
            }
        } else {
            SendStepView::Done(Err(gotify_given_up()))
        }
    }

    fn request(&self) -> (request: Request) {
        let text = match &self.message {
            Some(text) => text.clone(),
            None => if self.success {
                String::from_str("Backup successful")
            } else {
                String::from_str("Backup failed")
            },
        };
        let mut fields: Vec<Field> = Vec::new();
        fields.push(
            Field { name: String::from_str("title"), value: String::from_str("Backup result") },
        );
        fields.push(Field { name: String::from_str("message"), value: text });
        assert(fields_view(fields@) =~= seq![
            ("title"@, "Backup result"@),
            ("message"@, gotify_message(message_view(self.message), self.success)),
        ]);
        Request { url: self.url.clone(), headers: make_json_headers(), body: Body::Json { fields } }
    }

    fn send_notification(&self, attempt: u32, reply: &Reply) -> (step: SendStep) {
        let delivered = match reply {
            Reply::Status { success } => *success,
            Reply::Failed { reason } => false,
        };
        if delivered {
            SendStep::Done(Ok(()))
        } else if attempt < GOTIFY_ATTEMPTS - 1 {
            SendStep::Retry { pause_seconds: GOTIFY_PAUSE_SECONDS, attempt: attempt + 1 }
        } else {
            SendStep::Done(
                Err(
                    BackupError::with_kind(
                        ErrorKind::Io,
                        "Error sending request to gotify after 10 attempts",
                    ),
                ),
            )
        }
    }
}

impl Notification for Discord {
    open spec fn request_view(&self) -> RequestView {
        RequestView {
            url: self.url@,
            headers: json_headers(),
            body: BodyView::Text {
                content: discord_body(message_view(self.message), self.success),
            },
        }
    }

    /// One attempt is all: it succeeds if the server answered with success.
    open spec fn next_step(&self, attempt: u32, reply: ReplyView) -> SendStepView {
        match reply {
            ReplyView::Status { success } => if success {
                SendStepView::Done(Ok(()))
            } else {
                SendStepView::Done(Err(discord_refused()))
            },
            ReplyView::Failed { reason } => SendStepView::Done(
                Err(error_view(ErrorKind::Io, reason)),
            ),
        }
    }

    fn request(&self) -> (request: Request) {
        let mut content = String::from_str(
            "\n        {\n            \"embeds\": [\n                {\n                    \"title\": \"Docker backup result\",\n                    \"fields\": [\n                        ",
        );
        content.append("{\n            \"name\": \"Status\",\n            \"value\": \"");
        if self.success {
            content.append("Success");
        } else {
            content.append("Failed");
        }
        content.append("\"\n        }");
        content.append("\n                        ");
        content.append(",{\n            \"name\": \"Message\",\n            \"value\": \"");
        match &self.message {
            Some(text) => {
                content.append(text.as_str());
            },
            None => {
                content.append("No message");
            },
        }
        content.append("\"\n        }");
        content.append("\n                    ]\n                }\n            ]\n        }\n    ");
        Request {
            url: self.url.clone(),
            headers: make_json_headers(),
            body: Body::Text { content },
        }
    }

    fn send_notification(&self, attempt: u32, reply: &Reply) -> (step: SendStep) {
        match reply {
            Reply::Status { success } => {
                if *success {
                    SendStep::Done(Ok(()))
                } else {
                    SendStep::Done(
                        Err(
                            BackupError::with_kind(
                                ErrorKind::Io,
                                "Error sending notification to discord",
                            ),
                        ),
                    )
                }
            },
            Reply::Failed { reason } => SendStep::Done(
                Err(BackupError::with_kind(ErrorKind::Io, reason.as_str())),
            ),
        }
    }
}

/// Decides what follows the attempt with number `attempt`, counted from
/// zero, to deliver `notification`.
pub fn send_notification<T: Notification>(
    notification: &T,
    attempt: u32,
    reply: &Reply,
) -> (step: SendStep)
    ensures
        step@ == notification.next_step(attempt, reply@),
{
    notification.send_notification(attempt, reply)
}

} // verus!
