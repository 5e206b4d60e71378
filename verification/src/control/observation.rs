//! What has been seen of the service.

use vstd::prelude::*;

verus! {

/// Why a request to the service failed.
#[derive(Clone, Copy, Debug, PartialEq, Eq, Structural)]
pub enum Failure {
    /// The service answered with an error.
    Status(u16),
    /// The time ran out.
    Timeout,
    /// The network failed.
    Network,
    /// Anything else.
    Other,
}

/// The category of a failure.
pub open spec fn category_of(failure: Failure) -> Seq<char> {
    match failure {
        Failure::Status(_) => "http_error"@,
        Failure::Timeout => "timeout"@,
        Failure::Network => "network_error"@,
        Failure::Other => "request_error"@,
    }
}

/// The category of a failure.
pub fn category(failure: Failure) -> (result: String)
    ensures
        result@ == category_of(failure),
{
    match failure {
        Failure::Status(_) => "http_error".to_owned(),
        Failure::Timeout => "timeout".to_owned(),
        Failure::Network => "network_error".to_owned(),
        Failure::Other => "request_error".to_owned(),
    }
}

/// The status of a failure, zero where there was no answer.
pub open spec fn status_of(failure: Failure) -> u16 {
    match failure {
        Failure::Status(status) => status,
        _ => 0,
    }
}

/// The answers that are being delivered or have been. Times are nanoseconds since 1970, zero where
/// nothing happened.
#[derive(Clone)]
pub struct Upload {
    pub in_progress: u64,
    pub last_accepted: u64,
    pub last_completed: u64,
    pub last_failure: u64,
    pub disposition: String,
    pub failure_category: String,
    pub http_status: u16,
    pub attempts: u64,
    pub retries: u64,
    pub accepted: u64,
    pub completed: u64,
    pub terminal_failures: u64,
}

/// The contents of [`Upload`].
#[verifier::ext_equal]
pub struct UploadView {
    pub in_progress: u64,
    pub last_accepted: u64,
    pub last_completed: u64,
    pub last_failure: u64,
    pub disposition: Seq<char>,
    pub failure_category: Seq<char>,
    pub http_status: u16,
    pub attempts: u64,
    pub retries: u64,
    pub accepted: u64,
    pub completed: u64,
    pub terminal_failures: u64,
}

impl View for Upload {
    type V = UploadView;

    open spec fn view(&self) -> UploadView {
        UploadView {
            in_progress: self.in_progress,
            last_accepted: self.last_accepted,
            last_completed: self.last_completed,
            last_failure: self.last_failure,
            disposition: self.disposition@,
            failure_category: self.failure_category@,
            http_status: self.http_status,
            attempts: self.attempts,
            retries: self.retries,
            accepted: self.accepted,
            completed: self.completed,
            terminal_failures: self.terminal_failures,
        }
    }
}

/// How a delivery ended.
#[derive(Clone, Copy, Debug, PartialEq, Eq, Structural)]
pub enum Delivered {
    /// The service took the answer.
    Status(u16),
    /// The delivery was given up.
    Failed(Failure),
    /// The delivery was abandoned.
    Canceled,
}

impl UploadView {
    /// Whether another event can be counted.
    pub open spec fn has_room(self) -> bool {
        &&& self.in_progress < u64::MAX
        &&& self.attempts < u64::MAX
        &&& self.retries < u64::MAX
        &&& self.accepted < u64::MAX
        &&& self.completed < u64::MAX
        &&& self.terminal_failures < u64::MAX
    }

    /// After a delivery has begun.
    pub open spec fn begun(self) -> UploadView {
        UploadView { in_progress: (self.in_progress + 1) as u64, ..self }
    }

    /// After an attempt has begun.
    pub open spec fn tried(self, retry: bool) -> UploadView {
        UploadView {
            attempts: (self.attempts + 1) as u64,
            retries: if retry {
                (self.retries + 1) as u64
            } else {
                self.retries
            },
            ..self
        }
    }

    /// After an attempt has failed.
    pub open spec fn stumbled(self, failure: Failure, now: u64) -> UploadView {
        UploadView {
            last_failure: now,
            failure_category: category_of(failure),
            http_status: status_of(failure),
            ..self
        }
    }

    /// After a delivery has ended. An answer that nobody waits for any more counts as delivered, but
    /// not as accepted.
    pub open spec fn ended(self, outcome: Delivered, now: u64) -> UploadView {
        let base = UploadView {
            in_progress: (self.in_progress - 1) as u64,
            last_completed: now,
            ..self
        };
        match outcome {
            Delivered::Status(404) => UploadView {
                disposition: "already_fulfilled_or_unknown"@,
                failure_category: Seq::empty(),
                http_status: 404,
                completed: (self.completed + 1) as u64,
                ..base
            },
            Delivered::Status(status) => UploadView {
                disposition: "accepted"@,
                failure_category: Seq::empty(),
                http_status: status,
                completed: (self.completed + 1) as u64,
                accepted: (self.accepted + 1) as u64,
                last_accepted: now,
                ..base
            },
            Delivered::Failed(failure) => UploadView {
                disposition: "failed"@,
                failure_category: category_of(failure),
                http_status: status_of(failure),
                last_failure: now,
                terminal_failures: (self.terminal_failures + 1) as u64,
                ..base
            },
            Delivered::Canceled => UploadView {
                disposition: "canceled"@,
                failure_category: "canceled"@,
                http_status: 0,
                ..base
            },
        }
    }
}

impl Upload {
    /// What is known before the first delivery.
    pub fn new() -> (result: Upload)
        ensures
            result@ == (UploadView {
                in_progress: 0,
                last_accepted: 0,
                last_completed: 0,
                last_failure: 0,
                disposition: "not_observed"@,
                failure_category: Seq::empty(),
                http_status: 0,
                attempts: 0,
                retries: 0,
                accepted: 0,
                completed: 0,
                terminal_failures: 0,
            }),
    {
        let result = Upload {
            in_progress: 0,
            last_accepted: 0,
            last_completed: 0,
            last_failure: 0,
            disposition: "not_observed".to_owned(),
            failure_category: String::new(),
            http_status: 0,
            attempts: 0,
            retries: 0,
            accepted: 0,
            completed: 0,
            terminal_failures: 0,
        };
        assert(result@.failure_category =~= Seq::empty());
        result
    }

    /// A delivery begins.
    pub fn begin(&mut self)
        requires
            old(self)@.has_room(),
        ensures
            final(self)@ == old(self)@.begun(),
    {
        self.in_progress = self.in_progress + 1;
    }

    /// An attempt begins.
    pub fn attempt(&mut self, retry: bool)
        requires
            old(self)@.has_room(),
        ensures
            final(self)@ == old(self)@.tried(retry),
    {
        self.attempts = self.attempts + 1;
        if retry {
            self.retries = self.retries + 1;
        }
    }

    /// An attempt fails.
    pub fn failure(&mut self, failure: Failure, now: u64)
        ensures
            final(self)@ == old(self)@.stumbled(failure, now),
    {
        self.last_failure = now;
        self.failure_category = category(failure);
        self.http_status = match failure {
            Failure::Status(status) => status,
            _ => 0,
        };
    }

    /// A delivery ends.
    pub fn finish(&mut self, outcome: Delivered, now: u64)
        requires
            old(self)@.has_room(),
            old(self)@.in_progress > 0,
        ensures
            final(self)@ == old(self)@.ended(outcome, now),
    {
        self.in_progress = self.in_progress - 1;
        self.last_completed = now;
        match outcome {
            Delivered::Status(status) => {
                self.failure_category = String::new();
                self.http_status = status;
                self.completed = self.completed + 1;
                if status == 404 {
                    self.disposition = "already_fulfilled_or_unknown".to_owned();
                } else {
                    self.disposition = "accepted".to_owned();
                    self.accepted = self.accepted + 1;
                    self.last_accepted = now;
                }
            },
            Delivered::Failed(failure) => {
                self.disposition = "failed".to_owned();
                self.failure_category = category(failure);
                self.http_status = match failure {
                    Failure::Status(status) => status,
                    _ => 0,
                };
                self.last_failure = now;
                self.terminal_failures = self.terminal_failures + 1;
            },
            Delivered::Canceled => {
                self.disposition = "canceled".to_owned();
                self.failure_category = "canceled".to_owned();
                self.http_status = 0;
            },
        }
    }
}

/// A delivery that has begun and ended leaves as many in progress as before.
pub proof fn lemma_progress_balanced(upload: UploadView, outcome: Delivered, now: u64)
    requires
        upload.has_room(),
    ensures
        upload.begun().ended(outcome, now).in_progress == upload.in_progress,
{
}

/// Nothing is accepted that is not delivered.
pub proof fn lemma_accepted_delivered(upload: UploadView, outcome: Delivered, now: u64)
    requires
        upload.has_room(),
        upload.accepted <= upload.completed,
    ensures
        upload.ended(outcome, now).accepted <= upload.ended(outcome, now).completed,
{
}

/// An answer that is delivered counts as completed, and as accepted unless the service did not know the request any
/// more; a failure counts as one, and a canceled answer as neither.
pub proof fn lemma_delivery_counted(upload: UploadView, outcome: Delivered, now: u64)
    requires
        upload.has_room(),
        upload.in_progress > 0,
    ensures
        ({
            let after = upload.ended(outcome, now);
            &&& after.in_progress == upload.in_progress - 1
            &&& after.last_completed == now
            &&& outcome == Delivered::Status(404) ==> after.completed == upload.completed + 1
                && after.accepted == upload.accepted && after.disposition
                == "already_fulfilled_or_unknown"@ && after.http_status == 404
            &&& outcome == Delivered::Status(200) ==> after.completed == upload.completed + 1
                && after.accepted == upload.accepted + 1 && after.disposition == "accepted"@
                && after.last_accepted == now && after.http_status == 200
            &&& outcome is Failed ==> after.terminal_failures == upload.terminal_failures + 1
                && after.completed == upload.completed && after.disposition == "failed"@
                && after.last_failure == now
            &&& outcome is Canceled ==> after.terminal_failures == upload.terminal_failures
                && after.completed == upload.completed && after.disposition == "canceled"@
        }),
        upload.tried(true).retries == upload.retries + 1,
        upload.tried(false).retries == upload.retries,
        upload.tried(true).attempts == upload.attempts + 1 && upload.tried(false).attempts
            == upload.attempts + 1,
{
}

/// The words for failures, and the status that only a refusal has.
pub proof fn lemma_failure_words(status: u16)
    ensures
        category_of(Failure::Status(status)) == "http_error"@,
        category_of(Failure::Timeout) == "timeout"@,
        category_of(Failure::Network) == "network_error"@,
        category_of(Failure::Other) == "request_error"@,
        status_of(Failure::Status(status)) == status,
        status_of(Failure::Timeout) == 0 && status_of(Failure::Network) == 0 && status_of(Failure::Other)
            == 0,
{
}

} // verus!
