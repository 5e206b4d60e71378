//! What the checks of a configuration found.

use vstd::prelude::*;
use crate::json::{self, Doc, Json};
use crate::table::Table;
use crate::text;

verus! {

/// How a check ended.
#[derive(Clone, Copy, PartialEq, Eq, Structural)]
pub enum Status {
    Pass,
    Fail,
    Skip,
}

impl Status {
    /// How a check ended, in words.
    pub open spec fn word(self) -> Seq<char> {
        match self {
            Status::Pass => "PASS"@,
            Status::Fail => "FAIL"@,
            Status::Skip => "SKIP"@,
        }
    }

    /// How a check ended, in words.
    pub fn text(self) -> (result: &'static str)
        ensures
            result@ == self.word(),
    {
        match self {
            Status::Pass => "PASS",
            Status::Fail => "FAIL",
            Status::Skip => "SKIP",
        }
    }
}

/// What a check found.
pub struct Check {
    pub id: String,
    pub status: Status,
    pub summary: String,
    pub why: String,
    pub evidence: Vec<String>,
    pub next: Vec<String>,
}

impl Check {
    /// A check with nothing but its summary.
    pub fn new(id: &str, status: Status, summary: &str) -> (result: Check)
        ensures
            result.id@ == id@,
            result.status == status,
            result.summary@ == summary@,
            result.why@.len() == 0,
            result.evidence@.len() == 0,
            result.next@.len() == 0,
    {
        Check {
            id: id.to_owned(),
            status,
            summary: summary.to_owned(),
            why: String::new(),
            evidence: Vec::new(),
            next: Vec::new(),
        }
    }

    /// A check that found nothing wrong.
    pub fn pass(id: &str, summary: &str) -> (result: Check)
        ensures
            result.id@ == id@,
            result.status == Status::Pass,
            result.summary@ == summary@,
            result.why@.len() == 0,
            result.evidence@.len() == 0,
            result.next@.len() == 0,
    {
        Check::new(id, Status::Pass, summary)
    }

    /// A check that was left out.
    pub fn skip(id: &str, summary: &str) -> (result: Check)
        ensures
            result.id@ == id@,
            result.status == Status::Skip,
            result.summary@ == summary@,
            result.why@.len() == 0,
            result.evidence@.len() == 0,
            result.next@.len() == 0,
    {
        Check::new(id, Status::Skip, summary)
    }

    /// A check that found an error, which is its evidence.
    pub fn fail(id: &str, error: &str) -> (result: Check)
        ensures
            result.id@ == id@,
            result.status == Status::Fail,
            result.summary@ == error@,
            result.why@.len() == 0,
            text::views(result.evidence@) == seq![error@],
            result.next@.len() == 0,
    {
        let mut check = Check::new(id, Status::Fail, error);
        check.evidence.push(error.to_owned());
        assert(text::views(check.evidence@) =~= seq![error@]);
        check
    }

    /// What is told of a check, without what is empty.
    pub open spec fn document_of(self) -> Doc {
        Doc::object().with("id"@, Doc::Text(self.id@)).with(
            "status"@,
            Doc::Text(self.status.word()),
        ).with("summary"@, Doc::Text(self.summary@)).with_if(
            self.why@.len() > 0,
            "why"@,
            Doc::Text(self.why@),
        ).with_if(
            self.evidence@.len() > 0,
            "evidence"@,
            json::texts(text::views(self.evidence@)),
        ).with_if(self.next@.len() > 0, "next"@, json::texts(text::views(self.next@)))
    }

    /// What is told of a check, without what is empty.
    pub fn document(&self) -> (result: Json)
        ensures
            result.doc() == self.document_of(),
    {
        Json::object().with("id", Json::text(&self.id)).with(
            "status",
            Json::text(self.status.text()),
        ).with("summary", Json::text(&self.summary)).with_if(
            !self.why.is_empty(),
            "why",
            Json::text(&self.why),
        ).with_if(self.evidence.len() > 0, "evidence", Json::texts(&self.evidence)).with_if(
            self.next.len() > 0,
            "next",
            Json::texts(&self.next),
        )
    }
}

/// The names of the checks that found an error, in their order.
pub open spec fn failed_of(checks: Seq<Check>) -> Seq<Seq<char>>
    decreases checks.len(),
{
    if checks.len() == 0 {
        Seq::empty()
    } else {
        let rest = failed_of(checks.drop_last());
        if checks.last().status == Status::Fail {
            rest.push(checks.last().id@)
        } else {
            rest
        }
    }
}

/// What the server of a channel answered at first.
#[derive(Clone, Copy, Debug, PartialEq, Eq, Structural)]
pub struct Probe {
    pub status: u16,
    pub authentication_required: bool,
    /// How many tools it offers, where it was asked.
    pub tools: Option<u64>,
}

/// What all checks found.
pub struct Report {
    pub result: String,
    pub failed_checks: Vec<String>,
    pub next: String,
    pub checks: Vec<Check>,
    /// What the servers of channels answered, which is not told.
    pub channels: Table<Probe>,
}

impl Report {
    /// What all checks found, and what to do next where that was nothing wrong.
    pub fn new(checks: Vec<Check>, channels: Table<Probe>, next: String) -> (result: Report)
        ensures
            result.channels == channels,
            text::views(result.failed_checks@) == failed_of(checks@),
            result.checks == checks,
            result.is_ok() ==> result.result@ == "ok"@ && result.next@ == next@,
            !result.is_ok() ==> result.result@ == "fail"@ && result.next@.len() == 0,
    {
        let mut failed: Vec<String> = Vec::new();
        let mut index: usize = 0;
        assert(text::views(failed@) == Seq::<Seq<char>>::empty());
        while index < checks.len()
            invariant
                index <= checks.len(),
                text::views(failed@) == failed_of(checks@.take(index as int)),
            decreases checks.len() - index,
        {
            proof {
                assert(checks@.take(index + 1).drop_last() == checks@.take(index as int));
                assert(checks@.take(index + 1).last() == checks@[index as int]);
            }
            if let Status::Fail = checks[index].status {
                let id = checks[index].id.clone();
                assert(text::views(failed@.push(id)) == text::views(failed@).push(id@));
                failed.push(id);
            }
            index = index + 1;
        }
        assert(checks@.take(checks@.len() as int) == checks@);
        let passed = failed.len() == 0;
        Report {
            result: if passed {
                "ok".to_owned()
            } else {
                "fail".to_owned()
            },
            failed_checks: failed,
            next: if passed {
                next
            } else {
                String::new()
            },
            checks,
            channels,
        }
    }

    /// Whether no check found an error.
    pub open spec fn is_ok(self) -> bool {
        self.failed_checks@.len() == 0
    }

    /// Whether no check found an error.
    pub fn passed(&self) -> (result: bool)
        ensures
            result == self.is_ok(),
    {
        self.failed_checks.len() == 0
    }

    /// What is told of the checks.
    pub open spec fn document_of(self) -> Doc {
        Doc::object().with("result"@, Doc::Text(self.result@)).with_if(
            self.failed_checks@.len() > 0,
            "failed_checks"@,
            json::texts(text::views(self.failed_checks@)),
        ).with_if(self.next@.len() > 0, "next"@, Doc::Text(self.next@)).with(
            "checks"@,
            Doc::List(self.checks@.map_values(|check: Check| check.document_of())),
        )
    }

    /// What is told of the checks.
    pub fn document(&self) -> (result: Json)
        ensures
            result.doc() == self.document_of(),
    {
        let ghost all = self.checks@.map_values(|check: Check| check.document_of());
        let mut items: Vec<Json> = Vec::new();
        let mut index: usize = 0;
        while index < self.checks.len()
            invariant
                index <= self.checks.len(),
                all == self.checks@.map_values(|check: Check| check.document_of()),
                json::docs(items@) == all.take(index as int),
            decreases self.checks.len() - index,
        {
            let item = self.checks[index].document();
            proof {
                json::lemma_docs_push(items@, item);
                assert(all.take(index + 1) == all.take(index as int).push(item.doc()));
            }
            items.push(item);
            index = index + 1;
        }
        assert(all.take(all.len() as int) == all);
        Json::object().with("result", Json::text(&self.result)).with_if(
            self.failed_checks.len() > 0,
            "failed_checks",
            Json::texts(&self.failed_checks),
        ).with_if(!self.next.is_empty(), "next", Json::text(&self.next)).with(
            "checks",
            Json::List(items),
        )
    }
}

/// A report is in order if and only if no check found an error.
pub proof fn lemma_failed(checks: Seq<Check>)
    ensures
        failed_of(checks).len() == 0 <==> forall|i: int|
            0 <= i < checks.len() ==> (#[trigger] checks[i]).status != Status::Fail,
    decreases checks.len(),
{
    if checks.len() > 0 {
        lemma_failed(checks.drop_last());
        assert forall|i: int| 0 <= i < checks.drop_last().len() implies (
        #[trigger] checks.drop_last()[i]) == checks[i] by {}
        if failed_of(checks).len() == 0 {
            assert forall|i: int| 0 <= i < checks.len() implies (#[trigger] checks[i]).status
                != Status::Fail by {
                if i < checks.len() - 1 {
                    assert(checks.drop_last()[i].status != Status::Fail);
                }
            }
        }
        if forall|i: int|
            0 <= i < checks.len() ==> (#[trigger] checks[i]).status != Status::Fail {
            assert forall|i: int| 0 <= i < checks.drop_last().len() implies (
            #[trigger] checks.drop_last()[i]).status != Status::Fail by {
                assert(checks[i].status != Status::Fail);
            }
            assert(checks[checks.len() - 1].status != Status::Fail);
        }
    }
}

/// A report is well where no check failed, and names every check that did.
pub proof fn lemma_report_names(checks: Seq<Check>, at: int)
    ensures
        0 <= at < checks.len() && checks[at].status == Status::Fail ==> failed_of(checks).contains(
            checks[at].id@,
        ),
        failed_of(checks).len() <= checks.len(),
        Status::Pass.word() == "PASS"@ && Status::Fail.word() == "FAIL"@ && Status::Skip.word() == "SKIP"@,
    decreases checks.len(),
{
    if checks.len() > 0 {
        let front = checks.drop_last();
        let rest = failed_of(front);
        let all = failed_of(checks);
        lemma_report_names(front, at);
        if 0 <= at < checks.len() && checks[at].status == Status::Fail {
            if at < front.len() {
                assert(front[at] == checks[at]);
                let i = choose|i: int| 0 <= i < rest.len() && rest[i] == checks[at].id@;
                assert(all[i] == rest[i]);
            } else {
                assert(all.last() == checks[at].id@);
            }
        }
    }
}

/// What is told of a check: its name, how it went, and what it says.
pub proof fn lemma_check_told(check: Check)
    ensures
        check.document_of().at("id"@) == Doc::Text(check.id@),
        check.document_of().at("status"@) == Doc::Text(check.status.word()),
        check.document_of().at("summary"@) == Doc::Text(check.summary@),
        check.why@.len() > 0 ==> check.document_of().at("why"@) == Doc::Text(check.why@),
        check.evidence@.len() > 0 ==> check.document_of().at("evidence"@) == json::texts(
            text::views(check.evidence@),
        ),
        check.next@.len() > 0 ==> check.document_of().at("next"@) == json::texts(text::views(check.next@)),
{
    reveal_strlit("id");
    reveal_strlit("status");
    reveal_strlit("summary");
    reveal_strlit("why");
    reveal_strlit("evidence");
    reveal_strlit("next");
    assert("id"@.len() == 2);
    assert("status"@.len() == 6);
    assert("summary"@.len() == 7);
    assert("why"@.len() == 3);
    assert("evidence"@.len() == 8);
    assert("next"@.len() == 4);
}

/// What is told of a report: its result, the failed checks where there are any, and each check.
pub proof fn lemma_report_told(report: Report, at: int)
    ensures
        ({
            let doc = report.document_of();
            &&& doc.at("result"@) == Doc::Text(report.result@)
            &&& report.failed_checks@.len() > 0 ==> doc.at("failed_checks"@) == json::texts(
                text::views(report.failed_checks@),
            )
            &&& report.failed_checks@.len() == 0 ==> doc.at("failed_checks"@) == Doc::Null
            &&& report.next@.len() > 0 ==> doc.at("next"@) == Doc::Text(report.next@)
            &&& report.next@.len() == 0 ==> doc.at("next"@) == Doc::Null
            &&& doc.at("checks"@) matches Doc::List(items) && items.len() == report.checks@.len() && (0 <= at
                < items.len() ==> items[at] == report.checks@[at].document_of())
        }),
        report.is_ok() <==> report.failed_checks@.len() == 0,
{
    reveal_strlit("result");
    reveal_strlit("failed_checks");
    reveal_strlit("next");
    reveal_strlit("checks");
    assert("result"@.len() == 6 && "result"@[0] == 'r');
    assert("failed_checks"@.len() == 13);
    assert("next"@.len() == 4);
    assert("checks"@.len() == 6 && "checks"@[0] == 'c');
}

} // verus!
