//! Where the service wants to be polled.

use vstd::prelude::*;
use crate::json::record::{option_views, record, record_of};
use crate::json::{self, parsed_json, Json};
use crate::{header, text};

verus! {

/// A correction of the route: the token that a poll has to carry, and the revision of the policy that
/// it belongs to.
pub struct Correction {
    pub revision: u64,
    pub token: Vec<u8>,
}

/// The contents of [`Correction`].
#[verifier::ext_equal]
pub struct CorrectionView {
    pub revision: u64,
    pub token: Seq<u8>,
}

impl View for Correction {
    type V = CorrectionView;

    open spec fn view(&self) -> CorrectionView {
        CorrectionView { revision: self.revision, token: self.token@ }
    }
}

impl Clone for Correction {
    fn clone(&self) -> (result: Correction)
        ensures
            result@ == self@,
    {
        Correction { revision: self.revision, token: self.token.clone() }
    }
}

/// A byte of a token.
pub open spec fn is_token_byte(byte: u8) -> bool {
    0x21 <= byte <= 0x7e && byte != 44
}

/// Whether the bytes are a token.
pub open spec fn is_token(value: Seq<u8>) -> bool {
    &&& 1 <= value.len() <= 4096
    &&& forall|i: int| 0 <= i < value.len() ==> is_token_byte(#[trigger] value[i])
}

fn token(value: &Vec<u8>) -> (result: bool)
    ensures
        result == is_token(value@),
{
    if value.len() == 0 || value.len() > 4096 {
        return false;
    }
    let mut index: usize = 0;
    while index < value.len()
        invariant
            index <= value.len(),
            1 <= value@.len() <= 4096,
            forall|i: int| 0 <= i < index ==> is_token_byte(#[trigger] value@[i]),
        decreases value.len() - index,
    {
        let byte: u8 = value[index];
        if !(byte >= 0x21 && byte <= 0x7e && byte != 44) {
            assert(!is_token_byte(value@[index as int]));
            return false;
        }
        index = index + 1;
    }
    true
}

/// The largest revision of a policy.
pub const MAX_REVISION: u64 = 9_007_199_254_740_991;

/// The revision that a raw number stands for.
pub open spec fn revision_of(raw: Seq<char>) -> Option<u64> {
    if raw.len() <= 16 && text::all_digits(raw) && text::digits_value(raw) <= MAX_REVISION {
        Some(text::digits_value(raw) as u64)
    } else {
        None
    }
}

fn revision(raw: &str) -> (result: Option<u64>)
    ensures
        result == revision_of(raw@),
{
    let all = text::chars(raw);
    if all.len() > 16 || all.len() == 0 || all[0] == '+' {
        return None;
    }
    match text::unsigned(raw) {
        Some(number) => if number <= MAX_REVISION {
            Some(number)
        } else {
            None
        },
        None => None,
    }
}

/// The string that a raw value stands for.
pub open spec fn string_of(raw: Seq<char>) -> Option<Seq<char>> {
    match parsed_json(raw) {
        Some(doc) => doc.text(),
        None => None,
    }
}

fn string(raw: &str) -> (result: Option<String>)
    ensures
        text::view_of(result) == string_of(raw@),
{
    match json::parse(raw) {
        Some(Json::Text(value)) => Some(value),
        _ => None,
    }
}

/// The correction of an error whose code says that the poll came to the wrong place. It is malformed
/// where it does not hold one token in a header and its revision.
pub open spec fn metadata_correction(
    entries: Map<Seq<char>, Seq<Seq<u8>>>,
    code: Option<Seq<char>>,
    revision: Option<Seq<char>>,
    token: Option<Seq<char>>,
) -> Result<Option<CorrectionView>, ()> {
    let values = header::values_in(entries, "x-tunnel-shard-token"@);
    if !(code is Some && string_of(code->0) == Some("wrong_cluster"@)) {
        Ok(None)
    } else if values.len() != 1 || !is_token(values[0]) {
        Err(())
    } else if token is Some && !(string_of(token->0) is Some && vstd::utf8::encode_utf8(
        string_of(token->0)->0,
    ) == values[0]) {
        Err(())
    } else if revision is None {
        Err(())
    } else {
        match revision_of(revision->0) {
            Some(revision) => Ok(Some(CorrectionView { revision, token: values[0] })),
            None => Err(()),
        }
    }
}

/// The fields of an error that corrects the route.
pub open spec fn correction_names() -> Seq<Seq<char>> {
    seq!["code"@, "policy_revision"@, "shard_token"@]
}

/// The correction that an answer holds, if any; an error where it is malformed.
pub open spec fn correction_of(entries: Map<Seq<char>, Seq<Seq<u8>>>, body: Seq<u8>) -> Result<
    Option<CorrectionView>,
    (),
> {
    match text::utf8_text(body) {
        None => Err(()),
        Some(inner) => match record_of(inner, seq!["error"@], true) {
            Err(_) => Err(()),
            Ok(envelope) => match envelope[0] {
                None => Ok(None),
                Some(error) => match record_of(error, correction_names(), true) {
                    Err(_) => Err(()),
                    Ok(fields) => metadata_correction(entries, fields[0], fields[1], fields[2]),
                },
            },
        },
    }
}

impl Correction {
    /// The correction that an answer holds.
    pub fn parse(headers: &header::Headers, body: &Vec<u8>) -> (result: Result<
        Option<Correction>,
        (),
    >)
        ensures
            match (result, correction_of(header::header_entries(*headers), body@)) {
                (Ok(Some(found)), Ok(Some(expected))) => found@ == expected,
                (Ok(None), Ok(None)) => true,
                (Err(_), Err(_)) => true,
                _ => false,
            },
    {
        let inner = match text::from_utf8(body) {
            Some(inner) => inner,
            None => {
                return Err(());
            },
        };
        let mut outer: Vec<String> = Vec::new();
        outer.push("error".to_owned());
        assert(text::views(outer@) =~= seq!["error"@]);
        let envelope = match record(&inner, &outer, true) {
            Ok(envelope) => envelope,
            Err(_) => {
                return Err(());
            },
        };
        assert(option_views(envelope@)[0] == text::view_of(envelope@[0]));
        let error = match &envelope[0] {
            Some(error) => error,
            None => {
                return Ok(None);
            },
        };
        let mut names: Vec<String> = Vec::new();
        names.push("code".to_owned());
        names.push("policy_revision".to_owned());
        names.push("shard_token".to_owned());
        assert(text::views(names@) =~= correction_names());
        let fields = match record(error, &names, true) {
            Ok(fields) => fields,
            Err(_) => {
                return Err(());
            },
        };
        proof {
            let views = option_views(fields@);
            assert(views[0] == text::view_of(fields@[0]));
            assert(views[1] == text::view_of(fields@[1]));
            assert(views[2] == text::view_of(fields@[2]));
        }
        let code = match &fields[0] {
            Some(raw) => string(raw),
            None => None,
        };
        let wrong = match &code {
            Some(code) => text::same(code, "wrong_cluster"),
            None => false,
        };
        if !wrong {
            return Ok(None);
        }
        proof {
            reveal_strlit("x-tunnel-shard-token");
            assert(text::lowercase_of("x-tunnel-shard-token"@) =~= "x-tunnel-shard-token"@);
        }
        let values = header::values(headers, "x-tunnel-shard-token");
        assert(header::byte_views(values@).len() == values@.len());
        if values.len() != 1 {
            return Err(());
        }
        assert(header::byte_views(values@)[0] == values@[0]@);
        if !token(&values[0]) {
            return Err(());
        }
        if let Some(raw) = &fields[2] {
            match string(raw) {
                Some(copy) => {
                    if !same_bytes(&text::bytes(&copy), &values[0]) {
                        return Err(());
                    }
                },
                None => {
                    return Err(());
                },
            }
        }
        match &fields[1] {
            Some(raw) => match revision(raw) {
                Some(revision) => Ok(Some(Correction { revision, token: values[0].clone() })),
                None => Err(()),
            },
            None => Err(()),
        }
    }
}

fn same_bytes(left: &Vec<u8>, right: &Vec<u8>) -> (result: bool)
    ensures
        result == (left@ == right@),
{
    if left.len() != right.len() {
        return false;
    }
    let mut index: usize = 0;
    while index < left.len()
        invariant
            index <= left.len(),
            left@.len() == right@.len(),
            forall|i: int| 0 <= i < index ==> left@[i] == right@[i],
        decreases left.len() - index,
    {
        if left[index] != right[index] {
            return false;
        }
        index = index + 1;
    }
    assert(left@ =~= right@);
    true
}

/// The route of polls.
pub struct State {
    generation: u64,
    token: Option<Vec<u8>>,
    accepted: Option<Correction>,
    failures: u8,
    corrections: u8,
}

/// The contents of [`State`].
#[verifier::ext_equal]
pub struct StateView {
    /// The number of polls that changed the route.
    pub generation: u64,
    /// The token that the next poll carries.
    pub token: Option<Seq<u8>>,
    /// The last correction that was taken up.
    pub accepted: Option<CorrectionView>,
    /// The failed polls with the token in a row.
    pub failures: u8,
    /// The corrections in a row.
    pub corrections: u8,
}

/// The bytes of an optional list.
pub open spec fn bytes_of(value: Option<Vec<u8>>) -> Option<Seq<u8>> {
    match value {
        Some(inner) => Some(inner@),
        None => None,
    }
}

impl View for State {
    type V = StateView;

    closed spec fn view(&self) -> StateView {
        StateView {
            generation: self.generation,
            token: bytes_of(self.token),
            accepted: match self.accepted {
                Some(inner) => Some(inner@),
                None => None,
            },
            failures: self.failures,
            corrections: self.corrections,
        }
    }
}

/// The route that one poll took.
pub struct Attempt {
    pub generation: u64,
    pub token: Option<Vec<u8>>,
}

impl StateView {
    /// What holds of every route: a token is the one of the last correction that was taken up, and two
    /// failures or corrections in a row are the most that are remembered.
    pub open spec fn wf(self) -> bool {
        &&& self.failures < 3
        &&& self.corrections < 3
        &&& self.token is Some ==> self.accepted is Some && self.token->0 == self.accepted->0.token
    }

    pub open spec fn start() -> StateView {
        StateView { generation: 0, token: None, accepted: None, failures: 0, corrections: 0 }
    }

    /// Whether a poll bears on the route: it took the present one, and it was corrected, it succeeded,
    /// or its destination failed.
    pub open spec fn concerns(
        self,
        generation: u64,
        correction: Option<CorrectionView>,
        available: bool,
        failed: bool,
    ) -> bool {
        self.generation == generation && (correction is Some || available || failed)
    }

    /// The route after a correction: an older revision changes nothing, the same revision with another
    /// token drops the token, and a newer revision is taken up.
    pub open spec fn corrected(self, correction: CorrectionView) -> StateView {
        if self.accepted is Some && correction.revision < self.accepted->0.revision {
            self
        } else if self.accepted is Some && correction.revision == self.accepted->0.revision {
            StateView {
                token: if correction.token == self.accepted->0.token {
                    Some(correction.token)
                } else {
                    None
                },
                ..self
            }
        } else {
            StateView { token: Some(correction.token), accepted: Some(correction), ..self }
        }
    }

    /// The route after a poll.
    pub open spec fn completed(
        self,
        generation: u64,
        carried: bool,
        correction: Option<CorrectionView>,
        available: bool,
        failed: bool,
    ) -> StateView {
        if !self.concerns(generation, correction, available, failed) {
            self
        } else {
            let next = StateView { generation: (self.generation + 1) as u64, ..self };
            if available {
                StateView { failures: 0, corrections: 0, ..next }
            } else if correction is Some {
                let corrected = StateView { failures: 0, ..next }.corrected(correction->0);
                if self.corrections == 2 {
                    StateView { token: None, corrections: 0, ..corrected }
                } else {
                    StateView { corrections: (self.corrections + 1) as u8, ..corrected }
                }
            } else if carried {
                if self.failures == 2 {
                    StateView { token: None, failures: 0, ..next }
                } else {
                    StateView { failures: (self.failures + 1) as u8, ..next }
                }
            } else {
                next
            }
        }
    }
}

fn copy_token(value: &Option<Vec<u8>>) -> (result: Option<Vec<u8>>)
    ensures
        bytes_of(result) == bytes_of(*value),
{
    match value {
        Some(inner) => Some(inner.clone()),
        None => None,
    }
}

impl Default for State {
    fn default() -> (result: State)
        ensures
            result@ == StateView::start(),
            result@.wf(),
    {
        State { generation: 0, token: None, accepted: None, failures: 0, corrections: 0 }
    }
}

impl State {
    /// The route for the next poll.
    pub fn snapshot(&self) -> (result: Attempt)
        ensures
            result.generation == self@.generation,
            bytes_of(result.token) == self@.token,
    {
        Attempt { generation: self.generation, token: copy_token(&self.token) }
    }

    /// Takes up the outcome of a poll.
    pub fn complete(
        &mut self,
        attempt: &Attempt,
        correction: Option<Correction>,
        available: bool,
        failed_destination: bool,
    )
        requires
            old(self)@.wf(),
            old(self)@.concerns(
                attempt.generation,
                match correction {
                    Some(inner) => Some(inner@),
                    None => None,
                },
                available,
                failed_destination,
            ) ==> old(self)@.generation < u64::MAX,
        ensures
            final(self)@.wf(),
            final(self)@ == old(self)@.completed(
                attempt.generation,
                attempt.token is Some,
                match correction {
                    Some(inner) => Some(inner@),
                    None => None,
                },
                available,
                failed_destination,
            ),
    {
        if self.generation != attempt.generation || (correction.is_none() && !available
            && !failed_destination) {
            return;
        }
        self.generation = self.generation + 1;
        if available {
            self.failures = 0;
            self.corrections = 0;
        } else if let Some(correction) = correction {
            self.failures = 0;
            self.corrections = self.corrections + 1;
            let known: Option<(u64, bool)> = match &self.accepted {
                Some(accepted) => Some(
                    (accepted.revision, same_bytes(&correction.token, &accepted.token)),
                ),
                None => None,
            };
            match known {
                Some((revision, same)) => {
                    if correction.revision < revision {
                    } else if correction.revision == revision {
                        self.token = if same {
                            Some(correction.token)
                        } else {
                            None
                        };
                    } else {
                        self.token = Some(correction.token.clone());
                        self.accepted = Some(correction);
                    }
                },
                None => {
                    self.token = Some(correction.token.clone());
                    self.accepted = Some(correction);
                },
            }
            if self.corrections == 3 {
                self.token = None;
                self.corrections = 0;
            }
        } else if failed_destination && attempt.token.is_some() {
            self.failures = self.failures + 1;
            if self.failures == 3 {
                self.token = None;
                self.failures = 0;
            }
        }
    }
}

/// A poll that took an outdated route changes nothing.
pub proof fn lemma_outdated_ignored(
    state: StateView,
    generation: u64,
    carried: bool,
    correction: Option<CorrectionView>,
    available: bool,
    failed: bool,
)
    requires
        generation != state.generation,
    ensures
        state.completed(generation, carried, correction, available, failed) == state,
{
}

/// A poll counts once: after its outcome has been taken up, nothing that is told of it changes the route.
pub proof fn lemma_counts_once(
    state: StateView,
    carried: bool,
    correction: Option<CorrectionView>,
    available: bool,
    failed: bool,
    other: Option<CorrectionView>,
    other_available: bool,
    other_failed: bool,
)
    requires
        state.generation < u64::MAX,
        correction is Some || available || failed,
    ensures
        ({
            let after = state.completed(state.generation, carried, correction, available, failed);
            after.completed(state.generation, carried, other, other_available, other_failed) == after
        }),
{
}

/// An outcome that tells nothing changes nothing.
pub proof fn lemma_nothing_told(state: StateView, generation: u64, carried: bool)
    ensures
        state.completed(generation, carried, None, false, false) == state,
{
}

/// The revision that was taken up never falls.
pub proof fn lemma_revision_rises(
    state: StateView,
    generation: u64,
    carried: bool,
    correction: Option<CorrectionView>,
    available: bool,
    failed: bool,
)
    requires
        state.accepted is Some,
    ensures
        state.completed(generation, carried, correction, available, failed).accepted is Some,
        state.completed(
            generation,
            carried,
            correction,
            available,
            failed,
        ).accepted->0.revision >= state.accepted->0.revision,
{
}

/// Three failed polls with a token in a row drop it.
pub proof fn lemma_failures_drop_token(state: StateView)
    requires
        state.wf(),
        state.failures == 0,
        state.generation <= u64::MAX - 3,
    ensures
        ({
            let first = state.completed(state.generation, true, None, false, true);
            let second = first.completed(first.generation, true, None, false, true);
            let third = second.completed(second.generation, true, None, false, true);
            third.token is None && third.failures == 0 && third.generation == state.generation + 3
        }),
{
}

/// Three corrections in a row drop the token, whatever they say.
pub proof fn lemma_corrections_drop_token(
    state: StateView,
    one: CorrectionView,
    two: CorrectionView,
    three: CorrectionView,
)
    requires
        state.wf(),
        state.corrections == 0,
        state.generation <= u64::MAX - 3,
    ensures
        ({
            let first = state.completed(state.generation, true, Some(one), false, false);
            let second = first.completed(first.generation, true, Some(two), false, false);
            let third = second.completed(second.generation, true, Some(three), false, false);
            third.token is None && third.corrections == 0
        }),
{
}

/// A correction carries one visible token without a comma, its revision as a whole number, and no other token in its
/// body; another code corrects nothing.
pub proof fn lemma_correction_reads(
    entries: Map<Seq<char>, Seq<Seq<u8>>>,
    code: Option<Seq<char>>,
    revision: Option<Seq<char>>,
    token: Option<Seq<char>>,
    at: int,
)
    ensures
        metadata_correction(entries, code, revision, token) matches Ok(Some(found)) ==> {
            &&& code is Some
            &&& string_of(code->0) == Some("wrong_cluster"@)
            &&& entries.dom().contains("x-tunnel-shard-token"@)
            &&& entries["x-tunnel-shard-token"@] =~= seq![found.token]
            &&& 1 <= found.token.len() <= 4096
            &&& 0 <= at < found.token.len() ==> 0x21 <= found.token[at] <= 0x7e && found.token[at] != 0x2c
            &&& revision is Some
            &&& text::all_digits(revision->0)
            &&& found.revision == text::digits_value(revision->0)
            &&& found.revision <= 9_007_199_254_740_991
            &&& token matches Some(raw) ==> string_of(raw) is Some && vstd::utf8::encode_utf8(
                string_of(raw)->0,
            ) == found.token
        },
        code is None ==> metadata_correction(entries, code, revision, token) == Ok::<
            Option<CorrectionView>,
            (),
        >(None),
        code matches Some(raw) ==> (string_of(raw) != Some("wrong_cluster"@) ==> metadata_correction(
            entries,
            code,
            revision,
            token,
        ) == Ok::<Option<CorrectionView>, ()>(None)),
{
    if metadata_correction(entries, code, revision, token) is Ok {
        if metadata_correction(entries, code, revision, token)->Ok_0 is Some {
            let found = metadata_correction(entries, code, revision, token)->Ok_0->0;
            assert(is_token(found.token));
            if 0 <= at < found.token.len() {
                assert(is_token_byte(found.token[at]));
            }
        }
    }
}

/// A correction of a later revision is taken whole, one of an earlier revision not at all, and one of the same
/// revision drops the token where it names another.
pub proof fn lemma_correction_taken(state: StateView, carried: bool, correction: CorrectionView, failed: bool)
    requires
        state.wf(),
        state.corrections < 2,
        state.generation < u64::MAX,
    ensures
        ({
            let after = state.completed(state.generation, carried, Some(correction), false, failed);
            &&& after.generation == state.generation + 1
            &&& after.corrections == state.corrections + 1
            &&& after.failures == 0
            &&& state.accepted is None ==> after.token == Some(correction.token) && after.accepted == Some(
                correction,
            )
            &&& state.accepted matches Some(before) ==> {
                &&& correction.revision > before.revision ==> after.token == Some(correction.token)
                    && after.accepted == Some(correction)
                &&& correction.revision < before.revision ==> after.token == state.token && after.accepted
                    == state.accepted
                &&& correction.revision == before.revision && correction.token == before.token
                    ==> after.token == Some(before.token) && after.accepted == state.accepted
                &&& correction.revision == before.revision && correction.token != before.token
                    ==> after.token is None && after.accepted == state.accepted
            }
        }),
{
}

/// Once the service answers, failures and corrections are forgotten and the route stays; a failure counts only for
/// a request that carried a token.
pub proof fn lemma_route_after(state: StateView, carried: bool, correction: Option<CorrectionView>, failed: bool)
    requires
        state.wf(),
        state.generation < u64::MAX,
    ensures
        ({
            let after = state.completed(state.generation, carried, correction, true, failed);
            after.failures == 0 && after.corrections == 0 && after.token == state.token && after.accepted
                == state.accepted
        }),
        ({
            let after = state.completed(state.generation, false, None, false, true);
            after.failures == state.failures && after.token == state.token && after.corrections
                == state.corrections
        }),
        state.failures < 2 ==> state.completed(state.generation, true, None, false, true).failures
            == state.failures + 1 && state.completed(state.generation, true, None, false, true).token
            == state.token,
        StateView::start().token is None && StateView::start().accepted is None && StateView::start().failures
            == 0 && StateView::start().corrections == 0 && StateView::start().generation == 0,
{
}

} // verus!
