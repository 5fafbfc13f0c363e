//! What is done with the replies of the API: when to try again, how pages are joined, and how
//! failures are told.

use vstd::arithmetic::power2::*;
use vstd::prelude::*;
use vstd::string::*;
use crate::api::{bare, bare_view, ApiRequest, Verb};
use crate::asc::{AscErrorItem, Profile, ProfileIncluded, ProfileResolved};
use crate::ordered::StringSet;
use crate::text::{Error, cat3, failure, join, joined, parse_number, parsed_number, trim, trimmed};

verus! {

/// How often a request is sent at most.
pub const MAX_ATTEMPTS: u32 = 4;

/// How long to wait after an attempt, in seconds: one, and twice as long after each next one.
pub open spec fn backoff(attempt: u32) -> nat {
    if attempt > 64 {
        u64::MAX as nat
    } else {
        pow2((attempt - 1) as nat)
    }
}

/// How long to wait after an attempt, in seconds.
pub fn backoff_seconds(attempt: u32) -> (seconds: u64)
    requires
        attempt >= 1,
    ensures
        seconds == backoff(attempt),
{
    if attempt > 64 {
        return u64::MAX;
    }
    let mut seconds: u64 = 1;
    let mut i: u32 = 1;
    proof {
        lemma2_to64();
    }
    while i < attempt
        invariant
            1 <= i <= attempt <= 64,
            seconds == pow2((i - 1) as nat),
        decreases attempt - i,
    {
        proof {
            lemma2_to64();
            lemma_pow2_unfold(i as nat);
            if i < 63 {
                lemma_pow2_strictly_increases(i as nat, 63);
            }
            lemma2_to64_rest();
        }
        seconds = seconds * 2;
        i += 1;
    }
    seconds
}

/// Too many requests, or a failure of the server.
pub open spec fn retryable(status: u16) -> bool {
    status == 429 || 500 <= status < 600
}

/// Whether a request that was answered so may be sent again.
pub fn is_retryable_status(status: u16) -> (result: bool)
    ensures
        result == retryable(status),
{
    status == 429 || (500 <= status && status < 600)
}

/// How long to wait after a reply: what it asks for but at least one second, else the back-off.
pub open spec fn delay_after(retry_after: Option<Seq<char>>, attempt: u32) -> nat {
    match retry_after {
        Some(text) => match parsed_number(trimmed(text), u64::MAX as nat) {
            Some(seconds) => if seconds == 0 {
                1
            } else {
                seconds
            },
            None => backoff(attempt),
        },
        None => backoff(attempt),
    }
}

/// How long to wait after a reply, by its `Retry-After` header.
pub fn retry_delay(retry_after: Option<&str>, attempt: u32) -> (seconds: u64)
    requires
        attempt >= 1,
    ensures
        seconds == delay_after(
            match retry_after {
                Some(text) => Some(text@),
                None => None,
            },
            attempt,
        ),
{
    if let Some(value) = retry_after {
        if let Some(seconds) = parse_number(trim(value), u64::MAX) {
            return if seconds == 0 {
                1
            } else {
                seconds
            };
        }
    }
    backoff_seconds(attempt)
}

/// Requests that can be repeated without harm.
pub open spec fn repeatable(verb: Verb) -> bool {
    verb == Verb::Get || verb == Verb::Delete
}

/// Whether a request that could not be sent may be sent again. One that changes something may
/// only if it did not arrive.
pub fn should_retry_transport_error(verb: Verb, timeout: bool, connect: bool) -> (result: bool)
    ensures
        result == (repeatable(verb) || timeout || connect),
{
    if verb != Verb::Get && verb != Verb::Delete {
        return timeout || connect;
    }
    true
}

/// Whether a request whose reply could not be read may be sent again.
pub fn should_retry_response_decode(verb: Verb, body: bool, decode: bool, timeout: bool) -> (result:
    bool)
    ensures
        result == (repeatable(verb) && (body || decode || timeout)),
{
    if verb != Verb::Get && verb != Verb::Delete {
        return false;
    }
    body || decode || timeout
}

/// What came of sending a request.
#[derive(Debug)]
pub enum Sent {
    /// It could not be sent, or no reply came.
    Unsent { timeout: bool, connect: bool },
    /// A reply came.
    Answered { status: u16, retry_after: Option<String> },
}

/// What to do next.
#[derive(Debug, Clone, Copy, PartialEq, Eq, Structural)]
pub enum NextStep {
    /// Hand the reply on.
    Deliver,
    /// Wait so many seconds and send again.
    Wait(u64),
    /// Report the failure.
    Fail,
}

/// Replies with such a status are successes.
pub open spec fn success(status: u16) -> bool {
    200 <= status < 300
}

/// What to do after an attempt.
pub open spec fn next_step(verb: Verb, attempt: u32, sent: Sent) -> NextStep {
    match sent {
        Sent::Unsent { timeout, connect } => if attempt < MAX_ATTEMPTS && (repeatable(verb)
            || timeout || connect) {
            NextStep::Wait(backoff(attempt) as u64)
        } else {
            NextStep::Fail
        },
        Sent::Answered { status, retry_after } => if success(status) {
            NextStep::Deliver
        } else if attempt < MAX_ATTEMPTS && retryable(status) {
            NextStep::Wait(
                delay_after(
                    match retry_after {
                        Some(text) => Some(text@),
                        None => None,
                    },
                    attempt,
                ) as u64,
            )
        } else {
            NextStep::Fail
        },
    }
}

/// What to do after the given attempt at sending a request.
pub fn send(verb: Verb, attempt: u32, sent: &Sent) -> (step: NextStep)
    requires
        attempt >= 1,
    ensures
        step == next_step(verb, attempt, *sent),
{
    match sent {
        Sent::Unsent { timeout, connect } => {
            if attempt < MAX_ATTEMPTS && should_retry_transport_error(verb, *timeout, *connect) {
                NextStep::Wait(backoff_seconds(attempt))
            } else {
                NextStep::Fail
            }
        },
        Sent::Answered { status, retry_after } => {
            if 200 <= *status && *status < 300 {
                NextStep::Deliver
            } else if attempt < MAX_ATTEMPTS && is_retryable_status(*status) {
                let header = match retry_after {
                    Some(text) => Some(text.as_str()),
                    None => None,
                };
                NextStep::Wait(retry_delay(header, attempt))
            } else {
                NextStep::Fail
            }
        },
    }
}

/// How often a reply is asked for that cannot be read.
pub open spec fn decode_attempts(verb: Verb) -> u32 {
    if repeatable(verb) {
        4
    } else {
        1
    }
}

/// What to do when a reply could not be read.
pub fn request_json(verb: Verb, attempt: u32, body: bool, decode: bool, timeout: bool) -> (step:
    NextStep)
    requires
        attempt >= 1,
    ensures
        step == (if attempt < decode_attempts(verb) && (body || decode || timeout) {
            NextStep::Wait(backoff(attempt) as u64)
        } else {
            NextStep::Fail
        }),
{
    let limit: u32 = if verb == Verb::Get || verb == Verb::Delete {
        4
    } else {
        1
    };
    if attempt < limit && should_retry_response_decode(verb, body, decode, timeout) {
        NextStep::Wait(backoff_seconds(attempt))
    } else {
        NextStep::Fail
    }
}

/// No request is sent more often than the limit, every wait lasts at least a second, and a
/// request that changes something is not repeated once the server has answered it with anything
/// but a refusal for load or a failure of its own.
pub proof fn law_retries_end(verb: Verb, attempt: u32, sent: Sent)
    requires
        attempt >= 1,
    ensures
        attempt >= MAX_ATTEMPTS ==> !(next_step(verb, attempt, sent) is Wait),
        next_step(verb, attempt, sent) matches NextStep::Wait(seconds) ==> seconds >= 1,
        sent matches Sent::Answered { status, .. } ==> (next_step(verb, attempt, sent) is Wait
            ==> retryable(status)),
{
    if attempt < MAX_ATTEMPTS {
        lemma2_to64();
        assert(backoff(attempt) == pow2((attempt - 1) as nat));
        assert(attempt == 1 || attempt == 2 || attempt == 3);
    }
}

/// How one error of a reply is told.
pub open spec fn item_text(item: AscErrorItem) -> Seq<char> {
    "["@ + or_else(item.status, "?"@) + " "@ + or_else(item.code, "?"@) + "] "@ + or_else(
        item.title,
        "ASC error"@,
    ) + " "@ + or_else(item.detail, ""@)
}

/// A text, or another where it is missing.
pub open spec fn or_else(value: Option<String>, other: Seq<char>) -> Seq<char> {
    match value {
        Some(text) => text@,
        None => other,
    }
}

fn text_or<'a>(value: &'a Option<String>, other: &'a str) -> (result: &'a str)
    ensures
        result@ == or_else(*value, other@),
{
    match value {
        Some(text) => text.as_str(),
        None => other,
    }
}

/// How the errors of a reply are told.
pub open spec fn items_text(items: Seq<AscErrorItem>) -> Seq<char> {
    joined(items.map_values(|item: AscErrorItem| item_text(item)), "; "@)
}

/// How the errors of a reply are told.
pub fn error_items_text(items: &Vec<AscErrorItem>) -> (result: String)
    ensures
        result@ == items_text(items@),
{
    let mut parts: Vec<String> = Vec::new();
    let mut i: usize = 0;
    while i < items.len()
        invariant
            i <= items.len(),
            parts.len() == i,
            forall|k: int| 0 <= k < i ==> (#[trigger] parts@[k])@ == item_text(items@[k]),
        decreases items.len() - i,
    {
        let item = &items[i];
        parts.push(
            cat3("[", text_or(&item.status, "?"), " ").concat(text_or(&item.code, "?")).concat(
                "] ",
            ).concat(text_or(&item.title, "ASC error")).concat(" ").concat(
                text_or(&item.detail, ""),
            ),
        );
        i += 1;
    }
    proof {
        assert(crate::text::texts(parts@) =~= items@.map_values(
            |item: AscErrorItem| item_text(item),
        ));
    }
    join(&parts, "; ")
}

/// How a refused request is told. `status` is the status as text; `items` are the errors of the
/// body if it has the form of an error reply, else the body itself is told.
pub fn refusal(
    verb: Verb,
    url: &str,
    status: &str,
    items: &Option<Vec<AscErrorItem>>,
    body: &str,
) -> (error: Error)
    ensures
        error@ == "ASC "@ + verb.name_of() + " "@ + url@ + " returned "@ + status@ + ": "@
            + match *items {
            Some(list) => items_text(list@),
            None => body@,
        },
{
    let head = cat3("ASC ", verb.name(), " ").concat(url).concat(" returned ").concat(
        status,
    ).concat(": ");
    match items {
        Some(list) => failure(head.concat(error_items_text(list).as_str())),
        None => failure(head.concat(body)),
    }
}

/// The pages of a list, read one after the other.
#[derive(Debug)]
pub struct Pages<T> {
    pub items: Vec<T>,
    pub upcoming: Option<ApiRequest>,
}

impl<T> Pages<T> {
    /// Nothing read yet; the given request is the first.
    pub fn begin(request: ApiRequest) -> (pages: Pages<T>)
        ensures
            pages.items@.len() == 0,
            pages.upcoming == Some(request),
    {
        Pages { items: Vec::new(), upcoming: Some(request) }
    }

    /// Takes in one page and its link to the next one, which is followed without a query.
    pub fn accept(&mut self, page: Vec<T>, next: Option<String>)
        ensures
            final(self).items@ == old(self).items@ + page@,
            match next {
                Some(url) => final(self).upcoming matches Some(request) && request@ == bare_view(
                    Verb::Get,
                    url@,
                ),
                None => final(self).upcoming is None,
            },
    {
        let mut page = page;
        self.items.append(&mut page);
        self.upcoming = match next {
            Some(url) => Some(bare(Verb::Get, url)),
            None => None,
        };
    }
}

/// The last bundle identifier that came along.
pub open spec fn bundle_of(included: Seq<ProfileIncluded>) -> Option<Seq<char>>
    decreases included.len(),
{
    if included.len() == 0 {
        None
    } else {
        match included.last() {
            ProfileIncluded::BundleId(bundle) => Some(bundle.id@),
            _ => bundle_of(included.drop_last()),
        }
    }
}

/// The certificates that came along.
pub open spec fn certificates_of(included: Seq<ProfileIncluded>) -> Set<Seq<char>>
    decreases included.len(),
{
    if included.len() == 0 {
        Set::empty()
    } else {
        match included.last() {
            ProfileIncluded::Certificate(certificate) => certificates_of(
                included.drop_last(),
            ).insert(certificate.id@),
            _ => certificates_of(included.drop_last()),
        }
    }
}

/// The devices that came along.
pub open spec fn devices_of(included: Seq<ProfileIncluded>) -> Set<Seq<char>>
    decreases included.len(),
{
    if included.len() == 0 {
        Set::empty()
    } else {
        match included.last() {
            ProfileIncluded::Device(device) => devices_of(included.drop_last()).insert(device.id@),
            _ => devices_of(included.drop_last()),
        }
    }
}

/// Puts together the reply to a request for one profile and what it was made from. `asked` is
/// the profile that was asked for.
pub fn resolved_profile(asked: &str, profile: Profile, included: &Vec<ProfileIncluded>) -> (result:
    Result<ProfileResolved, Error>)
    ensures
        match bundle_of(included@) {
            Some(bundle) => result matches Ok(resolved) && resolved.profile == profile
                && resolved.bundle_id_id@ == bundle && resolved.certificate_ids@
                == certificates_of(included@) && resolved.device_ids@ == devices_of(included@),
            None => result matches Err(error) && error@ == "profile "@ + asked@
                + " is missing bundleId include"@,
        },
{
    let mut bundle: Option<String> = None;
    let mut certificate_ids = StringSet::new();
    let mut device_ids = StringSet::new();
    let mut i: usize = 0;
    proof {
        assert(included@.take(0) =~= Seq::<ProfileIncluded>::empty());
    }
    while i < included.len()
        invariant
            i <= included.len(),
            match bundle {
                Some(id) => bundle_of(included@.take(i as int)) == Some(id@),
                None => bundle_of(included@.take(i as int)) is None,
            },
            certificate_ids@ == certificates_of(included@.take(i as int)),
            device_ids@ == devices_of(included@.take(i as int)),
        decreases included.len() - i,
    {
        proof {
            assert(included@.take(i + 1).drop_last() =~= included@.take(i as int));
            assert(included@.take(i + 1).last() == included@[i as int]);
        }
        match &included[i] {
            ProfileIncluded::BundleId(resource) => {
                bundle = Some(resource.id.clone());
            },
            ProfileIncluded::Certificate(resource) => {
                certificate_ids.insert(resource.id.clone());
            },
            ProfileIncluded::Device(resource) => {
                device_ids.insert(resource.id.clone());
            },
        }
        i += 1;
    }
    proof {
        assert(included@.take(included@.len() as int) =~= included@);
    }
    match bundle {
        Some(bundle_id_id) => Ok(
            ProfileResolved { profile, bundle_id_id, certificate_ids, device_ids },
        ),
        None => Err(failure(cat3("profile ", asked, " is missing bundleId include"))),
    }
}

/// A request is repeated just where it is not the last attempt and either it was not sent and may be
/// repeated, or the answer asks for patience: too many requests, or a fault of the server. An answer
/// of success is delivered at once.
pub proof fn law_what_is_repeated(verb: Verb, attempt: u32, sent: Sent)
    requires
        attempt >= 1,
    ensures
        sent matches Sent::Answered { status, retry_after } ==> {
            &&& next_step(verb, attempt, sent) is Deliver <==> 200 <= status <= 299
            &&& next_step(verb, attempt, sent) is Wait <==> attempt < 4 && (status == 429 || 500
                <= status <= 599)
        },
        sent matches Sent::Unsent { timeout, connect } ==> {
            &&& !(next_step(verb, attempt, sent) is Deliver)
            &&& next_step(verb, attempt, sent) is Wait <==> attempt < 4 && (verb == Verb::Get || verb
                == Verb::Delete || timeout || connect)
        },
{
}

/// Without a delay that the server asks for, each wait is twice as long as the one before, from one
/// second on.
pub proof fn law_waits_double(verb: Verb, attempt: u32)
    requires
        1 <= attempt < 64,
    ensures
        backoff(1) == 1,
        backoff((attempt + 1) as u32) == 2 * backoff(attempt),
        delay_after(None, attempt) == backoff(attempt),
{
    lemma2_to64();
    lemma_pow2_unfold(attempt as nat);
}

/// A delay that the server asks for is kept, and is one second at least.
pub proof fn law_asked_delays_are_kept(text: Seq<char>, attempt: u32, seconds: nat)
    requires
        parsed_number(trimmed(text), u64::MAX as nat) == Some(seconds),
    ensures
        seconds >= 1 ==> delay_after(Some(text), attempt) == seconds,
        seconds == 0 ==> delay_after(Some(text), attempt) == 1,
{
}

/// An answer that cannot be read is asked for again just where asking changes nothing.
pub proof fn law_unreadable_answers(verb: Verb)
    ensures
        decode_attempts(verb) > 1 <==> verb == Verb::Get || verb == Verb::Delete,
        decode_attempts(verb) == 1 <==> verb == Verb::Post || verb == Verb::Patch,
{
}

/// What a profile was made from is what is told along with it: the bundle identifier that is told,
/// and just the certificates and the devices that are told, by their ids.
pub proof fn law_profiles_are_told_whole(included: Seq<ProfileIncluded>, id: Seq<char>)
    ensures
        certificates_of(included).contains(id) <==> exists|i: int|
            0 <= i < included.len() && (#[trigger] included[i] matches ProfileIncluded::Certificate(
                found,
            ) && found.id@ == id),
        devices_of(included).contains(id) <==> exists|i: int|
            0 <= i < included.len() && (#[trigger] included[i] matches ProfileIncluded::Device(
                found,
            ) && found.id@ == id),
        bundle_of(included) is None <==> forall|i: int|
            0 <= i < included.len() ==> !(#[trigger] included[i] is BundleId),
        bundle_of(included) == Some(id) ==> exists|i: int|
            0 <= i < included.len() && (#[trigger] included[i] matches ProfileIncluded::BundleId(
                found,
            ) && found.id@ == id),
    decreases included.len(),
{
    if included.len() > 0 {
        let rest = included.drop_last();
        law_profiles_are_told_whole(rest, id);
        let n = included.len() - 1;
        assert(included[n] == included.last());
        assert forall|i: int| 0 <= i < n implies rest[i] == #[trigger] included[i] by {}
        if certificates_of(rest).contains(id) {
            let i = choose|i: int|
                0 <= i < rest.len() && (#[trigger] rest[i] matches ProfileIncluded::Certificate(
                    found,
                ) && found.id@ == id);
            assert(included[i] == rest[i]);
        }
        if devices_of(rest).contains(id) {
            let i = choose|i: int|
                0 <= i < rest.len() && (#[trigger] rest[i] matches ProfileIncluded::Device(found)
                    && found.id@ == id);
            assert(included[i] == rest[i]);
        }
        if bundle_of(rest) == Some(id) && !(included.last() is BundleId) {
            let i = choose|i: int|
                0 <= i < rest.len() && (#[trigger] rest[i] matches ProfileIncluded::BundleId(found)
                    && found.id@ == id);
            assert(included[i] == rest[i]);
        }
        if forall|i: int| 0 <= i < included.len() ==> !(#[trigger] included[i] is BundleId) {
            assert forall|i: int| 0 <= i < rest.len() implies !(#[trigger] rest[i] is BundleId) by {
                assert(included[i] == rest[i]);
            }
        }
        if exists|i: int|
            0 <= i < included.len() && (#[trigger] included[i] matches ProfileIncluded::Certificate(
                found,
            ) && found.id@ == id) {
            let i = choose|i: int|
                0 <= i < included.len() && (
                #[trigger] included[i] matches ProfileIncluded::Certificate(found) && found.id@
                    == id);
            if i < n {
                assert(rest[i] == included[i]);
            }
        }
        if exists|i: int|
            0 <= i < included.len() && (#[trigger] included[i] matches ProfileIncluded::Device(
                found,
            ) && found.id@ == id) {
            let i = choose|i: int|
                0 <= i < included.len() && (#[trigger] included[i] matches ProfileIncluded::Device(
                    found,
                ) && found.id@ == id);
            if i < n {
                assert(rest[i] == included[i]);
            }
        }
    }
}

/// The line for an error of the API has its status, its code, its title and its detail, in this order;
/// what is missing is marked.
pub proof fn law_errors_are_told_whole(item: AscErrorItem)
    ensures
        item.status matches Some(status) ==> (item.code matches Some(code) ==> (
        item.title matches Some(title) ==> (item.detail matches Some(detail) ==> item_text(item)
            == "["@ + status@ + " "@ + code@ + "] "@ + title@ + " "@ + detail@))),
        item.status is None && item.code is None ==> item_text(item) == "["@ + "?"@ + " "@ + "?"@
            + "] "@ + or_else(item.title, "ASC error"@) + " "@ + or_else(item.detail, ""@),
{
}

} // verus!
