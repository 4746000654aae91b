//! The lookup orchestrator: consult the cache, else fetch and repopulate,
//! then extract the requested word record.
//!
//! The orchestrator owns no I/O. It is a step function over a small state
//! machine: the caller performs each commanded action (read the cache
//! file, fetch over the network, persist the serialized document) and
//! hands the outcome back as an event. A fresh cache hit completes the
//! lookup with no fetch at all; a write failure after a successful fetch
//! fails the whole call.

use vstd::prelude::*;
use vstd::string::StringExecFns;
use crate::errors::Error;
use crate::json::{doc_of, entry_of, from_json_text, index_value};

verus! {

/// Where one lookup stands.
pub enum LookupState {
    /// Nothing observed yet; the cache is to be consulted.
    Start,
    /// The cache missed or was expired; the fetcher is to be called.
    AwaitFetch,
    /// A document was fetched and parsed; it is to be written to the cache.
    AwaitWrite { document: serde_json::Value },
    /// The lookup finished with this document.
    Done { document: serde_json::Value },
    /// The lookup failed.
    Failed { error: Error },
}

/// The outcome of the action the caller last performed.
pub enum LookupEvent {
    /// What the cache read returned.
    CacheRead { result: Result<Option<serde_json::Value>, Error> },
    /// What the fetcher returned: the raw response text, or a fetch error.
    Fetched { response: Result<String, Error> },
    /// Whether persisting the document to the cache file succeeded.
    Wrote { outcome: Result<(), Error> },
}

/// What the caller must do next.
pub enum LookupCommand {
    /// Fetch the document for the language code from the network.
    Fetch,
    /// Serialize this document and replace the cache file with the text.
    Write { document: serde_json::Value },
    /// The lookup is over; the state holds the document or the error.
    Finish,
}

/// The transition relation of the orchestrator. An event that does not
/// belong to the current state changes nothing.
pub open spec fn step_spec(state: LookupState, event: LookupEvent) -> (LookupState, LookupCommand) {
    match (state, event) {
        (LookupState::Start, LookupEvent::CacheRead { result }) => match result {
            Ok(Some(document)) => (LookupState::Done { document }, LookupCommand::Finish),
            Ok(None) => (LookupState::AwaitFetch, LookupCommand::Fetch),
            Err(error) => (LookupState::Failed { error }, LookupCommand::Finish),
        },
        (LookupState::AwaitFetch, LookupEvent::Fetched { response }) => match response {
            Ok(text) => match doc_of(text@) {
                Some(document) => (
                    LookupState::AwaitWrite { document },
                    LookupCommand::Write { document },
                ),
                None => (LookupState::Failed { error: Error::Fetch }, LookupCommand::Finish),
            },
            Err(error) => (LookupState::Failed { error }, LookupCommand::Finish),
        },
        (LookupState::AwaitWrite { document }, LookupEvent::Wrote { outcome }) => match outcome {
            Ok(_) => (LookupState::Done { document }, LookupCommand::Finish),
            Err(error) => (LookupState::Failed { error }, LookupCommand::Finish),
        },
        (s, _) => (s, LookupCommand::Finish),
    }
}

/// Advance the lookup by one observed event. The response text handed in a
/// `Fetched` event is parsed here; text that is not valid JSON fails the
/// lookup with a `Fetch` error, exactly as [`step_spec`] says.
pub fn lookup_step(state: LookupState, event: LookupEvent) -> (r: (LookupState, LookupCommand))
    ensures
        r == step_spec(state, event),
{
    match (state, event) {
        (LookupState::Start, LookupEvent::CacheRead { result }) => match result {
            Ok(Some(document)) => (LookupState::Done { document }, LookupCommand::Finish),
            Ok(None) => (LookupState::AwaitFetch, LookupCommand::Fetch),
            Err(error) => (LookupState::Failed { error }, LookupCommand::Finish),
        },
        (LookupState::AwaitFetch, LookupEvent::Fetched { response }) => match response {
            Ok(text) => match from_json_text(text.as_str()) {
                Some(document) => {
                    let command_doc = clone_value(&document);
                    (LookupState::AwaitWrite { document }, LookupCommand::Write {
                        document: command_doc,
                    })
                },
                None => (LookupState::Failed { error: Error::Fetch }, LookupCommand::Finish),
            },
            Err(error) => (LookupState::Failed { error }, LookupCommand::Finish),
        },
        (LookupState::AwaitWrite { document }, LookupEvent::Wrote { outcome }) => match outcome {
            Ok(_) => (LookupState::Done { document }, LookupCommand::Finish),
            Err(error) => (LookupState::Failed { error }, LookupCommand::Finish),
        },
        (other, _) => (other, LookupCommand::Finish),
    }
}

/// The critical availability property: a fetch is commanded exactly on a
/// clean cache miss, and a fresh cache hit completes the lookup at once,
/// offline. In one process invocation the machine passes `Start` once, so
/// the fetcher is called at most once.
pub proof fn lemma_fetch_only_on_miss(state: LookupState, event: LookupEvent)
    ensures
        step_spec(state, event).1 is Fetch <==> (state is Start && event == (
        LookupEvent::CacheRead { result: Ok(None) }
        )),
        state is Start ==> (event matches LookupEvent::CacheRead {
            result: Ok(Some(document)),
        } ==> step_spec(state, event) == (
            LookupState::Done { document },
            LookupCommand::Finish,
        )),
{
}

/// A write failure after a successful fetch fails the whole lookup: the
/// fetched document is not handed back when the cache could not be kept
/// consistent with it.
pub proof fn lemma_write_failure_is_fatal(document: serde_json::Value, error: Error)
    ensures
        step_spec(
            LookupState::AwaitWrite { document },
            LookupEvent::Wrote { outcome: Err(error) },
        ) == (LookupState::Failed { error }, LookupCommand::Finish),
{
}

/// Extract the requested word record from a document: index by the word
/// key. An absent key yields JSON `null` rather than an error; whether
/// that is a usable record surfaces later, at the presenter's boundary.
pub fn extract_word(document: &serde_json::Value, word: &str) -> (r: serde_json::Value)
    ensures
        r == entry_of(*document, word@),
{
    index_value(document, word)
}

/// The query URL of the word-database API for one language code.
pub fn api_url(toki: &str) -> (r: String)
    ensures
        r@ == "https://api.linku.la/v1/words?lang="@ + toki@,
{
    let mut url = String::new();
    url.append("https://api.linku.la/v1/words?lang=");
    url.append(toki);
    proof {
        assert(url@ =~= "https://api.linku.la/v1/words?lang="@ + toki@);
    }
    url
}

/// Relies on `serde_json::Value`'s `Clone` impl: the clone equals the
/// original.
#[verifier::external_body]
fn clone_value(v: &serde_json::Value) -> (r: serde_json::Value)
    ensures
        r == *v,
{
    v.clone()
}

} // verus!
