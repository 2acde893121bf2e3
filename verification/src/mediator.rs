//! The fetch mediator: an owned service object holding the last
//! successfully fetched result and a dirty flag, with a display helper
//! that never fails to its caller.

use vstd::prelude::*;
use vstd::string::StringExecFns;
use crate::json::parse_origin;
use crate::json::parse_origin_spec;

verus! {

/// The body of a successful fetch: the caller's externally observed
/// network address, as the remote echo service reported it.
#[derive(Clone)]
pub struct FetchResult {
    pub origin: String,
}

/// Why a refresh failed: the transport broke before a body arrived, or
/// the body was not the expected one-key object.
#[derive(Clone, Copy, Debug, PartialEq, Eq, Structural)]
pub enum FetchError {
    Transport,
    Parse,
}

/// The mediator's state. `dirty` is true until a refresh completes
/// successfully; a failed refresh leaves it as it was.
pub struct Mediator {
    pub last_result: FetchResult,
    pub dirty: bool,
}

/// The string the mediator displays for a suffix: the stored origin with
/// the suffix appended, verbatim.
pub open spec fn display_of(origin: Seq<char>, suffix: Seq<char>) -> Seq<char> {
    origin + suffix
}

impl Default for Mediator {
    /// A fresh mediator: empty origin, dirty.
    fn default() -> (r: Mediator)
        ensures
            r.last_result.origin@ == Seq::<char>::empty(),
            r.dirty,
    {
        Mediator { last_result: FetchResult { origin: String::new() }, dirty: true }
    }
}

impl Mediator {
    /// The current display string: the stored origin with `suffix`
    /// appended. Never fails, whatever the fetch history was.
    pub fn get_display(&self, suffix: &str) -> (r: String)
        ensures
            r@ == display_of(self.last_result.origin@, suffix@),
    {
        let mut out = self.last_result.origin.clone();
        out.append(suffix);
        out
    }

    /// Apply the outcome of one refresh attempt. `None` stands for a
    /// transport failure before any body arrived; `Some(body)` for a body
    /// that arrived and is parsed here. On success the parsed origin
    /// replaces the stored one and the dirty flag is cleared; on any
    /// failure the state is left exactly as it was and the error says
    /// which stage broke.
    pub fn refresh(&mut self, response: Option<&str>) -> (r: Result<(), FetchError>)
        ensures
            match response {
                Some(body) => match parse_origin_spec(body@) {
                    Some(o) => {
                        &&& r is Ok
                        &&& final(self).last_result.origin@ == o
                        &&& !final(self).dirty
                    },
                    None => {
                        &&& r == Err::<(), FetchError>(FetchError::Parse)
                        &&& final(self).last_result.origin@ == old(self).last_result.origin@
                        &&& final(self).dirty == old(self).dirty
                    },
                },
                None => {
                    &&& r == Err::<(), FetchError>(FetchError::Transport)
                    &&& final(self).last_result.origin@ == old(self).last_result.origin@
                    &&& final(self).dirty == old(self).dirty
                },
            },
    {
        match response {
            None => Err(FetchError::Transport),
            Some(body) => match parse_origin(body) {
                Some(origin) => {
                    self.last_result = FetchResult { origin };
                    self.dirty = false;
                    Ok(())
                },
                None => Err(FetchError::Parse),
            },
        }
    }

    /// Mark the stored result stale: a new refresh has been requested.
    pub fn dirty(&mut self)
        ensures
            final(self).dirty,
            final(self).last_result.origin@ == old(self).last_result.origin@,
    {
        self.dirty = true;
    }

    /// Mark the stored result fresh: a refresh has completed.
    pub fn clean(&mut self)
        ensures
            !final(self).dirty,
            final(self).last_result.origin@ == old(self).last_result.origin@,
    {
        self.dirty = false;
    }

    /// Whether the stored result is stale.
    pub fn is_dirty(&self) -> (r: bool)
        ensures
            r == self.dirty,
    {
        self.dirty
    }
}

/// One mediator step as the UI calls it each frame: apply the refresh
/// outcome, swallow any failure, and return the current display string.
/// The display never crashes: on failure it carries the last known-good
/// origin.
pub fn perform(m: &mut Mediator, response: Option<&str>, suffix: &str) -> (r: String)
    ensures
        r@ == display_of(final(m).last_result.origin@, suffix@),
        match response {
            Some(body) => match parse_origin_spec(body@) {
                Some(o) => {
                    &&& final(m).last_result.origin@ == o
                    &&& !final(m).dirty
                },
                None => {
                    &&& final(m).last_result.origin@ == old(m).last_result.origin@
                    &&& final(m).dirty == old(m).dirty
                },
            },
            None => {
                &&& final(m).last_result.origin@ == old(m).last_result.origin@
                &&& final(m).dirty == old(m).dirty
            },
        },
{
    let _outcome = m.refresh(response);
    m.get_display(suffix)
}

/// The display string always carries the suffix verbatim at its end and
/// the stored origin verbatim at its front: the suffix is never mutated
/// or dropped, for every origin and every suffix.
pub proof fn lemma_display_preserves_suffix(origin: Seq<char>, suffix: Seq<char>)
    ensures
        display_of(origin, suffix).len() == origin.len() + suffix.len(),
        display_of(origin, suffix).subrange(
            origin.len() as int,
            origin.len() + suffix.len() as int,
        ) =~= suffix,
        display_of(origin, suffix).subrange(0, origin.len() as int) =~= origin,
{
}

/// Repeated display calls with the same suffix, while no refresh has
/// changed the stored origin, yield the identical string.
pub proof fn lemma_display_idempotent(
    origin: Seq<char>,
    suffix: Seq<char>,
    r1: Seq<char>,
    r2: Seq<char>,
)
    requires
        r1 == display_of(origin, suffix),
        r2 == display_of(origin, suffix),
    ensures
        r1 == r2,
{
}

} // verus!
