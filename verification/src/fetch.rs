//! Obtaining a signed document (a report or a manifest): the local cache
//! first, then the registry, with the signature checked against the exact
//! bytes before the document is used.
//!
//! The decisions are a state machine.  The caller performs the action that
//! [`DocumentFetch::step`] returns (a cache read, a registry request, ...)
//! and hands the outcome back as the next [`FetchEvent`], until the action
//! is terminal: [`FetchAction::Deliver`], [`FetchAction::StoreAndDeliver`],
//! [`FetchAction::Absent`] or [`FetchAction::Fail`].
use vstd::prelude::*;

use crate::error::{Error, ErrorView, Result};
use crate::signing::{signature_accepted, verify};
use crate::text::owned;

verus! {

/// Which kind of document is fetched.
#[derive(Debug, Clone, Copy, PartialEq, Eq, Structural)]
pub enum DocumentKind {
    Report,
    Manifest,
}

/// What the fetch waits for.
#[derive(Debug, Clone, Copy, PartialEq, Eq, Structural)]
pub enum FetchStage {
    AwaitCachedDocument,
    AwaitCachedSignature,
    AwaitEviction,
    AwaitRemoteDocument,
    AwaitRemoteSignature,
    Finished,
}

/// The outcome of an action, handed back to [`DocumentFetch::step`].
#[derive(Debug)]
pub enum FetchEvent {
    /// The cached document, if the cache holds one.
    CachedDocument(Result<Option<String>>),
    /// The cached signature, if the cache holds one.
    CachedSignature(Result<Option<String>>),
    /// The cached document and signature were removed.
    Evicted(Result<()>),
    /// The document from the registry, if it exists there.
    RemoteDocument(Result<Option<String>>),
    /// The signature from the registry, if it exists there.
    RemoteSignature(Result<Option<String>>),
}

/// What the caller must do next.
#[derive(Debug)]
pub enum FetchAction {
    /// Read the document from the cache.
    ReadCachedDocument,
    /// Read the document's signature from the cache.
    ReadCachedSignature,
    /// Remove the cached document and its signature.
    EvictCached,
    /// Request the document from the registry.
    FetchRemoteDocument,
    /// Request the document's signature from the registry.
    FetchRemoteSignature,
    /// Done: parse this document and use it.
    Deliver(String),
    /// Done: store the document (and its signature) in the cache, ignoring
    /// any failure to do so, then parse the document and use it.
    StoreAndDeliver { document: String, signature: Option<String> },
    /// Done: the registry has no such document.
    Absent,
    /// Done: the fetch failed with this error.
    Fail(Error),
}

/// A fetch in progress.
pub struct DocumentFetch {
    kind: DocumentKind,
    name: String,
    key: Option<String>,
    stage: FetchStage,
    document: String,
}

/// A [`DocumentFetch`] with its strings taken by their characters.
pub struct FetchView {
    pub kind: DocumentKind,
    pub name: Seq<char>,
    pub key: Option<Seq<char>>,
    pub stage: FetchStage,
    pub document: Seq<char>,
}

/// A [`FetchEvent`] with its strings taken by their characters.
pub enum EventView {
    CachedDocument(std::result::Result<Option<Seq<char>>, ErrorView>),
    CachedSignature(std::result::Result<Option<Seq<char>>, ErrorView>),
    Evicted(std::result::Result<(), ErrorView>),
    RemoteDocument(std::result::Result<Option<Seq<char>>, ErrorView>),
    RemoteSignature(std::result::Result<Option<Seq<char>>, ErrorView>),
}

/// A [`FetchAction`] with its strings taken by their characters.
pub enum ActionView {
    ReadCachedDocument,
    ReadCachedSignature,
    EvictCached,
    FetchRemoteDocument,
    FetchRemoteSignature,
    Deliver(Seq<char>),
    StoreAndDeliver { document: Seq<char>, signature: Option<Seq<char>> },
    Absent,
    Fail(ErrorView),
}

/// The characters of an optional string.
pub open spec fn opt_text(o: Option<String>) -> Option<Seq<char>> {
    match o {
        Some(s) => Some(s@),
        None => None,
    }
}

/// The view of the outcome of a read that may find nothing.
pub open spec fn lookup_view(r: Result<Option<String>>) -> std::result::Result<
    Option<Seq<char>>,
    ErrorView,
> {
    match r {
        Ok(o) => Ok(opt_text(o)),
        Err(e) => Err(e@),
    }
}

impl View for FetchEvent {
    type V = EventView;

    open spec fn view(&self) -> EventView {
        match self {
            FetchEvent::CachedDocument(r) => EventView::CachedDocument(lookup_view(*r)),
            FetchEvent::CachedSignature(r) => EventView::CachedSignature(lookup_view(*r)),
            FetchEvent::Evicted(r) => EventView::Evicted(
                match r {
                    Ok(_) => Ok(()),
                    Err(e) => Err(e@),
                },
            ),
            FetchEvent::RemoteDocument(r) => EventView::RemoteDocument(lookup_view(*r)),
            FetchEvent::RemoteSignature(r) => EventView::RemoteSignature(lookup_view(*r)),
        }
    }
}

impl View for FetchAction {
    type V = ActionView;

    open spec fn view(&self) -> ActionView {
        match self {
            FetchAction::ReadCachedDocument => ActionView::ReadCachedDocument,
            FetchAction::ReadCachedSignature => ActionView::ReadCachedSignature,
            FetchAction::EvictCached => ActionView::EvictCached,
            FetchAction::FetchRemoteDocument => ActionView::FetchRemoteDocument,
            FetchAction::FetchRemoteSignature => ActionView::FetchRemoteSignature,
            FetchAction::Deliver(d) => ActionView::Deliver(d@),
            FetchAction::StoreAndDeliver { document, signature } => ActionView::StoreAndDeliver {
                document: document@,
                signature: opt_text(*signature),
            },
            FetchAction::Absent => ActionView::Absent,
            FetchAction::Fail(e) => ActionView::Fail(e@),
        }
    }
}

impl View for DocumentFetch {
    type V = FetchView;

    closed spec fn view(&self) -> FetchView {
        FetchView {
            kind: self.kind,
            name: self.name@,
            key: opt_text(self.key),
            stage: self.stage,
            document: self.document@,
        }
    }
}

/// The bytes a signature covers: the UTF-8 encoding of the document.
pub open spec fn signed_bytes(document: Seq<char>) -> Seq<u8> {
    vstd::utf8::encode_utf8(document)
}

/// `s` moved to `stage`.
pub open spec fn at_stage(s: FetchView, stage: FetchStage) -> FetchView {
    FetchView { kind: s.kind, name: s.name, key: s.key, stage, document: s.document }
}

/// `s` moved to `stage`, holding `document`.
pub open spec fn holding(s: FetchView, stage: FetchStage, document: Seq<char>) -> FetchView {
    FetchView { kind: s.kind, name: s.name, key: s.key, stage, document }
}

/// The event is the one the fetch waits for.
pub open spec fn awaits(s: FetchView, e: EventView) -> bool {
    match e {
        EventView::CachedDocument(_) => s.stage == FetchStage::AwaitCachedDocument,
        EventView::CachedSignature(_) => s.stage == FetchStage::AwaitCachedSignature,
        EventView::Evicted(_) => s.stage == FetchStage::AwaitEviction,
        EventView::RemoteDocument(_) => s.stage == FetchStage::AwaitRemoteDocument,
        EventView::RemoteSignature(_) => s.stage == FetchStage::AwaitRemoteSignature,
    }
}

/// The error reported when the registry holds a document but no signature.
pub open spec fn missing_signature(s: FetchView) -> ErrorView {
    ErrorView::ReportParse {
        name: s.name,
        reason: if s.kind == DocumentKind::Report {
            "report exists but signature is missing"@
        } else {
            "manifest exists but signature is missing"@
        },
    }
}

/// After a cached document failed its signature check: a cached report is
/// evicted first, a cached manifest is simply fetched again.
pub open spec fn refetch(s: FetchView) -> (FetchView, ActionView) {
    if s.kind == DocumentKind::Report {
        (at_stage(s, FetchStage::AwaitEviction), ActionView::EvictCached)
    } else {
        (at_stage(s, FetchStage::AwaitRemoteDocument), ActionView::FetchRemoteDocument)
    }
}

/// One step of the fetch: the next state and the action, given the event.
pub open spec fn fetch_next(s: FetchView, e: EventView) -> (FetchView, ActionView) {
    let done = at_stage(s, FetchStage::Finished);
    match e {
        EventView::CachedDocument(r) => match r {
            Err(err) => (done, ActionView::Fail(err)),
            Ok(None) => (at_stage(s, FetchStage::AwaitRemoteDocument), ActionView::FetchRemoteDocument),
            Ok(Some(raw)) => match s.key {
                Some(_) => (
                    holding(s, FetchStage::AwaitCachedSignature, raw),
                    ActionView::ReadCachedSignature,
                ),
                None => (holding(s, FetchStage::Finished, raw), ActionView::Deliver(raw)),
            },
        },
        EventView::CachedSignature(r) => match r {
            Err(err) => (done, ActionView::Fail(err)),
            Ok(None) => refetch(s),
            Ok(Some(sig)) => if s.key matches Some(k) && signature_accepted(
                k,
                signed_bytes(s.document),
                sig,
            ) {
                (done, ActionView::Deliver(s.document))
            } else {
                refetch(s)
            },
        },
        EventView::Evicted(r) => match r {
            Err(err) => (done, ActionView::Fail(err)),
            Ok(_) => (at_stage(s, FetchStage::AwaitRemoteDocument), ActionView::FetchRemoteDocument),
        },
        EventView::RemoteDocument(r) => match r {
            Err(err) => (done, ActionView::Fail(err)),
            Ok(None) => (done, ActionView::Absent),
            Ok(Some(doc)) => match s.key {
                Some(_) => (
                    holding(s, FetchStage::AwaitRemoteSignature, doc),
                    ActionView::FetchRemoteSignature,
                ),
                None => (
                    holding(s, FetchStage::Finished, doc),
                    ActionView::StoreAndDeliver { document: doc, signature: None },
                ),
            },
        },
        EventView::RemoteSignature(r) => match r {
            Err(err) => (done, ActionView::Fail(err)),
            Ok(None) => (done, ActionView::Fail(missing_signature(s))),
            Ok(Some(sig)) => match s.key {
                Some(k) => match crate::signing::verification(k, signed_bytes(s.document), sig) {
                    Err(err) => (done, ActionView::Fail(err)),
                    Ok(_) => (
                        done,
                        ActionView::StoreAndDeliver { document: s.document, signature: Some(sig) },
                    ),
                },
                None => (
                    done,
                    ActionView::StoreAndDeliver { document: s.document, signature: None },
                ),
            },
        },
    }
}

impl DocumentFetch {
    /// Starts fetching the document of `kind` for the crate `name`; `key` is
    /// the signing key, when signatures are required.  The first action is
    /// always to read the cache.
    pub fn new(kind: DocumentKind, name: &str, key: Option<&str>) -> (r: (DocumentFetch, FetchAction))
        ensures
            r.0@ == (FetchView {
                kind,
                name: name@,
                key: match key {
                    Some(k) => Some(k@),
                    None => None,
                },
                stage: FetchStage::AwaitCachedDocument,
                document: Seq::empty(),
            }),
            r.1@ == ActionView::ReadCachedDocument,
    {
        let key = match key {
            Some(k) => Some(owned(k)),
            None => None,
        };
        (
            DocumentFetch {
                kind,
                name: owned(name),
                key,
                stage: FetchStage::AwaitCachedDocument,
                document: String::new(),
            },
            FetchAction::ReadCachedDocument,
        )
    }

    /// The fetch waits for `event`.
    pub fn awaits(&self, event: &FetchEvent) -> (r: bool)
        ensures
            r == awaits(self@, event@),
    {
        match event {
            FetchEvent::CachedDocument(_) => self.stage == FetchStage::AwaitCachedDocument,
            FetchEvent::CachedSignature(_) => self.stage == FetchStage::AwaitCachedSignature,
            FetchEvent::Evicted(_) => self.stage == FetchStage::AwaitEviction,
            FetchEvent::RemoteDocument(_) => self.stage == FetchStage::AwaitRemoteDocument,
            FetchEvent::RemoteSignature(_) => self.stage == FetchStage::AwaitRemoteSignature,
        }
    }

    /// The stage the fetch is at.
    pub fn stage(&self) -> (r: FetchStage)
        ensures
            r == self@.stage,
    {
        self.stage
    }

    fn refetch(&mut self) -> (a: FetchAction)
        ensures
            (final(self)@, a@) == refetch(old(self)@),
    {
        if self.kind == DocumentKind::Report {
            self.stage = FetchStage::AwaitEviction;
            FetchAction::EvictCached
        } else {
            self.stage = FetchStage::AwaitRemoteDocument;
            FetchAction::FetchRemoteDocument
        }
    }

    /// Takes the outcome of the last action and returns the next action.
    pub fn step(&mut self, event: FetchEvent) -> (a: FetchAction)
        requires
            awaits(old(self)@, event@),
        ensures
            (final(self)@, a@) == fetch_next(old(self)@, event@),
    {
        match event {
            FetchEvent::CachedDocument(r) => match r {
                Err(err) => {
                    self.stage = FetchStage::Finished;
                    FetchAction::Fail(err)
                },
                Ok(None) => {
                    self.stage = FetchStage::AwaitRemoteDocument;
                    FetchAction::FetchRemoteDocument
                },
                Ok(Some(raw)) => {
                    if self.key.is_some() {
                        self.stage = FetchStage::AwaitCachedSignature;
                        self.document = raw;
                        FetchAction::ReadCachedSignature
                    } else {
                        self.stage = FetchStage::Finished;
                        self.document = raw.clone();
                        FetchAction::Deliver(raw)
                    }
                },
            },
            FetchEvent::CachedSignature(r) => match r {
                Err(err) => {
                    self.stage = FetchStage::Finished;
                    FetchAction::Fail(err)
                },
                Ok(None) => self.refetch(),
                Ok(Some(sig)) => {
                    let accepted = match &self.key {
                        Some(k) => verify(k.as_str(), self.document.as_str().as_bytes(), sig.as_str()).is_ok(),
                        None => false,
                    };
                    if accepted {
                        self.stage = FetchStage::Finished;
                        FetchAction::Deliver(self.document.clone())
                    } else {
                        self.refetch()
                    }
                },
            },
            FetchEvent::Evicted(r) => match r {
                Err(err) => {
                    self.stage = FetchStage::Finished;
                    FetchAction::Fail(err)
                },
                Ok(_) => {
                    self.stage = FetchStage::AwaitRemoteDocument;
                    FetchAction::FetchRemoteDocument
                },
            },
            FetchEvent::RemoteDocument(r) => match r {
                Err(err) => {
                    self.stage = FetchStage::Finished;
                    FetchAction::Fail(err)
                },
                Ok(None) => {
                    self.stage = FetchStage::Finished;
                    FetchAction::Absent
                },
                Ok(Some(doc)) => {
                    if self.key.is_some() {
                        self.stage = FetchStage::AwaitRemoteSignature;
                        self.document = doc;
                        FetchAction::FetchRemoteSignature
                    } else {
                        self.stage = FetchStage::Finished;
                        self.document = doc.clone();
                        FetchAction::StoreAndDeliver { document: doc, signature: None }
                    }
                },
            },
            FetchEvent::RemoteSignature(r) => match r {
                Err(err) => {
                    self.stage = FetchStage::Finished;
                    FetchAction::Fail(err)
                },
                Ok(None) => {
                    self.stage = FetchStage::Finished;
                    let reason = if self.kind == DocumentKind::Report {
                        owned("report exists but signature is missing")
                    } else {
                        owned("manifest exists but signature is missing")
                    };
                    FetchAction::Fail(Error::ReportParse { name: self.name.clone(), reason })
                },
                Ok(Some(sig)) => {
                    self.stage = FetchStage::Finished;
                    match &self.key {
                        Some(k) => match verify(
                            k.as_str(),
                            self.document.as_str().as_bytes(),
                            sig.as_str(),
                        ) {
                            Err(err) => FetchAction::Fail(err),
                            Ok(()) => FetchAction::StoreAndDeliver {
                                document: self.document.clone(),
                                signature: Some(sig),
                            },
                        },
                        None => FetchAction::StoreAndDeliver {
                            document: self.document.clone(),
                            signature: None,
                        },
                    }
                },
            },
        }
    }
}

// ---------------------------------------------------------------------------
// Laws
// ---------------------------------------------------------------------------

/// The action hands a document over for use.
pub open spec fn delivers(a: ActionView) -> bool {
    a is Deliver || a is StoreAndDeliver
}

/// The document an action hands over.
pub open spec fn delivered(a: ActionView) -> Seq<char> {
    match a {
        ActionView::Deliver(d) => d,
        ActionView::StoreAndDeliver { document, .. } => document,
        _ => Seq::empty(),
    }
}

/// When a signing key is configured, a document is only ever handed over
/// for use in the step that has just checked a signature over its exact
/// bytes with that key: the cached signature for a cached document, the
/// registry's signature for a downloaded one; and that signature is the
/// one handed over for caching.
pub proof fn law_delivery_is_signed(s: FetchView, e: EventView)
    requires
        s.key is Some,
        awaits(s, e),
        delivers(fetch_next(s, e).1),
    ensures
        ({
            let d = delivered(fetch_next(s, e).1);
            let k = s.key->0;
            ||| (e matches EventView::CachedSignature(Ok(Some(sig))) && signature_accepted(
                k,
                signed_bytes(d),
                sig,
            ))
            ||| (e matches EventView::RemoteSignature(Ok(Some(sig))) && signature_accepted(
                k,
                signed_bytes(d),
                sig,
            ) && fetch_next(s, e).1 == ActionView::StoreAndDeliver {
                document: d,
                signature: Some(sig),
            })
        }),
{
}

/// Without a signing key, a document found in the cache is used as it is,
/// without asking the registry.
pub proof fn law_unsigned_cache_hit(s: FetchView, doc: Seq<char>)
    requires
        s.key is None,
        s.stage == FetchStage::AwaitCachedDocument,
    ensures
        fetch_next(s, EventView::CachedDocument(Ok(Some(doc)))).1 == ActionView::Deliver(doc),
{
}

/// A fetch ends with "absent" only when the registry answered that it has
/// no such document.
pub proof fn law_absent_only_when_registry_lacks(s: FetchView, e: EventView)
    requires
        awaits(s, e),
        fetch_next(s, e).1 is Absent,
    ensures
        e == EventView::RemoteDocument(Ok(None)),
{
}

/// Whatever the kind of document, when the registry answers that it has no
/// such document the fetch ends, and ends with "absent" (so that the
/// caller can go on without it, e.g. by asking for an analysis), not with
/// an error.
pub proof fn law_registry_lacking_document_is_absent(s: FetchView)
    requires
        s.stage == FetchStage::AwaitRemoteDocument,
    ensures
        fetch_next(s, EventView::RemoteDocument(Ok(None))).1 == ActionView::Absent,
        fetch_next(s, EventView::RemoteDocument(Ok(None))).0 == at_stage(s, FetchStage::Finished),
{
}

/// Every step that ends the fetch, and only such a step, moves it to the
/// finished stage; a finished fetch waits for nothing.
pub proof fn law_terminal_actions_finish(s: FetchView, e: EventView)
    requires
        awaits(s, e),
    ensures
        (fetch_next(s, e).0.stage == FetchStage::Finished) <==> (delivers(fetch_next(s, e).1)
            || fetch_next(s, e).1 is Absent || fetch_next(s, e).1 is Fail),
        forall|e2: EventView| !awaits(at_stage(s, FetchStage::Finished), e2),
{
}

/// How many more steps a fetch at `stage` can take at most.
pub open spec fn steps_left(stage: FetchStage) -> nat {
    match stage {
        FetchStage::AwaitCachedDocument => 5,
        FetchStage::AwaitCachedSignature => 4,
        FetchStage::AwaitEviction => 3,
        FetchStage::AwaitRemoteDocument => 2,
        FetchStage::AwaitRemoteSignature => 1,
        FetchStage::Finished => 0,
    }
}

/// Every step moves the fetch strictly forward, so a fetch performs at
/// most five actions before it finishes: the cache is read at most once,
/// and the registry is asked at most once for the document and once for
/// its signature.
pub proof fn law_fetch_progresses(s: FetchView, e: EventView)
    requires
        awaits(s, e),
    ensures
        steps_left(fetch_next(s, e).0.stage) < steps_left(s.stage),
{
}

/// With a signing key, a document the registry holds without a signature,
/// or with a signature that does not verify, ends the fetch in failure and
/// is neither stored nor used: a missing signature is reported as such, a
/// bad one with the verification error.
pub proof fn law_unverified_remote_document_fails(s: FetchView, e: EventView)
    requires
        s.key is Some,
        awaits(s, e),
        e matches EventView::RemoteSignature(Ok(sig)) && (sig is None || !signature_accepted(
            s.key->0,
            signed_bytes(s.document),
            sig->0,
        )),
    ensures
        fetch_next(s, e).0.stage == FetchStage::Finished,
        fetch_next(s, e).1 is Fail,
        e == EventView::RemoteSignature(Ok(None)) ==> fetch_next(s, e).1 == ActionView::Fail(
            missing_signature(s),
        ),
{
}

// ---------------------------------------------------------------------------
// Whole fetches
// ---------------------------------------------------------------------------

/// The state after the events `es`, one step each, from `s0`.
pub open spec fn run_state(s0: FetchView, es: Seq<EventView>) -> FetchView
    decreases es.len(),
{
    if es.len() == 0 {
        s0
    } else {
        fetch_next(run_state(s0, es.drop_last()), es.last()).0
    }
}

/// The action of step `k` of the run.
pub open spec fn run_action(s0: FetchView, es: Seq<EventView>, k: int) -> ActionView {
    fetch_next(run_state(s0, es.take(k)), es[k]).1
}

/// Every event of the run is the one its fetch waits for.
pub open spec fn valid_run(s0: FetchView, es: Seq<EventView>) -> bool {
    forall|k: int| 0 <= k < es.len() ==> awaits(#[trigger] run_state(s0, es.take(k)), es[k])
}

/// The action ends the fetch.
pub open spec fn terminal(a: ActionView) -> bool {
    delivers(a) || a is Absent || a is Fail
}

proof fn lemma_take_step(es: Seq<EventView>, k: int)
    requires
        0 <= k < es.len(),
    ensures
        es.take(k + 1).drop_last() == es.take(k),
        es.take(k + 1).last() == es[k],
{
    assert(es.take(k + 1).drop_last() =~= es.take(k));
}

/// The signing key never changes along a run.
proof fn lemma_run_keeps_key(s0: FetchView, es: Seq<EventView>)
    ensures
        run_state(s0, es).key == s0.key,
    decreases es.len(),
{
    if es.len() > 0 {
        lemma_run_keeps_key(s0, es.drop_last());
    }
}

/// A fetch waiting for a signature holds the document the event just
/// before delivered: the cached one or the registry's.
proof fn lemma_signature_stage_holds_last_document(s0: FetchView, es: Seq<EventView>)
    requires
        s0.stage == FetchStage::AwaitCachedDocument,
        run_state(s0, es).stage == FetchStage::AwaitCachedSignature || run_state(s0, es).stage
            == FetchStage::AwaitRemoteSignature,
    ensures
        es.len() > 0,
        es.last() == EventView::CachedDocument(Ok(Some(run_state(s0, es).document)))
            || es.last() == EventView::RemoteDocument(Ok(Some(run_state(s0, es).document))),
{
}

/// Over a whole fetch with a signing key, a document is only ever handed
/// over (and a document and signature only ever stored) when it is exactly
/// the document the cache or the registry gave in the step before, and the
/// step that hands it over checked a signature of its exact bytes with
/// that key: the cached signature for a cached document, the registry's
/// signature for a downloaded one, which is the signature stored with it.
pub proof fn law_run_delivers_only_verified(s0: FetchView, es: Seq<EventView>, k: int)
    requires
        s0.stage == FetchStage::AwaitCachedDocument,
        s0.key is Some,
        valid_run(s0, es),
        0 <= k < es.len(),
        delivers(run_action(s0, es, k)),
    ensures
        k > 0,
        ({
            let d = delivered(run_action(s0, es, k));
            let key = s0.key->0;
            ||| (es[k - 1] == EventView::CachedDocument(Ok(Some(d))) && (es[k] matches EventView::CachedSignature(Ok(Some(sig)))
                && signature_accepted(key, signed_bytes(d), sig) && run_action(s0, es, k)
                == ActionView::Deliver(d)))
            ||| (es[k - 1] == EventView::RemoteDocument(Ok(Some(d))) && (es[k] matches EventView::RemoteSignature(Ok(Some(sig)))
                && signature_accepted(key, signed_bytes(d), sig) && run_action(s0, es, k)
                == ActionView::StoreAndDeliver { document: d, signature: Some(sig) }))
        }),
{
    let s = run_state(s0, es.take(k));
    assert(awaits(run_state(s0, es.take(k)), es[k]));
    lemma_run_keeps_key(s0, es.take(k));
    law_delivery_is_signed(s, es[k]);
    lemma_signature_stage_holds_last_document(s0, es.take(k));
    if k > 0 {
        lemma_take_step(es, k - 1);
    } else {
        assert(es.take(0) =~= Seq::<EventView>::empty());
    }
}

/// A fetch ends once: in a run of awaited events only the last step can
/// hand a document over, store one, report it absent or fail.  So a fetch
/// that fails, or finds nothing, never stored anything.
pub proof fn law_run_ends_once(s0: FetchView, es: Seq<EventView>, k: int)
    requires
        valid_run(s0, es),
        0 <= k < es.len() - 1,
    ensures
        !terminal(run_action(s0, es, k)),
{
    let s = run_state(s0, es.take(k));
    assert(awaits(run_state(s0, es.take(k)), es[k]));
    assert(awaits(run_state(s0, es.take(k + 1)), es[k + 1]));
    lemma_take_step(es, k);
    law_terminal_actions_finish(s, es[k]);
    if terminal(run_action(s0, es, k)) {
        assert(run_state(s0, es.take(k + 1)) == fetch_next(s, es[k]).0);
        assert(!awaits(at_stage(s, FetchStage::Finished), es[k + 1]));
        assert(fetch_next(s, es[k]).0 == at_stage(s, FetchStage::Finished)) by {
            assert(fetch_next(s, es[k]).0.stage == FetchStage::Finished);
        }
    }
}

} // verus!
