//! The durable state on the bus: five key-value namespaces and the queue of
//! sessions to delete, and the order in which they are provisioned once a
//! connection stands.
//!
//! The caller talks to the bus. This module says what each namespace and the
//! queue look like, which step of the provisioning is next, and how an
//! outcome of a step moves it on.

use vstd::prelude::*;
use vstd::string::*;
use crate::text::{decimal_text, format_decimal};

verus! {

/// The most bytes that a value of a bounded namespace takes.
pub const MAX_VALUE_BYTES: i32 = 1024;

/// How long a session mapping is kept, in milliseconds.
pub const SESSION_MAPPING_AGE_MILLIS: u64 = 30_000;

/// How long a certificate digest is kept, in milliseconds: fourteen days.
pub const CERT_DIGEST_AGE_MILLIS: u64 = 1_209_600_000;

/// A named durable map from keys to bytes.
#[derive(Clone, Debug, PartialEq, Eq)]
pub struct KvNamespace {
    pub bucket: String,
    pub description: String,
    /// The most bytes that a value takes; 0 where values are not bounded.
    pub max_value_size: i32,
    /// How long an entry is kept, in milliseconds; 0 where entries do not
    /// expire.
    pub max_age_millis: u64,
}

/// A namespace as a value of specifications.
pub struct KvNamespaceView {
    pub bucket: Seq<char>,
    pub description: Seq<char>,
    pub max_value_size: i32,
    pub max_age_millis: u64,
}

impl View for KvNamespace {
    type V = KvNamespaceView;

    open spec fn view(&self) -> KvNamespaceView {
        KvNamespaceView {
            bucket: self.bucket@,
            description: self.description@,
            max_value_size: self.max_value_size,
            max_age_millis: self.max_age_millis,
        }
    }
}

/// A durable queue whose entries are each handed to one worker and are gone
/// once the worker has taken them.
#[derive(Clone, Debug, PartialEq, Eq)]
pub struct WorkQueue {
    pub name: String,
    /// The pattern of the subjects whose messages the queue keeps.
    pub subjects: String,
}

/// A queue as a value of specifications.
pub struct WorkQueueView {
    pub name: Seq<char>,
    pub subjects: Seq<char>,
}

impl View for WorkQueue {
    type V = WorkQueueView;

    open spec fn view(&self) -> WorkQueueView {
        WorkQueueView { name: self.name@, subjects: self.subjects@ }
    }
}

/// The five namespaces.
#[derive(Clone, Copy, Debug, PartialEq, Eq)]
pub enum Namespace {
    /// Sessions of the deployment service to client ids.
    SessionsToClients,
    /// Client ids to sessions of the deployment service.
    ClientsToSessions,
    ActiveConnections,
    CertDigests,
    UnclaimedSessions,
}

/// What is provisioned: the namespaces and the queue of sessions to delete.
#[derive(Clone, Copy, Debug, PartialEq, Eq)]
pub enum Resource {
    Namespace(Namespace),
    DeleteQueue,
}

/// A namespace with no description and no limits.
pub open spec fn plain_namespace(bucket: Seq<char>) -> KvNamespaceView {
    KvNamespaceView { bucket, description: Seq::empty(), max_value_size: 0, max_age_millis: 0 }
}

/// What a namespace looks like.
pub open spec fn namespace_of(namespace: Namespace) -> KvNamespaceView {
    match namespace {
        Namespace::SessionsToClients => KvNamespaceView {
            bucket: "sessions_eg2ly"@,
            description: "Maps Edgegap Session IDs to Lightyear Client IDs"@,
            max_value_size: MAX_VALUE_BYTES,
            max_age_millis: SESSION_MAPPING_AGE_MILLIS,
        },
        Namespace::ClientsToSessions => KvNamespaceView {
            bucket: "sessions_ly2eg"@,
            description: "Maps Lightyear Client IDs to Edgegap Session IDs"@,
            max_value_size: MAX_VALUE_BYTES,
            max_age_millis: SESSION_MAPPING_AGE_MILLIS,
        },
        Namespace::ActiveConnections => plain_namespace("active_connections"@),
        Namespace::CertDigests => KvNamespaceView {
            bucket: "cert_digests"@,
            description: "Maps server public ip to their self-signed cert digests"@,
            max_value_size: MAX_VALUE_BYTES,
            max_age_millis: CERT_DIGEST_AGE_MILLIS,
        },
        Namespace::UnclaimedSessions => KvNamespaceView {
            bucket: "unclaimed_sessions"@,
            description: "Any session ids we get from the API are stored here, and if they key age gets too big, we delete the session via the API."@,
            max_value_size: MAX_VALUE_BYTES,
            max_age_millis: 0,
        },
    }
}

/// What the queue of sessions to delete looks like.
pub open spec fn delete_queue() -> WorkQueueView {
    WorkQueueView { name: "DELETE_SESSION_STREAM"@, subjects: "edgegap_delete_session_q.*"@ }
}

/// The subject under which the session `session_id` is queued for deletion.
pub open spec fn delete_subject_text(session_id: Seq<char>) -> Seq<char> {
    "edgegap_delete_session_q."@ + session_id
}

/// The name of the namespace that is made and dropped to see whether the
/// bus offers durable storage, for a probe at the time `now`.
pub open spec fn probe_bucket_text(now: u64) -> Seq<char> {
    "test_connectivity_"@ + decimal_text(now as nat)
}

/// A namespace with no description and no limits.
fn plain(bucket: &str) -> (namespace: KvNamespace)
    ensures
        namespace@ == plain_namespace(bucket@),
{
    KvNamespace {
        bucket: String::from_str(bucket),
        description: String::new(),
        max_value_size: 0,
        max_age_millis: 0,
    }
}

/// A namespace whose values are bounded.
fn bounded(bucket: &str, description: &str, max_age_millis: u64) -> (namespace: KvNamespace)
    ensures
        namespace@ == (KvNamespaceView {
            bucket: bucket@,
            description: description@,
            max_value_size: MAX_VALUE_BYTES,
            max_age_millis,
        }),
{
    KvNamespace {
        bucket: String::from_str(bucket),
        description: String::from_str(description),
        max_value_size: MAX_VALUE_BYTES,
        max_age_millis,
    }
}

/// The two namespaces that map sessions and clients to each other.
pub fn session_mapping_namespaces() -> (pair: (KvNamespace, KvNamespace))
    ensures
        pair.0@ == namespace_of(Namespace::SessionsToClients),
        pair.1@ == namespace_of(Namespace::ClientsToSessions),
{
    (
        bounded(
            "sessions_eg2ly",
            "Maps Edgegap Session IDs to Lightyear Client IDs",
            SESSION_MAPPING_AGE_MILLIS,
        ),
        bounded(
            "sessions_ly2eg",
            "Maps Lightyear Client IDs to Edgegap Session IDs",
            SESSION_MAPPING_AGE_MILLIS,
        ),
    )
}

/// The namespace of the connections that are in use.
pub fn active_connections_namespace() -> (namespace: KvNamespace)
    ensures
        namespace@ == namespace_of(Namespace::ActiveConnections),
{
    plain("active_connections")
}

/// The namespace of the certificate digests of the game servers.
pub fn cert_digests_namespace() -> (namespace: KvNamespace)
    ensures
        namespace@ == namespace_of(Namespace::CertDigests),
{
    bounded(
        "cert_digests",
        "Maps server public ip to their self-signed cert digests",
        CERT_DIGEST_AGE_MILLIS,
    )
}

/// The namespace of the sessions that no client has claimed yet.
pub fn unclaimed_sessions_namespace() -> (namespace: KvNamespace)
    ensures
        namespace@ == namespace_of(Namespace::UnclaimedSessions),
{
    bounded(
        "unclaimed_sessions",
        "Any session ids we get from the API are stored here, and if they key age gets too big, we delete the session via the API.",
        0,
    )
}

/// What the namespace `namespace` looks like.
pub fn namespace_config(namespace: Namespace) -> (config: KvNamespace)
    ensures
        config@ == namespace_of(namespace),
{
    match namespace {
        Namespace::SessionsToClients => session_mapping_namespaces().0,
        Namespace::ClientsToSessions => session_mapping_namespaces().1,
        Namespace::ActiveConnections => active_connections_namespace(),
        Namespace::CertDigests => cert_digests_namespace(),
        Namespace::UnclaimedSessions => unclaimed_sessions_namespace(),
    }
}

/// What the queue of sessions to delete looks like.
pub fn session_delete_queue() -> (queue: WorkQueue)
    ensures
        queue@ == delete_queue(),
{
    WorkQueue {
        name: String::from_str("DELETE_SESSION_STREAM"),
        subjects: String::from_str("edgegap_delete_session_q.*"),
    }
}

/// The subject under which a session is queued for deletion. The message
/// under it holds the session id, and counts as queued once the bus has
/// acknowledged it.
pub fn delete_subject(session_id: &str) -> (subject: String)
    ensures
        subject@ == delete_subject_text(session_id@),
{
    let mut subject = String::from_str("edgegap_delete_session_q.");
    subject.append(session_id);
    subject
}

/// The name of the probe namespace for a probe at the time `now`.
pub fn probe_bucket(now: u64) -> (bucket: String)
    ensures
        bucket@ == probe_bucket_text(now),
{
    let mut bucket = String::from_str("test_connectivity_");
    let stamp = format_decimal(now);
    bucket.append(stamp.as_str());
    bucket
}

// ---------------------------------------------------------------------------
// The order of provisioning
// ---------------------------------------------------------------------------

/// Why provisioning stopped.
#[derive(Clone, Copy, Debug, PartialEq, Eq)]
pub enum ProvisionFailure {
    /// The probe namespace could not be made: the bus offers no durable
    /// storage.
    Unavailable,
    /// This namespace, or the queue, could not be made.
    Refused(Resource),
}

/// How far provisioning has come.
#[derive(Clone, Copy, Debug, PartialEq, Eq)]
pub enum ProvisionStep {
    /// The probe namespace is to be made.
    Probe,
    /// The probe namespace is to be dropped.
    ProbeCleanup,
    /// This namespace, or the queue, is to be made.
    Create(Resource),
    /// Everything is there.
    Done,
    /// Provisioning has stopped. What was made stays.
    Failed(ProvisionFailure),
}

/// The first resource that is made.
pub open spec fn first_resource() -> Resource {
    Resource::Namespace(Namespace::SessionsToClients)
}

/// The resource that is made after `resource`; `None` after the last.
pub open spec fn resource_after(resource: Resource) -> Option<Resource> {
    match resource {
        Resource::Namespace(Namespace::SessionsToClients) => Some(
            Resource::Namespace(Namespace::ClientsToSessions),
        ),
        Resource::Namespace(Namespace::ClientsToSessions) => Some(
            Resource::Namespace(Namespace::ActiveConnections),
        ),
        Resource::Namespace(Namespace::ActiveConnections) => Some(
            Resource::Namespace(Namespace::CertDigests),
        ),
        Resource::Namespace(Namespace::CertDigests) => Some(
            Resource::Namespace(Namespace::UnclaimedSessions),
        ),
        Resource::Namespace(Namespace::UnclaimedSessions) => Some(Resource::DeleteQueue),
        Resource::DeleteQueue => None,
    }
}

/// The step that follows `step` once what it asked for has succeeded
/// (`ok`) or failed.
///
/// A probe that fails stops everything. A probe namespace that cannot be
/// dropped is left behind and provisioning goes on. A namespace or a queue
/// that cannot be made stops everything, and nothing is undone.
pub open spec fn step_after(step: ProvisionStep, ok: bool) -> ProvisionStep {
    match step {
        ProvisionStep::Probe => if ok {
            ProvisionStep::ProbeCleanup
        } else {
            ProvisionStep::Failed(ProvisionFailure::Unavailable)
        },
        ProvisionStep::ProbeCleanup => ProvisionStep::Create(first_resource()),
        ProvisionStep::Create(resource) => if ok {
            match resource_after(resource) {
                Some(next) => ProvisionStep::Create(next),
                None => ProvisionStep::Done,
            }
        } else {
            ProvisionStep::Failed(ProvisionFailure::Refused(resource))
        },
        ProvisionStep::Done => ProvisionStep::Done,
        ProvisionStep::Failed(failure) => ProvisionStep::Failed(failure),
    }
}

/// The step reached from `step` by a run of outcomes.
pub open spec fn step_after_all(step: ProvisionStep, outcomes: Seq<bool>) -> ProvisionStep
    decreases outcomes.len(),
{
    if outcomes.len() == 0 {
        step
    } else {
        step_after(step_after_all(step, outcomes.drop_last()), outcomes.last())
    }
}

/// The resource that is made after `resource`.
pub fn next_resource(resource: Resource) -> (next: Option<Resource>)
    ensures
        next == resource_after(resource),
{
    match resource {
        Resource::Namespace(Namespace::SessionsToClients) => Some(
            Resource::Namespace(Namespace::ClientsToSessions),
        ),
        Resource::Namespace(Namespace::ClientsToSessions) => Some(
            Resource::Namespace(Namespace::ActiveConnections),
        ),
        Resource::Namespace(Namespace::ActiveConnections) => Some(
            Resource::Namespace(Namespace::CertDigests),
        ),
        Resource::Namespace(Namespace::CertDigests) => Some(
            Resource::Namespace(Namespace::UnclaimedSessions),
        ),
        Resource::Namespace(Namespace::UnclaimedSessions) => Some(Resource::DeleteQueue),
        Resource::DeleteQueue => None,
    }
}

impl ProvisionStep {
    /// The step with which provisioning begins.
    pub fn first() -> (step: ProvisionStep)
        ensures
            step == ProvisionStep::Probe,
    {
        ProvisionStep::Probe
    }

    /// The step that follows once what this one asked for has succeeded
    /// (`ok`) or failed.
    pub fn advance(self, ok: bool) -> (next: ProvisionStep)
        ensures
            next == step_after(self, ok),
    {
        match self {
            ProvisionStep::Probe => if ok {
                ProvisionStep::ProbeCleanup
            } else {
                ProvisionStep::Failed(ProvisionFailure::Unavailable)
            },
            ProvisionStep::ProbeCleanup => ProvisionStep::Create(
                Resource::Namespace(Namespace::SessionsToClients),
            ),
            ProvisionStep::Create(resource) => if ok {
                match next_resource(resource) {
                    Some(next) => ProvisionStep::Create(next),
                    None => ProvisionStep::Done,
                }
            } else {
                ProvisionStep::Failed(ProvisionFailure::Refused(resource))
            },
            ProvisionStep::Done => ProvisionStep::Done,
            ProvisionStep::Failed(failure) => ProvisionStep::Failed(failure),
        }
    }

    /// Whether nothing is left to do: everything is there, or provisioning
    /// has stopped.
    pub fn is_final(&self) -> (ended: bool)
        ensures
            ended == (*self is Done || *self is Failed),
    {
        match self {
            ProvisionStep::Done => true,
            ProvisionStep::Failed(_) => true,
            _ => false,
        }
    }
}

/// What a step asks the caller to do on the bus.
#[derive(Clone, Debug, PartialEq, Eq)]
pub enum ProvisionAction {
    CreateNamespace(KvNamespace),
    DropNamespace(String),
    CreateQueue(WorkQueue),
}

/// What a step asks for, as a value of specifications.
pub enum ActionView {
    CreateNamespace(KvNamespaceView),
    DropNamespace(Seq<char>),
    CreateQueue(WorkQueueView),
}

/// An action as a value of specifications.
pub open spec fn action_view(action: ProvisionAction) -> ActionView {
    match action {
        ProvisionAction::CreateNamespace(namespace) => ActionView::CreateNamespace(namespace@),
        ProvisionAction::DropNamespace(bucket) => ActionView::DropNamespace(bucket@),
        ProvisionAction::CreateQueue(queue) => ActionView::CreateQueue(queue@),
    }
}

/// What a step asks the caller to do on the bus, with `probe` as the name
/// of the probe namespace.
pub open spec fn action_of(step: ProvisionStep, probe: Seq<char>) -> Option<ActionView> {
    match step {
        ProvisionStep::Probe => Some(ActionView::CreateNamespace(plain_namespace(probe))),
        ProvisionStep::ProbeCleanup => Some(ActionView::DropNamespace(probe)),
        ProvisionStep::Create(Resource::DeleteQueue) => Some(
            ActionView::CreateQueue(delete_queue()),
        ),
        ProvisionStep::Create(Resource::Namespace(namespace)) => Some(
            ActionView::CreateNamespace(namespace_of(namespace)),
        ),
        ProvisionStep::Done => None,
        ProvisionStep::Failed(_) => None,
    }
}

/// What the step `step` asks the caller to do on the bus, with `probe` as
/// the name of the probe namespace. `None` where nothing is left to do.
pub fn provision_action(step: ProvisionStep, probe: &str) -> (action: Option<ProvisionAction>)
    ensures
        match action_of(step, probe@) {
            Some(wanted) => action matches Some(a) && action_view(a) == wanted,
            None => action is None,
        },
{
    match step {
        ProvisionStep::Probe => Some(ProvisionAction::CreateNamespace(plain(probe))),
        ProvisionStep::ProbeCleanup => Some(ProvisionAction::DropNamespace(String::from_str(probe))),
        ProvisionStep::Create(Resource::Namespace(namespace)) => Some(
            ProvisionAction::CreateNamespace(namespace_config(namespace)),
        ),
        ProvisionStep::Create(Resource::DeleteQueue) => Some(
            ProvisionAction::CreateQueue(session_delete_queue()),
        ),
        ProvisionStep::Done => None,
        ProvisionStep::Failed(_) => None,
    }
}

/// Once provisioning has ended, it stays as it is, whatever is reported.
pub proof fn lemma_final_steps_stay(step: ProvisionStep, outcomes: Seq<bool>)
    requires
        step is Done || step is Failed,
    ensures
        step_after_all(step, outcomes) == step,
    decreases outcomes.len(),
{
    if outcomes.len() > 0 {
        lemma_final_steps_stay(step, outcomes.drop_last());
    }
}

/// Provisioning is complete after eight steps, of which only the second,
/// the drop of the probe namespace, may fail.
pub proof fn lemma_provisioning_completes(cleanup_ok: bool)
    ensures
        step_after_all(
            ProvisionStep::Probe,
            seq![true, cleanup_ok, true, true, true, true, true, true],
        ) == ProvisionStep::Done,
{
    let outcomes = seq![true, cleanup_ok, true, true, true, true, true, true];
    let s1 = step_after_all(ProvisionStep::Probe, outcomes.take(1));
    assert(outcomes.take(1).drop_last() =~= Seq::<bool>::empty());
    assert(step_after_all(ProvisionStep::Probe, outcomes.take(1).drop_last())
        == ProvisionStep::Probe);
    assert(s1 == ProvisionStep::ProbeCleanup);
    assert(outcomes.take(2).drop_last() == outcomes.take(1));
    assert(outcomes.take(3).drop_last() == outcomes.take(2));
    assert(outcomes.take(4).drop_last() == outcomes.take(3));
    assert(outcomes.take(5).drop_last() == outcomes.take(4));
    assert(outcomes.take(6).drop_last() == outcomes.take(5));
    assert(outcomes.take(7).drop_last() == outcomes.take(6));
    assert(outcomes.take(8).drop_last() == outcomes.take(7));
    assert(outcomes.take(8) == outcomes);
    assert(step_after_all(ProvisionStep::Probe, outcomes.take(2)) == ProvisionStep::Create(
        Resource::Namespace(Namespace::SessionsToClients),
    ));
    assert(step_after_all(ProvisionStep::Probe, outcomes.take(3)) == ProvisionStep::Create(
        Resource::Namespace(Namespace::ClientsToSessions),
    ));
    assert(step_after_all(ProvisionStep::Probe, outcomes.take(4)) == ProvisionStep::Create(
        Resource::Namespace(Namespace::ActiveConnections),
    ));
    assert(step_after_all(ProvisionStep::Probe, outcomes.take(5)) == ProvisionStep::Create(
        Resource::Namespace(Namespace::CertDigests),
    ));
    assert(step_after_all(ProvisionStep::Probe, outcomes.take(6)) == ProvisionStep::Create(
        Resource::Namespace(Namespace::UnclaimedSessions),
    ));
    assert(step_after_all(ProvisionStep::Probe, outcomes.take(7)) == ProvisionStep::Create(
        Resource::DeleteQueue,
    ));
}

} // verus!
