//! Connecting to the bus: how the connection is secured, and in which
//! order the candidates of an endpoint are tried.
//!
//! Each attempt is made by the caller, one candidate at a time. The plan of
//! this module says which candidate is next, records each failure, and ends
//! in the error that names the last one where no candidate is left.

use vstd::prelude::*;
use vstd::string::*;
use crate::resolver::{candidate_view, candidate_views, Candidate};
use crate::text::{chars_of, contains_text, has_substring, push_char};

verus! {

/// How often a lost connection is made again, unless the settings say
/// otherwise.
pub const DEFAULT_MAX_RECONNECTS: usize = 10;

/// How the connection to the bus is secured.
#[derive(Clone, Debug, PartialEq, Eq)]
pub enum TlsMode {
    /// TLS, with the certificate authorities that the system trusts.
    SystemTrust,
    /// TLS, with the certificate authority in the file at this path.
    CustomCaFile(String),
    /// TLS, with the certificate authority whose certificate this is.
    CustomCaInline(String),
    /// TLS is not asked for.
    Insecure,
}

/// Why no connection to the bus came about.
#[derive(Clone, Debug, PartialEq, Eq)]
pub enum ConnectError {
    /// Every candidate failed; the text is what the last failure said.
    AllCandidatesExhausted(String),
    /// The connection stands, but the bus offers no durable storage.
    ProvisioningUnavailable(String),
}

/// The mode that the settings of a process ask for: no TLS where they say
/// so, else the certificate authority that they name, a file before a
/// certificate given in full, else the authorities of the system.
pub open spec fn chosen_mode(
    insecure: bool,
    ca_file: Option<String>,
    ca_contents: Option<String>,
) -> TlsMode {
    if insecure {
        TlsMode::Insecure
    } else {
        match ca_file {
            Some(path) => TlsMode::CustomCaFile(path),
            None => match ca_contents {
                Some(contents) => TlsMode::CustomCaInline(contents),
                None => TlsMode::SystemTrust,
            },
        }
    }
}

/// The mode that the settings of a process ask for.
pub fn select_tls_mode(insecure: bool, ca_file: Option<String>, ca_contents: Option<String>) -> (mode:
    TlsMode)
    ensures
        mode == chosen_mode(insecure, ca_file, ca_contents),
{
    if insecure {
        TlsMode::Insecure
    } else {
        match ca_file {
            Some(path) => TlsMode::CustomCaFile(path),
            None => match ca_contents {
                Some(contents) => TlsMode::CustomCaInline(contents),
                None => TlsMode::SystemTrust,
            },
        }
    }
}

impl TlsMode {
    /// Whether a connection in this mode must use TLS.
    pub fn requires_tls(&self) -> (required: bool)
        ensures
            required == !(*self is Insecure),
    {
        match self {
            TlsMode::Insecure => false,
            _ => true,
        }
    }

    /// The certificate that has to be written to a file before it can be
    /// used.
    pub fn inline_certificate(&self) -> (contents: Option<String>)
        ensures
            match *self {
                TlsMode::CustomCaInline(text) => contents matches Some(c) && c@ == text@,
                _ => contents is None,
            },
    {
        match self {
            TlsMode::CustomCaInline(text) => Some(text.clone()),
            _ => None,
        }
    }

    /// The file that holds the certificate authority of this mode, if it
    /// has one. `written` is the file to which an inline certificate was
    /// written, `None` where that failed: the connection is then made
    /// without a certificate authority of its own.
    pub fn root_certificate(&self, written: Option<String>) -> (path: Option<String>)
        ensures
            match *self {
                TlsMode::CustomCaFile(file) => path matches Some(p) && p@ == file@,
                TlsMode::CustomCaInline(_) => path == written,
                _ => path is None,
            },
    {
        match self {
            TlsMode::CustomCaFile(file) => Some(file.clone()),
            TlsMode::CustomCaInline(_) => written,
            _ => None,
        }
    }
}

// ---------------------------------------------------------------------------
// The file of an inline certificate
// ---------------------------------------------------------------------------

/// A character that a file name takes over from a client name.
pub open spec fn is_name_char(c: char) -> bool {
    ||| 'a' <= c <= 'z'
    ||| 'A' <= c <= 'Z'
    ||| '0' <= c <= '9'
    ||| c == '-'
    ||| c == '_'
}

/// The characters of a client name that a file name takes over, in order.
pub open spec fn sanitised(name: Seq<char>) -> Seq<char>
    decreases name.len(),
{
    if name.len() == 0 {
        Seq::empty()
    } else if is_name_char(name.last()) {
        sanitised(name.drop_last()).push(name.last())
    } else {
        sanitised(name.drop_last())
    }
}

/// The name of the file to which the inline certificate of a client is
/// written.
pub open spec fn ca_file_name_text(client_name: Seq<char>) -> Seq<char> {
    "rootCA-"@ + sanitised(client_name) + ".pem"@
}

/// The name of the file to which the inline certificate of a client is
/// written.
pub fn ca_file_name(client_name: &str) -> (file_name: String)
    ensures
        file_name@ == ca_file_name_text(client_name@),
{
    let chars = chars_of(client_name);
    let mut file_name = String::from_str("rootCA-");
    let ghost prefix = file_name@;
    let mut i: usize = 0;
    assert(chars@.take(0) =~= Seq::<char>::empty());
    assert(prefix + Seq::<char>::empty() =~= prefix);
    while i < chars.len()
        invariant
            i <= chars.len(),
            file_name@ == prefix + sanitised(chars@.take(i as int)),
        decreases chars.len() - i,
    {
        let c: char = chars[i];
        assert(chars@.take(i + 1).drop_last() == chars@.take(i as int));
        if (c >= 'a' && c <= 'z') || (c >= 'A' && c <= 'Z') || (c >= '0' && c <= '9') || c == '-'
            || c == '_' {
            push_char(&mut file_name, c);
            assert((prefix + sanitised(chars@.take(i as int))).push(c) =~= prefix + sanitised(
                chars@.take(i as int),
            ).push(c));
        }
        i = i + 1;
    }
    assert(chars@.take(i as int) == chars@);
    file_name.append(".pem");
    file_name
}

// ---------------------------------------------------------------------------
// Failures
// ---------------------------------------------------------------------------

/// A failure that speaks of certificates, of TLS or of a handshake: the
/// certificate authority may be missing from the settings.
pub open spec fn hints_at_tls(message: Seq<char>) -> bool {
    ||| has_substring(message, "certificate"@)
    ||| has_substring(message, "tls"@)
    ||| has_substring(message, "handshake"@)
}

/// Whether a failure hints at TLS.
pub fn is_tls_failure(message: &str) -> (hint: bool)
    ensures
        hint == hints_at_tls(message@),
{
    let text = chars_of(message);
    let certificate = chars_of("certificate");
    let tls = chars_of("tls");
    let handshake = chars_of("handshake");
    contains_text(&text, &certificate) || contains_text(&text, &tls) || contains_text(
        &text,
        &handshake,
    )
}

/// What the error of an exhausted plan says where no failure was recorded.
pub open spec fn no_failure_text() -> Seq<char> {
    "All host variants failed to connect"@
}

/// What is said where the bus offers no durable storage.
pub open spec fn unavailable_text(reason: Seq<char>) -> Seq<char> {
    "Jetstream is required but not available: "@ + reason
        + ". Please enable Jetstream on your NATS server."@
}

impl ConnectError {
    /// The error of a connection whose bus offers no durable storage.
    pub fn provisioning_unavailable(reason: &str) -> (error: ConnectError)
        ensures
            error matches ConnectError::ProvisioningUnavailable(text) && text@ == unavailable_text(
                reason@,
            ),
    {
        let mut text = String::from_str("Jetstream is required but not available: ");
        text.append(reason);
        text.append(". Please enable Jetstream on your NATS server.");
        ConnectError::ProvisioningUnavailable(text)
    }

    /// What the error says.
    pub fn message(&self) -> (text: String)
        ensures
            match *self {
                ConnectError::AllCandidatesExhausted(said) => text@ == said@,
                ConnectError::ProvisioningUnavailable(said) => text@ == said@,
            },
    {
        match self {
            ConnectError::AllCandidatesExhausted(said) => said.clone(),
            ConnectError::ProvisioningUnavailable(said) => said.clone(),
        }
    }
}

// ---------------------------------------------------------------------------
// The plan
// ---------------------------------------------------------------------------

/// What one attempt to connect is made with.
#[derive(Clone, Debug, PartialEq, Eq)]
pub struct ConnectAttempt {
    /// Which candidate this is: the address as given, or a resolved one.
    pub label: String,
    pub address: String,
    pub client_name: String,
    pub user: String,
    pub password: String,
    pub require_tls: bool,
    /// The file of the certificate authority to trust, if there is one.
    pub root_certificate: Option<String>,
    pub max_reconnects: usize,
}

/// Who connects, and how the connection is secured.
#[derive(Clone, Debug, PartialEq, Eq)]
pub struct ConnectSettings {
    pub client_name: String,
    pub user: String,
    pub password: String,
    pub require_tls: bool,
    pub root_certificate: Option<String>,
    /// How often a lost connection is made again.
    pub max_reconnects: usize,
}

impl ConnectSettings {
    /// The settings of a client that connects in the mode `mode`: TLS is
    /// required unless the mode is insecure, and the certificate authority
    /// is the one of the mode. `written` is the file to which an inline
    /// certificate was written, `None` where that failed. `retries` says
    /// how often a lost connection is made again, where the default is not
    /// wanted.
    pub fn new(
        client_name: String,
        user: String,
        password: String,
        mode: &TlsMode,
        written: Option<String>,
        retries: Option<usize>,
    ) -> (settings: ConnectSettings)
        ensures
            settings.client_name == client_name,
            settings.user == user,
            settings.password == password,
            settings.require_tls == !(*mode is Insecure),
            settings.max_reconnects == match retries {
                Some(limit) => limit,
                None => DEFAULT_MAX_RECONNECTS,
            },
            match *mode {
                TlsMode::CustomCaFile(file) => settings.root_certificate matches Some(p) && p@
                    == file@,
                TlsMode::CustomCaInline(_) => settings.root_certificate == written,
                _ => settings.root_certificate is None,
            },
    {
        ConnectSettings {
            client_name,
            user,
            password,
            require_tls: mode.requires_tls(),
            root_certificate: mode.root_certificate(written),
            max_reconnects: match retries {
                Some(limit) => limit,
                None => DEFAULT_MAX_RECONNECTS,
            },
        }
    }
}

/// The candidates of one endpoint and how far they have been tried.
#[derive(Debug)]
pub struct ConnectPlan {
    candidates: Vec<(String, String)>,
    tried: usize,
    last_error: Option<String>,
}

/// A plan as a value of specifications.
pub struct PlanView {
    pub candidates: Seq<Candidate>,
    /// How many candidates have failed.
    pub tried: nat,
    /// What the last failure said.
    pub last_error: Option<Seq<char>>,
}

/// The plan after one more failure: the next candidate's turn has come, and
/// the failure is the last one.
pub open spec fn after_failure(plan: PlanView, message: Seq<char>) -> PlanView {
    PlanView {
        candidates: plan.candidates,
        tried: if plan.tried < plan.candidates.len() {
            plan.tried + 1
        } else {
            plan.tried
        },
        last_error: Some(message),
    }
}

/// The plan after a run of failures.
pub open spec fn after_failures(plan: PlanView, messages: Seq<Seq<char>>) -> PlanView
    decreases messages.len(),
{
    if messages.len() == 0 {
        plan
    } else {
        after_failure(after_failures(plan, messages.drop_last()), messages.last())
    }
}

/// The candidate whose turn it is, if one is left.
pub open spec fn next_in(plan: PlanView) -> Option<Candidate> {
    if plan.tried < plan.candidates.len() {
        Some(plan.candidates[plan.tried as int])
    } else {
        None
    }
}

/// What the error of a plan says once no candidate is left.
pub open spec fn exhausted_text(plan: PlanView) -> Seq<char> {
    match plan.last_error {
        Some(message) => message,
        None => no_failure_text(),
    }
}

impl View for ConnectPlan {
    type V = PlanView;

    closed spec fn view(&self) -> PlanView {
        PlanView {
            candidates: candidate_views(self.candidates@),
            tried: self.tried as nat,
            last_error: match self.last_error {
                Some(message) => Some(message@),
                None => None,
            },
        }
    }
}

impl ConnectPlan {
    /// A plan that tries `candidates` from the first on.
    pub fn new(candidates: Vec<(String, String)>) -> (plan: ConnectPlan)
        ensures
            plan@ == (PlanView {
                candidates: candidate_views(candidates@),
                tried: 0,
                last_error: None,
            }),
    {
        ConnectPlan { candidates, tried: 0, last_error: None }
    }

    /// The candidate to try now: its label and its address. `None` once
    /// every candidate has failed.
    pub fn next_candidate(&self) -> (next: Option<(String, String)>)
        ensures
            match next_in(self@) {
                Some(candidate) => next matches Some(c) && candidate_view(c) == candidate,
                None => next is None,
            },
    {
        if self.tried < self.candidates.len() {
            let entry = &self.candidates[self.tried];
            Some((entry.0.clone(), entry.1.clone()))
        } else {
            None
        }
    }

    /// What the next attempt is made with. `None` once every candidate has
    /// failed.
    pub fn next_attempt(&self, settings: &ConnectSettings) -> (attempt: Option<ConnectAttempt>)
        ensures
            match next_in(self@) {
                Some(candidate) => {
                    &&& attempt matches Some(a)
                    &&& a.label@ == candidate.0
                    &&& a.address@ == candidate.1
                    &&& a.client_name@ == settings.client_name@
                    &&& a.user@ == settings.user@
                    &&& a.password@ == settings.password@
                    &&& a.require_tls == settings.require_tls
                    &&& match settings.root_certificate {
                        Some(path) => a.root_certificate matches Some(p) && p@ == path@,
                        None => a.root_certificate is None,
                    }
                    &&& a.max_reconnects == settings.max_reconnects
                },
                None => attempt is None,
            },
    {
        match self.next_candidate() {
            Some((label, address)) => Some(
                ConnectAttempt {
                    label,
                    address,
                    client_name: settings.client_name.clone(),
                    user: settings.user.clone(),
                    password: settings.password.clone(),
                    require_tls: settings.require_tls,
                    root_certificate: match &settings.root_certificate {
                        Some(path) => Some(path.clone()),
                        None => None,
                    },
                    max_reconnects: settings.max_reconnects,
                },
            ),
            None => None,
        }
    }

    /// Whether every candidate has failed.
    pub fn is_exhausted(&self) -> (exhausted: bool)
        ensures
            exhausted == (next_in(self@) is None),
    {
        self.tried >= self.candidates.len()
    }

    /// Records that the attempt on the current candidate failed with
    /// `message`, and says whether the failure hints at TLS.
    pub fn record_failure(&mut self, message: String) -> (tls_hint: bool)
        ensures
            final(self)@ == after_failure(old(self)@, message@),
            tls_hint == hints_at_tls(message@),
    {
        let hint = is_tls_failure(message.as_str());
        if self.tried < self.candidates.len() {
            self.tried = self.tried + 1;
        }
        self.last_error = Some(message);
        hint
    }

    /// The error of a plan that found no candidate to connect to: it says
    /// what the last failure said.
    pub fn exhausted_error(&self) -> (error: ConnectError)
        ensures
            error matches ConnectError::AllCandidatesExhausted(text) && text@ == exhausted_text(
                self@,
            ),
    {
        match &self.last_error {
            Some(message) => ConnectError::AllCandidatesExhausted(message.clone()),
            None => ConnectError::AllCandidatesExhausted(
                String::from_str("All host variants failed to connect"),
            ),
        }
    }
}

/// Candidates are tried in their order, one after each failure: after `n`
/// failures the candidate at position `n` is next, and none once all have
/// failed; the error then says what the last failure said.
pub proof fn lemma_tried_in_order(candidates: Seq<Candidate>, messages: Seq<Seq<char>>)
    ensures
        ({
            let start = PlanView { candidates, tried: 0, last_error: None };
            let plan = after_failures(start, messages);
            &&& plan.candidates == candidates
            &&& plan.tried == if messages.len() <= candidates.len() {
                messages.len()
            } else {
                candidates.len()
            }
            &&& next_in(plan) == if messages.len() < candidates.len() {
                Some(candidates[messages.len() as int])
            } else {
                None::<Candidate>
            }
            &&& messages.len() > 0 ==> exhausted_text(plan) == messages.last()
        }),
    decreases messages.len(),
{
    if messages.len() > 0 {
        lemma_tried_in_order(candidates, messages.drop_last());
    }
}

} // verus!
