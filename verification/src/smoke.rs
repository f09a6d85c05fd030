//! The probe of a deployed relay: the settings it insists on, and the order of its steps.
//!
//! Whatever happens after enrollment, the installation is retired; and once an answer was
//! leased, it is taken back before that.

use crate::control_api::read_digest;
use crate::protocol::AllocationState;
use crate::text::{after_prefix, chars_of, range_in, same_text, trim, CharClass};
use vstd::prelude::*;

verus! {

/// How many bytes the certificate of the control service may have.
pub const MAX_CONTROL_CA: usize = 65_536;

/// How many bytes the file of a public value may have.
pub const MAX_PUBLIC_FILE: u64 = 4_096;

/// How many questions are asked between two notes that the probe still waits.
pub const NOTED_EVERY: u32 = 15;

/// Why the probe does not begin.
#[derive(Clone, Copy, Debug, PartialEq, Eq, Structural)]
pub enum SmokeError {
    NotRequested,
    InvalidSetting,
    AmbiguousSetting,
    WrongTopology,
    InvalidControlCa,
    InvalidReceiptKey,
    ForeignAccount,
    InvalidAccount,
}

impl SmokeError {
    /// A description for people.
    pub fn message(self) -> (message: &'static str)
        ensures
            message@ == match self {
                SmokeError::NotRequested =>
                    "set BLOOM_RELAY_DEPLOYED_SMOKE=1 for this destructive disposable-infrastructure probe"@,
                SmokeError::InvalidSetting => "invalid setting"@,
                SmokeError::AmbiguousSetting => "set exactly one source for the value"@,
                SmokeError::WrongTopology =>
                    "gateway or ingress does not match the fixed deployed topology"@,
                SmokeError::InvalidControlCa => "invalid control CA file"@,
                SmokeError::InvalidReceiptKey =>
                    "receipt public key must be 64 lowercase hex characters"@,
                SmokeError::ForeignAccount =>
                    "ACME account URI must be a production Let's Encrypt account URI"@,
                SmokeError::InvalidAccount => "invalid ACME account URI"@,
            },
    {
        match self {
            SmokeError::NotRequested =>
                "set BLOOM_RELAY_DEPLOYED_SMOKE=1 for this destructive disposable-infrastructure probe",
            SmokeError::InvalidSetting => "invalid setting",
            SmokeError::AmbiguousSetting => "set exactly one source for the value",
            SmokeError::WrongTopology =>
                "gateway or ingress does not match the fixed deployed topology",
            SmokeError::InvalidControlCa => "invalid control CA file",
            SmokeError::InvalidReceiptKey => "receipt public key must be 64 lowercase hex characters",
            SmokeError::ForeignAccount =>
                "ACME account URI must be a production Let's Encrypt account URI",
            SmokeError::InvalidAccount => "invalid ACME account URI",
        }
    }
}

/// Whether the value of a setting is clean: not empty, without white space around it, and on one
/// line.
pub open spec fn clean(value: Seq<char>) -> bool {
    &&& value.len() > 0
    &&& crate::text::trimmed(value) == value
    &&& forall|i: int| 0 <= i < value.len() ==> #[trigger] value[i] != '\r' && value[i] != '\n'
}

/// Checks the value of a setting.
pub fn validate_public_value(value: &str) -> (outcome: Result<(), SmokeError>)
    ensures
        outcome == if clean(value@) {
            Ok(())
        } else {
            Err(SmokeError::InvalidSetting)
        },
{
    let inner: String = trim(value);
    let chars: Vec<char> = chars_of(value);
    if chars.len() == 0 || !same_text(inner.as_str(), value) {
        return Err(SmokeError::InvalidSetting);
    }
    let mut i: usize = 0;
    while i < chars.len()
        invariant
            i <= chars@.len(),
            chars@ == value@,
            chars@.len() > 0,
            crate::text::trimmed(value@) == value@,
            forall|j: int|
                0 <= j < i ==> #[trigger] value@[j] != '\r' && value@[j] != '\n',
        decreases chars@.len() - i,
    {
        if chars[i] == '\r' || chars[i] == '\n' {
            proof {
                assert(value@[i as int] == '\r' || value@[i as int] == '\n');
            }
            return Err(SmokeError::InvalidSetting);
        }
        i += 1;
    }
    Ok(())
}

/// Where a public value comes from: from exactly one of two settings, the one that holds the
/// value itself (`true`) or the one that names a file (`false`).
pub fn value_source(direct: bool, file: bool) -> (outcome: Result<bool, SmokeError>)
    ensures
        outcome == if direct != file {
            Ok(direct)
        } else {
            Err(SmokeError::AmbiguousSetting)
        },
{
    if direct == file {
        Err(SmokeError::AmbiguousSetting)
    } else {
        Ok(direct)
    }
}

/// Checks the file of a public value.
pub fn check_public_file(is_file: bool, size: u64) -> (outcome: Result<(), SmokeError>)
    ensures
        outcome == if is_file && size <= MAX_PUBLIC_FILE {
            Ok(())
        } else {
            Err(SmokeError::InvalidSetting)
        },
{
    if is_file && size <= MAX_PUBLIC_FILE {
        Ok(())
    } else {
        Err(SmokeError::InvalidSetting)
    }
}

/// Whether a text is the public key of receipts: 64 hexadecimal digits in lower case.
pub open spec fn receipt_form(text: Seq<char>) -> bool {
    text.len() == 64 && crate::text::all_in(text, CharClass::LowerHex)
}

/// Reads the public key of receipts.
pub fn read_receipt_key(text: &str) -> (outcome: Result<[u8; 32], SmokeError>)
    ensures
        if receipt_form(text@) {
            outcome matches Ok(key) && crate::encoding::hex_bytes(text@) == Some(key@)
        } else {
            outcome == Err::<[u8; 32], SmokeError>(SmokeError::InvalidReceiptKey)
        },
{
    let chars: Vec<char> = chars_of(text);
    proof {
        assert(chars@.subrange(0, chars@.len() as int) =~= text@);
    }
    if chars.len() != 64 || !range_in(&chars, 0, chars.len(), CharClass::LowerHex) {
        return Err(SmokeError::InvalidReceiptKey);
    }
    proof {
        assert forall|i: int| 0 <= i < text@.len() implies crate::encoding::hex_value(
            #[trigger] text@[i],
        ) is Some by {
            assert(CharClass::LowerHex.holds(text@[i]));
        }
    }
    match read_digest(text) {
        Some(key) => Ok(key),
        None => Err(SmokeError::InvalidReceiptKey),
    }
}

/// The verdict on the ACME account that the probe is given.
pub open spec fn account_verdict(uri: Seq<char>) -> Result<(), SmokeError> {
    if !crate::text::starts_with(uri, crate::dns::account_prefix()) {
        Err(SmokeError::ForeignAccount)
    } else if uri.len() == crate::dns::account_prefix().len() || !crate::dns::digits_account(uri) {
        Err(SmokeError::InvalidAccount)
    } else {
        Ok(())
    }
}

/// Checks the ACME account that the probe is given.
pub fn check_account(uri: &str) -> (outcome: Result<(), SmokeError>)
    ensures
        outcome == account_verdict(uri@),
{
    let digits: String = match after_prefix(
        uri,
        "https://acme-v02.api.letsencrypt.org/acme/acct/",
    ) {
        Some(digits) => digits,
        None => {
            return Err(SmokeError::ForeignAccount);
        },
    };
    let chars: Vec<char> = chars_of(digits.as_str());
    proof {
        assert(chars@.subrange(0, chars@.len() as int) =~= digits@);
    }
    if chars.len() == 0 || !range_in(&chars, 0, chars.len(), CharClass::Digit) {
        return Err(SmokeError::InvalidAccount);
    }
    Ok(())
}

/// What the probe was set up with, but for what is read from files.
pub struct SmokeSettings<'a> {
    pub requested: Option<&'a str>,
    pub gateway: &'a str,
    pub ingress: &'a str,
}

/// The verdict on the settings: the probe was asked for, and it is aimed at the one deployment
/// that it is made for.
pub open spec fn settings_verdict(settings: SmokeSettings) -> Result<(), SmokeError> {
    if !(settings.requested matches Some(flag) && flag@ == "1"@) {
        Err(SmokeError::NotRequested)
    } else if !clean(settings.gateway@) || !clean(settings.ingress@) {
        Err(SmokeError::InvalidSetting)
    } else if settings.gateway@ != "84.32.151.158:443"@ || settings.ingress@
        != "84.32.25.82:443"@ {
        Err(SmokeError::WrongTopology)
    } else {
        Ok(())
    }
}

/// Checks the settings before anything is read or sent.
pub fn check_settings(settings: &SmokeSettings) -> (outcome: Result<(), SmokeError>)
    ensures
        outcome == settings_verdict(*settings),
{
    let requested: bool = match settings.requested {
        Some(flag) => same_text(flag, "1"),
        None => false,
    };
    if !requested {
        return Err(SmokeError::NotRequested);
    }
    if validate_public_value(settings.gateway).is_err() || validate_public_value(
        settings.ingress,
    ).is_err() {
        return Err(SmokeError::InvalidSetting);
    }
    if !same_text(settings.gateway, "84.32.151.158:443") || !same_text(
        settings.ingress,
        "84.32.25.82:443",
    ) {
        return Err(SmokeError::WrongTopology);
    }
    Ok(())
}

/// Checks the size of the certificate of the control service.
pub fn check_control_ca(size: usize) -> (outcome: Result<(), SmokeError>)
    ensures
        outcome == if 1 <= size <= MAX_CONTROL_CA {
            Ok(())
        } else {
            Err(SmokeError::InvalidControlCa)
        },
{
    if size == 0 || size > MAX_CONTROL_CA {
        Err(SmokeError::InvalidControlCa)
    } else {
        Ok(())
    }
}

/// What the state of an allocation means to whoever waits for its records.
#[derive(Clone, Copy, Debug, PartialEq, Eq, Structural)]
pub enum DnsPoll {
    Ready,
    Wait,
    TimedOut,
    Retired,
}

/// Reads what the state of an allocation means to whoever waits for its records.
pub fn poll_dns(state: AllocationState, in_time: bool) -> (poll: DnsPoll)
    ensures
        poll == match state {
            AllocationState::DnsReady => DnsPoll::Ready,
            AllocationState::PendingDns => if in_time {
                DnsPoll::Wait
            } else {
                DnsPoll::TimedOut
            },
            AllocationState::Retired => DnsPoll::Retired,
        },
{
    match state {
        AllocationState::DnsReady => DnsPoll::Ready,
        AllocationState::PendingDns => if in_time {
            DnsPoll::Wait
        } else {
            DnsPoll::TimedOut
        },
        AllocationState::Retired => DnsPoll::Retired,
    }
}

/// Whether it is noted that the probe still waits.
pub fn notes_wait(attempts: u32) -> (noted: bool)
    ensures
        noted == (attempts % NOTED_EVERY == 0),
{
    attempts % NOTED_EVERY == 0
}

/// The steps after enrollment, in their order.
#[derive(Clone, Copy, Debug, PartialEq, Eq, Structural)]
pub enum SmokeStep {
    IssueTunnelCredential,
    IssueDnsCredential,
    RegisterAccount,
    AwaitDns,
    PrepareDnsClient,
    CreateLease,
    AwaitLease,
    ServeSynthetic,
    StartFirstTunnel,
    ProbeConcurrent,
    StopFirstTunnel,
    StartSecondTunnel,
    ProbeOnce,
    StopSecondTunnel,
    DeleteLease,
    Retire,
    Finished,
}

impl SmokeStep {
    /// The place of a step in the order.
    pub open spec fn place(self) -> int {
        match self {
            SmokeStep::IssueTunnelCredential => 0,
            SmokeStep::IssueDnsCredential => 1,
            SmokeStep::RegisterAccount => 2,
            SmokeStep::AwaitDns => 3,
            SmokeStep::PrepareDnsClient => 4,
            SmokeStep::CreateLease => 5,
            SmokeStep::AwaitLease => 6,
            SmokeStep::ServeSynthetic => 7,
            SmokeStep::StartFirstTunnel => 8,
            SmokeStep::ProbeConcurrent => 9,
            SmokeStep::StopFirstTunnel => 10,
            SmokeStep::StartSecondTunnel => 11,
            SmokeStep::ProbeOnce => 12,
            SmokeStep::StopSecondTunnel => 13,
            SmokeStep::DeleteLease => 14,
            SmokeStep::Retire => 15,
            SmokeStep::Finished => 16,
        }
    }

    /// The step that follows where nothing went wrong.
    pub open spec fn follower(self) -> SmokeStep {
        match self {
            SmokeStep::IssueTunnelCredential => SmokeStep::IssueDnsCredential,
            SmokeStep::IssueDnsCredential => SmokeStep::RegisterAccount,
            SmokeStep::RegisterAccount => SmokeStep::AwaitDns,
            SmokeStep::AwaitDns => SmokeStep::PrepareDnsClient,
            SmokeStep::PrepareDnsClient => SmokeStep::CreateLease,
            SmokeStep::CreateLease => SmokeStep::AwaitLease,
            SmokeStep::AwaitLease => SmokeStep::ServeSynthetic,
            SmokeStep::ServeSynthetic => SmokeStep::StartFirstTunnel,
            SmokeStep::StartFirstTunnel => SmokeStep::ProbeConcurrent,
            SmokeStep::ProbeConcurrent => SmokeStep::StopFirstTunnel,
            SmokeStep::StopFirstTunnel => SmokeStep::StartSecondTunnel,
            SmokeStep::StartSecondTunnel => SmokeStep::ProbeOnce,
            SmokeStep::ProbeOnce => SmokeStep::StopSecondTunnel,
            SmokeStep::StopSecondTunnel => SmokeStep::DeleteLease,
            SmokeStep::DeleteLease => SmokeStep::Retire,
            SmokeStep::Retire => SmokeStep::Finished,
            SmokeStep::Finished => SmokeStep::Finished,
        }
    }

    /// Finds the step that follows where nothing went wrong.
    fn next(self) -> (step: SmokeStep)
        ensures
            step == self.follower(),
    {
        match self {
            SmokeStep::IssueTunnelCredential => SmokeStep::IssueDnsCredential,
            SmokeStep::IssueDnsCredential => SmokeStep::RegisterAccount,
            SmokeStep::RegisterAccount => SmokeStep::AwaitDns,
            SmokeStep::AwaitDns => SmokeStep::PrepareDnsClient,
            SmokeStep::PrepareDnsClient => SmokeStep::CreateLease,
            SmokeStep::CreateLease => SmokeStep::AwaitLease,
            SmokeStep::AwaitLease => SmokeStep::ServeSynthetic,
            SmokeStep::ServeSynthetic => SmokeStep::StartFirstTunnel,
            SmokeStep::StartFirstTunnel => SmokeStep::ProbeConcurrent,
            SmokeStep::ProbeConcurrent => SmokeStep::StopFirstTunnel,
            SmokeStep::StopFirstTunnel => SmokeStep::StartSecondTunnel,
            SmokeStep::StartSecondTunnel => SmokeStep::ProbeOnce,
            SmokeStep::ProbeOnce => SmokeStep::StopSecondTunnel,
            SmokeStep::StopSecondTunnel => SmokeStep::DeleteLease,
            SmokeStep::DeleteLease => SmokeStep::Retire,
            SmokeStep::Retire => SmokeStep::Finished,
            SmokeStep::Finished => SmokeStep::Finished,
        }
    }

    /// Whether a lease may stand while the step is done.
    pub open spec fn leased(self) -> bool {
        5 <= self.place() < 14
    }

    /// Tells whether a lease may stand while the step is done.
    fn is_leased(self) -> (leased: bool)
        ensures
            leased == self.leased(),
    {
        match self {
            SmokeStep::IssueTunnelCredential | SmokeStep::IssueDnsCredential
            | SmokeStep::RegisterAccount | SmokeStep::AwaitDns | SmokeStep::PrepareDnsClient => false,
            SmokeStep::DeleteLease | SmokeStep::Retire | SmokeStep::Finished => false,
            _ => true,
        }
    }
}

/// What happened in a step.
#[derive(Clone, Copy, Debug, PartialEq, Eq, Structural)]
pub enum SmokeEvent {
    Passed,
    Failed,
    Interrupted,
}

/// Why a probe did not pass.
#[derive(Clone, Copy, Debug, PartialEq, Eq, Structural)]
pub enum SmokeFailure {
    Step(SmokeStep),
    Interrupted,
}

/// A probe after enrollment: the step that it is at, and what it ends with if it does not pass.
#[derive(Clone, Copy, Debug, PartialEq, Eq, Structural)]
pub struct SmokeRun {
    pub step: SmokeStep,
    pub failure: Option<SmokeFailure>,
}

impl SmokeRun {
    /// What is kept of a failure: what went wrong before it, where something did.
    pub open spec fn first_failure(self, failure: SmokeFailure) -> Option<SmokeFailure> {
        match self.failure {
            Some(earlier) => Some(earlier),
            None => Some(failure),
        }
    }

    /// What an event leads to: a failure skips to the removal of the lease, where one may
    /// stand, or else to retirement, and the step that failed first is what the probe ends
    /// with; an interruption skips to retirement, and is what the probe ends with whatever went
    /// wrong before it.
    pub open spec fn spec_advance(self, event: SmokeEvent) -> SmokeRun {
        let retiring = self.step == SmokeStep::Retire || self.step == SmokeStep::Finished;
        match event {
            SmokeEvent::Passed => SmokeRun { step: self.step.follower(), ..self },
            SmokeEvent::Failed => SmokeRun {
                step: if retiring {
                    SmokeStep::Finished
                } else if self.step.leased() {
                    SmokeStep::DeleteLease
                } else {
                    SmokeStep::Retire
                },
                failure: self.first_failure(SmokeFailure::Step(self.step)),
            },
            SmokeEvent::Interrupted => if retiring {
                self
            } else {
                SmokeRun {
                    step: SmokeStep::Retire,
                    failure: Some(SmokeFailure::Interrupted),
                }
            },
        }
    }

    /// A probe that has just enrolled.
    pub fn new() -> (run: Self)
        ensures
            run == (SmokeRun { step: SmokeStep::IssueTunnelCredential, failure: None }),
    {
        SmokeRun { step: SmokeStep::IssueTunnelCredential, failure: None }
    }

    /// Takes an event in.
    pub fn advance(&mut self, event: SmokeEvent)
        ensures
            *final(self) == old(self).spec_advance(event),
    {
        let retiring: bool = self.step == SmokeStep::Retire || self.step == SmokeStep::Finished;
        match event {
            SmokeEvent::Passed => {
                self.step = self.step.next();
            },
            SmokeEvent::Failed => {
                if self.failure.is_none() {
                    self.failure = Some(SmokeFailure::Step(self.step));
                }
                self.step = if retiring {
                    SmokeStep::Finished
                } else if self.step.is_leased() {
                    SmokeStep::DeleteLease
                } else {
                    SmokeStep::Retire
                };
            },
            SmokeEvent::Interrupted => {
                if !retiring {
                    self.failure = Some(SmokeFailure::Interrupted);
                    self.step = SmokeStep::Retire;
                }
            },
        }
    }
}

/// No event passes retirement over: a probe that is not yet retiring does not finish.
pub proof fn law_every_probe_retires(run: SmokeRun, event: SmokeEvent)
    requires
        run.step != SmokeStep::Finished,
        run.spec_advance(event).step == SmokeStep::Finished,
    ensures
        run.step == SmokeStep::Retire,
{
}

/// A lease that may stand is taken back before retirement, unless the probe is interrupted.
pub proof fn law_lease_is_taken_back(run: SmokeRun, event: SmokeEvent)
    requires
        run.step.leased(),
        event != SmokeEvent::Interrupted,
    ensures
        run.spec_advance(event).step.leased() || run.spec_advance(event).step
            == SmokeStep::DeleteLease,
{
}

/// A probe comes to its end: every step that passes or fails leads to a later one.
pub proof fn law_probe_goes_forward(run: SmokeRun, event: SmokeEvent)
    requires
        run.step != SmokeStep::Finished,
        event != SmokeEvent::Interrupted,
    ensures
        run.spec_advance(event).step.place() > run.step.place(),
{
}

/// The step that failed first is never replaced by a later one, and never forgotten.
pub proof fn law_first_failure_is_kept(run: SmokeRun, event: SmokeEvent)
    requires
        event != SmokeEvent::Interrupted,
    ensures
        run.failure is Some ==> run.spec_advance(event).failure == run.failure,
        run.failure is None && event == SmokeEvent::Failed ==> run.spec_advance(event).failure
            == Some(SmokeFailure::Step(run.step)),
{
}

/// A probe that is interrupted before retirement retires at once and ends with the interruption,
/// whatever went wrong before it.
pub proof fn law_interruption_is_what_counts(run: SmokeRun)
    requires
        run.step != SmokeStep::Retire,
        run.step != SmokeStep::Finished,
    ensures
        run.spec_advance(SmokeEvent::Interrupted) == (SmokeRun {
            step: SmokeStep::Retire,
            failure: Some(SmokeFailure::Interrupted),
        }),
{
}

/// A value can be used where it is there, has no white space around it, and is of one line.
pub proof fn law_clean_value_is_one_line(value: Seq<char>)
    ensures
        clean(value) <==> {
            &&& value.len() > 0
            &&& !crate::text::white(value[0]) && !crate::text::white(value.last())
            &&& !value.contains('\r') && !value.contains('\n')
        },
{
    if value.len() > 0 {
        crate::text::lemma_trimmed_already(value);
    }
    if clean(value) {
        if value.contains('\r') {
            let i = value.index_of('\r');
            assert(value[i] == '\r');
        }
        if value.contains('\n') {
            let i = value.index_of('\n');
            assert(value[i] == '\n');
        }
    }
    if !value.contains('\r') && !value.contains('\n') {
        assert forall|i: int| 0 <= i < value.len() implies #[trigger] value[i] != '\r' && value[i]
            != '\n' by {
            assert(value.contains(value[i]));
        }
    }
}

/// A receipt key is 64 digits and letters of `a` to `f`.
pub proof fn law_receipt_key_form(text: Seq<char>)
    ensures
        receipt_form(text) <==> {
            &&& text.len() == 64
            &&& forall|i: int|
                0 <= i < text.len() ==> ('0' <= #[trigger] text[i] <= '9' || 'a' <= text[i]
                    <= 'f')
        },
{
    if receipt_form(text) {
        assert forall|i: int| 0 <= i < text.len() implies ('0' <= #[trigger] text[i] <= '9' || 'a'
            <= text[i] <= 'f') by {
            assert(CharClass::LowerHex.holds(text[i]));
        }
    }
}

/// An account is accepted exactly where it is a production account with a number; one that is of
/// no production account is foreign, and one without a number is not valid.
pub proof fn law_account_is_a_production_account(uri: Seq<char>)
    ensures
        ({
            let start = "https://acme-v02.api.letsencrypt.org/acme/acct/"@;
            let ours = start.len() <= uri.len() && uri.take(start.len() as int) == start;
            let numbered = uri.len() > start.len() && forall|i: int|
                start.len() <= i < uri.len() ==> '0' <= #[trigger] uri[i] <= '9';
            account_verdict(uri) == if !ours {
                Err::<(), SmokeError>(SmokeError::ForeignAccount)
            } else if !numbered {
                Err::<(), SmokeError>(SmokeError::InvalidAccount)
            } else {
                Ok::<(), SmokeError>(())
            }
        }),
{
    let start = "https://acme-v02.api.letsencrypt.org/acme/acct/"@;
    crate::dns::lemma_digits_account(uri);
    if start.len() <= uri.len() {
        assert(uri.take(start.len() as int) =~= uri.subrange(0, start.len() as int));
    }
}

/// A probe is run exactly where it was asked for with a one, against the fixed gateway and
/// ingress.
pub proof fn law_probe_is_asked_for(settings: SmokeSettings)
    ensures
        ({
            let asked = settings.requested is Some && settings.requested->0@ == "1"@;
            let usable = clean(settings.gateway@) && clean(settings.ingress@);
            settings_verdict(settings) == if !asked {
                Err::<(), SmokeError>(SmokeError::NotRequested)
            } else if !usable {
                Err::<(), SmokeError>(SmokeError::InvalidSetting)
            } else if settings.gateway@ == "84.32.151.158:443"@ && settings.ingress@
                == "84.32.25.82:443"@ {
                Ok::<(), SmokeError>(())
            } else {
                Err::<(), SmokeError>(SmokeError::WrongTopology)
            }
        }),
{
}

/// A step that passes is followed by the next one and by no other, up to the last, and a step that
/// fails is followed by the removal of the answer where one is leased, else by the retirement.
pub proof fn law_steps_follow_in_order(run: SmokeRun)
    ensures
        ({
            let passed = run.spec_advance(SmokeEvent::Passed);
            &&& !(run.step is Finished) ==> passed.step.place() == run.step.place() + 1
            &&& run.step is Finished ==> passed.step is Finished
            &&& passed.failure == run.failure
        }),
        ({
            let failed = run.spec_advance(SmokeEvent::Failed);
            let leased = run.step is CreateLease || run.step is AwaitLease
                || run.step is ServeSynthetic || run.step is StartFirstTunnel
                || run.step is ProbeConcurrent || run.step is StopFirstTunnel
                || run.step is StartSecondTunnel || run.step is ProbeOnce
                || run.step is StopSecondTunnel;
            let over = run.step is Retire || run.step is Finished;
            &&& leased ==> failed.step is DeleteLease
            &&& !leased && !over ==> failed.step is Retire
            &&& over ==> failed.step is Finished
        }),
{
}

} // verus!
