//! Getting in: the saved token at startup, and the device flow of a sign-in.
//! Each decides what comes next from what came back.

use vstd::prelude::*;
use vstd::string::*;

use crate::app::CommandMsg;
use crate::github::client::{ConnectError, Connection, DeviceFlow};

verus! {

/// What to do with what the keyring gave.
#[derive(Debug)]
pub enum BootStep {
    /// Connect with this token, and report how that went.
    Connect(String),
    Report(CommandMsg),
}

/// Startup: a saved token reconnects; none leads to the sign-in; a keyring
/// that cannot be read is a failure like being offline.
pub fn boot(saved: Result<Option<String>, String>) -> (r: BootStep)
    ensures
        match saved {
            Ok(Some(token)) => r == BootStep::Connect(token),
            Ok(None) => r == BootStep::Report(CommandMsg::NoToken),
            Err(reason) => r matches BootStep::Report(CommandMsg::Connected(result))
                && *result matches Err(error) && error is Other && error.spec_message()
                == "Couldn't read the keyring: "@ + reason@,
        },
{
    match saved {
        Ok(Some(token)) => BootStep::Connect(token),
        Ok(None) => BootStep::Report(CommandMsg::NoToken),
        Err(reason) => {
            let mut message: String = "Couldn't read the keyring: ".to_owned();
            message.append(reason.as_str());
            BootStep::Report(CommandMsg::Connected(Box::new(Err(ConnectError::Other(message)))))
        },
    }
}

/// What came back during a sign-in.
#[derive(Debug)]
pub enum SignInEvent {
    /// GitHub gave a user code, or did not.
    Started(Result<DeviceFlow, ConnectError>),
    /// The user authorised, or the code expired.
    Authorised(Result<String, ConnectError>),
    /// The new token was tried.
    Connected(Result<Connection, ConnectError>),
}

/// What comes next in a sign-in.
#[derive(Debug)]
pub enum SignInStep {
    /// Report the user code, then wait for the user to authorise.
    Wait { report: CommandMsg, flow: DeviceFlow },
    /// Save the token, then connect with it.
    StoreAndConnect(String),
    /// Report the end.
    Finish(CommandMsg),
}

/// Whether a step is the one that an event leads to.
pub open spec fn leads_to(generation: u64, event: SignInEvent, step: SignInStep) -> bool {
    match event {
        SignInEvent::Started(Ok(flow)) => {
            &&& step matches SignInStep::Wait { report, flow: kept }
            &&& kept == flow
            &&& report == (CommandMsg::DeviceCode {
                generation,
                user_code: flow.user_code,
                verification_uri: flow.verification_uri,
            })
        },
        SignInEvent::Authorised(Ok(token)) => step == SignInStep::StoreAndConnect(token),
        SignInEvent::Connected(result) => ends_with(step, generation, result),
        SignInEvent::Started(Err(error)) => ends_with(step, generation, Err(error)),
        SignInEvent::Authorised(Err(error)) => ends_with(step, generation, Err(error)),
    }
}

/// The device flow, step by step, its reports stamped with the generation it
/// was started under.
pub fn sign_in(generation: u64, event: SignInEvent) -> (r: SignInStep)
    ensures
        leads_to(generation, event, r),
{
    match event {
        SignInEvent::Started(Ok(flow)) => SignInStep::Wait {
            report: CommandMsg::DeviceCode {
                generation,
                user_code: flow.user_code.clone(),
                verification_uri: flow.verification_uri.clone(),
            },
            flow,
        },
        SignInEvent::Authorised(Ok(token)) => SignInStep::StoreAndConnect(token),
        SignInEvent::Connected(result) => finish(generation, result),
        SignInEvent::Started(Err(error)) => finish(generation, Err(error)),
        SignInEvent::Authorised(Err(error)) => finish(generation, Err(error)),
    }
}

/// Whether a step ends the sign-in with this result.
pub open spec fn ends_with(
    step: SignInStep,
    generation: u64,
    result: Result<Connection, ConnectError>,
) -> bool {
    &&& step matches SignInStep::Finish(CommandMsg::DeviceResult { generation: stamped, result: kept })
    &&& stamped == generation
    &&& *kept == result
}

fn finish(generation: u64, result: Result<Connection, ConnectError>) -> (r: SignInStep)
    ensures
        ends_with(r, generation, result),
{
    SignInStep::Finish(CommandMsg::DeviceResult { generation, result: Box::new(result) })
}

/// Where a sign-in stands.
#[derive(Debug, Clone, Copy, PartialEq, Eq, Structural)]
pub enum SignInStage {
    /// A user code was asked for.
    Starting,
    /// The user is to authorise.
    Waiting,
    /// The new token is being tried.
    Connecting,
    /// The end was reported.
    Done,
}

/// Whether an event is the one that a stage waits for.
pub open spec fn awaited(stage: SignInStage, event: SignInEvent) -> bool {
    match stage {
        SignInStage::Starting => event is Started,
        SignInStage::Waiting => event is Authorised,
        SignInStage::Connecting => event is Connected,
        SignInStage::Done => false,
    }
}

/// The stage after an event: the awaited one moves the sign-in on, a failure
/// ends it, and any other event leaves it as it is.
pub open spec fn stage_after(stage: SignInStage, event: SignInEvent) -> SignInStage {
    if !awaited(stage, event) {
        stage
    } else {
        match event {
            SignInEvent::Started(Ok(_)) => SignInStage::Waiting,
            SignInEvent::Authorised(Ok(_)) => SignInStage::Connecting,
            _ => SignInStage::Done,
        }
    }
}

/// What a sign-in reports: the code to show, or the end.
pub ghost enum Report {
    Code { generation: u64, user_code: Seq<char>, verification_uri: Seq<char> },
    Result { generation: u64, result: Result<Connection, ConnectError> },
}

/// What an event has a sign-in report, at a stage.
pub open spec fn report_of(generation: u64, stage: SignInStage, event: SignInEvent) -> Option<
    Report,
> {
    if !awaited(stage, event) {
        None
    } else {
        match event {
            SignInEvent::Started(Ok(flow)) => Some(
                Report::Code {
                    generation,
                    user_code: flow.user_code@,
                    verification_uri: flow.verification_uri@,
                },
            ),
            SignInEvent::Authorised(Ok(_)) => None,
            SignInEvent::Started(Err(error)) => Some(
                Report::Result { generation, result: Err(error) },
            ),
            SignInEvent::Authorised(Err(error)) => Some(
                Report::Result { generation, result: Err(error) },
            ),
            SignInEvent::Connected(result) => Some(Report::Result { generation, result }),
        }
    }
}

/// What a step reports.
pub open spec fn step_report(step: SignInStep) -> Option<Report> {
    match step {
        SignInStep::Wait { report, .. } => message_report(report),
        SignInStep::StoreAndConnect(_) => None,
        SignInStep::Finish(message) => message_report(message),
    }
}

/// What a message reports of a sign-in.
pub open spec fn message_report(message: CommandMsg) -> Option<Report> {
    match message {
        CommandMsg::DeviceCode { generation, user_code, verification_uri } => Some(
            Report::Code {
                generation,
                user_code: user_code@,
                verification_uri: verification_uri@,
            },
        ),
        CommandMsg::DeviceResult { generation, result } => Some(
            Report::Result { generation, result: *result },
        ),
        _ => None,
    }
}

/// One sign-in under way, under the generation it was started with.
#[derive(Debug)]
pub struct SignIn {
    generation: u64,
    stage: SignInStage,
}

impl SignIn {
    /// The generation whose reports this sign-in makes.
    pub closed spec fn spec_generation(&self) -> u64 {
        self.generation
    }

    /// Where the sign-in stands.
    pub closed spec fn spec_stage(&self) -> SignInStage {
        self.stage
    }

    /// A sign-in that has asked for a user code.
    pub fn new(generation: u64) -> (r: Self)
        ensures
            r.spec_generation() == generation,
            r.spec_stage() == SignInStage::Starting,
    {
        SignIn { generation, stage: SignInStage::Starting }
    }

    /// Take what came back, and tell what comes next: nothing where the event
    /// is not the one that is awaited.
    pub fn advance(&mut self, event: SignInEvent) -> (r: Option<SignInStep>)
        ensures
            final(self).spec_generation() == old(self).spec_generation(),
            final(self).spec_stage() == stage_after(old(self).spec_stage(), event),
            match r {
                Some(step) => awaited(old(self).spec_stage(), event) && leads_to(
                    old(self).spec_generation(),
                    event,
                    step,
                ) && step_report(step) == report_of(
                    old(self).spec_generation(),
                    old(self).spec_stage(),
                    event,
                ),
                None => !awaited(old(self).spec_stage(), event),
            },
    {
        let next: SignInStage = match (self.stage, &event) {
            (SignInStage::Starting, SignInEvent::Started(Ok(_))) => SignInStage::Waiting,
            (SignInStage::Starting, SignInEvent::Started(Err(_))) => SignInStage::Done,
            (SignInStage::Waiting, SignInEvent::Authorised(Ok(_))) => SignInStage::Connecting,
            (SignInStage::Waiting, SignInEvent::Authorised(Err(_))) => SignInStage::Done,
            (SignInStage::Connecting, SignInEvent::Connected(_)) => SignInStage::Done,
            _ => {
                return None;
            },
        };
        self.stage = next;
        Some(sign_in(self.generation, event))
    }
}

/// What a sign-in reports over these events, one after the other, and where it
/// then stands.
pub open spec fn flow_of(generation: u64, events: Seq<SignInEvent>) -> (Seq<Report>, SignInStage)
    decreases events.len(),
{
    if events.len() == 0 {
        (Seq::empty(), SignInStage::Starting)
    } else {
        let (reports, stage) = flow_of(generation, events.drop_last());
        let event = events.last();
        (
            match report_of(generation, stage, event) {
                Some(report) => reports.push(report),
                None => reports,
            },
            stage_after(stage, event),
        )
    }
}

/// The generation that a report is stamped with.
pub open spec fn stamp(report: Report) -> u64 {
    match report {
        Report::Code { generation, .. } => generation,
        Report::Result { generation, .. } => generation,
    }
}

/// What a sign-in has reported by each stage: nothing, then at most its code,
/// then at most its code and its result.
proof fn lemma_flow(generation: u64, events: Seq<SignInEvent>)
    ensures
        ({
            let (reports, stage) = flow_of(generation, events);
            &&& forall|i: int| 0 <= i < reports.len() ==> stamp(#[trigger] reports[i]) == generation
            &&& match stage {
                SignInStage::Starting => reports.len() == 0,
                SignInStage::Waiting | SignInStage::Connecting => reports.len() == 1
                    && reports[0] is Code,
                SignInStage::Done => 1 <= reports.len() <= 2 && reports.last() is Result && (
                reports.len() == 2 ==> reports[0] is Code),
            }
        }),
    decreases events.len(),
{
    if events.len() > 0 {
        lemma_flow(generation, events.drop_last());
    }
}

/// One sign-in reports at most one code and at most one result, and never a
/// code after the result, each stamped with its generation, whatever comes back
/// and in whatever order.
pub proof fn law_sign_in_order(generation: u64, events: Seq<SignInEvent>, i: int, j: int)
    requires
        0 <= i < j < flow_of(generation, events).0.len(),
    ensures
        flow_of(generation, events).0[i] is Code,
        flow_of(generation, events).0[j] is Result,
        stamp(flow_of(generation, events).0[i]) == generation,
        stamp(flow_of(generation, events).0[j]) == generation,
        flow_of(generation, events).0.len() == 2,
{
    lemma_flow(generation, events);
}

/// Every report of a sign-in is stamped with its generation.
pub proof fn law_sign_in_is_stamped(generation: u64, events: Seq<SignInEvent>, i: int)
    requires
        0 <= i < flow_of(generation, events).0.len(),
    ensures
        stamp(flow_of(generation, events).0[i]) == generation,
{
    lemma_flow(generation, events);
}

/// A sign-in that has ended stays so: nothing more is reported.
pub proof fn law_ended_sign_in_is_silent(
    generation: u64,
    events: Seq<SignInEvent>,
    event: SignInEvent,
)
    requires
        flow_of(generation, events).1 == SignInStage::Done,
    ensures
        flow_of(generation, events.push(event)) == flow_of(generation, events),
{
    assert(events.push(event).drop_last() =~= events);
}

/// A sign-in that goes well reports the code that GitHub gave, then how trying
/// the new token went; the token itself is in no report.
pub proof fn law_sign_in_runs_its_course(
    generation: u64,
    flow: DeviceFlow,
    token: String,
    result: Result<Connection, ConnectError>,
)
    ensures
        flow_of(
            generation,
            seq![
                SignInEvent::Started(Ok(flow)),
                SignInEvent::Authorised(Ok(token)),
                SignInEvent::Connected(result),
            ],
        ) == (
            seq![
                Report::Code {
                    generation,
                    user_code: flow.user_code@,
                    verification_uri: flow.verification_uri@,
                },
                Report::Result { generation, result },
            ],
            SignInStage::Done,
        ),
{
    let none = Seq::<SignInEvent>::empty();
    let one = none.push(SignInEvent::Started(Ok(flow)));
    let two = one.push(SignInEvent::Authorised(Ok(token)));
    let three = two.push(SignInEvent::Connected(result));
    assert(one.drop_last() =~= none && two.drop_last() =~= one && three.drop_last() =~= two);
    let code = Report::Code {
        generation,
        user_code: flow.user_code@,
        verification_uri: flow.verification_uri@,
    };
    assert(flow_of(generation, none) == (Seq::<Report>::empty(), SignInStage::Starting));
    assert(flow_of(generation, one) == (Seq::<Report>::empty().push(code), SignInStage::Waiting));
    assert(flow_of(generation, two) == (
        Seq::<Report>::empty().push(code),
        SignInStage::Connecting,
    ));
    assert(three =~= seq![
        SignInEvent::Started(Ok(flow)),
        SignInEvent::Authorised(Ok(token)),
        SignInEvent::Connected(result),
    ]);
    assert(flow_of(generation, three).0 =~= seq![code, Report::Result { generation, result }]);
}

/// A sign-in that gets no code, or is not authorised, ends with the reason.
pub proof fn law_sign_in_ends_with_the_reason(
    generation: u64,
    events: Seq<SignInEvent>,
    error: ConnectError,
)
    ensures
        ({
            let (reports, stage) = flow_of(generation, events);
            let refused = flow_of(generation, events.push(SignInEvent::Started(Err(error))));
            let denied = flow_of(generation, events.push(SignInEvent::Authorised(Err(error))));
            &&& stage == SignInStage::Starting ==> refused == (
                reports.push(Report::Result { generation, result: Err(error) }),
                SignInStage::Done,
            )
            &&& stage != SignInStage::Starting ==> refused == (reports, stage)
            &&& stage == SignInStage::Waiting ==> denied == (
                reports.push(Report::Result { generation, result: Err(error) }),
                SignInStage::Done,
            )
            &&& stage != SignInStage::Waiting ==> denied == (reports, stage)
        }),
{
    assert(events.push(SignInEvent::Started(Err(error))).drop_last() =~= events);
    assert(events.push(SignInEvent::Authorised(Err(error))).drop_last() =~= events);
}

/// What each event of a sign-in leads to: a code is shown as it came and waited
/// on, an authorised token is stored and tried, and anything else ends it with
/// what came back.
pub proof fn law_events_lead_on(
    generation: u64,
    flow: DeviceFlow,
    token: String,
    result: Result<Connection, ConnectError>,
    error: ConnectError,
    step: SignInStep,
)
    ensures
        leads_to(generation, SignInEvent::Started(Ok(flow)), step) ==> step == (SignInStep::Wait {
            report: CommandMsg::DeviceCode {
                generation,
                user_code: flow.user_code,
                verification_uri: flow.verification_uri,
            },
            flow,
        }),
        leads_to(generation, SignInEvent::Authorised(Ok(token)), step) ==> step
            == SignInStep::StoreAndConnect(token),
        leads_to(generation, SignInEvent::Connected(result), step) ==> step == SignInStep::Finish(
            CommandMsg::DeviceResult { generation, result: Box::new(result) },
        ),
        leads_to(generation, SignInEvent::Started(Err(error)), step) ==> step == SignInStep::Finish(
            CommandMsg::DeviceResult { generation, result: Box::new(Err(error)) },
        ),
        leads_to(generation, SignInEvent::Authorised(Err(error)), step) ==> step
            == SignInStep::Finish(
            CommandMsg::DeviceResult { generation, result: Box::new(Err(error)) },
        ),
{
}

} // verus!
