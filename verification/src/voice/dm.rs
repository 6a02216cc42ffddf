//! A direct data channel between two friends: what its frames mean, and what
//! signaling asks for.
use vstd::prelude::*;

use crate::voice::client::{ice_config, IceEntry, IceServer};

verus! {

/// Signaling that goes out.
#[derive(Debug)]
pub enum DmSignalOut {
    Offer(String),
    Answer(String),
    Ice(serde_json::Value),
}

/// Signaling that comes in.
#[derive(Debug)]
#[allow(inconsistent_fields)]
pub enum DmSignalIn {
    Offer { sdp: String },
    Answer { sdp: String },
    Ice { candidate: serde_json::Value },
}

/// What the channel tells its host.
#[derive(Debug, Clone)]
pub enum DmEvent {
    Open,
    Message(Vec<u8>),
    Closed,
    Error(String),
}

/// What the connection reports of the channel.
#[derive(Debug)]
pub enum ChannelReport {
    Opened,
    Message { data: Vec<u8> },
    Closed,
    Other,
}

/// What to do with a report.
#[derive(Debug)]
pub enum PollStep {
    /// Tell the host, and go on.
    Tell(DmEvent),
    /// Tell the host, and stop asking for reports.
    TellAndStop(DmEvent),
    Ignore,
}

/// One thing to do with the connection, in order; the first that fails ends the
/// handling of the signal.
#[derive(Debug)]
#[allow(inconsistent_fields)]
pub enum DmStep {
    SetRemoteOffer { sdp: String },
    /// Make an answer, use it as the local description, and send it out.
    Answer,
    SetRemoteAnswer { sdp: String },
    /// Add a candidate; one that cannot be read is passed over.
    AddCandidate { candidate: serde_json::Value },
}

/// How a channel is opened.
#[derive(Debug)]
pub struct DmPlan {
    pub label: String,
    pub ice: Vec<IceEntry>,
    pub bind: String,
}

/// How to open a channel: its label, the servers to connect through, and the local
/// address.
pub fn open_plan(ice_servers: &Vec<IceServer>) -> (r: DmPlan)
    ensures
        r.label@ == "dm"@,
        r.bind@ == "0.0.0.0:0"@,
        r.ice@.len() == ice_servers@.len(),
        forall|i: int|
            0 <= i < r.ice@.len() ==> (#[trigger] r.ice@[i]).urls@ == ice_servers@[i].urls@
                && r.ice@[i].username@ == crate::voice::client::text_or_empty(
                ice_servers@[i].username,
            ) && r.ice@[i].credential@ == crate::voice::client::text_or_empty(
                ice_servers@[i].credential,
            ),
{
    DmPlan {
        label: "dm".to_owned(),
        ice: ice_config(ice_servers),
        bind: "0.0.0.0:0".to_owned(),
    }
}

/// Decides on a report: opening, messages and closing reach the host, and closing
/// is the last.
pub fn poll_step(report: ChannelReport) -> (r: PollStep)
    ensures
        r == (match report {
            ChannelReport::Opened => PollStep::Tell(DmEvent::Open),
            ChannelReport::Message { data } => PollStep::Tell(DmEvent::Message(data)),
            ChannelReport::Closed => PollStep::TellAndStop(DmEvent::Closed),
            ChannelReport::Other => PollStep::Ignore,
        }),
{
    match report {
        ChannelReport::Opened => PollStep::Tell(DmEvent::Open),
        ChannelReport::Message { data } => PollStep::Tell(DmEvent::Message(data)),
        ChannelReport::Closed => PollStep::TellAndStop(DmEvent::Closed),
        ChannelReport::Other => PollStep::Ignore,
    }
}

/// What a signal asks for: an offer is taken over and answered, an answer is taken
/// over, and a candidate is added.
pub fn handle_signal(signal: DmSignalIn) -> (r: Vec<DmStep>)
    ensures
        match signal {
            DmSignalIn::Offer { sdp } => r@ =~= seq![
                DmStep::SetRemoteOffer { sdp },
                DmStep::Answer,
            ],
            DmSignalIn::Answer { sdp } => r@ =~= seq![DmStep::SetRemoteAnswer { sdp }],
            DmSignalIn::Ice { candidate } => r@ =~= seq![DmStep::AddCandidate { candidate }],
        },
{
    let mut out: Vec<DmStep> = Vec::new();
    match signal {
        DmSignalIn::Offer { sdp } => {
            out.push(DmStep::SetRemoteOffer { sdp });
            out.push(DmStep::Answer);
        },
        DmSignalIn::Answer { sdp } => {
            out.push(DmStep::SetRemoteAnswer { sdp });
        },
        DmSignalIn::Ice { candidate } => {
            out.push(DmStep::AddCandidate { candidate });
        },
    }
    out
}

/// The signal that carries an offer of this side.
pub fn create_offer(sdp: String) -> (r: DmSignalOut)
    ensures
        r == DmSignalOut::Offer(sdp),
{
    DmSignalOut::Offer(sdp)
}

/// The signal that carries an answer of this side.
pub fn create_answer(sdp: String) -> (r: DmSignalOut)
    ensures
        r == DmSignalOut::Answer(sdp),
{
    DmSignalOut::Answer(sdp)
}

/// What one friend signals is what the other takes over: an offer as an offer, which
/// is answered, and an answer as an answer, each with its own description.
pub proof fn law_signals_match(
    sdp: String,
    offer: DmSignalOut,
    answer: DmSignalOut,
    candidate: serde_json::Value,
    x: Vec<DmStep>,
    y: Vec<DmStep>,
    z: Vec<DmStep>,
)
    requires
        call_ensures(create_offer, (sdp,), offer),
        call_ensures(create_answer, (sdp,), answer),
        call_ensures(handle_signal, (DmSignalIn::Offer { sdp },), x),
        call_ensures(handle_signal, (DmSignalIn::Answer { sdp },), y),
        call_ensures(handle_signal, (DmSignalIn::Ice { candidate },), z),
    ensures
        offer is Offer && offer->Offer_0 == sdp,
        answer is Answer && answer->Answer_0 == sdp,
        x@.len() == 2,
        x@[0] == (DmStep::SetRemoteOffer { sdp }),
        x@[1] is Answer,
        y@.len() == 1,
        y@[0] == (DmStep::SetRemoteAnswer { sdp }),
        z@.len() == 1,
        z@[0] == (DmStep::AddCandidate { candidate }),
{
}

/// What the channel reports reaches the host as it is, and only closing ends it.
pub proof fn law_reports_told(report: ChannelReport, r: PollStep)
    requires
        call_ensures(poll_step, (report,), r),
    ensures
        r is TellAndStop <==> report is Closed,
        r is Ignore <==> report is Other,
        r matches PollStep::TellAndStop(e) ==> e is Closed,
        r matches PollStep::Tell(e) ==> (e is Open <==> report is Opened) && (e is Message
            <==> report is Message) && (e matches DmEvent::Message(data) ==> data == report->data),
{
}

/// A channel is opened through the servers it was given, in order, each with its own
/// addresses and credentials.
pub proof fn law_plan_servers(servers: &Vec<IceServer>, r: DmPlan, i: int)
    requires
        call_ensures(open_plan, (servers,), r),
        0 <= i < servers@.len(),
    ensures
        r.label@ == "dm"@,
        r.ice@.len() == servers@.len(),
        r.ice@[i].urls@ == servers@[i].urls@,
        servers@[i].username matches Some(u) ==> r.ice@[i].username@ == u@,
        servers@[i].credential matches Some(c) ==> r.ice@[i].credential@ == c@,
        servers@[i].username is None ==> r.ice@[i].username@.len() == 0,
        servers@[i].credential is None ==> r.ice@[i].credential@.len() == 0,
{
}

} // verus!
