//! Routing of outbound feature messages: which peers get a message, and how
//! failed deliveries are reported.

use vstd::prelude::*;

use crate::codec::FeatureMessage;
use crate::error::{transport_error_text, TransportError};
use crate::ids::{uuid_text, DeviceId, FeatureId};
use crate::network::{sent, MockNetwork};
use crate::text::push_str;

verus! {

/// Why publishing a message failed.
#[derive(Debug, Clone)]
pub enum PublishError {
    /// Some deliveries failed; the message lists them.
    Failed(String),
}

/// The devices in `candidates` that are in `connected`, in the order of
/// `candidates`.
pub open spec fn kept(candidates: Seq<DeviceId>, connected: Seq<DeviceId>) -> Seq<DeviceId>
    decreases candidates.len(),
{
    if candidates.len() == 0 {
        Seq::empty()
    } else {
        let rest = kept(candidates.drop_last(), connected);
        if connected.contains(candidates.last()) {
            rest.push(candidates.last())
        } else {
            rest
        }
    }
}

fn is_connected(connected: &Vec<DeviceId>, d: DeviceId) -> (r: bool)
    ensures
        r == connected@.contains(d),
{
    let mut i: usize = 0;
    while i < connected.len()
        invariant
            i <= connected@.len(),
            forall|j: int| 0 <= j < i ==> connected@[j] != d,
        decreases connected.len() - i,
    {
        if connected[i] == d {
            assert(connected@[i as int] == d);
            return true;
        }
        i = i + 1;
    }
    false
}

/// The peers a message goes to: those the peer directory names for its feature
/// (`candidates`, in the directory's order) that have a live session.
pub fn select_recipients(candidates: &Vec<DeviceId>, connected: &Vec<DeviceId>) -> (r: Vec<DeviceId>)
    ensures
        r@ == kept(candidates@, connected@),
{
    let mut r: Vec<DeviceId> = Vec::new();
    let mut i: usize = 0;
    while i < candidates.len()
        invariant
            i <= candidates@.len(),
            r@ == kept(candidates@.subrange(0, i as int), connected@),
        decreases candidates.len() - i,
    {
        proof {
            assert(candidates@.subrange(0, i + 1).drop_last() =~= candidates@.subrange(0, i as int));
        }
        let d = candidates[i];
        if is_connected(connected, d) {
            r.push(d);
        }
        i = i + 1;
    }
    assert(candidates@.subrange(0, candidates@.len() as int) =~= candidates@);
    r
}

/// The report line of one failed delivery: the peer, a colon, the error.
pub open spec fn failure_line(f: (DeviceId, TransportError)) -> Seq<char> {
    uuid_text(f.0.0) + ": "@ + transport_error_text(f.1)
}

/// The report of failed deliveries: their lines, joined by "; ".
pub open spec fn failure_report(fs: Seq<(DeviceId, TransportError)>) -> Seq<char>
    decreases fs.len(),
{
    if fs.len() == 0 {
        Seq::empty()
    } else if fs.len() == 1 {
        failure_line(fs[0])
    } else {
        failure_report(fs.drop_last()) + "; "@ + failure_line(fs.last())
    }
}

/// The outcome of publishing, from the deliveries that failed (each with its
/// peer): success when none did, else a report of all of them.
pub fn publish_result(failures: &Vec<(DeviceId, TransportError)>) -> (r: Result<(), PublishError>)
    ensures
        failures@.len() == 0 <==> r is Ok,
        r matches Err(PublishError::Failed(m)) ==> m@ == failure_report(failures@),
{
    if failures.len() == 0 {
        return Ok(());
    }
    let mut report = String::new();
    let mut i: usize = 0;
    while i < failures.len()
        invariant
            i <= failures@.len(),
            report@ == failure_report(failures@.subrange(0, i as int)),
        decreases failures.len() - i,
    {
        proof {
            assert(failures@.subrange(0, i + 1).drop_last() =~= failures@.subrange(0, i as int));
        }
        if i > 0 {
            push_str(&mut report, "; ");
        }
        let peer = failures[i].0.to_text();
        let error = failures[i].1.message();
        push_str(&mut report, peer.as_str());
        push_str(&mut report, ": ");
        push_str(&mut report, error.as_str());
        proof {
            let s = failures@.subrange(0, i + 1);
            assert(s.last() == failures@[i as int]);
            if i == 0 {
                assert(report@ =~= failure_line(failures@[0]));
                assert(s[0] == failures@[0]);
            } else {
                assert(report@ =~= failure_report(s.drop_last()) + "; "@ + failure_line(s.last()));
            }
        }
        i = i + 1;
    }
    assert(failures@.subrange(0, failures@.len() as int) =~= failures@);
    Err(PublishError::Failed(report))
}

/// `m` is the message of feature `feature` with payload `payload`, from
/// `from` to `to`.
pub open spec fn is_message(m: FeatureMessage, from: DeviceId, to: DeviceId, feature: Seq<char>, payload: Seq<u8>) -> bool {
    m.from == from && m.to == to && m.feature.name@ == feature && m.payload@ == payload
}

/// The inboxes after sending `msgs` one after the other, and the deliveries
/// that failed, each with its recipient, in order.
pub open spec fn sent_each(inboxes: Map<DeviceId, Seq<FeatureMessage>>, msgs: Seq<FeatureMessage>) -> (Map<DeviceId, Seq<FeatureMessage>>, Seq<(DeviceId, TransportError)>)
    decreases msgs.len(),
{
    if msgs.len() == 0 {
        (inboxes, Seq::empty())
    } else {
        let before = sent_each(inboxes, msgs.drop_last());
        let after = sent(before.0, msgs.last());
        match after.1 {
            Ok(_) => (after.0, before.1),
            Err(e) => (after.0, before.1.push((msgs.last().to, e))),
        }
    }
}

/// The messages publishing sends, in order: one from `local` to each of
/// `recipients`, of feature `feature` with payload `payload`.
pub fn outbound_messages(local: DeviceId, recipients: &Vec<DeviceId>, feature: &FeatureId, payload: &Vec<u8>) -> (r: Vec<FeatureMessage>)
    ensures
        r@.len() == recipients@.len(),
        forall|i: int| 0 <= i < r@.len() ==> is_message(#[trigger] r@[i], local, recipients@[i], feature.name@, payload@),
{
    let mut r: Vec<FeatureMessage> = Vec::new();
    let mut i: usize = 0;
    while i < recipients.len()
        invariant
            i <= recipients@.len(),
            r@.len() == i,
            forall|j: int| 0 <= j < i ==> is_message(#[trigger] r@[j], local, recipients@[j], feature.name@, payload@),
        decreases recipients.len() - i,
    {
        r.push(
            FeatureMessage {
                from: local,
                to: recipients[i],
                feature: FeatureId { name: feature.name.clone() },
                payload: vstd::slice::slice_to_vec(payload.as_slice()),
            },
        );
        i = i + 1;
    }
    r
}

/// The deliveries that failed, each with its recipient, in order, given the
/// answer of the transport to the message for each of `recipients`.
pub open spec fn failed_deliveries(recipients: Seq<DeviceId>, answers: Seq<Result<(), TransportError>>) -> Seq<(DeviceId, TransportError)>
    decreases answers.len(),
{
    if answers.len() == 0 || recipients.len() == 0 {
        Seq::empty()
    } else {
        let rest = failed_deliveries(recipients.drop_last(), answers.drop_last());
        match answers.last() {
            Ok(_) => rest,
            Err(e) => rest.push((recipients.last(), e)),
        }
    }
}

fn copy_error(e: &TransportError) -> (r: TransportError)
    ensures
        r == *e,
{
    match e {
        TransportError::PeerNotFound(d) => TransportError::PeerNotFound(*d),
        TransportError::Disconnected => TransportError::Disconnected,
        TransportError::Codec(m) => TransportError::Codec(m.clone()),
    }
}

/// The outcome of publishing over any transport, once each message of
/// `outbound_messages` was sent in turn (a failed send not stopping the
/// others) and `answers` holds the transport's answers: success when every
/// send succeeded, else the report of the failed ones.
pub fn publish_outcome(recipients: &Vec<DeviceId>, answers: &Vec<Result<(), TransportError>>) -> (r: Result<(), PublishError>)
    requires
        answers@.len() == recipients@.len(),
    ensures
        r is Ok <==> forall|i: int| 0 <= i < answers@.len() ==> (#[trigger] answers@[i]) is Ok,
        r matches Err(PublishError::Failed(m)) ==> m@ == failure_report(failed_deliveries(recipients@, answers@)),
{
    let mut failures: Vec<(DeviceId, TransportError)> = Vec::new();
    let mut i: usize = 0;
    while i < answers.len()
        invariant
            i <= answers@.len(),
            answers@.len() == recipients@.len(),
            failures@ == failed_deliveries(recipients@.subrange(0, i as int), answers@.subrange(0, i as int)),
            failures@.len() == 0 <==> forall|j: int| 0 <= j < i ==> (#[trigger] answers@[j]) is Ok,
        decreases answers.len() - i,
    {
        proof {
            assert(recipients@.subrange(0, i + 1).drop_last() =~= recipients@.subrange(0, i as int));
            assert(answers@.subrange(0, i + 1).drop_last() =~= answers@.subrange(0, i as int));
        }
        match &answers[i] {
            Ok(()) => {},
            Err(e) => {
                failures.push((recipients[i], copy_error(e)));
            },
        }
        i = i + 1;
    }
    proof {
        assert(recipients@.subrange(0, recipients@.len() as int) =~= recipients@);
        assert(answers@.subrange(0, answers@.len() as int) =~= answers@);
    }
    publish_result(&failures)
}

/// What publishing does on the network: the peers the message goes to are
/// the `candidates` connected besides `local`, in order; each gets its own
/// copy in turn, a failed delivery not stopping the others; and the outcome
/// reports the failures as `publish_result` does.
pub open spec fn published(
    before: Map<DeviceId, Seq<FeatureMessage>>,
    after: Map<DeviceId, Seq<FeatureMessage>>,
    local: DeviceId,
    candidates: Seq<DeviceId>,
    feature: Seq<char>,
    payload: Seq<u8>,
    r: Result<(), PublishError>,
) -> bool {
    exists|connected: Seq<DeviceId>, msgs: Seq<FeatureMessage>|
        #![trigger kept(candidates, connected), sent_each(before, msgs)]
        {
            &&& forall|d: DeviceId| connected.contains(d) <==> (before.dom().contains(d) && d != local)
            &&& msgs.len() == kept(candidates, connected).len()
            &&& forall|i: int|
                0 <= i < msgs.len() ==> is_message(
                    #[trigger] msgs[i],
                    local,
                    kept(candidates, connected)[i],
                    feature,
                    payload,
                )
            &&& after == sent_each(before, msgs).0
            &&& (sent_each(before, msgs).1.len() == 0 <==> r is Ok)
            &&& (r matches Err(PublishError::Failed(m)) ==> m@ == failure_report(sent_each(before, msgs).1))
        }
}

proof fn lemma_kept_within(candidates: Seq<DeviceId>, connected: Seq<DeviceId>, i: int)
    requires
        0 <= i < kept(candidates, connected).len(),
    ensures
        connected.contains(kept(candidates, connected)[i]),
    decreases candidates.len(),
{
    if candidates.len() > 0 {
        let rest = kept(candidates.drop_last(), connected);
        if i < rest.len() {
            lemma_kept_within(candidates.drop_last(), connected, i);
        }
    }
}

/// Publishes a message of `feature` with `payload` from `local` to the
/// peers named for the feature (`candidates`) that are connected, as
/// `published` says. On this network every selected peer is connected, so
/// no delivery fails.
pub fn publish(net: &mut MockNetwork, local: DeviceId, candidates: &Vec<DeviceId>, feature: &FeatureId, payload: &Vec<u8>) -> (r: Result<(), PublishError>)
    requires
        old(net).wf(),
    ensures
        final(net).wf(),
        published(old(net).inboxes(), final(net).inboxes(), local, candidates@, feature.name@, payload@, r),
        r is Ok,
{
    let ghost start = net.inboxes();
    let connected = net.connected_peers(local);
    let recipients = select_recipients(candidates, &connected);
    let mut failures: Vec<(DeviceId, TransportError)> = Vec::new();
    let ghost mut msgs: Seq<FeatureMessage> = Seq::empty();
    let mut i: usize = 0;
    while i < recipients.len()
        invariant
            net.wf(),
            i <= recipients@.len(),
            recipients@ == kept(candidates@, connected@),
            forall|d: DeviceId| connected@.contains(d) <==> (start.dom().contains(d) && d != local),
            msgs.len() == i,
            forall|j: int|
                0 <= j < i ==> is_message(#[trigger] msgs[j], local, recipients@[j], feature.name@, payload@),
            net.inboxes() == sent_each(start, msgs).0,
            net.inboxes().dom() == start.dom(),
            failures@ == sent_each(start, msgs).1,
            failures@.len() == 0,
        decreases recipients.len() - i,
    {
        let to = recipients[i];
        proof {
            lemma_kept_within(candidates@, connected@, i as int);
        }
        let m = FeatureMessage {
            from: local,
            to,
            feature: FeatureId { name: feature.name.clone() },
            payload: vstd::slice::slice_to_vec(payload.as_slice()),
        };
        let ghost gm = m;
        let ghost inboxes = net.inboxes();
        let answer = net.send(m);
        proof {
            let next = msgs.push(gm);
            assert(next.drop_last() =~= msgs);
            assert(next.last() == gm);
            assert(inboxes.dom().contains(gm.to));
            assert(net.inboxes().dom() =~= start.dom());
            msgs = next;
        }
        match answer {
            Ok(()) => {},
            Err(e) => {
                failures.push((to, e));
            },
        }
        i = i + 1;
    }
    publish_result(&failures)
}

} // verus!
