use vstd::prelude::*;
use crate::batch::{batch_encoding, encode_batch};
use crate::entry::EventWrapper;
use crate::labels::LabelMap;

verus! {

/// The Snappy block compression of `b`: a pure function of the bytes.
pub uninterp spec fn snappy_of(b: Seq<u8>) -> Seq<u8>;

/// Relies on snap::raw::Encoder::compress_vec: the Snappy block
/// compression of the input bytes, a function of those bytes alone; it
/// fails only when the input is longer than the format's maximum input
/// size, and inputs up to 0xC0000000 bytes are always within it.
#[verifier::external_body]
fn compress(input: &Vec<u8>) -> (r: Option<Vec<u8>>)
    ensures
        r is Some ==> r.unwrap()@ == snappy_of(input@),
        input@.len() <= 0xC000_0000 ==> r is Some,
{
    snap::raw::Encoder::new().compress_vec(input.as_slice()).ok()
}

/// The mathematical state of the delivery sender: its configured labels
/// and static fields, and the bytes of the pending batch (empty when no
/// batch is pending).
pub ghost struct SenderModel {
    pub labels: Seq<(Seq<char>, Seq<char>)>,
    pub fields: Seq<(Seq<char>, Seq<char>)>,
    pub pending: Seq<u8>,
}

/// What the outcome of one send attempt does to the sender: success
/// clears the pending batch, failure leaves the whole state untouched.
pub open spec fn send_step(m: SenderModel, ok: bool) -> SenderModel {
    if ok {
        SenderModel { pending: Seq::<u8>::empty(), ..m }
    } else {
        m
    }
}

/// The delivery sender's state: the endpoint, the configured labels and
/// static fields, and at most one encoded, compressed batch awaiting
/// delivery. The caller runs the cycle: it drains the buffer only when
/// nothing is pending, posts the pending bytes, and reports the outcome;
/// every decision in between is made here.
pub struct SenderTask {
    url: url::Url,
    labels: LabelMap,
    fields: LabelMap,
    current_req_data: Vec<u8>,
}

impl SenderTask {
    pub closed spec fn spec_url(self) -> url::Url {
        self.url
    }

    /// The configured endpoint, for the caller that posts the batches.
    pub fn url(&self) -> (r: &url::Url)
        ensures
            *r == self.spec_url(),
    {
        &self.url
    }

    pub closed spec fn view(self) -> SenderModel {
        SenderModel {
            labels: self.labels@,
            fields: self.fields@,
            pending: self.current_req_data@,
        }
    }

    pub open spec fn wf(self) -> bool {
        crate::labels::unique_names(self@.labels) && crate::labels::unique_names(self@.fields)
    }

    pub(crate) fn new(url: url::Url, labels: LabelMap, fields: LabelMap) -> (r: SenderTask)
        requires
            labels.wf(),
            fields.wf(),
        ensures
            r.wf(),
            r.spec_url() == url,
            r@.labels == labels@,
            r@.fields == fields@,
            r@.pending =~= Seq::<u8>::empty(),
    {
        SenderTask { url, labels, fields, current_req_data: Vec::new() }
    }

    /// True when an encoded batch is still awaiting a successful delivery.
    pub fn has_pending(&self) -> (r: bool)
        ensures
            r == (self@.pending.len() > 0),
    {
        self.current_req_data.len() > 0
    }

    /// The bytes of the pending batch; what a send attempt posts.
    pub fn pending_data(&self) -> (r: &Vec<u8>)
        ensures
            r@ == self@.pending,
    {
        &self.current_req_data
    }

    /// Begins one delivery cycle. With a batch already pending, the
    /// drained events must be none and the pending bytes stay untouched,
    /// to be retried identically. With none pending, the drained events
    /// (if any) are grouped, encoded and compressed into the new pending
    /// batch. The first result says whether a send attempt must follow:
    /// exactly when a batch is pending afterwards, and never on an empty
    /// cycle. A drained batch is never silently lost: in the one case in
    /// which no pending batch comes of it — its encoding exceeds the
    /// compressor's input limit — the events are handed back as the
    /// second result, for the caller to keep.
    pub fn begin_cycle(&mut self, drained: Vec<EventWrapper>) -> (r: (
        bool,
        Option<Vec<EventWrapper>>,
    ))
        requires
            old(self).wf(),
            old(self)@.pending.len() > 0 ==> drained@.len() == 0,
        ensures
            final(self).wf(),
            final(self)@.labels == old(self)@.labels,
            final(self)@.fields == old(self)@.fields,
            final(self).spec_url() == old(self).spec_url(),
            r.0 == (final(self)@.pending.len() > 0),
            old(self)@.pending.len() > 0 ==> final(self)@.pending == old(self)@.pending
                && r.1 is None,
            old(self)@.pending.len() == 0 && drained@.len() == 0 ==> final(self)@.pending
                =~= Seq::<u8>::empty() && r.1 is None,
            old(self)@.pending.len() == 0 && drained@.len() > 0 ==> {
                let enc = batch_encoding(drained@, old(self)@.labels, old(self)@.fields);
                ||| (final(self)@.pending == snappy_of(enc) && r.1 is None)
                ||| {
                    &&& enc.len() > 0xC000_0000
                    &&& final(self)@.pending.len() == 0
                    &&& r.1 is Some
                    &&& r.1.unwrap()@ == drained@
                }
            },
    {
        if self.current_req_data.len() == 0 {
            if drained.len() == 0 {
                return (false, Option::None);
            }
            let enc = encode_batch(&drained, &self.labels, self.fields.items());
            match compress(&enc) {
                Option::Some(c) => {
                    self.current_req_data = c;
                },
                Option::None => {
                    return (false, Option::Some(drained));
                },
            }
        }
        (self.current_req_data.len() > 0, Option::None)
    }

    /// Ends one delivery cycle with the outcome of the send attempt:
    /// success clears the pending batch; failure leaves it byte-identical,
    /// to be retried on the next cycle.
    pub fn on_send_result(&mut self, ok: bool)
        ensures
            final(self)@ == send_step(old(self)@, ok),
            final(self).spec_url() == old(self).spec_url(),
            old(self).wf() ==> final(self).wf(),
    {
        if ok {
            self.current_req_data.clear();
        }
        proof {
            assert(final(self)@.pending =~= send_step(old(self)@, ok).pending);
        }
    }
}

/// Retrying never re-draws a batch: a failed attempt leaves the sender,
/// and in particular the pending bytes, exactly as they were, so the next
/// attempt sends the identical bytes; the first success clears the batch,
/// and a cleared batch stays cleared until a new one is encoded.
pub proof fn lemma_retry_idempotence(m: SenderModel)
    ensures
        send_step(m, false) == m,
        send_step(send_step(m, false), true).pending =~= Seq::<u8>::empty(),
        send_step(send_step(m, false), true).labels == m.labels,
        send_step(send_step(m, false), true).fields == m.fields,
{
}

} // verus!
