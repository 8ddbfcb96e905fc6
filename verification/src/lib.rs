use vstd::prelude::*;

pub mod batch;
pub mod buffer;
pub mod entry;
pub mod labels;
pub mod layer;
pub mod level;
pub mod scope;
pub mod task;
pub mod wire;

use crate::labels::{spec_upsert, LabelMap};
use crate::layer::Layer;
use crate::task::SenderTask;

verus! {

#[verifier::external_type_specification]
#[verifier::external_body]
pub struct ExUrl(url::Url);

#[verifier::external_type_specification]
#[verifier::external_body]
pub struct ExParseError(url::ParseError);

/// Whether a string is a URL the parser accepts: a function of the
/// string alone.
pub uninterp spec fn url_accepted(s: Seq<char>) -> bool;

/// Relies on url::Url::parse: it accepts or rejects a string on the
/// string's content alone, with no other input.
#[verifier::external_body]
fn parse_url(s: &str) -> (r: Result<url::Url, url::ParseError>)
    ensures
        r is Ok <==> url_accepted(s@),
{
    url::Url::parse(s)
}

/// Configures a shipper: the ingestion endpoint, checked when the builder
/// is made, the static labels every stream carries, and the static fields
/// appended to every entry at encode time.
pub struct Builder {
    url: url::Url,
    labels: LabelMap,
    fields: LabelMap,
}

impl Builder {
    pub closed spec fn spec_labels(self) -> Seq<(Seq<char>, Seq<char>)> {
        self.labels@
    }

    pub closed spec fn spec_fields(self) -> Seq<(Seq<char>, Seq<char>)> {
        self.fields@
    }

    pub closed spec fn spec_url(self) -> url::Url {
        self.url
    }

    pub open spec fn wf(self) -> bool {
        crate::labels::unique_names(self.spec_labels()) && crate::labels::unique_names(
            self.spec_fields(),
        )
    }

    /// Makes a builder for the given endpoint. A string the URL parser
    /// rejects is a fatal configuration error, reported immediately; no
    /// shipper is built from it.
    pub fn new(url: &str) -> (r: Result<Builder, url::ParseError>)
        ensures
            r is Ok <==> url_accepted(url@),
            r is Ok ==> {
                &&& r.unwrap().wf()
                &&& r.unwrap().spec_labels() =~= Seq::<(Seq<char>, Seq<char>)>::empty()
                &&& r.unwrap().spec_fields() =~= Seq::<(Seq<char>, Seq<char>)>::empty()
            },
    {
        match parse_url(url) {
            Result::Ok(u) => Result::Ok(
                Builder { url: u, labels: LabelMap::new(), fields: LabelMap::new() },
            ),
            Result::Err(e) => Result::Err(e),
        }
    }

    /// Adds a static label, replacing the value of an existing name.
    pub fn add_label(self, key: &str, value: &str) -> (r: Builder)
        requires
            self.wf(),
        ensures
            r.wf(),
            r.spec_labels() == spec_upsert(self.spec_labels(), key@, value@),
            r.spec_fields() == self.spec_fields(),
            r.spec_url() == self.spec_url(),
    {
        let mut b = self;
        b.add_label_mut(key, value);
        b
    }

    /// Adds a static label in place, replacing the value of an existing
    /// name.
    pub fn add_label_mut(&mut self, key: &str, value: &str)
        requires
            old(self).wf(),
        ensures
            final(self).wf(),
            final(self).spec_labels() == spec_upsert(old(self).spec_labels(), key@, value@),
            final(self).spec_fields() == old(self).spec_fields(),
            final(self).spec_url() == old(self).spec_url(),
    {
        self.labels.insert(key, value);
    }

    /// Adds a static per-entry field, replacing the value of an existing
    /// name.
    pub fn add_field(self, key: &str, value: &str) -> (r: Builder)
        requires
            self.wf(),
        ensures
            r.wf(),
            r.spec_fields() == spec_upsert(self.spec_fields(), key@, value@),
            r.spec_labels() == self.spec_labels(),
            r.spec_url() == self.spec_url(),
    {
        let mut b = self;
        b.add_field_mut(key, value);
        b
    }

    /// Adds a static per-entry field in place, replacing the value of an
    /// existing name.
    pub fn add_field_mut(&mut self, key: &str, value: &str)
        requires
            old(self).wf(),
        ensures
            final(self).wf(),
            final(self).spec_fields() == spec_upsert(old(self).spec_fields(), key@, value@),
            final(self).spec_labels() == old(self).spec_labels(),
            final(self).spec_url() == old(self).spec_url(),
    {
        self.fields.insert(key, value);
    }

    /// Builds the two halves of the shipper: the capture adapter and the
    /// delivery sender. The caller makes the shared buffer, hands it to
    /// both, and drives the sender's cycles.
    pub fn build(self) -> (r: (Layer, SenderTask))
        requires
            self.wf(),
        ensures
            r.0.scopes@ =~= Seq::<crate::scope::Scope>::empty(),
            r.0.scopes.wf(),
            r.1.wf(),
            r.1@.labels == self.spec_labels(),
            r.1@.fields == self.spec_fields(),
            r.1@.pending =~= Seq::<u8>::empty(),
            r.1.spec_url() == self.spec_url(),
    {
        (Layer::new(), SenderTask::new(self.url, self.labels, self.fields))
    }
}

} // verus!
