//! The resource: what an endpoint tells the engine about itself.
//!
//! Every callback but `content_types_provided` and the two that run the
//! handlers has a default, so that a resource that overrides nothing else
//! is a read-only endpoint that answers GET and HEAD with 200.

use vstd::prelude::*;
use crate::flow::DelayedResponse;
use crate::media::MediaType;
use crate::message::{Header, Method, Request};

verus! {

/// A representation that a resource can produce: its media type, and the
/// handler that writes it.
pub struct ProvidedPair<H>(pub MediaType, pub H);

/// A representation that a resource can take in: its media type, and the
/// handler that reads it.
pub struct AcceptedPair<H>(pub MediaType, pub H);

/// The callbacks that the trait gives a default for, each by its name.
#[derive(Clone, Copy, Debug, PartialEq, Eq, Structural)]
pub enum Callback {
    ResourceExists,
    ServiceAvailable,
    IsAuthorized,
    Forbidden,
    AllowMissingPost,
    MalformedRequest,
    UriTooLong,
    KnownContentType,
    ValidContentHeaders,
    ValidEntityLength,
    AllowedMethods,
    KnownMethods,
    DeleteMethod,
    DeleteCompleted,
    PostIsCreate,
    CreatePath,
    BaseUri,
    ProcessPost,
    ContentTypesAccepted,
    CharsetsProvided,
    LanguagesProvided,
    EncodingsProvided,
    IsConflict,
    MultipleChoices,
    PreviouslyExisted,
    MovedPermanently,
    MovedTemporarily,
    LastModified,
    GenerateEtag,
    ValidateContentChecksum,
}

/// The capabilities of one endpoint. A resource lives as long as the
/// request that it answers. The engine may ask the same question more than
/// once, and takes every answer as it comes.
///
/// Each callback that has a default says in its contract what the default
/// answers, for the resources that keep it. What a resource has in fact
/// answered, the engine names by the call itself.
pub trait Resource: Sized {
    /// What stands for a handler that takes a request body in.
    type Input;

    /// What stands for a handler that writes a representation.
    type Output;

    /// Whether the resource leaves a callback at its default. It does
    /// unless it says otherwise: a resource that gives a callback an answer
    /// of its own says so here.
    open spec fn keeps(&self, callback: Callback) -> bool {
        true
    }

    fn resource_exists(&self) -> (r: bool)
        ensures
            self.keeps(Callback::ResourceExists) ==> r,
    {
        true
    }

    fn service_available(&self) -> (r: bool)
        ensures
            self.keeps(Callback::ServiceAvailable) ==> r,
    {
        true
    }

    fn is_authorized(&self, _authorization_header: Option<&str>) -> (r: bool)
        ensures
            self.keeps(Callback::IsAuthorized) ==> r,
    {
        true
    }

    fn forbidden(&self) -> (r: bool)
        ensures
            self.keeps(Callback::Forbidden) ==> !r,
    {
        false
    }

    fn allow_missing_post(&self) -> (r: bool)
        ensures
            self.keeps(Callback::AllowMissingPost) ==> !r,
    {
        false
    }

    fn malformed_request(&self) -> (r: bool)
        ensures
            self.keeps(Callback::MalformedRequest) ==> !r,
    {
        false
    }

    fn uri_too_long(&self, _uri: &str) -> (r: bool)
        ensures
            self.keeps(Callback::UriTooLong) ==> !r,
    {
        false
    }

    fn known_content_type(&self, _content_type: &str) -> (r: bool)
        ensures
            self.keeps(Callback::KnownContentType) ==> r,
    {
        true
    }

    /// Is asked about the header fields whose names begin with `Content-`.
    fn valid_content_headers(&self, _content_headers: &Vec<Header>) -> (r: bool)
        ensures
            self.keeps(Callback::ValidContentHeaders) ==> r,
    {
        true
    }

    fn valid_entity_length(&self, _len: u64) -> (r: bool)
        ensures
            self.keeps(Callback::ValidEntityLength) ==> r,
    {
        true
    }

    fn allowed_methods(&self) -> (r: Vec<Method>)
        ensures
            self.keeps(Callback::AllowedMethods) ==> r@ == seq![Method::Get, Method::Head],
    {
        vec![Method::Get, Method::Head]
    }

    fn known_methods(&self) -> (r: Vec<Method>)
        ensures
            self.keeps(Callback::KnownMethods) ==> r@ == seq![
                Method::Get,
                Method::Head,
                Method::Post,
                Method::Put,
                Method::Delete,
                Method::Trace,
                Method::Connect,
                Method::Options,
            ],
    {
        vec![
            Method::Get,
            Method::Head,
            Method::Post,
            Method::Put,
            Method::Delete,
            Method::Trace,
            Method::Connect,
            Method::Options,
        ]
    }

    fn delete_method(&self) -> (r: bool)
        ensures
            self.keeps(Callback::DeleteMethod) ==> !r,
    {
        false
    }

    fn delete_completed(&self) -> (r: bool)
        ensures
            self.keeps(Callback::DeleteCompleted) ==> r,
    {
        true
    }

    fn post_is_create(&self) -> (r: bool)
        ensures
            self.keeps(Callback::PostIsCreate) ==> !r,
    {
        false
    }

    /// The place of what a POST has created, as `Location` is to name it.
    fn create_path(&self) -> (r: String)
        ensures
            self.keeps(Callback::CreatePath) ==> r@ == Seq::<char>::empty(),
    {
        String::new()
    }

    /// The base of the places that the resource names, where it has one.
    fn base_uri(&self) -> (r: Option<String>)
        ensures
            self.keeps(Callback::BaseUri) ==> r is None,
    {
        None
    }

    fn process_post(&mut self, response: &mut DelayedResponse) -> (r: bool)
        ensures
            old(self).keeps(Callback::ProcessPost) ==> !r && *final(self) == *old(self)
                && *final(response) == *old(response),
    {
        false
    }

    /// The representations on offer, the preferred one first. Must not be
    /// empty.
    fn content_types_provided(&self) -> Vec<ProvidedPair<Self::Output>>;

    fn content_types_accepted(&self) -> (r: Vec<AcceptedPair<Self::Input>>)
        ensures
            self.keeps(Callback::ContentTypesAccepted) ==> r@.len() == 0,
    {
        Vec::new()
    }

    fn charsets_provided(&self) -> (r: Vec<String>)
        ensures
            self.keeps(Callback::CharsetsProvided) ==> r@.len() == 0,
    {
        Vec::new()
    }

    fn languages_provided(&self) -> (r: Vec<String>)
        ensures
            self.keeps(Callback::LanguagesProvided) ==> r@.len() == 0,
    {
        Vec::new()
    }

    fn encodings_provided(&self) -> (r: Vec<String>)
        ensures
            self.keeps(Callback::EncodingsProvided) ==> r@.len() == 0,
    {
        Vec::new()
    }

    fn is_conflict(&self) -> (r: bool)
        ensures
            self.keeps(Callback::IsConflict) ==> !r,
    {
        false
    }

    fn multiple_choices(&self) -> (r: bool)
        ensures
            self.keeps(Callback::MultipleChoices) ==> !r,
    {
        false
    }

    fn previously_existed(&self) -> (r: bool)
        ensures
            self.keeps(Callback::PreviouslyExisted) ==> !r,
    {
        false
    }

    fn moved_permanently(&self) -> (r: Option<String>)
        ensures
            self.keeps(Callback::MovedPermanently) ==> r is None,
    {
        None
    }

    fn moved_temporarily(&self) -> (r: Option<String>)
        ensures
            self.keeps(Callback::MovedTemporarily) ==> r is None,
    {
        None
    }

    /// In seconds since 1970-01-01 00:00:00 GMT.
    fn last_modified(&self) -> (r: Option<u64>)
        ensures
            self.keeps(Callback::LastModified) ==> r is None,
    {
        None
    }

    /// The entity tag of the resource, without quotes.
    fn generate_etag(&self) -> (r: Option<String>)
        ensures
            self.keeps(Callback::GenerateEtag) ==> r is None,
    {
        None
    }

    /// `None` leaves the check of a `Content-MD5` header out.
    fn validate_content_checksum(&self) -> (r: Option<bool>)
        ensures
            self.keeps(Callback::ValidateContentChecksum) ==> r is None,
    {
        None
    }

    /// Runs an input handler: it consumes the body of the request.
    fn accept(
        &mut self,
        handler: &Self::Input,
        request: &mut Request,
        response: &mut DelayedResponse,
    );

    /// Runs an output handler: it pushes the representation into the body
    /// of the response, which has started.
    fn produce(&mut self, handler: &Self::Output, response: &mut DelayedResponse)
        requires
            *old(response) is Started,
    ;
}

} // verus!
