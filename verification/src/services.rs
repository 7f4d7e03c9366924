//! AI services: the capability interface, the type-keyed registry and the
//! selection strategies.

use vstd::prelude::*;

pub mod erasure;
pub mod registry;
pub mod selection;

verus! {

/// The text of an identifier, as contracts speak of it.
pub type Text = Seq<char>;

/// The text of an optional identifier.
pub open spec fn text_of(id: Option<String>) -> Option<Seq<char>> {
    match id {
        Some(text) => Some(text@),
        None => None,
    }
}

/// The capability interface: what every AI service implementation reports
/// of itself.
///
/// Both accessors describe the service and nothing else: what each returns
/// is a function of the service, which the `spec` function of the same name
/// gives. Code that is not verified gives the two `spec` functions any
/// body, for nothing ever calls them; its accessors must still return the
/// same for the same service.
pub trait AIService {
    /// The model identifier of this service, if it has one.
    spec fn model_id(&self) -> Option<Text>;

    /// The service identifier of this service, if it has one.
    spec fn service_id(&self) -> Option<Text>;

    /// The model identifier of this service, if it has one.
    fn get_model_id(&self) -> (id: Option<String>)
        ensures
            text_of(id) == self.model_id(),
    ;

    /// The service identifier of this service, if it has one.
    fn get_service_id(&self) -> (id: Option<String>)
        ensures
            text_of(id) == self.service_id(),
    ;
}

} // verus!
