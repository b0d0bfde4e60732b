//! The store of the account settings: a configuration that answers a key
//! with a text, with nothing, or with a failure.

use crate::text::free_of;
use vstd::prelude::*;
use vstd::string::*;

verus! {

/// The type of a loaded configuration, `config::Config`. Nothing is known
/// of what a value of it holds but by a lookup.
#[verifier::external_type_specification]
#[verifier::external_body]
pub struct ExConfig(config::Config);

/// What a store holds: each key for which a lookup finds something, with
/// the text that the lookup gives, or with `None` where the lookup fails.
pub uninterp spec fn store_contents(store: config::Config) -> Map<Seq<char>, Option<Seq<char>>>;

/// What a lookup in the store gave.
#[derive(Debug)]
pub enum StoreValue {
    /// The text under the key.
    Found(String),
    /// The store does not know the key.
    NotFound,
    /// The lookup failed.
    Failed,
}

/// The outcome of a lookup as mathematical values.
pub enum StoreView {
    Found(Seq<char>),
    NotFound,
    Failed,
}

impl View for StoreValue {
    type V = StoreView;

    open spec fn view(&self) -> StoreView {
        match self {
            StoreValue::Found(text) => StoreView::Found(text@),
            StoreValue::NotFound => StoreView::NotFound,
            StoreValue::Failed => StoreView::Failed,
        }
    }
}

/// The outcome of a lookup of `key` in these contents.
pub open spec fn lookup_in(
    contents: Map<Seq<char>, Option<Seq<char>>>,
    key: Seq<char>,
) -> StoreView {
    if contents.dom().contains(key) {
        match contents[key] {
            Some(text) => StoreView::Found(text),
            None => StoreView::Failed,
        }
    } else {
        StoreView::NotFound
    }
}

/// A lookup by `config::Config::get` for a `String`. The result is that
/// of the method, variant by variant: the text where it gives one,
/// `NotFound` for its error of that name, `Failed` for every other
/// error. The method reads nothing but the configuration, so that the
/// same store answers the same key alike: that is all the contract
/// claims, in the name `store_contents`. A key with a subscript is left
/// out: on a negative subscript beyond the length of a stored list the
/// method does not return.
#[verifier::external_body]
pub(crate) fn store_get(store: &config::Config, key: &str) -> (value: StoreValue)
    requires
        free_of(key@, '['),
    ensures
        value@ == lookup_in(store_contents(*store), key@),
{
    match store.get::<String>(key) {
        Ok(text) => StoreValue::Found(text),
        Err(config::ConfigError::NotFound(_)) => StoreValue::NotFound,
        Err(_) => StoreValue::Failed,
    }
}

} // verus!
