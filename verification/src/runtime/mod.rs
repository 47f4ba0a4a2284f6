//! The evaluation of components on data.

pub mod binary;
pub mod clamp;
pub mod count;
pub mod plan;
pub mod random;
pub mod resize;
pub mod utilities;

use crate::base::{Arguments, ReleaseNode, Value};
use crate::errors::Error;
use crate::proto::PrivacyDefinition;
use vstd::prelude::*;

verus! {

/// A computation that can be carried out on data.
pub trait Evaluable {
    /// The result of the computation on the arguments given.
    fn evaluate(
        &self,
        privacy_definition: &Option<PrivacyDefinition>,
        arguments: &Arguments<Value>,
    ) -> (r: Result<ReleaseNode, Error>)
    ;
}

} // verus!
