//! Types of outside crates that values of the library carry.

use vstd::prelude::*;
use reqwest::Client as HttpClient;
use reqwest::Error as HttpError;
use serde_json::Error as JsonError;

verus! {

#[verifier::external_type_specification]
#[verifier::external_body]
pub struct ExJsonError(JsonError);

#[verifier::external_type_specification]
#[verifier::external_body]
pub struct ExHttpError(HttpError);

#[verifier::external_type_specification]
#[verifier::external_body]
pub struct ExHttpClient(HttpClient);

} // verus!
