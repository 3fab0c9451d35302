//! Declarations of the outside types that the library carries through.
use vstd::prelude::*;

use http::Error as HttpError;
use httparse::Error as HttparseError;

verus! {

#[verifier::external_type_specification]
#[verifier::external_body]
pub struct ExIoError(std::io::Error);

#[verifier::external_type_specification]
#[verifier::external_body]
pub struct ExPadError(aes::cipher::inout::PadError);

#[verifier::external_type_specification]
#[verifier::external_body]
pub struct ExHttparseError(HttparseError);

#[verifier::external_type_specification]
#[verifier::external_body]
pub struct ExHttpError(HttpError);

} // verus!
