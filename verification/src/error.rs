//! Failure taxonomy for the generation pipeline.

use vstd::prelude::*;
use vstd::string::StringExecFns;
use crate::text::spec_u16_dec;
use crate::text::u16_to_string;

verus! {

/// Every way an invocation can fail, from missing configuration through
/// transport trouble to a response that carries no image.
#[derive(Debug, PartialEq)]
pub enum ImagoError {
    MissingApiKey,
    ApiError { status: u16, message: String },
    ApiResponseError(String),
    NoImageData,
    SafetyFilter(String),
    NetworkError(String),
    JsonError(String),
    ImageError(String),
    IoError(String),
    Base64Error(String),
    DisplayError(String),
    ResponseFormatError { message: String },
    Timeout,
}

impl ImagoError {
    /// An error is worth retrying when it came from the network itself or
    /// from a server-side (5xx) status.
    pub open spec fn spec_retryable(&self) -> bool {
        ||| self matches ImagoError::NetworkError(_)
        ||| (self matches ImagoError::ApiError { status, .. } && 500 <= *status <= 599)
    }

    /// Check if error is retryable (network/server errors).
    pub fn is_retryable(&self) -> (r: bool)
        ensures
            r == self.spec_retryable(),
    {
        match self {
            ImagoError::NetworkError(_) => true,
            ImagoError::ApiError { status, .. } => 500 <= *status && *status <= 599,
            _ => false,
        }
    }

    /// The user-facing description of the error.
    pub open spec fn spec_message(&self) -> Seq<char> {
        match self {
            ImagoError::MissingApiKey => "API key not found. Please set GEMINI_API_KEY environment variable"@,
            ImagoError::ApiError { status, message } => "API error (status "@ + spec_u16_dec(
                *status as nat,
            ) + "): "@ + message@,
            ImagoError::ApiResponseError(m) => "API response error: "@ + m@,
            ImagoError::NoImageData => "No image data found in response"@,
            ImagoError::SafetyFilter(m) => "Safety filter blocked image generation. Reason: "@
                + m@,
            ImagoError::NetworkError(m) => "Network error: "@ + m@,
            ImagoError::JsonError(m) => "JSON serialization error: "@ + m@,
            ImagoError::ImageError(m) => "Image processing error: "@ + m@,
            ImagoError::IoError(m) => "File I/O error: "@ + m@,
            ImagoError::Base64Error(m) => "Base64 decoding error: "@ + m@,
            ImagoError::DisplayError(m) => "Terminal display error: "@ + m@,
            ImagoError::ResponseFormatError { message } => "Invalid response format: "@
                + message@,
            ImagoError::Timeout => "Request timeout"@,
        }
    }

    pub fn message(&self) -> (r: String)
        ensures
            r@ == self.spec_message(),
    {
        match self {
            ImagoError::MissingApiKey => String::from_str(
                "API key not found. Please set GEMINI_API_KEY environment variable",
            ),
            ImagoError::ApiError { status, message } => String::from_str(
                "API error (status ",
            ).concat(u16_to_string(*status).as_str()).concat("): ").concat(message.as_str()),
            ImagoError::ApiResponseError(m) => String::from_str("API response error: ").concat(
                m.as_str(),
            ),
            ImagoError::NoImageData => String::from_str("No image data found in response"),
            ImagoError::SafetyFilter(m) => String::from_str(
                "Safety filter blocked image generation. Reason: ",
            ).concat(m.as_str()),
            ImagoError::NetworkError(m) => String::from_str("Network error: ").concat(m.as_str()),
            ImagoError::JsonError(m) => String::from_str("JSON serialization error: ").concat(
                m.as_str(),
            ),
            ImagoError::ImageError(m) => String::from_str("Image processing error: ").concat(
                m.as_str(),
            ),
            ImagoError::IoError(m) => String::from_str("File I/O error: ").concat(m.as_str()),
            ImagoError::Base64Error(m) => String::from_str("Base64 decoding error: ").concat(
                m.as_str(),
            ),
            ImagoError::DisplayError(m) => String::from_str("Terminal display error: ").concat(
                m.as_str(),
            ),
            ImagoError::ResponseFormatError { message } => String::from_str(
                "Invalid response format: ",
            ).concat(message.as_str()),
            ImagoError::Timeout => String::from_str("Request timeout"),
        }
    }
}

} // verus!
