//! The invocation's configuration and its validation, as plain values; the
//! argument parser around it lives with the caller.

use vstd::prelude::*;
use crate::error::ImagoError;

verus! {

/// One invocation's configuration: the prompt, the output location, the
/// preview geometry, the model choice and the credential override.
#[derive(Debug, PartialEq)]
pub struct Cli {
    pub prompt: String,
    pub output: Option<String>,
    pub width: u32,
    pub height: Option<u32>,
    pub no_preview: bool,
    pub model: String,
    pub api_key: Option<String>,
    pub verbose: bool,
    pub no_color: bool,
}

impl Cli {
    /// Validate CLI arguments: a zero preview width is rejected, anything
    /// else passes.
    pub fn validate(&self) -> (r: Result<(), ImagoError>)
        ensures
            self.width == 0 ==> (r matches Err(ImagoError::ResponseFormatError { message })
                && message@ == "Width must be greater than 0"@),
            self.width != 0 ==> r is Ok,
    {
        if self.width == 0 {
            return Err(
                ImagoError::ResponseFormatError {
                    message: String::from_str("Width must be greater than 0"),
                },
            );
        }
        Ok(())
    }
}

/// The credential for a call: an explicitly given key wins over one found in
/// the environment; with neither, the invocation fails before any request.
pub fn choose_api_key(cli_key: Option<String>, env_key: Option<String>) -> (r: Result<
    String,
    ImagoError,
>)
    ensures
        (cli_key matches Some(k) ==> (r matches Ok(s) && s@ == k@)),
        cli_key is None ==> match env_key {
            Some(k) => r matches Ok(s) && s@ == k@,
            None => r matches Err(ImagoError::MissingApiKey),
        },
{
    match cli_key {
        Some(k) => Ok(k),
        None => match env_key {
            Some(k) => Ok(k),
            None => Err(ImagoError::MissingApiKey),
        },
    }
}

} // verus!
