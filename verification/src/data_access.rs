//! The error taxonomy of data-access services: what can go wrong when a
//! service's data or metadata is retrieved, parsed or validated.  The
//! tabular results themselves live with the caller, outside the library.

use vstd::prelude::*;

verus! {

use vstd::string::StringExecFns;

/// What went wrong while a data-access service was used, with the
/// service's own message.
#[derive(Debug)]
pub enum DataAccessError {
    /// The service's data could not be retrieved.
    DataRetrievalError(String),
    /// The service's metadata could not be retrieved.
    MetadataRetrievalError(String),
    /// The service's data could not be parsed.
    DataParseError(String),
    /// The service's metadata could not be parsed.
    MetadataParseError(String),
    /// The service's data did not validate.
    DataValidationError(String),
    /// The service's metadata did not validate.
    MetadataValidationError(String),
}

impl DataAccessError {
    /// The textual form of the error: its kind, then its message.
    pub fn message(&self) -> (r: String)
        ensures
            match self {
                DataAccessError::DataRetrievalError(m) => r@ == "DataRetrievalError: "@ + m@,
                DataAccessError::MetadataRetrievalError(m) => r@ == "MetadataRetrievalError: "@
                    + m@,
                DataAccessError::DataParseError(m) => r@ == "DataParseError: "@ + m@,
                DataAccessError::MetadataParseError(m) => r@ == "MetadataParseError: "@ + m@,
                DataAccessError::DataValidationError(m) => r@ == "DataValidationError: "@ + m@,
                DataAccessError::MetadataValidationError(m) => r@ == "MetadataValidationError: "@
                    + m@,
            },
    {
        let mut s = String::new();
        match self {
            DataAccessError::DataRetrievalError(m) => {
                s.append("DataRetrievalError: ");
                s.append(m.as_str());
            }
            DataAccessError::MetadataRetrievalError(m) => {
                s.append("MetadataRetrievalError: ");
                s.append(m.as_str());
            }
            DataAccessError::DataParseError(m) => {
                s.append("DataParseError: ");
                s.append(m.as_str());
            }
            DataAccessError::MetadataParseError(m) => {
                s.append("MetadataParseError: ");
                s.append(m.as_str());
            }
            DataAccessError::DataValidationError(m) => {
                s.append("DataValidationError: ");
                s.append(m.as_str());
            }
            DataAccessError::MetadataValidationError(m) => {
                s.append("MetadataValidationError: ");
                s.append(m.as_str());
            }
        }
        s
    }
}

} // verus!
