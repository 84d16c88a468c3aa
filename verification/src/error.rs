//! Failures that abort a reconciliation run.

use vstd::prelude::*;

verus! {

/// Why a desired state could not be built, or a live snapshot not be read.
#[derive(Debug, PartialEq)]
pub enum Error {
    /// A name that is no capability flag.
    UnknownPermission(String),
    /// A name that is no channel kind.
    UnknownChannelType(String),
    /// An overwrite names a role that the enclosing list of roles lacks.
    UnknownRole(String),
    /// A channel names a category that the list of categories lacks.
    UnknownCategory(String),
    /// Permissions are to be taken from the category of the named channel,
    /// and no such category can be resolved.
    MissingCategory(String),
    /// A live overwrite carries the identifier of a role that the snapshot lacks.
    UnknownRoleId(String),
    /// A live overwrite is not attached to a role.
    UnsupportedOverwriteType(u8),
    /// A permission code that is no decimal number of 64 bits.
    InvalidPermissionsCode(String),
    /// A color that is no hexadecimal number of one to six digits.
    InvalidColor(String),
    /// A live channel carries the identifier of a category that the snapshot lacks.
    UnknownCategoryId(String),
}

/// Mathematical counterpart of [`Error`].
pub enum ErrorModel {
    UnknownPermission(Seq<char>),
    UnknownChannelType(Seq<char>),
    UnknownRole(Seq<char>),
    UnknownCategory(Seq<char>),
    MissingCategory(Seq<char>),
    UnknownRoleId(Seq<char>),
    UnsupportedOverwriteType(u8),
    InvalidPermissionsCode(Seq<char>),
    InvalidColor(Seq<char>),
    UnknownCategoryId(Seq<char>),
}

impl View for Error {
    type V = ErrorModel;

    open spec fn view(&self) -> ErrorModel {
        match self {
            Error::UnknownPermission(s) => ErrorModel::UnknownPermission(s@),
            Error::UnknownChannelType(s) => ErrorModel::UnknownChannelType(s@),
            Error::UnknownRole(s) => ErrorModel::UnknownRole(s@),
            Error::UnknownCategory(s) => ErrorModel::UnknownCategory(s@),
            Error::MissingCategory(s) => ErrorModel::MissingCategory(s@),
            Error::UnknownRoleId(s) => ErrorModel::UnknownRoleId(s@),
            Error::UnsupportedOverwriteType(t) => ErrorModel::UnsupportedOverwriteType(*t),
            Error::InvalidPermissionsCode(s) => ErrorModel::InvalidPermissionsCode(s@),
            Error::InvalidColor(s) => ErrorModel::InvalidColor(s@),
            Error::UnknownCategoryId(s) => ErrorModel::UnknownCategoryId(s@),
        }
    }
}

impl ErrorModel {
    /// The sentence that introduces the offending value in a message.
    pub open spec fn preamble(self) -> Seq<char> {
        match self {
            ErrorModel::UnknownPermission(_) => "No permission found with name "@,
            ErrorModel::UnknownChannelType(_) => "No channel type found with name "@,
            ErrorModel::UnknownRole(_) => "No role found with name "@,
            ErrorModel::UnknownCategory(_) => "No category found with name "@,
            ErrorModel::MissingCategory(_) =>
                "Category cannot be empty for overriding permissions overwrites of extra channel "@,
            ErrorModel::UnknownRoleId(_) => "No role found with id "@,
            ErrorModel::UnsupportedOverwriteType(_) => "Unsupported permissions overwrite type "@,
            ErrorModel::InvalidPermissionsCode(_) => "Invalid permissions code "@,
            ErrorModel::InvalidColor(_) => "Invalid color "@,
            ErrorModel::UnknownCategoryId(_) => "No category found with id "@,
        }
    }

    /// The offending value, as text.
    pub open spec fn subject(self) -> Seq<char> {
        match self {
            ErrorModel::UnknownPermission(s) => s,
            ErrorModel::UnknownChannelType(s) => s,
            ErrorModel::UnknownRole(s) => s,
            ErrorModel::UnknownCategory(s) => s,
            ErrorModel::MissingCategory(s) => s,
            ErrorModel::UnknownRoleId(s) => s,
            ErrorModel::UnsupportedOverwriteType(t) => crate::text::decimal_digits(t as nat),
            ErrorModel::InvalidPermissionsCode(s) => s,
            ErrorModel::InvalidColor(s) => s,
            ErrorModel::UnknownCategoryId(s) => s,
        }
    }

    /// The whole message.
    pub open spec fn message(self) -> Seq<char> {
        self.preamble() + self.subject()
    }
}

impl Error {
    /// Renders the failure for a human reader.
    pub fn message(&self) -> (text: String)
        ensures
            text@ == self@.message(),
    {
        match self {
            Error::UnknownPermission(s) => "No permission found with name ".to_owned().concat(
                s.as_str(),
            ),
            Error::UnknownChannelType(s) => "No channel type found with name ".to_owned().concat(
                s.as_str(),
            ),
            Error::UnknownRole(s) => "No role found with name ".to_owned().concat(s.as_str()),
            Error::UnknownCategory(s) => "No category found with name ".to_owned().concat(
                s.as_str(),
            ),
            Error::MissingCategory(s) =>
                "Category cannot be empty for overriding permissions overwrites of extra channel ".to_owned().concat(
                s.as_str(),
            ),
            Error::UnknownRoleId(s) => "No role found with id ".to_owned().concat(s.as_str()),
            Error::UnsupportedOverwriteType(t) => {
                let digits = crate::text::decimal(*t as u64);
                "Unsupported permissions overwrite type ".to_owned().concat(digits.as_str())
            },
            Error::InvalidPermissionsCode(s) => "Invalid permissions code ".to_owned().concat(
                s.as_str(),
            ),
            Error::InvalidColor(s) => "Invalid color ".to_owned().concat(s.as_str()),
            Error::UnknownCategoryId(s) => "No category found with id ".to_owned().concat(
                s.as_str(),
            ),
        }
    }
}

} // verus!
