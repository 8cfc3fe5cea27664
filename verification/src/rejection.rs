//! Why a subscription request is rejected.

use crate::status::{Code, Status};
use crate::text::{
    decimal, decimal_text, join2, join3, quoted, quoted_text, signed_decimal, signed_decimal_text,
};
use vstd::prelude::*;

verus! {

/// The lists of a filter.
#[derive(Clone, Copy, Debug, PartialEq, Eq, Structural)]
pub enum ListField {
    TransactionIds,
    TransparentAddresses,
    AddressInclude,
    AddressExclude,
    AddressRequired,
}

impl ListField {
    /// The name of a list in the protocol definition.
    pub open spec fn spec_name(self) -> Seq<char> {
        match self {
            ListField::TransactionIds => "transaction_ids"@,
            ListField::TransparentAddresses => "transparent_addresses"@,
            ListField::AddressInclude => "address_include"@,
            ListField::AddressExclude => "address_exclude"@,
            ListField::AddressRequired => "address_required"@,
        }
    }

    /// What the entries of a list are called.
    pub open spec fn spec_entry(self) -> Seq<char> {
        match self {
            ListField::TransactionIds => "transaction ID"@,
            _ => "transparent address"@,
        }
    }

    /// The name in the protocol definition.
    pub fn name(self) -> (name: &'static str)
        ensures
            name@ == self.spec_name(),
    {
        match self {
            ListField::TransactionIds => "transaction_ids",
            ListField::TransparentAddresses => "transparent_addresses",
            ListField::AddressInclude => "address_include",
            ListField::AddressExclude => "address_exclude",
            ListField::AddressRequired => "address_required",
        }
    }

    /// What the entries are called.
    pub fn entry(self) -> (entry: &'static str)
        ensures
            entry@ == self.spec_entry(),
    {
        match self {
            ListField::TransactionIds => "transaction ID",
            _ => "transparent address",
        }
    }
}

/// Why a subscription request is rejected.
#[derive(Clone, Debug)]
pub enum FilterError {
    /// There are more named filters than allowed.
    TooManyNamedFilters { maximum: usize },
    /// An empty request would select every event type.
    CatchAllDisabled,
    /// A filter has no name.
    EmptyName,
    /// The name of a filter is too long.
    NameTooLong { maximum: usize },
    /// A named filter without conditions would select every event type.
    NamedCatchAllDisabled { name: String },
    /// There are more event types in a filter than allowed.
    TooManyEventTypes { maximum: usize },
    /// There is no such event type.
    UnknownEventType { value: i32 },
    /// The placeholder event type cannot be selected.
    UnspecifiedEventType,
    /// A list is longer than allowed.
    ListTooLong { field: ListField, maximum: usize },
    /// An entry of a list cannot be parsed.
    InvalidEntry { field: ListField, value: String },
    /// An entry of a list is on the reject-list.
    RejectedEntry { field: ListField, value: String },
    /// The configured reject-list of a list cannot be parsed.
    InvalidRejectList { field: ListField },
    /// There is no such block payload mode.
    UnknownBlockPayload { value: i32 },
}

impl FilterError {
    /// The status code of a rejection. Only a broken configuration is the server's fault.
    pub open spec fn spec_code(self) -> Code {
        match self {
            FilterError::InvalidRejectList { .. } => Code::Internal,
            _ => Code::InvalidArgument,
        }
    }

    /// The text of a rejection.
    pub open spec fn spec_message(self) -> Seq<char> {
        match self {
            FilterError::TooManyNamedFilters { maximum } => "at most "@ + decimal(maximum as nat)
                + " named filters are allowed"@,
            FilterError::CatchAllDisabled
                => "an empty filter is disabled; select at least one event type"@,
            FilterError::EmptyName => "filter names cannot be empty"@,
            FilterError::NameTooLong { maximum } => "filter name is longer than "@ + decimal(
                maximum as nat,
            ) + " bytes"@,
            FilterError::NamedCatchAllDisabled { name } => "named filter "@ + quoted_text(name@)
                + " must select at least one event type"@,
            FilterError::TooManyEventTypes { maximum } => "at most "@ + decimal(maximum as nat)
                + " event types are allowed per filter"@,
            FilterError::UnknownEventType { value } => "unknown event type "@ + signed_decimal(
                value as int,
            ),
            FilterError::UnspecifiedEventType
                => "EVENT_TYPE_UNSPECIFIED cannot be used as a filter"@,
            FilterError::ListTooLong { field, maximum } => "at most "@ + decimal(maximum as nat)
                + " values are allowed in "@ + field.spec_name() + " per filter"@,
            FilterError::InvalidEntry { field, value } => "invalid "@ + field.spec_entry() + " "@
                + quoted_text(value@),
            FilterError::RejectedEntry { field, value } => field.spec_name()
                + " contains rejected "@ + field.spec_entry() + " "@ + quoted_text(value@),
            FilterError::InvalidRejectList { field } => "invalid configured "@
                + field.spec_entry() + " reject-list"@,
            FilterError::UnknownBlockPayload { value } => "unknown block payload mode "@
                + signed_decimal(value as int),
        }
    }

    /// The status code.
    pub fn code(&self) -> (code: Code)
        ensures
            code == self.spec_code(),
    {
        match self {
            FilterError::InvalidRejectList { .. } => Code::Internal,
            _ => Code::InvalidArgument,
        }
    }

    /// Describes the rejection.
    pub fn message(&self) -> (message: String)
        ensures
            message@ == self.spec_message(),
    {
        match self {
            FilterError::TooManyNamedFilters { maximum } => join3(
                "at most ",
                decimal_text(*maximum as u64).as_str(),
                " named filters are allowed",
            ),
            FilterError::CatchAllDisabled
                => "an empty filter is disabled; select at least one event type".to_owned(),
            FilterError::EmptyName => "filter names cannot be empty".to_owned(),
            FilterError::NameTooLong { maximum } => join3(
                "filter name is longer than ",
                decimal_text(*maximum as u64).as_str(),
                " bytes",
            ),
            FilterError::NamedCatchAllDisabled { name } => join3(
                "named filter ",
                quoted(name.as_str()).as_str(),
                " must select at least one event type",
            ),
            FilterError::TooManyEventTypes { maximum } => join3(
                "at most ",
                decimal_text(*maximum as u64).as_str(),
                " event types are allowed per filter",
            ),
            FilterError::UnknownEventType { value } => join2(
                "unknown event type ",
                signed_decimal_text(*value).as_str(),
            ),
            FilterError::UnspecifiedEventType
                => "EVENT_TYPE_UNSPECIFIED cannot be used as a filter".to_owned(),
            FilterError::ListTooLong { field, maximum } => {
                let head = join3(
                    "at most ",
                    decimal_text(*maximum as u64).as_str(),
                    " values are allowed in ",
                );
                join3(head.as_str(), field.name(), " per filter")
            },
            FilterError::InvalidEntry { field, value } => {
                let head = join3("invalid ", field.entry(), " ");
                join2(head.as_str(), quoted(value.as_str()).as_str())
            },
            FilterError::RejectedEntry { field, value } => {
                let head = join3(field.name(), " contains rejected ", field.entry());
                join3(head.as_str(), " ", quoted(value.as_str()).as_str())
            },
            FilterError::InvalidRejectList { field } => join3(
                "invalid configured ",
                field.entry(),
                " reject-list",
            ),
            FilterError::UnknownBlockPayload { value } => join2(
                "unknown block payload mode ",
                signed_decimal_text(*value).as_str(),
            ),
        }
    }

    /// The status that answers a rejected request.
    pub fn status(&self) -> (status: Status)
        ensures
            status.code == self.spec_code(),
            status.message@ == self.spec_message(),
    {
        Status::new(self.code(), self.message())
    }
}

} // verus!
