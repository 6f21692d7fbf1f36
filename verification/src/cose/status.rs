//! The log of a validation.

use vstd::prelude::*;

use crate::error::Error;

verus! {

/// What a validation found, in the terms of the C2PA specification.
#[derive(Clone, Copy, Debug, PartialEq, Eq, Structural)]
pub enum ValidationStatus {
    AlgorithmUnsupported,
    ClaimSignatureMismatch,
    SigningCredentialExpired,
    SigningCredentialInvalid,
    SigningCredentialTrusted,
    SigningCredentialUntrusted,
    TimestampMismatch,
    TimestampOutsideValidity,
}

/// One finding of a validation.
#[derive(Clone, Debug, PartialEq, Eq)]
pub struct LogItem {
    /// What the finding is about.
    pub label: &'static str,
    pub description: &'static str,
    /// Where it was made.
    pub function: &'static str,
    pub validation_status: Option<ValidationStatus>,
    /// What is wrong; nothing where all is well.
    pub err_val: Option<Error>,
}

/// The findings of a validation, and whether it stops at the first that is an error.
#[derive(Clone, Debug, PartialEq, Eq)]
pub struct StatusTracker {
    pub logged_items: Vec<LogItem>,
    pub stops_on_error: bool,
}

/// What a [`StatusTracker`] holds.
#[verifier::ext_equal]
pub struct StatusModel {
    pub logged_items: Seq<LogItem>,
    pub stops_on_error: bool,
}

impl View for StatusTracker {
    type V = StatusModel;

    open spec fn view(&self) -> StatusModel {
        StatusModel { logged_items: self.logged_items@, stops_on_error: self.stops_on_error }
    }
}

/// A finding about a COSE_Sign1 structure that is an error.
pub open spec fn failure(
    description: &'static str,
    function: &'static str,
    validation_status: Option<ValidationStatus>,
    err: Error,
) -> LogItem {
    LogItem {
        label: "Cose_Sign1",
        description,
        function,
        validation_status,
        err_val: Some(err),
    }
}

impl StatusModel {
    /// The log with one finding more.
    pub open spec fn with(self, item: LogItem) -> StatusModel {
        StatusModel { logged_items: self.logged_items.push(item), ..self }
    }
}

impl StatusTracker {
    /// An empty log.
    pub fn new(stops_on_error: bool) -> (r: StatusTracker)
        ensures
            r@ == (StatusModel { logged_items: Seq::empty(), stops_on_error }),
    {
        let tracker = StatusTracker { logged_items: Vec::new(), stops_on_error };
        proof {
            assert(tracker@.logged_items =~= Seq::empty());
        }
        tracker
    }

    /// Adds a finding that is an error.
    pub fn failure_no_throw(
        &mut self,
        description: &'static str,
        function: &'static str,
        validation_status: Option<ValidationStatus>,
        err: Error,
    )
        ensures
            final(self)@ == old(self)@.with(
                failure(description, function, validation_status, err),
            ),
    {
        self.logged_items.push(
            LogItem {
                label: "Cose_Sign1",
                description,
                function,
                validation_status,
                err_val: Some(err),
            },
        );
    }

    /// Adds a finding that is an error; the validation goes on if this log lets it.
    pub fn failure(
        &mut self,
        description: &'static str,
        function: &'static str,
        validation_status: Option<ValidationStatus>,
        err: Error,
    ) -> (r: Result<(), Error>)
        ensures
            final(self)@ == old(self)@.with(
                failure(description, function, validation_status, err),
            ),
            r == (if old(self)@.stops_on_error {
                Err::<(), Error>(err)
            } else {
                Ok::<(), Error>(())
            }),
    {
        self.failure_no_throw(description, function, validation_status, err);
        if self.stops_on_error {
            Err(err)
        } else {
            Ok(())
        }
    }

    /// Adds a finding that all is well.
    pub fn success(
        &mut self,
        description: &'static str,
        function: &'static str,
        validation_status: ValidationStatus,
    )
        ensures
            final(self)@ == old(self)@.with(
                (LogItem {
                    label: "Cose_Sign1",
                    description,
                    function,
                    validation_status: Some(validation_status),
                    err_val: None,
                }),
            ),
    {
        self.logged_items.push(
            LogItem {
                label: "Cose_Sign1",
                description,
                function,
                validation_status: Some(validation_status),
                err_val: None,
            },
        );
    }
}

} // verus!
