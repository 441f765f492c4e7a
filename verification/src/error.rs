use vstd::prelude::*;

verus! {

/// Why an operation was refused.
#[derive(Clone, Copy, Debug, PartialEq, Eq, Structural)]
pub enum ContractError {
    /// The actor is neither the template's creator nor the administrator.
    Unauthorized,
    /// No record is stored under the requested key.
    NotFound,
    /// The ranking's items are not exactly those of its template.
    InvalidTierlist,
}

impl ContractError {
    /// The message shown to a caller for this error.
    pub fn message(&self) -> (text: &'static str)
        ensures
            text@ == (match *self {
                ContractError::Unauthorized => "Unauthorized"@,
                ContractError::NotFound => "Not found"@,
                ContractError::InvalidTierlist => "Invalid tierlist"@,
            }),
    {
        match self {
            ContractError::Unauthorized => "Unauthorized",
            ContractError::NotFound => "Not found",
            ContractError::InvalidTierlist => "Invalid tierlist",
        }
    }
}

} // verus!
