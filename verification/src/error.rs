use vstd::prelude::*;

verus! {

/// Every way an operation of the protocol can fail. Each variant carries a
/// human-readable detail message.
#[derive(Debug, Clone)]
pub enum CrownError {
    Arithmetic(String),
    DuplicateAccount(String),
    DuplicateAsset(String),
    DuplicateVault(String),
    MissingAccount(String),
    MissingAsset(String),
    MissingVault(String),
    MissingTicket(String),
    MissingWindow(String),
    MissingClaim(String),
    InsufficientShares(String),
    InsufficientAssets(String),
    LimitExceeded(String),
    QueueCapacity(String),
    WindowClosed(String),
    WindowNotReady(String),
    InvalidAmount(String),
    InvalidStatus(String),
    InvalidLane(String),
    InvalidPolicy(String),
    Invariant(String),
    Cli(String),
}

pub type CrownResult<T> = Result<T, CrownError>;

impl CrownError {
    /// The stable machine-readable code of the error's variant.
    pub open spec fn spec_code(&self) -> Seq<char> {
        match self {
            CrownError::Arithmetic(_) => "arithmetic"@,
            CrownError::DuplicateAccount(_) => "duplicate_account"@,
            CrownError::DuplicateAsset(_) => "duplicate_asset"@,
            CrownError::DuplicateVault(_) => "duplicate_vault"@,
            CrownError::MissingAccount(_) => "missing_account"@,
            CrownError::MissingAsset(_) => "missing_asset"@,
            CrownError::MissingVault(_) => "missing_vault"@,
            CrownError::MissingTicket(_) => "missing_ticket"@,
            CrownError::MissingWindow(_) => "missing_window"@,
            CrownError::MissingClaim(_) => "missing_claim"@,
            CrownError::InsufficientShares(_) => "insufficient_shares"@,
            CrownError::InsufficientAssets(_) => "insufficient_assets"@,
            CrownError::LimitExceeded(_) => "limit_exceeded"@,
            CrownError::QueueCapacity(_) => "queue_capacity"@,
            CrownError::WindowClosed(_) => "window_closed"@,
            CrownError::WindowNotReady(_) => "window_not_ready"@,
            CrownError::InvalidAmount(_) => "invalid_amount"@,
            CrownError::InvalidStatus(_) => "invalid_status"@,
            CrownError::InvalidLane(_) => "invalid_lane"@,
            CrownError::InvalidPolicy(_) => "invalid_policy"@,
            CrownError::Invariant(_) => "invariant"@,
            CrownError::Cli(_) => "cli"@,
        }
    }

    /// The detail message carried by the error.
    pub open spec fn spec_detail(&self) -> Seq<char> {
        match self {
            CrownError::Arithmetic(v) => v@,
            CrownError::DuplicateAccount(v) => v@,
            CrownError::DuplicateAsset(v) => v@,
            CrownError::DuplicateVault(v) => v@,
            CrownError::MissingAccount(v) => v@,
            CrownError::MissingAsset(v) => v@,
            CrownError::MissingVault(v) => v@,
            CrownError::MissingTicket(v) => v@,
            CrownError::MissingWindow(v) => v@,
            CrownError::MissingClaim(v) => v@,
            CrownError::InsufficientShares(v) => v@,
            CrownError::InsufficientAssets(v) => v@,
            CrownError::LimitExceeded(v) => v@,
            CrownError::QueueCapacity(v) => v@,
            CrownError::WindowClosed(v) => v@,
            CrownError::WindowNotReady(v) => v@,
            CrownError::InvalidAmount(v) => v@,
            CrownError::InvalidStatus(v) => v@,
            CrownError::InvalidLane(v) => v@,
            CrownError::InvalidPolicy(v) => v@,
            CrownError::Invariant(v) => v@,
            CrownError::Cli(v) => v@,
        }
    }

    pub fn code(&self) -> (r: &'static str)
        ensures
            r@ == self.spec_code(),
    {
        match self {
            CrownError::Arithmetic(_) => "arithmetic",
            CrownError::DuplicateAccount(_) => "duplicate_account",
            CrownError::DuplicateAsset(_) => "duplicate_asset",
            CrownError::DuplicateVault(_) => "duplicate_vault",
            CrownError::MissingAccount(_) => "missing_account",
            CrownError::MissingAsset(_) => "missing_asset",
            CrownError::MissingVault(_) => "missing_vault",
            CrownError::MissingTicket(_) => "missing_ticket",
            CrownError::MissingWindow(_) => "missing_window",
            CrownError::MissingClaim(_) => "missing_claim",
            CrownError::InsufficientShares(_) => "insufficient_shares",
            CrownError::InsufficientAssets(_) => "insufficient_assets",
            CrownError::LimitExceeded(_) => "limit_exceeded",
            CrownError::QueueCapacity(_) => "queue_capacity",
            CrownError::WindowClosed(_) => "window_closed",
            CrownError::WindowNotReady(_) => "window_not_ready",
            CrownError::InvalidAmount(_) => "invalid_amount",
            CrownError::InvalidStatus(_) => "invalid_status",
            CrownError::InvalidLane(_) => "invalid_lane",
            CrownError::InvalidPolicy(_) => "invalid_policy",
            CrownError::Invariant(_) => "invariant",
            CrownError::Cli(_) => "cli",
        }
    }

    pub fn detail(&self) -> (r: &str)
        ensures
            r@ == self.spec_detail(),
    {
        match self {
            CrownError::Arithmetic(v) => v.as_str(),
            CrownError::DuplicateAccount(v) => v.as_str(),
            CrownError::DuplicateAsset(v) => v.as_str(),
            CrownError::DuplicateVault(v) => v.as_str(),
            CrownError::MissingAccount(v) => v.as_str(),
            CrownError::MissingAsset(v) => v.as_str(),
            CrownError::MissingVault(v) => v.as_str(),
            CrownError::MissingTicket(v) => v.as_str(),
            CrownError::MissingWindow(v) => v.as_str(),
            CrownError::MissingClaim(v) => v.as_str(),
            CrownError::InsufficientShares(v) => v.as_str(),
            CrownError::InsufficientAssets(v) => v.as_str(),
            CrownError::LimitExceeded(v) => v.as_str(),
            CrownError::QueueCapacity(v) => v.as_str(),
            CrownError::WindowClosed(v) => v.as_str(),
            CrownError::WindowNotReady(v) => v.as_str(),
            CrownError::InvalidAmount(v) => v.as_str(),
            CrownError::InvalidStatus(v) => v.as_str(),
            CrownError::InvalidLane(v) => v.as_str(),
            CrownError::InvalidPolicy(v) => v.as_str(),
            CrownError::Invariant(v) => v.as_str(),
            CrownError::Cli(v) => v.as_str(),
        }
    }

    pub fn arithmetic(message: &str) -> (r: Self)
        ensures
            r is Arithmetic,
            r.spec_detail() == message@,
    {
        CrownError::Arithmetic(message.to_string())
    }

    pub fn invalid_amount(message: &str) -> (r: Self)
        ensures
            r is InvalidAmount,
            r.spec_detail() == message@,
    {
        CrownError::InvalidAmount(message.to_string())
    }

    pub fn invariant_error(message: &str) -> (r: Self)
        ensures
            r is Invariant,
            r.spec_detail() == message@,
    {
        CrownError::Invariant(message.to_string())
    }

    /// The text "code: detail", as the error is shown to users.
    pub fn describe(&self) -> (r: String)
        ensures
            r@ == self.spec_code() + ": "@ + self.spec_detail(),
    {
        let mut out = String::from_str(self.code());
        out.append(": ");
        out.append(self.detail());
        out
    }
}

} // verus!
