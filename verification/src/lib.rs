pub mod error;
pub mod text;
pub mod amount;
pub mod ids;
pub mod clock;
pub mod idmap;
pub mod accounts;
pub mod asset;
pub mod policy;
pub mod queue;
pub mod vault;
pub mod priority;
pub mod events;
pub mod ledger;
pub mod reconcile;
pub mod engine;
pub mod calibration;
pub mod reports;
pub mod runtime;

pub use accounts::{Account, AccountRegistry, AccountTier, Portfolio};
pub use amount::{Amount, BasisPoints, Rate};
pub use asset::{AssetMetadata, AssetRegistry};
pub use clock::{Clock, EpochDay, UnlockWindow, WindowKind, WindowSpec};
pub use engine::{CrownEngine, EngineConfig, RequestReceipt, WithdrawalReceipt};
pub use error::{CrownError, CrownResult};
pub use ids::{AccountId, AssetId, RedemptionId, VaultId, WindowId};
pub use policy::{DailyLimitPolicy, PriorityPolicy, RedemptionPolicy};
pub use queue::{Lane, QueueSnapshot};
pub use vault::{RedemptionKind, RedemptionStatus, RedemptionTicket, VaultConfig, VaultState};

use vstd::prelude::*;

verus! {

/// The demonstration engine that the scenarios start from.
pub fn fixture_engine() -> (r: CrownEngine)
    ensures
        r.is_fixture(),
{
    CrownEngine::fixture()
}

} // verus!
