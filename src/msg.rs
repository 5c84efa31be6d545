//! Messages and records exchanged with the host.
use vstd::prelude::*;

verus! {

/// Parameters of a new instance: the administrator identity, which also
/// receives the protocol fee.
pub struct InstantiateMsg {
    pub fee_address: String,
    pub start_flag: bool,
}

/// One contribution to a tier's current round.
pub struct UserBetInfo {
    /// Identity of the contributor.
    pub user_address: String,
    /// Amount contributed, in the smallest unit of the denomination.
    pub user_amount: u128,
    /// Rank of arrival within the round, starting at 1.
    pub user_order: u128,
    /// Denomination of the amount.
    pub coin_type: String,
}

/// Mathematical model of a contribution.
pub struct BetView {
    pub user: Seq<char>,
    pub amount: u128,
    pub order: u128,
    pub denom: Seq<char>,
}

impl View for UserBetInfo {
    type V = BetView;

    open spec fn view(&self) -> BetView {
        BetView {
            user: self.user_address@,
            amount: self.user_amount,
            order: self.user_order,
            denom: self.coin_type@,
        }
    }
}

impl Clone for UserBetInfo {
    fn clone(&self) -> (r: UserBetInfo)
        ensures
            r@ == self@,
    {
        UserBetInfo {
            user_address: self.user_address.clone(),
            user_amount: self.user_amount,
            user_order: self.user_order,
            coin_type: self.coin_type.clone(),
        }
    }
}

/// A coin attached to a request: an amount of one denomination.
pub struct Funds {
    pub denom: String,
    pub amount: u128,
}

/// An instruction to the host's value-transfer rail: move `amount` of
/// `denom` to `recipient`.
pub struct Transfer {
    pub recipient: String,
    pub amount: u128,
    pub denom: String,
}

/// Mathematical model of a transfer instruction.
pub struct TransferView {
    pub recipient: Seq<char>,
    pub amount: u128,
    pub denom: Seq<char>,
}

impl View for Transfer {
    type V = TransferView;

    open spec fn view(&self) -> TransferView {
        TransferView { recipient: self.recipient@, amount: self.amount, denom: self.denom@ }
    }
}

/// The operations that change the state, one per tier.
#[derive(Clone, Copy, Debug, PartialEq, Eq, Structural)]
pub enum ExecuteMsg {
    AddBetUserInfinite {},
    AddBetUserWhale {},
    AddBetUserShrimp {},
    ToggleGameInfinte {},
    ToggleGameWhale {},
    ToggleGameShrimp {},
    EndGameInfinte { seed: u64 },
    EndGameWhale { seed: u64 },
    EndGameShrimp { seed: u64 },
}

/// Read-only requests.
#[derive(Clone, Copy, Debug, PartialEq, Eq, Structural)]
pub enum QueryMsg {
    /// A snapshot of the whole state.
    GetState {},
}

} // verus!
