//! The interface of the swap router: operations, registered pairs and the
//! key under which a pair is found.

use crate::text::is_less;
use crate::text::lemma_text_less_total;
use crate::text::text_less;
use vstd::prelude::*;
use vstd::string::StringExecFns;

verus! {

/// One hop of a swap route.
#[derive(Debug, PartialEq, Eq)]
pub enum SwapOperation {
    Swap { offer_asset_info: String, ask_asset_info: String },
}

impl Clone for SwapOperation {
    fn clone(&self) -> (r: Self)
        ensures
            r == *self,
    {
        match self {
            SwapOperation::Swap { offer_asset_info, ask_asset_info } => SwapOperation::Swap {
                offer_asset_info: offer_asset_info.clone(),
                ask_asset_info: ask_asset_info.clone(),
            },
        }
    }
}

impl SwapOperation {
    /// The denom that the hop offers.
    pub open spec fn source(&self) -> String {
        self->offer_asset_info
    }

    /// The denom that the hop asks for.
    pub open spec fn target(&self) -> String {
        self->ask_asset_info
    }

    pub fn get_target_asset_info(&self) -> (r: String)
        ensures
            r == self.target(),
    {
        match self {
            SwapOperation::Swap { ask_asset_info, .. } => ask_asset_info.clone(),
        }
    }

    pub fn get_source_asset_info(&self) -> (r: String)
        ensures
            r == self.source(),
    {
        match self {
            SwapOperation::Swap { offer_asset_info, .. } => offer_asset_info.clone(),
        }
    }
}

/// What the router is created with.
#[derive(Debug, PartialEq, Eq)]
pub struct InstantiateMsg {
    pub owner: String,
    pub pairs: Vec<String>,
}

/// The operations of the router.
#[derive(Debug, PartialEq, Eq)]
#[allow(inconsistent_fields)]
pub enum ExecuteMsg {
    /// Swap along the given hops.
    ExecuteSwapOperations {
        operations: Vec<SwapOperation>,
        minimum_receive: Option<u128>,
        to: Option<String>,
    },
    /// Swap from one denom to another: directly where a market trades the
    /// two, else by one hop through the first intermediate denom that works.
    ExecuteMultiSwapOperation {
        operation: SwapOperation,
        allowed_intermediate_denom: Vec<String>,
        minimum_receive: Option<u128>,
        to: Option<String>,
    },
    /// One hop; the router itself only.
    ExecuteSwapOperation { operation: SwapOperation, to: Option<String> },
    /// Check that the receiver has gained the minimum; follows the last hop.
    AssertMinimumReceive {
        asset_info: String,
        prev_balance: u128,
        minimum_receive: u128,
        receiver: String,
    },
    /// Add markets to the registry; owner only.
    RegisterPairs { pairs: Vec<String> },
    /// Remove markets from the registry; owner only.
    RemovePairs { pairs: Vec<String> },
    /// Offer the ownership to another account; owner only.
    TransferOwnership { new_owner: String },
    /// Accept an offer of ownership.
    AcceptOwnership,
}

/// The questions that the router answers.
#[derive(Debug, PartialEq, Eq)]
pub enum QueryMsg {
    /// The configuration.
    Config,
    /// What a swap along the given hops would return.
    SimulateSwapOperations { offer_amount: u128, operations: Vec<SwapOperation> },
    /// The registered markets.
    Pairs { start_after: Option<String>, limit: Option<u32> },
    /// The market that trades two denoms.
    PairByDenoms { asset_infos: [String; 2] },
}

/// The registered markets, one page of them.
#[derive(Debug, PartialEq, Eq)]
pub struct PairsResponse {
    pub pairs: Vec<PairInfo>,
}

/// The market that trades two denoms.
#[derive(Debug, PartialEq, Eq)]
pub struct PairByDenomsResponse {
    pub pair: PairInfo,
}

/// The configuration of the router.
#[derive(Debug, PartialEq, Eq)]
pub struct ConfigResponse {
    /// Account that can call the privileged operations.
    pub owner: String,
    /// Account that the ownership has been offered to, if any.
    pub new_owner: Option<String>,
}

/// What a simulated swap returns.
#[derive(Debug, PartialEq, Eq, Clone, Copy)]
pub struct SimulateSwapOperationsResponse {
    pub amount: u128,
}

/// A registered market: the two denoms it trades and the contract that runs it.
#[derive(Debug, PartialEq, Eq)]
pub struct PairInfo {
    pub asset_infos: [String; 2],
    pub contract_addr: String,
}

/// A registered market with its two denoms side by side.
pub struct PairView {
    pub first: String,
    pub second: String,
    pub contract: String,
}

impl PairView {
    /// The key of the pair.
    pub open spec fn key(self) -> Seq<char> {
        pair_key(self.first@, self.second@)
    }
}

impl View for PairInfo {
    type V = PairView;

    open spec fn view(&self) -> PairView {
        PairView {
            first: self.asset_infos[0],
            second: self.asset_infos[1],
            contract: self.contract_addr,
        }
    }
}

/// The markets with their denoms side by side.
pub open spec fn pair_views(pairs: Seq<PairInfo>) -> Seq<PairView> {
    Seq::new(pairs.len(), |i: int| pairs[i]@)
}

impl Clone for PairInfo {
    fn clone(&self) -> (r: Self)
        ensures
            r@ == self@,
    {
        PairInfo {
            asset_infos: [self.asset_infos[0].clone(), self.asset_infos[1].clone()],
            contract_addr: self.contract_addr.clone(),
        }
    }
}

impl PairInfo {
    /// The key of the pair, whichever way round its denoms are stored.
    pub fn create_key(&self) -> (r: String)
        ensures
            r@ == self@.key(),
    {
        create_key_for_assets(&self.asset_infos)
    }
}

/// The key of the pair of `first` and `second`: the two denoms joined, the
/// one that sorts first in front.
pub open spec fn pair_key(first: Seq<char>, second: Seq<char>) -> Seq<char> {
    if text_less(first, second) {
        first + second
    } else {
        second + first
    }
}

/// The key of a pair does not depend on the order in which its denoms are
/// given.
pub proof fn lemma_pair_key_symmetric(first: Seq<char>, second: Seq<char>)
    ensures
        pair_key(first, second) == pair_key(second, first),
{
    lemma_text_less_total(first, second);
}

/// The key of the pair of the two denoms.
pub fn create_key_for_assets(asset_infos: &[String; 2]) -> (r: String)
    ensures
        r@ == pair_key(asset_infos[0]@, asset_infos[1]@),
{
    let first = asset_infos[0].clone();
    let second = asset_infos[1].clone();

    if is_less(first.as_str(), second.as_str()) {
        first.concat(second.as_str())
    } else {
        second.concat(first.as_str())
    }
}

} // verus!
