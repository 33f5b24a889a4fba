//! What the router remembers between calls, and what it is told of the
//! world with each call.

use crate::hub::Coin;
use crate::router::create_key_for_assets;
use crate::router::pair_key;
use crate::router::pair_views;
use crate::router::PairView;
use crate::router::PairInfo;
use crate::routing::error::RouterError;
use vstd::prelude::*;

verus! {

/// The state of the router.
#[derive(Debug, PartialEq, Eq)]
pub struct State {
    /// Account that can call the privileged operations.
    pub owner: String,
    /// Account that the ownership has been offered to, if any.
    pub new_owner: Option<String>,
    /// The registered markets, by ascending contract address.
    pub pairs: Vec<PairInfo>,
}

/// The state of the router with the markets as a sequence.
pub struct StateView {
    pub owner: String,
    pub new_owner: Option<String>,
    pub pairs: Seq<PairView>,
}

impl View for State {
    type V = StateView;

    open spec fn view(&self) -> StateView {
        StateView {
            owner: self.owner,
            new_owner: self.new_owner,
            pairs: pair_views(self.pairs@),
        }
    }
}

/// What an account holds of one denom.
#[derive(Debug, PartialEq, Eq)]
pub struct Balance {
    pub address: String,
    pub coin: Coin,
}

/// What a market tells of itself.
#[derive(Debug, PartialEq, Eq)]
pub struct FinConfig {
    pub contract: String,
    pub denoms: [String; 2],
    pub is_bootstrapping: bool,
}

/// The ledger as it stands when the call begins.
#[derive(Debug, PartialEq, Eq)]
pub struct Ledger {
    /// The balances of the accounts that the call is about.
    pub balances: Vec<Balance>,
    /// The markets that the ledger knows of, among those that the call names.
    pub pairs: Vec<FinConfig>,
}

/// When and where a call runs.
#[derive(Debug, PartialEq, Eq)]
pub struct Env {
    /// The router's own address.
    pub contract: String,
}

/// The position of the first balance of `address` in `denom` at or after
/// position `i`, and the number of balances where there is none.
pub open spec fn balance_index_from(
    balances: Seq<Balance>,
    address: Seq<char>,
    denom: Seq<char>,
    i: int,
) -> int
    decreases balances.len() - i,
{
    if i >= balances.len() {
        balances.len() as int
    } else if balances[i].address@ == address && balances[i].coin.denom@ == denom {
        i
    } else {
        balance_index_from(balances, address, denom, i + 1)
    }
}

/// What `address` holds of `denom`, and zero where the ledger lists nothing.
pub open spec fn balance_of(balances: Seq<Balance>, address: Seq<char>, denom: Seq<char>) -> u128 {
    let at = balance_index_from(balances, address, denom, 0);
    if at < balances.len() {
        balances[at].coin.amount
    } else {
        0
    }
}

/// What `address` holds of `denom`.
pub fn query_balance(ledger: &Ledger, address: &String, denom: &String) -> (r: u128)
    ensures
        r == balance_of(ledger.balances@, address@, denom@),
{
    let mut i: usize = 0;
    while i < ledger.balances.len()
        invariant
            0 <= i <= ledger.balances.len(),
            balance_index_from(ledger.balances@, address@, denom@, 0) == balance_index_from(
                ledger.balances@,
                address@,
                denom@,
                i as int,
            ),
        decreases ledger.balances.len() - i,
    {
        let b = &ledger.balances[i];
        if b.address == *address && b.coin.denom == *denom {
            return b.coin.amount;
        }
        i = i + 1;
    }
    0
}

/// The position of the first market at `contract` at or after position `i`,
/// and the number of markets where there is none.
pub open spec fn fin_index_from(pairs: Seq<FinConfig>, contract: Seq<char>, i: int) -> int
    decreases pairs.len() - i,
{
    if i >= pairs.len() {
        pairs.len() as int
    } else if pairs[i].contract@ == contract {
        i
    } else {
        fin_index_from(pairs, contract, i + 1)
    }
}

/// The position of the market at `contract`, if the ledger knows it.
pub fn query_fin_pair(ledger: &Ledger, contract: &String) -> (r: Option<usize>)
    ensures
        match r {
            Some(i) => i == fin_index_from(ledger.pairs@, contract@, 0) && i < ledger.pairs.len(),
            None => fin_index_from(ledger.pairs@, contract@, 0) == ledger.pairs.len(),
        },
{
    let mut i: usize = 0;
    while i < ledger.pairs.len()
        invariant
            0 <= i <= ledger.pairs.len(),
            fin_index_from(ledger.pairs@, contract@, 0) == fin_index_from(
                ledger.pairs@,
                contract@,
                i as int,
            ),
        decreases ledger.pairs.len() - i,
    {
        if ledger.pairs[i].contract == *contract {
            return Some(i);
        }
        i = i + 1;
    }
    None
}

/// The position of the first market with the key at or after position `i`,
/// and the number of markets where there is none.
pub open spec fn pair_index_from(pairs: Seq<PairView>, key: Seq<char>, i: int) -> int
    decreases pairs.len() - i,
{
    if i >= pairs.len() {
        pairs.len() as int
    } else if pairs[i].key() == key {
        i
    } else {
        pair_index_from(pairs, key, i + 1)
    }
}

/// The position of the first market that trades the two denoms, and the
/// number of markets where there is none.
pub open spec fn pair_index(pairs: Seq<PairView>, offer: Seq<char>, ask: Seq<char>) -> int {
    pair_index_from(pairs, pair_key(offer, ask), 0)
}

/// Whether a market trades the two denoms.
pub open spec fn has_pair(pairs: Seq<PairView>, offer: Seq<char>, ask: Seq<char>) -> bool {
    pair_index(pairs, offer, ask) < pairs.len()
}

/// The position of the first intermediate denom at or after position `i`
/// through which one hop leads from `offer` to `ask`, and the number of
/// intermediate denoms where there is none.
pub open spec fn hop_index_from(
    pairs: Seq<PairView>,
    offer: Seq<char>,
    ask: Seq<char>,
    allowed: Seq<String>,
    i: int,
) -> int
    decreases allowed.len() - i,
{
    if i >= allowed.len() {
        allowed.len() as int
    } else if has_pair(pairs, offer, allowed[i]@) && has_pair(pairs, allowed[i]@, ask) {
        i
    } else {
        hop_index_from(pairs, offer, ask, allowed, i + 1)
    }
}

impl State {
    /// Fails unless `sender` is the owner.
    pub fn assert_owner(&self, sender: &String) -> (r: Result<(), RouterError>)
        ensures
            r == if sender@ == self.owner@ {
                Ok::<(), RouterError>(())
            } else {
                Err(RouterError::UnauthorizedSenderNotOwner)
            },
    {
        if *sender == self.owner {
            Ok(())
        } else {
            Err(RouterError::UnauthorizedSenderNotOwner)
        }
    }

    /// The first market that trades the two denoms, whichever way round.
    pub fn get_pair(&self, offer_asset_info: String, ask_asset_info: String) -> (r: Result<
        PairInfo,
        RouterError,
    >)
        ensures
            match r {
                Ok(pair) => has_pair(self@.pairs, offer_asset_info@, ask_asset_info@) && pair@
                    == self@.pairs[pair_index(self@.pairs, offer_asset_info@, ask_asset_info@)],
                Err(e) => !has_pair(self@.pairs, offer_asset_info@, ask_asset_info@) && e
                    == RouterError::PairNotFound,
            },
    {
        let ghost offer = offer_asset_info@;
        let ghost ask = ask_asset_info@;
        let ghost views = pair_views(self.pairs@);
        let key = create_key_for_assets(&[offer_asset_info, ask_asset_info]);
        let mut i: usize = 0;
        while i < self.pairs.len()
            invariant
                0 <= i <= self.pairs.len(),
                offer == offer_asset_info@,
                ask == ask_asset_info@,
                views == pair_views(self.pairs@),
                key@ == pair_key(offer, ask),
                pair_index(views, offer, ask) == pair_index_from(views, key@, i as int),
            decreases self.pairs.len() - i,
        {
            if self.pairs[i].create_key() == key {
                return Ok(self.pairs[i].clone());
            }
            i = i + 1;
        }
        Err(RouterError::PairNotFound)
    }

    /// The two markets of the first hop that leads from the one denom to the
    /// other through one of the allowed intermediate denoms.
    pub fn try_find_pair(
        &self,
        offer_asset_info: String,
        ask_asset_info: String,
        allowed_intermediate_denom: Vec<String>,
    ) -> (r: Result<Vec<PairInfo>, RouterError>)
        ensures
            ({
                let at = hop_index_from(
                    self@.pairs,
                    offer_asset_info@,
                    ask_asset_info@,
                    allowed_intermediate_denom@,
                    0,
                );
                match r {
                    Ok(pairs) => {
                        &&& at < allowed_intermediate_denom.len()
                        &&& pairs.len() == 2
                        &&& pairs[0]@ == self@.pairs[pair_index(
                            self@.pairs,
                            offer_asset_info@,
                            allowed_intermediate_denom[at]@,
                        )]
                        &&& pairs[1]@ == self@.pairs[pair_index(
                            self@.pairs,
                            allowed_intermediate_denom[at]@,
                            ask_asset_info@,
                        )]
                    },
                    Err(e) => at == allowed_intermediate_denom.len() && e
                        == RouterError::PairNotFound,
                }
            }),
    {
        let mut i: usize = 0;
        while i < allowed_intermediate_denom.len()
            invariant
                0 <= i <= allowed_intermediate_denom.len(),
                hop_index_from(
                    self@.pairs,
                    offer_asset_info@,
                    ask_asset_info@,
                    allowed_intermediate_denom@,
                    0,
                ) == hop_index_from(
                    self@.pairs,
                    offer_asset_info@,
                    ask_asset_info@,
                    allowed_intermediate_denom@,
                    i as int,
                ),
            decreases allowed_intermediate_denom.len() - i,
        {
            let pairs = self.try_find_pair_single_hop(
                offer_asset_info.clone(),
                ask_asset_info.clone(),
                allowed_intermediate_denom[i].clone(),
            );
            if let Ok(pairs) = pairs {
                return Ok(pairs);
            }
            i = i + 1;
        }
        Err(RouterError::PairNotFound)
    }

    /// The two markets of the hop that leads from the one denom to the other
    /// through the intermediate denom.
    pub fn try_find_pair_single_hop(
        &self,
        offer_asset_info: String,
        ask_asset_info: String,
        intermediate_denom: String,
    ) -> (r: Result<Vec<PairInfo>, RouterError>)
        ensures
            match r {
                Ok(pairs) => {
                    &&& has_pair(self@.pairs, offer_asset_info@, intermediate_denom@)
                    &&& has_pair(self@.pairs, intermediate_denom@, ask_asset_info@)
                    &&& pairs.len() == 2
                    &&& pairs[0]@ == self@.pairs[pair_index(
                        self@.pairs,
                        offer_asset_info@,
                        intermediate_denom@,
                    )]
                    &&& pairs[1]@ == self@.pairs[pair_index(
                        self@.pairs,
                        intermediate_denom@,
                        ask_asset_info@,
                    )]
                },
                Err(e) => {
                    &&& !(has_pair(self@.pairs, offer_asset_info@, intermediate_denom@)
                        && has_pair(self@.pairs, intermediate_denom@, ask_asset_info@))
                    &&& e == RouterError::PairNotFound
                },
            },
    {
        let pair = match self.get_pair(offer_asset_info, intermediate_denom.clone()) {
            Ok(pair) => pair,
            Err(e) => {
                return Err(e);
            },
        };
        let pair2 = match self.get_pair(intermediate_denom, ask_asset_info) {
            Ok(pair) => pair,
            Err(e) => {
                return Err(e);
            },
        };
        let mut pairs: Vec<PairInfo> = Vec::new();
        pairs.push(pair);
        pairs.push(pair2);
        Ok(pairs)
    }
}

} // verus!
