//! The engine's persisted records and the store that holds them.
use vstd::prelude::*;

use std::collections::HashMap;

verus! {

broadcast use vstd::std_specs::hash::group_hash_axioms;

/// An account, token or pool, identified by number.
pub type Addr = u64;

/// The engine's configuration, written at initialization and by the admin setters.
#[derive(Clone, Copy, Debug, PartialEq, Eq, Structural)]
pub struct CoreConfig {
    pub admin: Addr,
    /// The reward asset.
    pub flash: Addr,
    /// The stable asset.
    pub usdc: Addr,
    /// The engine's own seed pool.
    pub core_pair: Option<Addr>,
    /// The last campaign id handed out.
    pub next: u32,
    pub surplus_bps: u32,
    pub ttl_thresh: u32,
    pub ttl_bump: u32,
}

/// The marker that blocks a second campaign on a pool until `end_ledger`.
#[derive(Clone, Copy, Debug, PartialEq, Eq, Structural)]
pub struct ActiveCampaignInfo {
    pub campaign_id: u32,
    pub end_ledger: u32,
}

/// One campaign on one pool.
#[derive(Clone, Copy, Debug, PartialEq, Eq, Structural)]
pub struct Campaign {
    pub pair: Addr,
    pub duration: u32,
    pub end_ledger: u32,
    pub target_lp: i128,
    /// Liquidity of the positions not yet claimed.
    pub total_lp: i128,
    /// Weight of the positions not yet claimed.
    pub total_weight: i128,
    pub reward_flash: i128,
    pub bonus_flash: i128,
    pub stake_lp: i128,
    /// How many depositors have joined; the last rank handed out.
    pub joins: u32,
    /// Liquidity of the positions already claimed.
    pub claimed_lp: i128,
    /// Weight of the positions already claimed.
    pub claimed_weight: i128,
}

/// One depositor's position in one campaign.
#[derive(Clone, Copy, Debug, PartialEq, Eq, Structural)]
pub struct UserPos {
    pub lp: i128,
    pub weight: i128,
    pub joined_ledger: u32,
    pub rank: u32,
}

/// A position with its key: the campaign and the depositor.
#[derive(Clone, Copy, Debug, PartialEq, Eq, Structural)]
pub struct PositionEntry {
    pub campaign_id: u32,
    pub user: Addr,
    pub pos: UserPos,
}

/// The store's contents as mathematical values.
pub struct StoreView {
    pub config: Option<CoreConfig>,
    /// Campaign `id` stands at index `id - 1`.
    pub camps: Seq<Campaign>,
    pub positions: Seq<PositionEntry>,
    pub markers: Map<Addr, ActiveCampaignInfo>,
}

/// The key-value store of the engine.
pub struct Storage {
    pub config: Option<CoreConfig>,
    pub camps: Vec<Campaign>,
    pub positions: Vec<PositionEntry>,
    pub markers: HashMap<Addr, ActiveCampaignInfo>,
}

impl View for Storage {
    type V = StoreView;

    open spec fn view(&self) -> StoreView {
        StoreView {
            config: self.config,
            camps: self.camps@,
            positions: self.positions@,
            markers: self.markers@,
        }
    }
}

/// Campaign `id` of `v`, if there is one.
pub open spec fn camp_of(v: StoreView, id: int) -> Option<Campaign> {
    if 1 <= id <= v.camps.len() {
        Some(v.camps[id - 1])
    } else {
        None
    }
}

/// Entry `e` is the position of `user` in campaign `id`.
pub open spec fn is_position(e: PositionEntry, id: int, user: Addr) -> bool {
    e.campaign_id == id && e.user == user
}

/// The position of `user` in campaign `id`, if there is one.
pub open spec fn position_of(v: StoreView, id: int, user: Addr) -> Option<UserPos> {
    if exists|i: int| 0 <= i < v.positions.len() && is_position(#[trigger] v.positions[i], id, user) {
        let i = choose|i: int| 0 <= i < v.positions.len() && is_position(#[trigger] v.positions[i], id, user);
        Some(v.positions[i].pos)
    } else {
        None
    }
}

/// The marker of pool `pair`, if there is one.
pub open spec fn marker_of(v: StoreView, pair: Addr) -> Option<ActiveCampaignInfo> {
    if v.markers.contains_key(pair) {
        Some(v.markers[pair])
    } else {
        None
    }
}

impl Storage {
    /// An empty store.
    pub fn new() -> (r: Storage)
        ensures
            r@.config is None,
            r@.camps.len() == 0,
            r@.positions.len() == 0,
            r@.markers == Map::<Addr, ActiveCampaignInfo>::empty(),
    {
        Storage { config: None, camps: Vec::new(), positions: Vec::new(), markers: HashMap::new() }
    }
}

/// Writes the configuration.
pub fn set_core_config(s: &mut Storage, config: CoreConfig)
    ensures
        final(s)@ == (StoreView { config: Some(config), ..old(s)@ }),
{
    s.config = Some(config);
}

/// Reads the configuration, if it was written.
pub fn get_core_config(s: &Storage) -> (r: Option<CoreConfig>)
    ensures
        r == s@.config,
{
    s.config
}

/// Reads campaign `id`, if there is one.
pub fn load_camp(s: &Storage, id: u32) -> (r: Option<Campaign>)
    ensures
        r == camp_of(s@, id as int),
{
    if 1 <= id && (id as usize) <= s.camps.len() {
        Some(s.camps[id as usize - 1])
    } else {
        None
    }
}

/// Writes campaign `id`: replaces an existing one, or adds the next one.
pub fn save_camp(s: &mut Storage, id: u32, c: Campaign)
    requires
        1 <= id <= old(s)@.camps.len() + 1,
    ensures
        id <= old(s)@.camps.len() ==> final(s)@ == (StoreView {
            camps: old(s)@.camps.update(id - 1, c),
            ..old(s)@
        }),
        id == old(s)@.camps.len() + 1 ==> final(s)@ == (StoreView {
            camps: old(s)@.camps.push(c),
            ..old(s)@
        }),
{
    if (id as usize) <= s.camps.len() {
        s.camps.set(id as usize - 1, c);
    } else {
        s.camps.push(c);
    }
}

/// Writes the marker of pool `pair`.
pub fn set_active_campaign_for_pair(s: &mut Storage, pair: Addr, info: ActiveCampaignInfo)
    ensures
        final(s)@ == (StoreView { markers: old(s)@.markers.insert(pair, info), ..old(s)@ }),
{
    s.markers.insert(pair, info);
}

/// Reads the marker of pool `pair`, if there is one.
pub fn get_active_campaign_for_pair(s: &Storage, pair: Addr) -> (r: Option<ActiveCampaignInfo>)
    ensures
        r == marker_of(s@, pair),
{
    match s.markers.get(&pair) {
        Some(info) => Some(*info),
        None => None,
    }
}

/// Removes the marker of pool `pair`.
pub fn clear_active_campaign_for_pair(s: &mut Storage, pair: Addr)
    ensures
        final(s)@ == (StoreView { markers: old(s)@.markers.remove(pair), ..old(s)@ }),
{
    s.markers.remove(&pair);
}

} // verus!
