use vstd::prelude::*;

verus! {

/// An account of the data provider.
#[derive(Clone, Debug)]
pub struct User {
    pub username: String,
    pub user_id: String,
    pub display_name: String,
    pub avatar: String,
    pub cookies: Option<String>,
    pub created: Option<String>,
    pub currencies: Option<String>,
    pub data_updated: Option<String>,
    pub deleted: Option<String>,
    pub email: Option<String>,
    pub metadata: Option<String>,
    pub notifications: Option<String>,
    pub pending: Option<String>,
    pub phone: Option<String>,
    pub real_name: Option<String>,
    pub solicitable: Option<String>,
    pub summoner_name: Option<String>,
    pub summoner_realm: Option<String>,
    pub token: Option<String>,
    pub verification: Option<String>,
}

/// A member of a league; rosters name their owner by `user_id`.
#[derive(Clone, Debug)]
pub struct LeagueUser {
    pub username: Option<String>,
    pub user_id: String,
    pub display_name: String,
    pub avatar: String,
    pub metadata: LeagueUserMetadata,
    pub is_owner: Option<bool>,
    pub is_bot: bool,
    pub settings: Option<String>,
}

/// A league member's preferences; the `_pn` fields are push notifications.
#[derive(Clone, Debug)]
pub struct LeagueUserMetadata {
    pub team_name: Option<String>,
    pub allow_pn: Option<String>,
    pub mention_pn: Option<String>,
    /// A link if the avatar is custom, otherwise its id.
    pub avatar: Option<String>,
    pub league_report_pn: Option<String>,
    pub mascot_message: Option<String>,
    pub player_like_pn: Option<String>,
    pub player_nickname_update: Option<String>,
    pub team_name_update: Option<String>,
    pub trade_block_pn: Option<String>,
    pub transaction_commissioner: Option<String>,
    pub transaction_free_agent: Option<String>,
    pub transaction_trade: Option<String>,
    pub transaction_waiver: Option<String>,
    pub user_message_pn: Option<String>,
}

} // verus!
