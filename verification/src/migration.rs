//! The one-shot migration handshake: a source actor on the hot-or-not
//! subnet hands its token balance and all its posts to a destination actor
//! on the other subnet, exactly once.  The subnet class is read off the
//! actor's controller list (the runtime's `canister_info` call stays
//! outside); every decision and state change here is verified.

use vstd::prelude::*;

use crate::omap::OrdMap;
use crate::post::Post;
use crate::stable_kv::timer_queue_contents;
use crate::state::{spec_timer_key, CanisterData, MigrationInfo, TokenBalance};

verus! {

#[derive(Clone, Copy, PartialEq, Eq, Structural, Debug)]
pub enum SubnetType {
    HotorNot,
    Yral,
}

#[derive(Clone, Copy, PartialEq, Eq, Structural, Debug)]
pub enum MigrationErrors {
    InvalidToCanister,
    InvalidFromCanister,
    MigrationInfoNotFound,
    AlreadyMigrated,
    TransferToCanisterCallFailed,
    CanisterInfoFailed,
    UserNotRegistered,
    Unauthorized,
}

pub struct MigrateCanister {
    pub profile_principal: u64,
    pub canister_id: u64,
}

/// A user actor as the migration protocol sees it.
pub struct IndividualUser {
    pub canister_id: u64,
    pub profile_principal: u64,
    pub subnet_type: SubnetType,
    pub migration_status: Option<MigrationInfo>,
}

/// An actor controlled by the hot-or-not orchestrator belongs to the
/// hot-or-not subnet; any other actor counts as the destination class.
pub open spec fn spec_subnet_type_of(controllers: Seq<u64>, orchestrator: u64) -> SubnetType {
    if controllers.contains(orchestrator) {
        SubnetType::HotorNot
    } else {
        SubnetType::Yral
    }
}

impl IndividualUser {
    /// Classifies an actor from its controller list, as the runtime's
    /// `canister_info` call reports it.
    pub fn new(
        canister_id: u64,
        profile_principal: u64,
        migration_info: Option<MigrationInfo>,
        controllers: &Vec<u64>,
        hot_or_not_orchestrator: u64,
    ) -> (r: IndividualUser)
        ensures
            r.canister_id == canister_id,
            r.profile_principal == profile_principal,
            r.migration_status == migration_info,
            r.subnet_type == spec_subnet_type_of(controllers@, hot_or_not_orchestrator),
    {
        let mut found = false;
        let n = controllers.len();
        let mut i: usize = 0;
        while i < n
            invariant
                n == controllers@.len(),
                0 <= i <= n,
                found == controllers@.take(i as int).contains(hot_or_not_orchestrator),
            decreases n - i,
        {
            proof {
                assert(controllers@.take(i + 1).drop_last() =~= controllers@.take(i as int));
                assert(controllers@.take(i + 1).last() == controllers@[i as int]);
            }
            if controllers[i] == hot_or_not_orchestrator {
                found = true;
            }
            i += 1;
        }
        proof {
            assert(controllers@.take(n as int) =~= controllers@);
        }
        let subnet_type = if found {
            SubnetType::HotorNot
        } else {
            SubnetType::Yral
        };
        IndividualUser { canister_id, profile_principal, subnet_type, migration_status: migration_info }
    }

    /// Builds the migration view of this very actor from its state.
    pub fn from_canister_data(
        canister_data: &CanisterData,
        canister_id: u64,
        controllers: &Vec<u64>,
        hot_or_not_orchestrator: u64,
    ) -> (r: Result<IndividualUser, MigrationErrors>)
        ensures
            match canister_data.profile.principal_id {
                None => r == Err::<IndividualUser, MigrationErrors>(
                    MigrationErrors::UserNotRegistered,
                ),
                Some(principal) => match r {
                    Ok(u) => {
                        &&& u.canister_id == canister_id
                        &&& u.profile_principal == principal
                        &&& u.migration_status == Some(canister_data.migration_info)
                        &&& u.subnet_type == spec_subnet_type_of(
                            controllers@,
                            hot_or_not_orchestrator,
                        )
                    },
                    Err(_) => false,
                },
            },
    {
        let profile_principal = match canister_data.profile.principal_id {
            Some(p) => p,
            None => {
                return Err(MigrationErrors::UserNotRegistered);
            },
        };
        Ok(
            IndividualUser::new(
                canister_id,
                profile_principal,
                Some(canister_data.migration_info),
                controllers,
                hot_or_not_orchestrator,
            ),
        )
    }

    /// The source-side preconditions of the handshake, checked in order:
    /// only the owner may initiate, only an actor of the hot-or-not class
    /// may send, only one of the other class may receive, and only an actor
    /// that never migrated may do either.
    pub fn can_transfer_tokens_and_posts(
        &self,
        to_individual_user: &IndividualUser,
        caller: u64,
    ) -> (r: Result<(), MigrationErrors>)
        ensures
            r == spec_transfer_preflight(*self, *to_individual_user, caller),
    {
        if self.profile_principal != caller {
            return Err(MigrationErrors::Unauthorized);
        }
        let self_hotornot = match self.subnet_type {
            SubnetType::HotorNot => true,
            SubnetType::Yral => false,
        };
        if !self_hotornot {
            return Err(MigrationErrors::InvalidFromCanister);
        }
        let to_hotornot = match to_individual_user.subnet_type {
            SubnetType::HotorNot => true,
            SubnetType::Yral => false,
        };
        if to_hotornot {
            return Err(MigrationErrors::InvalidToCanister);
        }
        let migration_info = match self.migration_status {
            Some(info) => info,
            None => {
                return Err(MigrationErrors::MigrationInfoNotFound);
            },
        };
        match migration_info {
            MigrationInfo::NotMigrated => Ok(()),
            _ => Err(MigrationErrors::AlreadyMigrated),
        }
    }
}

/// The source-side session guard: an actor never assigned a session may
/// not migrate out, answered exactly as the endpoint words it.
pub fn check_session_assigned(canister_data: &CanisterData) -> (r: Result<(), String>)
    ensures
        canister_data.session_type is Some <==> r is Ok,
        canister_data.session_type is None ==> (r matches Err(e) && e@
            == "Canister not yet assigned"@),
{
    proof {
        broadcast use vstd::string::to_string_from_display_ensures_for_str;
    }
    match canister_data.session_type {
        Some(_) => Ok(()),
        None => Err("Canister not yet assigned".to_string()),
    }
}

/// What `can_transfer_tokens_and_posts` answers, clause by clause.
pub open spec fn spec_transfer_preflight(
    from: IndividualUser,
    to: IndividualUser,
    caller: u64,
) -> Result<(), MigrationErrors> {
    if from.profile_principal != caller {
        Err(MigrationErrors::Unauthorized)
    } else if !(from.subnet_type is HotorNot) {
        Err(MigrationErrors::InvalidFromCanister)
    } else if to.subnet_type is HotorNot {
        Err(MigrationErrors::InvalidToCanister)
    } else if from.migration_status is None {
        Err(MigrationErrors::MigrationInfoNotFound)
    } else if !(from.migration_status->Some_0 is NotMigrated) {
        Err(MigrationErrors::AlreadyMigrated)
    } else {
        Ok(())
    }
}

pub enum TokenEvent {
    Receive { amount: u64, from_account: u64, timestamp: u64 },
    Transfer { amount: u64, to_account: u64, timestamp: u64 },
}

impl TokenBalance {
    /// Applies a token event: a receive credits the amount, a transfer
    /// debits it.
    pub fn handle_token_event(&mut self, event: TokenEvent)
        requires
            match event {
                TokenEvent::Receive { amount, .. } => old(self).utility_token_balance + amount
                    <= u64::MAX,
                TokenEvent::Transfer { amount, .. } => amount <= old(self).utility_token_balance,
            },
        ensures
            final(self).utility_token_balance == match event {
                TokenEvent::Receive { amount, .. } => (old(self).utility_token_balance
                    + amount) as u64,
                TokenEvent::Transfer { amount, .. } => (old(self).utility_token_balance
                    - amount) as u64,
            },
    {
        match event {
            TokenEvent::Receive { amount, .. } => {
                self.utility_token_balance = self.utility_token_balance + amount;
            },
            TokenEvent::Transfer { amount, .. } => {
                self.utility_token_balance = self.utility_token_balance - amount;
            },
        }
    }
}

/// The source's commit step, run only after the destination acknowledged
/// the handshake: zeroes the local balance against the destination and
/// marks the actor as migrated away.  The marker never returns to
/// `NotMigrated`.
pub fn transfer_tokens_and_posts_commit(
    canister_data: &mut CanisterData,
    to_profile_principal: u64,
) -> (transferred_amount: u64)
    ensures
        transferred_amount == old(canister_data).my_token_balance.utility_token_balance,
        final(canister_data).my_token_balance.utility_token_balance == 0,
        final(canister_data).migration_info == (MigrationInfo::MigratedToYral {
            account_principal: to_profile_principal,
        }),
        *final(canister_data) == (CanisterData {
            my_token_balance: final(canister_data).my_token_balance,
            migration_info: final(canister_data).migration_info,
            ..*old(canister_data)
        }),
{
    let amount = canister_data.my_token_balance.utility_token_balance;
    canister_data.my_token_balance.handle_token_event(
        TokenEvent::Transfer { amount, to_account: to_profile_principal, timestamp: 0 },
    );
    canister_data.migration_info = MigrationInfo::MigratedToYral {
        account_principal: to_profile_principal,
    };
    amount
}

/// The largest post id in use, or zero for an empty tree.
pub open spec fn spec_last_post_id(posts: OrdMap<Post>) -> u64 {
    if posts.spec_len() == 0 {
        0
    } else {
        posts.spec_last_key()
    }
}

/// The destination's half of the handshake: refuses callers other than the
/// owner, actors of the source class, an actor that already received a
/// migration, and an unassigned actor; otherwise credits the tokens,
/// appends the posts re-indexed past the largest local id, and marks the
/// actor as migrated in.  A retry after success answers "Already Migrated",
/// which makes the handshake idempotent on this side.
pub fn receive_data_from_hotornot(
    canister_data: &mut CanisterData,
    caller: u64,
    subnet_type: SubnetType,
    amount: u64,
    from_account: u64,
    all_created_posts: OrdMap<Post>,
) -> (r: Result<String, String>)
    requires
        old(canister_data).spec_posts_wf(),
        old(canister_data).profile.principal_id is Some,
        all_created_posts.wf(),
        forall|id: u64|
            all_created_posts@.contains_key(id) ==> (#[trigger] all_created_posts@[id]).wf(),
        old(canister_data).my_token_balance.utility_token_balance + amount <= u64::MAX,
        all_created_posts.spec_len() > 0 ==> spec_last_post_id(
            old(canister_data).all_created_posts,
        ) + all_created_posts.spec_last_key() <= u64::MAX,
    ensures
        final(canister_data).spec_posts_wf(),
        old(canister_data).spec_scheduler_in_sync() ==> final(canister_data).spec_scheduler_in_sync(),
        ({
            let owner = old(canister_data).profile.principal_id->Some_0;
            if caller != owner {
                &&& r matches Err(e) && e@ == "Unauthorized caller"@
                &&& *final(canister_data) == *old(canister_data)
            } else if subnet_type is HotorNot {
                &&& r matches Err(e) && e@ == "Unauthorized controller, found in hotornot subnet"@
                &&& *final(canister_data) == *old(canister_data)
            } else if old(canister_data).migration_info matches MigrationInfo::MigratedFromHotOrNot {
                ..
            } {
                &&& r matches Err(e) && e@ == "Already Migrated"@
                &&& *final(canister_data) == *old(canister_data)
            } else if old(canister_data).session_type is None {
                &&& r matches Err(e) && e@ == "Canister not yet assigned"@
                &&& *final(canister_data) == *old(canister_data)
            } else {
                let last = spec_last_post_id(old(canister_data).all_created_posts);
                &&& r matches Ok(s) && s@ == "Success"@
                &&& final(canister_data).my_token_balance.utility_token_balance == old(canister_data).my_token_balance.utility_token_balance + amount
                &&& final(canister_data).migration_info == (
                MigrationInfo::MigratedFromHotOrNot { account_principal: from_account })
                &&& forall|id: u64|
                    #[trigger] all_created_posts@.contains_key(id) ==> final(canister_data).all_created_posts@.contains_key((last + id) as u64) && final(canister_data).all_created_posts@[(last + id) as u64] == all_created_posts@[id]
                &&& forall|k: u64|
                    #[trigger] final(canister_data).all_created_posts@.contains_key(k) ==> (old(canister_data).all_created_posts@.contains_key(k) || exists|id: u64|
                        #[trigger] all_created_posts@.contains_key(id) && k == (last + id) as u64)
                &&& forall|k: u64|
                    #[trigger] old(canister_data).all_created_posts@.contains_key(k) && !(exists|
                        id: u64,
                    |
                        #[trigger] all_created_posts@.contains_key(id) && k == (last
                            + id) as u64) ==> final(canister_data).all_created_posts@.contains_key(
                        k,
                    ) && final(canister_data).all_created_posts@[k] == old(canister_data).all_created_posts@[k]
                &&& *final(canister_data) == (CanisterData {
                    all_created_posts: final(canister_data).all_created_posts,
                    my_token_balance: final(canister_data).my_token_balance,
                    migration_info: final(canister_data).migration_info,
                    ..*old(canister_data)
                })
            }
        }),
{
    proof {
        broadcast use vstd::string::to_string_from_display_ensures_for_str;
    }
    let profile_owner = match canister_data.profile.principal_id {
        Some(p) => p,
        None => unreached(),
    };
    if profile_owner != caller {
        return Err("Unauthorized caller".to_string());
    }
    let is_hotornot = match subnet_type {
        SubnetType::HotorNot => true,
        SubnetType::Yral => false,
    };
    if is_hotornot {
        return Err("Unauthorized controller, found in hotornot subnet".to_string());
    }
    let already = match canister_data.migration_info {
        MigrationInfo::MigratedFromHotOrNot { .. } => true,
        _ => false,
    };
    if already {
        return Err("Already Migrated".to_string());
    }
    let assigned = match canister_data.session_type {
        Some(_) => true,
        None => false,
    };
    if !assigned {
        return Err("Canister not yet assigned".to_string());
    }
    let last_post_id = match canister_data.all_created_posts.last_entry() {
        Some(e) => e.0,
        None => 0,
    };
    canister_data.my_token_balance.handle_token_event(
        TokenEvent::Receive { amount, from_account, timestamp: 0 },
    );
    let ghost posts0 = canister_data.all_created_posts@;
    let mut incoming = all_created_posts;
    proof {
        assert(last_post_id == spec_last_post_id(old(canister_data).all_created_posts));
        if incoming.spec_len() > 0 {
            incoming.lemma_key_bounds();
            assert forall|id: u64| all_created_posts@.contains_key(id) implies last_post_id + id
                <= u64::MAX by {
                assert(id <= incoming.spec_last_key());
            }
        } else {
            incoming.lemma_empty();
        }
    }
    loop
        invariant
            incoming.wf(),
            canister_data.all_created_posts.wf(),
            forall|id: u64|
                #[trigger] all_created_posts@.contains_key(id) ==> last_post_id + id <= u64::MAX,
            forall|id: u64|
                incoming@.contains_key(id) ==> (#[trigger] incoming@[id]).wf()
                    && all_created_posts@.contains_key(id) && all_created_posts@[id]
                    == incoming@[id],
            forall|p: u64|
                canister_data.all_created_posts@.contains_key(p) ==> (
                #[trigger] canister_data.all_created_posts@[p]).wf(),
            forall|id: u64|
                #[trigger] all_created_posts@.contains_key(id) && !incoming@.contains_key(id)
                    ==> canister_data.all_created_posts@.contains_key((last_post_id + id) as u64)
                    && canister_data.all_created_posts@[(last_post_id + id) as u64]
                    == all_created_posts@[id],
            forall|k: u64|
                #[trigger] canister_data.all_created_posts@.contains_key(k) ==> (posts0.contains_key(
                    k,
                ) || exists|id: u64|
                    #[trigger] all_created_posts@.contains_key(id) && k == (last_post_id
                        + id) as u64),
            forall|k: u64|
                #[trigger] posts0.contains_key(k) && !(exists|id: u64|
                    #[trigger] all_created_posts@.contains_key(id) && k == (last_post_id
                        + id) as u64) ==> canister_data.all_created_posts@.contains_key(k)
                    && canister_data.all_created_posts@[k] == posts0[k],
            canister_data.my_token_balance.utility_token_balance == old(canister_data).my_token_balance.utility_token_balance + amount,
            *canister_data == (CanisterData {
                all_created_posts: canister_data.all_created_posts,
                my_token_balance: canister_data.my_token_balance,
                ..*old(canister_data)
            }),
        ensures
            incoming@ == Map::<u64, Post>::empty(),
        decreases incoming.spec_len(),
    {
        let next = incoming.pop_first();
        match next {
            None => {
                proof {
                    incoming.lemma_empty();
                }
                break ;
            },
            Some((id, post)) => {
                canister_data.all_created_posts.insert(last_post_id + id, post);
            },
        }
    }
    canister_data.migration_info = MigrationInfo::MigratedFromHotOrNot {
        account_principal: from_account,
    };
    proof {
        if old(canister_data).spec_scheduler_in_sync() {
            assert(canister_data.first_bet_placed_at_hashmap == old(canister_data).first_bet_placed_at_hashmap);
            assert(canister_data.bet_timer_posts == old(canister_data).bet_timer_posts);
            assert forall|p: u64|
                canister_data.first_bet_placed_at_hashmap@.contains_key(p) implies timer_queue_contents(
                canister_data.bet_timer_posts,
            ).contains(
                spec_timer_key(
                    (#[trigger] canister_data.first_bet_placed_at_hashmap@[p]).bet_placed_at_ms,
                    p,
                ),
            ) by {
                assert(old(canister_data).first_bet_placed_at_hashmap@.contains_key(p));
            }
            assert forall|k: u128|
                #[trigger] timer_queue_contents(canister_data.bet_timer_posts).contains(
                    k,
                ) implies {
                let p = (k % 0x1_0000_0000_0000_0000) as u64;
                &&& canister_data.first_bet_placed_at_hashmap@.contains_key(p)
                &&& k == spec_timer_key(
                    canister_data.first_bet_placed_at_hashmap@[p].bet_placed_at_ms,
                    p,
                )
            } by {
                assert(timer_queue_contents(old(canister_data).bet_timer_posts).contains(k));
            }
            assert(canister_data.spec_scheduler_in_sync());
        }
    }
    Ok("Success".to_string())
}

} // verus!
