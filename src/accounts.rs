//! Accounts as the identity provider leaves them, and the rules that keep
//! exactly the intended one active.

use vstd::prelude::*;
use std::sync::Arc;
use std::sync::atomic::{AtomicBool, Ordering};

verus! {

#[derive(Clone, Debug)]
pub struct Skin {
    pub id: String,
    pub state: String,
    pub url: String,
    pub variant: String,
}

#[derive(Clone, Debug)]
pub struct Cape {
    pub id: String,
    pub state: String,
    pub url: String,
    pub alias: String,
}

#[derive(Clone, Debug)]
pub struct Profile {
    pub id: String,
    pub name: String,
    pub skins: Vec<Skin>,
    pub capes: Vec<Cape>,
}

/// A signed-in account: its tokens, their expiry (seconds since the epoch) and profile.
#[derive(Clone, Debug)]
pub struct Account {
    pub active: bool,
    pub expiry: u64,
    pub access_token: String,
    pub refresh_token: String,
    pub profile: Profile,
}

#[derive(Clone, Debug)]
pub struct DeviceCodeResponse {
    pub user_code: String,
    pub device_code: String,
    pub verification_uri: String,
    pub expires_in: u32,
    pub interval: u64,
    pub message: String,
}

#[derive(Clone, Debug)]
pub struct AuthorizationTokenResponse {
    pub token_type: String,
    pub scope: String,
    pub expires_in: u64,
    pub ext_expires_in: u32,
    pub access_token: String,
    pub refresh_token: String,
}

#[derive(Clone, Debug)]
pub struct RefreshTokenResponse {
    pub access_token: String,
    pub refresh_token: String,
    pub scope: String,
    pub expires_in: u32,
}

/// An Xbox Live token; its display claims are reduced to the user hash that
/// the next step needs.
#[derive(Clone, Debug)]
pub struct XboxLiveAuthenticationResponse {
    pub issue_instant: String,
    pub not_after: String,
    pub token: String,
    pub user_hash: Option<String>,
}

#[derive(Clone, Debug)]
pub struct MinecraftAuthenticationResponse {
    pub username: String,
    pub access_token: String,
    pub token_type: String,
    pub expires_in: u32,
}

#[derive(Clone, Debug)]
pub struct MinecraftProfileResponse {
    pub id: String,
    pub name: String,
    pub skins: Vec<Skin>,
    pub capes: Vec<Cape>,
}

impl MinecraftProfileResponse {
    /// The profile that the response describes.
    pub fn into_profile(self) -> (r: Profile)
        ensures
            r.id == self.id,
            r.name == self.name,
            r.skins == self.skins,
            r.capes == self.capes,
    {
        Profile { id: self.id, name: self.name, skins: self.skins, capes: self.capes }
    }
}

impl Account {
    /// The placeholder account that a fresh configuration holds.
    pub fn default() -> (r: Self)
        ensures
            r.is_placeholder(),
    {
        Account {
            active: false,
            expiry: 0,
            access_token: String::new(),
            refresh_token: String::new(),
            profile: Profile { id: String::new(), name: String::new(), skins: Vec::new(), capes: Vec::new() },
        }
    }

    /// Whether this is the placeholder: inactive, no expiry, no tokens, an empty profile.
    pub open spec fn is_placeholder(&self) -> bool {
        &&& !self.active
        &&& self.expiry == 0
        &&& self.access_token@.len() == 0
        &&& self.refresh_token@.len() == 0
        &&& self.profile.id@.len() == 0
        &&& self.profile.name@.len() == 0
        &&& self.profile.skins@.len() == 0
        &&& self.profile.capes@.len() == 0
    }

    pub fn placeholder(&self) -> (r: bool)
        ensures
            r == self.is_placeholder(),
    {
        !self.active && self.expiry == 0 && self.access_token.unicode_len() == 0
            && self.refresh_token.unicode_len() == 0 && self.profile.id.unicode_len() == 0
            && self.profile.name.unicode_len() == 0 && self.profile.skins.len() == 0
            && self.profile.capes.len() == 0
    }
}

/// The index of the first account with profile `id`, or -1.
pub open spec fn find_profile(accounts: Seq<Account>, id: Seq<char>) -> int
    decreases accounts.len(),
{
    if accounts.len() == 0 {
        -1
    } else if find_profile(accounts.drop_last(), id) >= 0 {
        find_profile(accounts.drop_last(), id)
    } else if accounts.last().profile.id@ == id {
        accounts.len() - 1
    } else {
        -1
    }
}

/// The index of the first active account, or -1.
pub open spec fn first_active(accounts: Seq<Account>) -> int
    decreases accounts.len(),
{
    if accounts.len() == 0 {
        -1
    } else if first_active(accounts.drop_last()) >= 0 {
        first_active(accounts.drop_last())
    } else if accounts.last().active {
        accounts.len() - 1
    } else {
        -1
    }
}

/// `find_profile` gives the first account with the profile, or -1 when none has it.
pub proof fn lemma_find_profile(accounts: Seq<Account>, id: Seq<char>)
    ensures
        -1 <= find_profile(accounts, id) < accounts.len(),
        find_profile(accounts, id) >= 0 ==> accounts[find_profile(accounts, id)].profile.id@ == id,
        forall|i: int| 0 <= i < accounts.len() && (find_profile(accounts, id) < 0 || i < find_profile(accounts, id))
            ==> (#[trigger] accounts[i]).profile.id@ != id,
    decreases accounts.len(),
{
    if accounts.len() > 0 {
        lemma_find_profile(accounts.drop_last(), id);
        assert forall|i: int| 0 <= i < accounts.len() && (find_profile(accounts, id) < 0 || i < find_profile(accounts, id))
            implies (#[trigger] accounts[i]).profile.id@ != id by {
            if i < accounts.len() - 1 {
                assert(accounts[i] == accounts.drop_last()[i]);
            }
        }
    }
}

/// `first_active` gives the first active account, or -1 when none is.
pub proof fn lemma_first_active(accounts: Seq<Account>)
    ensures
        -1 <= first_active(accounts) < accounts.len(),
        first_active(accounts) >= 0 ==> accounts[first_active(accounts)].active,
        forall|i: int| 0 <= i < accounts.len() && (first_active(accounts) < 0 || i < first_active(accounts))
            ==> !(#[trigger] accounts[i]).active,
    decreases accounts.len(),
{
    if accounts.len() > 0 {
        lemma_first_active(accounts.drop_last());
        assert forall|i: int| 0 <= i < accounts.len() && (first_active(accounts) < 0 || i < first_active(accounts))
            implies !(#[trigger] accounts[i]).active by {
            if i < accounts.len() - 1 {
                assert(accounts[i] == accounts.drop_last()[i]);
            }
        }
    }
}

/// The position of the first account with profile `id`.
pub fn position_of_profile(accounts: &Vec<Account>, id: &str) -> (r: Option<usize>)
    ensures
        r is None <==> find_profile(accounts@, id@) < 0,
        r matches Some(i) ==> i == find_profile(accounts@, id@),
{
    proof {
        lemma_find_profile(accounts@, id@);
    }
    let mut i: usize = 0;
    while i < accounts.len()
        invariant
            0 <= i <= accounts@.len(),
            -1 <= find_profile(accounts@, id@) < accounts@.len(),
            find_profile(accounts@, id@) >= 0 ==> accounts@[find_profile(accounts@, id@)].profile.id@ == id@,
            forall|k: int| 0 <= k < accounts@.len() && (find_profile(accounts@, id@) < 0 || k < find_profile(accounts@, id@))
                ==> (#[trigger] accounts@[k]).profile.id@ != id@,
            forall|k: int| 0 <= k < i ==> (#[trigger] accounts@[k]).profile.id@ != id@,
        decreases accounts.len() - i,
    {
        if crate::text::eq_str(accounts[i].profile.id.as_str(), id) {
            return Some(i);
        }
        i += 1;
    }
    None
}

/// The first active account, if any.
pub fn get_active_account(accounts: &Vec<Account>) -> (r: Option<&Account>)
    ensures
        r is None <==> first_active(accounts@) < 0,
        r matches Some(a) ==> *a == accounts@[first_active(accounts@)],
{
    proof {
        lemma_first_active(accounts@);
    }
    let mut i: usize = 0;
    while i < accounts.len()
        invariant
            0 <= i <= accounts@.len(),
            -1 <= first_active(accounts@) < accounts@.len(),
            first_active(accounts@) >= 0 ==> accounts@[first_active(accounts@)].active,
            forall|k: int| 0 <= k < accounts@.len() && (first_active(accounts@) < 0 || k < first_active(accounts@))
                ==> !(#[trigger] accounts@[k]).active,
            forall|k: int| 0 <= k < i ==> !(#[trigger] accounts@[k]).active,
        decreases accounts.len() - i,
    {
        if accounts[i].active {
            return Some(&accounts[i]);
        }
        i += 1;
    }
    None
}

/// Why an account operation failed.
#[derive(Clone, Debug, PartialEq, Eq)]
pub enum AccountError {
    NotFound(String),
}

/// Sets every account's `active` flag to `flag`.
fn set_all_active(accounts: &mut Vec<Account>, flag: bool)
    ensures
        final(accounts)@.len() == old(accounts)@.len(),
        forall|i: int| 0 <= i < old(accounts)@.len() ==> (#[trigger] final(accounts)@[i]) == (Account {
            active: flag,
            ..old(accounts)@[i]
        }),
{
    let mut i: usize = 0;
    while i < accounts.len()
        invariant
            0 <= i <= accounts@.len(),
            accounts@.len() == old(accounts)@.len(),
            forall|k: int| 0 <= k < i ==> (#[trigger] accounts@[k]) == (Account { active: flag, ..old(accounts)@[k] }),
            forall|k: int| i <= k < accounts@.len() ==> (#[trigger] accounts@[k]) == old(accounts)@[k],
        decreases accounts.len() - i,
    {
        let mut a = accounts.remove(i);
        a.active = flag;
        accounts.insert(i, a);
        i += 1;
    }
}

/// Makes the first account with profile `id` the only active one; when no
/// account has that profile, nothing changes.
pub fn switch_account(accounts: &mut Vec<Account>, id: &str) -> (r: Result<(), AccountError>)
    ensures
        r is Err <==> find_profile(old(accounts)@, id@) < 0,
        r is Err ==> *final(accounts) == *old(accounts),
        r is Ok ==> final(accounts)@.len() == old(accounts)@.len() && forall|i: int|
            0 <= i < old(accounts)@.len() ==> (#[trigger] final(accounts)@[i]) == (Account {
                active: i == find_profile(old(accounts)@, id@),
                ..old(accounts)@[i]
            }),
{
    proof {
        lemma_find_profile(accounts@, id@);
    }
    match position_of_profile(accounts, id) {
        None => Err(AccountError::NotFound(String::from_str(id))),
        Some(k) => {
            set_all_active(accounts, false);
            let ghost mid = accounts@;
            let mut a = accounts.remove(k);
            a.active = true;
            accounts.insert(k, a);
            proof {
                assert forall|i: int| 0 <= i < old(accounts)@.len() implies (#[trigger] accounts@[i]) == (Account {
                    active: i == find_profile(old(accounts)@, id@),
                    ..old(accounts)@[i]
                }) by {
                    if i != k {
                        assert(accounts@[i] == mid[i]);
                    }
                }
            }
            Ok(())
        },
    }
}

/// The accounts whose profile is not `id`, in order.
pub open spec fn without_profile(s: Seq<Account>, id: Seq<char>) -> Seq<Account>
    decreases s.len(),
{
    if s.len() == 0 {
        s
    } else if s.last().profile.id@ == id {
        without_profile(s.drop_last(), id)
    } else {
        without_profile(s.drop_last(), id).push(s.last())
    }
}

/// The accounts that are not the placeholder, made inactive, in order.
pub open spec fn signed_in_inactive(s: Seq<Account>) -> Seq<Account>
    decreases s.len(),
{
    if s.len() == 0 {
        s
    } else if s.last().is_placeholder() {
        signed_in_inactive(s.drop_last())
    } else {
        signed_in_inactive(s.drop_last()).push(Account { active: false, ..s.last() })
    }
}

/// Takes the accounts out of `accounts`, leaving it empty.
fn take_all(accounts: &mut Vec<Account>) -> (r: Vec<Account>)
    ensures
        r@ == old(accounts)@,
        final(accounts)@.len() == 0,
{
    let mut r: Vec<Account> = Vec::new();
    std::mem::swap(accounts, &mut r);
    r
}

/// Removes every account with profile `id`.
fn retain_other_profiles(accounts: &mut Vec<Account>, id: &str)
    ensures
        final(accounts)@ == without_profile(old(accounts)@, id@),
{
    let mut rest = take_all(accounts);
    let ghost orig = rest@;
    let mut k: usize = 0;
    let total = rest.len();
    proof {
        assert(orig.subrange(0, 0) =~= Seq::<Account>::empty());
        assert(rest@ =~= orig.subrange(0, orig.len() as int));
    }
    while rest.len() > 0
        invariant
            total == orig.len(),
            k + rest@.len() == total,
            rest@ =~= orig.subrange(k as int, total as int),
            accounts@ == without_profile(orig.subrange(0, k as int), id@),
        decreases rest.len(),
    {
        let a = rest.remove(0);
        proof {
            assert(orig.subrange(0, k as int + 1).drop_last() =~= orig.subrange(0, k as int));
            assert(orig[k as int] == a);
        }
        if !crate::text::eq_str(a.profile.id.as_str(), id) {
            accounts.push(a);
        }
        k += 1;
    }
    proof {
        assert(orig.subrange(0, total as int) =~= orig);
    }
}

/// Removes the accounts with profile `id`. When the first of them was active
/// and no remaining account is, the first remaining account becomes active.
pub fn delete_account(accounts: &mut Vec<Account>, id: &str)
    ensures
        ({
            let f = find_profile(old(accounts)@, id@);
            let was_active = f >= 0 && old(accounts)@[f].active;
            let kept = without_profile(old(accounts)@, id@);
            final(accounts)@ == if was_active && kept.len() > 0 && first_active(kept) < 0 {
                kept.update(0, Account { active: true, ..kept[0] })
            } else {
                kept
            }
        }),
{
    proof {
        lemma_find_profile(accounts@, id@);
    }
    let was_active = match position_of_profile(accounts, id) {
        Some(k) => accounts[k].active,
        None => false,
    };
    retain_other_profiles(accounts, id);
    if was_active && accounts.len() > 0 {
        match get_active_account(accounts) {
            Some(_) => {},
            None => {
                let mut a = accounts.remove(0);
                a.active = true;
                accounts.insert(0, a);
                proof {
                    let kept = without_profile(old(accounts)@, id@);
                    assert(accounts@ =~= kept.update(0, Account { active: true, ..kept[0] }));
                }
            },
        }
    }
}

/// Records a freshly signed-in account as the only active one: the placeholder
/// goes, the others stay inactive. An empty list just receives it.
pub fn add_signed_in_account(accounts: &mut Vec<Account>, account: Account)
    ensures
        final(accounts)@ == if old(accounts)@.len() == 0 {
            seq![account]
        } else {
            signed_in_inactive(old(accounts)@).push(account)
        },
{
    if accounts.len() == 0 {
        accounts.push(account);
        proof {
            assert(accounts@ =~= seq![account]);
        }
        return;
    }
    let mut rest = take_all(accounts);
    let ghost orig = rest@;
    let mut k: usize = 0;
    let total = rest.len();
    proof {
        assert(orig.subrange(0, 0) =~= Seq::<Account>::empty());
        assert(rest@ =~= orig.subrange(0, orig.len() as int));
    }
    while rest.len() > 0
        invariant
            total == orig.len(),
            k + rest@.len() == total,
            rest@ =~= orig.subrange(k as int, total as int),
            accounts@ == signed_in_inactive(orig.subrange(0, k as int)),
        decreases rest.len(),
    {
        let mut a = rest.remove(0);
        proof {
            assert(orig.subrange(0, k as int + 1).drop_last() =~= orig.subrange(0, k as int));
            assert(orig[k as int] == a);
        }
        if !a.placeholder() {
            a.active = false;
            accounts.push(a);
        }
        k += 1;
    }
    proof {
        assert(orig.subrange(0, total as int) =~= orig);
    }
    accounts.push(account);
}

/// Replaces the accounts of the refreshed account's profile by the refreshed one, at the end.
pub fn replace_refreshed_account(accounts: &mut Vec<Account>, refreshed: Account)
    ensures
        final(accounts)@ == without_profile(old(accounts)@, refreshed.profile.id@).push(refreshed),
{
    retain_other_profiles(accounts, refreshed.profile.id.as_str());
    accounts.push(refreshed);
}

/// Whether a token that expires at `expiry` must be refreshed at `now` (both
/// in seconds since the epoch).
pub fn needs_refresh(expiry: u64, now: u64) -> (r: bool)
    ensures
        r == (expiry <= now),
{
    expiry <= now
}

/// Whether there is anything to refresh: not when the only account is the placeholder.
pub fn has_accounts_to_refresh(accounts: &Vec<Account>) -> (r: bool)
    ensures
        r == !(accounts@.len() == 1 && accounts@[0].is_placeholder()),
{
    !(accounts.len() == 1 && accounts[0].placeholder())
}

/// The expiry of a token issued at `now` for `expires_in` seconds.
pub fn expiry_after(now: u64, expires_in: u64) -> (r: u64)
    ensures
        r == if now + expires_in > u64::MAX { u64::MAX as int } else { now + expires_in },
{
    now.saturating_add(expires_in)
}

/// The positions of the accounts that are not the placeholder, in order.
pub open spec fn signed_in_positions(s: Seq<Account>) -> Seq<usize>
    decreases s.len(),
{
    if s.len() == 0 {
        seq![]
    } else if s.last().is_placeholder() {
        signed_in_positions(s.drop_last())
    } else {
        signed_in_positions(s.drop_last()).push((s.len() - 1) as usize)
    }
}

/// Where the signed-in accounts stand, for listing their profiles.
pub fn signed_in_indices(accounts: &Vec<Account>) -> (r: Vec<usize>)
    ensures
        r@ == signed_in_positions(accounts@),
{
    let mut out: Vec<usize> = Vec::new();
    let mut i: usize = 0;
    while i < accounts.len()
        invariant
            0 <= i <= accounts@.len(),
            out@ == signed_in_positions(accounts@.subrange(0, i as int)),
        decreases accounts.len() - i,
    {
        proof {
            assert(accounts@.subrange(0, i as int + 1).drop_last() =~= accounts@.subrange(0, i as int));
        }
        if !accounts[i].placeholder() {
            out.push(i);
        }
        i += 1;
    }
    proof {
        assert(accounts@.subrange(0, accounts@.len() as int) =~= accounts@);
    }
    out
}

/// A cancellation flag shared between a sign-in in progress and whoever may
/// cancel it.
#[derive(Clone)]
pub struct LoginHandle {
    pub cancel: Arc<AtomicBool>,
}

impl LoginHandle {
    pub fn new() -> Self {
        LoginHandle { cancel: Arc::new(AtomicBool::new(false)) }
    }

    /// Asks the sign-in to stop at its next poll.
    pub fn cancel(&self) {
        self.cancel.store(true, Ordering::SeqCst);
    }

    pub fn is_cancelled(&self) -> bool {
        self.cancel.load(Ordering::SeqCst)
    }
}

/// What a sign-in does after one poll for its token.
#[derive(Clone, Copy, Debug, PartialEq, Eq, Structural)]
pub enum LoginPoll {
    /// Stop: the sign-in was cancelled.
    Cancelled,
    /// Go on with the token received.
    Received,
    /// Wait the provider's interval and poll again.
    Wait,
}

/// Decides a sign-in poll: cancellation wins, then a received token.
pub fn login_poll_step(cancelled: bool, token_received: bool) -> (r: LoginPoll)
    ensures
        cancelled ==> r == LoginPoll::Cancelled,
        !cancelled && token_received ==> r == LoginPoll::Received,
        !cancelled && !token_received ==> r == LoginPoll::Wait,
{
    if cancelled {
        LoginPoll::Cancelled
    } else if token_received {
        LoginPoll::Received
    } else {
        LoginPoll::Wait
    }
}

} // verus!
