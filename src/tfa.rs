//! Queries on the TFA configuration, and what a verification outcome tells the caller.

use vstd::prelude::*;
use vstd::string::StrSliceExecFns;
use vstd::string::StringExecFns;

use crate::model::{unused_count, TfaConfig, TfaEntry, TfaInfo, TfaUserData};

verus! {

/// Why a TFA query failed.
#[derive(Clone, Copy, Debug, PartialEq, Eq, Structural)]
pub enum TfaError {
    /// A factor type name other than `totp`, `oath`, `u2f`, `webauthn`, `yubico`, `recovery`.
    UnrecognizedType,
    /// Verification failed; `needs_saving` tells whether the configuration changed anyway.
    AuthenticationFailed { needs_saving: bool },
}

/// Whether two strings are equal.
pub fn str_equal(a: &str, b: &str) -> (r: bool)
    ensures
        r == (a@ == b@),
{
    let n = a.unicode_len();
    if n != b.unicode_len() {
        return false;
    }
    let mut i: usize = 0;
    while i < n
        invariant
            i <= n,
            n == a@.len(),
            n == b@.len(),
            a@.subrange(0, i as int) == b@.subrange(0, i as int),
        decreases n - i,
    {
        if a.get_char(i) != b.get_char(i) {
            return false;
        }
        assert(a@.subrange(0, i + 1) =~= a@.subrange(0, i as int).push(a@[i as int]));
        assert(b@.subrange(0, i + 1) =~= b@.subrange(0, i as int).push(b@[i as int]));
        i = i + 1;
    }
    assert(a@ =~= a@.subrange(0, n as int));
    assert(b@ =~= b@.subrange(0, n as int));
    true
}

/// Whether some entry is enabled.
pub open spec fn any_enabled<T>(entries: Seq<TfaEntry<T>>) -> bool {
    exists|i: int| 0 <= i < entries.len() && (#[trigger] entries[i]).info.enable
}

/// Whether some envelope is enabled.
pub open spec fn any_enabled_info(infos: Seq<TfaInfo>) -> bool {
    exists|i: int| 0 <= i < infos.len() && (#[trigger] infos[i]).enable
}

fn has_enabled<T>(entries: &Vec<TfaEntry<T>>) -> (r: bool)
    ensures
        r == any_enabled(entries@),
{
    let mut i: usize = 0;
    while i < entries.len()
        invariant
            i <= entries@.len(),
            forall|j: int| 0 <= j < i ==> !(#[trigger] entries@[j]).info.enable,
        decreases entries.len() - i,
    {
        if entries[i].info.enable {
            return true;
        }
        i = i + 1;
    }
    false
}

fn has_enabled_info(infos: &Vec<TfaInfo>) -> (r: bool)
    ensures
        r == any_enabled_info(infos@),
{
    let mut i: usize = 0;
    while i < infos.len()
        invariant
            i <= infos@.len(),
            forall|j: int| 0 <= j < i ==> !(#[trigger] infos@[j]).enable,
        decreases infos.len() - i,
    {
        if infos[i].enable {
            return true;
        }
        i = i + 1;
    }
    false
}

/// Whether user `u` can answer with factor type `typename`: some enabled entry of the type,
/// for recovery some code left; `None` for a name that is no factor type.
pub open spec fn has_type_spec(u: TfaUserData, typename: Seq<char>) -> Option<bool> {
    if typename == "totp"@ || typename == "oath"@ {
        Some(any_enabled(u.totp@))
    } else if typename == "u2f"@ {
        Some(any_enabled(u.u2f@))
    } else if typename == "webauthn"@ {
        Some(any_enabled_info(u.webauthn@))
    } else if typename == "yubico"@ {
        Some(any_enabled(u.yubico@))
    } else if typename == "recovery"@ {
        Some(
            match u.recovery {
                Some(r) => unused_count(r.used@) > 0,
                None => false,
            },
        )
    } else {
        None
    }
}

/// Whether user `userid` has an enabled entry of the factor type `typename` (`totp` or
/// `oath`, `u2f`, `webauthn`, `yubico`), or recovery codes left (`recovery`). A user without
/// any TFA data has none, whatever the name.
pub fn has_type(config: &TfaConfig, userid: &str, typename: &str) -> (r: Result<bool, TfaError>)
    ensures
        !config.user_map().contains_key(userid@) ==> r == Ok::<bool, TfaError>(false),
        config.user_map().contains_key(userid@) ==> match has_type_spec(
            config.user_map()[userid@],
            typename@,
        ) {
            Some(b) => r == Ok::<bool, TfaError>(b),
            None => r == Err::<bool, TfaError>(TfaError::UnrecognizedType),
        },
{
    let user = match config.get_user(userid) {
        Some(u) => u,
        None => return Ok(false),
    };
    if str_equal(typename, "totp") || str_equal(typename, "oath") {
        Ok(has_enabled(&user.totp))
    } else if str_equal(typename, "u2f") {
        Ok(has_enabled(&user.u2f))
    } else if str_equal(typename, "webauthn") {
        Ok(has_enabled_info(&user.webauthn))
    } else if str_equal(typename, "yubico") {
        Ok(has_enabled(&user.yubico))
    } else if str_equal(typename, "recovery") {
        Ok(
            match &user.recovery {
                Some(r) => r.count_available() > 0,
                None => false,
            },
        )
    } else {
        Err(TfaError::UnrecognizedType)
    }
}

/// The ids of the enabled yubico entries, separated by single spaces.
pub open spec fn enabled_yubico_text(ks: Seq<TfaEntry<String>>) -> Seq<char>
    decreases ks.len(),
{
    if ks.len() == 0 {
        Seq::empty()
    } else {
        let s = enabled_yubico_text(ks.drop_last());
        if !ks.last().info.enable {
            s
        } else if s.len() > 0 {
            s + seq![' '] + ks.last().entry@
        } else {
            ks.last().entry@
        }
    }
}

/// The enabled yubico device ids of a user, separated by spaces; `None` for a user without
/// TFA data.
pub fn get_yubico_keys(config: &TfaConfig, userid: &str) -> (r: Option<String>)
    ensures
        match r {
            Some(s) => config.user_map().contains_key(userid@) && s@ == enabled_yubico_text(
                config.user_map()[userid@].yubico@,
            ),
            None => !config.user_map().contains_key(userid@),
        },
{
    let user = match config.get_user(userid) {
        Some(u) => u,
        None => return None,
    };
    let mut s = String::new();
    let mut i: usize = 0;
    while i < user.yubico.len()
        invariant
            i <= user.yubico@.len(),
            s@ == enabled_yubico_text(user.yubico@.subrange(0, i as int)),
        decreases user.yubico.len() - i,
    {
        let ghost p = user.yubico@.subrange(0, i + 1);
        assert(p.drop_last() =~= user.yubico@.subrange(0, i as int));
        if user.yubico[i].info.enable {
            if s.as_str().unicode_len() > 0 {
                s.append(" ");
                proof {
                    reveal_strlit(" ");
                }
            }
            s.append(user.yubico[i].entry.as_str());
        }
        i = i + 1;
    }
    assert(user.yubico@.subrange(0, i as int) =~= user.yubico@);
    Some(s)
}

/// What a challenge says of recovery codes.
#[derive(Clone, Copy, Debug, PartialEq, Eq, Structural)]
pub struct RecoveryState {
    /// Whether any code is left.
    pub available: bool,
    /// How many codes are left.
    pub remaining: usize,
}

/// The recovery state of a user who has recovery codes.
pub fn recovery_state(config: &TfaConfig, userid: &str) -> (r: Option<RecoveryState>)
    ensures
        match r {
            Some(st) => {
                &&& config.user_map().contains_key(userid@)
                &&& config.user_map()[userid@].recovery matches Some(rec)
                &&& st.remaining == unused_count(rec.used@)
                &&& st.available == (st.remaining > 0)
            },
            None => !config.user_map().contains_key(userid@)
                || config.user_map()[userid@].recovery is None,
        },
{
    match config.get_user(userid) {
        Some(user) => match &user.recovery {
            Some(rec) => {
                let remaining = rec.count_available();
                Some(RecoveryState { available: remaining > 0, remaining })
            },
            None => None,
        },
        None => None,
    }
}

/// A user's lockout state as it is reported.
#[derive(Clone, Copy, Debug, PartialEq, Eq, Structural)]
pub struct TfaLockStatus {
    /// Locked out of TOTP until a recovery code is used or an administrator unlocks.
    pub totp_locked: bool,
    /// Until when every second factor is refused; absent once that time has passed.
    pub tfa_locked_until: Option<i64>,
}

/// The reported lockout state of `u` at time `now`.
pub open spec fn lock_status_spec(u: TfaUserData, now: i64) -> TfaLockStatus {
    TfaLockStatus {
        totp_locked: u.totp_locked,
        tfa_locked_until: match u.tfa_locked_until {
            Some(t) => if t > now {
                Some(t)
            } else {
                None
            },
            None => None,
        },
    }
}

impl TfaLockStatus {
    /// The lockout state of a user at time `now` (seconds since the epoch): a lockout that
    /// has run out is not reported.
    pub fn from_user(data: &TfaUserData, now: i64) -> (r: TfaLockStatus)
        ensures
            r == lock_status_spec(*data, now),
    {
        TfaLockStatus {
            totp_locked: data.totp_locked,
            tfa_locked_until: match data.tfa_locked_until {
                Some(t) => if t > now {
                    Some(t)
                } else {
                    None
                },
                None => None,
            },
        }
    }
}

/// The lockout report for one user or for all.
pub enum LockStatusReport {
    User(TfaLockStatus),
    All(Vec<(String, TfaLockStatus)>),
}

/// The lockout state at time `now` of user `userid`, or of every user if `userid` is `None`;
/// `None` for a user without TFA data.
pub fn tfa_lock_status(config: &TfaConfig, userid: Option<&str>, now: i64) -> (r: Option<
    LockStatusReport,
>)
    requires
        config.wf(),
    ensures
        match userid {
            Some(u) => match r {
                Some(LockStatusReport::User(st)) => config.user_map().contains_key(u@) && st
                    == lock_status_spec(config.user_map()[u@], now),
                Some(LockStatusReport::All(_)) => false,
                None => !config.user_map().contains_key(u@),
            },
            None => {
                &&& r matches Some(LockStatusReport::All(all))
                &&& all@.len() == config.users@.len()
                &&& forall|i: int|
                    0 <= i < all@.len() ==> (#[trigger] all@[i]).0@ == config.users@[i].0@
                        && config.user_map().contains_key(all@[i].0@) && all@[i].1
                        == lock_status_spec(config.user_map()[all@[i].0@], now)
            },
        },
{
    match userid {
        Some(u) => match config.get_user(u) {
            Some(user) => Some(LockStatusReport::User(TfaLockStatus::from_user(user, now))),
            None => None,
        },
        None => {
            let mut all: Vec<(String, TfaLockStatus)> = Vec::new();
            let mut i: usize = 0;
            while i < config.users.len()
                invariant
                    i <= config.users@.len(),
                    config.wf(),
                    all@.len() == i,
                    forall|j: int|
                        0 <= j < i ==> (#[trigger] all@[j]).0@ == config.users@[j].0@ && all@[j].1
                            == lock_status_spec(config.users@[j].1, now),
                decreases config.users.len() - i,
            {
                let st = TfaLockStatus::from_user(&config.users[i].1, now);
                all.push((config.users[i].0.clone(), st));
                i = i + 1;
            }
            proof {
                assert forall|j: int| 0 <= j < all@.len() implies config.user_map().contains_key(
                    (#[trigger] all@[j]).0@,
                ) && config.users@[j].1 == config.user_map()[all@[j].0@] by {
                    crate::keyed::lemma_key_at(config.users@, j);
                }
            }
            Some(LockStatusReport::All(all))
        },
    }
}

/// The outcome of verifying a second factor.
#[derive(Clone, Copy, Debug, PartialEq, Eq, Structural)]
pub enum TfaResult {
    Success { needs_saving: bool },
    /// All factors are locked for this user for now; nothing changed.
    Locked,
    Failure { needs_saving: bool, totp_limit_reached: bool, tfa_limit_reached: bool },
}

/// The outcome of a verification as the caller receives it.
#[derive(Clone, Copy, Debug, PartialEq, Eq, Structural)]
pub struct TfaReturnValue {
    /// Whether the second factor was accepted.
    pub result: bool,
    /// Whether the user configuration needs saving.
    pub needs_saving: bool,
    /// Whether the TOTP limit was reached (the configuration needs saving).
    pub totp_limit_reached: bool,
    /// Whether the general TFA limit was reached (the configuration needs saving).
    pub tfa_limit_reached: bool,
}

/// Reports a verification outcome: a lockout is a failure that changed nothing.
pub fn authentication_verify2(result: TfaResult) -> (r: TfaReturnValue)
    ensures
        r == match result {
            TfaResult::Success { needs_saving } => TfaReturnValue {
                result: true,
                needs_saving,
                totp_limit_reached: false,
                tfa_limit_reached: false,
            },
            TfaResult::Locked => TfaReturnValue {
                result: false,
                needs_saving: false,
                totp_limit_reached: false,
                tfa_limit_reached: false,
            },
            TfaResult::Failure { needs_saving, totp_limit_reached, tfa_limit_reached } =>
                TfaReturnValue { result: false, needs_saving, totp_limit_reached, tfa_limit_reached },
        },
{
    match result {
        TfaResult::Success { needs_saving } => TfaReturnValue {
            result: true,
            needs_saving,
            totp_limit_reached: false,
            tfa_limit_reached: false,
        },
        TfaResult::Locked => TfaReturnValue {
            result: false,
            needs_saving: false,
            totp_limit_reached: false,
            tfa_limit_reached: false,
        },
        TfaResult::Failure { needs_saving, totp_limit_reached, tfa_limit_reached } =>
            TfaReturnValue { result: false, needs_saving, totp_limit_reached, tfa_limit_reached },
    }
}

/// The older form of the report: success with whether the configuration needs saving, or a
/// single failure for both a failed check and a lockout.
pub fn authentication_verify(result: TfaResult) -> (r: Result<bool, TfaError>)
    ensures
        r == match result {
            TfaResult::Success { needs_saving } => Ok::<bool, TfaError>(needs_saving),
            TfaResult::Locked => Err(TfaError::AuthenticationFailed { needs_saving: false }),
            TfaResult::Failure { needs_saving, .. } => Err(
                TfaError::AuthenticationFailed { needs_saving },
            ),
        },
{
    match result {
        TfaResult::Success { needs_saving } => Ok(needs_saving),
        TfaResult::Locked => Err(TfaError::AuthenticationFailed { needs_saving: false }),
        TfaResult::Failure { needs_saving, .. } => Err(
            TfaError::AuthenticationFailed { needs_saving },
        ),
    }
}

} // verus!
