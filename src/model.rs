//! The TFA user records: for each user, the enrolled second factors and the lockout state.

use vstd::prelude::*;

use crate::keyed::{
    find_key, keyed_get, keyed_insert, keyed_map, keyed_remove, lemma_find_key, lemma_key_at,
    unique_keys,
};

verus! {

/// The envelope every TFA entry carries.
pub struct TfaInfo {
    /// Unique among the entries of one user.
    pub id: String,
    pub description: String,
    /// Creation time, seconds since the epoch.
    pub created: i64,
    /// Disabled entries are kept for management but take no part in authentication.
    pub enable: bool,
}

pub struct TfaInfoView {
    pub id: Seq<char>,
    pub description: Seq<char>,
    pub created: i64,
    pub enable: bool,
}

impl View for TfaInfo {
    type V = TfaInfoView;

    open spec fn view(&self) -> TfaInfoView {
        TfaInfoView {
            id: self.id@,
            description: self.description@,
            created: self.created,
            enable: self.enable,
        }
    }
}

/// An entry of one factor type: its envelope and the factor's own data.
pub struct TfaEntry<T> {
    pub info: TfaInfo,
    pub entry: T,
}

pub struct TfaEntryView<V> {
    pub info: TfaInfoView,
    pub entry: V,
}

impl<T: View> View for TfaEntry<T> {
    type V = TfaEntryView<T::V>;

    open spec fn view(&self) -> TfaEntryView<T::V> {
        TfaEntryView { info: self.info@, entry: self.entry@ }
    }
}

/// The time step of a TOTP secret when none is configured, in seconds.
pub const DEFAULT_TOTP_PERIOD: usize = 30;

/// The number of digits of a TOTP code when none is configured.
pub const DEFAULT_TOTP_DIGITS: u8 = 6;

/// A TOTP secret with its configuration.
pub struct Totp {
    pub secret: Vec<u8>,
    /// The time step in seconds.
    pub period: usize,
    pub digits: u8,
    /// The account the secret belongs to, as authenticator apps show it.
    pub account_name: Option<String>,
}

pub struct TotpView {
    pub secret: Seq<u8>,
    pub period: usize,
    pub digits: u8,
    pub account_name: Option<Seq<char>>,
}

impl View for Totp {
    type V = TotpView;

    open spec fn view(&self) -> TotpView {
        TotpView {
            secret: self.secret@,
            period: self.period,
            digits: self.digits,
            account_name: match self.account_name {
                Some(a) => Some(a@),
                None => None,
            },
        }
    }
}

/// A registered U2F key.
pub struct U2fRegistration {
    pub key_handle: Vec<u8>,
    pub version: String,
    pub public_key: Vec<u8>,
    pub certificate: Vec<u8>,
}

pub struct U2fRegistrationView {
    pub key_handle: Seq<u8>,
    pub version: Seq<char>,
    pub public_key: Seq<u8>,
    pub certificate: Seq<u8>,
}

impl View for U2fRegistration {
    type V = U2fRegistrationView;

    open spec fn view(&self) -> U2fRegistrationView {
        U2fRegistrationView {
            key_handle: self.key_handle@,
            version: self.version@,
            public_key: self.public_key@,
            certificate: self.certificate@,
        }
    }
}

/// A user's set of one-time recovery codes: for each code, whether it has been used.
pub struct Recovery {
    pub used: Vec<bool>,
    pub created: i64,
}

/// The number of codes not yet used.
pub open spec fn unused_count(used: Seq<bool>) -> nat
    decreases used.len(),
{
    if used.len() == 0 {
        0
    } else {
        unused_count(used.drop_last()) + if used.last() {
            0nat
        } else {
            1nat
        }
    }
}

impl Recovery {
    /// The number of codes that can still be used.
    pub fn count_available(&self) -> (r: usize)
        ensures
            r == unused_count(self.used@),
    {
        let mut n: usize = 0;
        let mut i: usize = 0;
        while i < self.used.len()
            invariant
                i <= self.used@.len(),
                n == unused_count(self.used@.subrange(0, i as int)),
                n <= i,
            decreases self.used.len() - i,
        {
            assert(self.used@.subrange(0, i + 1).drop_last() =~= self.used@.subrange(0, i as int));
            if !self.used[i] {
                n = n + 1;
            }
            i = i + 1;
        }
        assert(self.used@.subrange(0, i as int) =~= self.used@);
        n
    }
}

/// All TFA data of one user.
pub struct TfaUserData {
    pub totp: Vec<TfaEntry<Totp>>,
    pub u2f: Vec<TfaEntry<U2fRegistration>>,
    /// The envelopes of the WebAuthn credentials; the credentials themselves are read by the
    /// WebAuthn verifier alone.
    pub webauthn: Vec<TfaInfo>,
    /// Yubico OTP device ids.
    pub yubico: Vec<TfaEntry<String>>,
    pub recovery: Option<Recovery>,
    /// Set once repeated TOTP failures hit the limit.
    pub totp_locked: bool,
    /// While this lies in the future, every second factor is refused.
    pub tfa_locked_until: Option<i64>,
}

impl TfaUserData {
    /// A user with no entries and no lockout.
    pub fn new() -> (r: TfaUserData)
        ensures
            r.totp@.len() == 0,
            r.u2f@.len() == 0,
            r.webauthn@.len() == 0,
            r.yubico@.len() == 0,
            r.recovery is None,
            !r.totp_locked,
            r.tfa_locked_until is None,
    {
        TfaUserData {
            totp: Vec::new(),
            u2f: Vec::new(),
            webauthn: Vec::new(),
            yubico: Vec::new(),
            recovery: None,
            totp_locked: false,
            tfa_locked_until: None,
        }
    }

    /// The ids of all the user's entries, of every factor type.
    pub open spec fn entry_ids(&self) -> Seq<Seq<char>> {
        self.totp@.map_values(|e: TfaEntry<Totp>| e.info.id@) + self.u2f@.map_values(
            |e: TfaEntry<U2fRegistration>| e.info.id@,
        ) + self.webauthn@.map_values(|i: TfaInfo| i.id@) + self.yubico@.map_values(
            |e: TfaEntry<String>| e.info.id@,
        )
    }

    /// No two entries of the user share an id, so an entry is found by its id alone.
    pub open spec fn ids_unique(&self) -> bool {
        self.entry_ids().no_duplicates()
    }

    /// Whether the user has no entries at all, recovery codes included.
    pub open spec fn spec_is_empty(&self) -> bool {
        &&& self.totp@.len() == 0
        &&& self.u2f@.len() == 0
        &&& self.webauthn@.len() == 0
        &&& self.yubico@.len() == 0
        &&& self.recovery is None
    }

    /// Whether the user has no entries at all, recovery codes included.
    pub fn is_empty(&self) -> (r: bool)
        ensures
            r == self.spec_is_empty(),
    {
        self.totp.len() == 0 && self.u2f.len() == 0 && self.webauthn.len() == 0
            && self.yubico.len() == 0 && self.recovery.is_none()
    }
}

/// The TFA configuration: each user's records.
pub struct TfaConfig {
    pub users: Vec<(String, TfaUserData)>,
}

impl TfaConfig {
    /// No user id occurs twice.
    pub open spec fn wf(&self) -> bool {
        unique_keys(self.users@)
    }

    /// The records by user id.
    pub open spec fn user_map(&self) -> Map<Seq<char>, TfaUserData> {
        keyed_map(self.users@)
    }

    /// A configuration without users.
    pub fn new() -> (r: TfaConfig)
        ensures
            r.wf(),
            r.user_map() == Map::<Seq<char>, TfaUserData>::empty(),
    {
        let r = TfaConfig { users: Vec::new() };
        assert(r.user_map() =~= Map::<Seq<char>, TfaUserData>::empty());
        r
    }

    /// The records of `userid`, if it has any.
    pub fn get_user(&self, userid: &str) -> (r: Option<&TfaUserData>)
        ensures
            match r {
                Some(u) => self.user_map().contains_key(userid@) && *u == self.user_map()[userid@],
                None => !self.user_map().contains_key(userid@),
            },
    {
        keyed_get(&self.users, userid)
    }

    /// The ids of all users, each once.
    pub fn users(&self) -> (r: Vec<String>)
        requires
            self.wf(),
        ensures
            r@.len() == self.user_map().dom().len(),
            forall|i: int| 0 <= i < r@.len() ==> self.user_map().contains_key(#[trigger] r@[i]@),
            forall|u: Seq<char>|
                self.user_map().contains_key(u) ==> exists|i: int|
                    0 <= i < r@.len() && #[trigger] r@[i]@ == u,
            forall|i: int, j: int| 0 <= i < j < r@.len() ==> r@[i]@ != r@[j]@,
    {
        let mut r: Vec<String> = Vec::new();
        let mut i: usize = 0;
        while i < self.users.len()
            invariant
                i <= self.users@.len(),
                self.wf(),
                r@.len() == i,
                forall|j: int| 0 <= j < i ==> (#[trigger] r@[j])@ == self.users@[j].0@,
            decreases self.users.len() - i,
        {
            r.push(self.users[i].0.clone());
            i = i + 1;
        }
        proof {
            assert forall|j: int| 0 <= j < r@.len() implies self.user_map().contains_key(
                #[trigger] r@[j]@,
            ) by {
                lemma_key_at(self.users@, j);
            }
            assert forall|u: Seq<char>| self.user_map().contains_key(u) implies exists|j: int|
                0 <= j < r@.len() && #[trigger] r@[j]@ == u by {
                lemma_find_key(self.users@, u);
                let j = find_key(self.users@, u);
                assert(r@[j]@ == u);
            }
            let dom = self.user_map().dom();
            let keys = r@.map_values(|s: String| s@);
            assert(keys.no_duplicates());
            assert(keys.to_set() =~= dom) by {
                assert forall|u: Seq<char>| keys.to_set().contains(u) <==> dom.contains(u) by {
                    if dom.contains(u) {
                        lemma_find_key(self.users@, u);
                        let j = find_key(self.users@, u);
                        assert(keys[j] == u);
                    }
                    if keys.to_set().contains(u) {
                        let j = choose|j: int| 0 <= j < keys.len() && keys[j] == u;
                        lemma_key_at(self.users@, j);
                    }
                }
            }
            keys.unique_seq_to_set();
        }
        r
    }

    /// Drops the records of `userid`; returns whether there were any.
    pub fn remove_user(&mut self, userid: &str) -> (r: bool)
        requires
            old(self).wf(),
        ensures
            final(self).wf(),
            r == old(self).user_map().contains_key(userid@),
            final(self).user_map() == old(self).user_map().remove(userid@),
    {
        keyed_remove(&mut self.users, userid)
    }

    /// Sets the records of `userid`, replacing any it had.
    pub fn insert_user(&mut self, userid: String, data: TfaUserData)
        requires
            old(self).wf(),
        ensures
            final(self).wf(),
            final(self).user_map() == old(self).user_map().insert(userid@, data),
    {
        keyed_insert(&mut self.users, userid, data)
    }
}

} // verus!
