//! How current user records look to consumers of the version 1 format.

use vstd::prelude::*;
use vstd::string::StringExecFns;

use crate::codec::{base64_encode, base64_encode_of, base64url_encode, base64url_encode_of, hex_encode, hex_encode_spec};
use crate::json::{lemma_member_without, member, without_member, Json};
use crate::legacy::{
    decode_key_spec, decode_keys_spec, member_key, oath_entry_spec, usize_from_perl_spec,
    LegacyError, Member,
};
use crate::model::{TfaConfig, TfaEntry, TfaUserData, Totp, TotpView};
use crate::codec::{hex_digit, lemma_hex_round_trip};
use crate::text::{
    end_non_ws_char, first_non_ws_char, is_key_sep, is_ws_char, key_pieces, key_pieces_from,
    nonempty_piece, trim_chars,
};

verus! {

/// `v2-0x` and the secret in hex: how the version 1 format writes a TOTP secret.
pub open spec fn v2_hex(secret: Seq<u8>) -> Seq<char> {
    seq!['v', '2', '-', '0', 'x'] + hex_encode_spec(secret)
}

/// The secrets of TOTP entries, each written as `v2_hex`, separated by spaces.
pub open spec fn oath_keys_text(ts: Seq<TfaEntry<Totp>>) -> Seq<char>
    decreases ts.len(),
{
    if ts.len() == 0 {
        Seq::empty()
    } else if ts.len() == 1 {
        v2_hex(ts[0].entry.secret@)
    } else {
        oath_keys_text(ts.drop_last()) + seq![' '] + v2_hex(ts.last().entry.secret@)
    }
}

/// Yubico device ids separated by spaces.
pub open spec fn yubico_keys_text(ks: Seq<TfaEntry<String>>) -> Seq<char>
    decreases ks.len(),
{
    if ks.len() == 0 {
        Seq::empty()
    } else if ks.len() == 1 {
        ks[0].entry@
    } else {
        yubico_keys_text(ks.drop_last()) + seq![' '] + ks.last().entry@
    }
}

fn v2_hex_text(secret: &Vec<u8>) -> (r: String)
    ensures
        r@ == v2_hex(secret@),
{
    let mut s = "v2-0x".to_owned();
    proof {
        reveal_strlit("v2-0x");
    }
    let h = hex_encode(secret.as_slice());
    s.append(h.as_str());
    s
}

/// The single factor under which a user appears in the version 1 format.
pub enum LegacyUserConfig {
    /// The first U2F registration: its public key in base64, its key handle in URL-safe base64
    /// without padding.
    U2f { public_key: String, key_handle: String },
    /// All TOTP secrets, sharing the configuration of the first.
    Oath { digits: u8, step: usize, keys: String },
    /// All Yubico device ids, separated by spaces.
    Yubico { keys: String },
    /// Only factors the version 1 format cannot express: such a user must be refused there.
    Incompatible,
}

/// `r` is how `u` appears in the version 1 format; `None` for a user without any entry.
pub open spec fn legacy_user_spec(u: TfaUserData, r: Option<LegacyUserConfig>) -> bool {
    if u.u2f@.len() > 0 {
        let reg = u.u2f@[0].entry;
        r matches Some(LegacyUserConfig::U2f { public_key, key_handle }) && public_key@
            == base64_encode_of(reg.public_key@) && key_handle@ == base64url_encode_of(
            reg.key_handle@,
        )
    } else if u.totp@.len() > 0 {
        let t = u.totp@[0].entry;
        r matches Some(LegacyUserConfig::Oath { digits, step, keys }) && digits == t.digits && step
            == t.period && keys@ == oath_keys_text(u.totp@)
    } else if u.yubico@.len() > 0 {
        r matches Some(LegacyUserConfig::Yubico { keys }) && keys@ == yubico_keys_text(u.yubico@)
    } else if u.spec_is_empty() {
        r is None
    } else {
        r matches Some(LegacyUserConfig::Incompatible)
    }
}

/// How one user appears in the version 1 format: the first U2F registration, else all TOTP
/// secrets, else all Yubico ids; a user with only other factors is incompatible, and one
/// without entries does not appear.
pub fn generate_legacy_user(data: &TfaUserData) -> (r: Option<LegacyUserConfig>)
    ensures
        legacy_user_spec(*data, r),
{
    if data.u2f.len() > 0 {
        let reg = &data.u2f[0].entry;
        return Some(
            LegacyUserConfig::U2f {
                public_key: base64_encode(reg.public_key.as_slice()),
                key_handle: base64url_encode(reg.key_handle.as_slice()),
            },
        );
    }
    if data.totp.len() > 0 {
        let first = &data.totp[0].entry;
        let mut keys = v2_hex_text(&first.secret);
        let mut i: usize = 1;
        while i < data.totp.len()
            invariant
                1 <= i <= data.totp@.len(),
                keys@ == oath_keys_text(data.totp@.subrange(0, i as int)),
            decreases data.totp.len() - i,
        {
            let ghost p = data.totp@.subrange(0, i + 1);
            assert(p.drop_last() =~= data.totp@.subrange(0, i as int));
            keys.append(" ");
            proof {
                reveal_strlit(" ");
            }
            let more = v2_hex_text(&data.totp[i].entry.secret);
            keys.append(more.as_str());
            i = i + 1;
        }
        assert(data.totp@.subrange(0, i as int) =~= data.totp@);
        return Some(LegacyUserConfig::Oath { digits: first.digits, step: first.period, keys });
    }
    if data.yubico.len() > 0 {
        let mut keys = data.yubico[0].entry.clone();
        let mut i: usize = 1;
        while i < data.yubico.len()
            invariant
                1 <= i <= data.yubico@.len(),
                keys@ == yubico_keys_text(data.yubico@.subrange(0, i as int)),
            decreases data.yubico.len() - i,
        {
            let ghost p = data.yubico@.subrange(0, i + 1);
            assert(p.drop_last() =~= data.yubico@.subrange(0, i as int));
            keys.append(" ");
            proof {
                reveal_strlit(" ");
            }
            keys.append(data.yubico[i].entry.as_str());
            i = i + 1;
        }
        assert(data.yubico@.subrange(0, i as int) =~= data.yubico@);
        return Some(LegacyUserConfig::Yubico { keys });
    }
    if data.is_empty() {
        return None;
    }
    Some(LegacyUserConfig::Incompatible)
}

/// `out` lists, in order, each user of `users` that has entries, as the version 1 format
/// shows it.
pub open spec fn legacy_config_spec(
    users: Seq<(String, TfaUserData)>,
    out: Seq<(String, LegacyUserConfig)>,
) -> bool
    decreases users.len(),
{
    if users.len() == 0 {
        out.len() == 0
    } else if users.last().1.spec_is_empty() {
        legacy_config_spec(users.drop_last(), out)
    } else {
        &&& out.len() > 0
        &&& out.last().0@ == users.last().0@
        &&& legacy_user_spec(users.last().1, Some(out.last().1))
        &&& legacy_config_spec(users.drop_last(), out.drop_last())
    }
}

/// Every user with entries, as the version 1 format shows it.
pub fn generate_legacy_config(config: &TfaConfig) -> (r: Vec<(String, LegacyUserConfig)>)
    ensures
        legacy_config_spec(config.users@, r@),
{
    let mut out: Vec<(String, LegacyUserConfig)> = Vec::new();
    let mut j: usize = 0;
    assert(config.users@.subrange(0, 0).len() == 0);
    while j < config.users.len()
        invariant
            j <= config.users@.len(),
            legacy_config_spec(config.users@.subrange(0, j as int), out@),
        decreases config.users.len() - j,
    {
        let ghost p = config.users@.subrange(0, j + 1);
        assert(p.drop_last() =~= config.users@.subrange(0, j as int));
        let ghost before = out@;
        if let Some(entry) = generate_legacy_user(&config.users[j].1) {
            out.push((config.users[j].0.clone(), entry));
            assert(out@.drop_last() =~= before);
        }
        j = j + 1;
    }
    assert(config.users@.subrange(0, j as int) =~= config.users@);
    out
}

/// `doc` is a JSON object that writes out the oath entry `shown`: a `config` object with
/// exactly the members `step` and `digits`, and the `keys` string.
pub open spec fn oath_document(doc: Json, shown: LegacyUserConfig) -> bool {
    &&& shown matches LegacyUserConfig::Oath { digits, step, keys }
    &&& doc matches Json::Object(o)
    &&& member(o@, "config"@) matches Some(Json::Object(c))
    &&& c@.len() == 2
    &&& member(c@, "step"@) == Some(Json::Number(Some(step as u64)))
    &&& member(c@, "digits"@) == Some(Json::Number(Some(digits as u64)))
    &&& member(o@, "keys"@) matches Some(Json::String(k))
    &&& k@ == keys@
}

proof fn lemma_hex_text(b: Seq<u8>)
    ensures
        hex_encode_spec(b).len() == 2 * b.len(),
        forall|j: int|
            0 <= j < hex_encode_spec(b).len() ==> {
                let c = #[trigger] hex_encode_spec(b)[j];
                ('0' <= c && c <= '9') || ('a' <= c && c <= 'f')
            },
    decreases b.len(),
{
    if b.len() > 0 {
        let rest = b.subrange(1, b.len() as int);
        lemma_hex_text(rest);
        let e = hex_encode_spec(b);
        assert forall|j: int| 0 <= j < e.len() implies {
            let c = #[trigger] e[j];
            ('0' <= c && c <= '9') || ('a' <= c && c <= 'f')
        } by {
            if j >= 2 {
                assert(e[j] == hex_encode_spec(rest)[j - 2]);
            } else {
                let v = if j == 0 { b[0] / 16 } else { b[0] % 16 };
                assert(e[j] == hex_digit(v));
            }
        }
    }
}

/// A text without separators that neither starts nor ends with white space is one key.
proof fn lemma_single_piece(s: Seq<char>, i: int)
    requires
        0 <= i <= s.len(),
        s.len() > 0,
        !is_ws_char(s[0]),
        !is_ws_char(s[s.len() - 1]),
        forall|j: int| 0 <= j < s.len() ==> !is_key_sep(#[trigger] s[j]),
    ensures
        key_pieces_from(s, 0, i) == seq![s],
    decreases s.len() - i,
{
    if i < s.len() {
        lemma_single_piece(s, i + 1);
    } else {
        assert(s.subrange(0, s.len() as int) =~= s);
        assert(end_non_ws_char(s, s.len() as int) == s.len());
        let t = s.subrange(0, s.len() as int);
        assert(t =~= s);
        assert(first_non_ws_char(t, 0) == 0);
        assert(trim_chars(s) =~= s);
    }
}

/// A user whose only factor is one TOTP secret keeps that secret, its time step and its
/// number of digits through the version 1 format: the oath entry the user is shown as, once
/// written out as a JSON document and read back as a line of `user`, gives exactly that
/// secret, time step and number of digits, under the account `user`.
pub proof fn lemma_legacy_totp_round_trip(
    u: TfaUserData,
    shown: LegacyUserConfig,
    doc: Json,
    user: Seq<char>,
)
    requires
        u.totp@.len() == 1,
        u.u2f@.len() == 0,
        u.yubico@.len() == 0,
        u.webauthn@.len() == 0,
        u.recovery is None,
        legacy_user_spec(u, Some(shown)),
        oath_document(doc, shown),
    ensures
        oath_entry_spec(doc, user) == Ok::<Seq<TotpView>, LegacyError>(
            seq![
                TotpView {
                    secret: u.totp@[0].entry.secret@,
                    period: u.totp@[0].entry.period,
                    digits: u.totp@[0].entry.digits,
                    account_name: Some(user),
                },
            ],
        ),
{
    reveal_strlit("config");
    reveal_strlit("step");
    reveal_strlit("digits");
    reveal_strlit("keys");
    let t = u.totp@[0].entry;
    let digits = shown->Oath_digits;
    let step = shown->Oath_step;
    let o = doc->Object_0;
    let c = member(o@, "config"@)->Some_0->Object_0;
    assert(member_key(Member::Config) == "config"@);
    assert(member_key(Member::Step) == "step"@);
    assert(member_key(Member::Digits) == "digits"@);
    assert(member_key(Member::Keys) == "keys"@);
    assert("step"@ != "digits"@);
    assert("config"@ != "keys"@);
    lemma_member_without(c@, "step"@, "digits"@);
    let c1 = without_member(c@, "step"@);
    lemma_member_without(c1, "digits"@, "step"@);
    assert(without_member(c1, "digits"@).len() == 0);
    lemma_member_without(o@, "config"@, "keys"@);
    assert(usize_from_perl_spec(Json::Number(Some(step as u64))) == Some(step));
    assert(usize_from_perl_spec(Json::Number(Some(digits as u64))) == Some(digits as usize));
    // the keys text is the one secret, `v2-0x` and hex
    assert(oath_keys_text(u.totp@) == v2_hex(t.secret@));
    let text = v2_hex(t.secret@);
    let hex = hex_encode_spec(t.secret@);
    lemma_hex_text(t.secret@);
    assert forall|j: int| 0 <= j < text.len() implies !is_key_sep(#[trigger] text[j]) by {
        if j >= 5 {
            assert(text[j] == hex[j - 5]);
        }
    }
    if hex.len() > 0 {
        assert(text[text.len() - 1] == hex[hex.len() - 1]);
    }
    lemma_single_piece(text, 0);
    assert(key_pieces(text) == seq![text]);
    assert(text.subrange(5, text.len() as int) =~= hex);
    lemma_hex_round_trip(t.secret@);
    assert(decode_key_spec(text) == Ok::<Seq<u8>, LegacyError>(t.secret@));
    assert(seq![text].drop_last() =~= Seq::<Seq<char>>::empty());
    assert(decode_keys_spec(Seq::<Seq<char>>::empty()) == Ok::<Seq<Seq<u8>>, LegacyError>(Seq::empty()));
    assert(seq![text].last() == text);
    assert(Seq::<Seq<u8>>::empty().push(t.secret@) =~= seq![t.secret@]);
    assert(decode_keys_spec(seq![text]) == Ok::<Seq<Seq<u8>>, LegacyError>(seq![t.secret@]));
    assert(seq![t.secret@].map_values(
        |secret: Seq<u8>| TotpView { secret, period: step, digits, account_name: Some(user) },
    ) =~= seq![
        TotpView {
            secret: t.secret@,
            period: t.period,
            digits: t.digits,
            account_name: Some(user),
        },
    ]);
}

} // verus!
