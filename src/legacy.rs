//! The version 1 `tfa.cfg` format: one `USER:TYPE:DATA` line per user.

use vstd::prelude::*;
use vstd::string::{StrSliceExecFns, StringExecFns};
use vstd::utf8::{decode_utf8, encode_utf8, valid_utf8};

use crate::codec::{
    base32_decode, base32_decode_of, base64_decode, base64_decode_of, base64url_decode,
    base64url_decode_of, hex_decode, hex_decode_spec, parse_json, json_of, utf8_to_string,
};
use crate::json::{has_member, member, take_member, without_member, Json};
use crate::model::{
    TfaConfig, TfaEntry, TfaEntryView, TfaInfo, TfaInfoView, TfaUserData, Totp, TotpView,
    U2fRegistration, U2fRegistrationView, DEFAULT_TOTP_DIGITS, DEFAULT_TOTP_PERIOD,
};
use crate::text::{
    decimal_string, decimal_text, key_pieces, lemma_decimal_text, lemma_decimal_text_injective,
    parse_usize, parse_usize_spec, split_keys,
};

verus! {

/// ASCII white space as `u8::is_ascii_whitespace` defines it.
pub open spec fn is_ascii_ws(b: u8) -> bool {
    b == 0x20u8 || b == 0x09u8 || b == 0x0au8 || b == 0x0cu8 || b == 0x0du8
}

fn byte_is_ascii_ws(b: u8) -> (r: bool)
    ensures
        r == is_ascii_ws(b),
{
    b == 0x20u8 || b == 0x09u8 || b == 0x0au8 || b == 0x0cu8 || b == 0x0du8
}

/// Index of the first byte at or after `i` that is not white space, or `s.len()`.
pub open spec fn first_non_ws(s: Seq<u8>, i: int) -> int
    decreases s.len() - i,
{
    if i >= s.len() {
        s.len() as int
    } else if !is_ascii_ws(s[i]) {
        i
    } else {
        first_non_ws(s, i + 1)
    }
}

/// One past the last byte before `i` that is not white space, or `0`.
pub open spec fn end_non_ws(s: Seq<u8>, i: int) -> int
    decreases i,
{
    if i <= 0 {
        0
    } else if !is_ascii_ws(s[i - 1]) {
        i
    } else {
        end_non_ws(s, i - 1)
    }
}

/// `s` without leading ASCII white space.
pub open spec fn trim_start_spec(s: Seq<u8>) -> Seq<u8> {
    s.subrange(first_non_ws(s, 0), s.len() as int)
}

/// `s` without trailing ASCII white space.
pub open spec fn trim_end_spec(s: Seq<u8>) -> Seq<u8> {
    s.subrange(0, end_non_ws(s, s.len() as int))
}

/// `s` without leading and trailing ASCII white space.
pub open spec fn trim_spec(s: Seq<u8>) -> Seq<u8> {
    trim_start_spec(trim_end_spec(s))
}

/// Drops the ASCII white space at the start of `data`.
pub fn trim_ascii_whitespace_start(data: &[u8]) -> (r: &[u8])
    ensures
        r@ == trim_start_spec(data@),
{
    let mut i: usize = 0;
    while i < data.len() && byte_is_ascii_ws(data[i])
        invariant
            i <= data@.len(),
            first_non_ws(data@, 0) == first_non_ws(data@, i as int),
        decreases data.len() - i,
    {
        i = i + 1;
    }
    &data[i..data.len()]
}

/// Drops the ASCII white space at the end of `data`.
pub fn trim_ascii_whitespace_end(data: &[u8]) -> (r: &[u8])
    ensures
        r@ == trim_end_spec(data@),
{
    let mut i: usize = data.len();
    while i > 0 && byte_is_ascii_ws(data[i - 1])
        invariant
            i <= data@.len(),
            end_non_ws(data@, data@.len() as int) == end_non_ws(data@, i as int),
        decreases i,
    {
        i = i - 1;
    }
    &data[0..i]
}

/// Drops the ASCII white space at both ends of `data`.
pub fn trim_ascii_whitespace(data: &[u8]) -> (r: &[u8])
    ensures
        r@ == trim_spec(data@),
{
    trim_ascii_whitespace_start(trim_ascii_whitespace_end(data))
}

/// The factor type of a version 1 line.
#[derive(Clone, Copy, Debug, PartialEq, Eq, Structural)]
pub enum EntryKind {
    U2f,
    Oath,
    Yubico,
}

/// The JSON members a version 1 entry holds.
#[derive(Clone, Copy, Debug, PartialEq, Eq, Structural)]
pub enum Member {
    Challenge,
    KeyHandle,
    PublicKey,
    Config,
    Step,
    Digits,
    Keys,
}

pub open spec fn member_key(m: Member) -> Seq<char> {
    match m {
        Member::Challenge => "challenge"@,
        Member::KeyHandle => "keyHandle"@,
        Member::PublicKey => "publicKey"@,
        Member::Config => "config"@,
        Member::Step => "step"@,
        Member::Digits => "digits"@,
        Member::Keys => "keys"@,
    }
}

fn member_name(m: Member) -> (r: &'static str)
    ensures
        r@ == member_key(m),
{
    match m {
        Member::Challenge => "challenge",
        Member::KeyHandle => "keyHandle",
        Member::PublicKey => "publicKey",
        Member::Config => "config",
        Member::Step => "step",
        Member::Digits => "digits",
        Member::Keys => "keys",
    }
}

/// Why a version 1 configuration could not be read.
#[derive(Clone, Copy, Debug, PartialEq, Eq, Structural)]
pub enum LegacyError {
    /// A line without the two `:` separators.
    BadLine,
    /// A user name that is not UTF-8.
    NonUtf8User,
    /// Entry data that is not base64.
    BadData,
    /// Entry data that is not JSON.
    BadJson,
    /// A type other than `u2f`, `oath` and `yubico`.
    UnknownType,
    /// Entry data that is not a JSON object.
    BadJsonType(EntryKind),
    /// A required member is missing.
    MissingValue(Member, EntryKind),
    /// A member that should hold a string holds something else.
    BadValue(Member),
    BadKeyHandle,
    BadPublicKey,
    /// A u2f entry with members besides the key handle and the public key.
    ExtraU2fData,
    /// An oath `config` that is not an object.
    BadConfig,
    MissingConfig,
    BadStep,
    BadDigits,
    /// An oath `config` with members besides `step` and `digits`.
    ExtraConfigKeys,
    BadV2HexKey,
    BadV2Base32Key,
    BadV1Base32Key,
    BadV1HexKey,
    /// A key that is neither prefixed nor of one of the two unprefixed lengths.
    UnrecognizedKeyFormat,
}

/// What taking the string member `what` out of an object gives.
pub open spec fn take_string_spec(obj: Seq<(String, Json)>, what: Member, kind: EntryKind) -> Result<
    Seq<char>,
    LegacyError,
> {
    match member(obj, member_key(what)) {
        None => Err(LegacyError::MissingValue(what, kind)),
        Some(Json::String(s)) => Ok(s@),
        Some(_) => Err(LegacyError::BadValue(what)),
    }
}

/// Takes the string member `what` out of an object of a `kind` entry.
pub fn take_json_string(data: &mut Vec<(String, Json)>, what: Member, in_what: EntryKind) -> (r:
    Result<String, LegacyError>)
    ensures
        final(data)@ == without_member(old(data)@, member_key(what)),
        match (r, take_string_spec(old(data)@, what, in_what)) {
            (Ok(s), Ok(t)) => s@ == t,
            (Err(a), Err(b)) => a == b,
            _ => false,
        },
{
    match take_member(data, member_name(what)) {
        None => Err(LegacyError::MissingValue(what, in_what)),
        Some(Json::String(s)) => Ok(s),
        Some(_) => Err(LegacyError::BadValue(what)),
    }
}

/// A number as the Perl side writes it: a JSON number, or a string of decimal digits.
pub open spec fn usize_from_perl_spec(v: Json) -> Option<usize> {
    match v {
        Json::Number(Some(n)) => if n <= usize::MAX {
            Some(n as usize)
        } else {
            None
        },
        Json::String(s) => parse_usize_spec(s@),
        _ => None,
    }
}

/// Reads a number that may come as a JSON number or as a string of digits.
pub fn usize_from_perl(value: Json) -> (r: Option<usize>)
    ensures
        r == usize_from_perl_spec(value),
{
    match value {
        Json::Number(Some(n)) => if n <= usize::MAX as u64 {
            Some(n as usize)
        } else {
            None
        },
        Json::String(s) => parse_usize(s.as_str()),
        _ => None,
    }
}

/// What a u2f entry's data decodes to: `None` for a registration that was never finished.
pub open spec fn u2f_entry_spec(v: Json) -> Result<Option<U2fRegistrationView>, LegacyError> {
    match v {
        Json::Object(o) => if member(o@, member_key(Member::Challenge)) is Some {
            Ok(None)
        } else {
            match take_string_spec(o@, Member::KeyHandle, EntryKind::U2f) {
                Err(e) => Err(e),
                Ok(kh) => match base64url_decode_of(encode_utf8(kh)) {
                    None => Err(LegacyError::BadKeyHandle),
                    Some(handle) => {
                        let o1 = without_member(o@, member_key(Member::KeyHandle));
                        match take_string_spec(o1, Member::PublicKey, EntryKind::U2f) {
                            Err(e) => Err(e),
                            Ok(pk) => match base64_decode_of(encode_utf8(pk)) {
                                None => Err(LegacyError::BadPublicKey),
                                Some(public_key) => if without_member(
                                    o1,
                                    member_key(Member::PublicKey),
                                ).len() > 0 {
                                    Err(LegacyError::ExtraU2fData)
                                } else {
                                    Ok(
                                        Some(
                                            U2fRegistrationView {
                                                key_handle: handle,
                                                version: "U2F_V2"@,
                                                public_key,
                                                certificate: Seq::empty(),
                                            },
                                        ),
                                    )
                                },
                            },
                        }
                    },
                },
            }
        },
        _ => Err(LegacyError::BadJsonType(EntryKind::U2f)),
    }
}

/// Decodes the data of a u2f line: the key handle (URL-safe base64) and the public key
/// (base64). A line of a registration that was started but never finished gives `None`.
pub fn decode_old_u2f_entry(data: Json) -> (r: Result<Option<U2fRegistration>, LegacyError>)
    ensures
        match (r, u2f_entry_spec(data)) {
            (Ok(Some(a)), Ok(Some(b))) => a@ == b,
            (Ok(None), Ok(None)) => true,
            (Err(a), Err(b)) => a == b,
            _ => false,
        },
{
    let mut obj = match data {
        Json::Object(obj) => obj,
        _ => return Err(LegacyError::BadJsonType(EntryKind::U2f)),
    };
    if has_member(&obj, member_name(Member::Challenge)) {
        return Ok(None);
    }
    let kh = take_json_string(&mut obj, Member::KeyHandle, EntryKind::U2f)?;
    let key_handle = match base64url_decode(kh.as_str().as_bytes()) {
        Some(h) => h,
        None => return Err(LegacyError::BadKeyHandle),
    };
    let pk = take_json_string(&mut obj, Member::PublicKey, EntryKind::U2f)?;
    let public_key = match base64_decode(pk.as_str().as_bytes()) {
        Some(k) => k,
        None => return Err(LegacyError::BadPublicKey),
    };
    if obj.len() > 0 {
        return Err(LegacyError::ExtraU2fData);
    }
    Ok(
        Some(
            U2fRegistration {
                key_handle,
                version: "U2F_V2".to_owned(),
                public_key,
                certificate: Vec::new(),
            },
        ),
    )
}

/// What one TOTP key decodes to: `v2-0x` and hex, `v2-` and base32, or, without prefix,
/// base32 if it is 16 bytes long and hex if it is 40 bytes long.
pub open spec fn decode_key_spec(k: Seq<char>) -> Result<Seq<u8>, LegacyError> {
    if k.len() >= 5 && k[0] == 'v' && k[1] == '2' && k[2] == '-' && k[3] == '0' && k[4] == 'x' {
        match hex_decode_spec(k.subrange(5, k.len() as int)) {
            Some(b) => Ok(b),
            None => Err(LegacyError::BadV2HexKey),
        }
    } else if k.len() >= 3 && k[0] == 'v' && k[1] == '2' && k[2] == '-' {
        match base32_decode_of(k.subrange(3, k.len() as int)) {
            Some(b) => Ok(b),
            None => Err(LegacyError::BadV2Base32Key),
        }
    } else if encode_utf8(k).len() == 16 {
        match base32_decode_of(k) {
            Some(b) => Ok(b),
            None => Err(LegacyError::BadV1Base32Key),
        }
    } else if encode_utf8(k).len() == 40 {
        match hex_decode_spec(k) {
            Some(b) => Ok(b),
            None => Err(LegacyError::BadV1HexKey),
        }
    } else {
        Err(LegacyError::UnrecognizedKeyFormat)
    }
}

/// The secrets of a list of keys, or the error of the first key that does not decode.
pub open spec fn decode_keys_spec(keys: Seq<Seq<char>>) -> Result<Seq<Seq<u8>>, LegacyError>
    decreases keys.len(),
{
    if keys.len() == 0 {
        Ok(Seq::empty())
    } else {
        match decode_keys_spec(keys.drop_last()) {
            Err(e) => Err(e),
            Ok(r) => match decode_key_spec(keys.last()) {
                Err(e) => Err(e),
                Ok(k) => Ok(r.push(k)),
            },
        }
    }
}

proof fn lemma_decode_keys_error_stays(keys: Seq<Seq<char>>, i: int)
    requires
        0 <= i <= keys.len(),
        decode_keys_spec(keys.subrange(0, i)) is Err,
    ensures
        decode_keys_spec(keys) == decode_keys_spec(keys.subrange(0, i)),
    decreases keys.len() - i,
{
    if i < keys.len() {
        let p = keys.subrange(0, i + 1);
        assert(p.drop_last() =~= keys.subrange(0, i));
        lemma_decode_keys_error_stays(keys, i + 1);
    } else {
        assert(keys.subrange(0, i) =~= keys);
    }
}

/// Decodes one TOTP key of a version 1 oath entry.
pub fn decode_key(key: &str) -> (r: Result<Vec<u8>, LegacyError>)
    ensures
        match (r, decode_key_spec(key@)) {
            (Ok(a), Ok(b)) => a@ == b,
            (Err(a), Err(b)) => a == b,
            _ => false,
        },
{
    let n = key.unicode_len();
    if n >= 5 && key.get_char(0) == 'v' && key.get_char(1) == '2' && key.get_char(2) == '-'
        && key.get_char(3) == '0' && key.get_char(4) == 'x' {
        match hex_decode(key.substring_char(5, n)) {
            Some(b) => Ok(b),
            None => Err(LegacyError::BadV2HexKey),
        }
    } else if n >= 3 && key.get_char(0) == 'v' && key.get_char(1) == '2' && key.get_char(2)
        == '-' {
        match base32_decode(key.substring_char(3, n)) {
            Some(b) => Ok(b),
            None => Err(LegacyError::BadV2Base32Key),
        }
    } else if key.as_bytes().len() == 16 {
        match base32_decode(key) {
            Some(b) => Ok(b),
            None => Err(LegacyError::BadV1Base32Key),
        }
    } else if key.as_bytes().len() == 40 {
        match hex_decode(key) {
            Some(b) => Ok(b),
            None => Err(LegacyError::BadV1HexKey),
        }
    } else {
        Err(LegacyError::UnrecognizedKeyFormat)
    }
}

/// The TOTP keys an oath entry's data decodes to.
///
/// The data holds a `config` object with optional `step` and `digits`, and nothing else, and
/// a `keys` string: a list of keys that share that configuration.
pub open spec fn oath_entry_spec(v: Json, user: Seq<char>) -> Result<Seq<TotpView>, LegacyError> {
    match v {
        Json::Object(o) => match member(o@, member_key(Member::Config)) {
            None => Err(LegacyError::MissingConfig),
            Some(Json::Object(c)) => {
                let o1 = without_member(o@, member_key(Member::Config));
                let step = member(c@, member_key(Member::Step));
                let c1 = without_member(c@, member_key(Member::Step));
                let digits = member(c1, member_key(Member::Digits));
                let c2 = without_member(c1, member_key(Member::Digits));
                let period: Option<usize> = match step {
                    None => Some(DEFAULT_TOTP_PERIOD),
                    Some(sv) => usize_from_perl_spec(sv),
                };
                let digit_count: Option<u8> = match digits {
                    None => Some(DEFAULT_TOTP_DIGITS),
                    Some(dv) => match usize_from_perl_spec(dv) {
                        Some(d) => if d <= 255 {
                            Some(d as u8)
                        } else {
                            None
                        },
                        None => None,
                    },
                };
                match (period, digit_count) {
                    (None, _) => Err(LegacyError::BadStep),
                    (_, None) => Err(LegacyError::BadDigits),
                    (Some(p), Some(d)) => if c2.len() > 0 {
                        Err(LegacyError::ExtraConfigKeys)
                    } else {
                        match take_string_spec(o1, Member::Keys, EntryKind::Oath) {
                            Err(e) => Err(e),
                            Ok(keys) => match decode_keys_spec(key_pieces(keys)) {
                                Err(e) => Err(e),
                                Ok(secrets) => Ok(
                                    secrets.map_values(
                                        |secret: Seq<u8>|
                                            TotpView {
                                                secret,
                                                period: p,
                                                digits: d,
                                                account_name: Some(user),
                                            },
                                    ),
                                ),
                            },
                        }
                    },
                }
            },
            Some(_) => Err(LegacyError::BadConfig),
        },
        _ => Err(LegacyError::BadJsonType(EntryKind::Oath)),
    }
}

/// Decodes the data of an oath line of `user` into TOTP keys of that account.
pub fn decode_old_oath_entry(data: Json, user: &str) -> (r: Result<Vec<Totp>, LegacyError>)
    ensures
        match (r, oath_entry_spec(data, user@)) {
            (Ok(a), Ok(b)) => a@.map_values(|t: Totp| t@) == b,
            (Err(a), Err(b)) => a == b,
            _ => false,
        },
{
    let mut obj = match data {
        Json::Object(obj) => obj,
        _ => return Err(LegacyError::BadJsonType(EntryKind::Oath)),
    };
    let mut config = match take_member(&mut obj, member_name(Member::Config)) {
        Some(Json::Object(c)) => c,
        Some(_) => return Err(LegacyError::BadConfig),
        None => return Err(LegacyError::MissingConfig),
    };
    let mut period: usize = DEFAULT_TOTP_PERIOD;
    if let Some(step) = take_member(&mut config, member_name(Member::Step)) {
        match usize_from_perl(step) {
            Some(p) => period = p,
            None => return Err(LegacyError::BadStep),
        }
    }
    let mut digits: u8 = DEFAULT_TOTP_DIGITS;
    if let Some(d) = take_member(&mut config, member_name(Member::Digits)) {
        match usize_from_perl(d) {
            Some(v) => if v <= 255 {
                digits = v as u8;
            } else {
                return Err(LegacyError::BadDigits);
            },
            None => return Err(LegacyError::BadDigits),
        }
    }
    if config.len() > 0 {
        return Err(LegacyError::ExtraConfigKeys);
    }
    let keys = take_json_string(&mut obj, Member::Keys, EntryKind::Oath)?;
    let pieces = split_keys(keys.as_str());
    let ghost names = pieces@.map_values(|k: String| k@);
    let mut out: Vec<Totp> = Vec::new();
    let mut i: usize = 0;
    assert(names.subrange(0, 0) =~= Seq::<Seq<char>>::empty());
    while i < pieces.len()
        invariant
            i <= pieces@.len(),
            names == pieces@.map_values(|k: String| k@),
            decode_keys_spec(names.subrange(0, i as int)) is Ok,
            out@.len() == decode_keys_spec(names.subrange(0, i as int))->Ok_0.len(),
            forall|j: int|
                0 <= j < out@.len() ==> (#[trigger] out@[j])@ == (TotpView {
                    secret: decode_keys_spec(names.subrange(0, i as int))->Ok_0[j],
                    period,
                    digits,
                    account_name: Some(user@),
                }),
            oath_entry_spec(data, user@) == match decode_keys_spec(names) {
                Err(e) => Err(e),
                Ok(secrets) => Ok(
                    secrets.map_values(
                        |secret: Seq<u8>|
                            TotpView { secret, period, digits, account_name: Some(user@) },
                    ),
                ),
            },
        decreases pieces.len() - i,
    {
        let ghost p = names.subrange(0, i + 1);
        let ghost prev = decode_keys_spec(names.subrange(0, i as int))->Ok_0;
        assert(p.drop_last() =~= names.subrange(0, i as int));
        assert(p.last() == pieces@[i as int]@);
        match decode_key(pieces[i].as_str()) {
            Err(e) => {
                assert(decode_keys_spec(p) == Err::<Seq<Seq<u8>>, LegacyError>(e));
                proof {
                    lemma_decode_keys_error_stays(names, i + 1);
                }
                return Err(e);
            },
            Ok(secret) => {
                let ghost before = out@;
                let ghost sv = secret@;
                assert(decode_keys_spec(p) == Ok::<Seq<Seq<u8>>, LegacyError>(prev.push(sv)));
                out.push(Totp { secret, period, digits, account_name: Some(user.to_owned()) });
                assert(out@[out@.len() - 1]@ == (TotpView {
                    secret: sv,
                    period,
                    digits,
                    account_name: Some(user@),
                }));
            },
        }
        i = i + 1;
    }
    assert(names.subrange(0, i as int) =~= names);
    assert(out@.map_values(|t: Totp| t@) =~= decode_keys_spec(names)->Ok_0.map_values(
        |secret: Seq<u8>| TotpView { secret, period, digits, account_name: Some(user@) },
    ));
    Ok(out)
}

/// The device ids a yubico entry's data decodes to.
pub open spec fn yubico_entry_spec(v: Json) -> Result<Seq<Seq<char>>, LegacyError> {
    match v {
        Json::Object(o) => match take_string_spec(o@, Member::Keys, EntryKind::Yubico) {
            Err(e) => Err(e),
            Ok(keys) => Ok(key_pieces(keys)),
        },
        _ => Err(LegacyError::BadJsonType(EntryKind::Yubico)),
    }
}

/// Decodes the data of a yubico line into device ids.
pub fn decode_old_yubico_entry(data: Json) -> (r: Result<Vec<String>, LegacyError>)
    ensures
        match (r, yubico_entry_spec(data)) {
            (Ok(a), Ok(b)) => a@.map_values(|k: String| k@) == b,
            (Err(a), Err(b)) => a == b,
            _ => false,
        },
{
    let mut obj = match data {
        Json::Object(obj) => obj,
        _ => return Err(LegacyError::BadJsonType(EntryKind::Yubico)),
    };
    let keys = take_json_string(&mut obj, Member::Keys, EntryKind::Yubico)?;
    Ok(split_keys(keys.as_str()))
}

/// What one version 1 entry holds.
pub enum OldEntry {
    /// A u2f registration; `None` for one that was never finished.
    U2f(Option<U2fRegistrationView>),
    /// TOTP keys that share one configuration.
    Oath(Seq<TotpView>),
    /// Yubico device ids.
    Yubico(Seq<Seq<char>>),
}

/// The type names of the version 1 format.
pub open spec fn entry_kind_spec(ty: Seq<u8>) -> Option<EntryKind> {
    if ty == seq![0x75u8, 0x32u8, 0x66u8] {
        Some(EntryKind::U2f)
    } else if ty == seq![0x6fu8, 0x61u8, 0x74u8, 0x68u8] {
        Some(EntryKind::Oath)
    } else if ty == seq![0x79u8, 0x75u8, 0x62u8, 0x69u8, 0x63u8, 0x6fu8] {
        Some(EntryKind::Yubico)
    } else {
        None
    }
}

fn entry_kind(ty: &[u8]) -> (r: Option<EntryKind>)
    ensures
        r == entry_kind_spec(ty@),
{
    if ty.len() == 3 && ty[0] == 0x75u8 && ty[1] == 0x32u8 && ty[2] == 0x66u8 {
        assert(ty@ =~= seq![0x75u8, 0x32u8, 0x66u8]);
        Some(EntryKind::U2f)
    } else if ty.len() == 4 && ty[0] == 0x6fu8 && ty[1] == 0x61u8 && ty[2] == 0x74u8 && ty[3]
        == 0x68u8 {
        assert(ty@ =~= seq![0x6fu8, 0x61u8, 0x74u8, 0x68u8]);
        Some(EntryKind::Oath)
    } else if ty.len() == 6 && ty[0] == 0x79u8 && ty[1] == 0x75u8 && ty[2] == 0x62u8 && ty[3]
        == 0x69u8 && ty[4] == 0x63u8 && ty[5] == 0x6fu8 {
        assert(ty@ =~= seq![0x79u8, 0x75u8, 0x62u8, 0x69u8, 0x63u8, 0x6fu8]);
        Some(EntryKind::Yubico)
    } else {
        None
    }
}

/// What the entry of type `ty` with the (base64-decoded) data `data` of `user` holds.
pub open spec fn old_entry_spec(ty: Seq<u8>, data: Seq<u8>, user: Seq<char>) -> Result<
    OldEntry,
    LegacyError,
> {
    match json_of(data) {
        None => Err(LegacyError::BadJson),
        Some(v) => match entry_kind_spec(ty) {
            None => Err(LegacyError::UnknownType),
            Some(EntryKind::U2f) => match u2f_entry_spec(v) {
                Err(e) => Err(e),
                Ok(r) => Ok(OldEntry::U2f(r)),
            },
            Some(EntryKind::Oath) => match oath_entry_spec(v, user) {
                Err(e) => Err(e),
                Ok(r) => Ok(OldEntry::Oath(r)),
            },
            Some(EntryKind::Yubico) => match yubico_entry_spec(v) {
                Err(e) => Err(e),
                Ok(r) => Ok(OldEntry::Yubico(r)),
            },
        },
    }
}

/// The id of the `i`-th entry taken over from a version 1 line: `v1-entry`, then
/// `v1-entry-1`, `v1-entry-2`, and so on.
pub open spec fn legacy_id(i: nat) -> Seq<char> {
    if i == 0 {
        "v1-entry"@
    } else {
        "v1-entry-"@ + decimal_text(i)
    }
}

/// Different positions get different ids.
pub proof fn lemma_legacy_id_injective(i: nat, j: nat)
    requires
        i != j,
    ensures
        legacy_id(i) != legacy_id(j),
{
    reveal_strlit("v1-entry");
    reveal_strlit("v1-entry-");
    lemma_decimal_text(i);
    lemma_decimal_text(j);
    assert("v1-entry"@.len() == 8);
    assert("v1-entry-"@.len() == 9);
    if i != 0 && j != 0 && legacy_id(i) == legacy_id(j) {
        assert(legacy_id(i).subrange(9, legacy_id(i).len() as int) =~= decimal_text(i));
        assert(legacy_id(j).subrange(9, legacy_id(j).len() as int) =~= decimal_text(j));
        lemma_decimal_text_injective(i, j);
    }
}

/// The envelope of the `i`-th entry taken over from a version 1 line.
pub open spec fn legacy_info_view(i: nat) -> TfaInfoView {
    TfaInfoView {
        id: legacy_id(i),
        description: "<old version 1 entry>"@,
        created: 0,
        enable: true,
    }
}

fn legacy_info(i: usize) -> (r: TfaInfo)
    ensures
        r@ == legacy_info_view(i as nat),
{
    let id = if i == 0 {
        "v1-entry".to_owned()
    } else {
        let mut id = "v1-entry-".to_owned();
        id.append(decimal_string(i).as_str());
        id
    };
    TfaInfo { id, description: "<old version 1 entry>".to_owned(), created: 0, enable: true }
}

/// `u` is the user record that the entry `e` becomes: the entry's factors, the `i`-th under
/// the `i`-th version 1 envelope, and nothing else; no two of its entries share an id.
pub open spec fn user_holds(u: TfaUserData, e: OldEntry) -> bool {
    &&& u.webauthn@.len() == 0
    &&& u.recovery is None
    &&& !u.totp_locked
    &&& u.tfa_locked_until is None
    &&& u.ids_unique()
    &&& match e {
        OldEntry::U2f(r) => {
            &&& u.totp@.len() == 0
            &&& u.yubico@.len() == 0
            &&& match r {
                None => u.u2f@.len() == 0,
                Some(reg) => u.u2f@.len() == 1 && u.u2f@[0]@ == (TfaEntryView {
                    info: legacy_info_view(0),
                    entry: reg,
                }),
            }
        },
        OldEntry::Oath(ts) => {
            &&& u.u2f@.len() == 0
            &&& u.yubico@.len() == 0
            &&& u.totp@.len() == ts.len()
            &&& forall|i: int|
                0 <= i < ts.len() ==> (#[trigger] u.totp@[i])@ == (TfaEntryView {
                    info: legacy_info_view(i as nat),
                    entry: ts[i],
                })
        },
        OldEntry::Yubico(ks) => {
            &&& u.u2f@.len() == 0
            &&& u.totp@.len() == 0
            &&& u.yubico@.len() == ks.len()
            &&& forall|i: int|
                0 <= i < ks.len() ==> (#[trigger] u.yubico@[i])@ == (TfaEntryView {
                    info: legacy_info_view(i as nat),
                    entry: ks[i],
                })
        },
    }
}

/// Puts each item under its version 1 envelope.
fn legacy_entries<T>(items: Vec<T>) -> (r: Vec<TfaEntry<T>>)
    ensures
        r@.len() == items@.len(),
        forall|i: int|
            0 <= i < r@.len() ==> (#[trigger] r@[i]).entry == items@[i] && r@[i].info@
                == legacy_info_view(i as nat),
{
    let ghost orig = items@;
    let mut items = items;
    let mut out: Vec<TfaEntry<T>> = Vec::new();
    while items.len() > 0
        invariant
            items@.len() + out@.len() == orig.len(),
            items@ == orig.subrange(0, items@.len() as int),
            forall|i: int|
                0 <= i < out@.len() ==> (#[trigger] out@[i]).entry == orig[items@.len() + i]
                    && out@[i].info@ == legacy_info_view((items@.len() + i) as nat),
        decreases items.len(),
    {
        let item = items.pop().unwrap();
        let info = legacy_info(items.len());
        out.insert(0, TfaEntry { info, entry: item });
    }
    out
}

/// The ids of the first `n` version 1 envelopes differ pairwise.
proof fn lemma_legacy_ids_unique(ids: Seq<Seq<char>>)
    requires
        forall|i: int| 0 <= i < ids.len() ==> #[trigger] ids[i] == legacy_id(i as nat),
    ensures
        ids.no_duplicates(),
{
    assert forall|i: int, j: int| 0 <= i < ids.len() && 0 <= j < ids.len() && i != j implies ids[i]
        != ids[j] by {
        lemma_legacy_id_injective(i as nat, j as nat);
    }
}

/// Decodes one version 1 entry of `user`: `ty` is its type, `data` its base64-decoded data.
pub fn decode_old_entry(ty: &[u8], data: &[u8], user: &str) -> (r: Result<TfaUserData, LegacyError>)
    ensures
        match (r, old_entry_spec(ty@, data@, user@)) {
            (Ok(u), Ok(e)) => user_holds(u, e),
            (Err(a), Err(b)) => a == b,
            _ => false,
        },
{
    let value = match parse_json(data) {
        Some(v) => v,
        None => return Err(LegacyError::BadJson),
    };
    let kind = match entry_kind(ty) {
        Some(k) => k,
        None => return Err(LegacyError::UnknownType),
    };
    let mut user_data = TfaUserData::new();
    match kind {
        EntryKind::U2f => {
            if let Some(entry) = decode_old_u2f_entry(value)? {
                user_data.u2f.push(TfaEntry { info: legacy_info(0), entry });
            }
            proof {
                lemma_legacy_ids_unique(user_data.entry_ids());
            }
        },
        EntryKind::Oath => {
            let keys = decode_old_oath_entry(value, user)?;
            let ghost kv = keys@;
            user_data.totp = legacy_entries(keys);
            assert forall|i: int| 0 <= i < kv.len() implies (#[trigger] user_data.totp@[i])@ == (
            TfaEntryView {
                info: legacy_info_view(i as nat),
                entry: kv.map_values(|t: Totp| t@)[i],
            }) by {}
            proof {
                lemma_legacy_ids_unique(user_data.entry_ids());
            }
        },
        EntryKind::Yubico => {
            let keys = decode_old_yubico_entry(value)?;
            let ghost kv = keys@;
            user_data.yubico = legacy_entries(keys);
            assert forall|i: int| 0 <= i < kv.len() implies (#[trigger] user_data.yubico@[i])@ == (
            TfaEntryView {
                info: legacy_info_view(i as nat),
                entry: kv.map_values(|k: String| k@)[i],
            }) by {}
            proof {
                lemma_legacy_ids_unique(user_data.entry_ids());
            }
        },
    }
    Ok(user_data)
}

/// Index of the first `b` in `s` at or after `i`, or the length.
pub open spec fn find_byte(s: Seq<u8>, b: u8, i: int) -> int
    decreases s.len() - i,
{
    if i >= s.len() {
        s.len() as int
    } else if s[i] == b {
        i
    } else {
        find_byte(s, b, i + 1)
    }
}

proof fn lemma_find_byte(s: Seq<u8>, b: u8, i: int)
    requires
        0 <= i,
    ensures
        i <= find_byte(s, b, i) || find_byte(s, b, i) == s.len(),
        find_byte(s, b, i) <= s.len(),
        find_byte(s, b, i) < s.len() ==> s[find_byte(s, b, i)] == b,
    decreases s.len() - i,
{
    if i < s.len() && s[i] != b {
        lemma_find_byte(s, b, i + 1);
    }
}

fn position_of(s: &[u8], b: u8, from: usize) -> (r: usize)
    ensures
        r == find_byte(s@, b, from as int),
{
    let mut i: usize = from;
    if i >= s.len() {
        return s.len();
    }
    while i < s.len()
        invariant
            from <= i <= s@.len(),
            find_byte(s@, b, from as int) == find_byte(s@, b, i as int),
        decreases s.len() - i,
    {
        if s[i] == b {
            return i;
        }
        i = i + 1;
    }
    i
}

/// What one line of the version 1 file holds: `None` for a blank line or a comment, else the
/// user and the entry, or the reason the line cannot be read.
pub open spec fn line_spec(line: Seq<u8>) -> Option<Result<(Seq<char>, OldEntry), LegacyError>> {
    let l = trim_spec(line);
    if l.len() == 0 || l[0] == 0x23u8 {
        None
    } else {
        let c1 = find_byte(l, 0x3au8, 0);
        let c2 = find_byte(l, 0x3au8, c1 + 1);
        if c1 >= l.len() || c2 >= l.len() {
            Some(Err(LegacyError::BadLine))
        } else {
            let user = l.subrange(0, c1);
            let ty = l.subrange(c1 + 1, c2);
            let data = l.subrange(c2 + 1, l.len() as int);
            if !valid_utf8(user) {
                Some(Err(LegacyError::NonUtf8User))
            } else {
                match base64_decode_of(data) {
                    None => Some(Err(LegacyError::BadData)),
                    Some(bytes) => match old_entry_spec(ty, bytes, decode_utf8(user)) {
                        Err(e) => Some(Err(e)),
                        Ok(e) => Some(Ok((decode_utf8(user), e))),
                    },
                }
            }
        }
    }
}

/// Reads one line of the version 1 file.
fn parse_line(line: &[u8]) -> (r: Result<Option<(String, TfaUserData)>, LegacyError>)
    ensures
        match (r, line_spec(line@)) {
            (Ok(None), None) => true,
            (Ok(Some((u, d))), Some(Ok((uv, e)))) => u@ == uv && user_holds(d, e),
            (Err(a), Some(Err(b))) => a == b,
            _ => false,
        },
{
    let line = trim_ascii_whitespace(line);
    if line.len() == 0 || line[0] == 0x23u8 {
        return Ok(None);
    }
    let c1 = position_of(line, 0x3au8, 0);
    if c1 >= line.len() {
        return Err(LegacyError::BadLine);
    }
    let c2 = position_of(line, 0x3au8, c1 + 1);
    if c2 >= line.len() {
        return Err(LegacyError::BadLine);
    }
    proof {
        lemma_find_byte(line@, 0x3au8, 0);
        lemma_find_byte(line@, 0x3au8, c1 + 1);
    }
    let user = match utf8_to_string(&line[0..c1]) {
        Some(u) => u,
        None => return Err(LegacyError::NonUtf8User),
    };
    let data = match base64_decode(&line[c2 + 1..line.len()]) {
        Some(d) => d,
        None => return Err(LegacyError::BadData),
    };
    let entry = decode_old_entry(&line[c1 + 1..c2], data.as_slice(), user.as_str())?;
    Ok(Some((user, entry)))
}

/// Applies one line to the entries read so far; a later line of a user replaces an earlier.
pub open spec fn apply_line(acc: Map<Seq<char>, OldEntry>, line: Seq<u8>) -> Result<
    Map<Seq<char>, OldEntry>,
    LegacyError,
> {
    match line_spec(line) {
        None => Ok(acc),
        Some(Err(e)) => Err(e),
        Some(Ok((u, e))) => Ok(acc.insert(u, e)),
    }
}

/// Reads the lines of `data` from the one that starts at `start`, scanning on from `i`.
pub open spec fn lines_from(
    data: Seq<u8>,
    start: int,
    i: int,
    acc: Map<Seq<char>, OldEntry>,
) -> Result<Map<Seq<char>, OldEntry>, LegacyError>
    decreases data.len() - i,
{
    if i >= data.len() {
        apply_line(acc, data.subrange(start, data.len() as int))
    } else if data[i] == 0x0au8 {
        match apply_line(acc, data.subrange(start, i)) {
            Err(e) => Err(e),
            Ok(a) => lines_from(data, i + 1, i + 1, a),
        }
    } else {
        lines_from(data, start, i + 1, acc)
    }
}

/// The entries of a version 1 file by user, or the error of its first bad line.
pub open spec fn old_config_spec(data: Seq<u8>) -> Result<Map<Seq<char>, OldEntry>, LegacyError> {
    lines_from(data, 0, 0, Map::empty())
}

/// `c` holds, for each user, the record that the user's entry becomes.
pub open spec fn config_holds(c: TfaConfig, m: Map<Seq<char>, OldEntry>) -> bool {
    &&& c.wf()
    &&& c.user_map().dom() == m.dom()
    &&& forall|u: Seq<char>| #[trigger] m.contains_key(u) ==> user_holds(c.user_map()[u], m[u])
}

/// Reads a version 1 `tfa.cfg`: one `USER:TYPE:BASE64(JSON)` line per user, blank lines and
/// `#` comments skipped, ASCII white space around each line ignored.
pub fn parse_old_config(data: &[u8]) -> (r: Result<TfaConfig, LegacyError>)
    ensures
        match (r, old_config_spec(data@)) {
            (Ok(c), Ok(m)) => config_holds(c, m),
            (Err(a), Err(b)) => a == b,
            _ => false,
        },
{
    let mut config = TfaConfig::new();
    let ghost mut acc: Map<Seq<char>, OldEntry> = Map::empty();
    let mut start: usize = 0;
    let mut i: usize = 0;
    assert(config.user_map().dom() =~= acc.dom());
    while i < data.len()
        invariant
            start <= i <= data@.len(),
            config_holds(config, acc),
            old_config_spec(data@) == lines_from(data@, start as int, i as int, acc),
        decreases data.len() - i,
    {
        if data[i] == 0x0au8 {
            match parse_line(&data[start..i]) {
                Err(e) => return Err(e),
                Ok(None) => {},
                Ok(Some((user, entry))) => {
                    let ghost uv = user@;
                    let ghost prev = config.user_map();
                    config.insert_user(user, entry);
                    proof {
                        let e = line_spec(data@.subrange(start as int, i as int))->Some_0->Ok_0.1;
                        acc = acc.insert(uv, e);
                        assert(config.user_map().dom() =~= acc.dom());
                    }
                },
            }
            start = i + 1;
        }
        i = i + 1;
    }
    match parse_line(&data[start..data.len()]) {
        Err(e) => return Err(e),
        Ok(None) => {},
        Ok(Some((user, entry))) => {
            let ghost uv = user@;
            config.insert_user(user, entry);
            proof {
                let e = line_spec(data@.subrange(start as int, data@.len() as int))->Some_0->Ok_0.1;
                acc = acc.insert(uv, e);
                assert(config.user_map().dom() =~= acc.dom());
            }
        },
    }
    Ok(config)
}

} // verus!
