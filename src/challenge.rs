//! The rules of the per-user challenge store: where a user's file lives, and what opening it
//! gives for what was found on disk.

use vstd::prelude::*;
use vstd::string::StringExecFns;

verus! {

/// The mode of the directories that hold challenge files.
pub const CHALLENGE_DIR_MODE: u32 = 0o700;

/// The mode of a challenge file.
pub const CHALLENGE_FILE_MODE: u32 = 0o600;

/// The product whose runtime directories hold the challenge files.
#[derive(Clone, Copy, Debug, PartialEq, Eq, Structural)]
pub enum Product {
    /// Proxmox VE.
    Pve,
    /// Proxmox Mail Gateway.
    Pmg,
}

/// The product's private runtime directory.
pub open spec fn private_dir_spec(product: Product) -> Seq<char> {
    match product {
        Product::Pve => "/run/pve-private"@,
        Product::Pmg => "/run/pmg-private"@,
    }
}

/// The directory of the challenge files; in debug mode one relative to the working directory.
pub open spec fn challenge_dir_spec(product: Product, debug: bool) -> Seq<char> {
    if debug {
        "./local-tfa-challenges"@
    } else {
        match product {
            Product::Pve => "/run/pve-private/tfa-challenges"@,
            Product::Pmg => "/run/pmg-private/tfa-challenges"@,
        }
    }
}

fn challenge_dir(product: Product, debug: bool) -> (r: String)
    ensures
        r@ == challenge_dir_spec(product, debug),
{
    if debug {
        "./local-tfa-challenges".to_owned()
    } else {
        match product {
            Product::Pve => "/run/pve-private/tfa-challenges".to_owned(),
            Product::Pmg => "/run/pmg-private/tfa-challenges".to_owned(),
        }
    }
}

/// The path of the file that holds the challenge data of `userid`.
pub fn challenge_data_path(userid: &str, product: Product, debug: bool) -> (r: String)
    ensures
        r@ == challenge_dir_spec(product, debug) + seq!['/'] + userid@,
{
    let mut path = challenge_dir(product, debug);
    path.append("/");
    proof {
        reveal_strlit("/");
    }
    path.append(userid);
    path
}

/// The directories to create, in order, before a challenge file is opened.
pub fn challenge_dirs(product: Product, debug: bool) -> (r: Vec<String>)
    ensures
        debug ==> r@.len() == 1 && r@[0]@ == challenge_dir_spec(product, true),
        !debug ==> r@.len() == 2 && r@[0]@ == private_dir_spec(product) && r@[1]@
            == challenge_dir_spec(product, false),
{
    let mut dirs: Vec<String> = Vec::new();
    if !debug {
        let private = match product {
            Product::Pve => "/run/pve-private".to_owned(),
            Product::Pmg => "/run/pmg-private".to_owned(),
        };
        dirs.push(private);
    }
    dirs.push(challenge_dir(product, debug));
    dirs
}

/// What reading a user's challenge file found.
#[derive(Clone, Copy, Debug, PartialEq, Eq, Structural)]
pub enum StoredChallenge {
    /// There is no file.
    Missing,
    /// The file is empty.
    Empty,
    /// The file holds challenge data that parses.
    Valid,
    /// The file holds something that does not parse.
    Corrupt,
}

/// What opening the challenge store of a user gives.
#[derive(Clone, Copy, Debug, PartialEq, Eq, Structural)]
pub enum ChallengeOpen {
    /// No handle: the user never had a challenge stored, and none is to be created.
    NoHandle,
    /// A handle on empty challenge data; `warn` where unreadable data was dropped.
    Fresh { warn: bool },
    /// A handle on the stored challenge data.
    Stored,
}

/// How opening a user's challenge store proceeds for what was found, where `create` tells
/// whether a missing file is created. Unreadable data only loses challenges that can be
/// issued again, so it counts as empty, with a warning.
pub fn challenge_open_action(found: StoredChallenge, create: bool) -> (r: ChallengeOpen)
    ensures
        r == match found {
            StoredChallenge::Missing => if create {
                ChallengeOpen::Fresh { warn: false }
            } else {
                ChallengeOpen::NoHandle
            },
            StoredChallenge::Empty => ChallengeOpen::Fresh { warn: false },
            StoredChallenge::Valid => ChallengeOpen::Stored,
            StoredChallenge::Corrupt => ChallengeOpen::Fresh { warn: true },
        },
{
    match found {
        StoredChallenge::Missing => if create {
            ChallengeOpen::Fresh { warn: false }
        } else {
            ChallengeOpen::NoHandle
        },
        StoredChallenge::Empty => ChallengeOpen::Fresh { warn: false },
        StoredChallenge::Valid => ChallengeOpen::Stored,
        StoredChallenge::Corrupt => ChallengeOpen::Fresh { warn: true },
    }
}

} // verus!
