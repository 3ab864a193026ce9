//! Session lifecycle: where a profile's state lives, and what setting it up came to.
//!
//! Credentials never go in the configuration file. The access token and the encryption state
//! live together in the store of the profile.

use vstd::prelude::*;
use vstd::string::*;

use crate::paths::{join_path, joined, law_names_do_not_share_a_path};

verus! {

/// Where a profile's persistent state lives.
#[derive(Debug, PartialEq, Eq)]
pub struct Paths {
    /// State and encryption store.
    pub store: String,
    /// The serialised session.
    pub session: String,
}

/// The mathematical content of a [`Paths`].
#[verifier::ext_equal]
pub struct PathsModel {
    pub store: Seq<char>,
    pub session: Seq<char>,
}

impl View for Paths {
    type V = PathsModel;

    open spec fn view(&self) -> PathsModel {
        PathsModel {
            store: self.store@,
            session: self.session@,
        }
    }
}

impl DeepView for Paths {
    type V = PathsModel;

    open spec fn deep_view(&self) -> PathsModel {
        self@
    }
}

impl Clone for Paths {
    fn clone(&self) -> (r: Self)
        ensures
            r@ == self@,
    {
        let r = Paths {
            store: self.store.clone(),
            session: self.session.clone(),
        };
        r
    }
}

/// Errors raised while establishing a session.
#[derive(Debug, PartialEq, Eq)]
pub enum SessionError {
    /// No session was saved for this profile.
    NoSavedSession(String),
    /// The saved session of this profile cannot be read, for a reason.
    CorruptSession { profile: String, source: String },
    /// The homeserver, or the protocol, refused.
    Matrix(String),
    /// The client could not be built.
    Build(String),
    /// The file system refused.
    Io { path: String, source: String },
}

/// The mathematical content of a [`SessionError`].
#[verifier::ext_equal]
pub enum SessionErrorModel {
    NoSavedSession(Seq<char>),
    CorruptSession { profile: Seq<char>, source: Seq<char> },
    Matrix(Seq<char>),
    Build(Seq<char>),
    Io { path: Seq<char>, source: Seq<char> },
}

impl View for SessionError {
    type V = SessionErrorModel;

    open spec fn view(&self) -> SessionErrorModel {
        match self {
            SessionError::NoSavedSession(a) => SessionErrorModel::NoSavedSession(a@),
            SessionError::CorruptSession { profile, source } => SessionErrorModel::CorruptSession {
                profile: profile@,
                source: source@,
            },
            SessionError::Matrix(a) => SessionErrorModel::Matrix(a@),
            SessionError::Build(a) => SessionErrorModel::Build(a@),
            SessionError::Io { path, source } => SessionErrorModel::Io { path: path@, source: source@ },
        }
    }
}

impl DeepView for SessionError {
    type V = SessionErrorModel;

    open spec fn deep_view(&self) -> SessionErrorModel {
        self@
    }
}

impl Clone for SessionError {
    fn clone(&self) -> (r: Self)
        ensures
            r@ == self@,
    {
        let r = match self {
            SessionError::NoSavedSession(a) => SessionError::NoSavedSession(a.clone()),
            SessionError::CorruptSession { profile, source } => SessionError::CorruptSession {
                profile: profile.clone(),
                source: source.clone(),
            },
            SessionError::Matrix(a) => SessionError::Matrix(a.clone()),
            SessionError::Build(a) => SessionError::Build(a.clone()),
            SessionError::Io { path, source } => SessionError::Io { path: path.clone(), source: source.clone() },
        };
        assert(r@ =~~= self@);
        r
    }
}

/// What a cross-signing bootstrap did, so the caller can say so plainly.
#[derive(Debug, Clone, Copy, PartialEq, Eq, Structural)]
pub enum CrossSigning {
    /// The account already had an identity; nothing was uploaded.
    AlreadyPresent,
    /// A new identity was created, signed by this device, and uploaded.
    Created,
    /// The homeserver demanded an auth flow a password cannot satisfy. Not an error: the session
    /// is valid and usable, it simply has no cross-signing identity yet.
    NeedsInteractiveAuth,
}

/// How an attempt to upload a cross-signing identity ended.
#[derive(Debug, Clone, Copy, PartialEq, Eq, Structural)]
pub enum Attempt {
    /// The server took it, or there was nothing to upload.
    Accepted,
    /// The server asks for proof of who we are.
    Challenged,
    /// It failed for another reason.
    Failed,
}

/// Which halves of the identity's private keys this device holds.
#[derive(Debug, Clone, Copy, PartialEq, Eq, Structural)]
pub struct HeldKeys {
    pub master: bool,
    pub self_signing: bool,
    pub user_signing: bool,
}

/// What a bootstrap does next.
#[derive(Debug, Clone, Copy, PartialEq, Eq, Structural)]
pub enum Bootstrap {
    /// It is done.
    Report(CrossSigning),
    /// Try again, with the password this time.
    Answer,
    /// Give up with the error of the attempt.
    Fail,
}

/// The directory of a profile.
pub open spec fn profile_dir(data_dir: Seq<char>, profile: Seq<char>) -> Seq<char> {
    joined(joined(data_dir, "profiles"@), profile)
}

impl Paths {
    /// Resolve the paths for a named profile beneath a data directory.
    pub fn for_profile(data_dir: &str, profile: &str) -> (r: Self)
        ensures
            r@ == (PathsModel {
                store: joined(profile_dir(data_dir@, profile@), "store"@),
                session: joined(profile_dir(data_dir@, profile@), "session.json"@),
            }),
    {
        let profiles = join_path(data_dir, "profiles");
        let root = join_path(profiles.as_str(), profile);
        Paths { store: join_path(root.as_str(), "store"), session: join_path(root.as_str(), "session.json") }
    }

    /// Where a session is written before it takes the place of the last one, so that an
    /// interrupted write cannot leave a truncated session.
    pub fn temporary(&self) -> (r: String)
        ensures
            r@ == self@.session + ".tmp"@,
    {
        let mut path = self.session.clone();
        path.append(".tmp");
        path
    }
}

/// Two profiles, in directories of their own, share neither store nor session.
pub proof fn law_profiles_do_not_share_state(data_dir: Seq<char>, a: Seq<char>, b: Seq<char>)
    requires
        a != b,
        plain_name(a),
        plain_name(b),
    ensures
        joined(profile_dir(data_dir, a), "store"@) != joined(profile_dir(data_dir, b), "store"@),
        joined(profile_dir(data_dir, a), "session.json"@) != joined(profile_dir(data_dir, b), "session.json"@),
{
    reveal_strlit("store");
    reveal_strlit("session.json");
    let base = joined(data_dir, "profiles"@);
    if joined(base, a) == joined(base, b) {
        law_names_do_not_share_a_path(base, a, b);
    }
    lemma_apart(joined(base, a), joined(base, b), "store"@);
    lemma_apart(joined(base, a), joined(base, b), "session.json"@);
}

/// A name that is no path: not empty, and without a separator at either end.
pub open spec fn plain_name(name: Seq<char>) -> bool {
    name.len() > 0 && name[0] != '/' && name.last() != '/'
}

/// One leaf below two different directories is two different paths.
proof fn lemma_apart(a: Seq<char>, b: Seq<char>, leaf: Seq<char>)
    requires
        a != b,
        a.len() > 0,
        b.len() > 0,
        a.last() != '/',
        b.last() != '/',
        leaf.len() > 0,
        leaf[0] != '/',
    ensures
        joined(a, leaf) != joined(b, leaf),
{
    if joined(a, leaf) == joined(b, leaf) {
        let path = joined(a, leaf);
        let n = path.len() - leaf.len() - 1;
        assert(path.take(n) =~= a);
        assert(path.take(n) =~= b);
    }
}

impl SessionErrorModel {
    /// What the user is told.
    pub open spec fn message(self) -> Seq<char> {
        match self {
            SessionErrorModel::NoSavedSession(profile) => "no saved session for profile `"@ + profile
                + "`; run `heddle login`"@,
            SessionErrorModel::CorruptSession { profile, source } => "saved session for profile `"@ + profile
                + "` is unreadable: "@ + source,
            SessionErrorModel::Matrix(source) => "matrix error: "@ + source,
            SessionErrorModel::Build(source) => "failed to build client: "@ + source,
            SessionErrorModel::Io { path, source } => "io error at "@ + path + ": "@ + source,
        }
    }
}

impl SessionError {
    /// What the user is told.
    pub fn message(&self) -> (r: String)
        ensures
            r@ == self@.message(),
    {
        match self {
            SessionError::NoSavedSession(profile) => {
                let mut s = "no saved session for profile `".to_owned();
                s.append(profile.as_str());
                s.append("`; run `heddle login`");
                s
            },
            SessionError::CorruptSession { profile, source } => {
                let mut s = "saved session for profile `".to_owned();
                s.append(profile.as_str());
                s.append("` is unreadable: ");
                s.append(source.as_str());
                s
            },
            SessionError::Matrix(source) => {
                let mut s = "matrix error: ".to_owned();
                s.append(source.as_str());
                s
            },
            SessionError::Build(source) => {
                let mut s = "failed to build client: ".to_owned();
                s.append(source.as_str());
                s
            },
            SessionError::Io { path, source } => {
                let mut s = "io error at ".to_owned();
                s.append(path.as_str());
                s.append(": ");
                s.append(source.as_str());
                s
            },
        }
    }
}

/// What is reported when the bootstrap succeeded without a challenge.
pub open spec fn minted(held: Option<HeldKeys>) -> CrossSigning {
    match held {
        Some(keys) => if keys.master && keys.self_signing && keys.user_signing {
            CrossSigning::Created
        } else {
            CrossSigning::AlreadyPresent
        },
        None => CrossSigning::AlreadyPresent,
    }
}

/// Decide what to report when the bootstrap succeeded without a challenge.
///
/// Holding all three secret halves locally means this device minted the identity; an account
/// that merely already had one leaves the private keys on whichever device did.
pub fn already_or_created(held: Option<HeldKeys>) -> (r: CrossSigning)
    ensures
        r == minted(held),
{
    match held {
        Some(keys) => if keys.master && keys.self_signing && keys.user_signing {
            CrossSigning::Created
        } else {
            CrossSigning::AlreadyPresent
        },
        None => CrossSigning::AlreadyPresent,
    }
}

/// What a bootstrap does after an attempt. The first goes without a password, because the
/// challenge to it carries what the second must quote; a server that wants another flow is
/// reported, not failed.
pub open spec fn bootstrap_after(answered: bool, attempt: Attempt, held: Option<HeldKeys>) -> Bootstrap {
    match attempt {
        Attempt::Accepted => if answered {
            Bootstrap::Report(CrossSigning::Created)
        } else {
            Bootstrap::Report(minted(held))
        },
        Attempt::Challenged => if answered {
            Bootstrap::Report(CrossSigning::NeedsInteractiveAuth)
        } else {
            Bootstrap::Answer
        },
        Attempt::Failed => Bootstrap::Fail,
    }
}

/// Decide what a bootstrap does after an attempt, the first of which goes without a password.
pub fn bootstrap_cross_signing(answered: bool, attempt: Attempt, held: Option<HeldKeys>) -> (r: Bootstrap)
    ensures
        r == bootstrap_after(answered, attempt, held),
{
    match attempt {
        Attempt::Accepted => if answered {
            Bootstrap::Report(CrossSigning::Created)
        } else {
            Bootstrap::Report(already_or_created(held))
        },
        Attempt::Challenged => if answered {
            Bootstrap::Report(CrossSigning::NeedsInteractiveAuth)
        } else {
            Bootstrap::Answer
        },
        Attempt::Failed => Bootstrap::Fail,
    }
}

/// The password is asked for once at most: after it was given, every end is final.
pub proof fn law_the_password_is_given_once(attempt: Attempt, held: Option<HeldKeys>)
    ensures
        !(bootstrap_after(true, attempt, held) is Answer),
{
}

} // verus!
