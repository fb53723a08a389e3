//! Credential policy: an application may run whether or not it is signed,
//! and only one whose signature was accepted gets a fixed identity.
//!
//! The identity is what grants privilege (the reboot driver checks it), and
//! its equality is what keeps that safe: two identities are equal only when
//! both are fixed and carry the same number. An unsigned application is
//! locally unique and equals nothing, not even another unsigned one.
use vstd::prelude::*;
use crate::error::ErrorCode;
use vstd::string::StringSliceAdditionalSpecFns;

verus! {

/// FNV-1a offset basis.
pub const FNV_OFFSET: u32 = 0x811C_9DC5;

/// FNV-1a prime.
pub const FNV_PRIME: u32 = 0x0100_0193;

/// An application's identity.
#[derive(Clone, Copy, Debug)]
pub enum ShortId {
    /// Unique to this process; equal to no identity.
    LocallyUnique,
    /// A fixed, non-zero identity.
    Fixed(u32),
}

/// Identity equality: both fixed, with the same number.
pub open spec fn spec_same_id(a: ShortId, b: ShortId) -> bool {
    match (a, b) {
        (ShortId::Fixed(x), ShortId::Fixed(y)) => x == y,
        _ => false,
    }
}

impl ShortId {
    /// Identity equality: both fixed, with the same number.
    pub fn same_id(&self, other: &ShortId) -> (r: bool)
        ensures
            r == spec_same_id(*self, *other),
    {
        match (self, other) {
            (ShortId::Fixed(x), ShortId::Fixed(y)) => *x == *y,
            _ => false,
        }
    }
}

/// FNV-1a over `bytes`, 32 bits: start from the offset basis; for each byte,
/// xor it in and multiply by the prime, modulo 2^32.
pub open spec fn fnv1a(bytes: Seq<u8>) -> u32
    decreases bytes.len(),
{
    if bytes.len() == 0 {
        FNV_OFFSET
    } else {
        (((fnv1a(bytes.drop_last()) ^ (bytes.last() as u32)) as nat * FNV_PRIME as nat) % 0x1_0000_0000) as u32
    }
}

/// The identity number for a package name: its FNV-1a hash, with zero (not
/// a legal fixed identity) replaced by one.
pub open spec fn spec_name_id(bytes: Seq<u8>) -> u32 {
    if fnv1a(bytes) == 0 {
        1
    } else {
        fnv1a(bytes)
    }
}

/// What the policy needs to know of an application binary.
pub struct AppBinary {
    /// Whether one of its credentials was accepted, which on this board
    /// means a verified signature.
    pub credential_accepted: bool,
    /// The package name from its header, if it has one.
    pub package_name: Option<String>,
}

/// The bytes of an application's package name, empty without one.
pub open spec fn name_bytes(app: &AppBinary) -> Seq<u8> {
    match &app.package_name {
        Some(n) => vstd::utf8::encode_utf8(n@),
        None => Seq::empty(),
    }
}

/// The identity of an application: fixed, from its package name, when a
/// credential was accepted; locally unique otherwise.
pub open spec fn spec_short_id(app: &AppBinary) -> ShortId {
    if app.credential_accepted {
        ShortId::Fixed(spec_name_id(name_bytes(app)))
    } else {
        ShortId::LocallyUnique
    }
}

/// Grants fixed identities to signed applications only.
pub struct SignedAppIdAssigner {}

impl SignedAppIdAssigner {
    pub fn new() -> (r: SignedAppIdAssigner) {
        SignedAppIdAssigner {  }
    }

    /// FNV-1a over the package name's bytes; zero, not a legal fixed
    /// identity, becomes one.
    pub fn name_id(name: &str) -> (r: u32)
        ensures
            r == spec_name_id(name.spec_bytes()),
            r != 0,
    {
        let bytes = name.as_bytes();
        let mut hash: u32 = FNV_OFFSET;
        let mut i: usize = 0;
        while i < bytes.len()
            invariant
                i <= bytes@.len(),
                hash == fnv1a(bytes@.subrange(0, i as int)),
            decreases bytes@.len() - i,
        {
            let ghost prefix = bytes@.subrange(0, i as int);
            assert(bytes@.subrange(0, i + 1).drop_last() =~= prefix);
            hash = hash ^ (bytes[i] as u32);
            hash = hash.wrapping_mul(FNV_PRIME);
            i = i + 1;
        }
        assert(bytes@.subrange(0, bytes@.len() as int) =~= bytes@);
        if hash == 0 {
            1
        } else {
            hash
        }
    }

    /// The identity of `app`: fixed, from its package name (empty when it
    /// has none), when a credential was accepted; locally unique otherwise.
    #[verifier::rlimit(30)]
    pub fn to_short_id(&self, app: &AppBinary) -> (r: ShortId)
        ensures
            r == spec_short_id(app),
    {
        if app.credential_accepted {
            match &app.package_name {
                Some(n) => {
                    let s = n.as_str();
                    let id = SignedAppIdAssigner::name_id(s);
                    assert(s.spec_bytes() == vstd::utf8::encode_utf8(n@));
                    ShortId::Fixed(id)
                },
                None => {
                    let e = "";
                    proof {
                        reveal_strlit("");
                        assert(e@ =~= Seq::<char>::empty());
                        assert(vstd::utf8::encode_utf8(e@) =~= Seq::<u8>::empty());
                    }
                    let id = SignedAppIdAssigner::name_id(e);
                    ShortId::Fixed(id)
                },
            }
        } else {
            ShortId::LocallyUnique
        }
    }

    /// Whether two binaries have different identities.
    pub fn different_identifier(&self, a: &AppBinary, b: &AppBinary) -> (r: bool)
        ensures
            r == !spec_same_id(spec_short_id(a), spec_short_id(b)),
    {
        let x = self.to_short_id(a);
        let y = self.to_short_id(b);
        !x.same_id(&y)
    }

    /// Whether a binary's identity differs from a running process's `b`.
    pub fn different_identifier_process(&self, a: &AppBinary, b: ShortId) -> (r: bool)
        ensures
            r == !spec_same_id(spec_short_id(a), b),
    {
        let x = self.to_short_id(a);
        !x.same_id(&b)
    }

    /// Whether two running processes' identities differ.
    pub fn different_identifier_processes(&self, a: ShortId, b: ShortId) -> (r: bool)
        ensures
            r == !spec_same_id(a, b),
    {
        !a.same_id(&b)
    }
}

/// A credential found in an application's footer.
pub struct Credentials {
    pub format: u32,
    pub data: Vec<u8>,
}

/// The outcome of checking one credential.
#[derive(Clone, Copy, Debug, PartialEq, Eq, Structural)]
pub enum CheckResult {
    Accept,
    Pass,
    Reject,
}

/// A policy that checks application credentials, answering later through
/// `check_done`.
pub trait AppCredentialsPolicy {
    /// Register the client that hears of finished checks.
    fn set_client(&mut self);

    /// Whether an application without an accepted credential may not run.
    fn require_credentials(&self) -> bool;

    /// Start checking `credentials` over `integrity_region`; a check that
    /// cannot start hands them back with the error.
    fn check_credentials(&self, credentials: Credentials, integrity_region: &[u8]) -> Result<
        (),
        (ErrorCode, Credentials),
    >;
}

/// A credential check result on its way to the client.
pub struct CheckDone {
    pub result: Result<CheckResult, ErrorCode>,
    pub credentials: Credentials,
}

/// Wraps a credential checker so that a missing credential is not fatal:
/// everything is the inner policy's, except that credentials are not
/// required. An application with none, or whose credentials were all
/// passed over, still runs, without a fixed identity.
pub struct OptionalCredentials<P: AppCredentialsPolicy> {
    pub inner: P,
    /// Whether a client is registered.
    pub client: bool,
}

impl<P: AppCredentialsPolicy> OptionalCredentials<P> {
    pub fn new(inner: P) -> (r: Self)
        ensures
            r.inner == inner,
            !r.client,
    {
        OptionalCredentials { inner, client: false }
    }

    /// Interpose on the inner policy's callbacks: become its client. Call
    /// once.
    pub fn setup(&mut self)
        ensures
            final(self).client == old(self).client,
    {
        self.inner.set_client();
    }

    /// Register the client.
    pub fn set_client(&mut self)
        ensures
            final(self).client,
            final(self).inner == old(self).inner,
    {
        self.client = true;
    }

    /// Unsigned applications may run.
    pub fn require_credentials(&self) -> (r: bool)
        ensures
            !r,
    {
        false
    }

    /// Check a credential with the inner policy.
    pub fn check_credentials(&self, credentials: Credentials, integrity_region: &[u8]) -> (r: Result<
        (),
        (ErrorCode, Credentials),
    >) {
        self.inner.check_credentials(credentials, integrity_region)
    }

    /// The inner policy finished a check: pass it on to the client, if any.
    pub fn check_done(&self, result: Result<CheckResult, ErrorCode>, credentials: Credentials) -> (r: Option<
        CheckDone,
    >)
        ensures
            self.client ==> (r matches Some(d) && d.result == result && d.credentials.format
                == credentials.format && d.credentials.data@ == credentials.data@),
            !self.client ==> r is None,
    {
        if self.client {
            Some(CheckDone { result, credentials })
        } else {
            None
        }
    }
}

/// An application without an accepted credential gets an identity equal to
/// no identity at all, so it can never pass an identity check, and any
/// number of such applications can run side by side.
pub proof fn unsigned_matches_nothing(app: &AppBinary, other: ShortId)
    requires
        !app.credential_accepted,
    ensures
        !spec_same_id(spec_short_id(app), other),
        !spec_same_id(other, spec_short_id(app)),
{
}

/// A signed application's identity is fixed and never zero, and depends on
/// its package name alone: two signed applications with the same name
/// conflict, so the kernel will not run both.
pub proof fn signed_identity_from_name(a: &AppBinary, b: &AppBinary)
    requires
        a.credential_accepted,
        b.credential_accepted,
    ensures
        spec_short_id(a) matches ShortId::Fixed(x) && x != 0,
        name_bytes(a) == name_bytes(b) ==> spec_same_id(spec_short_id(a), spec_short_id(b)),
{
}

} // verus!
