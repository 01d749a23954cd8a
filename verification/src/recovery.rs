use vstd::prelude::*;

verus! {

/// A polynomial of secret keys from which every node's share is drawn; held
/// opaquely.
#[verifier::external_body]
pub struct SecretKeySet {
    inner: threshold_crypto::SecretKeySet,
}

/// The public commitments matching a SecretKeySet.
#[verifier::external_body]
pub struct PublicKeySet {
    inner: threshold_crypto::PublicKeySet,
}

/// One node's share of the group secret key.
#[verifier::external_body]
pub struct SecretKeyShare {
    inner: threshold_crypto::SecretKeyShare,
}

/// The root account's signing key.
#[verifier::external_body]
pub struct RootSecretKey {
    inner: ed25519_dalek::SecretKey,
}

/// Relies on threshold_crypto's SecretKeySet::random with the thread rng: a
/// fresh random key set of the given degree; nothing is promised of its
/// value.  The largest usize is refused by the source (one more coefficient
/// than fits), and it panics there, so that degree is excluded.
#[verifier::external_body]
fn random_secret_key_set(degree: usize) -> SecretKeySet
    requires
        degree < usize::MAX,
{
    SecretKeySet { inner: threshold_crypto::SecretKeySet::random(degree, &mut rand::thread_rng()) }
}

/// Relies on SecretKeySet::secret_key_share: the i-th share of the set.
#[verifier::external_body]
fn secret_key_share_of(set: &SecretKeySet, i: usize) -> SecretKeyShare {
    SecretKeyShare { inner: set.inner.secret_key_share(i) }
}

/// Relies on SecretKeySet::public_keys: the public commitments of the set.
#[verifier::external_body]
fn public_keys_of(set: &SecretKeySet) -> PublicKeySet {
    PublicKeySet { inner: set.inner.public_keys() }
}

/// Relies on ed25519_dalek's SecretKey::generate over the operating system
/// rng: a fresh random signing key.
#[verifier::external_body]
fn random_root_secret_key() -> RootSecretKey {
    let mut csprng = rand::rngs::OsRng;
    RootSecretKey { inner: ed25519_dalek::SecretKey::generate(&mut csprng) }
}

/// Set a fresh random threshold key up: the public key set, one secret share
/// per node for nodes 1 through n, and a fresh root signing key.  Any t of
/// the n shares can later sign together.
pub fn generate(n: usize, t: usize) -> (r: (PublicKeySet, Vec<SecretKeyShare>, RootSecretKey))
    requires
        t >= 1,
    ensures
        r.1@.len() == n,
{
    let sk_set = random_secret_key_set(t - 1);
    let pk_set = public_keys_of(&sk_set);
    let mut sk_shares: Vec<SecretKeyShare> = Vec::new();
    let mut i: usize = 0;
    while i < n
        invariant
            0 <= i <= n,
            sk_shares@.len() == i,
        decreases n - i,
    {
        let sk_share = secret_key_share_of(&sk_set, i + 1);
        sk_shares.push(sk_share);
        i = i + 1;
    }
    let root_secret_key = random_root_secret_key();
    (pk_set, sk_shares, root_secret_key)
}

} // verus!
