//! The credential data model: a secret is either a plaintext password or a
//! raw password-hash digest, and a credential pair joins one username with
//! one secret. Each carries the human-readable rendering the attempt loop
//! reports.

use vstd::prelude::*;

use crate::hex::hex_encode;
use crate::hex::bytes_to_hex;

verus! {

/// A secret to authenticate with: a password used verbatim, or the raw bytes
/// of a password-hash digest decoded from hex text.
#[derive(Debug)]
pub enum Secret {
    Password(String),
    HashDigest(Vec<u8>),
}

/// The mathematical model of a [`Secret`].
pub enum SecretView {
    Password(Seq<char>),
    HashDigest(Seq<u8>),
}

impl View for Secret {
    type V = SecretView;

    open spec fn view(&self) -> SecretView {
        match self {
            Secret::Password(p) => SecretView::Password(p@),
            Secret::HashDigest(b) => SecretView::HashDigest(b@),
        }
    }
}

/// One username joined with one secret; immutable once constructed.
#[derive(Debug)]
pub struct CredentialPair {
    pub username: String,
    pub secret: Secret,
}

/// The mathematical model of a [`CredentialPair`].
pub struct CredentialPairView {
    pub username: Seq<char>,
    pub secret: SecretView,
}

impl View for CredentialPair {
    type V = CredentialPairView;

    open spec fn view(&self) -> CredentialPairView {
        CredentialPairView { username: self.username@, secret: self.secret@ }
    }
}

pub(crate) fn clone_bytes(v: &Vec<u8>) -> (r: Vec<u8>)
    ensures
        r@ == v@,
{
    let mut r: Vec<u8> = Vec::new();
    let mut i: usize = 0;
    while i < v.len()
        invariant
            i <= v@.len(),
            r@ == v@.subrange(0, i as int),
        decreases v@.len() - i,
    {
        r.push(v[i]);
        proof {
            assert(r@ =~= v@.subrange(0, i as int + 1));
        }
        i = i + 1;
    }
    proof {
        assert(v@.subrange(0, v@.len() as int) =~= v@);
    }
    r
}

impl Clone for Secret {
    /// Cloning a secret keeps its variant and its value.
    fn clone(&self) -> (r: Self)
        ensures
            r@ == self@,
    {
        match self {
            Secret::Password(p) => Secret::Password(p.clone()),
            Secret::HashDigest(b) => Secret::HashDigest(clone_bytes(b)),
        }
    }
}

impl Clone for CredentialPair {
    /// Cloning a pair keeps its username and its secret.
    fn clone(&self) -> (r: Self)
        ensures
            r@ == self@,
    {
        CredentialPair { username: self.username.clone(), secret: self.secret.clone() }
    }
}

/// The rendering of a secret: a password appears verbatim between quotes, a
/// digest as its lowercase hex encoding.
pub open spec fn render_secret_spec(s: SecretView) -> Seq<char> {
    match s {
        SecretView::Password(p) => "[pass: '"@ + p + "']"@,
        SecretView::HashDigest(b) => "[nlm: "@ + hex_encode(b) + "]"@,
    }
}

/// The rendering of a credential pair: its username and its secret's
/// rendering.
pub open spec fn render_pair_spec(p: CredentialPairView) -> Seq<char> {
    "<user: "@ + p.username + ", secret: "@ + render_secret_spec(p.secret) + ">"@
}

impl Secret {
    /// The human-readable rendering of this secret.
    pub fn render(&self) -> (r: String)
        ensures
            r@ == render_secret_spec(self@),
    {
        match self {
            Secret::Password(p) => {
                let mut out = String::new();
                out.append("[pass: '");
                out.append(p.as_str());
                out.append("']");
                proof {
                    assert(out@ =~= render_secret_spec(self@));
                }
                out
            },
            Secret::HashDigest(b) => {
                let mut out = String::new();
                out.append("[nlm: ");
                let hexed = bytes_to_hex(b.as_slice());
                out.append(hexed.as_str());
                out.append("]");
                proof {
                    assert(out@ =~= render_secret_spec(self@));
                }
                out
            },
        }
    }
}

impl CredentialPair {
    /// The human-readable rendering of this pair.
    pub fn render(&self) -> (r: String)
        ensures
            r@ == render_pair_spec(self@),
    {
        let mut out = String::new();
        out.append("<user: ");
        out.append(self.username.as_str());
        out.append(", secret: ");
        let sec = self.secret.render();
        out.append(sec.as_str());
        out.append(">");
        proof {
            assert(out@ =~= render_pair_spec(self@));
        }
        out
    }
}

} // verus!
