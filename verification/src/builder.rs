//! Credential-set construction: turns the configured username and secret
//! sources into the full ordered sequence of credential pairs to try.
//!
//! The order is fixed: password secrets before hash secrets; then, for a
//! single configured username, one pair per secret; then, for each username
//! of a configured username list in order, one pair per secret.

use vstd::prelude::*;

use crate::FatalError;
use crate::credentials::CredentialPair;
use crate::credentials::CredentialPairView;
use crate::credentials::Secret;
use crate::credentials::SecretView;
use crate::hex::hex_decode;
use crate::hex::hex_to_bytes;
use crate::hex::is_hex_seq;
use crate::text::lines_of;
use crate::text::load_lines;

verus! {

/// The secrets a password list yields: one password per line, in line order.
pub open spec fn password_secrets(lines: Seq<Seq<char>>) -> Seq<SecretView> {
    lines.map_values(|l: Seq<char>| SecretView::Password(l))
}

/// The secrets a hash list yields: each line hex-decoded, in line order.
pub open spec fn hash_secrets(lines: Seq<Seq<char>>) -> Seq<SecretView> {
    lines.map_values(|l: Seq<char>| SecretView::HashDigest(hex_decode(l)))
}

/// Every line of a hash list must be well-formed hex before any attempt is
/// made; one bad line fails the whole load.
pub open spec fn all_hex(lines: Seq<Seq<char>>) -> bool {
    forall|i: int| 0 <= i < lines.len() ==> is_hex_seq(#[trigger] lines[i])
}

/// One pair per secret, all sharing one username, in secrets order.
pub open spec fn pairs_for_username(u: Seq<char>, secrets: Seq<SecretView>) -> Seq<
    CredentialPairView,
> {
    secrets.map_values(|s: SecretView| CredentialPairView { username: u, secret: s })
}

/// The cross product of usernames and secrets, username-major then
/// secret-minor.
pub open spec fn cross_pairs(usernames: Seq<Seq<char>>, secrets: Seq<SecretView>) -> Seq<
    CredentialPairView,
>
    decreases usernames.len(),
{
    if usernames.len() == 0 {
        Seq::empty()
    } else {
        pairs_for_username(usernames[0], secrets) + cross_pairs(usernames.drop_first(), secrets)
    }
}

/// The lines of an optional source: none configured means no lines.
pub open spec fn opt_lines(text: Option<Seq<char>>) -> Seq<Seq<char>> {
    match text {
        Some(t) => lines_of(t),
        None => Seq::empty(),
    }
}

/// The full ordered secrets sequence of a run: password secrets first, hash
/// secrets after.
pub open spec fn secrets_of_sources(
    password_text: Option<Seq<char>>,
    hash_text: Option<Seq<char>>,
) -> Seq<SecretView> {
    password_secrets(opt_lines(password_text)) + hash_secrets(opt_lines(hash_text))
}

/// The whole credential set a configuration denotes: the single-username
/// block first, the username-list cross product after.
pub open spec fn build_spec(
    username: Option<Seq<char>>,
    username_list_text: Option<Seq<char>>,
    password_text: Option<Seq<char>>,
    hash_text: Option<Seq<char>>,
) -> Seq<CredentialPairView> {
    let secrets = secrets_of_sources(password_text, hash_text);
    (match username {
        Some(u) => pairs_for_username(u, secrets),
        None => Seq::empty(),
    }) + (match username_list_text {
        Some(t) => cross_pairs(lines_of(t), secrets),
        None => Seq::empty(),
    })
}

/// The view of an optional borrowed string.
pub open spec fn opt_view(o: Option<&String>) -> Option<Seq<char>> {
    match o {
        Some(s) => Some(s@),
        None => None,
    }
}

proof fn lemma_concat_push<A>(a: Seq<A>, b: Seq<A>, x: A)
    ensures
        (a + b).push(x) == a + b.push(x),
{
    assert((a + b).push(x) =~= a + b.push(x));
}

proof fn lemma_cross_push(usernames: Seq<Seq<char>>, u: Seq<char>, secrets: Seq<SecretView>)
    ensures
        cross_pairs(usernames.push(u), secrets) == cross_pairs(usernames, secrets)
            + pairs_for_username(u, secrets),
    decreases usernames.len(),
{
    let lifted = usernames.push(u);
    assert(lifted.len() == usernames.len() + 1);
    if usernames.len() == 0 {
        assert(lifted[0] == u);
        assert(lifted.drop_first() =~= Seq::<Seq<char>>::empty());
        assert(cross_pairs(lifted.drop_first(), secrets) == Seq::<CredentialPairView>::empty());
        assert(cross_pairs(lifted, secrets) == pairs_for_username(u, secrets) + Seq::<
            CredentialPairView,
        >::empty());
        assert(pairs_for_username(u, secrets) + Seq::<CredentialPairView>::empty()
            =~= pairs_for_username(u, secrets));
        assert(cross_pairs(usernames, secrets) == Seq::<CredentialPairView>::empty());
        assert(Seq::<CredentialPairView>::empty() + pairs_for_username(u, secrets)
            =~= pairs_for_username(u, secrets));
    } else {
        assert(lifted[0] == usernames[0]);
        assert(lifted.drop_first() =~= usernames.drop_first().push(u));
        lemma_cross_push(usernames.drop_first(), u, secrets);
        assert(cross_pairs(lifted, secrets) == pairs_for_username(usernames[0], secrets) + (
        cross_pairs(usernames.drop_first(), secrets) + pairs_for_username(u, secrets)));
        assert(pairs_for_username(usernames[0], secrets) + (cross_pairs(
            usernames.drop_first(),
            secrets,
        ) + pairs_for_username(u, secrets)) =~= (pairs_for_username(usernames[0], secrets)
            + cross_pairs(usernames.drop_first(), secrets)) + pairs_for_username(u, secrets));
    }
}

/// Appends one pair per secret for a fixed username.
fn push_pairs_for_username(
    out: &mut Vec<CredentialPair>,
    username: &String,
    secrets: &Vec<Secret>,
)
    ensures
        final(out)@.map_values(|p: CredentialPair| p@) == old(out)@.map_values(
            |p: CredentialPair| p@,
        ) + pairs_for_username(username@, secrets@.map_values(|s: Secret| s@)),
{
    let ghost base = out@.map_values(|p: CredentialPair| p@);
    let ghost secret_views = secrets@.map_values(|s: Secret| s@);
    let mut j: usize = 0;
    while j < secrets.len()
        invariant
            j <= secrets@.len(),
            secret_views == secrets@.map_values(|s: Secret| s@),
            base == old(out)@.map_values(|p: CredentialPair| p@),
            out@.map_values(|p: CredentialPair| p@) == base + pairs_for_username(
                username@,
                secret_views.subrange(0, j as int),
            ),
        decreases secrets@.len() - j,
    {
        let pair = CredentialPair { username: username.clone(), secret: secrets[j].clone() };
        let ghost out_pre = out@;
        out.push(pair);
        proof {
            assert(out@ == out_pre.push(pair));
            out_pre.lemma_push_map_commute(|p: CredentialPair| p@, pair);
            let sub = secret_views.subrange(0, j as int);
            assert(secret_views.subrange(0, j as int + 1) =~= sub.push(secret_views[j as int]));
            sub.lemma_push_map_commute(
                |s: SecretView| CredentialPairView { username: username@, secret: s },
                secret_views[j as int],
            );
            assert(pair@ == (CredentialPairView {
                username: username@,
                secret: secret_views[j as int],
            }));
            lemma_concat_push(base, pairs_for_username(username@, sub), pair@);
        }
        j = j + 1;
    }
    proof {
        assert(secret_views.subrange(0, secret_views.len() as int) =~= secret_views);
    }
}

/// Builds the credential set of a run from the configured sources, already
/// read into memory: an optional single username, the text of an optional
/// username list, of an optional password list and of an optional hash list.
///
/// Fails exactly when some trimmed hash-list line is not even-length hex.
pub fn build(
    username: Option<&String>,
    username_list_text: Option<&String>,
    password_list_text: Option<&String>,
    hash_list_text: Option<&String>,
) -> (r: Result<Vec<CredentialPair>, FatalError>)
    ensures
        r is Ok <==> all_hex(opt_lines(opt_view(hash_list_text))),
        r matches Ok(v) ==> v@.map_values(|p: CredentialPair| p@) == build_spec(
            opt_view(username),
            opt_view(username_list_text),
            opt_view(password_list_text),
            opt_view(hash_list_text),
        ),
        r matches Err(e) ==> e == FatalError::Format,
{
    let ghost secret_views = secrets_of_sources(
        opt_view(password_list_text),
        opt_view(hash_list_text),
    );
    let mut secrets: Vec<Secret> = Vec::new();

    if let Some(pw_text) = password_list_text {
        let lines = load_lines(pw_text.as_str());
        let ghost line_views = lines@.map_values(|t: String| t@);
        let mut i: usize = 0;
        while i < lines.len()
            invariant
                i <= lines@.len(),
                line_views == lines@.map_values(|t: String| t@),
                secrets@.map_values(|s: Secret| s@) == password_secrets(
                    line_views.subrange(0, i as int),
                ),
            decreases lines@.len() - i,
        {
            let entry = Secret::Password(lines[i].clone());
            let ghost secrets_pre = secrets@;
            secrets.push(entry);
            proof {
                assert(secrets@ == secrets_pre.push(entry));
                secrets_pre.lemma_push_map_commute(|s: Secret| s@, entry);
                let sub = line_views.subrange(0, i as int);
                assert(line_views.subrange(0, i as int + 1) =~= sub.push(line_views[i as int]));
                sub.lemma_push_map_commute(
                    |l: Seq<char>| SecretView::Password(l),
                    line_views[i as int],
                );
                assert(entry@ == SecretView::Password(line_views[i as int]));
            }
            i = i + 1;
        }
        proof {
            assert(line_views.subrange(0, line_views.len() as int) =~= line_views);
        }
    }
    proof {
        assert(secrets@.map_values(|s: Secret| s@) =~= password_secrets(
            opt_lines(opt_view(password_list_text)),
        ));
    }

    if let Some(h_text) = hash_list_text {
        let ghost pw_part = secrets@.map_values(|s: Secret| s@);
        let lines = load_lines(h_text.as_str());
        let ghost line_views = lines@.map_values(|t: String| t@);
        let mut i: usize = 0;
        while i < lines.len()
            invariant
                i <= lines@.len(),
                line_views == lines@.map_values(|t: String| t@),
                line_views == opt_lines(opt_view(hash_list_text)),
                forall|j: int| 0 <= j < i ==> is_hex_seq(#[trigger] line_views[j]),
                pw_part == password_secrets(opt_lines(opt_view(password_list_text))),
                secrets@.map_values(|s: Secret| s@) == pw_part + hash_secrets(
                    line_views.subrange(0, i as int),
                ),
            decreases lines@.len() - i,
        {
            let bytes = match hex_to_bytes(lines[i].as_str()) {
                Some(b) => b,
                None => {
                    proof {
                        assert(line_views == opt_lines(opt_view(hash_list_text)));
                        assert(!is_hex_seq(line_views[i as int]));
                        assert(!all_hex(line_views));
                    }
                    return Err(FatalError::Format);
                },
            };
            let ghost bytes_view = bytes@;
            let entry = Secret::HashDigest(bytes);
            let ghost secrets_pre = secrets@;
            secrets.push(entry);
            proof {
                assert(secrets@ == secrets_pre.push(entry));
                secrets_pre.lemma_push_map_commute(|s: Secret| s@, entry);
                let sub = line_views.subrange(0, i as int);
                assert(line_views.subrange(0, i as int + 1) =~= sub.push(line_views[i as int]));
                sub.lemma_push_map_commute(
                    |l: Seq<char>| SecretView::HashDigest(hex_decode(l)),
                    line_views[i as int],
                );
                assert(entry@ == SecretView::HashDigest(hex_decode(line_views[i as int])));
                lemma_concat_push(pw_part, hash_secrets(sub), entry@);
            }
            i = i + 1;
        }
        proof {
            assert(line_views.subrange(0, line_views.len() as int) =~= line_views);
            assert(line_views == opt_lines(opt_view(hash_list_text)));
            assert(all_hex(line_views));
        }
    }
    proof {
        assert(all_hex(opt_lines(opt_view(hash_list_text))));
        assert(secrets@.map_values(|s: Secret| s@) =~= secret_views);
    }

    let mut out: Vec<CredentialPair> = Vec::new();

    if let Some(u) = username {
        push_pairs_for_username(&mut out, u, &secrets);
    }
    let ghost single_part = out@.map_values(|p: CredentialPair| p@);
    proof {
        assert(single_part =~= (match opt_view(username) {
            Some(uv) => pairs_for_username(uv, secret_views),
            None => Seq::<CredentialPairView>::empty(),
        }));
    }

    if let Some(list_text) = username_list_text {
        let usernames = load_lines(list_text.as_str());
        let ghost uname_views = usernames@.map_values(|t: String| t@);
        let mut ui: usize = 0;
        while ui < usernames.len()
            invariant
                ui <= usernames@.len(),
                uname_views == usernames@.map_values(|t: String| t@),
                secrets@.map_values(|s: Secret| s@) == secret_views,
                single_part == (match opt_view(username) {
                    Some(uv) => pairs_for_username(uv, secret_views),
                    None => Seq::<CredentialPairView>::empty(),
                }),
                out@.map_values(|p: CredentialPair| p@) == single_part + cross_pairs(
                    uname_views.subrange(0, ui as int),
                    secret_views,
                ),
            decreases usernames@.len() - ui,
        {
            let ghost out_pre_views = out@.map_values(|p: CredentialPair| p@);
            push_pairs_for_username(&mut out, &usernames[ui], &secrets);
            proof {
                let sub = uname_views.subrange(0, ui as int);
                assert(uname_views.subrange(0, ui as int + 1) =~= sub.push(uname_views[ui as int]));
                assert(uname_views[ui as int] == usernames@[ui as int]@);
                lemma_cross_push(sub, uname_views[ui as int], secret_views);
                assert((single_part + cross_pairs(sub, secret_views)) + pairs_for_username(
                    uname_views[ui as int],
                    secret_views,
                ) =~= single_part + (cross_pairs(sub, secret_views) + pairs_for_username(
                    uname_views[ui as int],
                    secret_views,
                )));
            }
            ui = ui + 1;
        }
        proof {
            assert(uname_views.subrange(0, uname_views.len() as int) =~= uname_views);
        }
    }
    proof {
        assert(out@.map_values(|p: CredentialPair| p@) =~= build_spec(
            opt_view(username),
            opt_view(username_list_text),
            opt_view(password_list_text),
            opt_view(hash_list_text),
        ));
    }
    Ok(out)
}

/// For a password list of P lines and a single username and no other
/// sources, the credential set holds exactly P pairs, in line order, all
/// sharing that username.
pub proof fn lemma_build_single_username(u: Seq<char>, password_text: Seq<char>)
    ensures
        build_spec(Some(u), None, Some(password_text), None).len() == lines_of(
            password_text,
        ).len(),
        forall|i: int|
            0 <= i < lines_of(password_text).len() ==> #[trigger] build_spec(
                Some(u),
                None,
                Some(password_text),
                None,
            )[i] == (CredentialPairView {
                username: u,
                secret: SecretView::Password(lines_of(password_text)[i]),
            }),
{
    let secrets = secrets_of_sources(Some(password_text), None);
    assert(secrets =~= password_secrets(lines_of(password_text)));
    assert(build_spec(Some(u), None, Some(password_text), None) =~= pairs_for_username(
        u,
        secrets,
    ));
}

/// The cross product of U usernames and S secrets holds exactly U times S
/// pairs, username-major then secret-minor: the pair at index i*S + j joins
/// username i with secret j.
pub proof fn lemma_cross_shape(usernames: Seq<Seq<char>>, secrets: Seq<SecretView>)
    ensures
        cross_pairs(usernames, secrets).len() == usernames.len() * secrets.len(),
        forall|i: int, j: int|
            0 <= i < usernames.len() && 0 <= j < secrets.len() ==> #[trigger] cross_pairs(
                usernames,
                secrets,
            )[i * secrets.len() + j] == (CredentialPairView {
                username: usernames[i],
                secret: secrets[j],
            }),
    decreases usernames.len(),
{
    let s = secrets.len() as int;
    let u = usernames.len() as int;
    if usernames.len() == 0 {
    } else {
        lemma_cross_shape(usernames.drop_first(), secrets);
        let head = pairs_for_username(usernames[0], secrets);
        let tail = cross_pairs(usernames.drop_first(), secrets);
        assert(head.len() == s);
        assert(tail.len() == (u - 1) * s);
        assert(cross_pairs(usernames, secrets) == head + tail);
        assert(s + (u - 1) * s == u * s) by (nonlinear_arith);
        assert forall|i: int, j: int| 0 <= i < u && 0 <= j < s implies #[trigger] cross_pairs(
            usernames,
            secrets,
        )[i * s + j] == (CredentialPairView {
            username: usernames[i],
            secret: secrets[j],
        }) by {
            if i == 0 {
                assert(i * s + j == j);
                assert((head + tail)[j] == head[j]);
                assert(head[j] == (CredentialPairView {
                    username: usernames[0],
                    secret: secrets[j],
                }));
            } else {
                assert(i * s + j == s + ((i - 1) * s + j)) by (nonlinear_arith);
                assert(0 <= (i - 1) * s + j < (u - 1) * s) by (nonlinear_arith)
                    requires
                        1 <= i < u,
                        0 <= j < s,
                ;
                assert((head + tail)[i * s + j] == tail[(i - 1) * s + j]);
                assert(tail[(i - 1) * s + j] == (CredentialPairView {
                    username: usernames.drop_first()[i - 1],
                    secret: secrets[j],
                }));
                assert(usernames.drop_first()[i - 1] == usernames[i]);
            }
        }
    }
}

/// With only a username list of U lines configured, the credential set is
/// exactly the U-by-S cross product, username-major then secret-minor.
pub proof fn lemma_build_username_list(
    list_text: Seq<char>,
    password_text: Option<Seq<char>>,
    hash_text: Option<Seq<char>>,
)
    ensures
        build_spec(None, Some(list_text), password_text, hash_text).len() == lines_of(
            list_text,
        ).len() * secrets_of_sources(password_text, hash_text).len(),
        forall|i: int, j: int|
            0 <= i < lines_of(list_text).len() && 0 <= j < secrets_of_sources(
                password_text,
                hash_text,
            ).len() ==> #[trigger] build_spec(None, Some(list_text), password_text, hash_text)[i
                * secrets_of_sources(password_text, hash_text).len() + j]
                == (CredentialPairView {
                username: lines_of(list_text)[i],
                secret: secrets_of_sources(password_text, hash_text)[j],
            }),
{
    let secrets = secrets_of_sources(password_text, hash_text);
    assert(build_spec(None, Some(list_text), password_text, hash_text) =~= cross_pairs(
        lines_of(list_text),
        secrets,
    ));
    lemma_cross_shape(lines_of(list_text), secrets);
}

/// With both a single username and a username list configured, the
/// credential set holds exactly S + U*S pairs: the single-username block
/// first, the whole cross product after it.
pub proof fn lemma_build_both_sources(
    u: Seq<char>,
    list_text: Seq<char>,
    password_text: Option<Seq<char>>,
    hash_text: Option<Seq<char>>,
)
    ensures
        build_spec(Some(u), Some(list_text), password_text, hash_text).len()
            == secrets_of_sources(password_text, hash_text).len() + lines_of(list_text).len()
            * secrets_of_sources(password_text, hash_text).len(),
        build_spec(Some(u), Some(list_text), password_text, hash_text).subrange(
            0,
            secrets_of_sources(password_text, hash_text).len() as int,
        ) == pairs_for_username(u, secrets_of_sources(password_text, hash_text)),
        build_spec(Some(u), Some(list_text), password_text, hash_text).subrange(
            secrets_of_sources(password_text, hash_text).len() as int,
            build_spec(Some(u), Some(list_text), password_text, hash_text).len() as int,
        ) == cross_pairs(lines_of(list_text), secrets_of_sources(password_text, hash_text)),
{
    let secrets = secrets_of_sources(password_text, hash_text);
    let whole = build_spec(Some(u), Some(list_text), password_text, hash_text);
    lemma_cross_shape(lines_of(list_text), secrets);
    assert(whole == pairs_for_username(u, secrets) + cross_pairs(lines_of(list_text), secrets));
    assert(whole.subrange(0, secrets.len() as int) =~= pairs_for_username(u, secrets));
    assert(whole.subrange(secrets.len() as int, whole.len() as int) =~= cross_pairs(
        lines_of(list_text),
        secrets,
    ));
}

} // verus!
