//! The attribute keys the library assigns name no credential or personal
//! data, so that with the operator's filtered attributes no exported resource
//! key is sensitive.

use vstd::prelude::*;
use crate::attributes::{
    is_sensitive_key,
    norm_char,
    normalize_key,
    resource_attribute_list,
    sensitive_words,
};
use crate::env::EnvView;
use crate::otel::insert_all;
use crate::setup::{lemma_resource_keys_are_own_or_clean, own_attribute_keys};
use crate::text::{
    contains_sub,
    is_ws,
    lemma_contains_sub_widen,
    lemma_trim_bounds,
    trim,
    trim_end,
    trim_start,
};

verus! {

/// `w` cannot occur in `n`, by a witness `t`: without `pair`, the character
/// `w[t]` occurs nowhere in `n`; with `pair`, the characters `w[t]` and
/// `w[t + 1]` never occur side by side in `n`.
pub open spec fn word_excluded(n: Seq<char>, w: Seq<char>, t: int, pair: bool) -> bool {
    if pair {
        &&& 0 <= t < w.len() - 1
        &&& forall|i: int| 0 <= i < n.len() - 1 ==> !(#[trigger] n[i] == w[t] && n[i + 1] == w[t + 1])
    } else {
        &&& 0 <= t < w.len()
        &&& forall|i: int| 0 <= i < n.len() ==> #[trigger] n[i] != w[t]
    }
}

proof fn lemma_excluded_word_absent(n: Seq<char>, w: Seq<char>, t: int, pair: bool)
    requires
        word_excluded(n, w, t, pair),
    ensures
        !contains_sub(n, w),
{
    if contains_sub(n, w) {
        let i = choose|i: int| 0 <= i <= n.len() - w.len() && #[trigger] n.subrange(i, i + w.len()) == w;
        assert(n.subrange(i, i + w.len())[t] == n[i + t]);
        if pair {
            assert(n.subrange(i, i + w.len())[t + 1] == n[i + t + 1]);
        }
    }
}

/// A key with no surrounding whitespace is not sensitive when each sensitive
/// word is excluded from its normalised form by the matching witness.
proof fn lemma_key_not_sensitive(k: Seq<char>, witnesses: Seq<(int, bool)>)
    requires
        k.len() > 0,
        !is_ws(k[0]),
        !is_ws(k.last()),
        witnesses.len() == sensitive_words().len(),
        forall|j: int|
            0 <= j < witnesses.len() ==> word_excluded(
                k.map_values(|c: char| norm_char(c)),
                sensitive_words()[j],
                (#[trigger] witnesses[j]).0,
                witnesses[j].1,
            ),
    ensures
        !is_sensitive_key(k),
{
    assert(trim_start(k) == k);
    assert(trim_end(k) == k);
    assert(trim(k) == k);
    let n = normalize_key(k);
    assert forall|j: int| 0 <= j < sensitive_words().len() implies !contains_sub(
        n,
        #[trigger] sensitive_words()[j],
    ) by {
        lemma_excluded_word_absent(n, sensitive_words()[j], witnesses[j].0, witnesses[j].1);
    }
}

/// No attribute key the library assigns names a credential or personal data.
pub proof fn lemma_own_attribute_keys_not_sensitive(k: Seq<char>)
    requires
        own_attribute_keys().contains(k),
    ensures
        !is_sensitive_key(k),
{
    assert(sensitive_words() =~= seq![
        "authorization"@,
        "cookie"@,
        "password"@,
        "passwd"@,
        "pwd"@,
        "passphrase"@,
        "secret"@,
        "token"@,
        "api_key"@,
        "apikey"@,
        "credential"@,
        "bearer"@,
        "private_key"@,
        "signing_key"@,
        "session"@,
        "jwt"@,
        "email"@,
    ]);
    reveal_strlit("authorization");
    reveal_strlit("cookie");
    reveal_strlit("password");
    reveal_strlit("passwd");
    reveal_strlit("pwd");
    reveal_strlit("passphrase");
    reveal_strlit("secret");
    reveal_strlit("token");
    reveal_strlit("api_key");
    reveal_strlit("apikey");
    reveal_strlit("credential");
    reveal_strlit("bearer");
    reveal_strlit("private_key");
    reveal_strlit("signing_key");
    reveal_strlit("session");
    reveal_strlit("jwt");
    reveal_strlit("email");
    reveal_strlit("service.name");
    lemma_key_not_sensitive(
        "service.name"@,
        seq![
            (1, false), (1, false), (0, false), (0, false), (0, false), (0, false),
            (5, false), (0, false), (1, false), (1, false), (3, false), (0, false),
            (0, false), (2, false), (5, false), (0, false), (4, false),
        ],
    );
    reveal_strlit("service.namespace");
    lemma_key_not_sensitive(
        "service.namespace"@,
        seq![
            (1, false), (1, false), (4, false), (4, false), (1, false), (5, false),
            (5, false), (0, false), (4, false), (3, false), (3, false), (0, false),
            (5, false), (2, false), (5, false), (0, false), (4, false),
        ],
    );
    reveal_strlit("deployment.environment");
    lemma_key_not_sensitive(
        "deployment.environment"@,
        seq![
            (0, false), (0, false), (1, false), (1, false), (1, false), (1, false),
            (0, false), (2, false), (0, false), (0, false), (0, false), (0, false),
            (4, false), (0, false), (0, false), (0, false), (2, false),
        ],
    );
    reveal_strlit("fiducia.cluster");
    lemma_key_not_sensitive(
        "fiducia.cluster"@,
        seq![
            (3, false), (1, false), (0, false), (0, false), (0, false), (0, false),
            (0, true), (1, false), (1, false), (1, false), (5, false), (0, false),
            (0, false), (2, false), (5, false), (0, false), (1, false),
        ],
    );
    reveal_strlit("fiducia.cluster_id");
    lemma_key_not_sensitive(
        "fiducia.cluster_id"@,
        seq![
            (3, false), (1, false), (0, false), (0, false), (0, false), (0, false),
            (0, true), (1, false), (1, false), (1, false), (5, false), (0, false),
            (0, false), (2, false), (5, false), (0, false), (1, false),
        ],
    );
    reveal_strlit("cloud.provider");
    lemma_key_not_sensitive(
        "cloud.provider"@,
        seq![
            (0, false), (3, false), (1, false), (1, false), (1, false), (1, false),
            (0, false), (0, false), (0, false), (0, false), (5, false), (0, false),
            (4, false), (0, false), (0, false), (0, false), (1, false),
        ],
    );
    reveal_strlit("cloud.region");
    lemma_key_not_sensitive(
        "cloud.region"@,
        seq![
            (0, false), (3, false), (0, false), (0, false), (0, false), (0, false),
            (0, false), (0, false), (0, false), (0, false), (6, false), (0, false),
            (0, false), (0, false), (0, false), (0, false), (1, false),
        ],
    );
    reveal_strlit("k8s.namespace.name");
    lemma_key_not_sensitive(
        "k8s.namespace.name"@,
        seq![
            (1, false), (1, false), (4, false), (4, false), (1, false), (5, false),
            (3, false), (0, false), (2, false), (2, false), (1, false), (0, false),
            (1, false), (1, false), (4, false), (0, false), (3, false),
        ],
    );
    reveal_strlit("k8s.pod.name");
    lemma_key_not_sensitive(
        "k8s.pod.name"@,
        seq![
            (1, false), (0, false), (4, false), (4, false), (1, false), (5, false),
            (2, false), (0, false), (2, false), (2, false), (0, false), (0, false),
            (1, false), (1, false), (4, false), (0, false), (3, false),
        ],
    );
    reveal_strlit("k8s.node.name");
    lemma_key_not_sensitive(
        "k8s.node.name"@,
        seq![
            (1, false), (0, false), (0, false), (0, false), (0, false), (0, false),
            (2, false), (0, false), (1, false), (1, false), (0, false), (0, false),
            (0, false), (1, false), (4, false), (0, false), (3, false),
        ],
    );
    reveal_strlit("service.version");
    lemma_key_not_sensitive(
        "service.version"@,
        seq![
            (0, false), (3, false), (0, false), (0, false), (0, false), (0, false),
            (5, false), (0, false), (0, false), (0, false), (3, false), (0, false),
            (0, false), (2, false), (1, true), (0, false), (1, false),
        ],
    );
    reveal_strlit("service.instance.id");
    lemma_key_not_sensitive(
        "service.instance.id"@,
        seq![
            (1, false), (1, false), (0, false), (0, false), (0, false), (0, false),
            (1, true), (1, false), (1, false), (1, false), (9, false), (0, false),
            (0, false), (2, false), (5, false), (0, false), (1, false),
        ],
    );
}

/// No key of the exported resource names a credential or personal data,
/// whatever the service name and the environment.
pub proof fn lemma_resource_has_no_sensitive_key(
    service: Seq<char>,
    env: EnvView,
    k: Seq<char>,
)
    requires
        insert_all(Map::empty(), resource_attribute_list(service, env)).dom().contains(k),
    ensures
        !is_sensitive_key(k),
{
    lemma_resource_keys_are_own_or_clean(service, env, k);
    if own_attribute_keys().contains(k) {
        lemma_own_attribute_keys_not_sensitive(k);
    }
}

/// Text around a sensitive key keeps it sensitive: the check looks for the
/// sensitive words anywhere in the normalised key, so `my_secret_value` and
/// `token_id` are caught as surely as `secret` and `token`.
pub proof fn lemma_sensitive_key_in_longer_key(a: Seq<char>, k: Seq<char>, b: Seq<char>)
    requires
        is_sensitive_key(k),
    ensures
        is_sensitive_key(a + k + b),
{
    let j = choose|j: int| 0 <= j < sensitive_words().len() && contains_sub(normalize_key(k), #[trigger] sensitive_words()[j]);
    let w = sensitive_words()[j];
    let s = a + k + b;
    let nk = normalize_key(k);
    let ns = normalize_key(s);
    let (p, q) = lemma_trim_bounds(k);
    let (x, y) = lemma_trim_bounds(s);
    if p == q {
        assert(nk.len() == 0);
        assert(w.len() == 0);
        assert(ns.subrange(0, 0 + w.len() as int) =~= w);
    } else {
        let off = a.len() as int;
        assert(s[off + p] == k[p]);
        assert(s[off + q - 1] == k[q - 1]);
        assert(x <= off + p) by {
            if x > off + p {
                assert(is_ws(s[off + p]));
            }
        }
        assert(y >= off + q) by {
            if y < off + q {
                assert(is_ws(s[off + q - 1]));
            }
        }
        assert(nk =~= ns.subrange(off + p - x, off + q - x));
        lemma_contains_sub_widen(ns, off + p - x, off + q - x, w);
    }
    assert(contains_sub(ns, sensitive_words()[j]));
}

/// A key is sensitive exactly when its normalised form contains one of these
/// seventeen words: `authorization`, `cookie`, `password`, `passwd`, `pwd`,
/// `passphrase`, `secret`, `token`, `api_key`, `apikey`, `credential`,
/// `bearer`, `private_key`, `signing_key`, `session`, `jwt`, `email`.
pub proof fn lemma_sensitive_words_are_exactly_these(k: Seq<char>)
    ensures
        is_sensitive_key(k) <==> {
        ||| contains_sub(normalize_key(k), "authorization"@)
        ||| contains_sub(normalize_key(k), "cookie"@)
        ||| contains_sub(normalize_key(k), "password"@)
        ||| contains_sub(normalize_key(k), "passwd"@)
        ||| contains_sub(normalize_key(k), "pwd"@)
        ||| contains_sub(normalize_key(k), "passphrase"@)
        ||| contains_sub(normalize_key(k), "secret"@)
        ||| contains_sub(normalize_key(k), "token"@)
        ||| contains_sub(normalize_key(k), "api_key"@)
        ||| contains_sub(normalize_key(k), "apikey"@)
        ||| contains_sub(normalize_key(k), "credential"@)
        ||| contains_sub(normalize_key(k), "bearer"@)
        ||| contains_sub(normalize_key(k), "private_key"@)
        ||| contains_sub(normalize_key(k), "signing_key"@)
        ||| contains_sub(normalize_key(k), "session"@)
        ||| contains_sub(normalize_key(k), "jwt"@)
        ||| contains_sub(normalize_key(k), "email"@)
        },
{
    assert(sensitive_words() =~= seq![
        "authorization"@,
        "cookie"@,
        "password"@,
        "passwd"@,
        "pwd"@,
        "passphrase"@,
        "secret"@,
        "token"@,
        "api_key"@,
        "apikey"@,
        "credential"@,
        "bearer"@,
        "private_key"@,
        "signing_key"@,
        "session"@,
        "jwt"@,
        "email"@,
    ]);
    if is_sensitive_key(k) {
        let j = choose|j: int| 0 <= j < sensitive_words().len() && contains_sub(normalize_key(k), #[trigger] sensitive_words()[j]);
        assert(j == 0 || j == 1 || j == 2 || j == 3 || j == 4 || j == 5 || j == 6 || j == 7 || j == 8
            || j == 9 || j == 10 || j == 11 || j == 12 || j == 13 || j == 14 || j == 15 || j == 16);
    }
    if contains_sub(normalize_key(k), "authorization"@) {
        assert(contains_sub(normalize_key(k), sensitive_words()[0]));
    }
    if contains_sub(normalize_key(k), "cookie"@) {
        assert(contains_sub(normalize_key(k), sensitive_words()[1]));
    }
    if contains_sub(normalize_key(k), "password"@) {
        assert(contains_sub(normalize_key(k), sensitive_words()[2]));
    }
    if contains_sub(normalize_key(k), "passwd"@) {
        assert(contains_sub(normalize_key(k), sensitive_words()[3]));
    }
    if contains_sub(normalize_key(k), "pwd"@) {
        assert(contains_sub(normalize_key(k), sensitive_words()[4]));
    }
    if contains_sub(normalize_key(k), "passphrase"@) {
        assert(contains_sub(normalize_key(k), sensitive_words()[5]));
    }
    if contains_sub(normalize_key(k), "secret"@) {
        assert(contains_sub(normalize_key(k), sensitive_words()[6]));
    }
    if contains_sub(normalize_key(k), "token"@) {
        assert(contains_sub(normalize_key(k), sensitive_words()[7]));
    }
    if contains_sub(normalize_key(k), "api_key"@) {
        assert(contains_sub(normalize_key(k), sensitive_words()[8]));
    }
    if contains_sub(normalize_key(k), "apikey"@) {
        assert(contains_sub(normalize_key(k), sensitive_words()[9]));
    }
    if contains_sub(normalize_key(k), "credential"@) {
        assert(contains_sub(normalize_key(k), sensitive_words()[10]));
    }
    if contains_sub(normalize_key(k), "bearer"@) {
        assert(contains_sub(normalize_key(k), sensitive_words()[11]));
    }
    if contains_sub(normalize_key(k), "private_key"@) {
        assert(contains_sub(normalize_key(k), sensitive_words()[12]));
    }
    if contains_sub(normalize_key(k), "signing_key"@) {
        assert(contains_sub(normalize_key(k), sensitive_words()[13]));
    }
    if contains_sub(normalize_key(k), "session"@) {
        assert(contains_sub(normalize_key(k), sensitive_words()[14]));
    }
    if contains_sub(normalize_key(k), "jwt"@) {
        assert(contains_sub(normalize_key(k), sensitive_words()[15]));
    }
    if contains_sub(normalize_key(k), "email"@) {
        assert(contains_sub(normalize_key(k), sensitive_words()[16]));
    }
}

} // verus!
