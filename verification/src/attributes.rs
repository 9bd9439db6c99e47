//! Resource attributes: the service identity, deployment and Kubernetes
//! attributes taken from the environment, the operator's
//! `OTEL_RESOURCE_ATTRIBUTES` list, and the filter that drops attribute keys
//! naming credentials or personal data.

use vstd::prelude::*;
use crate::env::{env_text, opt_view, EnvVars, EnvView};
use crate::text::{
    ascii_lower,
    chars_of,
    contains_sub,
    find_char,
    is_first_index,
    is_ws,
    lemma_first_index_unique,
    lemma_split_at_separator,
    lemma_trim_padded,
    lemma_trim_same_ws_pattern,
    lower_char_is,
    split,
    split_bounds,
    split_once,
    trim,
    trim_bounds,
};

verus! {

/// One character of a key after normalisation: `-` and `.` become `_`, ASCII
/// letters become lower case.
pub open spec fn norm_char(c: char) -> char {
    if c == '-' || c == '.' {
        '_'
    } else {
        ascii_lower(c)
    }
}

/// A key as it is compared against the sensitive words: trimmed, ASCII
/// lower-cased, with `-` and `.` replaced by `_`.
pub open spec fn normalize_key(key: Seq<char>) -> Seq<char> {
    trim(key).map_values(|c: char| norm_char(c))
}

/// The words whose presence anywhere in a normalised key marks it sensitive.
pub open spec fn sensitive_words() -> Seq<Seq<char>> {
    seq![
        "authorization"@,
        "cookie"@,
        "password"@,
        "passwd"@,
        "pwd"@,
        "passphrase"@,
        "secret"@,
        "token"@,
        "api_key"@,
        "apikey"@,
        "credential"@,
        "bearer"@,
        "private_key"@,
        "signing_key"@,
        "session"@,
        "jwt"@,
        "email"@,
    ]
}

/// A key names a credential or personal data: some sensitive word occurs in
/// its normalised form.
pub open spec fn is_sensitive_key(key: Seq<char>) -> bool {
    exists|j: int| 0 <= j < sensitive_words().len() && contains_sub(normalize_key(key), #[trigger] sensitive_words()[j])
}

/// The attribute one `key=value` piece of `OTEL_RESOURCE_ATTRIBUTES` yields:
/// split at the first `=`, both sides trimmed, kept when both are non-empty
/// and the key is not sensitive.
pub open spec fn pair_of_piece(piece: Seq<char>) -> Option<(Seq<char>, Seq<char>)> {
    match split_once(piece, '=') {
        Some(kv) => {
            let key = trim(kv.0);
            let value = trim(kv.1);
            if key.len() > 0 && value.len() > 0 && !is_sensitive_key(key) {
                Some((key, value))
            } else {
                None
            }
        },
        None => None,
    }
}

/// The attributes that the pieces yield, in order.
pub open spec fn pairs_of_pieces(pieces: Seq<Seq<char>>) -> Seq<(Seq<char>, Seq<char>)>
    decreases pieces.len(),
{
    if pieces.len() == 0 {
        Seq::empty()
    } else {
        pairs_of_pieces(pieces.drop_last()) + match pair_of_piece(pieces.last()) {
            Some(p) => seq![p],
            None => Seq::empty(),
        }
    }
}

/// The attributes of a comma-separated `key=value` list.
pub open spec fn attribute_pairs(raw: Seq<char>) -> Seq<(Seq<char>, Seq<char>)> {
    pairs_of_pieces(split(raw, ','))
}

/// A variable's value when it is set to something other than whitespace.
pub open spec fn non_blank(v: Option<Seq<char>>) -> Option<Seq<char>> {
    match v {
        Some(x) => if trim(x).len() > 0 {
            Some(x)
        } else {
            None
        },
        None => None,
    }
}

/// The first of two optional values that is present.
pub open spec fn first_present(a: Option<Seq<char>>, b: Option<Seq<char>>) -> Option<Seq<char>> {
    match a {
        Some(x) => Some(x),
        None => b,
    }
}

/// The non-blank value of the variable `name`.
pub open spec fn env_value(env: EnvView, name: Seq<char>) -> Option<Seq<char>> {
    non_blank(env_text(env, name))
}

/// The attribute `key` with `value`, when there is a value.
pub open spec fn optional_attribute(key: Seq<char>, value: Option<Seq<char>>) -> Seq<
    (Seq<char>, Seq<char>),
> {
    match value {
        Some(v) => seq![(key, v)],
        None => Seq::empty(),
    }
}

/// The service namespace: `OTEL_SERVICE_NAMESPACE` when it is not blank,
/// else the fleet default.
pub open spec fn service_namespace(env: EnvView) -> Seq<char> {
    match env_value(env, "OTEL_SERVICE_NAMESPACE"@) {
        Some(v) => v,
        None => "fiducia-cloud"@,
    }
}

/// The attributes from the operator's `OTEL_RESOURCE_ATTRIBUTES`, when set.
pub open spec fn operator_attributes(env: EnvView) -> Seq<
    (Seq<char>, Seq<char>),
> {
    match env_text(env, "OTEL_RESOURCE_ATTRIBUTES"@) {
        Some(raw) => attribute_pairs(raw),
        None => Seq::empty(),
    }
}

/// The resource attributes of `service` in the environment `env`, in order:
/// the service name and namespace, then each deployment, cluster, cloud,
/// Kubernetes, version and instance attribute whose variable is set to
/// something other than whitespace (`FIDUCIA_DEPLOYMENT_ENV` before
/// `DEPLOYMENT_ENV`, `POD_NAME` before `HOSTNAME`), then the operator's
/// attributes.
pub open spec fn resource_attribute_list(service: Seq<char>, env: EnvView) -> Seq<
    (Seq<char>, Seq<char>),
> {
    seq![("service.name"@, service), ("service.namespace"@, service_namespace(env))]
        + optional_attribute(
        "deployment.environment"@,
        first_present(env_value(env, "FIDUCIA_DEPLOYMENT_ENV"@), env_value(env, "DEPLOYMENT_ENV"@)),
    ) + optional_attribute("fiducia.cluster"@, env_value(env, "FIDUCIA_CLUSTER"@))
        + optional_attribute("fiducia.cluster_id"@, env_value(env, "FIDUCIA_CLUSTER_ID"@))
        + optional_attribute("cloud.provider"@, env_value(env, "FIDUCIA_CLOUD_PROVIDER"@))
        + optional_attribute("cloud.region"@, env_value(env, "FIDUCIA_CLOUD_REGION"@))
        + optional_attribute("k8s.namespace.name"@, env_value(env, "POD_NAMESPACE"@))
        + optional_attribute("k8s.pod.name"@, env_value(env, "POD_NAME"@))
        + optional_attribute("k8s.node.name"@, env_value(env, "NODE_NAME"@))
        + optional_attribute("service.version"@, env_value(env, "SERVICE_VERSION"@))
        + optional_attribute(
        "service.instance.id"@,
        first_present(env_value(env, "POD_NAME"@), env_value(env, "HOSTNAME"@)),
    ) + operator_attributes(env)
}

/// An attribute the operator's list may yield: a non-empty key that names no
/// credential or personal data, and a non-empty value.
pub open spec fn is_clean_attribute(p: (Seq<char>, Seq<char>)) -> bool {
    &&& p.0.len() > 0
    &&& p.1.len() > 0
    &&& !is_sensitive_key(p.0)
}

proof fn lemma_pairs_of_pieces_clean(pieces: Seq<Seq<char>>)
    ensures
        forall|i: int|
            0 <= i < pairs_of_pieces(pieces).len() ==> is_clean_attribute(
                #[trigger] pairs_of_pieces(pieces)[i],
            ),
    decreases pieces.len(),
{
    if pieces.len() > 0 {
        let prev = pairs_of_pieces(pieces.drop_last());
        lemma_pairs_of_pieces_clean(pieces.drop_last());
        let all = pairs_of_pieces(pieces);
        assert forall|i: int| 0 <= i < all.len() implies is_clean_attribute(#[trigger] all[i]) by {
            if i < prev.len() {
                assert(all[i] == prev[i]);
            } else {
                let p = pair_of_piece(pieces.last());
                assert(p is Some);
                assert(all[i] == p->0);
            }
        }
    }
}

/// Every attribute parsed from an operator's `key=value` list has a non-empty
/// key and value, and its key names no credential or personal data: a
/// sensitive key never reaches the exported attributes.
pub proof fn lemma_operator_attributes_are_clean(raw: Seq<char>)
    ensures
        forall|i: int|
            0 <= i < attribute_pairs(raw).len() ==> is_clean_attribute(
                #[trigger] attribute_pairs(raw)[i],
            ),
{
    lemma_pairs_of_pieces_clean(split(raw, ','));
}

proof fn lemma_norm_char_keeps_whitespace(c: char, d: char)
    requires
        norm_char(c) == norm_char(d),
    ensures
        is_ws(c) == is_ws(d),
{
    if 65 <= (c as u32) <= 90 {
        assert((((c as u32) + 32) as char) as u32 == (c as u32) + 32);
    }
    if 65 <= (d as u32) <= 90 {
        assert((((d as u32) + 32) as char) as u32 == (d as u32) + 32);
    }
}

/// The sensitive-key check ignores ASCII case, which of `-`, `.` and `_`
/// separates words, and whitespace around the key: a key `k2` that differs
/// from `k` only in these ways, padded with whitespace `a` and `b`, is
/// sensitive exactly when `k` is.
pub proof fn lemma_sensitive_check_ignores_case_separators_and_padding(
    k: Seq<char>,
    k2: Seq<char>,
    a: Seq<char>,
    b: Seq<char>,
)
    requires
        k2.len() == k.len(),
        forall|i: int| 0 <= i < k.len() ==> norm_char(#[trigger] k2[i]) == norm_char(k[i]),
        forall|i: int| 0 <= i < a.len() ==> is_ws(#[trigger] a[i]),
        forall|i: int| 0 <= i < b.len() ==> is_ws(#[trigger] b[i]),
    ensures
        is_sensitive_key(a + k2 + b) == is_sensitive_key(k),
{
    assert forall|i: int| 0 <= i < k2.len() implies is_ws(#[trigger] k2[i]) == is_ws(k[i]) by {
        lemma_norm_char_keeps_whitespace(k2[i], k[i]);
    }
    let (x, y) = lemma_trim_same_ws_pattern(k2, k);
    lemma_trim_padded(a, k2, b);
    assert(normalize_key(k2) =~= normalize_key(k));
    assert(normalize_key(a + k2 + b) == normalize_key(k2));
}

/// Each piece yields its attribute on its own: the attributes of two lists of
/// pieces are those of the first followed by those of the second.
pub proof fn lemma_pairs_of_pieces_concat(p: Seq<Seq<char>>, q: Seq<Seq<char>>)
    ensures
        pairs_of_pieces(p + q) == pairs_of_pieces(p) + pairs_of_pieces(q),
    decreases q.len(),
{
    if q.len() == 0 {
        assert(p + q =~= p);
        assert(pairs_of_pieces(p) + pairs_of_pieces(q) =~= pairs_of_pieces(p));
    } else {
        lemma_pairs_of_pieces_concat(p, q.drop_last());
        assert((p + q).drop_last() =~= p + q.drop_last());
        assert((p + q).last() == q.last());
        let tail = match pair_of_piece(q.last()) {
            Some(x) => seq![x],
            None => Seq::<(Seq<char>, Seq<char>)>::empty(),
        };
        assert(pairs_of_pieces(p) + pairs_of_pieces(q.drop_last()) + tail =~= pairs_of_pieces(p)
            + (pairs_of_pieces(q.drop_last()) + tail));
    }
}

/// The attributes of two comma-joined lists are those of the first list
/// followed by those of the second: a malformed, blank or sensitive piece
/// drops only itself, never a later pair.
pub proof fn lemma_attribute_pairs_of_joined_lists(a: Seq<char>, b: Seq<char>)
    ensures
        attribute_pairs(a + seq![','] + b) == attribute_pairs(a) + attribute_pairs(b),
{
    lemma_split_at_separator(a, b, ',');
    lemma_pairs_of_pieces_concat(split(a, ','), split(b, ','));
}

/// A piece with no `=` yields no attribute, and a piece `key=value` with a
/// non-empty, non-sensitive trimmed key and non-empty trimmed value yields
/// exactly that trimmed pair, the value keeping any later `=`.
pub proof fn lemma_piece_attribute(key: Seq<char>, value: Seq<char>, piece: Seq<char>)
    ensures
        (forall|i: int| 0 <= i < piece.len() ==> piece[i] != '=') ==> pairs_of_pieces(seq![piece])
            == Seq::<(Seq<char>, Seq<char>)>::empty(),
        (forall|i: int| 0 <= i < key.len() ==> key[i] != '=') && trim(key).len() > 0 && trim(
            value,
        ).len() > 0 && !is_sensitive_key(trim(key)) ==> pairs_of_pieces(
            seq![key + seq!['='] + value],
        ) == seq![(trim(key), trim(value))],
{
    let one = seq![piece];
    assert(one.drop_last() =~= Seq::<Seq<char>>::empty());
    assert(one.last() == piece);
    assert(pairs_of_pieces(Seq::<Seq<char>>::empty()) == Seq::<(Seq<char>, Seq<char>)>::empty());
    if forall|i: int| 0 <= i < piece.len() ==> piece[i] != '=' {
        assert(!exists|i: int| is_first_index(piece, '=', i));
        assert(pair_of_piece(piece) is None);
        assert(pairs_of_pieces(one) =~= Seq::<(Seq<char>, Seq<char>)>::empty());
    }
    let kv = key + seq!['='] + value;
    let two = seq![kv];
    assert(two.drop_last() =~= Seq::<Seq<char>>::empty());
    if forall|i: int| 0 <= i < key.len() ==> key[i] != '=' {
        let n = key.len() as int;
        assert(is_first_index(kv, '=', n)) by {
            assert forall|j: int| 0 <= j < n implies kv[j] != '=' by {
                assert(kv[j] == key[j]);
            }
        }
        let c = choose|c: int| is_first_index(kv, '=', c);
        lemma_first_index_unique(kv, '=', n, c);
        assert(kv.take(n) =~= key);
        assert(kv.skip(n + 1) =~= value);
        assert(two.last() == kv);
        if trim(key).len() > 0 && trim(value).len() > 0 && !is_sensitive_key(trim(key)) {
            assert(pair_of_piece(kv) == Some((trim(key), trim(value))));
            assert(pairs_of_pieces(two) =~= seq![(trim(key), trim(value))]);
        }
    }
}

/// `deployment.environment` carries `FIDUCIA_DEPLOYMENT_ENV` when that is set
/// to something other than whitespace, and otherwise `DEPLOYMENT_ENV` when
/// that is: an unset, blank or non-Unicode `FIDUCIA_DEPLOYMENT_ENV` falls
/// through to `DEPLOYMENT_ENV`.
pub proof fn lemma_deployment_environment(service: Seq<char>, env: EnvView, v: Seq<char>)
    ensures
        env_text(env, "FIDUCIA_DEPLOYMENT_ENV"@) == Some(v) && trim(v).len() > 0
            ==> resource_attribute_list(service, env).contains(("deployment.environment"@, v)),
        (env_text(env, "FIDUCIA_DEPLOYMENT_ENV"@) is None || trim(
            env_text(env, "FIDUCIA_DEPLOYMENT_ENV"@)->0,
        ).len() == 0) && env_text(env, "DEPLOYMENT_ENV"@) == Some(v) && trim(v).len() > 0
            ==> resource_attribute_list(service, env).contains(("deployment.environment"@, v)),
{
    let list = resource_attribute_list(service, env);
    let chosen = first_present(
        env_value(env, "FIDUCIA_DEPLOYMENT_ENV"@),
        env_value(env, "DEPLOYMENT_ENV"@),
    );
    if chosen == Some(v) {
        assert(list[2] == ("deployment.environment"@, v));
    }
}

/// `service.instance.id` carries `POD_NAME` when that is set to something
/// other than whitespace, and otherwise `HOSTNAME` when that is.
pub proof fn lemma_instance_id(service: Seq<char>, env: EnvView, v: Seq<char>)
    ensures
        env_text(env, "POD_NAME"@) == Some(v) && trim(v).len() > 0 ==> resource_attribute_list(
            service,
            env,
        ).contains(("service.instance.id"@, v)),
        (env_text(env, "POD_NAME"@) is None || trim(env_text(env, "POD_NAME"@)->0).len() == 0)
            && env_text(env, "HOSTNAME"@) == Some(v) && trim(v).len() > 0
            ==> resource_attribute_list(service, env).contains(("service.instance.id"@, v)),
{
    let list = resource_attribute_list(service, env);
    let chosen = first_present(env_value(env, "POD_NAME"@), env_value(env, "HOSTNAME"@));
    if chosen == Some(v) {
        let ops = operator_attributes(env);
        let at = list.len() - ops.len() - 1;
        assert(list[at] == ("service.instance.id"@, v));
    }
}

/// The `j`-th sensitive word.
fn sensitive_word(j: usize) -> (w: &'static str)
    requires
        j < sensitive_words().len(),
    ensures
        w@ == sensitive_words()[j as int],
{
    match j {
        0 => "authorization",
        1 => "cookie",
        2 => "password",
        3 => "passwd",
        4 => "pwd",
        5 => "passphrase",
        6 => "secret",
        7 => "token",
        8 => "api_key",
        9 => "apikey",
        10 => "credential",
        11 => "bearer",
        12 => "private_key",
        13 => "signing_key",
        14 => "session",
        15 => "jwt",
        _ => "email",
    }
}

/// Whether `c`, normalised, is `p`.
fn norm_char_is(c: char, p: char) -> (r: bool)
    ensures
        r == (norm_char(c) == p),
{
    if c == '-' || c == '.' {
        p == '_'
    } else {
        lower_char_is(c, p)
    }
}

/// Whether `word` occurs in the normalised text of `v[lo..hi]`.
fn normalized_contains(v: &Vec<char>, lo: usize, hi: usize, word: &str) -> (r: bool)
    requires
        lo <= hi <= v.len(),
    ensures
        r == contains_sub(v@.subrange(lo as int, hi as int).map_values(|c: char| norm_char(c)), word@),
{
    let ghost n = v@.subrange(lo as int, hi as int).map_values(|c: char| norm_char(c));
    let m = word.unicode_len();
    let len = hi - lo;
    if m > len {
        return false;
    }
    if m == 0 {
        assert(n.subrange(0, 0 + m) =~= word@);
        return true;
    }
    let mut i: usize = 0;
    while i <= len - m
        invariant
            lo <= hi <= v.len(),
            len == hi - lo,
            m == word@.len(),
            0 < m <= len,
            n == v@.subrange(lo as int, hi as int).map_values(|c: char| norm_char(c)),
            i <= len - m + 1,
            forall|k: int| 0 <= k < i ==> #[trigger] n.subrange(k, k + m) != word@,
        decreases len - m + 1 - i,
    {
        let mut t: usize = 0;
        let mut matched = true;
        while t < m
            invariant
                lo <= hi <= v.len(),
                len == hi - lo,
                m == word@.len(),
                i + m <= len,
                n == v@.subrange(lo as int, hi as int).map_values(|c: char| norm_char(c)),
                t <= m,
                matched ==> forall|u: int| 0 <= u < t ==> n[i + u] == word@[u],
                !matched ==> n.subrange(i as int, i + m) != word@,
            decreases m - t,
        {
            if matched && !norm_char_is(v[lo + i + t], word.get_char(t)) {
                matched = false;
                assert(n.subrange(i as int, i + m)[t as int] != word@[t as int]);
            }
            t = t + 1;
        }
        if matched {
            assert(n.subrange(i as int, i + m) =~= word@);
            return true;
        }
        i = i + 1;
    }
    false
}

/// Whether `key` names a credential or personal data (see `is_sensitive_key`).
pub fn is_sensitive_attribute_key(key: &str) -> (r: bool)
    ensures
        r == is_sensitive_key(key@),
{
    let v = chars_of(key);
    let (a, b) = trim_bounds(&v, 0, v.len());
    assert(v@.subrange(0, v@.len() as int) =~= key@);
    let mut j: usize = 0;
    while j < 17
        invariant
            sensitive_words().len() == 17,
            a <= b <= v.len(),
            v@.subrange(a as int, b as int) == trim(key@),
            forall|k: int| 0 <= k < j ==> !contains_sub(normalize_key(key@), #[trigger] sensitive_words()[k]),
        decreases 17 - j,
    {
        if normalized_contains(&v, a, b, sensitive_word(j)) {
            return true;
        }
        j = j + 1;
    }
    false
}

/// The attributes of the comma-separated `key=value` list `raw` (see
/// `attribute_pairs`): each piece is split at its first `=`, key and value are
/// trimmed, and pieces with an empty side or a sensitive key are dropped.
pub fn otel_resource_attribute_pairs(raw: &str) -> (r: Vec<(String, String)>)
    ensures
        r.deep_view() == attribute_pairs(raw@),
{
    let v = chars_of(raw);
    let bounds = split_bounds(&v, ',');
    let ghost pieces = split(v@, ',');
    let mut out: Vec<(String, String)> = Vec::new();
    let mut k: usize = 0;
    while k < bounds.len()
        invariant
            v@ == raw@,
            pieces == split(v@, ','),
            bounds@.len() == pieces.len(),
            forall|q: int| 0 <= q < bounds@.len() ==> #[trigger] bounds@[q].0 <= bounds@[q].1 <= v.len(),
            forall|q: int|
                0 <= q < bounds@.len() ==> v@.subrange(bounds@[q].0 as int, bounds@[q].1 as int)
                    == #[trigger] pieces[q],
            k <= bounds.len(),
            out.deep_view() == pairs_of_pieces(pieces.take(k as int)),
        decreases bounds.len() - k,
    {
        let (lo, hi) = bounds[k];
        assert(lo <= hi <= v.len());
        let ghost piece = pieces[k as int];
        assert(v@.subrange(lo as int, hi as int) == piece);
        let ghost before = out.deep_view();
        assert(pieces.take(k + 1).drop_last() =~= pieces.take(k as int));
        assert(pieces.take(k + 1).last() == piece);
        match find_char(&v, lo, hi, '=') {
            Some(e) => {
                proof {
                    let i = (e - lo) as int;
                    assert(is_first_index(piece, '=', i));
                    let c = choose|c: int| is_first_index(piece, '=', c);
                    lemma_first_index_unique(piece, '=', i, c);
                    assert(piece.take(i) =~= v@.subrange(lo as int, e as int));
                    assert(piece.skip(i + 1) =~= v@.subrange(e + 1, hi as int));
                }
                let (ka, kb) = trim_bounds(&v, lo, e);
                let (va, vb) = trim_bounds(&v, e + 1, hi);
                if ka < kb && va < vb {
                    let key = raw.substring_char(ka, kb).to_owned();
                    if !is_sensitive_attribute_key(key.as_str()) {
                        let value = raw.substring_char(va, vb).to_owned();
                        out.push((key, value));
                        assert(out.deep_view() =~= before.push((key@, value@)));
                    }
                }
            },
            None => {
                proof {
                    assert forall|c: int| !is_first_index(piece, '=', c) by {
                        if is_first_index(piece, '=', c) {
                            assert(v@[lo + c] == piece[c]);
                        }
                    }
                }
            },
        }
        k = k + 1;
    }
    assert(pieces.take(bounds.len() as int) =~= pieces);
    out
}

/// The non-blank value of the variable `name` in `env`.
pub(crate) fn env_value_of(env: &EnvVars, name: &str) -> (r: Option<String>)
    ensures
        opt_view(r) == env_value(env@, name@),
{
    match env.get(name) {
        Some(value) => {
            let v = chars_of(value.as_str());
            let (a, b) = trim_bounds(&v, 0, v.len());
            assert(v@.subrange(0, v@.len() as int) =~= value@);
            if a < b {
                Some(value)
            } else {
                None
            }
        },
        None => None,
    }
}

/// Appends the attribute `key` with `value`, when there is a value.
fn push_attribute(attrs: &mut Vec<(String, String)>, key: &str, value: Option<String>)
    ensures
        final(attrs).deep_view() == old(attrs).deep_view() + optional_attribute(
            key@,
            opt_view(value),
        ),
{
    match value {
        Some(v) => {
            let ghost v_view = v@;
            attrs.push((key.to_owned(), v));
            assert(attrs.deep_view() =~= old(attrs).deep_view() + seq![(key@, v_view)]);
        },
        None => {
            assert(attrs.deep_view() =~= old(attrs).deep_view() + Seq::<(Seq<char>, Seq<char>)>::empty());
        },
    }
}

/// The first of two optional values that is present.
fn first_of(a: Option<String>, b: Option<String>) -> (r: Option<String>)
    ensures
        opt_view(r) == first_present(opt_view(a), opt_view(b)),
{
    match a {
        Some(x) => Some(x),
        None => b,
    }
}

/// The resource attributes of `service_name` in the environment `env`, as
/// `resource_attribute_list` states them.
pub fn resource_attributes(service_name: &str, env: &EnvVars) -> (r: Vec<(String, String)>)
    ensures
        r.deep_view() == resource_attribute_list(service_name@, env@),
{
    let namespace = match env_value_of(env, "OTEL_SERVICE_NAMESPACE") {
        Some(v) => v,
        None => "fiducia-cloud".to_owned(),
    };
    let mut attrs: Vec<(String, String)> = Vec::new();
    attrs.push(("service.name".to_owned(), service_name.to_owned()));
    attrs.push(("service.namespace".to_owned(), namespace));
    assert(attrs.deep_view() =~= seq![
        ("service.name"@, service_name@),
        ("service.namespace"@, service_namespace(env@)),
    ]);
    push_attribute(
        &mut attrs,
        "deployment.environment",
        first_of(env_value_of(env, "FIDUCIA_DEPLOYMENT_ENV"), env_value_of(env, "DEPLOYMENT_ENV")),
    );
    push_attribute(&mut attrs, "fiducia.cluster", env_value_of(env, "FIDUCIA_CLUSTER"));
    push_attribute(&mut attrs, "fiducia.cluster_id", env_value_of(env, "FIDUCIA_CLUSTER_ID"));
    push_attribute(&mut attrs, "cloud.provider", env_value_of(env, "FIDUCIA_CLOUD_PROVIDER"));
    push_attribute(&mut attrs, "cloud.region", env_value_of(env, "FIDUCIA_CLOUD_REGION"));
    push_attribute(&mut attrs, "k8s.namespace.name", env_value_of(env, "POD_NAMESPACE"));
    push_attribute(&mut attrs, "k8s.pod.name", env_value_of(env, "POD_NAME"));
    push_attribute(&mut attrs, "k8s.node.name", env_value_of(env, "NODE_NAME"));
    push_attribute(&mut attrs, "service.version", env_value_of(env, "SERVICE_VERSION"));
    push_attribute(
        &mut attrs,
        "service.instance.id",
        first_of(env_value_of(env, "POD_NAME"), env_value_of(env, "HOSTNAME")),
    );
    match env.get("OTEL_RESOURCE_ATTRIBUTES") {
        Some(raw) => {
            let pairs = otel_resource_attribute_pairs(raw.as_str());
            let ghost base = attrs.deep_view();
            let mut i: usize = 0;
            while i < pairs.len()
                invariant
                    i <= pairs.len(),
                    attrs.deep_view() == base + pairs.deep_view().take(i as int),
                decreases pairs.len() - i,
            {
                let k = pairs[i].0.clone();
                let v = pairs[i].1.clone();
                let ghost prev = attrs.deep_view();
                attrs.push((k, v));
                assert(pairs.deep_view()[i as int] == (k@, v@));
                assert(attrs.deep_view() =~= prev.push((k@, v@)));
                assert(attrs.deep_view() =~= base + pairs.deep_view().take(i + 1));
                i = i + 1;
            }
            assert(pairs.deep_view().take(pairs.len() as int) =~= pairs.deep_view());
        },
        None => {
            assert(attrs.deep_view() =~= attrs.deep_view() + Seq::<(Seq<char>, Seq<char>)>::empty());
        },
    }
    attrs
}

} // verus!
