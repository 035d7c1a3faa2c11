use vstd::prelude::*;
use crate::uri::{extract_host, host_of, UriParts, UriView};

verus! {

/// One rewrite rule: requests whose destination host equals `match_host`
/// get their scheme and authority forced and `marker` appended to the
/// query string.
pub struct RewriteRule {
    pub match_host: String,
    pub scheme: String,
    pub authority: String,
    pub marker: String,
}

/// Whether a rule applies to a target: the target has an authority whose
/// host part equals the rule's host, compared exactly as received.
pub open spec fn rule_matches(rule: RewriteRule, u: UriView) -> bool {
    match u.authority {
        Some(a) => host_of(a) == rule.match_host@,
        None => false,
    }
}

/// The query after rewriting: the marker pair appended to an existing
/// query with `&`, or the marker alone where there was none.
pub open spec fn amended_query(q: Option<Seq<char>>, marker: Seq<char>) -> Seq<char> {
    match q {
        Some(qs) => qs + "&"@ + marker,
        None => marker,
    }
}

/// The target after one rule is applied: scheme and authority forced to
/// the rule's, path kept verbatim, query amended with the marker.
pub open spec fn apply_rule_spec(rule: RewriteRule, u: UriView) -> UriView {
    UriView {
        scheme: Some(rule.scheme@),
        authority: Some(rule.authority@),
        path: u.path,
        query: Some(amended_query(u.query, rule.marker@)),
    }
}

/// The target after the whole table: the first matching rule is applied;
/// with no match the target passes through unchanged.
pub open spec fn rewritten(rules: Seq<RewriteRule>, u: UriView) -> UriView
    decreases rules.len(),
{
    if rules.len() == 0 {
        u
    } else if rule_matches(rules[0], u) {
        apply_rule_spec(rules[0], u)
    } else {
        rewritten(rules.drop_first(), u)
    }
}

/// No rule of the table applies to the target.
pub open spec fn no_rule_matches(rules: Seq<RewriteRule>, u: UriView) -> bool {
    forall|i: int| 0 <= i < rules.len() ==> !rule_matches(rules[i], u)
}

/// A target matched by no rule is forwarded with scheme, authority, path
/// and query exactly as they arrived.
pub proof fn lemma_no_match_is_identity(rules: Seq<RewriteRule>, u: UriView)
    requires
        no_rule_matches(rules, u),
    ensures
        rewritten(rules, u) == u,
    decreases rules.len(),
{
    if rules.len() > 0 {
        assert(!rule_matches(rules[0], u));
        assert(forall|i: int|
            0 <= i < rules.drop_first().len() ==> rules.drop_first()[i] == rules[i + 1]);
        lemma_no_match_is_identity(rules.drop_first(), u);
    }
}

/// A target whose host the table matches first at position `i` leaves
/// with the scheme and authority of that rule, its path unchanged, and
/// the rule's marker appended to its query.
pub proof fn lemma_first_match_applies(rules: Seq<RewriteRule>, u: UriView, i: int)
    requires
        0 <= i < rules.len(),
        rule_matches(rules[i], u),
        forall|j: int| 0 <= j < i ==> !rule_matches(rules[j], u),
    ensures
        rewritten(rules, u) == apply_rule_spec(rules[i], u),
        rewritten(rules, u).scheme == Some(rules[i].scheme@),
        rewritten(rules, u).authority == Some(rules[i].authority@),
        rewritten(rules, u).path == u.path,
        rewritten(rules, u).query == Some(amended_query(u.query, rules[i].marker@)),
    decreases rules.len(),
{
    if i == 0 {
        assert(rule_matches(rules[0], u));
    } else {
        assert(!rule_matches(rules[0], u));
        assert(forall|k: int|
            0 <= k < rules.drop_first().len() ==> rules.drop_first()[k] == rules[k + 1]);
        lemma_first_match_applies(rules.drop_first(), u, i - 1);
    }
}

/// Whether `rule` applies to `uri`'s destination host.
pub fn rule_applies(rule: &RewriteRule, uri: &UriParts) -> (r: bool)
    ensures
        r == rule_matches(*rule, uri@),
{
    match &uri.authority {
        Some(a) => {
            let h = extract_host(a.as_str());
            h == rule.match_host
        },
        None => false,
    }
}

/// Rebuilds the target under `rule`: forced scheme and authority, the
/// path verbatim, and the marker pair appended to the query.
pub fn apply_rule(rule: &RewriteRule, uri: &UriParts) -> (r: UriParts)
    ensures
        r@ == apply_rule_spec(*rule, uri@),
{
    let q: String = match &uri.query {
        Some(qs) => qs.clone().concat("&").concat(rule.marker.as_str()),
        None => rule.marker.clone(),
    };
    let r = UriParts {
        scheme: Some(rule.scheme.clone()),
        authority: Some(rule.authority.clone()),
        path: uri.path.clone(),
        query: Some(q),
    };
    proof {
        assert(r@ =~= apply_rule_spec(*rule, uri@));
    }
    r
}

/// Applies the first matching rule of the table to the target, or hands
/// the target back unchanged when no rule matches.
pub fn apply_rules(rules: &Vec<RewriteRule>, uri: &UriParts) -> (r: UriParts)
    ensures
        r@ == rewritten(rules@, uri@),
{
    let n = rules.len();
    let mut idx: usize = 0;
    proof {
        assert(rules@.skip(0) =~= rules@);
    }
    while idx < n
        invariant
            idx <= n,
            n == rules@.len(),
            rewritten(rules@, uri@) == rewritten(rules@.skip(idx as int), uri@),
        decreases n - idx,
    {
        proof {
            assert(rules@.skip(idx as int)[0] == rules@[idx as int]);
            assert(rules@.skip(idx as int).drop_first() =~= rules@.skip(idx as int + 1));
        }
        if rule_applies(&rules[idx], uri) {
            return apply_rule(&rules[idx], uri);
        }
        idx = idx + 1;
    }
    proof {
        assert(rules@.skip(n as int) =~= Seq::<RewriteRule>::empty());
    }
    uri.clone()
}

/// The built-in table: one rule sending `api.formswift.com` to the
/// encrypted scheme on port 443 with the marker pair appended.
pub fn default_rules() -> (r: Vec<RewriteRule>)
    ensures
        r@.len() == 1,
        r@[0].match_host@ == "api.formswift.com"@,
        r@[0].scheme@ == "https"@,
        r@[0].authority@ == "api.formswift.com:443"@,
        r@[0].marker@ == "with_ecs=true"@,
{
    let rule = RewriteRule {
        match_host: "api.formswift.com".to_owned(),
        scheme: "https".to_owned(),
        authority: "api.formswift.com:443".to_owned(),
        marker: "with_ecs=true".to_owned(),
    };
    let mut v: Vec<RewriteRule> = Vec::new();
    v.push(rule);
    v
}

} // verus!
