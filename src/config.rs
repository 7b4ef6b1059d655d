//! Startup configuration and the routing table: rules that map model-name
//! patterns to ordered provider lists.
use vstd::prelude::*;
use vstd::string::*;
use crate::pattern::{chars_of, matches_pattern, model_matches_pattern};

verus! {

/// A rule as the contracts see it: a pattern and its providers, in order.
pub type RuleView = (Seq<char>, Seq<Seq<char>>);

/// The texts of a list of strings.
pub open spec fn strings_view(v: Seq<String>) -> Seq<Seq<char>> {
    v.map_values(|s: String| s@)
}

/// The rules of a mapping, as texts.
pub open spec fn rules_view(rs: Seq<(String, Vec<String>)>) -> Seq<RuleView> {
    rs.map_values(|r: (String, Vec<String>)| (r.0@, strings_view(r.1@)))
}

/// The providers of the first rule, in declaration order, whose pattern
/// matches `model`; `None` where no rule matches.
pub open spec fn resolve(model: Seq<char>, rules: Seq<RuleView>) -> Option<Seq<Seq<char>>>
    decreases rules.len(),
{
    if rules.len() == 0 {
        None
    } else if matches_pattern(model, rules[0].0) {
        Some(rules[0].1)
    } else {
        resolve(model, rules.drop_first())
    }
}

/// Lookup returns the providers of the first rule in declaration order whose
/// pattern matches the model, and nothing when no pattern matches.
pub proof fn lemma_resolve_first_match(model: Seq<char>, rules: Seq<RuleView>)
    ensures
        match resolve(model, rules) {
            Some(ps) => exists|i: int|
                #![trigger rules[i]]
                0 <= i < rules.len() && matches_pattern(model, rules[i].0) && rules[i].1 == ps
                    && forall|j: int| 0 <= j < i ==> !matches_pattern(model, #[trigger] rules[j].0),
            None => forall|i: int| 0 <= i < rules.len() ==> !matches_pattern(model, #[trigger] rules[i].0),
        },
    decreases rules.len(),
{
    if rules.len() > 0 && !matches_pattern(model, rules[0].0) {
        let rest = rules.drop_first();
        lemma_resolve_first_match(model, rest);
        match resolve(model, rest) {
            Some(ps) => {
                let k = choose|k: int|
                    #![trigger rest[k]]
                    0 <= k < rest.len() && matches_pattern(model, rest[k].0) && rest[k].1 == ps
                        && forall|j: int| 0 <= j < k ==> !matches_pattern(model, #[trigger] rest[j].0);
                assert(rules[k + 1] == rest[k]);
                assert forall|j: int| 0 <= j < k + 1 implies !matches_pattern(model, #[trigger] rules[j].0) by {
                    if j > 0 {
                        assert(rules[j] == rest[j - 1]);
                    }
                }
            },
            None => {
                assert forall|i: int| 0 <= i < rules.len() implies !matches_pattern(model, #[trigger] rules[i].0) by {
                    if i > 0 {
                        assert(rules[i] == rest[i - 1]);
                    }
                }
            },
        }
    }
}

/// The settings the proxy runs with; fixed once it has started.
#[derive(Debug, Clone)]
pub struct Config {
    /// Whether to serve over TLS.
    pub https: bool,
    /// Certificate file, where TLS is on.
    pub cert_path: Option<String>,
    /// Private key file, where TLS is on.
    pub key_path: Option<String>,
    /// Address to listen on.
    pub ip: String,
    /// Port to listen on.
    pub port: u16,
    /// The upstream API's base URL.
    pub openrouter_base_url: String,
    /// Routing rules, in declaration order: a pattern and its providers.
    pub model_provider_mapping: Vec<(String, Vec<String>)>,
}

/// The upstream base URL used unless another is given.
pub const DEFAULT_BASE_URL: &'static str = "https://openrouter.ai/api/v1";

/// The address listened on unless another is given.
pub const DEFAULT_IP: &'static str = "0.0.0.0";

/// The port listened on unless another is given.
pub const DEFAULT_PORT: u16 = 3000;

impl Config {
    /// The routing rules as texts.
    pub open spec fn rules(&self) -> Seq<RuleView> {
        rules_view(self.model_provider_mapping@)
    }

    /// The configuration with every setting at its default: plain HTTP on
    /// `0.0.0.0:3000`, the public upstream, and no routing rules.
    pub fn new() -> (r: Config)
        ensures
            !r.https,
            r.cert_path is None,
            r.key_path is None,
            r.ip@ == DEFAULT_IP@,
            r.port == DEFAULT_PORT,
            r.openrouter_base_url@ == DEFAULT_BASE_URL@,
            r.model_provider_mapping@.len() == 0,
    {
        Config {
            https: false,
            cert_path: None,
            key_path: None,
            ip: String::from_str(DEFAULT_IP),
            port: DEFAULT_PORT,
            openrouter_base_url: String::from_str(DEFAULT_BASE_URL),
            model_provider_mapping: Vec::new(),
        }
    }

    /// The providers of the first rule whose pattern matches `model`.
    pub fn find_providers_for_model(&self, model: &str) -> (r: Option<Vec<String>>)
        ensures
            match r {
                Some(ps) => resolve(model@, self.rules()) == Some(strings_view(ps@)),
                None => resolve(model@, self.rules()) is None,
            },
    {
        let rules = &self.model_provider_mapping;
        let ghost all = self.rules();
        let mut i: usize = 0;
        assert(all.subrange(0, all.len() as int) =~= all);
        while i < rules.len()
            invariant
                rules@ == self.model_provider_mapping@,
                all == rules_view(rules@),
                i <= rules@.len(),
                resolve(model@, all) == resolve(model@, all.subrange(i as int, all.len() as int)),
            decreases rules@.len() - i,
        {
            let ghost rest = all.subrange(i as int, all.len() as int);
            assert(rest[0] == all[i as int]);
            if model_matches_pattern(model, rules[i].0.as_str()) {
                return Some(copy_strings(&rules[i].1));
            }
            assert(rest.drop_first() =~= all.subrange(i + 1, all.len() as int));
            i = i + 1;
        }
        assert(all.subrange(i as int, all.len() as int).len() == 0);
        None
    }
}

/// A copy of a list of strings.
pub fn copy_strings(v: &Vec<String>) -> (r: Vec<String>)
    ensures
        r@ == v@,
{
    let mut r: Vec<String> = Vec::new();
    let mut i: usize = 0;
    while i < v.len()
        invariant
            i <= v@.len(),
            r@ == v@.subrange(0, i as int),
        decreases v@.len() - i,
    {
        r.push(v[i].clone());
        i = i + 1;
        assert(r@ =~= v@.subrange(0, i as int));
    }
    assert(r@ =~= v@);
    r
}

/// The pieces of `s` between occurrences of `sep`, as `str::split` cuts
/// them: `n` separators give `n + 1` pieces, empty ones included.
pub open spec fn split_on(s: Seq<char>, sep: char) -> Seq<Seq<char>>
    decreases s.len(),
{
    if s.len() == 0 {
        seq![Seq::<char>::empty()]
    } else {
        let init = split_on(s.drop_last(), sep);
        if s.last() == sep {
            init.push(Seq::<char>::empty())
        } else {
            init.update(init.len() - 1, init.last().push(s.last()))
        }
    }
}

/// Whether a character beyond ASCII has the Unicode `White_Space` property.
pub uninterp spec fn unicode_space(c: char) -> bool;

/// Whether `c` is white space: among ASCII, tab, line feed, vertical tab,
/// form feed, carriage return and space.
pub open spec fn is_space(c: char) -> bool {
    if (c as u32) < 128 {
        c as u32 == 32 || (9 <= c as u32 && c as u32 <= 13)
    } else {
        unicode_space(c)
    }
}

/// Relies on `char::is_whitespace`: the Unicode `White_Space` property,
/// which among ASCII holds of tab, line feed, vertical tab, form feed,
/// carriage return and space.
#[verifier::external_body]
fn white_space(c: char) -> (r: bool)
    ensures
        (c as u32) < 128 ==> r == (c as u32 == 32 || (9 <= c as u32 && c as u32 <= 13)),
        (c as u32) >= 128 ==> r == unicode_space(c),
{
    c.is_whitespace()
}

/// The text without its leading white space.
pub open spec fn trim_start(s: Seq<char>) -> Seq<char>
    decreases s.len(),
{
    if s.len() > 0 && is_space(s[0]) {
        trim_start(s.drop_first())
    } else {
        s
    }
}

/// The text without its trailing white space.
pub open spec fn trim_end(s: Seq<char>) -> Seq<char>
    decreases s.len(),
{
    if s.len() > 0 && is_space(s.last()) {
        trim_end(s.drop_last())
    } else {
        s
    }
}

/// The text without leading and trailing white space, as `str::trim` gives.
pub open spec fn trimmed(s: Seq<char>) -> Seq<char> {
    trim_end(trim_start(s))
}

/// The text without leading and trailing white space.
pub fn trim_text(s: &str) -> (r: String)
    ensures
        r@ == trimmed(s@),
{
    let n = s.unicode_len();
    let mut i: usize = 0;
    assert(s@.subrange(0, n as int) =~= s@);
    loop
        invariant
            n == s@.len(),
            i <= n,
            trim_start(s@) == trim_start(s@.subrange(i as int, n as int)),
        ensures
            i == n || !is_space(s@[i as int]),
        decreases n - i,
    {
        if i == n || !white_space(s.get_char(i)) {
            break;
        }
        assert(s@.subrange(i as int, n as int).drop_first() =~= s@.subrange(i + 1, n as int));
        i = i + 1;
    }
    let ghost rest = s@.subrange(i as int, n as int);
    if i < n {
        assert(rest[0] == s@[i as int]);
    }
    assert(trim_start(rest) == rest);
    let mut j: usize = n;
    loop
        invariant
            n == s@.len(),
            i <= j <= n,
            rest == s@.subrange(i as int, n as int),
            trim_end(rest) == trim_end(s@.subrange(i as int, j as int)),
        ensures
            i <= j <= n,
            trim_end(rest) == trim_end(s@.subrange(i as int, j as int)),
            j == i || !is_space(s@[j - 1]),
        decreases j - i,
    {
        if j == i || !white_space(s.get_char(j - 1)) {
            break;
        }
        assert(s@.subrange(i as int, j as int).drop_last() =~= s@.subrange(i as int, j - 1));
        j = j - 1;
    }
    if j > i {
        assert(s@.subrange(i as int, j as int).last() == s@[j - 1]);
    }
    assert(trim_end(s@.subrange(i as int, j as int)) == s@.subrange(i as int, j as int));
    String::from_str(s.substring_char(i, j))
}

/// The part of a pattern between its optional leading and trailing `*`.
pub open spec fn pattern_core(p: Seq<char>) -> Seq<char> {
    let start: int = if p.len() > 0 && p[0] == '*' {
        1
    } else {
        0
    };
    let end: int = if p.len() > start && p[p.len() - 1] == '*' {
        p.len() - 1
    } else {
        p.len() as int
    };
    p.subrange(start, end)
}

/// A pattern has one of the shapes `X`, `X*`, `*X` or `*X*`, with `X`
/// non-empty and free of `*`.
pub open spec fn well_formed_pattern(p: Seq<char>) -> bool {
    pattern_core(p).len() > 0 && !pattern_core(p).contains('*')
}

/// The rule that a text `pattern=provider1,provider2` describes: exactly
/// one `=`, a well-formed pattern, and providers none of which is empty,
/// each trimmed of surrounding white space; `None` for any other text.
pub open spec fn rule_of(s: Seq<char>) -> Option<RuleView> {
    let parts = split_on(s, '=');
    if parts.len() != 2 {
        None
    } else {
        let pattern = trimmed(parts[0]);
        let providers = split_on(parts[1], ',').map_values(|p: Seq<char>| trimmed(p));
        if well_formed_pattern(pattern) && forall|k: int|
            0 <= k < providers.len() ==> #[trigger] providers[k].len() > 0 {
            Some((pattern, providers))
        } else {
            None
        }
    }
}

/// Splitting gives at least one piece.
pub proof fn lemma_split_nonempty(s: Seq<char>, sep: char)
    ensures
        split_on(s, sep).len() >= 1,
    decreases s.len(),
{
    if s.len() > 0 {
        lemma_split_nonempty(s.drop_last(), sep);
    }
}

/// Whether the pattern has one of the shapes `X`, `X*`, `*X`, `*X*`.
pub fn is_well_formed_pattern(pattern: &str) -> (r: bool)
    ensures
        r == well_formed_pattern(pattern@),
{
    let p = chars_of(pattern);
    let n = p.len();
    let start: usize = if n > 0 && p[0] == '*' {
        1
    } else {
        0
    };
    let end: usize = if n > start && p[n - 1] == '*' {
        n - 1
    } else {
        n
    };
    assert(pattern_core(pattern@) =~= p@.subrange(start as int, end as int));
    if end <= start {
        return false;
    }
    let mut i: usize = start;
    while i < end
        invariant
            p@ == pattern@,
            start <= i <= end <= p@.len(),
            pattern_core(pattern@) == p@.subrange(start as int, end as int),
            forall|k: int| start <= k < i ==> p@[k] != '*',
        decreases end - i,
    {
        if p[i] == '*' {
            assert(pattern_core(pattern@)[i - start] == '*');
            return false;
        }
        i = i + 1;
    }
    assert(!pattern_core(pattern@).contains('*')) by {
        assert forall|k: int| 0 <= k < pattern_core(pattern@).len() implies pattern_core(pattern@)[k]
            != '*' by {
            assert(pattern_core(pattern@)[k] == p@[start + k]);
        }
    }
    true
}

/// The pieces of `s` between occurrences of `sep`.
pub fn split_text(s: &str, sep: char) -> (r: Vec<String>)
    ensures
        strings_view(r@) == split_on(s@, sep),
{
    let n = s.unicode_len();
    let mut pieces: Vec<String> = Vec::new();
    let mut start: usize = 0;
    let mut i: usize = 0;
    assert(s@.subrange(0, 0) =~= Seq::<char>::empty());
    assert(strings_view(pieces@).push(s@.subrange(0, 0)) =~= seq![Seq::<char>::empty()]);
    while i < n
        invariant
            n == s@.len(),
            start <= i <= n,
            strings_view(pieces@).push(s@.subrange(start as int, i as int)) == split_on(
                s@.subrange(0, i as int),
                sep,
            ),
        decreases n - i,
    {
        let c = s.get_char(i);
        let ghost old_pieces = pieces@;
        assert(s@.subrange(0, i + 1).drop_last() =~= s@.subrange(0, i as int));
        assert(s@.subrange(0, i + 1).last() == c);
        let ghost st = start;
        if c == sep {
            pieces.push(String::from_str(s.substring_char(start, i)));
            start = i + 1;
            assert(strings_view(pieces@) =~= strings_view(old_pieces).push(
                s@.subrange(st as int, i as int),
            ));
            assert(s@.subrange(start as int, i + 1) =~= Seq::<char>::empty());
            assert(strings_view(pieces@).push(s@.subrange(start as int, i + 1)) =~= split_on(
                s@.subrange(0, i + 1),
                sep,
            ));
        } else {
            assert(s@.subrange(start as int, i + 1) =~= s@.subrange(start as int, i as int).push(c));
            assert(strings_view(pieces@).push(s@.subrange(start as int, i + 1)) =~= split_on(
                s@.subrange(0, i + 1),
                sep,
            ));
        }
        i = i + 1;
    }
    let ghost before = pieces@;
    pieces.push(String::from_str(s.substring_char(start, n)));
    assert(s@.subrange(0, n as int) =~= s@);
    assert(strings_view(pieces@) =~= strings_view(before).push(s@.subrange(start as int, n as int)));
    pieces
}

/// Reads a routing rule written `pattern=provider1,provider2` (see
/// [`rule_of`]); a text that describes no rule is refused.
pub fn parse_model_provider_mapping(s: &str) -> (r: Result<(String, Vec<String>), String>)
    ensures
        match rule_of(s@) {
            Some(rule) => r matches Ok(x) && x.0@ == rule.0 && strings_view(x.1@) == rule.1
                && x.1@.len() >= 1,
            None => r is Err,
        },
{
    let parts = split_text(s, '=');
    if parts.len() != 2 {
        return Err(String::from_str(MAPPING_FORMAT));
    }
    assert(parts@[0]@ == split_on(s@, '=')[0]);
    assert(parts@[1]@ == split_on(s@, '=')[1]);
    let pattern = trim_text(parts[0].as_str());
    if !is_well_formed_pattern(pattern.as_str()) {
        return Err(String::from_str(MAPPING_PATTERN));
    }
    let pieces = split_text(parts[1].as_str(), ',');
    proof {
        lemma_split_nonempty(split_on(s@, '=')[1], ',');
    }
    let mut providers: Vec<String> = Vec::new();
    let mut i: usize = 0;
    while i < pieces.len()
        invariant
            i <= pieces@.len(),
            strings_view(pieces@) == split_on(split_on(s@, '=')[1], ','),
            split_on(s@, '=').len() == 2,
            strings_view(providers@) == strings_view(pieces@).subrange(0, i as int).map_values(
                |p: Seq<char>| trimmed(p),
            ),
            forall|k: int| 0 <= k < i ==> #[trigger] providers@[k]@.len() > 0,
        decreases pieces@.len() - i,
    {
        let ghost before = providers@;
        let provider = trim_text(pieces[i].as_str());
        if provider.as_str().unicode_len() == 0 {
            assert(strings_view(pieces@)[i as int] == pieces@[i as int]@);
            assert(strings_view(pieces@).map_values(|p: Seq<char>| trimmed(p))[i as int].len() == 0);
            return Err(String::from_str(MAPPING_EMPTY_PROVIDER));
        }
        providers.push(provider);
        i = i + 1;
        assert(strings_view(providers@) =~= strings_view(before).push(trimmed(pieces@[i - 1]@)));
        assert(strings_view(pieces@).subrange(0, i as int).map_values(|p: Seq<char>| trimmed(p))
            =~= strings_view(pieces@).subrange(0, i - 1).map_values(|p: Seq<char>| trimmed(p)).push(
            trimmed(pieces@[i - 1]@),
        ));
        assert(strings_view(providers@) =~= strings_view(pieces@).subrange(0, i as int).map_values(
            |p: Seq<char>| trimmed(p),
        ));
    }
    assert(strings_view(pieces@).subrange(0, i as int) =~= strings_view(pieces@));
    assert forall|k: int|
        0 <= k < strings_view(providers@).len() implies #[trigger] strings_view(providers@)[k].len()
        > 0 by {
        assert(providers@[k]@.len() > 0);
    }
    Ok((pattern, providers))
}

/// Message of the error for a rule without exactly one `=`.
pub const MAPPING_FORMAT: &'static str = "a routing rule is written pattern=provider1,provider2";

/// Message of the error for a pattern of another shape than `X`, `X*`, `*X`, `*X*`.
pub const MAPPING_PATTERN: &'static str = "a pattern is X, X*, *X or *X*, with X non-empty and without *";

/// Message of the error for a rule that names an empty provider.
pub const MAPPING_EMPTY_PROVIDER: &'static str = "a routing rule needs at least one provider, none of them empty";

} // verus!
