//! Rules that recognise peers to ban.
use vstd::prelude::*;
use crate::peer::Peer;
use crate::ratio::{exceeds_progress_gap, exceeds_ratio, parse_decimal, progress_gap_exceeds, ratio_exceeds, ratio_of};
use crate::text::{
    chars_of, count_of, lemma_count_concat, lemma_count_zero_absent, first_index_of, lemma_count_absent, lemma_count_take, lemma_first_index_unique, seq_contains,
    seq_has_prefix, str_contains, str_has_prefix, same_text,
};

pub mod preload;

verus! {

broadcast use vstd::string::group_string_axioms;

/// What a rule looks at.
#[derive(Debug, Clone, Copy, PartialEq, Eq, Structural)]
pub enum RuleType {
    /// The peer id starts with the value.
    IDPrefixMatch,
    /// The peer id contains the value.
    IDContains,
    /// The client name starts with the value.
    NamePrefixMatch,
    /// The client name contains the value.
    NameContains,
    /// The address lies in a blocked range (not available yet).
    IPBlockMatch,
    /// The peer claims more progress than we could have sent it: the share of
    /// the torrent we uploaded to it, less its progress, exceeds the value.
    ProgressProbe,
    /// The peer sent us more than the value times the torrent's size.
    ExcessiveProbe,
}

/// A rule: what to look at, and the text or threshold to compare with.
#[derive(Debug, Clone)]
pub struct Rule {
    pub class: RuleType,
    pub value: String,
}

/// The name under which a rule type is written in a rule string.
pub open spec fn rule_type_name(t: RuleType) -> Seq<char> {
    match t {
        RuleType::IDPrefixMatch => "idStartsWith"@,
        RuleType::IDContains => "idContains"@,
        RuleType::NamePrefixMatch => "nameStartsWith"@,
        RuleType::NameContains => "nameContains"@,
        RuleType::IPBlockMatch => "ipBlockMatch"@,
        RuleType::ProgressProbe => "progressProbe"@,
        RuleType::ExcessiveProbe => "excessiveProbe"@,
    }
}

/// The rule type that `s` names, if any.
pub open spec fn rule_type_named(s: Seq<char>) -> Option<RuleType> {
    if s == "idStartsWith"@ {
        Some(RuleType::IDPrefixMatch)
    } else if s == "idContains"@ {
        Some(RuleType::IDContains)
    } else if s == "nameStartsWith"@ {
        Some(RuleType::NamePrefixMatch)
    } else if s == "nameContains"@ {
        Some(RuleType::NameContains)
    } else if s == "ipBlockMatch"@ {
        Some(RuleType::IPBlockMatch)
    } else if s == "progressProbe"@ {
        Some(RuleType::ProgressProbe)
    } else if s == "excessiveProbe"@ {
        Some(RuleType::ExcessiveProbe)
    } else {
        None
    }
}

/// The type and value of the rule written `class@value`: `s` holds exactly
/// one `@` and the text before it names a rule type.
pub open spec fn rule_parts(s: Seq<char>) -> Option<(RuleType, Seq<char>)> {
    if count_of(s, '@') == 1 {
        let i = first_index_of(s, '@');
        match rule_type_named(s.take(i)) {
            Some(t) => Some((t, s.skip(i + 1))),
            None => None,
        }
    } else {
        None
    }
}

/// Whether a rule of type `t` compares a threshold rather than text.
pub open spec fn is_probe(t: RuleType) -> bool {
    t == RuleType::ProgressProbe || t == RuleType::ExcessiveProbe
}

/// Whether `rule` catches `peer` on a torrent of `torrent_size` bytes.
pub open spec fn rule_matches(rule: Rule, peer: Peer, torrent_size: u64) -> bool {
    match rule.class {
        RuleType::IDPrefixMatch => seq_has_prefix(peer.id@, rule.value@),
        RuleType::IDContains => seq_contains(peer.id@, rule.value@),
        RuleType::NamePrefixMatch => seq_has_prefix(peer.name@, rule.value@),
        RuleType::NameContains => seq_contains(peer.name@, rule.value@),
        RuleType::IPBlockMatch => false,
        RuleType::ProgressProbe => match ratio_of(rule.value@) {
            Some(t) => progress_gap_exceeds(
                peer.uploaded as int,
                torrent_size as int,
                peer.progress as int,
                t,
            ),
            None => false,
        },
        RuleType::ExcessiveProbe => match ratio_of(rule.value@) {
            Some(t) => ratio_exceeds(peer.downloaded as int, torrent_size as int, t),
            None => false,
        },
    }
}

impl RuleType {
    /// The rule type named `s`, or `None` for an unknown name.
    pub fn parse(s: &str) -> (r: Option<RuleType>)
        ensures
            r == rule_type_named(s@),
    {
        if same_text(s, "idStartsWith") {
            Some(RuleType::IDPrefixMatch)
        } else if same_text(s, "idContains") {
            Some(RuleType::IDContains)
        } else if same_text(s, "nameStartsWith") {
            Some(RuleType::NamePrefixMatch)
        } else if same_text(s, "nameContains") {
            Some(RuleType::NameContains)
        } else if same_text(s, "ipBlockMatch") {
            Some(RuleType::IPBlockMatch)
        } else if same_text(s, "progressProbe") {
            Some(RuleType::ProgressProbe)
        } else if same_text(s, "excessiveProbe") {
            Some(RuleType::ExcessiveProbe)
        } else {
            None
        }
    }

    /// The rule type named `s`, which must be one of the names.
    pub fn from(s: &str) -> (r: RuleType)
        requires
            rule_type_named(s@) is Some,
        ensures
            rule_type_named(s@) == Some(r),
    {
        match RuleType::parse(s) {
            Some(t) => t,
            None => RuleType::IPBlockMatch,
        }
    }
}

/// A rule of type `t` and value `v` can be evaluated: `t` is not
/// `IPBlockMatch`, and the value of a probe is a decimal threshold.
pub open spec fn usable(t: RuleType, v: Seq<char>) -> bool {
    &&& t != RuleType::IPBlockMatch
    &&& is_probe(t) ==> ratio_of(v) is Some
}

impl Rule {
    /// A rule that `match_peer` can evaluate (see `usable`).
    pub open spec fn matchable(&self) -> bool {
        usable(self.class, self.value@)
    }

    /// The rule written `class@value`, or `None` when `s` does not have
    /// exactly one `@` or `class` is not a rule type's name.
    pub fn parse(s: &str) -> (r: Option<Rule>)
        ensures
            match rule_parts(s@) {
                Some((t, v)) => r matches Some(rule) && rule.class == t && rule.value@ == v,
                None => r is None,
            },
    {
        let cs = chars_of(s);
        let n = cs.len();
        let ghost sq = cs@;
        let mut at: usize = 0;
        while at < n && cs[at] != '@'
            invariant
                n == sq.len(),
                cs@ == sq,
                at <= n,
                forall|j: int| 0 <= j < at ==> sq[j] != '@',
            decreases n - at,
        {
            at = at + 1;
        }
        proof {
            lemma_first_index_unique(sq, '@', at as int);
        }
        let mut count: usize = 0;
        let mut k: usize = 0;
        while k < n
            invariant
                n == sq.len(),
                cs@ == sq,
                k <= n,
                count <= k,
                count == count_of(sq.take(k as int), '@'),
            decreases n - k,
        {
            proof {
                lemma_count_take(sq, '@', k as int);
            }
            if cs[k] == '@' {
                count = count + 1;
            }
            k = k + 1;
        }
        assert(sq.take(n as int) =~= sq);
        if count != 1 {
            return None;
        }
        proof {
            if at == n {
                lemma_count_absent(sq, '@');
            }
        }
        let class_text = s.substring_char(0, at);
        match RuleType::parse(class_text) {
            Some(class) => {
                let value = s.substring_char(at + 1, n).to_owned();
                Some(Rule { class, value })
            },
            None => None,
        }
    }

    /// The rule written `class@value`; `s` must have that form.
    pub fn from(s: &str) -> (r: Rule)
        requires
            rule_parts(s@) is Some,
        ensures
            rule_parts(s@) == Some((r.class, r.value@)),
    {
        match Rule::parse(s) {
            Some(rule) => rule,
            None => Rule { class: RuleType::IPBlockMatch, value: String::new() },
        }
    }

    /// Whether this rule catches `peer`, seen on a torrent of `torrent_size` bytes.
    pub fn match_peer(&self, peer: &Peer, torrent_size: u64) -> (r: bool)
        requires
            self.matchable(),
        ensures
            r == rule_matches(*self, *peer, torrent_size),
    {
        match self.class {
            RuleType::IDPrefixMatch => str_has_prefix(peer.id.as_str(), self.value.as_str()),
            RuleType::IDContains => str_contains(peer.id.as_str(), self.value.as_str()),
            RuleType::NamePrefixMatch => str_has_prefix(peer.name.as_str(), self.value.as_str()),
            RuleType::NameContains => str_contains(peer.name.as_str(), self.value.as_str()),
            RuleType::ProgressProbe => match parse_decimal(self.value.as_str()) {
                Some(t) => exceeds_progress_gap(peer.uploaded, torrent_size, peer.progress, t),
                None => false,
            },
            RuleType::ExcessiveProbe => match parse_decimal(self.value.as_str()) {
                Some(t) => exceeds_ratio(peer.downloaded, torrent_size, t),
                None => false,
            },
            RuleType::IPBlockMatch => false,
        }
    }

    /// Whether `match_peer` can evaluate this rule (see `matchable`).
    pub fn is_matchable(&self) -> (r: bool)
        ensures
            r == self.matchable(),
    {
        match self.class {
            RuleType::IPBlockMatch => false,
            RuleType::ProgressProbe | RuleType::ExcessiveProbe => parse_decimal(
                self.value.as_str(),
            ).is_some(),
            _ => true,
        }
    }
}

} // verus!
verus! {

/// Each rule type's name reads back as that rule type.
pub proof fn lemma_rule_type_name_roundtrip(t: RuleType)
    ensures
        rule_type_named(rule_type_name(t)) == Some(t),
{
    reveal_strlit("idStartsWith");
    reveal_strlit("idContains");
    reveal_strlit("nameStartsWith");
    reveal_strlit("nameContains");
    reveal_strlit("ipBlockMatch");
    reveal_strlit("progressProbe");
    reveal_strlit("excessiveProbe");
    let names = seq![
        "idStartsWith"@,
        "idContains"@,
        "nameStartsWith"@,
        "nameContains"@,
        "ipBlockMatch"@,
        "progressProbe"@,
        "excessiveProbe"@,
    ];
    // names of equal length differ in their first two characters
    assert forall|i: int, j: int| 0 <= i < j < 7 implies names[i] != names[j] by {
        if names[i].len() == names[j].len() {
            assert(names[i][0] != names[j][0] || names[i][1] != names[j][1]);
        }
    }
}

proof fn lemma_name_has_no_at(t: RuleType)
    ensures
        count_of(rule_type_name(t), '@') == 0,
{
    reveal_strlit("idStartsWith");
    reveal_strlit("idContains");
    reveal_strlit("nameStartsWith");
    reveal_strlit("nameContains");
    reveal_strlit("ipBlockMatch");
    reveal_strlit("progressProbe");
    reveal_strlit("excessiveProbe");
    reveal_with_fuel(count_of, 15);
}

/// A rule written `name@value` reads back as that rule type and value,
/// provided the value holds no `@`.
pub proof fn lemma_rule_text_roundtrip(t: RuleType, v: Seq<char>)
    requires
        count_of(v, '@') == 0,
    ensures
        rule_parts(rule_type_name(t) + "@"@ + v) == Some((t, v)),
{
    reveal_strlit("@");
    let n = rule_type_name(t);
    let s = n + "@"@ + v;
    lemma_name_has_no_at(t);
    lemma_count_zero_absent(n, '@');
    lemma_count_concat(n + "@"@, v, '@');
    lemma_count_concat(n, "@"@, '@');
    assert("@"@.drop_last() =~= Seq::<char>::empty());
    assert(count_of(Seq::<char>::empty(), '@') == 0);
    assert(count_of("@"@, '@') == 1);
    assert(s[n.len() as int] == '@');
    crate::text::lemma_first_index_unique(s, '@', n.len() as int);
    assert(s.take(n.len() as int) =~= n);
    assert(s.skip(n.len() as int + 1) =~= v);
    lemma_rule_type_name_roundtrip(t);
}

/// An excessive-download probe looks only at how much the peer sent us:
/// peers that sent the same amount get the same verdict, and the verdict is
/// whether that amount over the torrent's size exceeds the threshold.
pub proof fn lemma_excessive_probe_reads_downloaded(rule: Rule, a: Peer, b: Peer, torrent_size: u64)
    requires
        rule.class == RuleType::ExcessiveProbe,
        a.downloaded == b.downloaded,
    ensures
        rule_matches(rule, a, torrent_size) == rule_matches(rule, b, torrent_size),
        ratio_of(rule.value@) matches Some(t) ==> rule_matches(rule, a, torrent_size)
            == ratio_exceeds(a.downloaded as int, torrent_size as int, t),
{
}

/// A peer that sent us more is caught by an excessive-download probe that
/// catches one that sent less.
pub proof fn lemma_excessive_probe_monotone(rule: Rule, a: Peer, b: Peer, torrent_size: u64)
    requires
        rule.class == RuleType::ExcessiveProbe,
        a.downloaded <= b.downloaded,
        rule_matches(rule, a, torrent_size),
    ensures
        rule_matches(rule, b, torrent_size),
{
    match ratio_of(rule.value@) {
        Some(t) => crate::ratio::lemma_ratio_exceeds_monotone(
            a.downloaded as int,
            b.downloaded as int,
            torrent_size as int,
            t,
        ),
        None => {},
    }
}

/// A progress probe looks only at what we sent the peer and the progress it
/// reports; the more progress it reports, the less it is suspected.
pub proof fn lemma_progress_probe_reads_upload_and_progress(
    rule: Rule,
    a: Peer,
    b: Peer,
    torrent_size: u64,
)
    requires
        rule.class == RuleType::ProgressProbe,
        a.uploaded == b.uploaded,
    ensures
        a.progress == b.progress ==> rule_matches(rule, a, torrent_size) == rule_matches(
            rule,
            b,
            torrent_size,
        ),
        a.progress <= b.progress && torrent_size > 0 && rule_matches(rule, b, torrent_size)
            ==> rule_matches(rule, a, torrent_size),
{
    if a.progress <= b.progress && torrent_size > 0 && rule_matches(rule, b, torrent_size) {
        match ratio_of(rule.value@) {
            Some(t) => crate::ratio::lemma_progress_gap_monotone(
                a.uploaded as int,
                torrent_size as int,
                a.progress as int,
                b.progress as int,
                t,
            ),
            None => {},
        }
    }
}

/// A text rule looks only at the peer id (`id...` rules) or the client name
/// (`name...` rules), never at traffic or progress.
pub proof fn lemma_text_rules_read_text(rule: Rule, a: Peer, b: Peer, torrent_size: u64)
    requires
        !is_probe(rule.class),
        a.id@ == b.id@,
        a.name@ == b.name@,
    ensures
        rule_matches(rule, a, torrent_size) == rule_matches(rule, b, torrent_size),
        rule.class == RuleType::IDPrefixMatch ==> rule_matches(rule, a, torrent_size)
            == seq_has_prefix(a.id@, rule.value@),
        rule.class == RuleType::NameContains ==> rule_matches(rule, a, torrent_size)
            == seq_contains(a.name@, rule.value@),
{
}

} // verus!
