//! The rules the daemon starts with.
use vstd::prelude::*;
use crate::rules::{Rule, rule_parts, usable, RuleType, lemma_rule_text_roundtrip};
use crate::ratio::{
    decimal_of, digits_value, is_digit, lemma_decimal_of_point, lemma_digits_value_concat,
    lemma_digits_value_single, lemma_pow10_add, pow10, ratio_of, Ratio,
};
use crate::text::count_of;

verus! {

/// The rules written in `specs` that can be evaluated, in order: each string
/// of the form `class@value` whose rule is `usable`.
pub open spec fn usable_rules(specs: Seq<Seq<char>>) -> Seq<(RuleType, Seq<char>)>
    decreases specs.len(),
{
    if specs.len() == 0 {
        Seq::empty()
    } else {
        let before = usable_rules(specs.drop_last());
        match rule_parts(specs.last()) {
            Some((t, v)) => if usable(t, v) {
                before.push((t, v))
            } else {
                before
            },
            None => before,
        }
    }
}

/// The built-in rule strings, as character sequences.
pub open spec fn predefined_spec_texts() -> Seq<Seq<char>> {
    seq![
        "idStartsWith@-XL"@,
        "idStartsWith@-SD"@,
        "idStartsWith@-XF"@,
        "idStartsWith@-QD"@,
        "idStartsWith@-BN"@,
        "idStartsWith@-DL"@,
        "idStartsWith@-TS"@,
        "idStartsWith@-FG"@,
        "idStartsWith@-TT"@,
        "idStartsWith@-NX"@,
        "idStartsWith@-SP"@,
        "idStartsWith@-GT0002"@,
        "idStartsWith@-GT0003"@,
        "idStartsWith@-DT"@,
        "idStartsWith@-HP"@,
        "idContains@cacao"@,
        "nameStartsWith@-XL"@,
        "nameContains@Xunlei"@,
        "nameStartsWith@TaiPei-Torrent"@,
        "nameStartsWith@Xfplay"@,
        "nameStartsWith@BitSpirit"@,
        "nameContains@FlashGet"@,
        "nameContains@TuDou"@,
        "nameContains@TorrentStorm"@,
        "nameContains@QQDownload"@,
        "nameContains@github.com/anacrolix/torrent"@,
        "nameStartsWith@qBittorrent/3.3.15"@,
        "nameStartsWith@dt/torrent"@,
        "nameStartsWith@hp/torrent"@,
        "nameStartsWith@DT"@,
        "nameStartsWith@go.torrent.dev"@,
        "nameStartsWith@github.com/thank423/trafficConsume"@,
        "progressProbe@0.08"@,
        "excessiveProbe@1.5"@,
    ]
}

/// The built-in rules, written `class@value`.
pub fn predefined_rule_specs() -> (r: Vec<&'static str>)
    ensures
        r@.map_values(|s: &str| s@) == predefined_spec_texts(),
{
    vec![
        "idStartsWith@-XL",
        "idStartsWith@-SD",
        "idStartsWith@-XF",
        "idStartsWith@-QD",
        "idStartsWith@-BN",
        "idStartsWith@-DL",
        "idStartsWith@-TS",
        "idStartsWith@-FG",
        "idStartsWith@-TT",
        "idStartsWith@-NX",
        "idStartsWith@-SP",
        "idStartsWith@-GT0002",
        "idStartsWith@-GT0003",
        "idStartsWith@-DT",
        "idStartsWith@-HP",
        "idContains@cacao",
        "nameStartsWith@-XL",
        "nameContains@Xunlei",
        "nameStartsWith@TaiPei-Torrent",
        "nameStartsWith@Xfplay",
        "nameStartsWith@BitSpirit",
        "nameContains@FlashGet",
        "nameContains@TuDou",
        "nameContains@TorrentStorm",
        "nameContains@QQDownload",
        "nameContains@github.com/anacrolix/torrent",
        "nameStartsWith@qBittorrent/3.3.15",
        "nameStartsWith@dt/torrent",
        "nameStartsWith@hp/torrent",
        "nameStartsWith@DT",
        "nameStartsWith@go.torrent.dev",
        "nameStartsWith@github.com/thank423/trafficConsume",
        // progress fallback: the peer reports more than we could have sent it
        "progressProbe@0.08",
        // excessive download: the peer took more than the torrent's size
        "excessiveProbe@1.5",
    ]
}

/// The rules that `specs` write, in order, skipping any that is not a
/// well-formed, usable rule.
pub fn rules_from_specs(specs: &Vec<&str>) -> (r: Vec<Rule>)
    ensures
        r@.len() == usable_rules(specs@.map_values(|s: &str| s@)).len(),
        forall|i: int|
            0 <= i < r@.len() ==> (#[trigger] r@[i].class, r@[i].value@) == usable_rules(
                specs@.map_values(|s: &str| s@),
            )[i],
        forall|i: int| 0 <= i < r@.len() ==> (#[trigger] r@[i]).matchable(),
{
    let ghost all = specs@.map_values(|s: &str| s@);
    let mut r: Vec<Rule> = Vec::new();
    let mut k: usize = 0;
    while k < specs.len()
        invariant
            k <= specs@.len(),
            all == specs@.map_values(|s: &str| s@),
            r@.len() == usable_rules(all.take(k as int)).len(),
            forall|i: int|
                0 <= i < r@.len() ==> (#[trigger] r@[i].class, r@[i].value@) == usable_rules(
                    all.take(k as int),
                )[i],
            forall|i: int| 0 <= i < r@.len() ==> (#[trigger] r@[i]).matchable(),
        decreases specs@.len() - k,
    {
        assert(all.take(k + 1).drop_last() =~= all.take(k as int));
        assert(all.take(k + 1).last() == specs@[k as int]@);
        match Rule::parse(specs[k]) {
            Some(rule) => {
                if rule.is_matchable() {
                    r.push(rule);
                }
            },
            None => {},
        }
        k = k + 1;
    }
    assert(all.take(specs@.len() as int) =~= all);
    r
}

/// The rules the daemon starts with: those of `predefined_spec_texts`, all
/// of which `match_peer` can evaluate.
pub fn predefined_rules() -> (r: Vec<Rule>)
    ensures
        r@.len() == usable_rules(predefined_spec_texts()).len(),
        forall|i: int|
            0 <= i < r@.len() ==> (#[trigger] r@[i].class, r@[i].value@) == usable_rules(
                predefined_spec_texts(),
            )[i],
        forall|i: int| 0 <= i < r@.len() ==> (#[trigger] r@[i]).matchable(),
        r@.len() == 34,
{
    proof {
        lemma_builtin_rules();
    }
    rules_from_specs(&predefined_rule_specs())
}

/// The rule strings that each parse to the pair at the same index, and are
/// usable, give exactly those pairs.
proof fn lemma_usable_rules_all(texts: Seq<Seq<char>>, pairs: Seq<(RuleType, Seq<char>)>)
    requires
        texts.len() == pairs.len(),
        forall|i: int|
            0 <= i < texts.len() ==> rule_parts(#[trigger] texts[i]) == Some(pairs[i]) && usable(
                pairs[i].0,
                pairs[i].1,
            ),
    ensures
        usable_rules(texts) == pairs,
    decreases texts.len(),
{
    if texts.len() > 0 {
        let n = texts.len() - 1;
        assert forall|i: int| 0 <= i < n implies rule_parts(#[trigger] texts.drop_last()[i]) == Some(
            pairs.drop_last()[i],
        ) && usable(pairs.drop_last()[i].0, pairs.drop_last()[i].1) by {
            assert(texts.drop_last()[i] == texts[i]);
        }
        lemma_usable_rules_all(texts.drop_last(), pairs.drop_last());
        assert(rule_parts(texts[n]) == Some(pairs[n]));
        assert(pairs.drop_last().push(pairs[n]) =~= pairs);
    } else {
        assert(pairs =~= Seq::<(RuleType, Seq<char>)>::empty());
    }
}

/// The threshold `0.08` of the progress probe.
proof fn lemma_threshold_progress()
    ensures
        ratio_of("0.08"@) == Some(Ratio { num: 8, den: 100 }),
{
    reveal_strlit("0.08");
    let i = seq!['0'];
    let f = seq!['0', '8'];
    assert("0.08"@ =~= i + seq!['.'] + f);
    assert forall|j: int| 0 <= j < i.len() implies is_digit(#[trigger] i[j]) by {}
    assert forall|j: int| 0 <= j < f.len() implies is_digit(#[trigger] f[j]) by {
        assert(j == 0 || j == 1);
    }
    lemma_decimal_of_point(i, f);
    lemma_digits_value_single('0');
    lemma_digits_value_single('8');
    assert(seq!['0'] + seq!['8'] =~= f);
    lemma_digits_value_concat(seq!['0'], seq!['8']);
    lemma_pow10_add(1, 1);
    assert(digits_value(i) == 0);
    assert(digits_value(f) == 8);
    assert(pow10(f.len()) == 100);
    let x = digits_value(i);
    let y = pow10(f.len());
    assert(x * y == 0) by (nonlinear_arith)
        requires
            x == 0,
    ;
    assert(decimal_of("0.08"@) == Some((8nat, 100nat)));
}

/// The threshold `1.5` of the excessive-download probe.
proof fn lemma_threshold_excessive()
    ensures
        ratio_of("1.5"@) == Some(Ratio { num: 15, den: 10 }),
{
    reveal_strlit("1.5");
    let i = seq!['1'];
    let f = seq!['5'];
    assert("1.5"@ =~= i + seq!['.'] + f);
    assert forall|j: int| 0 <= j < i.len() implies is_digit(#[trigger] i[j]) by {}
    assert forall|j: int| 0 <= j < f.len() implies is_digit(#[trigger] f[j]) by {}
    lemma_decimal_of_point(i, f);
    lemma_digits_value_single('1');
    lemma_digits_value_single('5');
    lemma_pow10_add(0, 1);
    assert(digits_value(i) == 1);
    assert(digits_value(f) == 5);
    assert(pow10(f.len()) == 10);
}

proof fn lemma_builtin_0()
    ensures
        rule_parts(predefined_spec_texts()[0]) == Some((RuleType::IDPrefixMatch, "-XL"@)),
        usable(RuleType::IDPrefixMatch, "-XL"@),
{
    reveal_strlit("idStartsWith@-XL");
    reveal_strlit("idStartsWith");
    reveal_strlit("@");
    reveal_strlit("-XL");
    assert("idStartsWith@-XL"@ =~= "idStartsWith"@ + "@"@ + "-XL"@);
    reveal_with_fuel(count_of, 4);
    assert(count_of("-XL"@, '@') == 0);
    lemma_rule_text_roundtrip(RuleType::IDPrefixMatch, "-XL"@);
}

proof fn lemma_builtin_1()
    ensures
        rule_parts(predefined_spec_texts()[1]) == Some((RuleType::IDPrefixMatch, "-SD"@)),
        usable(RuleType::IDPrefixMatch, "-SD"@),
{
    reveal_strlit("idStartsWith@-SD");
    reveal_strlit("idStartsWith");
    reveal_strlit("@");
    reveal_strlit("-SD");
    assert("idStartsWith@-SD"@ =~= "idStartsWith"@ + "@"@ + "-SD"@);
    reveal_with_fuel(count_of, 4);
    assert(count_of("-SD"@, '@') == 0);
    lemma_rule_text_roundtrip(RuleType::IDPrefixMatch, "-SD"@);
}

proof fn lemma_builtin_2()
    ensures
        rule_parts(predefined_spec_texts()[2]) == Some((RuleType::IDPrefixMatch, "-XF"@)),
        usable(RuleType::IDPrefixMatch, "-XF"@),
{
    reveal_strlit("idStartsWith@-XF");
    reveal_strlit("idStartsWith");
    reveal_strlit("@");
    reveal_strlit("-XF");
    assert("idStartsWith@-XF"@ =~= "idStartsWith"@ + "@"@ + "-XF"@);
    reveal_with_fuel(count_of, 4);
    assert(count_of("-XF"@, '@') == 0);
    lemma_rule_text_roundtrip(RuleType::IDPrefixMatch, "-XF"@);
}

proof fn lemma_builtin_3()
    ensures
        rule_parts(predefined_spec_texts()[3]) == Some((RuleType::IDPrefixMatch, "-QD"@)),
        usable(RuleType::IDPrefixMatch, "-QD"@),
{
    reveal_strlit("idStartsWith@-QD");
    reveal_strlit("idStartsWith");
    reveal_strlit("@");
    reveal_strlit("-QD");
    assert("idStartsWith@-QD"@ =~= "idStartsWith"@ + "@"@ + "-QD"@);
    reveal_with_fuel(count_of, 4);
    assert(count_of("-QD"@, '@') == 0);
    lemma_rule_text_roundtrip(RuleType::IDPrefixMatch, "-QD"@);
}

proof fn lemma_builtin_4()
    ensures
        rule_parts(predefined_spec_texts()[4]) == Some((RuleType::IDPrefixMatch, "-BN"@)),
        usable(RuleType::IDPrefixMatch, "-BN"@),
{
    reveal_strlit("idStartsWith@-BN");
    reveal_strlit("idStartsWith");
    reveal_strlit("@");
    reveal_strlit("-BN");
    assert("idStartsWith@-BN"@ =~= "idStartsWith"@ + "@"@ + "-BN"@);
    reveal_with_fuel(count_of, 4);
    assert(count_of("-BN"@, '@') == 0);
    lemma_rule_text_roundtrip(RuleType::IDPrefixMatch, "-BN"@);
}

proof fn lemma_builtin_5()
    ensures
        rule_parts(predefined_spec_texts()[5]) == Some((RuleType::IDPrefixMatch, "-DL"@)),
        usable(RuleType::IDPrefixMatch, "-DL"@),
{
    reveal_strlit("idStartsWith@-DL");
    reveal_strlit("idStartsWith");
    reveal_strlit("@");
    reveal_strlit("-DL");
    assert("idStartsWith@-DL"@ =~= "idStartsWith"@ + "@"@ + "-DL"@);
    reveal_with_fuel(count_of, 4);
    assert(count_of("-DL"@, '@') == 0);
    lemma_rule_text_roundtrip(RuleType::IDPrefixMatch, "-DL"@);
}

proof fn lemma_builtin_6()
    ensures
        rule_parts(predefined_spec_texts()[6]) == Some((RuleType::IDPrefixMatch, "-TS"@)),
        usable(RuleType::IDPrefixMatch, "-TS"@),
{
    reveal_strlit("idStartsWith@-TS");
    reveal_strlit("idStartsWith");
    reveal_strlit("@");
    reveal_strlit("-TS");
    assert("idStartsWith@-TS"@ =~= "idStartsWith"@ + "@"@ + "-TS"@);
    reveal_with_fuel(count_of, 4);
    assert(count_of("-TS"@, '@') == 0);
    lemma_rule_text_roundtrip(RuleType::IDPrefixMatch, "-TS"@);
}

proof fn lemma_builtin_7()
    ensures
        rule_parts(predefined_spec_texts()[7]) == Some((RuleType::IDPrefixMatch, "-FG"@)),
        usable(RuleType::IDPrefixMatch, "-FG"@),
{
    reveal_strlit("idStartsWith@-FG");
    reveal_strlit("idStartsWith");
    reveal_strlit("@");
    reveal_strlit("-FG");
    assert("idStartsWith@-FG"@ =~= "idStartsWith"@ + "@"@ + "-FG"@);
    reveal_with_fuel(count_of, 4);
    assert(count_of("-FG"@, '@') == 0);
    lemma_rule_text_roundtrip(RuleType::IDPrefixMatch, "-FG"@);
}

proof fn lemma_builtin_8()
    ensures
        rule_parts(predefined_spec_texts()[8]) == Some((RuleType::IDPrefixMatch, "-TT"@)),
        usable(RuleType::IDPrefixMatch, "-TT"@),
{
    reveal_strlit("idStartsWith@-TT");
    reveal_strlit("idStartsWith");
    reveal_strlit("@");
    reveal_strlit("-TT");
    assert("idStartsWith@-TT"@ =~= "idStartsWith"@ + "@"@ + "-TT"@);
    reveal_with_fuel(count_of, 4);
    assert(count_of("-TT"@, '@') == 0);
    lemma_rule_text_roundtrip(RuleType::IDPrefixMatch, "-TT"@);
}

proof fn lemma_builtin_9()
    ensures
        rule_parts(predefined_spec_texts()[9]) == Some((RuleType::IDPrefixMatch, "-NX"@)),
        usable(RuleType::IDPrefixMatch, "-NX"@),
{
    reveal_strlit("idStartsWith@-NX");
    reveal_strlit("idStartsWith");
    reveal_strlit("@");
    reveal_strlit("-NX");
    assert("idStartsWith@-NX"@ =~= "idStartsWith"@ + "@"@ + "-NX"@);
    reveal_with_fuel(count_of, 4);
    assert(count_of("-NX"@, '@') == 0);
    lemma_rule_text_roundtrip(RuleType::IDPrefixMatch, "-NX"@);
}

proof fn lemma_builtin_10()
    ensures
        rule_parts(predefined_spec_texts()[10]) == Some((RuleType::IDPrefixMatch, "-SP"@)),
        usable(RuleType::IDPrefixMatch, "-SP"@),
{
    reveal_strlit("idStartsWith@-SP");
    reveal_strlit("idStartsWith");
    reveal_strlit("@");
    reveal_strlit("-SP");
    assert("idStartsWith@-SP"@ =~= "idStartsWith"@ + "@"@ + "-SP"@);
    reveal_with_fuel(count_of, 4);
    assert(count_of("-SP"@, '@') == 0);
    lemma_rule_text_roundtrip(RuleType::IDPrefixMatch, "-SP"@);
}

proof fn lemma_builtin_11()
    ensures
        rule_parts(predefined_spec_texts()[11]) == Some((RuleType::IDPrefixMatch, "-GT0002"@)),
        usable(RuleType::IDPrefixMatch, "-GT0002"@),
{
    reveal_strlit("idStartsWith@-GT0002");
    reveal_strlit("idStartsWith");
    reveal_strlit("@");
    reveal_strlit("-GT0002");
    assert("idStartsWith@-GT0002"@ =~= "idStartsWith"@ + "@"@ + "-GT0002"@);
    reveal_with_fuel(count_of, 8);
    assert(count_of("-GT0002"@, '@') == 0);
    lemma_rule_text_roundtrip(RuleType::IDPrefixMatch, "-GT0002"@);
}

proof fn lemma_builtin_12()
    ensures
        rule_parts(predefined_spec_texts()[12]) == Some((RuleType::IDPrefixMatch, "-GT0003"@)),
        usable(RuleType::IDPrefixMatch, "-GT0003"@),
{
    reveal_strlit("idStartsWith@-GT0003");
    reveal_strlit("idStartsWith");
    reveal_strlit("@");
    reveal_strlit("-GT0003");
    assert("idStartsWith@-GT0003"@ =~= "idStartsWith"@ + "@"@ + "-GT0003"@);
    reveal_with_fuel(count_of, 8);
    assert(count_of("-GT0003"@, '@') == 0);
    lemma_rule_text_roundtrip(RuleType::IDPrefixMatch, "-GT0003"@);
}

proof fn lemma_builtin_13()
    ensures
        rule_parts(predefined_spec_texts()[13]) == Some((RuleType::IDPrefixMatch, "-DT"@)),
        usable(RuleType::IDPrefixMatch, "-DT"@),
{
    reveal_strlit("idStartsWith@-DT");
    reveal_strlit("idStartsWith");
    reveal_strlit("@");
    reveal_strlit("-DT");
    assert("idStartsWith@-DT"@ =~= "idStartsWith"@ + "@"@ + "-DT"@);
    reveal_with_fuel(count_of, 4);
    assert(count_of("-DT"@, '@') == 0);
    lemma_rule_text_roundtrip(RuleType::IDPrefixMatch, "-DT"@);
}

proof fn lemma_builtin_14()
    ensures
        rule_parts(predefined_spec_texts()[14]) == Some((RuleType::IDPrefixMatch, "-HP"@)),
        usable(RuleType::IDPrefixMatch, "-HP"@),
{
    reveal_strlit("idStartsWith@-HP");
    reveal_strlit("idStartsWith");
    reveal_strlit("@");
    reveal_strlit("-HP");
    assert("idStartsWith@-HP"@ =~= "idStartsWith"@ + "@"@ + "-HP"@);
    reveal_with_fuel(count_of, 4);
    assert(count_of("-HP"@, '@') == 0);
    lemma_rule_text_roundtrip(RuleType::IDPrefixMatch, "-HP"@);
}

proof fn lemma_builtin_15()
    ensures
        rule_parts(predefined_spec_texts()[15]) == Some((RuleType::IDContains, "cacao"@)),
        usable(RuleType::IDContains, "cacao"@),
{
    reveal_strlit("idContains@cacao");
    reveal_strlit("idContains");
    reveal_strlit("@");
    reveal_strlit("cacao");
    assert("idContains@cacao"@ =~= "idContains"@ + "@"@ + "cacao"@);
    reveal_with_fuel(count_of, 6);
    assert(count_of("cacao"@, '@') == 0);
    lemma_rule_text_roundtrip(RuleType::IDContains, "cacao"@);
}

proof fn lemma_builtin_16()
    ensures
        rule_parts(predefined_spec_texts()[16]) == Some((RuleType::NamePrefixMatch, "-XL"@)),
        usable(RuleType::NamePrefixMatch, "-XL"@),
{
    reveal_strlit("nameStartsWith@-XL");
    reveal_strlit("nameStartsWith");
    reveal_strlit("@");
    reveal_strlit("-XL");
    assert("nameStartsWith@-XL"@ =~= "nameStartsWith"@ + "@"@ + "-XL"@);
    reveal_with_fuel(count_of, 4);
    assert(count_of("-XL"@, '@') == 0);
    lemma_rule_text_roundtrip(RuleType::NamePrefixMatch, "-XL"@);
}

proof fn lemma_builtin_17()
    ensures
        rule_parts(predefined_spec_texts()[17]) == Some((RuleType::NameContains, "Xunlei"@)),
        usable(RuleType::NameContains, "Xunlei"@),
{
    reveal_strlit("nameContains@Xunlei");
    reveal_strlit("nameContains");
    reveal_strlit("@");
    reveal_strlit("Xunlei");
    assert("nameContains@Xunlei"@ =~= "nameContains"@ + "@"@ + "Xunlei"@);
    reveal_with_fuel(count_of, 7);
    assert(count_of("Xunlei"@, '@') == 0);
    lemma_rule_text_roundtrip(RuleType::NameContains, "Xunlei"@);
}

proof fn lemma_builtin_18()
    ensures
        rule_parts(predefined_spec_texts()[18]) == Some((RuleType::NamePrefixMatch, "TaiPei-Torrent"@)),
        usable(RuleType::NamePrefixMatch, "TaiPei-Torrent"@),
{
    reveal_strlit("nameStartsWith@TaiPei-Torrent");
    reveal_strlit("nameStartsWith");
    reveal_strlit("@");
    reveal_strlit("TaiPei-Torrent");
    assert("nameStartsWith@TaiPei-Torrent"@ =~= "nameStartsWith"@ + "@"@ + "TaiPei-Torrent"@);
    reveal_with_fuel(count_of, 15);
    assert(count_of("TaiPei-Torrent"@, '@') == 0);
    lemma_rule_text_roundtrip(RuleType::NamePrefixMatch, "TaiPei-Torrent"@);
}

proof fn lemma_builtin_19()
    ensures
        rule_parts(predefined_spec_texts()[19]) == Some((RuleType::NamePrefixMatch, "Xfplay"@)),
        usable(RuleType::NamePrefixMatch, "Xfplay"@),
{
    reveal_strlit("nameStartsWith@Xfplay");
    reveal_strlit("nameStartsWith");
    reveal_strlit("@");
    reveal_strlit("Xfplay");
    assert("nameStartsWith@Xfplay"@ =~= "nameStartsWith"@ + "@"@ + "Xfplay"@);
    reveal_with_fuel(count_of, 7);
    assert(count_of("Xfplay"@, '@') == 0);
    lemma_rule_text_roundtrip(RuleType::NamePrefixMatch, "Xfplay"@);
}

proof fn lemma_builtin_20()
    ensures
        rule_parts(predefined_spec_texts()[20]) == Some((RuleType::NamePrefixMatch, "BitSpirit"@)),
        usable(RuleType::NamePrefixMatch, "BitSpirit"@),
{
    reveal_strlit("nameStartsWith@BitSpirit");
    reveal_strlit("nameStartsWith");
    reveal_strlit("@");
    reveal_strlit("BitSpirit");
    assert("nameStartsWith@BitSpirit"@ =~= "nameStartsWith"@ + "@"@ + "BitSpirit"@);
    reveal_with_fuel(count_of, 10);
    assert(count_of("BitSpirit"@, '@') == 0);
    lemma_rule_text_roundtrip(RuleType::NamePrefixMatch, "BitSpirit"@);
}

proof fn lemma_builtin_21()
    ensures
        rule_parts(predefined_spec_texts()[21]) == Some((RuleType::NameContains, "FlashGet"@)),
        usable(RuleType::NameContains, "FlashGet"@),
{
    reveal_strlit("nameContains@FlashGet");
    reveal_strlit("nameContains");
    reveal_strlit("@");
    reveal_strlit("FlashGet");
    assert("nameContains@FlashGet"@ =~= "nameContains"@ + "@"@ + "FlashGet"@);
    reveal_with_fuel(count_of, 9);
    assert(count_of("FlashGet"@, '@') == 0);
    lemma_rule_text_roundtrip(RuleType::NameContains, "FlashGet"@);
}

proof fn lemma_builtin_22()
    ensures
        rule_parts(predefined_spec_texts()[22]) == Some((RuleType::NameContains, "TuDou"@)),
        usable(RuleType::NameContains, "TuDou"@),
{
    reveal_strlit("nameContains@TuDou");
    reveal_strlit("nameContains");
    reveal_strlit("@");
    reveal_strlit("TuDou");
    assert("nameContains@TuDou"@ =~= "nameContains"@ + "@"@ + "TuDou"@);
    reveal_with_fuel(count_of, 6);
    assert(count_of("TuDou"@, '@') == 0);
    lemma_rule_text_roundtrip(RuleType::NameContains, "TuDou"@);
}

proof fn lemma_builtin_23()
    ensures
        rule_parts(predefined_spec_texts()[23]) == Some((RuleType::NameContains, "TorrentStorm"@)),
        usable(RuleType::NameContains, "TorrentStorm"@),
{
    reveal_strlit("nameContains@TorrentStorm");
    reveal_strlit("nameContains");
    reveal_strlit("@");
    reveal_strlit("TorrentStorm");
    assert("nameContains@TorrentStorm"@ =~= "nameContains"@ + "@"@ + "TorrentStorm"@);
    reveal_with_fuel(count_of, 13);
    assert(count_of("TorrentStorm"@, '@') == 0);
    lemma_rule_text_roundtrip(RuleType::NameContains, "TorrentStorm"@);
}

proof fn lemma_builtin_24()
    ensures
        rule_parts(predefined_spec_texts()[24]) == Some((RuleType::NameContains, "QQDownload"@)),
        usable(RuleType::NameContains, "QQDownload"@),
{
    reveal_strlit("nameContains@QQDownload");
    reveal_strlit("nameContains");
    reveal_strlit("@");
    reveal_strlit("QQDownload");
    assert("nameContains@QQDownload"@ =~= "nameContains"@ + "@"@ + "QQDownload"@);
    reveal_with_fuel(count_of, 11);
    assert(count_of("QQDownload"@, '@') == 0);
    lemma_rule_text_roundtrip(RuleType::NameContains, "QQDownload"@);
}

proof fn lemma_builtin_25()
    ensures
        rule_parts(predefined_spec_texts()[25]) == Some((RuleType::NameContains, "github.com/anacrolix/torrent"@)),
        usable(RuleType::NameContains, "github.com/anacrolix/torrent"@),
{
    reveal_strlit("nameContains@github.com/anacrolix/torrent");
    reveal_strlit("nameContains");
    reveal_strlit("@");
    reveal_strlit("github.com/anacrolix/torrent");
    assert("nameContains@github.com/anacrolix/torrent"@ =~= "nameContains"@ + "@"@ + "github.com/anacrolix/torrent"@);
    reveal_with_fuel(count_of, 29);
    assert(count_of("github.com/anacrolix/torrent"@, '@') == 0);
    lemma_rule_text_roundtrip(RuleType::NameContains, "github.com/anacrolix/torrent"@);
}

proof fn lemma_builtin_26()
    ensures
        rule_parts(predefined_spec_texts()[26]) == Some((RuleType::NamePrefixMatch, "qBittorrent/3.3.15"@)),
        usable(RuleType::NamePrefixMatch, "qBittorrent/3.3.15"@),
{
    reveal_strlit("nameStartsWith@qBittorrent/3.3.15");
    reveal_strlit("nameStartsWith");
    reveal_strlit("@");
    reveal_strlit("qBittorrent/3.3.15");
    assert("nameStartsWith@qBittorrent/3.3.15"@ =~= "nameStartsWith"@ + "@"@ + "qBittorrent/3.3.15"@);
    reveal_with_fuel(count_of, 19);
    assert(count_of("qBittorrent/3.3.15"@, '@') == 0);
    lemma_rule_text_roundtrip(RuleType::NamePrefixMatch, "qBittorrent/3.3.15"@);
}

proof fn lemma_builtin_27()
    ensures
        rule_parts(predefined_spec_texts()[27]) == Some((RuleType::NamePrefixMatch, "dt/torrent"@)),
        usable(RuleType::NamePrefixMatch, "dt/torrent"@),
{
    reveal_strlit("nameStartsWith@dt/torrent");
    reveal_strlit("nameStartsWith");
    reveal_strlit("@");
    reveal_strlit("dt/torrent");
    assert("nameStartsWith@dt/torrent"@ =~= "nameStartsWith"@ + "@"@ + "dt/torrent"@);
    reveal_with_fuel(count_of, 11);
    assert(count_of("dt/torrent"@, '@') == 0);
    lemma_rule_text_roundtrip(RuleType::NamePrefixMatch, "dt/torrent"@);
}

proof fn lemma_builtin_28()
    ensures
        rule_parts(predefined_spec_texts()[28]) == Some((RuleType::NamePrefixMatch, "hp/torrent"@)),
        usable(RuleType::NamePrefixMatch, "hp/torrent"@),
{
    reveal_strlit("nameStartsWith@hp/torrent");
    reveal_strlit("nameStartsWith");
    reveal_strlit("@");
    reveal_strlit("hp/torrent");
    assert("nameStartsWith@hp/torrent"@ =~= "nameStartsWith"@ + "@"@ + "hp/torrent"@);
    reveal_with_fuel(count_of, 11);
    assert(count_of("hp/torrent"@, '@') == 0);
    lemma_rule_text_roundtrip(RuleType::NamePrefixMatch, "hp/torrent"@);
}

proof fn lemma_builtin_29()
    ensures
        rule_parts(predefined_spec_texts()[29]) == Some((RuleType::NamePrefixMatch, "DT"@)),
        usable(RuleType::NamePrefixMatch, "DT"@),
{
    reveal_strlit("nameStartsWith@DT");
    reveal_strlit("nameStartsWith");
    reveal_strlit("@");
    reveal_strlit("DT");
    assert("nameStartsWith@DT"@ =~= "nameStartsWith"@ + "@"@ + "DT"@);
    reveal_with_fuel(count_of, 3);
    assert(count_of("DT"@, '@') == 0);
    lemma_rule_text_roundtrip(RuleType::NamePrefixMatch, "DT"@);
}

proof fn lemma_builtin_30()
    ensures
        rule_parts(predefined_spec_texts()[30]) == Some((RuleType::NamePrefixMatch, "go.torrent.dev"@)),
        usable(RuleType::NamePrefixMatch, "go.torrent.dev"@),
{
    reveal_strlit("nameStartsWith@go.torrent.dev");
    reveal_strlit("nameStartsWith");
    reveal_strlit("@");
    reveal_strlit("go.torrent.dev");
    assert("nameStartsWith@go.torrent.dev"@ =~= "nameStartsWith"@ + "@"@ + "go.torrent.dev"@);
    reveal_with_fuel(count_of, 15);
    assert(count_of("go.torrent.dev"@, '@') == 0);
    lemma_rule_text_roundtrip(RuleType::NamePrefixMatch, "go.torrent.dev"@);
}

proof fn lemma_builtin_31()
    ensures
        rule_parts(predefined_spec_texts()[31]) == Some((RuleType::NamePrefixMatch, "github.com/thank423/trafficConsume"@)),
        usable(RuleType::NamePrefixMatch, "github.com/thank423/trafficConsume"@),
{
    reveal_strlit("nameStartsWith@github.com/thank423/trafficConsume");
    reveal_strlit("nameStartsWith");
    reveal_strlit("@");
    reveal_strlit("github.com/thank423/trafficConsume");
    assert("nameStartsWith@github.com/thank423/trafficConsume"@ =~= "nameStartsWith"@ + "@"@ + "github.com/thank423/trafficConsume"@);
    reveal_with_fuel(count_of, 35);
    assert(count_of("github.com/thank423/trafficConsume"@, '@') == 0);
    lemma_rule_text_roundtrip(RuleType::NamePrefixMatch, "github.com/thank423/trafficConsume"@);
}

proof fn lemma_builtin_32()
    ensures
        rule_parts(predefined_spec_texts()[32]) == Some((RuleType::ProgressProbe, "0.08"@)),
        usable(RuleType::ProgressProbe, "0.08"@),
{
    reveal_strlit("progressProbe@0.08");
    reveal_strlit("progressProbe");
    reveal_strlit("@");
    reveal_strlit("0.08");
    assert("progressProbe@0.08"@ =~= "progressProbe"@ + "@"@ + "0.08"@);
    reveal_with_fuel(count_of, 5);
    assert(count_of("0.08"@, '@') == 0);
    lemma_threshold_progress();
    lemma_rule_text_roundtrip(RuleType::ProgressProbe, "0.08"@);
}

proof fn lemma_builtin_33()
    ensures
        rule_parts(predefined_spec_texts()[33]) == Some((RuleType::ExcessiveProbe, "1.5"@)),
        usable(RuleType::ExcessiveProbe, "1.5"@),
{
    reveal_strlit("excessiveProbe@1.5");
    reveal_strlit("excessiveProbe");
    reveal_strlit("@");
    reveal_strlit("1.5");
    assert("excessiveProbe@1.5"@ =~= "excessiveProbe"@ + "@"@ + "1.5"@);
    reveal_with_fuel(count_of, 4);
    assert(count_of("1.5"@, '@') == 0);
    lemma_threshold_excessive();
    lemma_rule_text_roundtrip(RuleType::ExcessiveProbe, "1.5"@);
}

/// The built-in rules are, in order, the 34 rules below: each rule string
/// reads back as its type and value, and all of them can be evaluated.
pub proof fn lemma_builtin_rules()
    ensures
        usable_rules(predefined_spec_texts()) == seq![
            (RuleType::IDPrefixMatch, "-XL"@),
            (RuleType::IDPrefixMatch, "-SD"@),
            (RuleType::IDPrefixMatch, "-XF"@),
            (RuleType::IDPrefixMatch, "-QD"@),
            (RuleType::IDPrefixMatch, "-BN"@),
            (RuleType::IDPrefixMatch, "-DL"@),
            (RuleType::IDPrefixMatch, "-TS"@),
            (RuleType::IDPrefixMatch, "-FG"@),
            (RuleType::IDPrefixMatch, "-TT"@),
            (RuleType::IDPrefixMatch, "-NX"@),
            (RuleType::IDPrefixMatch, "-SP"@),
            (RuleType::IDPrefixMatch, "-GT0002"@),
            (RuleType::IDPrefixMatch, "-GT0003"@),
            (RuleType::IDPrefixMatch, "-DT"@),
            (RuleType::IDPrefixMatch, "-HP"@),
            (RuleType::IDContains, "cacao"@),
            (RuleType::NamePrefixMatch, "-XL"@),
            (RuleType::NameContains, "Xunlei"@),
            (RuleType::NamePrefixMatch, "TaiPei-Torrent"@),
            (RuleType::NamePrefixMatch, "Xfplay"@),
            (RuleType::NamePrefixMatch, "BitSpirit"@),
            (RuleType::NameContains, "FlashGet"@),
            (RuleType::NameContains, "TuDou"@),
            (RuleType::NameContains, "TorrentStorm"@),
            (RuleType::NameContains, "QQDownload"@),
            (RuleType::NameContains, "github.com/anacrolix/torrent"@),
            (RuleType::NamePrefixMatch, "qBittorrent/3.3.15"@),
            (RuleType::NamePrefixMatch, "dt/torrent"@),
            (RuleType::NamePrefixMatch, "hp/torrent"@),
            (RuleType::NamePrefixMatch, "DT"@),
            (RuleType::NamePrefixMatch, "go.torrent.dev"@),
            (RuleType::NamePrefixMatch, "github.com/thank423/trafficConsume"@),
            (RuleType::ProgressProbe, "0.08"@),
            (RuleType::ExcessiveProbe, "1.5"@),
        ],
{
    let texts = predefined_spec_texts();
    let pairs = seq![
            (RuleType::IDPrefixMatch, "-XL"@),
            (RuleType::IDPrefixMatch, "-SD"@),
            (RuleType::IDPrefixMatch, "-XF"@),
            (RuleType::IDPrefixMatch, "-QD"@),
            (RuleType::IDPrefixMatch, "-BN"@),
            (RuleType::IDPrefixMatch, "-DL"@),
            (RuleType::IDPrefixMatch, "-TS"@),
            (RuleType::IDPrefixMatch, "-FG"@),
            (RuleType::IDPrefixMatch, "-TT"@),
            (RuleType::IDPrefixMatch, "-NX"@),
            (RuleType::IDPrefixMatch, "-SP"@),
            (RuleType::IDPrefixMatch, "-GT0002"@),
            (RuleType::IDPrefixMatch, "-GT0003"@),
            (RuleType::IDPrefixMatch, "-DT"@),
            (RuleType::IDPrefixMatch, "-HP"@),
            (RuleType::IDContains, "cacao"@),
            (RuleType::NamePrefixMatch, "-XL"@),
            (RuleType::NameContains, "Xunlei"@),
            (RuleType::NamePrefixMatch, "TaiPei-Torrent"@),
            (RuleType::NamePrefixMatch, "Xfplay"@),
            (RuleType::NamePrefixMatch, "BitSpirit"@),
            (RuleType::NameContains, "FlashGet"@),
            (RuleType::NameContains, "TuDou"@),
            (RuleType::NameContains, "TorrentStorm"@),
            (RuleType::NameContains, "QQDownload"@),
            (RuleType::NameContains, "github.com/anacrolix/torrent"@),
            (RuleType::NamePrefixMatch, "qBittorrent/3.3.15"@),
            (RuleType::NamePrefixMatch, "dt/torrent"@),
            (RuleType::NamePrefixMatch, "hp/torrent"@),
            (RuleType::NamePrefixMatch, "DT"@),
            (RuleType::NamePrefixMatch, "go.torrent.dev"@),
            (RuleType::NamePrefixMatch, "github.com/thank423/trafficConsume"@),
            (RuleType::ProgressProbe, "0.08"@),
            (RuleType::ExcessiveProbe, "1.5"@),
        ];
    assert forall|i: int|
        0 <= i < texts.len() implies rule_parts(#[trigger] texts[i]) == Some(pairs[i]) && usable(
        pairs[i].0,
        pairs[i].1,
    ) by {
        if i == 0 {
            lemma_builtin_0();
        }
        if i == 1 {
            lemma_builtin_1();
        }
        if i == 2 {
            lemma_builtin_2();
        }
        if i == 3 {
            lemma_builtin_3();
        }
        if i == 4 {
            lemma_builtin_4();
        }
        if i == 5 {
            lemma_builtin_5();
        }
        if i == 6 {
            lemma_builtin_6();
        }
        if i == 7 {
            lemma_builtin_7();
        }
        if i == 8 {
            lemma_builtin_8();
        }
        if i == 9 {
            lemma_builtin_9();
        }
        if i == 10 {
            lemma_builtin_10();
        }
        if i == 11 {
            lemma_builtin_11();
        }
        if i == 12 {
            lemma_builtin_12();
        }
        if i == 13 {
            lemma_builtin_13();
        }
        if i == 14 {
            lemma_builtin_14();
        }
        if i == 15 {
            lemma_builtin_15();
        }
        if i == 16 {
            lemma_builtin_16();
        }
        if i == 17 {
            lemma_builtin_17();
        }
        if i == 18 {
            lemma_builtin_18();
        }
        if i == 19 {
            lemma_builtin_19();
        }
        if i == 20 {
            lemma_builtin_20();
        }
        if i == 21 {
            lemma_builtin_21();
        }
        if i == 22 {
            lemma_builtin_22();
        }
        if i == 23 {
            lemma_builtin_23();
        }
        if i == 24 {
            lemma_builtin_24();
        }
        if i == 25 {
            lemma_builtin_25();
        }
        if i == 26 {
            lemma_builtin_26();
        }
        if i == 27 {
            lemma_builtin_27();
        }
        if i == 28 {
            lemma_builtin_28();
        }
        if i == 29 {
            lemma_builtin_29();
        }
        if i == 30 {
            lemma_builtin_30();
        }
        if i == 31 {
            lemma_builtin_31();
        }
        if i == 32 {
            lemma_builtin_32();
        }
        if i == 33 {
            lemma_builtin_33();
        }
    }
    lemma_usable_rules_all(texts, pairs);
}

} // verus!
