//! Selection of the tier for a conversation: domain keywords first, then complexity,
//! then the default tier.

use crate::config::{default_exists, FallbackConfig, FallbackTier, Tier, TiersConfig};
use crate::message::{
    any_image, conversation_text, full_text, law_conversation_text, message_texts, Message,
};
use crate::scoring::{complexity, law_score_range, score_complexity};
use crate::text::{
    ascii_lowercase, ascii_uppercase, chars_of, contains_chars, decimal, decimal_string, is_ascii,
    join, joined, law_word_in_context_occurs, lemma_joined_lowercase, lemma_upper_then_lower,
    lowercase, occurs, views,
};
use std::borrow::Cow;
use vstd::prelude::*;

verus! {

/// The keywords whose lower-case form occurs in the given lower-case text.
pub open spec fn matched(keywords: Seq<Seq<char>>, lower: Seq<char>) -> Seq<Seq<char>> {
    keywords.filter(|kw: Seq<char>| occurs(lower, lowercase(kw)))
}

/// For each tier, its keywords that occur in the given lower-case text.
pub open spec fn matches_of(tiers: Seq<Tier>, lower: Seq<char>) -> Seq<Seq<Seq<char>>> {
    tiers.map_values(|t: Tier| matched(views(t.keywords@), lower))
}

/// For each tier, its keywords that occur in the conversation.
pub open spec fn conversation_matches(tiers: Seq<Tier>, messages: Seq<Message>) -> Seq<
    Seq<Seq<char>>,
> {
    matches_of(tiers, lowercase(full_text(messages)))
}

/// The score of a tier: the number of its matches times its weight.
pub open spec fn tier_score(tier: Tier, matches: Seq<Seq<char>>) -> nat {
    matches.len() * tier.weight as nat
}

/// Tier `a` is preferred to tier `b`: by score, then by weight, then as a default tier.
/// Of two default tiers that are equal so far the later one is preferred, of two others
/// the earlier one.
pub open spec fn outranks(
    tiers: Seq<Tier>,
    matches: Seq<Seq<Seq<char>>>,
    a: int,
    b: int,
) -> bool {
    let score_a = tier_score(tiers[a], matches[a]);
    let score_b = tier_score(tiers[b], matches[b]);
    if score_a != score_b {
        score_a > score_b
    } else if tiers[a].weight != tiers[b].weight {
        tiers[a].weight > tiers[b].weight
    } else if tiers[a].default != tiers[b].default {
        tiers[a].default
    } else if tiers[a].default {
        a > b
    } else {
        a < b
    }
}

/// Tier `w` has matches and is preferred to every other tier that has some.
pub open spec fn wins(tiers: Seq<Tier>, matches: Seq<Seq<Seq<char>>>, w: int) -> bool {
    &&& 0 <= w < tiers.len()
    &&& matches[w].len() > 0
    &&& forall|b: int|
        0 <= b < tiers.len() && b != w && (#[trigger] matches[b]).len() > 0 ==> outranks(
            tiers,
            matches,
            w,
            b,
        )
}

/// No tier has a match.
pub open spec fn no_match(matches: Seq<Seq<Seq<char>>>) -> bool {
    forall|k: int| 0 <= k < matches.len() ==> (#[trigger] matches[k]).len() == 0
}

/// Tier `d` is the first one that is marked as the default.
pub open spec fn is_first_default(tiers: Seq<Tier>, d: int) -> bool {
    &&& 0 <= d < tiers.len()
    &&& tiers[d].default
    &&& forall|j: int| 0 <= j < d ==> !(#[trigger] tiers[j]).default
}

/// The contents of lists of matches.
pub open spec fn all_views(lists: Seq<Vec<String>>) -> Seq<Seq<Seq<char>>> {
    lists.map_values(|l: Vec<String>| views(l@))
}

/// Picks the tier with the best matches, if any tier has one. The list at each place
/// holds the matches of the tier at that place.
pub fn best_match(tiers: &[Tier], matches: &[Vec<String>]) -> (res: Option<usize>)
    requires
        matches@.len() == tiers@.len(),
    ensures
        match res {
            Some(w) => wins(tiers@, all_views(matches@), w as int),
            None => no_match(all_views(matches@)),
        },
{
    let ghost lists = all_views(matches@);
    let mut best: Option<usize> = None;
    let mut k: usize = 0;
    while k < tiers.len()
        invariant
            matches@.len() == tiers@.len(),
            lists == all_views(matches@),
            k <= tiers@.len(),
            match best {
                Some(w) => {
                    &&& w < k
                    &&& lists[w as int].len() > 0
                    &&& forall|b: int|
                        0 <= b < k && b != w && (#[trigger] lists[b]).len() > 0 ==> outranks(
                            tiers@,
                            lists,
                            w as int,
                            b,
                        )
                },
                None => forall|b: int| 0 <= b < k ==> (#[trigger] lists[b]).len() == 0,
            },
        decreases tiers@.len() - k,
    {
        assert(lists[k as int] == views(matches@[k as int]@));
        if matches[k].len() > 0 {
            let is_better = match best {
                None => true,
                Some(b) => {
                    assert(lists[b as int] == views(matches@[b as int]@));
                    let score: u128 = score_of(&tiers[k], &matches[k]);
                    let best_score: u128 = score_of(&tiers[b], &matches[b]);
                    score > best_score || (score == best_score && tiers[k].weight
                        > tiers[b].weight) || (score == best_score && tiers[k].weight
                        == tiers[b].weight && tiers[k].default)
                },
            };
            if is_better {
                best = Some(k);
            }
        }
        k += 1;
    }
    best
}

/// The score of a tier with the given matches.
pub fn score_of(tier: &Tier, matches: &Vec<String>) -> (res: u128)
    ensures
        res == tier_score(*tier, views(matches@)),
        res == matches@.len() * tier.weight,
{
    let count: u128 = matches.len() as u128;
    let weight: u128 = tier.weight as u128;
    assert(count * weight <= 0xffff_ffff_ffff_ffff * 0xffff_ffff) by (nonlinear_arith)
        requires
            0 <= count <= 0xffff_ffff_ffff_ffff,
            0 <= weight <= 0xffff_ffff,
    ;
    count * weight
}

/// Whenever a tier has a match, one of them wins.
pub proof fn law_some_tier_wins(tiers: Seq<Tier>, matches: Seq<Seq<Seq<char>>>)
    requires
        matches.len() == tiers.len(),
        !no_match(matches),
    ensures
        exists|w: int| wins(tiers, matches, w),
{
    let k = choose|k: int| 0 <= k < matches.len() && (#[trigger] matches[k]).len() > 0;
    lemma_winner_among(tiers, matches, tiers.len() as int, k);
}

proof fn lemma_winner_among(
    tiers: Seq<Tier>,
    matches: Seq<Seq<Seq<char>>>,
    n: int,
    k: int,
) -> (w: int)
    requires
        matches.len() == tiers.len(),
        0 <= k < n <= tiers.len(),
        matches[k].len() > 0,
    ensures
        0 <= w < n,
        matches[w].len() > 0,
        forall|b: int|
            0 <= b < n && b != w && (#[trigger] matches[b]).len() > 0 ==> outranks(
                tiers,
                matches,
                w,
                b,
            ),
        n == tiers.len() ==> wins(tiers, matches, w),
    decreases n,
{
    let last = n - 1;
    if exists|j: int| 0 <= j < last && (#[trigger] matches[j]).len() > 0 {
        let j = choose|j: int| 0 <= j < last && (#[trigger] matches[j]).len() > 0;
        let w = lemma_winner_among(tiers, matches, last, j);
        if matches[last].len() > 0 && outranks(tiers, matches, last, w) {
            last
        } else {
            w
        }
    } else {
        last
    }
}

/// At most one tier wins.
pub proof fn law_one_winner(tiers: Seq<Tier>, matches: Seq<Seq<Seq<char>>>, v: int, w: int)
    requires
        wins(tiers, matches, v),
        wins(tiers, matches, w),
    ensures
        v == w,
{
}

/// The winner has the highest score of all tiers, and no tier of the same score has a
/// higher weight.
pub proof fn law_winner_has_highest_score(
    tiers: Seq<Tier>,
    matches: Seq<Seq<Seq<char>>>,
    w: int,
    other: int,
)
    requires
        wins(tiers, matches, w),
        0 <= other < tiers.len(),
    ensures
        tier_score(tiers[other], matches[other]) <= tier_score(tiers[w], matches[w]),
        matches[other].len() > 0 && tier_score(tiers[other], matches[other]) == tier_score(
            tiers[w],
            matches[w],
        ) ==> tiers[other].weight <= tiers[w].weight,
{
    if matches[other].len() == 0 {
        assert(tier_score(tiers[other], matches[other]) == 0);
    }
}

/// The tier that the fallback tier stands for, under the given name.
pub open spec fn is_fallback_tier(tier: Tier, fallback: FallbackTier, name: Seq<char>) -> bool {
    &&& tier.name@ == name
    &&& tier.model == fallback.model
    &&& tier.api_base == fallback.api_base
    &&& tier.api_key == fallback.api_key
    &&& tier.auth_header == fallback.auth_header
    &&& tier.keywords@.len() == 0
    &&& tier.weight == 0
    &&& !tier.default
}

/// The matches and the score of a tier, as they are reported.
pub open spec fn match_report(tier: Tier, matches: Seq<Seq<char>>) -> Seq<char> {
    tier.name@ + " (matches: ["@ + joined(matches, ", "@) + "], score: "@ + decimal(
        tier_score(tier, matches),
    ) + ")"@
}

/// The reason for a tier that its keywords select.
pub open spec fn domain_reason(tier: Tier, matches: Seq<Seq<char>>) -> Seq<char> {
    "domain: "@ + match_report(tier, matches)
}

/// The reason for a tier that the complexity selects. The level is `high` or `low`.
pub open spec fn complexity_reason(level: Seq<char>, score: nat, threshold: nat) -> Seq<char> {
    "complexity: "@ + level + " (score: "@ + decimal(score) + ", threshold: "@ + decimal(threshold)
        + ")"@
}

/// The tier and the reason that the complexity score selects.
pub open spec fn routed_by_complexity(
    fallback: FallbackConfig,
    score: nat,
    tier: Tier,
    reason: Seq<char>,
) -> bool {
    if score >= fallback.threshold {
        &&& is_fallback_tier(tier, fallback.complex, "complex-fallback"@)
        &&& reason == complexity_reason("high"@, score, fallback.threshold as nat)
    } else {
        &&& is_fallback_tier(tier, fallback.simple, "simple-fallback"@)
        &&& reason == complexity_reason("low"@, score, fallback.threshold as nat)
    }
}

/// The tier and the reason that a configuration selects, given each tier's matches and
/// the complexity score:
/// - the winner by keywords, where some tier has a match;
/// - otherwise the fallback tier on the side of the threshold where the score lies;
/// - without a fallback the first default tier.
pub open spec fn routed<'a>(
    config: TiersConfig,
    matches: Seq<Seq<Seq<char>>>,
    score: nat,
    tier: Cow<'a, Tier>,
    reason: Seq<char>,
) -> bool {
    if !no_match(matches) {
        exists|w: int| #[trigger]
            wins(config.tiers@, matches, w) && tier == Cow::<'a, Tier>::Borrowed(
                &config.tiers@[w],
            ) && reason == domain_reason(config.tiers@[w], matches[w])
    } else {
        match config.fallback {
            Some(fallback) => tier matches Cow::Owned(t) && routed_by_complexity(
                fallback,
                score,
                t,
                reason,
            ),
            None => exists|d: int| #[trigger]
                is_first_default(config.tiers@, d) && tier == Cow::<'a, Tier>::Borrowed(
                    &config.tiers@[d],
                ) && reason == "default (no keywords matched, no fallback)"@,
        }
    }
}

/// The keywords whose counterpart among the lowered ones occurs in the given text, in
/// order.
pub open spec fn matched_by(
    keywords: Seq<Seq<char>>,
    lowered: Seq<Seq<char>>,
    lower: Seq<char>,
) -> Seq<Seq<char>>
    decreases keywords.len(),
{
    if keywords.len() == 0 {
        Seq::empty()
    } else {
        let front = matched_by(keywords.drop_last(), lowered.drop_last(), lower);
        if occurs(lower, lowered.last()) {
            front.push(keywords.last())
        } else {
            front
        }
    }
}

/// Picks the keywords that occur in a text, given the lower-case forms of the keywords
/// and of the text.
pub fn match_lowered(keywords: &Vec<String>, lowered: &[String], lower: &str) -> (res: Vec<String>)
    requires
        lowered@.len() == keywords@.len(),
    ensures
        views(res@) == matched_by(views(keywords@), views(lowered@), lower@),
{
    let text = chars_of(lower);
    let mut res: Vec<String> = Vec::new();
    let mut k: usize = 0;
    while k < keywords.len()
        invariant
            text@ == lower@,
            lowered@.len() == keywords@.len(),
            k <= keywords@.len(),
            views(res@) == matched_by(
                views(keywords@).take(k as int),
                views(lowered@).take(k as int),
                lower@,
            ),
        decreases keywords@.len() - k,
    {
        let ghost before = views(res@);
        let word = chars_of(lowered[k].as_str());
        if contains_chars(text.as_slice(), word.as_slice()) {
            res.push(keywords[k].clone());
            assert(views(res@) =~= before.push(keywords@[k as int]@));
        }
        proof {
            let next = views(keywords@).take(k + 1);
            let next_lowered = views(lowered@).take(k + 1);
            assert(next.drop_last() =~= views(keywords@).take(k as int));
            assert(next_lowered.drop_last() =~= views(lowered@).take(k as int));
            assert(next.last() == keywords@[k as int]@);
            assert(next_lowered.last() == word@);
        }
        k += 1;
    }
    assert(views(keywords@).take(k as int) =~= views(keywords@));
    assert(views(lowered@).take(k as int) =~= views(lowered@));
    res
}

/// With their lower-case forms given, the keywords picked are those that match.
proof fn lemma_matched_by_lowercase(
    keywords: Seq<Seq<char>>,
    lowered: Seq<Seq<char>>,
    lower: Seq<char>,
)
    requires
        lowered.len() == keywords.len(),
        forall|k: int| 0 <= k < keywords.len() ==> #[trigger] lowered[k] == lowercase(keywords[k]),
    ensures
        matched_by(keywords, lowered, lower) == matched(keywords, lower),
    decreases keywords.len(),
{
    reveal(Seq::filter);
    if keywords.len() > 0 {
        assert(lowered[keywords.len() - 1] == lowercase(keywords.last()));
        lemma_matched_by_lowercase(keywords.drop_last(), lowered.drop_last(), lower);
    }
}

fn match_keywords(keywords: &Vec<String>, lower: &str) -> (res: Vec<String>)
    ensures
        views(res@) == matched(views(keywords@), lower@),
{
    let mut lowered: Vec<String> = Vec::new();
    let mut k: usize = 0;
    while k < keywords.len()
        invariant
            k <= keywords@.len(),
            lowered@.len() == k,
            forall|j: int| 0 <= j < k ==> (#[trigger] lowered@[j])@ == lowercase(keywords@[j]@),
        decreases keywords@.len() - k,
    {
        lowered.push(keywords[k].to_lowercase());
        k += 1;
    }
    proof {
        lemma_matched_by_lowercase(views(keywords@), views(lowered@), lower@);
    }
    match_lowered(keywords, lowered.as_slice(), lower)
}

/// For each tier, its keywords that occur in the conversation, whatever their case.
pub fn match_tiers(tiers: &[Tier], messages: &[Message]) -> (res: Vec<Vec<String>>)
    ensures
        all_views(res@) == conversation_matches(tiers@, messages@),
{
    let text = conversation_text(messages);
    let lower = text.to_lowercase();
    let mut res: Vec<Vec<String>> = Vec::new();
    let mut k: usize = 0;
    while k < tiers.len()
        invariant
            k <= tiers@.len(),
            res@.len() == k,
            forall|j: int|
                0 <= j < k ==> views((#[trigger] res@[j])@) == matched(
                    views(tiers@[j].keywords@),
                    lower@,
                ),
        decreases tiers@.len() - k,
    {
        res.push(match_keywords(&tiers[k].keywords, lower.as_str()));
        k += 1;
    }
    assert(all_views(res@) =~= matches_of(tiers@, lower@));
    res
}

/// The matches and the score of a tier, as they are reported.
pub fn report_matches(tier: &Tier, matches: &Vec<String>) -> (res: String)
    ensures
        res@ == match_report(*tier, views(matches@)),
{
    let mut res = tier.name.clone();
    res.append(" (matches: [");
    res.append(join(matches.as_slice(), ", ").as_str());
    res.append("], score: ");
    res.append(decimal_string(score_of(tier, matches)).as_str());
    res.append(")");
    res
}

/// The first tier that is marked as the default.
pub fn find_default(tiers: &[Tier]) -> (res: Option<usize>)
    ensures
        match res {
            Some(d) => is_first_default(tiers@, d as int),
            None => !default_exists(tiers@),
        },
        match res {
            Some(d) => d < tiers@.len() && tiers@[d as int].default && forall|j: int|
                0 <= j < d ==> !(#[trigger] tiers@[j]).default,
            None => forall|j: int| 0 <= j < tiers@.len() ==> !(#[trigger] tiers@[j]).default,
        },
{
    let mut k: usize = 0;
    while k < tiers.len()
        invariant
            k <= tiers@.len(),
            forall|j: int| 0 <= j < k ==> !(#[trigger] tiers@[j]).default,
        decreases tiers@.len() - k,
    {
        if tiers[k].default {
            return Some(k);
        }
        k += 1;
    }
    None
}

fn fallback_tier(fallback: &FallbackTier, name: &str) -> (res: Tier)
    ensures
        is_fallback_tier(res, *fallback, name@),
{
    Tier {
        name: name.to_owned(),
        model: fallback.model.clone(),
        api_base: fallback.api_base.clone(),
        api_key: fallback.api_key.clone(),
        auth_header: fallback.auth_header.clone(),
        keywords: Vec::new(),
        weight: 0,
        default: false,
    }
}

/// Selects the fallback tier on the side of the threshold where the score lies.
pub fn route_by_complexity(fallback: &FallbackConfig, score: u32) -> (res: (Tier, String))
    ensures
        routed_by_complexity(*fallback, score as nat, res.0, res.1@),
{
    let high = score >= fallback.threshold;
    let tier = if high {
        fallback_tier(&fallback.complex, "complex-fallback")
    } else {
        fallback_tier(&fallback.simple, "simple-fallback")
    };
    let mut reason = "complexity: ".to_owned();
    reason.append(
        if high {
            "high"
        } else {
            "low"
        },
    );
    reason.append(" (score: ");
    reason.append(decimal_string(score as u128).as_str());
    reason.append(", threshold: ");
    reason.append(decimal_string(fallback.threshold as u128).as_str());
    reason.append(")");
    (tier, reason)
}

/// Selects the tier, given each tier's matches and the complexity score.
pub fn route<'a>(config: &'a TiersConfig, matches: &[Vec<String>], score: u32) -> (res: (
    Cow<'a, Tier>,
    String,
))
    requires
        matches@.len() == config.tiers@.len(),
        !no_match(all_views(matches@)) || config.has_last_resort(),
    ensures
        routed(*config, all_views(matches@), score as nat, res.0, res.1@),
{
    // Domain keywords
    if let Some(w) = best_match(config.tiers.as_slice(), matches) {
        let tier = &config.tiers[w];
        assert(all_views(matches@)[w as int] == views(matches@[w as int]@));
        let mut reason = "domain: ".to_owned();
        reason.append(report_matches(tier, &matches[w]).as_str());
        return (Cow::Borrowed(tier), reason);
    }

    // Complexity
    if let Some(fallback) = &config.fallback {
        let (tier, reason) = route_by_complexity(fallback, score);
        return (Cow::Owned(tier), reason);
    }

    // Default tier
    let d: usize = find_default(config.tiers.as_slice()).expect(
        "default tier required (no keywords, no fallback, no default)",
    );
    (
        Cow::Borrowed(&config.tiers[d]),
        "default (no keywords matched, no fallback)".to_owned(),
    )
}

/// A tier can be selected: a keyword of some tier occurs in the conversation, or the
/// configuration has a fallback or a default tier.
pub open spec fn routable(config: TiersConfig, messages: Seq<Message>) -> bool {
    !no_match(conversation_matches(config.tiers@, messages)) || config.has_last_resort()
}

/// Selects the most relevant tier for a list of messages.
///
/// 1. **Keyword phase** — For each tier, counts how many of its keywords appear in the
///    prompt. Score = match count × weight. The highest score wins. If keywords match,
///    this phase wins (explicit domains take priority over complexity).
///
/// 2. **Complexity phase** — If no keywords match and a `fallback` section is
///    configured, the prompt's complexity score determines the tier: complexity ≥
///    threshold gives the complex tier, otherwise the simple tier.
///
/// 3. **Default fallback** — Without a `fallback` section, the tier marked
///    `default: true` is used.
///
/// Returns the selected tier and the reason for the choice.
pub fn select_tier<'a>(config: &'a TiersConfig, messages: &[Message]) -> (res: (
    Cow<'a, Tier>,
    String,
))
    requires
        routable(*config, messages@),
    ensures
        routed(
            *config,
            conversation_matches(config.tiers@, messages@),
            complexity(messages@, config.keywords),
            res.0,
            res.1@,
        ),
{
    let matches = match_tiers(config.tiers.as_slice(), messages);
    assert(all_views(matches@).len() == config.tiers@.len());
    let score: u32 = score_complexity(messages, &config.keywords);
    route(config, matches.as_slice(), score)
}

/// Whether a tier can be selected for the conversation.
pub fn is_routable(config: &TiersConfig, messages: &[Message]) -> (res: bool)
    ensures
        res == routable(*config, messages@),
{
    if config.fallback.is_some() || find_default(config.tiers.as_slice()).is_some() {
        return true;
    }
    let matches = match_tiers(config.tiers.as_slice(), messages);
    assert(all_views(matches@).len() == config.tiers@.len());
    best_match(config.tiers.as_slice(), matches.as_slice()).is_some()
}

/// Selects the most relevant tier as [`select_tier`] does, or none where the
/// configuration has no tier for the conversation.
pub fn try_select_tier<'a>(config: &'a TiersConfig, messages: &[Message]) -> (res: Option<
    (Cow<'a, Tier>, String),
>)
    ensures
        match res {
            Some((tier, reason)) => routable(*config, messages@) && routed(
                *config,
                conversation_matches(config.tiers@, messages@),
                complexity(messages@, config.keywords),
                tier,
                reason@,
            ),
            None => !routable(*config, messages@),
        },
{
    if is_routable(config, messages) {
        Some(select_tier(config, messages))
    } else {
        None
    }
}

/// A configuration with a fallback or a default tier, such as every one that loads, has
/// a tier for every conversation.
pub proof fn law_last_resort_routes_everything(config: TiersConfig, messages: Seq<Message>)
    requires
        config.has_last_resort(),
    ensures
        routable(config, messages),
{
}

/// Two tiers agree in all that they say.
pub open spec fn same_tier(a: Tier, b: Tier) -> bool {
    &&& a.name@ == b.name@
    &&& a.model@ == b.model@
    &&& a.api_base@ == b.api_base@
    &&& a.api_key@ == b.api_key@
    &&& a.auth_header@ == b.auth_header@
    &&& views(a.keywords@) == views(b.keywords@)
    &&& a.weight == b.weight
    &&& a.default == b.default
}

/// The tier that a selection refers to or holds.
pub open spec fn chosen<'a>(tier: Cow<'a, Tier>) -> Tier {
    match tier {
        Cow::Borrowed(t) => *t,
        Cow::Owned(t) => t,
    }
}

/// The selection is determined: there is one tier and one reason.
pub proof fn law_selection_is_determined<'a>(
    config: TiersConfig,
    matches: Seq<Seq<Seq<char>>>,
    score: nat,
    tier: Cow<'a, Tier>,
    reason: Seq<char>,
    other_tier: Cow<'a, Tier>,
    other_reason: Seq<char>,
)
    requires
        routed(config, matches, score, tier, reason),
        routed(config, matches, score, other_tier, other_reason),
    ensures
        same_tier(chosen(tier), chosen(other_tier)),
        reason == other_reason,
{
    let tiers = config.tiers@;
    if !no_match(matches) {
        let v = choose|v: int| #[trigger]
            wins(tiers, matches, v) && tier == Cow::<'a, Tier>::Borrowed(&tiers[v]) && reason
                == domain_reason(tiers[v], matches[v]);
        let w = choose|w: int| #[trigger]
            wins(tiers, matches, w) && other_tier == Cow::<'a, Tier>::Borrowed(&tiers[w])
                && other_reason == domain_reason(tiers[w], matches[w]);
        law_one_winner(tiers, matches, v, w);
    } else if config.fallback is Some {
        assert(views(chosen(tier).keywords@) =~= views(chosen(other_tier).keywords@));
    }
}

/// Explicit domains take priority over complexity: where a keyword matches, neither the
/// score nor the fallback nor the scoring keywords have a say.
pub proof fn law_keywords_before_complexity<'a>(
    config: TiersConfig,
    other: TiersConfig,
    matches: Seq<Seq<Seq<char>>>,
    score: nat,
    other_score: nat,
    tier: Cow<'a, Tier>,
    reason: Seq<char>,
)
    requires
        config.tiers@ == other.tiers@,
        !no_match(matches),
        routed(config, matches, score, tier, reason),
    ensures
        routed(other, matches, other_score, tier, reason),
{
}

/// A tier without keywords is never selected by keywords.
pub proof fn law_tier_without_keywords_never_wins(tiers: Seq<Tier>, messages: Seq<Message>, w: int)
    requires
        0 <= w < tiers.len(),
        tiers[w].keywords@.len() == 0,
    ensures
        !wins(tiers, conversation_matches(tiers, messages), w),
{
    reveal(Seq::filter);
}

/// The case of the conversation does not matter: conversations with the same lower-case
/// text have the same matches.
pub proof fn law_case_of_text_is_ignored(
    tiers: Seq<Tier>,
    messages: Seq<Message>,
    other: Seq<Message>,
)
    requires
        lowercase(full_text(messages)) == lowercase(full_text(other)),
    ensures
        conversation_matches(tiers, messages) == conversation_matches(tiers, other),
{
}

/// Neither the case of ASCII letters nor the roles matter: conversations whose texts are
/// ASCII and differ in the case of letters alone have the same matches.
pub proof fn law_ascii_case_and_roles_are_ignored(
    tiers: Seq<Tier>,
    messages: Seq<Message>,
    other: Seq<Message>,
)
    requires
        messages.len() == other.len(),
        forall|k: int|
            0 <= k < messages.len() ==> is_ascii((#[trigger] messages[k]).text_view())
                && ascii_lowercase(messages[k].text_view()) == ascii_lowercase(
                other[k].text_view(),
            ),
    ensures
        conversation_matches(tiers, messages) == conversation_matches(tiers, other),
{
    let texts = message_texts(messages);
    let others = message_texts(other);
    let space = " "@;
    reveal_strlit(" ");
    assert(ascii_lowercase(space) =~= space);
    assert forall|k: int| 0 <= k < texts.len() implies is_ascii(#[trigger] texts[k]) by {
        assert(is_ascii(messages[k].text_view()));
    }
    assert forall|k: int| 0 <= k < others.len() implies is_ascii(#[trigger] others[k]) by {
        let text = messages[k].text_view();
        assert(ascii_lowercase(text).len() == ascii_lowercase(others[k]).len());
        assert forall|j: int| 0 <= j < others[k].len() implies #[trigger] others[k][j]
            <= '\u{7f}' by {
            assert(ascii_lowercase(others[k])[j] == ascii_lowercase(text)[j]);
            assert(text[j] <= '\u{7f}');
        }
    }
    lemma_joined_lowercase(texts, space);
    lemma_joined_lowercase(others, space);
    assert(texts.map_values(|p: Seq<char>| ascii_lowercase(p)) =~= others.map_values(
        |p: Seq<char>| ascii_lowercase(p),
    )) by {
        assert forall|k: int| 0 <= k < texts.len() implies ascii_lowercase(texts[k])
            == ascii_lowercase(others[k]) by {
            assert(is_ascii(messages[k].text_view()));
        }
    }
}

/// A conversation in capitals is routed as the plain one: where a keyword decides on a
/// conversation of ASCII texts, the same tier is selected for the same reason once every
/// text is in upper case, whoever is said to have written it.
pub proof fn law_upper_case_keeps_the_domain<'a>(
    config: TiersConfig,
    messages: Seq<Message>,
    other: Seq<Message>,
    tier: Cow<'a, Tier>,
    reason: Seq<char>,
)
    requires
        messages.len() == other.len(),
        forall|k: int|
            0 <= k < messages.len() ==> is_ascii((#[trigger] messages[k]).text_view())
                && other[k].text_view() == ascii_uppercase(messages[k].text_view()),
        !no_match(conversation_matches(config.tiers@, messages)),
        routed(
            config,
            conversation_matches(config.tiers@, messages),
            complexity(messages, config.keywords),
            tier,
            reason,
        ),
    ensures
        !no_match(conversation_matches(config.tiers@, other)),
        routed(
            config,
            conversation_matches(config.tiers@, other),
            complexity(other, config.keywords),
            tier,
            reason,
        ),
{
    assert forall|k: int| 0 <= k < messages.len() implies is_ascii(
        (#[trigger] messages[k]).text_view(),
    ) && ascii_lowercase(messages[k].text_view()) == ascii_lowercase(other[k].text_view()) by {
        lemma_upper_then_lower(messages[k].text_view());
    }
    law_ascii_case_and_roles_are_ignored(config.tiers@, messages, other);
}

/// The case of the keywords does not matter: keywords with the same lower-case forms
/// match equally often.
pub proof fn law_case_of_keywords_is_ignored(
    keywords: Seq<Seq<char>>,
    other: Seq<Seq<char>>,
    lower: Seq<char>,
)
    requires
        keywords.len() == other.len(),
        forall|k: int|
            0 <= k < keywords.len() ==> lowercase(#[trigger] keywords[k]) == lowercase(other[k]),
    ensures
        matched(keywords, lower).len() == matched(other, lower).len(),
    decreases keywords.len(),
{
    reveal(Seq::filter);
    if keywords.len() > 0 {
        let n = keywords.len() - 1;
        assert(lowercase(keywords[n]) == lowercase(other[n]));
        law_case_of_keywords_is_ignored(keywords.drop_last(), other.drop_last(), lower);
    }
}

/// Where no keyword matches and a fallback is configured, a score of at least the
/// threshold gives the complex tier and a lower one the simple tier.
pub proof fn law_threshold_decides<'a>(
    config: TiersConfig,
    matches: Seq<Seq<Seq<char>>>,
    score: nat,
    tier: Cow<'a, Tier>,
    reason: Seq<char>,
)
    requires
        no_match(matches),
        config.fallback is Some,
        routed(config, matches, score, tier, reason),
    ensures
        score >= config.fallback->0.threshold ==> is_fallback_tier(
            chosen(tier),
            config.fallback->0.complex,
            "complex-fallback"@,
        ),
        score < config.fallback->0.threshold ==> is_fallback_tier(
            chosen(tier),
            config.fallback->0.simple,
            "simple-fallback"@,
        ),
{
}

/// With a threshold of at most 5, such as the default one, a conversation that shows an
/// image and matches no keyword goes to the complex tier.
pub proof fn law_image_is_complex<'a>(
    config: TiersConfig,
    messages: Seq<Message>,
    tier: Cow<'a, Tier>,
    reason: Seq<char>,
)
    requires
        any_image(messages),
        no_match(conversation_matches(config.tiers@, messages)),
        config.fallback matches Some(fallback) && fallback.threshold <= 5,
        routed(
            config,
            conversation_matches(config.tiers@, messages),
            complexity(messages, config.keywords),
            tier,
            reason,
        ),
    ensures
        is_fallback_tier(chosen(tier), config.fallback->0.complex, "complex-fallback"@),
{
    law_score_range(messages, config.keywords);
}

/// Every matching keyword adds the weight of the tier to its score. Without a match the
/// score is zero.
pub proof fn law_each_match_adds_the_weight(tier: Tier, matches: Seq<Seq<char>>, word: Seq<char>)
    ensures
        tier_score(tier, Seq::empty()) == 0,
        tier_score(tier, matches.push(word)) == tier_score(tier, matches) + tier.weight,
{
    let n = matches.len();
    let w = tier.weight as nat;
    assert((n + 1) * w == n * w + w) by (nonlinear_arith);
}

/// Each keyword is among the matches exactly where its lower-case form occurs, at its
/// place and as it is written.
pub proof fn law_each_keyword_is_matched(
    keywords: Seq<Seq<char>>,
    keyword: Seq<char>,
    lower: Seq<char>,
)
    ensures
        matched(Seq::empty(), lower) == Seq::<Seq<char>>::empty(),
        occurs(lower, lowercase(keyword)) ==> matched(keywords.push(keyword), lower) == matched(
            keywords,
            lower,
        ).push(keyword),
        !occurs(lower, lowercase(keyword)) ==> matched(keywords.push(keyword), lower) == matched(
            keywords,
            lower,
        ),
{
    reveal(Seq::filter);
    assert(keywords.push(keyword).drop_last() =~= keywords);
}

/// Each keyword is picked exactly where the lower-case form that is given for it occurs.
pub proof fn law_each_keyword_is_picked(
    keywords: Seq<Seq<char>>,
    lowered: Seq<Seq<char>>,
    keyword: Seq<char>,
    low: Seq<char>,
    lower: Seq<char>,
)
    requires
        lowered.len() == keywords.len(),
    ensures
        matched_by(Seq::empty(), Seq::empty(), lower) == Seq::<Seq<char>>::empty(),
        matched_by(keywords.push(keyword), lowered.push(low), lower) == if occurs(lower, low) {
            matched_by(keywords, lowered, lower).push(keyword)
        } else {
            matched_by(keywords, lowered, lower)
        },
{
    assert(keywords.push(keyword).drop_last() =~= keywords);
    assert(lowered.push(low).drop_last() =~= lowered);
}

/// Each tier has the matches of its own keywords in the whole conversation.
pub proof fn law_matches_of_each_tier(tiers: Seq<Tier>, messages: Seq<Message>, k: int)
    requires
        0 <= k < tiers.len(),
    ensures
        conversation_matches(tiers, messages).len() == tiers.len(),
        conversation_matches(tiers, messages)[k] == matched(
            views(tiers[k].keywords@),
            lowercase(full_text(messages)),
        ),
{
}

/// A keyword that stands in some message matches, whatever stands around it, whoever
/// wrote the message and in whatever case: said here of ASCII texts.
pub proof fn law_keyword_in_a_message_matches(
    tiers: Seq<Tier>,
    t: int,
    k: int,
    messages: Seq<Message>,
    m: int,
    before: Seq<char>,
    word: Seq<char>,
    after: Seq<char>,
)
    requires
        0 <= t < tiers.len(),
        0 <= k < tiers[t].keywords@.len(),
        0 <= m < messages.len(),
        forall|j: int| 0 <= j < messages.len() ==> is_ascii((#[trigger] messages[j]).text_view()),
        messages[m].text_view() == before + word + after,
        is_ascii(tiers[t].keywords@[k]@),
        ascii_lowercase(word) == ascii_lowercase(tiers[t].keywords@[k]@),
    ensures
        conversation_matches(tiers, messages)[t].contains(tiers[t].keywords@[k]@),
        !no_match(conversation_matches(tiers, messages)),
{
    let keyword = tiers[t].keywords@[k]@;
    let texts = message_texts(messages);
    reveal_strlit(" ");
    assert(ascii_lowercase(" "@) =~= " "@);
    assert forall|j: int| 0 <= j < texts.len() implies is_ascii(#[trigger] texts[j]) by {
        assert(is_ascii(messages[j].text_view()));
    }
    lemma_joined_lowercase(texts, " "@);
    let full = full_text(messages);
    let (head, tail) = lemma_message_in_conversation(messages, m);
    let left = head + before;
    let right = after + tail;
    assert(full =~= left + word + right);
    assert(ascii_lowercase(full) =~= ascii_lowercase(left) + ascii_lowercase(word)
        + ascii_lowercase(right));
    law_word_in_context_occurs(
        ascii_lowercase(left),
        ascii_lowercase(word),
        ascii_lowercase(right),
    );
    assert(occurs(lowercase(full), lowercase(keyword)));
    let keywords = views(tiers[t].keywords@);
    assert(keywords[k] == keyword);
    lemma_occurring_keyword_is_matched(keywords, k, lowercase(full));
    let matches = conversation_matches(tiers, messages);
    assert(matches[t] == matched(keywords, lowercase(full)));
    assert(matches[t].len() > 0);
}

proof fn lemma_occurring_keyword_is_matched(keywords: Seq<Seq<char>>, k: int, lower: Seq<char>)
    requires
        0 <= k < keywords.len(),
        occurs(lower, lowercase(keywords[k])),
    ensures
        matched(keywords, lower).contains(keywords[k]),
    decreases keywords.len(),
{
    let front = keywords.drop_last();
    assert(front.push(keywords.last()) =~= keywords);
    law_each_keyword_is_matched(front, keywords.last(), lower);
    if k < front.len() {
        lemma_occurring_keyword_is_matched(front, k, lower);
        let at = matched(front, lower).index_of(keywords[k]);
        assert(matched(keywords, lower)[at] == keywords[k]);
    } else {
        let all = matched(keywords, lower);
        assert(all[all.len() - 1] == keywords[k]);
    }
}

/// The text of each message stands in the text of the conversation.
proof fn lemma_message_in_conversation(messages: Seq<Message>, m: int) -> (res: (
    Seq<char>,
    Seq<char>,
))
    requires
        0 <= m < messages.len(),
    ensures
        full_text(messages) == res.0 + messages[m].text_view() + res.1,
{
    let none = Seq::<char>::empty();
    let message = messages[m];
    let first = messages.take(m);
    let rest = messages.skip(m + 1);
    law_conversation_text(first, seq![message], message);
    law_conversation_text(first + seq![message], rest, message);
    assert(first + seq![message] + rest =~= messages);
    let head = if first.len() > 0 {
        full_text(first) + seq![' ']
    } else {
        none
    };
    let tail = if rest.len() > 0 {
        seq![' '] + full_text(rest)
    } else {
        none
    };
    if first.len() == 0 {
        assert(first + seq![message] =~= seq![message]);
    }
    if rest.len() == 0 {
        assert(first + seq![message] + rest =~= first + seq![message]);
    }
    assert(full_text(messages) =~= head + message.text_view() + tail);
    (head, tail)
}

/// The contents of lists of matches are the strings of each, in order.
pub proof fn law_all_views(lists: Seq<Vec<String>>, k: int, j: int)
    ensures
        all_views(lists).len() == lists.len(),
        0 <= k < lists.len() ==> all_views(lists)[k].len() == lists[k]@.len(),
        0 <= k < lists.len() && 0 <= j < lists[k]@.len() ==> all_views(lists)[k][j]
            == lists[k]@[j]@,
{
}

/// There is a match exactly where one of the tiers has one.
pub proof fn law_no_match(matches: Seq<Seq<Seq<char>>>, list: Seq<Seq<char>>)
    ensures
        no_match(Seq::empty()),
        no_match(matches.push(list)) <==> no_match(matches) && list.len() == 0,
{
    let all = matches.push(list);
    if no_match(all) {
        assert(all[matches.len() as int] == list);
        assert forall|k: int| 0 <= k < matches.len() implies (#[trigger] matches[k]).len() == 0 by {
            assert(all[k] == matches[k]);
        }
    }
}

/// The winner has a match, and no tier has a higher product of the number of its matches
/// and its weight.
pub proof fn law_product_decides(
    tiers: Seq<Tier>,
    matches: Seq<Seq<Seq<char>>>,
    w: int,
    other: int,
)
    requires
        wins(tiers, matches, w),
        0 <= other < tiers.len(),
    ensures
        0 <= w < tiers.len(),
        matches[w].len() > 0,
        matches[other].len() * tiers[other].weight <= matches[w].len() * tiers[w].weight,
{
    if matches[other].len() == 0 {
        let weight = tiers[other].weight as int;
        let product = matches[w].len() * tiers[w].weight;
        assert(0 * weight == 0);
        assert(product >= 0) by (nonlinear_arith)
            requires
                product == matches[w].len() * tiers[w].weight,
        ;
    }
}

/// Ties: of tiers with matches and the same score the higher weight wins, then a default
/// tier. Of two default tiers that still tie the later one wins, of two others the
/// earlier one.
pub proof fn law_ties(tiers: Seq<Tier>, matches: Seq<Seq<Seq<char>>>, w: int, other: int)
    requires
        wins(tiers, matches, w),
        0 <= other < tiers.len(),
        other != w,
        matches[other].len() > 0,
        matches[other].len() * tiers[other].weight == matches[w].len() * tiers[w].weight,
    ensures
        tiers[other].weight <= tiers[w].weight,
        tiers[other].weight == tiers[w].weight ==> (tiers[other].default ==> tiers[w].default)
            && (tiers[other].default == tiers[w].default ==> (if tiers[w].default {
            other < w
        } else {
            w < other
        })),
{
    assert(outranks(tiers, matches, w, other));
}

/// A selection refers to a tier or holds one: that is the tier selected.
pub proof fn law_chosen_tier(tier: Tier)
    ensures
        chosen(Cow::Borrowed(&tier)) == tier,
        chosen(Cow::Owned(tier)) == tier,
{
}

/// Where a keyword matches, the winner is selected. The reason gives its name, its matches
/// and the product of their number and its weight.
pub proof fn law_domain_selection<'a>(
    config: TiersConfig,
    matches: Seq<Seq<Seq<char>>>,
    score: nat,
    tier: Cow<'a, Tier>,
    reason: Seq<char>,
) -> (w: int)
    requires
        !no_match(matches),
        routed(config, matches, score, tier, reason),
    ensures
        wins(config.tiers@, matches, w),
        chosen(tier) == config.tiers@[w],
        reason == "domain: "@ + (config.tiers@[w].name@ + " (matches: ["@ + joined(
            matches[w],
            ", "@,
        ) + "], score: "@ + decimal(matches[w].len() * config.tiers@[w].weight as nat) + ")"@),
{
    choose|w: int| #[trigger]
        wins(config.tiers@, matches, w) && tier == Cow::<'a, Tier>::Borrowed(&config.tiers@[w])
            && reason == domain_reason(config.tiers@[w], matches[w])
}

/// Where no keyword matches, the fallback tier on the side of the score is selected, with
/// its own model, base URL, key and authentication header. The reason gives the score and
/// the threshold.
pub proof fn law_fallback_selection<'a>(
    config: TiersConfig,
    fallback: FallbackConfig,
    matches: Seq<Seq<Seq<char>>>,
    score: nat,
    tier: Cow<'a, Tier>,
    reason: Seq<char>,
    side: FallbackTier,
)
    requires
        no_match(matches),
        config.fallback == Some(fallback),
        routed(config, matches, score, tier, reason),
        side == if score >= fallback.threshold {
            fallback.complex
        } else {
            fallback.simple
        },
    ensures
        chosen(tier).model@ == side.model@,
        chosen(tier).api_base@ == side.api_base@,
        chosen(tier).api_key@ == side.api_key@,
        chosen(tier).auth_header@ == side.auth_header@,
        chosen(tier).keywords@.len() == 0,
        chosen(tier).weight == 0,
        !chosen(tier).default,
        score >= fallback.threshold ==> chosen(tier).name@ == "complex-fallback"@ && reason
            == "complexity: "@ + "high"@ + " (score: "@ + decimal(score) + ", threshold: "@
            + decimal(fallback.threshold as nat) + ")"@,
        score < fallback.threshold ==> chosen(tier).name@ == "simple-fallback"@ && reason
            == "complexity: "@ + "low"@ + " (score: "@ + decimal(score) + ", threshold: "@
            + decimal(fallback.threshold as nat) + ")"@,
{
}

/// Where no keyword matches and there is no fallback, the first default tier is selected.
pub proof fn law_default_selection<'a>(
    config: TiersConfig,
    matches: Seq<Seq<Seq<char>>>,
    score: nat,
    tier: Cow<'a, Tier>,
    reason: Seq<char>,
) -> (d: int)
    requires
        no_match(matches),
        config.fallback is None,
        routed(config, matches, score, tier, reason),
    ensures
        0 <= d < config.tiers@.len(),
        chosen(tier) == config.tiers@[d],
        config.tiers@[d].default,
        forall|j: int| 0 <= j < d ==> !(#[trigger] config.tiers@[j]).default,
        reason == "default (no keywords matched, no fallback)"@,
{
    choose|d: int| #[trigger]
        is_first_default(config.tiers@, d) && tier == Cow::<'a, Tier>::Borrowed(
            &config.tiers@[d],
        ) && reason == "default (no keywords matched, no fallback)"@
}

/// A tier is found for a conversation exactly where some keyword matches, there is a
/// fallback, or there is a default tier.
pub proof fn law_routable(config: TiersConfig, messages: Seq<Message>)
    ensures
        routable(config, messages) <==> {
            ||| config.fallback is Some
            ||| exists|k: int| 0 <= k < config.tiers@.len() && (#[trigger] config.tiers@[k]).default
            ||| exists|k: int|
                0 <= k < config.tiers@.len() && (#[trigger] conversation_matches(
                    config.tiers@,
                    messages,
                )[k]).len() > 0
        },
{
}

} // verus!
