//! Which badges a member's roles earn.
use super::models::{self, BadgeGroup, BadgeRule, BadgeRuleView};
use crate::text::{self, chars_le, chars_of, contains_string};
use vstd::prelude::*;

verus! {

/// Whether `rule` is a rule of `group` for one of `role_ids`.
pub open spec fn rule_applies(
    role_ids: Seq<Seq<char>>,
    rule: BadgeRuleView,
    group: BadgeGroup,
) -> bool {
    rule.group == group && role_ids.contains(rule.role_id)
}

/// Rules are ranked by priority, then by badge ID.
pub open spec fn rule_ranks_before(a: BadgeRuleView, b: BadgeRuleView) -> bool {
    a.priority < b.priority || (a.priority == b.priority && text::lex_le(a.badge_id, b.badge_id))
}

/// `rules[i]` applies and ranks before every other rule that applies.
pub open spec fn is_best_rule(
    role_ids: Seq<Seq<char>>,
    rules: Seq<BadgeRuleView>,
    group: BadgeGroup,
    i: int,
) -> bool {
    &&& 0 <= i < rules.len()
    &&& rule_applies(role_ids, rules[i], group)
    &&& forall|j: int|
        0 <= j < rules.len() && rule_applies(role_ids, #[trigger] rules[j], group)
            ==> rule_ranks_before(rules[i], rules[j])
}

/// Some rule of `group` applies to `role_ids`.
pub open spec fn group_has_rule(
    role_ids: Seq<Seq<char>>,
    rules: Seq<BadgeRuleView>,
    group: BadgeGroup,
) -> bool {
    exists|i: int| 0 <= i < rules.len() && rule_applies(role_ids, #[trigger] rules[i], group)
}

/// The badge a member with `role_ids` wears in `group`: that of the best
/// applying rule, or none when no rule of the group applies.
pub open spec fn group_badge(
    role_ids: Seq<Seq<char>>,
    rules: Seq<BadgeRuleView>,
    group: BadgeGroup,
) -> Seq<Seq<char>> {
    if group_has_rule(role_ids, rules, group) {
        seq![rules[choose|i: int| is_best_rule(role_ids, rules, group, i)].badge_id]
    } else {
        seq![]
    }
}

/// The badges a member with `role_ids` wears: the career badge, then the team badge.
pub open spec fn badges_for(role_ids: Seq<Seq<char>>, rules: Seq<BadgeRuleView>) -> Seq<Seq<char>> {
    group_badge(role_ids, rules, BadgeGroup::Career) + group_badge(
        role_ids,
        rules,
        BadgeGroup::Team,
    )
}

/// Two best rules of one group grant the same badge.
pub proof fn lemma_best_rule_badge_unique(
    role_ids: Seq<Seq<char>>,
    rules: Seq<BadgeRuleView>,
    group: BadgeGroup,
    i: int,
    j: int,
)
    requires
        is_best_rule(role_ids, rules, group, i),
        is_best_rule(role_ids, rules, group, j),
    ensures
        rules[i].badge_id == rules[j].badge_id,
{
    assert(rule_ranks_before(rules[i], rules[j]));
    assert(rule_ranks_before(rules[j], rules[i]));
    text::lemma_lex_le_antisymmetric(rules[i].badge_id, rules[j].badge_id);
}

/// The rule at `i` applies in `group` and has a lower priority than every
/// other rule that applies in `group`.
pub open spec fn strictly_lowest(role_ids: Seq<Seq<char>>, rules: Seq<BadgeRuleView>, group: BadgeGroup, i: int) -> bool {
    &&& 0 <= i < rules.len()
    &&& rules[i].group == group
    &&& role_ids.contains(rules[i].role_id)
    &&& forall|j: int|
        0 <= j < rules.len() && j != i && (#[trigger] rules[j]).group == group && role_ids.contains(rules[j].role_id)
            ==> rules[i].priority < rules[j].priority
}

/// No rule of `group` is for one of `role_ids`.
pub open spec fn no_rule_in(role_ids: Seq<Seq<char>>, rules: Seq<BadgeRuleView>, group: BadgeGroup) -> bool {
    forall|j: int| 0 <= j < rules.len() && (#[trigger] rules[j]).group == group ==> !role_ids.contains(rules[j].role_id)
}

proof fn lemma_group_badge_cases(role_ids: Seq<Seq<char>>, rules: Seq<BadgeRuleView>, group: BadgeGroup)
    ensures
        forall|i: int| #[trigger] strictly_lowest(role_ids, rules, group, i) ==> group_badge(role_ids, rules, group)
            == seq![rules[i].badge_id],
        no_rule_in(role_ids, rules, group) ==> group_badge(role_ids, rules, group) == Seq::<Seq<char>>::empty(),
{
    assert forall|i: int| #[trigger] strictly_lowest(role_ids, rules, group, i) implies group_badge(role_ids, rules, group)
        == seq![rules[i].badge_id] by {
        assert(rule_applies(role_ids, rules[i], group));
        assert(is_best_rule(role_ids, rules, group, i)) by {
            assert forall|j: int| 0 <= j < rules.len() && rule_applies(role_ids, #[trigger] rules[j], group)
                implies rule_ranks_before(rules[i], rules[j]) by {
                if j == i {
                    text::lemma_lex_le_reflexive(rules[i].badge_id);
                }
            }
        }
        let c = choose|c: int| is_best_rule(role_ids, rules, group, c);
        lemma_best_rule_badge_unique(role_ids, rules, group, i, c);
    }
    if no_rule_in(role_ids, rules, group) {
        assert(!group_has_rule(role_ids, rules, group)) by {
            if group_has_rule(role_ids, rules, group) {
                let j = choose|j: int| 0 <= j < rules.len() && rule_applies(role_ids, #[trigger] rules[j], group);
                assert(rules[j].group == group);
            }
        }
    }
}

/// Which badges a member wears: in each group, the badge of the rule for
/// one of the member's roles with the lowest priority, none when no rule of
/// the group is for one of the member's roles; the career badge comes
/// before the team badge.
pub proof fn lemma_lowest_priority_rules_give_the_badges(
    role_ids: Seq<Seq<char>>,
    rules: Seq<BadgeRuleView>,
    career: int,
    team: int,
)
    ensures
        strictly_lowest(role_ids, rules, BadgeGroup::Career, career) && strictly_lowest(
            role_ids,
            rules,
            BadgeGroup::Team,
            team,
        ) ==> badges_for(role_ids, rules) == seq![rules[career].badge_id, rules[team].badge_id],
        strictly_lowest(role_ids, rules, BadgeGroup::Career, career) && no_rule_in(role_ids, rules, BadgeGroup::Team)
            ==> badges_for(role_ids, rules) == seq![rules[career].badge_id],
        no_rule_in(role_ids, rules, BadgeGroup::Career) && strictly_lowest(role_ids, rules, BadgeGroup::Team, team)
            ==> badges_for(role_ids, rules) == seq![rules[team].badge_id],
        no_rule_in(role_ids, rules, BadgeGroup::Career) && no_rule_in(role_ids, rules, BadgeGroup::Team)
            ==> badges_for(role_ids, rules).len() == 0,
{
    lemma_group_badge_cases(role_ids, rules, BadgeGroup::Career);
    lemma_group_badge_cases(role_ids, rules, BadgeGroup::Team);
    let c = group_badge(role_ids, rules, BadgeGroup::Career);
    let t = group_badge(role_ids, rules, BadgeGroup::Team);
    if strictly_lowest(role_ids, rules, BadgeGroup::Career, career) && strictly_lowest(role_ids, rules, BadgeGroup::Team, team) {
        assert(c + t =~= seq![rules[career].badge_id, rules[team].badge_id]);
    }
    if strictly_lowest(role_ids, rules, BadgeGroup::Career, career) && no_rule_in(role_ids, rules, BadgeGroup::Team) {
        assert(c + t =~= seq![rules[career].badge_id]);
    }
    if no_rule_in(role_ids, rules, BadgeGroup::Career) && strictly_lowest(role_ids, rules, BadgeGroup::Team, team) {
        assert(c + t =~= seq![rules[team].badge_id]);
    }
}

/// Whether `rule` ranks before `other`.
fn ranks_before(rule: &BadgeRule, other: &BadgeRule) -> (r: bool)
    ensures
        r == rule_ranks_before(rule@, other@),
{
    if rule.priority != other.priority {
        rule.priority < other.priority
    } else {
        chars_le(&chars_of(rule.badge_id.as_str()), &chars_of(other.badge_id.as_str()))
    }
}

/// The best rule of `group` for `role_ids`, if any rule of the group applies.
fn best_rule<'a>(role_ids: &[String], rules: &'a [BadgeRule], group: BadgeGroup) -> (r: Option<
    &'a BadgeRule,
>)
    ensures
        r is None <==> !group_has_rule(role_ids.deep_view(), models::rules_view(rules@), group),
        r matches Some(rule) ==> exists|i: int|
            is_best_rule(role_ids.deep_view(), models::rules_view(rules@), group, i) && rule@
                == models::rules_view(rules@)[i],
{
    let ghost rv = models::rules_view(rules@);
    let ghost ids = role_ids.deep_view();
    let mut best: Option<usize> = None;
    let mut k: usize = 0;
    while k < rules.len()
        invariant
            k <= rules@.len(),
            rv == models::rules_view(rules@),
            ids == role_ids.deep_view(),
            best is None ==> forall|j: int| 0 <= j < k ==> !rule_applies(ids, #[trigger] rv[j], group),
            best matches Some(b) ==> {
                &&& b < k
                &&& rule_applies(ids, rv[b as int], group)
                &&& forall|j: int|
                    0 <= j < k && rule_applies(ids, #[trigger] rv[j], group)
                        ==> rule_ranks_before(rv[b as int], rv[j])
            },
        decreases rules@.len() - k,
    {
        let rule = &rules[k];
        let applies = rule.group == group && contains_string(role_ids, &rule.role_id);
        assert(rv[k as int] == rule@);
        if applies {
            match best {
                None => {
                    best = Some(k);
                    proof {
                        lemma_lex_le_reflexive_rule(rv[k as int]);
                    }
                },
                Some(b) => {
                    if !ranks_before(&rules[b], rule) {
                        proof {
                            let old_best = rv[b as int];
                            let new_rule = rv[k as int];
                            text::lemma_lex_le_total(old_best.badge_id, new_rule.badge_id);
                            assert(rule_ranks_before(new_rule, old_best));
                            assert forall|j: int|
                                0 <= j < k + 1 && rule_applies(ids, #[trigger] rv[j], group)
                                    implies rule_ranks_before(new_rule, rv[j]) by {
                                if j < k {
                                    assert(rule_ranks_before(old_best, rv[j]));
                                    if new_rule.priority == old_best.priority
                                        && old_best.priority == rv[j].priority {
                                        text::lemma_lex_le_transitive(
                                            new_rule.badge_id,
                                            old_best.badge_id,
                                            rv[j].badge_id,
                                        );
                                    }
                                } else {
                                    lemma_lex_le_reflexive_rule(new_rule);
                                }
                            }
                        }
                        best = Some(k);
                    } else {
                        proof {
                            assert(rule_ranks_before(rv[b as int], rv[k as int]));
                        }
                    }
                },
            }
        }
        k = k + 1;
    }
    match best {
        None => None,
        Some(b) => {
            assert(is_best_rule(ids, rv, group, b as int));
            Some(&rules[b])
        },
    }
}

proof fn lemma_lex_le_reflexive_rule(r: BadgeRuleView)
    ensures
        rule_ranks_before(r, r),
{
    text::lemma_lex_le_reflexive(r.badge_id);
}

/// The badges that `role_ids` earn under `rules`: the badge of the best
/// applying career rule, then that of the best applying team rule; a group
/// with no applying rule contributes nothing.
pub fn derive_badges(role_ids: &[String], rules: &[BadgeRule]) -> (badges: Vec<String>)
    ensures
        badges.deep_view() == badges_for(role_ids.deep_view(), models::rules_view(rules@)),
        badges@.len() <= 2,
{
    let ghost ids = role_ids.deep_view();
    let ghost rv = models::rules_view(rules@);
    let mut badges: Vec<String> = Vec::new();
    let career = best_rule(role_ids, rules, BadgeGroup::Career);
    if let Some(rule) = career {
        badges.push(rule.badge_id.clone());
        proof {
            let i = choose|i: int| is_best_rule(ids, rv, BadgeGroup::Career, i) && rule@ == rv[i];
            let c = choose|i: int| is_best_rule(ids, rv, BadgeGroup::Career, i);
            lemma_best_rule_badge_unique(ids, rv, BadgeGroup::Career, i, c);
        }
    }
    assert(badges.deep_view() =~= group_badge(ids, rv, BadgeGroup::Career));
    let ghost after_career = badges.deep_view();
    let team = best_rule(role_ids, rules, BadgeGroup::Team);
    if let Some(rule) = team {
        badges.push(rule.badge_id.clone());
        proof {
            let i = choose|i: int| is_best_rule(ids, rv, BadgeGroup::Team, i) && rule@ == rv[i];
            let c = choose|i: int| is_best_rule(ids, rv, BadgeGroup::Team, i);
            lemma_best_rule_badge_unique(ids, rv, BadgeGroup::Team, i, c);
        }
    }
    assert(badges.deep_view() =~= after_career + group_badge(ids, rv, BadgeGroup::Team));
    badges
}

} // verus!
