//! Alias resolution: from a raw identity to its canonical form.

use crate::model::{Identity, IdentityView};
use vstd::prelude::*;

verus! {

/// One rule of an alias table. A rule without a raw name applies to every
/// identity with its raw e-mail address; a rule with a raw name applies to
/// the identity with exactly that name and address.
#[derive(Clone, Debug, PartialEq, Eq)]
pub struct AliasRule {
    pub canonical_name: String,
    pub canonical_email: String,
    pub raw_name: Option<String>,
    pub raw_email: String,
}

/// The mathematical value of an [`AliasRule`].
pub struct AliasRuleView {
    pub canonical_name: Seq<char>,
    pub canonical_email: Seq<char>,
    pub raw_name: Option<Seq<char>>,
    pub raw_email: Seq<char>,
}

impl AliasRuleView {
    /// The identity that the rule maps to.
    pub open spec fn canonical(self) -> IdentityView {
        IdentityView { name: self.canonical_name, email: self.canonical_email }
    }

    /// The rule names no raw name and its raw address is `email`.
    pub open spec fn matches_email(self, email: Seq<char>) -> bool {
        self.raw_name is None && self.raw_email == email
    }

    /// The rule names exactly this raw name and this raw address.
    pub open spec fn matches_pair(self, raw: IdentityView) -> bool {
        self.raw_name == Some(raw.name) && self.raw_email == raw.email
    }
}

impl View for AliasRule {
    type V = AliasRuleView;

    open spec fn view(&self) -> AliasRuleView {
        AliasRuleView {
            canonical_name: self.canonical_name@,
            canonical_email: self.canonical_email@,
            raw_name: match self.raw_name {
                Some(n) => Some(n@),
                None => None,
            },
            raw_email: self.raw_email@,
        }
    }
}

impl DeepView for AliasRule {
    type V = AliasRuleView;

    open spec fn deep_view(&self) -> AliasRuleView {
        self@
    }
}

/// The position of the first rule at or after `from` that names no raw
/// name and whose raw address is `email`, or `None` where there is none.
pub open spec fn first_email_rule(rules: Seq<AliasRuleView>, email: Seq<char>, from: int) -> Option<
    int,
>
    decreases rules.len() - from,
{
    if from < 0 || from >= rules.len() {
        None
    } else if rules[from].matches_email(email) {
        Some(from)
    } else {
        first_email_rule(rules, email, from + 1)
    }
}

/// The position of the first rule at or after `from` that names exactly the
/// raw name and the raw address of `raw`, or `None` where there is none.
pub open spec fn first_pair_rule(rules: Seq<AliasRuleView>, raw: IdentityView, from: int) -> Option<
    int,
>
    decreases rules.len() - from,
{
    if from < 0 || from >= rules.len() {
        None
    } else if rules[from].matches_pair(raw) {
        Some(from)
    } else {
        first_pair_rule(rules, raw, from + 1)
    }
}

/// The canonical identity of `raw` under `rules`.
///
/// A rule on the address alone wins over a rule on name and address; within
/// each class the first rule of the table wins; an identity that no rule
/// applies to is its own canonical form.
pub open spec fn canonical_identity(rules: Seq<AliasRuleView>, raw: IdentityView) -> IdentityView {
    match first_email_rule(rules, raw.email, 0) {
        Some(i) => rules[i].canonical(),
        None => match first_pair_rule(rules, raw, 0) {
            Some(j) => rules[j].canonical(),
            None => raw,
        },
    }
}

/// What `first_email_rule` finds is a position of the table, the rule there
/// applies, and no rule between `from` and it does.
pub proof fn lemma_first_email_rule(rules: Seq<AliasRuleView>, email: Seq<char>, from: int)
    requires
        0 <= from,
    ensures
        match first_email_rule(rules, email, from) {
            Some(i) => from <= i < rules.len() && rules[i].matches_email(email) && forall|k: int|
                from <= k < i ==> !#[trigger] rules[k].matches_email(email),
            None => forall|k: int|
                from <= k < rules.len() ==> !#[trigger] rules[k].matches_email(email),
        },
    decreases rules.len() - from,
{
    if from < rules.len() && !rules[from].matches_email(email) {
        lemma_first_email_rule(rules, email, from + 1);
    }
}

/// What `first_pair_rule` finds is a position of the table, the rule there
/// applies, and no rule between `from` and it does.
pub proof fn lemma_first_pair_rule(rules: Seq<AliasRuleView>, raw: IdentityView, from: int)
    requires
        0 <= from,
    ensures
        match first_pair_rule(rules, raw, from) {
            Some(i) => from <= i < rules.len() && rules[i].matches_pair(raw) && forall|k: int|
                from <= k < i ==> !#[trigger] rules[k].matches_pair(raw),
            None => forall|k: int|
                from <= k < rules.len() ==> !#[trigger] rules[k].matches_pair(raw),
        },
    decreases rules.len() - from,
{
    if from < rules.len() && !rules[from].matches_pair(raw) {
        lemma_first_pair_rule(rules, raw, from + 1);
    }
}

/// An alias table, fixed once it is built.
#[derive(Clone, Debug, PartialEq, Eq)]
pub struct AliasResolver {
    pub rules: Vec<AliasRule>,
}

impl View for AliasResolver {
    type V = Seq<AliasRuleView>;

    open spec fn view(&self) -> Seq<AliasRuleView> {
        self.rules.deep_view()
    }
}

impl AliasResolver {
    /// The table without rules: every identity is its own canonical form.
    pub fn empty() -> (r: AliasResolver)
        ensures
            r@ == Seq::<AliasRuleView>::empty(),
    {
        let r = AliasResolver { rules: Vec::new() };
        assert(r@ =~= Seq::<AliasRuleView>::empty());
        r
    }

    /// The table that holds `rules` in their order.
    pub fn from_rules(rules: Vec<AliasRule>) -> (r: AliasResolver)
        ensures
            r@ == rules.deep_view(),
    {
        AliasResolver { rules }
    }

    /// The number of rules.
    pub fn len(&self) -> (n: usize)
        ensures
            n == self@.len(),
    {
        self.rules.len()
    }

    /// The position of the first rule on the address alone that applies to
    /// `email`.
    pub fn find_email_rule(&self, email: &String) -> (r: Option<usize>)
        ensures
            match r {
                Some(i) => first_email_rule(self@, email@, 0) == Some(i as int),
                None => first_email_rule(self@, email@, 0) is None,
            },
    {
        let mut i: usize = 0;
        while i < self.rules.len()
            invariant
                0 <= i <= self.rules.len(),
                first_email_rule(self@, email@, 0) == first_email_rule(self@, email@, i as int),
            decreases self.rules.len() - i,
        {
            let rule = &self.rules[i];
            assert(self@[i as int] == rule@);
            if rule.raw_name.is_none() && rule.raw_email == *email {
                return Some(i);
            }
            i += 1;
        }
        None
    }

    /// The position of the first rule on name and address that applies to
    /// the pair.
    pub fn find_pair_rule(&self, name: &String, email: &String) -> (r: Option<usize>)
        ensures
            match r {
                Some(i) => first_pair_rule(
                    self@,
                    IdentityView { name: name@, email: email@ },
                    0,
                ) == Some(i as int),
                None => first_pair_rule(
                    self@,
                    IdentityView { name: name@, email: email@ },
                    0,
                ) is None,
            },
    {
        let ghost raw = IdentityView { name: name@, email: email@ };
        let mut i: usize = 0;
        while i < self.rules.len()
            invariant
                0 <= i <= self.rules.len(),
                raw == (IdentityView { name: name@, email: email@ }),
                first_pair_rule(self@, raw, 0) == first_pair_rule(self@, raw, i as int),
            decreases self.rules.len() - i,
        {
            let rule = &self.rules[i];
            assert(self@[i as int] == rule@);
            let hit = match &rule.raw_name {
                Some(n) => *n == *name && rule.raw_email == *email,
                None => false,
            };
            if hit {
                return Some(i);
            }
            i += 1;
        }
        None
    }

    /// The canonical identity of the raw pair `(name, email)`.
    ///
    /// The result depends on the table and the pair alone. With an empty
    /// table it is the pair itself.
    pub fn resolve(&self, name: &str, email: &str) -> (r: Identity)
        ensures
            r@ == canonical_identity(self@, IdentityView { name: name@, email: email@ }),
            self@.len() == 0 ==> r@ == (IdentityView { name: name@, email: email@ }),
    {
        let name = name.to_owned();
        let email = email.to_owned();
        match self.find_email_rule(&email) {
            Some(i) => {
                proof {
                    lemma_first_email_rule(self@, email@, 0);
                }
                let rule = &self.rules[i];
                assert(self@[i as int] == rule@);
                Identity {
                    name: rule.canonical_name.clone(),
                    email: rule.canonical_email.clone(),
                }
            },
            None => match self.find_pair_rule(&name, &email) {
                Some(j) => {
                    proof {
                        lemma_first_pair_rule(self@, IdentityView { name: name@, email: email@ }, 0);
                    }
                    let rule = &self.rules[j];
                    assert(self@[j as int] == rule@);
                    Identity {
                        name: rule.canonical_name.clone(),
                        email: rule.canonical_email.clone(),
                    }
                },
                None => Identity { name, email },
            },
        }
    }
}

} // verus!
