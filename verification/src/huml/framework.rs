//! The rule registry: rules are appended in order and evaluated, in that
//! order, against one record at a time.
use crate::huml::field_set::{
    is_sorted_union, lemma_sorted_union_unique, sorted_distinct, texts,
};
use crate::huml::summary::{fields_of, ErrorView, SummaryView, ValidationError, ValidationSummary};
use crate::Model;
use vstd::prelude::*;
use vstd::std_specs::convert::IntoSpec;

verus! {

/// Whether a rule takes part in validation.
#[derive(PartialEq, Eq, Clone, Copy, Debug, Structural)]
pub enum RuleToggle {
    Enabled,
    Disabled,
}

/// One registered rule. Its predicate answers `true` where the record is in
/// error.
#[derive(Debug)]
struct ValidationRule<F> {
    name: String,
    error: String,
    toggle: RuleToggle,
    fields: Vec<String>,
    function: F,
}

/// What a registered rule is, as contracts see it.
pub struct RuleView<F> {
    pub name: Seq<char>,
    pub error: Seq<char>,
    pub toggle: RuleToggle,
    pub fields: Seq<Seq<char>>,
    pub function: F,
}

impl<F> ValidationRule<F> {
    spec fn view(&self) -> RuleView<F> {
        RuleView {
            name: self.name@,
            error: self.error@,
            toggle: self.toggle,
            fields: texts(self.fields@),
            function: self.function,
        }
    }
}

/// An ordered, append-only registry of rules over [`Model`] records.
#[derive(Debug)]
pub struct HumlFrameWork<F> {
    rules: Vec<ValidationRule<F>>,
}

impl<F> View for HumlFrameWork<F> {
    type V = Seq<RuleView<F>>;

    /// The registered rules, in the order of registration.
    closed spec fn view(&self) -> Seq<RuleView<F>> {
        self.rules@.map_values(|rule: ValidationRule<F>| rule.view())
    }
}

/// A rule reports an error where it is enabled and its predicate answered
/// `true`.
pub open spec fn rule_fails<F>(rule: RuleView<F>, outcome: bool) -> bool {
    rule.toggle == RuleToggle::Enabled && outcome
}

/// The positions, in ascending order, of those among the first `n` rules that
/// report an error, where `outcomes[i]` is what the predicate of rule `i`
/// answered.
pub open spec fn failing<F>(rules: Seq<RuleView<F>>, outcomes: Seq<bool>, n: nat) -> Seq<int>
    decreases n,
{
    if n == 0 {
        Seq::empty()
    } else {
        let earlier = failing(rules, outcomes, (n - 1) as nat);
        if rule_fails(rules[n - 1], outcomes[n - 1]) {
            earlier.push(n - 1)
        } else {
            earlier
        }
    }
}

/// The error that a rule reports.
pub open spec fn error_of<F>(rule: RuleView<F>) -> ErrorView {
    ErrorView { error: rule.error, fields: rule.fields }
}

/// The errors of the rules that report one, in the order of registration.
pub open spec fn errors_of<F>(rules: Seq<RuleView<F>>, outcomes: Seq<bool>) -> Seq<ErrorView> {
    failing(rules, outcomes, rules.len()).map_values(|i: int| error_of(rules[i]))
}

/// `summary` is the summary of `rules` where their predicates answered
/// `outcomes`.
pub open spec fn is_summary_of<F>(
    summary: SummaryView,
    rules: Seq<RuleView<F>>,
    outcomes: Seq<bool>,
) -> bool {
    &&& summary.errors == errors_of(rules, outcomes)
    &&& summary.has_errors == (summary.errors.len() > 0)
    &&& is_sorted_union(summary.fields, fields_of(summary.errors))
}

/// `outcomes` holds, for each enabled rule, an answer that its predicate gave
/// on `data`, and `false` for each disabled rule.
pub open spec fn observed<F: Fn(&Model) -> bool>(
    rules: Seq<RuleView<F>>,
    data: &Model,
    outcomes: Seq<bool>,
) -> bool {
    &&& outcomes.len() == rules.len()
    &&& forall|i: int|
        0 <= i < rules.len() ==> if rules[i].toggle == RuleToggle::Enabled {
            call_ensures(rules[i].function, (data,), #[trigger] outcomes[i])
        } else {
            !outcomes[i]
        }
}

/// Every enabled rule's predicate may be called on `data`.
pub open spec fn applicable<F: Fn(&Model) -> bool>(rules: Seq<RuleView<F>>, data: &Model) -> bool {
    forall|i: int|
        0 <= i < rules.len() && (#[trigger] rules[i]).toggle == RuleToggle::Enabled
            ==> call_requires(rules[i].function, (data,))
}

/// The positions that [`failing`] lists are positions of rules that report
/// an error, they ascend, and no such position among the first `n` is left
/// out.
pub proof fn lemma_failing_ascends<F>(rules: Seq<RuleView<F>>, outcomes: Seq<bool>, n: nat)
    requires
        n <= rules.len(),
        n <= outcomes.len(),
    ensures
        failing(rules, outcomes, n).len() <= n,
        forall|k: int|
            0 <= k < failing(rules, outcomes, n).len() ==> {
                let i = #[trigger] failing(rules, outcomes, n)[k];
                0 <= i < n && rule_fails(rules[i], outcomes[i])
            },
        forall|j: int, k: int|
            0 <= j < k < failing(rules, outcomes, n).len() ==> failing(rules, outcomes, n)[j]
                < failing(rules, outcomes, n)[k],
        forall|i: int|
            0 <= i < n && #[trigger] rule_fails(rules[i], outcomes[i]) ==> failing(
                rules,
                outcomes,
                n,
            ).contains(i),
    decreases n,
{
    if n > 0 {
        let earlier = failing(rules, outcomes, (n - 1) as nat);
        let all = failing(rules, outcomes, n);
        lemma_failing_ascends(rules, outcomes, (n - 1) as nat);
        assert forall|i: int| 0 <= i < n && #[trigger] rule_fails(
            rules[i],
            outcomes[i],
        ) implies all.contains(i) by {
            if i < n - 1 {
                assert(earlier.contains(i));
                let k = choose|k: int| 0 <= k < earlier.len() && earlier[k] == i;
                assert(all[k] == i);
            } else {
                assert(all[all.len() - 1] == i);
            }
        }
    }
}

/// Order preservation: the errors of a summary are those of the rules that
/// are enabled and whose predicate answered `true`, one for each such rule,
/// in the order in which the rules were registered.
pub proof fn lemma_errors_keep_registration_order<F>(
    rules: Seq<RuleView<F>>,
    outcomes: Seq<bool>,
)
    requires
        outcomes.len() == rules.len(),
    ensures
        errors_of(rules, outcomes).len() == failing(rules, outcomes, rules.len()).len(),
        forall|k: int|
            0 <= k < errors_of(rules, outcomes).len() ==> {
                let i = failing(rules, outcomes, rules.len())[k];
                &&& 0 <= i < rules.len()
                &&& rule_fails(rules[i], outcomes[i])
                &&& #[trigger] errors_of(rules, outcomes)[k] == error_of(rules[i])
            },
        forall|j: int, k: int|
            0 <= j < k < errors_of(rules, outcomes).len() ==> failing(
                rules,
                outcomes,
                rules.len(),
            )[j] < failing(rules, outcomes, rules.len())[k],
        forall|i: int|
            0 <= i < rules.len() && #[trigger] rule_fails(rules[i], outcomes[i]) ==> failing(
                rules,
                outcomes,
                rules.len(),
            ).contains(i),
{
    lemma_failing_ascends(rules, outcomes, rules.len());
}

/// What the predicates of disabled rules would answer changes nothing: two
/// lists of answers that agree on the enabled rules give the same errors.
pub proof fn lemma_disabled_outcomes_irrelevant<F>(
    rules: Seq<RuleView<F>>,
    a: Seq<bool>,
    b: Seq<bool>,
)
    requires
        forall|i: int|
            0 <= i < rules.len() && (#[trigger] rules[i]).toggle == RuleToggle::Enabled ==> a[i]
                == b[i],
    ensures
        errors_of(rules, a) == errors_of(rules, b),
{
    lemma_failing_agrees(rules, a, b, rules.len());
}

proof fn lemma_failing_agrees<F>(rules: Seq<RuleView<F>>, a: Seq<bool>, b: Seq<bool>, n: nat)
    requires
        n <= rules.len(),
        forall|i: int|
            0 <= i < rules.len() && (#[trigger] rules[i]).toggle == RuleToggle::Enabled ==> a[i]
                == b[i],
    ensures
        failing(rules, a, n) == failing(rules, b, n),
    decreases n,
{
    if n > 0 {
        lemma_failing_agrees(rules, a, b, (n - 1) as nat);
    }
}

/// With every rule disabled the summary is empty, whatever the predicates
/// would answer. This covers the registry without rules.
pub proof fn lemma_disabled_rules_report_nothing<F>(
    summary: SummaryView,
    rules: Seq<RuleView<F>>,
    outcomes: Seq<bool>,
)
    requires
        outcomes.len() == rules.len(),
        forall|i: int| 0 <= i < rules.len() ==> (#[trigger] rules[i]).toggle == RuleToggle::Disabled,
        is_summary_of(summary, rules, outcomes),
    ensures
        !summary.has_errors,
        summary.errors == Seq::<ErrorView>::empty(),
        summary.fields == Seq::<Seq<char>>::empty(),
{
    lemma_failing_ascends(rules, outcomes, rules.len());
    let positions = failing(rules, outcomes, rules.len());
    if positions.len() > 0 {
        assert(rule_fails(rules[positions[0]], outcomes[positions[0]]));
    }
    assert(summary.errors =~= Seq::<ErrorView>::empty());
    assert(summary.errors.map_values(|error: ErrorView| error.fields) =~= Seq::<
        Seq<Seq<char>>,
    >::empty());
    assert(fields_of(summary.errors) =~= Seq::<Seq<char>>::empty());
    if summary.fields.len() > 0 {
        assert(summary.fields.contains(summary.fields[0]));
    }
    assert(summary.fields =~= Seq::<Seq<char>>::empty());
}

/// Rules and the answers of their predicates determine the summary: two
/// summaries of the same rules and answers are equal.
pub proof fn lemma_summary_determined<F>(
    a: SummaryView,
    b: SummaryView,
    rules: Seq<RuleView<F>>,
    outcomes: Seq<bool>,
)
    requires
        is_summary_of(a, rules, outcomes),
        is_summary_of(b, rules, outcomes),
    ensures
        a == b,
{
    lemma_sorted_union_unique(a.fields, b.fields, fields_of(a.errors));
}

/// A registry whose rules are all disabled can validate any record: nothing
/// is asked of predicates that are never called.
pub proof fn lemma_disabled_rules_always_applicable<F: Fn(&Model) -> bool>(
    rules: Seq<RuleView<F>>,
    data: &Model,
)
    requires
        forall|i: int| 0 <= i < rules.len() ==> (#[trigger] rules[i]).toggle == RuleToggle::Disabled,
    ensures
        applicable(rules, data),
{
}

/// `text` is what converting `value` into a string gave.
pub open spec fn converts_to<T: Into<String>>(value: T, text: Seq<char>) -> bool {
    exists|owned: String| call_ensures(T::into, (value,), owned) && owned@ == text
}

impl<F: Fn(&Model) -> bool> Default for HumlFrameWork<F> {
    /// A registry without rules.
    fn default() -> (framework: Self)
        ensures
            framework@ == Seq::<RuleView<F>>::empty(),
    {
        HumlFrameWork::new()
    }
}

impl<F: Fn(&Model) -> bool> HumlFrameWork<F> {
    /// A registry without rules.
    pub fn new() -> (framework: Self)
        ensures
            framework@ == Seq::<RuleView<F>>::empty(),
    {
        let framework = HumlFrameWork { rules: Vec::new() };
        assert(framework@ =~= Seq::<RuleView<F>>::empty());
        framework
    }

    /// Asks the predicate of each enabled rule about `data`, in the order of
    /// registration, and lists the answers by the rules' positions. The
    /// predicate of a disabled rule is not called; `false` stands at its
    /// position.
    pub fn evaluate(&self, data: &Model) -> (outcomes: Vec<bool>)
        requires
            applicable(self@, data),
        ensures
            observed(self@, data, outcomes@),
    {
        let mut outcomes: Vec<bool> = Vec::new();
        let mut i: usize = 0;
        while i < self.rules.len()
            invariant
                i <= self.rules@.len(),
                applicable(self@, data),
                outcomes@.len() == i,
                forall|j: int|
                    0 <= j < i ==> if self@[j].toggle == RuleToggle::Enabled {
                        call_ensures(self@[j].function, (data,), #[trigger] outcomes@[j])
                    } else {
                        !outcomes@[j]
                    },
            decreases self.rules@.len() - i,
        {
            let rule = &self.rules[i];
            assert(self@[i as int] == rule.view());
            let outcome = match rule.toggle {
                RuleToggle::Enabled => (rule.function)(data),
                RuleToggle::Disabled => false,
            };
            outcomes.push(outcome);
            i += 1;
        }
        outcomes
    }

    /// The summary for given answers of the predicates: `outcomes[i]` is what
    /// the predicate of rule `i` answered. Answers at the positions of
    /// disabled rules are not looked at.
    pub fn summarize(&self, outcomes: &[bool]) -> (summary: ValidationSummary)
        requires
            outcomes@.len() == self@.len(),
        ensures
            is_summary_of(summary@, self@, outcomes@),
    {
        let mut val_errors: Vec<ValidationError> = Vec::new();
        let mut fields: Vec<String> = Vec::new();
        let mut i: usize = 0;
        while i < self.rules.len()
            invariant
                i <= self.rules@.len(),
                outcomes@.len() == self.rules@.len(),
                val_errors@.map_values(|error: ValidationError| error@) == failing(
                    self@,
                    outcomes@,
                    i as nat,
                ).map_values(|k: int| error_of(self@[k])),
                texts(fields@) == fields_of(
                    val_errors@.map_values(|error: ValidationError| error@),
                ),
            decreases self.rules@.len() - i,
        {
            let rule = &self.rules[i];
            assert(self@[i as int] == rule.view());
            if rule.toggle == RuleToggle::Enabled && outcomes[i] {
                let ghost errors_before = val_errors@.map_values(|error: ValidationError| error@);
                let ghost fields_before = texts(fields@);
                let val_error = ValidationError {
                    error: rule.error.clone(),
                    fields: rule.fields.clone(),
                };
                let mut copy = rule.fields.clone();
                proof {
                    assert(texts(val_error.fields@) =~= texts(rule.fields@));
                    assert(texts(copy@) =~= texts(rule.fields@));
                    assert(val_error@ == error_of(self@[i as int]));
                }
                fields.append(&mut copy);
                val_errors.push(val_error);
                proof {
                    let errors_after = val_errors@.map_values(|error: ValidationError| error@);
                    assert(errors_after =~= errors_before.push(val_error@));
                    assert(failing(self@, outcomes@, (i + 1) as nat).map_values(
                        |k: int| error_of(self@[k]),
                    ) =~= failing(self@, outcomes@, i as nat).map_values(
                        |k: int| error_of(self@[k]),
                    ).push(error_of(self@[i as int])));
                    assert(texts(fields@) =~= fields_before + val_error@.fields);
                    let lists_before = errors_before.map_values(|error: ErrorView| error.fields);
                    assert(errors_after.map_values(|error: ErrorView| error.fields)
                        =~= lists_before.push(val_error@.fields));
                    lists_before.lemma_flatten_push(val_error@.fields);
                }
            }
            i += 1;
        }
        let has_errors = !val_errors.is_empty();
        let listing = sorted_distinct(fields.as_slice());
        ValidationSummary { has_errors, errors: val_errors, fields: listing }
    }

    /// Evaluates every enabled rule against `data`, in the order of
    /// registration, and reports those whose predicate answered `true`.
    /// Disabled rules are skipped: their predicates are not called, so nothing
    /// is asked of them, and they add nothing to the summary.
    #[must_use]
    pub fn validate(&self, data: &Model) -> (summary: ValidationSummary)
        requires
            applicable(self@, data),
        ensures
            exists|outcomes: Seq<bool>|
                observed(self@, data, outcomes) && is_summary_of(summary@, self@, outcomes),
            summary@.has_errors == (summary@.errors.len() > 0),
            is_sorted_union(summary@.fields, fields_of(summary@.errors)),
            (forall|i: int|
                0 <= i < self@.len() ==> (#[trigger] self@[i]).toggle == RuleToggle::Disabled) ==> {
                &&& !summary@.has_errors
                &&& summary@.errors == Seq::<ErrorView>::empty()
                &&& summary@.fields == Seq::<Seq<char>>::empty()
            },
    {
        let outcomes = self.evaluate(data);
        let summary = self.summarize(outcomes.as_slice());
        proof {
            assert(observed(self@, data, outcomes@) && is_summary_of(summary@, self@, outcomes@));
            if forall|i: int|
                0 <= i < self@.len() ==> (#[trigger] self@[i]).toggle == RuleToggle::Disabled {
                lemma_disabled_rules_report_nothing(summary@, self@, outcomes@);
            }
        }
        summary
    }

    /// Appends a rule whose texts are already owned strings.
    pub fn append_owned_rule(
        &mut self,
        name: String,
        error: String,
        toggle: RuleToggle,
        fields: Vec<String>,
        function: F,
    )
        ensures
            final(self)@ == old(self)@.push(
                RuleView { name: name@, error: error@, toggle, fields: texts(fields@), function },
            ),
    {
        let rule = ValidationRule { name, error, toggle, fields, function };
        self.rules.push(rule);
        assert(self@ =~= old(self)@.push(rule.view()));
    }

    /// Appends a rule at the end of the registry. The name, the message and
    /// each field are converted into owned strings; the rules registered
    /// before stay as they are.
    pub fn append_rule<T: Into<String>>(
        &mut self,
        name: T,
        error: T,
        toggle: RuleToggle,
        fields: Vec<T>,
        function: F,
    )
        ensures
            final(self)@.len() == old(self)@.len() + 1,
            final(self)@.drop_last() == old(self)@,
            final(self)@.last().toggle == toggle,
            final(self)@.last().function == function,
            converts_to(name, final(self)@.last().name),
            converts_to(error, final(self)@.last().error),
            final(self)@.last().fields.len() == fields@.len(),
            forall|i: int|
                0 <= i < fields@.len() ==> converts_to(
                    #[trigger] fields@[i],
                    final(self)@.last().fields[i],
                ),
            T::obeys_into_spec() ==> final(self)@.last().name == name.into_spec()@,
            T::obeys_into_spec() ==> final(self)@.last().error == error.into_spec()@,
            T::obeys_into_spec() ==> final(self)@.last().fields == fields@.map_values(
                |field: T| field.into_spec()@,
            ),
    {
        let ghost given = fields@;
        let name_text: String = name.into();
        let error_text: String = error.into();
        let mut owned: Vec<String> = Vec::new();
        for field in it: fields
            invariant
                it.seq() == given,
                owned@.len() == it.index(),
                forall|i: int|
                    0 <= i < owned@.len() ==> call_ensures(
                        T::into,
                        (#[trigger] given[i],),
                        owned@[i],
                    ),
                T::obeys_into_spec() ==> forall|i: int|
                    0 <= i < owned@.len() ==> #[trigger] owned@[i] == given[i].into_spec(),
        {
            let text: String = field.into();
            owned.push(text);
        }
        self.append_owned_rule(name_text, error_text, toggle, owned, function);
        proof {
            let last = self@.last();
            assert(self@.drop_last() =~= old(self)@);
            assert forall|i: int| 0 <= i < given.len() implies converts_to(
                #[trigger] given[i],
                last.fields[i],
            ) by {
                assert(call_ensures(T::into, (given[i],), owned@[i]));
                assert(owned@[i]@ == last.fields[i]);
            }
            if T::obeys_into_spec() {
                assert(last.fields =~= given.map_values(|field: T| field.into_spec()@));
            }
        }
    }
}

} // verus!
