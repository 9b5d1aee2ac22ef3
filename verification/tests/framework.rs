use openvalidation::huml;
use openvalidation::Model;

type Predicate<'a> = &'a dyn Fn(&Model) -> bool;

#[test]
fn huml_empty() {
    let model = Model {
        age: 17,
        name: "Hans".into(),
    };

    let huml: huml::HumlFrameWork<Predicate> = huml::HumlFrameWork::new();

    let res = huml.validate(&model);

    assert!(!res.has_errors);
    assert!(res.fields.is_empty());
    assert!(res.errors.is_empty());
}

#[test]
fn huml_no_error() {
    // all validation rules conform to the data
    let model = Model {
        age: 18,
        name: "Hans".into(),
    };

    let mut huml = huml::HumlFrameWork::new();
    huml.append_rule(
        "age check",
        "person is 18",
        huml::RuleToggle::Enabled,
        vec!["field1"],
        &|model: &Model| model.age != 18,
    );

    let res = huml.validate(&model);

    assert!(!res.has_errors);
    assert!(res.fields.is_empty());
    assert!(res.errors.is_empty());
}

#[test]
fn huml_error() {
    let model = Model {
        age: 18,
        name: "Hans".into(),
    };

    let mut huml = huml::HumlFrameWork::new();
    huml.append_rule(
        "age check",
        "person is 18",
        huml::RuleToggle::Enabled,
        vec!["field1"],
        &|model: &Model| model.age == 18,
    );

    let res = huml.validate(&model);

    assert!(res.has_errors);
    assert_eq!(res.fields, vec!["field1"]);
    assert_eq!(
        res.errors,
        vec![huml::ValidationError {
            error: "person is 18".into(),
            fields: vec!["field1".to_string()],
        }]
    );
}

#[test]
fn huml() {
    let model = Model {
        age: 17,
        name: "Hans".into(),
    };

    let mut huml: huml::HumlFrameWork<Predicate> = huml::HumlFrameWork::new();
    huml.append_rule(
        "rule1",
        "is not old enough!",
        huml::RuleToggle::Enabled,
        vec![],
        &|model: &Model| model.age < 18,
    );

    huml.append_rule(
        "rule2",
        "is not named Hans!",
        huml::RuleToggle::Enabled,
        vec![],
        &|model: &Model| model.name != "Hans",
    );

    let res = huml.validate(&model);

    println!("{:?}", res);
}

#[test]
fn huml_misc() {
    let model_1 = Model {
        age: 100,
        name: "Luigi".into(),
    };

    let model_2 = Model {
        age: 200,
        name: "Mario".into(),
    };

    let mut huml: huml::HumlFrameWork<Predicate> = huml::HumlFrameWork::new();

    huml.append_rule(
        "luigi age",
        "is not old enough!",
        huml::RuleToggle::Enabled,
        vec![],
        &|model_1: &Model| model_1.age < 18 && model_1.name != "Luigi",
    );

    huml.append_rule(
        "mario age",
        "is not named Hans!",
        huml::RuleToggle::Enabled,
        vec![],
        &|model_2: &Model| model_2.name != "Mario" && model_2.age != 200,
    );

    let res = huml.validate(&model_1);

    println!("{:?}", res);

    let res_2 = huml.validate(&model_2);
    assert!(!res_2.has_errors);
}

fn hans(age: u8) -> Model {
    Model {
        age,
        name: "Hans".into(),
    }
}

fn error(message: &str, fields: &[&str]) -> huml::ValidationError {
    huml::ValidationError {
        error: message.to_string(),
        fields: fields.iter().map(|field| field.to_string()).collect(),
    }
}

#[test]
fn two_rules_report_in_registration_order() {
    let mut huml: huml::HumlFrameWork<Predicate> = huml::HumlFrameWork::new();
    huml.append_rule(
        "rule1",
        "is not old enough!",
        huml::RuleToggle::Enabled,
        vec!["age"],
        &|model: &Model| model.age < 18,
    );
    huml.append_rule(
        "rule2",
        "is not named Hans!",
        huml::RuleToggle::Enabled,
        vec!["name"],
        &|model: &Model| model.name != "Hans",
    );
    huml.append_rule(
        "rule3",
        "is a minor named Hans",
        huml::RuleToggle::Enabled,
        vec!["name", "age"],
        &|model: &Model| model.age < 18 && model.name == "Hans",
    );

    let res = huml.validate(&hans(17));

    assert!(res.has_errors);
    assert_eq!(
        res.errors,
        vec![
            error("is not old enough!", &["age"]),
            error("is a minor named Hans", &["name", "age"]),
        ]
    );
    assert_eq!(res.fields, vec!["age", "name"]);
}

#[test]
fn fields_are_sorted_and_listed_once() {
    let mut huml: huml::HumlFrameWork<Predicate> = huml::HumlFrameWork::new();
    huml.append_rule(
        "first",
        "first failed",
        huml::RuleToggle::Enabled,
        vec!["zip", "city", "zip"],
        &|_: &Model| true,
    );
    huml.append_rule(
        "second",
        "second failed",
        huml::RuleToggle::Enabled,
        vec!["city", "Street", "age"],
        &|_: &Model| true,
    );
    huml.append_rule(
        "third",
        "third passed",
        huml::RuleToggle::Enabled,
        vec!["never"],
        &|_: &Model| false,
    );

    let res = huml.validate(&hans(30));

    assert_eq!(res.fields, vec!["Street", "age", "city", "zip"]);
    assert_eq!(
        res.errors,
        vec![
            error("first failed", &["zip", "city", "zip"]),
            error("second failed", &["city", "Street", "age"]),
        ]
    );
    assert_eq!(res.has_errors, !res.errors.is_empty());

    let mut expected: Vec<String> = res
        .errors
        .iter()
        .flat_map(|error| error.fields.clone())
        .collect();
    expected.sort();
    expected.dedup();
    assert_eq!(res.fields, expected);
}

#[test]
fn disabled_rules_are_never_asked() {
    let mut huml: huml::HumlFrameWork<Predicate> = huml::HumlFrameWork::new();
    huml.append_rule(
        "off",
        "must not be reported",
        huml::RuleToggle::Disabled,
        vec!["field1"],
        &|_: &Model| panic!("the predicate of a disabled rule was called"),
    );
    huml.append_rule(
        "off too",
        "must not be reported either",
        huml::RuleToggle::Disabled,
        vec!["field2"],
        &|_: &Model| true,
    );

    let res = huml.validate(&hans(18));

    assert!(!res.has_errors);
    assert!(res.errors.is_empty());
    assert!(res.fields.is_empty());
}

#[test]
fn disabled_rule_between_enabled_ones_adds_nothing() {
    let mut huml: huml::HumlFrameWork<Predicate> = huml::HumlFrameWork::new();
    huml.append_rule(
        "a",
        "a failed",
        huml::RuleToggle::Enabled,
        vec!["x"],
        &|_: &Model| true,
    );
    huml.append_rule(
        "b",
        "b failed",
        huml::RuleToggle::Disabled,
        vec!["y"],
        &|_: &Model| true,
    );
    huml.append_rule(
        "c",
        "c failed",
        huml::RuleToggle::Enabled,
        vec!["w"],
        &|_: &Model| true,
    );

    let res = huml.validate(&hans(18));

    assert_eq!(
        res.errors,
        vec![error("a failed", &["x"]), error("c failed", &["w"])]
    );
    assert_eq!(res.fields, vec!["w", "x"]);
}

#[test]
fn rules_with_the_same_name_are_both_evaluated() {
    let mut huml: huml::HumlFrameWork<Predicate> = huml::HumlFrameWork::new();
    huml.append_rule(
        "same",
        "first",
        huml::RuleToggle::Enabled,
        vec!["f"],
        &|_: &Model| true,
    );
    huml.append_rule(
        "same",
        "second",
        huml::RuleToggle::Enabled,
        vec!["f"],
        &|_: &Model| true,
    );

    let res = huml.validate(&hans(18));

    assert_eq!(
        res.errors,
        vec![error("first", &["f"]), error("second", &["f"])]
    );
    assert_eq!(res.fields, vec!["f"]);
}

#[test]
fn one_registry_validates_many_records() {
    let mut huml = huml::HumlFrameWork::new();
    huml.append_rule(
        "adult",
        "is not old enough!",
        huml::RuleToggle::Enabled,
        vec!["age"],
        &|model: &Model| model.age < 18,
    );

    let young = huml.validate(&hans(17));
    let old = huml.validate(&hans(18));
    let young_again = huml.validate(&hans(0));

    assert!(young.has_errors);
    assert!(!old.has_errors);
    assert!(old.errors.is_empty());
    assert!(old.fields.is_empty());
    assert_eq!(young.errors, young_again.errors);
    assert_eq!(young.fields, young_again.fields);
}

#[test]
fn owned_strings_are_accepted_as_they_are() {
    let mut huml: huml::HumlFrameWork<Predicate> = huml::HumlFrameWork::new();
    huml.append_rule(
        String::from("owned"),
        String::from("owned message"),
        huml::RuleToggle::Enabled,
        vec![String::from("b"), String::from("a")],
        &|_: &Model| true,
    );
    huml.append_owned_rule(
        String::from("direct"),
        String::from("direct message"),
        huml::RuleToggle::Enabled,
        vec![String::from("c")],
        &|_: &Model| true,
    );

    let res = huml.validate(&hans(1));

    assert_eq!(
        res.errors,
        vec![
            error("owned message", &["b", "a"]),
            error("direct message", &["c"]),
        ]
    );
    assert_eq!(res.fields, vec!["a", "b", "c"]);
}

#[test]
fn evaluate_lists_one_answer_for_each_rule() {
    let mut huml: huml::HumlFrameWork<Predicate> = huml::HumlFrameWork::new();
    huml.append_rule(
        "minor",
        "minor",
        huml::RuleToggle::Enabled,
        vec!["age"],
        &|model: &Model| model.age < 18,
    );
    huml.append_rule(
        "off",
        "off",
        huml::RuleToggle::Disabled,
        vec!["age"],
        &|_: &Model| true,
    );
    huml.append_rule(
        "adult",
        "adult",
        huml::RuleToggle::Enabled,
        vec!["age"],
        &|model: &Model| model.age >= 18,
    );

    assert_eq!(huml.evaluate(&hans(17)), vec![true, false, false]);
    assert_eq!(huml.evaluate(&hans(18)), vec![false, false, true]);
}

#[test]
fn summarize_follows_the_given_answers() {
    let mut huml: huml::HumlFrameWork<Predicate> = huml::HumlFrameWork::new();
    huml.append_rule(
        "a",
        "a failed",
        huml::RuleToggle::Enabled,
        vec!["n", "m"],
        &|_: &Model| false,
    );
    huml.append_rule(
        "b",
        "b failed",
        huml::RuleToggle::Disabled,
        vec!["k"],
        &|_: &Model| false,
    );
    huml.append_rule(
        "c",
        "c failed",
        huml::RuleToggle::Enabled,
        vec!["m", "a"],
        &|_: &Model| false,
    );

    let none = huml.summarize(&[false, false, false]);
    assert!(!none.has_errors);
    assert!(none.errors.is_empty());
    assert!(none.fields.is_empty());

    let only_disabled = huml.summarize(&[false, true, false]);
    assert!(!only_disabled.has_errors);
    assert!(only_disabled.errors.is_empty());
    assert!(only_disabled.fields.is_empty());

    let all = huml.summarize(&[true, true, true]);
    assert!(all.has_errors);
    assert_eq!(
        all.errors,
        vec![error("a failed", &["n", "m"]), error("c failed", &["m", "a"])]
    );
    assert_eq!(all.fields, vec!["a", "m", "n"]);

    let last = huml.summarize(&[false, false, true]);
    assert_eq!(last.errors, vec![error("c failed", &["m", "a"])]);
    assert_eq!(last.fields, vec!["a", "m"]);
}

#[test]
fn default_registry_is_empty() {
    let huml: huml::HumlFrameWork<Predicate> = Default::default();

    let res = huml.validate(&hans(17));

    assert!(!res.has_errors);
    assert!(res.errors.is_empty());
    assert!(res.fields.is_empty());
    assert!(huml.evaluate(&hans(17)).is_empty());
}

#[test]
fn toggles_compare_by_variant() {
    assert_eq!(huml::RuleToggle::Enabled, huml::RuleToggle::Enabled);
    assert_ne!(huml::RuleToggle::Enabled, huml::RuleToggle::Disabled);
    assert_eq!(
        format!("{:?}", huml::RuleToggle::Disabled.clone()),
        "Disabled"
    );
}
