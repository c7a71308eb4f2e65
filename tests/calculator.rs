use irc_leptos::expr::{evaluate, evaluate_with_rates, is_blank, Number};
use irc_leptos::feed::{Data, Quotes, RateFeed};
use irc_leptos::field::{Field, Form};
use irc_leptos::graph::{plan_edit, source_update, FieldId, SourceUpdate};
use irc_leptos::period::{conversion, Exponent, Period};
use irc_leptos::rates::Rates;

fn table() -> Rates {
    let mut r = Rates::new();
    r.insert("USD".to_string(), "1.0".to_string());
    r.insert("EUR".to_string(), "0.9".to_string());
    r.insert("00".to_string(), "1.0".to_string());
    r
}

fn number(r: Result<Number, irc_leptos::expr::EvalError>) -> f64 {
    match r.unwrap() {
        Number::Zero => 0.0,
        Number::Computed(v) => v.as_number().unwrap(),
    }
}

#[test]
fn substitutes_currency_code() {
    assert_eq!(table().replace("100 USD"), "100 (1.0)");
}

#[test]
fn home_code_is_never_substituted() {
    assert_eq!(table().replace("1000 EUR"), "1000 (0.9)");
    assert_eq!(table().replace("00"), "00");
    let mut only_home = Rates::new();
    only_home.insert("00".to_string(), "7".to_string());
    assert_eq!(only_home.replace("100 00"), "100 00");
}

#[test]
fn empty_table_changes_nothing() {
    assert_eq!(Rates::new().replace("2 * USD + 1"), "2 * USD + 1");
}

#[test]
fn substituted_text_is_not_read_again() {
    let mut r = Rates::new();
    r.insert("A".to_string(), "B".to_string());
    r.insert("B".to_string(), "9".to_string());
    assert_eq!(r.replace("A+B"), "(B)+(9)");
}

#[test]
fn longest_code_wins() {
    let mut r = Rates::new();
    r.insert("US".to_string(), "2".to_string());
    r.insert("USD".to_string(), "1".to_string());
    assert_eq!(r.replace("USD US"), "(1) (2)");
}

#[test]
fn insert_replaces_existing_rate() {
    let mut r = table();
    r.insert("USD".to_string(), "1.1".to_string());
    assert_eq!(r.len(), 3);
    assert_eq!(r.replace("USD"), "(1.1)");
}

#[test]
fn blank_text_is_zero() {
    assert!(matches!(evaluate(""), Ok(Number::Zero)));
    assert!(matches!(evaluate("   "), Ok(Number::Zero)));
    assert!(is_blank("\t \n"));
    assert!(!is_blank(" 1 "));
}

#[test]
fn evaluates_arithmetic() {
    assert_eq!(number(evaluate("2+2")), 4.0);
    assert_eq!(number(evaluate("(1 + 2) * 3 / 2.0")), 4.5);
    assert_eq!(number(evaluate("2^10")), 1024.0);
}

#[test]
fn malformed_text_is_an_error() {
    assert!(evaluate("2+").is_err());
    match evaluate("2+") {
        Err(e) => assert!(!e.description.is_empty()),
        Ok(_) => panic!("an incomplete expression evaluated"),
    }
}

#[test]
fn non_numeric_result_is_an_error() {
    assert!(evaluate("\"text\"").is_err());
    assert!(evaluate("true").is_err());
}

#[test]
fn evaluates_after_substitution() {
    assert_eq!(number(evaluate_with_rates("100 * EUR", &table())), 90.0);
    assert!(evaluate_with_rates("100 GBP", &table()).is_err());
}

#[test]
fn blur_after_invalid_edit_shows_canonical() {
    let mut f = Field::new("100".to_string());
    assert_eq!(f.display(), "100");
    f.focus();
    assert_eq!(f.display(), "100");
    assert!(f.input("2+".to_string(), &table()).is_err());
    assert!(f.is_error());
    assert_eq!(f.display(), "2+");
    f.blur();
    assert!(!f.is_error());
    assert_eq!(f.display(), "100");
}

#[test]
fn valid_edit_then_recomputed_value() {
    let mut f = Field::new("100".to_string());
    f.focus();
    assert!(f.input("2 * USD".to_string(), &table()).is_ok());
    assert!(!f.is_error());
    f.set_canonical("2".to_string());
    assert_eq!(f.display(), "2 * USD");
    f.blur();
    assert_eq!(f.display(), "2");
}

#[test]
fn period_exponents() {
    assert_eq!(Period::Daily.exponent(), Exponent { num: 1, den: 365 });
    assert_eq!(Period::Monthly.exponent(), Exponent { num: 1, den: 12 });
    assert_eq!(Period::Yearly.exponent(), Exponent { num: 1, den: 1 });
    assert_eq!(Period::FiveYear.exponent(), Exponent { num: 5, den: 1 });
    assert_eq!(Period::TenYear.inverse_exponent(), Exponent { num: 1, den: 10 });
    assert_eq!(Period::all().len(), 5);
}

#[test]
fn daily_edit_then_monthly_rate() {
    assert_eq!(
        source_update(FieldId::Rate(Period::Daily)),
        SourceUpdate::SetYearly { power: Exponent { num: 365, den: 1 } }
    );
    assert_eq!(conversion(Period::Daily, Period::Monthly), Exponent { num: 365, den: 12 });
    let plan = plan_edit(FieldId::Rate(Period::Daily));
    assert!(plan.refresh.contains(&FieldId::Rate(Period::Monthly)));
    assert!(!plan.refresh.contains(&FieldId::Rate(Period::Daily)));
    assert!(!plan.refresh.contains(&FieldId::Amount));
    assert_eq!(plan.refresh.len(), 9);
}

#[test]
fn amount_edit_refreshes_gains_only() {
    let plan = plan_edit(FieldId::Amount);
    assert_eq!(plan.update, SourceUpdate::SetAmount);
    let gains: Vec<FieldId> = Period::all().into_iter().map(FieldId::Gain).collect();
    assert_eq!(plan.refresh, gains);
}

#[test]
fn gain_edit_recomputes_amount() {
    let plan = plan_edit(FieldId::Gain(Period::Yearly));
    assert_eq!(plan.update, SourceUpdate::AmountFromGain { period: Period::Yearly });
    assert_eq!(plan.refresh[0], FieldId::Amount);
    assert_eq!(plan.refresh.len(), 5);
    assert!(!plan.refresh.contains(&FieldId::Gain(Period::Yearly)));
}

fn quotes(rate: &str) -> Quotes {
    let mut rates = Rates::new();
    rates.insert("EUR".to_string(), rate.to_string());
    Quotes { data: Data { currency: "USD".to_string(), rates } }
}

#[test]
fn feed_keeps_table_on_failure() {
    let mut feed = RateFeed::new();
    assert!(feed.begin_refresh());
    assert!(!feed.begin_refresh());
    feed.end_refresh(Some(quotes("0.9")));
    assert_eq!(feed.rates().replace("EUR"), "(0.9)");
    assert!(feed.begin_refresh());
    feed.end_refresh(None);
    assert_eq!(feed.rates().replace("EUR"), "(0.9)");
}

#[test]
fn feed_ignores_result_after_cancel() {
    let mut feed = RateFeed::new();
    assert!(feed.begin_refresh());
    assert!(feed.cancel());
    feed.end_refresh(Some(quotes("0.9")));
    assert_eq!(feed.rates().len(), 0);
    assert!(!feed.begin_refresh());
}

#[test]
fn period_rate_round_trips() {
    let power = |e: Exponent| e.num as f64 / e.den as f64;
    for p in Period::all() {
        let yearly = 1.07_f64;
        let rate = yearly.powf(power(p.exponent()));
        let back = rate.powf(power(p.inverse_exponent()));
        assert!((back - yearly).abs() <= 1e-9 * yearly);
    }
    let daily = 1.0002_f64;
    let yearly = daily.powf(power(Period::Daily.inverse_exponent()));
    let monthly = yearly.powf(power(Period::Monthly.exponent()));
    let direct = daily.powf(power(conversion(Period::Daily, Period::Monthly)));
    assert!((monthly - direct).abs() <= 1e-9 * direct);
}

fn form() -> Form {
    Form::new(FieldId::all().into_iter().map(|id| format!("{:?}", id)).collect())
}

#[test]
fn form_fields_start_with_canonical_text() {
    let f = form();
    assert_eq!(f.display(FieldId::Amount), "Amount");
    assert_eq!(f.display(FieldId::Gain(Period::TenYear)), "Gain(TenYear)");
    assert_eq!(FieldId::Rate(Period::Yearly).slot(), 3);
}

#[test]
fn invalid_input_stays_in_its_field() {
    let mut f = form();
    f.focus(FieldId::Rate(Period::Monthly));
    assert!(f.input(FieldId::Rate(Period::Monthly), "1 +* 2".to_string(), &table()).is_err());
    assert!(f.is_error(FieldId::Rate(Period::Monthly)));
    assert_eq!(f.display(FieldId::Rate(Period::Monthly)), "1 +* 2");
    assert!(!f.is_error(FieldId::Amount));
    assert_eq!(f.display(FieldId::Amount), "Amount");
    f.blur(FieldId::Rate(Period::Monthly));
    assert_eq!(f.display(FieldId::Rate(Period::Monthly)), "Rate(Monthly)");
    f.set_canonical(FieldId::Amount, "250".to_string());
    assert_eq!(f.display(FieldId::Amount), "250");
    assert_eq!(f.field(FieldId::Amount).is_focused(), false);
}

#[test]
fn builtin_calls_are_rejected_before_evaluation() {
    assert!(evaluate("str::substring(\"é\", 0, 1)").is_err());
    assert!(evaluate("shl(1, 64)").is_err());
    assert!(evaluate("math::abs(-9223372036854775808)").is_err());
}

#[test]
fn overlong_text_is_rejected() {
    let nested = format!("{}1{}", "(".repeat(200), ")".repeat(200));
    assert!(evaluate(&nested).is_err());
    let within = format!("{}1{}", "(".repeat(100), ")".repeat(100));
    assert_eq!(number(evaluate(&within)), 1.0);
    let chain = "1+".repeat(128) + "1";
    assert!(evaluate(&chain).is_err());
}
