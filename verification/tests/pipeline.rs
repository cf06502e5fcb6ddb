use convers::calc::eval;
use convers::convert::{currency_step, first_step, translation_finish, translation_step, Step};
use convers::currency::{curr_apply, curr_request};
use convers::errors::ConvertError;
use convers::rat::Rat;
use convers::translate::Translator;

#[test]
fn measurement_conversion_wins() {
    // A query that is a valid measurement conversion and also looks
    // like a translation request resolves as the conversion and never
    // reaches a provider stage.
    match first_step(&String::from("1m to cm")) {
        Step::Done(out) => assert_eq!(out, "100 Centimeter"),
        _ => panic!("expected a finished measurement conversion"),
    }
}

#[test]
fn colon_conversion_formats() {
    match first_step(&String::from("250m:km")) {
        Step::Done(out) => assert_eq!(out, "0.25 Kilometer"),
        _ => panic!("expected a finished measurement conversion"),
    }
}

#[test]
fn scalar_evaluation_formats() {
    match first_step(&String::from("15/3")) {
        Step::Done(out) => assert_eq!(out, "5"),
        _ => panic!("expected a finished scalar evaluation"),
    }
}

#[test]
fn unit_evaluation_runs_third() {
    // No marker and not a plain number, so the unit-aware evaluator
    // answers.
    match first_step(&String::from("50m+50m")) {
        Step::Done(out) => assert_eq!(out, "100 Meter"),
        _ => panic!("expected a finished unit-aware evaluation"),
    }
}

#[test]
fn currency_request_runs_fourth() {
    match first_step(&String::from("1 usd:uah")) {
        Step::Currency(req) => {
            assert_eq!(req.from, "usd");
            assert_eq!(req.to, "uah");
            assert_eq!(req.amount, Rat::from_int(1));
        }
        _ => panic!("expected a currency request"),
    }
}

#[test]
fn translation_request_runs_last() {
    match first_step(&String::from("en to ru no to way")) {
        Step::Translation(req) => {
            assert_eq!(req.from, "en");
            assert_eq!(req.to, "ru");
            assert_eq!(req.text, "no to way");
        }
        _ => panic!("expected a translation request"),
    }
}

#[test]
fn empty_query_fails_with_format_error() {
    match first_step(&String::from("")) {
        Step::Fail(e) => assert_eq!(e, ConvertError::QueryFormat),
        _ => panic!("expected the pipeline to fail"),
    }
}

#[test]
fn currency_rate_finishes_the_query() {
    let query = String::from("2 usd:uah");
    let req = curr_request(&query).unwrap();
    let rate = String::from("41.5");
    match currency_step(&query, &req, Some(&rate)) {
        Step::Done(out) => assert_eq!(out, "83 uah"),
        _ => panic!("expected a finished currency conversion"),
    }
}

#[test]
fn missing_rate_falls_through_to_translation() {
    let query = String::from("en to ru hello");
    let req = curr_request(&query).unwrap();
    match currency_step(&query, &req, None) {
        Step::Translation(t) => {
            assert_eq!(t.from, "en");
            assert_eq!(t.to, "ru");
            assert_eq!(t.text, "hello");
        }
        _ => panic!("expected the translation fallback"),
    }
}

#[test]
fn unusable_rate_falls_through_to_translation() {
    let query = String::from("en to ru hello");
    let req = curr_request(&query).unwrap();
    let rate = String::from("n/a");
    match currency_step(&query, &req, Some(&rate)) {
        Step::Translation(_) => {}
        _ => panic!("expected the translation fallback"),
    }
}

#[test]
fn unchanged_translation_is_not_understood() {
    // A provider that hands the input back unchanged did not
    // understand it.
    let query = String::from("en to ru no way");
    let echoed = query.clone();
    assert_eq!(
        translation_finish(&query, echoed),
        Err(ConvertError::NotUnderstood)
    );
}

#[test]
fn changed_translation_is_reported() {
    let query = String::from("en to ru no way");
    let rendered = String::from("\n [ en -> ru ] \n\n ni za chto");
    assert_eq!(
        translation_finish(&query, rendered.clone()),
        Ok(rendered)
    );
}

#[test]
fn translation_render_banners_the_first_text() {
    let tr = Translator::new();
    let texts = vec![String::from("wie geht es dir?"), String::from("extra")];
    assert_eq!(
        tr.render("en", "de", &texts).unwrap(),
        "\n [ en -> de ] \n\n wie geht es dir?"
    );
    assert_eq!(
        tr.render("en", "de", &Vec::new()),
        Err(ConvertError::Provider)
    );
}

#[test]
fn translation_step_keeps_embedded_markers_in_text() {
    let query = String::from("en:ru how to talk to you?");
    match translation_step(&query) {
        Step::Translation(t) => {
            assert_eq!(t.from, "en");
            assert_eq!(t.to, "ru");
            assert_eq!(t.text, "how to talk to you?");
        }
        _ => panic!("expected a translation request"),
    }
}

#[test]
fn currency_apply_multiplies_exactly() {
    let amount = Rat::from_int(2);
    let c = curr_apply(&amount, "0.5", &String::from("eur")).unwrap();
    assert_eq!(c.txt(), "1 eur");
    assert_eq!(
        curr_apply(&amount, "", &String::from("eur")),
        Err(ConvertError::Provider)
    );
}

#[test]
fn currency_query_splits_at_the_colon() {
    let req = curr_request(&String::from("1usd:uah")).unwrap();
    assert_eq!(req.from, "usd");
    assert_eq!(req.to, "uah");
    assert_eq!(req.amount, Rat::from_int(1));
    match first_step(&String::from("1usd:uah")) {
        Step::Currency(req) => assert_eq!(req.to, "uah"),
        _ => panic!("expected a currency request"),
    }
}

#[test]
fn errors_carry_their_messages() {
    assert_eq!(
        ConvertError::NotUnderstood.txt(),
        "Sorry, I can't understand that query."
    );
    assert_eq!(ConvertError::QueryFormat.txt(), "wrong number of query parts");
}

#[test]
fn division_in_pipeline_has_no_precedence() {
    // Left to right: (2+3)*4, never 2+(3*4).
    match first_step(&String::from("2+3*4")) {
        Step::Done(out) => assert_eq!(out, "20"),
        _ => panic!("expected a finished scalar evaluation"),
    }
    assert_eq!(eval(&String::from("2+3*4")).unwrap(), Rat::from_int(20));
}
