use pagegeom::geom::{Linear, Sides, Size};
use pagegeom::page::{
    pagebreak, page, resolve, ArgValue, Args, Command, Diagnostic, PageStyle, Paper, PaperClass,
};

fn a4() -> Paper {
    Paper { class: PaperClass::Base, size: Size::new(210, 297) }
}

fn base_style() -> PageStyle {
    PageStyle {
        class: PaperClass::Base,
        size: Size::new(210, 297),
        margins: Sides::uniform(None),
    }
}

fn no_args() -> Args {
    Args { paper: None, keys: Vec::new() }
}

fn keyword_args(keys: Vec<(&str, ArgValue)>) -> Args {
    Args {
        paper: None,
        keys: keys.into_iter().map(|(k, v)| (k.to_string(), v)).collect(),
    }
}

#[test]
fn no_overrides_is_identity() {
    let style = base_style();
    let (resolved, feedback) = resolve(&style, &no_args());
    assert_eq!(resolved, style);
    assert_eq!(feedback, Vec::new());
}

#[test]
fn paper_preset_sets_class_and_size() {
    let mut style = base_style();
    style.class = PaperClass::Custom;
    style.size = Size::new(1, 1);
    let args = Args { paper: Some(a4()), keys: Vec::new() };
    let (resolved, feedback) = resolve(&style, &args);
    assert_eq!(resolved.class, PaperClass::Base);
    assert_eq!(resolved.size, Size::new(210, 297));
    assert_eq!(resolved.margins, style.margins);
    assert!(feedback.is_empty());
}

#[test]
fn width_after_paper_keeps_preset_height() {
    let style = base_style();
    let args = Args {
        paper: Some(a4()),
        keys: vec![("width".to_string(), ArgValue::Length(200))],
    };
    let (resolved, feedback) = resolve(&style, &args);
    assert_eq!(resolved.class, PaperClass::Custom);
    assert_eq!(resolved.size, Size::new(200, 297));
    assert!(feedback.is_empty());
}

#[test]
fn side_margin_wins_over_uniform_margins() {
    let style = base_style();
    let args = keyword_args(vec![
        ("margins", ArgValue::Length(10)),
        ("left", ArgValue::Length(3)),
    ]);
    let (resolved, feedback) = resolve(&style, &args);
    assert_eq!(resolved.margins.left, Some(Linear::absolute(3)));
    assert_eq!(resolved.margins.top, Some(Linear::absolute(10)));
    assert_eq!(resolved.margins.right, Some(Linear::absolute(10)));
    assert_eq!(resolved.margins.bottom, Some(Linear::absolute(10)));
    assert!(feedback.is_empty());
}

#[test]
fn side_margin_wins_in_either_declaration_order() {
    let style = base_style();
    let args = keyword_args(vec![
        ("left", ArgValue::Length(3)),
        ("margins", ArgValue::Length(10)),
    ]);
    let (resolved, _) = resolve(&style, &args);
    assert_eq!(resolved.margins.left, Some(Linear::absolute(3)));
    assert_eq!(resolved.margins.top, Some(Linear::absolute(10)));
    assert_eq!(resolved.margins.right, Some(Linear::absolute(10)));
    assert_eq!(resolved.margins.bottom, Some(Linear::absolute(10)));
}

#[test]
fn uniform_margins_replace_prior_sides() {
    let mut style = base_style();
    style.margins.top = Some(Linear { abs: 99, rel: 5 });
    let args = keyword_args(vec![("margins", ArgValue::Length(4))]);
    let (resolved, _) = resolve(&style, &args);
    assert_eq!(resolved.margins, Sides::uniform(Some(Linear::absolute(4))));
}

#[test]
fn single_side_leaves_the_others() {
    let style = base_style();
    let args = keyword_args(vec![("bottom", ArgValue::Relative(Linear { abs: 5, rel: 100 }))]);
    let (resolved, _) = resolve(&style, &args);
    assert_eq!(resolved.margins.bottom, Some(Linear { abs: 5, rel: 100 }));
    assert_eq!(resolved.margins.left, None);
    assert_eq!(resolved.margins.top, None);
    assert_eq!(resolved.margins.right, None);
}

#[test]
fn flip_swaps_the_final_size() {
    let style = base_style();
    let args = keyword_args(vec![
        ("flip", ArgValue::Bool(true)),
        ("width", ArgValue::Length(100)),
        ("height", ArgValue::Length(50)),
    ]);
    let (resolved, feedback) = resolve(&style, &args);
    assert_eq!(resolved.size, Size::new(50, 100));
    assert_eq!(resolved.class, PaperClass::Custom);
    assert!(feedback.is_empty());
}

#[test]
fn flip_false_changes_nothing() {
    let style = base_style();
    let args = keyword_args(vec![("flip", ArgValue::Bool(false))]);
    let (resolved, feedback) = resolve(&style, &args);
    assert_eq!(resolved, style);
    assert!(feedback.is_empty());
}

#[test]
fn unknown_key_is_reported_but_not_fatal() {
    let style = base_style();
    let args = keyword_args(vec![
        ("foo", ArgValue::Int(1)),
        ("width", ArgValue::Length(100)),
    ]);
    let pass = page(&style, &args);
    assert_eq!(pass.feedback, vec![Diagnostic::UnexpectedKey("foo".to_string())]);
    let expected = PageStyle {
        class: PaperClass::Custom,
        size: Size::new(100, 297),
        margins: style.margins,
    };
    assert_eq!(pass.commands, vec![Command::SetPageStyle(expected)]);
}

#[test]
fn type_mismatch_treats_the_layer_as_absent() {
    let style = base_style();
    let args = keyword_args(vec![("width", ArgValue::Bool(true))]);
    let (resolved, feedback) = resolve(&style, &args);
    assert_eq!(resolved, style);
    assert_eq!(feedback, vec![Diagnostic::TypeMismatch("width".to_string())]);
}

#[test]
fn flip_mismatch_defaults_to_no_flip() {
    let style = base_style();
    let args = keyword_args(vec![("flip", ArgValue::Int(1))]);
    let (resolved, feedback) = resolve(&style, &args);
    assert_eq!(resolved.size, style.size);
    assert_eq!(feedback, vec![Diagnostic::TypeMismatch("flip".to_string())]);
}

#[test]
fn mismatches_come_before_unknown_keys() {
    let style = base_style();
    let args = keyword_args(vec![
        ("foo", ArgValue::Int(1)),
        ("width", ArgValue::Bool(true)),
    ]);
    let (_, feedback) = resolve(&style, &args);
    assert_eq!(
        feedback,
        vec![
            Diagnostic::TypeMismatch("width".to_string()),
            Diagnostic::UnexpectedKey("foo".to_string()),
        ]
    );
}

#[test]
fn first_entry_of_a_repeated_key_counts() {
    let style = base_style();
    let args = keyword_args(vec![
        ("width", ArgValue::Length(100)),
        ("width", ArgValue::Length(200)),
    ]);
    let (resolved, _) = resolve(&style, &args);
    assert_eq!(resolved.size.width, 100);
}

#[test]
fn page_always_emits_set_page_style() {
    let style = base_style();
    let args = keyword_args(vec![("nonsense", ArgValue::Bool(false))]);
    let pass = page(&style, &args);
    assert_eq!(pass.commands, vec![Command::SetPageStyle(style)]);
    assert_eq!(pass.feedback.len(), 1);
}

#[test]
fn pagebreak_with_no_arguments_is_clean() {
    let pass = pagebreak(&no_args());
    assert_eq!(pass.commands, vec![Command::BreakPage]);
    assert!(pass.feedback.is_empty());
}

#[test]
fn pagebreak_reports_every_argument() {
    let args = Args {
        paper: Some(a4()),
        keys: vec![("width".to_string(), ArgValue::Length(100))],
    };
    let pass = pagebreak(&args);
    assert_eq!(pass.commands, vec![Command::BreakPage]);
    assert_eq!(
        pass.feedback,
        vec![
            Diagnostic::UnexpectedPositional,
            Diagnostic::UnexpectedKey("width".to_string()),
        ]
    );
}

#[test]
fn relative_margins_apply_to_all_sides() {
    let style = base_style();
    let lin = Linear { abs: 2, rel: 50 };
    let args = keyword_args(vec![("margins", ArgValue::Relative(lin))]);
    let (resolved, feedback) = resolve(&style, &args);
    assert_eq!(resolved.margins, Sides::uniform(Some(lin)));
    assert!(feedback.is_empty());
}
