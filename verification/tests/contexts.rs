use xtce_editor::calibrator::Calibrator;
use xtce_editor::context::{
    apply_context_calibrators, apply_context_significances, context_list, context_rows,
    ContextCalibrator, ContextSignificance,
};
use xtce_editor::lookup::{Comparison, LookupCriteria};
use xtce_editor::significance::{ConsequenceLevel, Significance};

fn comparison(parameter: &str, value: &str) -> LookupCriteria {
    LookupCriteria::Comparison(Comparison {
        parameter_ref: parameter.to_owned(),
        instance: 0,
        use_calibrated_value: true,
        comparison_operator: "==".to_owned(),
        value: value.to_owned(),
    })
}

fn context_calibrator(parameter: &str, value: &str) -> ContextCalibrator {
    ContextCalibrator {
        context_match: comparison(parameter, value),
        calibrator: Calibrator { name: None, short_description: None, content: Vec::new() },
    }
}

#[test]
fn context_calibrator_list_keeps_multiple_rows() {
    let list = vec![context_calibrator("mode", "1"), context_calibrator("mode", "2")];

    assert_eq!(list.len(), 2);
    let mut applied = None;
    apply_context_calibrators(list, &mut applied);
    let applied = applied.expect("two rows give a list");
    assert_eq!(applied.len(), 2);
    match &applied[1].context_match {
        LookupCriteria::Comparison(c) => assert_eq!(c.value, "2"),
        _ => panic!("expected a comparison"),
    }
}

#[test]
fn no_rows_give_no_list() {
    let mut applied = Some(vec![context_calibrator("mode", "1")]);
    apply_context_calibrators(Vec::new(), &mut applied);
    assert!(applied.is_none());
    let mut significances = Some(Vec::new());
    apply_context_significances(Vec::new(), &mut significances);
    assert!(significances.is_none());
}

#[test]
fn significance_rows_are_kept_in_order() {
    let rows = vec![
        ContextSignificance {
            context_match: comparison("mode", "1"),
            significance: Significance {
                space_system_at_risk: None,
                reason_for_warning: Some("hot".to_owned()),
                consequence_level: ConsequenceLevel::Critical,
            },
        },
        ContextSignificance {
            context_match: comparison("mode", "2"),
            significance: Significance {
                space_system_at_risk: Some("Bus".to_owned()),
                reason_for_warning: None,
                consequence_level: ConsequenceLevel::Normal,
            },
        },
    ];
    let mut applied = None;
    apply_context_significances(rows, &mut applied);
    let applied = applied.unwrap();
    assert_eq!(applied[0].significance.consequence_level, ConsequenceLevel::Critical);
    assert_eq!(applied[1].significance.space_system_at_risk.as_deref(), Some("Bus"));
}

#[test]
fn rows_of_a_list_read_back() {
    let rows = context_rows(Some(vec![1u8, 2, 3]));
    assert_eq!(rows, vec![1, 2, 3]);
    assert_eq!(context_list(rows), Some(vec![1, 2, 3]));
    assert!(context_rows::<u8>(None).is_empty());
    assert_eq!(context_list::<u8>(Vec::new()), None);
}
