use xtce_editor::boolean::ComparisonOperator;

#[test]
fn operator_text_covers_all_xtce_comparison_operators() {
    assert_eq!(
        ComparisonOperator::from_text("!="),
        ComparisonOperator::NotEqual
    );
    assert_eq!(
        ComparisonOperator::from_text("<="),
        ComparisonOperator::LessOrEqual
    );
    assert_eq!(
        ComparisonOperator::from_text(">="),
        ComparisonOperator::GreaterOrEqual
    );
}
