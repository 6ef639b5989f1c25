//! Boolean expressions of comparisons: the XTCE form (a condition, or
//! ANDed / ORed conditions nested in alternation) and the editor's tree of
//! conditions and AND / OR groups, with the conversions both ways.
use vstd::prelude::*;
use crate::text::string_of;

verus! {

/// A comparison operator of an XTCE comparison check.
#[derive(Clone, Copy, Debug, PartialEq, Eq, Structural)]
pub enum ComparisonOperator {
    Equal,
    NotEqual,
    Less,
    LessOrEqual,
    Greater,
    GreaterOrEqual,
}

/// The XTCE text of an operator.
pub open spec fn operator_text(op: ComparisonOperator) -> Seq<char> {
    match op {
        ComparisonOperator::Equal => seq!['=', '='],
        ComparisonOperator::NotEqual => seq!['!', '='],
        ComparisonOperator::Less => seq!['<'],
        ComparisonOperator::LessOrEqual => seq!['<', '='],
        ComparisonOperator::Greater => seq!['>'],
        ComparisonOperator::GreaterOrEqual => seq!['>', '='],
    }
}

/// The operator whose XTCE text is exactly `s`.
pub open spec fn operator_of_text(s: Seq<char>) -> Option<ComparisonOperator> {
    if s == seq!['=', '='] {
        Some(ComparisonOperator::Equal)
    } else if s == seq!['!', '='] {
        Some(ComparisonOperator::NotEqual)
    } else if s == seq!['<'] {
        Some(ComparisonOperator::Less)
    } else if s == seq!['<', '='] {
        Some(ComparisonOperator::LessOrEqual)
    } else if s == seq!['>'] {
        Some(ComparisonOperator::Greater)
    } else if s == seq!['>', '='] {
        Some(ComparisonOperator::GreaterOrEqual)
    } else {
        None
    }
}

/// Reading an operator's text gives the operator back.
pub proof fn lemma_operator_text_round_trip(op: ComparisonOperator)
    ensures
        operator_of_text(operator_text(op)) == Some(op),
{
    reveal_with_fuel(operator_of_text, 1);
    match op {
        ComparisonOperator::Equal => {},
        ComparisonOperator::NotEqual => {
            assert(seq!['!', '='] != seq!['=', '=']) by {
                assert(seq!['!', '='][0] != seq!['=', '='][0]);
            }
        },
        ComparisonOperator::Less => {
            assert(seq!['<'] != seq!['=', '=']);
            assert(seq!['<'] != seq!['!', '=']);
        },
        ComparisonOperator::LessOrEqual => {
            assert(seq!['<', '='] != seq!['=', '=']) by {
                assert(seq!['<', '='][0] != seq!['=', '='][0]);
            }
            assert(seq!['<', '='] != seq!['!', '=']) by {
                assert(seq!['<', '='][0] != seq!['!', '='][0]);
            }
            assert(seq!['<', '='] != seq!['<']) by {
                assert(seq!['<', '='].len() != seq!['<'].len());
            }
        },
        ComparisonOperator::Greater => {
            assert(seq!['>'] != seq!['=', '=']);
            assert(seq!['>'] != seq!['!', '=']);
            assert(seq!['>'] != seq!['<']) by {
                assert(seq!['>'][0] != seq!['<'][0]);
            }
            assert(seq!['>'] != seq!['<', '=']);
        },
        ComparisonOperator::GreaterOrEqual => {
            assert(seq!['>', '='] != seq!['=', '=']) by {
                assert(seq!['>', '='][0] != seq!['=', '='][0]);
            }
            assert(seq!['>', '='] != seq!['!', '=']) by {
                assert(seq!['>', '='][0] != seq!['!', '='][0]);
            }
            assert(seq!['>', '='] != seq!['<']);
            assert(seq!['>', '='] != seq!['<', '=']) by {
                assert(seq!['>', '='][0] != seq!['<', '='][0]);
            }
            assert(seq!['>', '='] != seq!['>']) by {
                assert(seq!['>', '='].len() != seq!['>'].len());
            }
        },
    }
}

/// The XTCE text of an operator.
pub fn operator_chars(op: ComparisonOperator) -> (r: Vec<char>)
    ensures
        r@ == operator_text(op),
{
    let r = match op {
        ComparisonOperator::Equal => vec!['=', '='],
        ComparisonOperator::NotEqual => vec!['!', '='],
        ComparisonOperator::Less => vec!['<'],
        ComparisonOperator::LessOrEqual => vec!['<', '='],
        ComparisonOperator::Greater => vec!['>'],
        ComparisonOperator::GreaterOrEqual => vec!['>', '='],
    };
    assert(r@ =~= operator_text(op));
    r
}

/// Reads an operator's XTCE text, which must match exactly.
pub fn parse_operator(s: &Vec<char>) -> (r: Option<ComparisonOperator>)
    ensures
        r == operator_of_text(s@),
{
    let n = s.len();
    if n == 2 && s[1] == '=' {
        if s[0] == '=' {
            assert(s@ =~= seq!['=', '=']);
            return Some(ComparisonOperator::Equal);
        } else if s[0] == '!' {
            assert(s@ =~= seq!['!', '=']);
            return Some(ComparisonOperator::NotEqual);
        } else if s[0] == '<' {
            assert(s@ =~= seq!['<', '=']);
            assert(s@ != seq!['=', '=']);
            assert(s@ != seq!['!', '=']);
            return Some(ComparisonOperator::LessOrEqual);
        } else if s[0] == '>' {
            assert(s@ =~= seq!['>', '=']);
            assert(s@ != seq!['=', '=']);
            assert(s@ != seq!['!', '=']);
            assert(s@ != seq!['<', '=']);
            return Some(ComparisonOperator::GreaterOrEqual);
        }
    } else if n == 1 {
        if s[0] == '<' {
            assert(s@ =~= seq!['<']);
            return Some(ComparisonOperator::Less);
        } else if s[0] == '>' {
            assert(s@ =~= seq!['>']);
            return Some(ComparisonOperator::Greater);
        }
    }
    proof {
        if n == 2 {
            assert(s@ != seq!['=', '='] && s@ != seq!['!', '='] && s@ != seq!['<', '='] && s@
                != seq!['>', '=']) by {
                if s[1] != '=' {
                    assert(seq!['=', '='][1] == '=');
                    assert(seq!['!', '='][1] == '=');
                    assert(seq!['<', '='][1] == '=');
                    assert(seq!['>', '='][1] == '=');
                } else {
                    assert(seq!['=', '='][0] == '=');
                    assert(seq!['!', '='][0] == '!');
                    assert(seq!['<', '='][0] == '<');
                    assert(seq!['>', '='][0] == '>');
                }
            }
        } else if n == 1 {
            assert(s@ != seq!['<'] && s@ != seq!['>']) by {
                assert(seq!['<'][0] == '<');
                assert(seq!['>'][0] == '>');
            }
        }
    }
    None
}

impl ComparisonOperator {
    /// Reads an operator's XTCE text; any text that is not one of the other
    /// five operators reads as `==`.
    pub fn from_text(value: &str) -> (r: ComparisonOperator)
        ensures
            r == (match operator_of_text(value@) {
                Some(op) => op,
                None => ComparisonOperator::Equal,
            }),
    {
        let chars = crate::text::chars_of(value);
        match parse_operator(&chars) {
            Some(op) => op,
            None => ComparisonOperator::Equal,
        }
    }

    /// The operator's XTCE text.
    pub fn text(&self) -> (r: String)
        ensures
            r@ == operator_text(*self),
    {
        string_of(&operator_chars(*self))
    }
}

/// A reference to one instance of a parameter.
#[derive(Debug)]
pub struct InstanceRef<S> {
    pub parameter_ref: S,
    pub instance: i64,
    pub use_calibrated_value: bool,
}

impl View for InstanceRef<String> {
    type V = InstanceRef<Seq<char>>;

    open spec fn view(&self) -> InstanceRef<Seq<char>> {
        InstanceRef {
            parameter_ref: self.parameter_ref@,
            instance: self.instance,
            use_calibrated_value: self.use_calibrated_value,
        }
    }
}

/// One item of a comparison check.
#[derive(Debug)]
pub enum CheckItem<S> {
    ParameterInstanceRef(InstanceRef<S>),
    ComparisonOperator(S),
    Value(S),
}

impl View for CheckItem<String> {
    type V = CheckItem<Seq<char>>;

    open spec fn view(&self) -> CheckItem<Seq<char>> {
        match self {
            CheckItem::ParameterInstanceRef(r) => CheckItem::ParameterInstanceRef(r@),
            CheckItem::ComparisonOperator(s) => CheckItem::ComparisonOperator(s@),
            CheckItem::Value(s) => CheckItem::Value(s@),
        }
    }
}

/// An XTCE comparison check: a parameter instance, an operator, and a
/// value or a second parameter instance.
#[derive(Debug)]
pub struct ComparisonCheck {
    pub content: Vec<CheckItem<String>>,
}

impl View for ComparisonCheck {
    type V = Seq<CheckItem<Seq<char>>>;

    open spec fn view(&self) -> Seq<CheckItem<Seq<char>>> {
        self.content@.map_values(|c: CheckItem<String>| c@)
    }
}

/// The right side of a comparison in the editor.
#[derive(Debug)]
pub enum RightOperand<S> {
    Value(S),
    Parameter { parameter_ref: S, instance: i64, calibrated: bool },
}

/// The fields of one comparison in the editor.
#[derive(Debug)]
pub struct ConditionValues<S> {
    pub left_parameter_ref: S,
    pub left_instance: i64,
    pub left_calibrated: bool,
    pub operator: ComparisonOperator,
    pub right: RightOperand<S>,
}

impl View for ConditionValues<String> {
    type V = ConditionValues<Seq<char>>;

    open spec fn view(&self) -> ConditionValues<Seq<char>> {
        ConditionValues {
            left_parameter_ref: self.left_parameter_ref@,
            left_instance: self.left_instance,
            left_calibrated: self.left_calibrated,
            operator: self.operator,
            right: match self.right {
                RightOperand::Value(v) => RightOperand::Value(v@),
                RightOperand::Parameter { parameter_ref, instance, calibrated } =>
                    RightOperand::Parameter { parameter_ref: parameter_ref@, instance, calibrated },
            },
        }
    }
}

/// The parameter instance references of a check, in order.
pub open spec fn check_params(c: Seq<CheckItem<Seq<char>>>) -> Seq<InstanceRef<Seq<char>>>
    decreases c.len(),
{
    if c.len() == 0 {
        Seq::empty()
    } else {
        match c.last() {
            CheckItem::ParameterInstanceRef(r) => check_params(c.drop_last()).push(r),
            _ => check_params(c.drop_last()),
        }
    }
}

/// The first value of a check.
pub open spec fn check_value(c: Seq<CheckItem<Seq<char>>>) -> Option<Seq<char>>
    decreases c.len(),
{
    if c.len() == 0 {
        None
    } else {
        match check_value(c.drop_last()) {
            Some(v) => Some(v),
            None => match c.last() {
                CheckItem::Value(v) => Some(v),
                _ => None,
            },
        }
    }
}

/// The first operator item of a check whose text is an operator.
pub open spec fn check_operator(c: Seq<CheckItem<Seq<char>>>) -> Option<ComparisonOperator>
    decreases c.len(),
{
    if c.len() == 0 {
        None
    } else {
        match check_operator(c.drop_last()) {
            Some(o) => Some(o),
            None => match c.last() {
                CheckItem::ComparisonOperator(t) => operator_of_text(t),
                _ => None,
            },
        }
    }
}

/// The editor's fields for a comparison check: the first parameter
/// instance is the left side (an empty reference to instance 0, calibrated,
/// when there is none); a second one is the right side, else the first
/// value (empty when there is none); the operator is the first that reads,
/// else `==`.
pub open spec fn values_of_check(c: Seq<CheckItem<Seq<char>>>) -> ConditionValues<Seq<char>> {
    let params = check_params(c);
    ConditionValues {
        left_parameter_ref: if params.len() > 0 {
            params[0].parameter_ref
        } else {
            Seq::empty()
        },
        left_instance: if params.len() > 0 {
            params[0].instance
        } else {
            0
        },
        left_calibrated: if params.len() > 0 {
            params[0].use_calibrated_value
        } else {
            true
        },
        operator: match check_operator(c) {
            Some(o) => o,
            None => ComparisonOperator::Equal,
        },
        right: if params.len() > 1 {
            RightOperand::Parameter {
                parameter_ref: params[1].parameter_ref,
                instance: params[1].instance,
                calibrated: params[1].use_calibrated_value,
            }
        } else {
            RightOperand::Value(
                match check_value(c) {
                    Some(v) => v,
                    None => Seq::empty(),
                },
            )
        },
    }
}

/// The comparison check the editor writes for its fields.
pub open spec fn check_of_values(v: ConditionValues<Seq<char>>) -> Seq<CheckItem<Seq<char>>> {
    seq![
        CheckItem::ParameterInstanceRef(
            InstanceRef {
                parameter_ref: v.left_parameter_ref,
                instance: v.left_instance,
                use_calibrated_value: v.left_calibrated,
            },
        ),
        CheckItem::ComparisonOperator(operator_text(v.operator)),
        match v.right {
            RightOperand::Value(s) => CheckItem::Value(s),
            RightOperand::Parameter { parameter_ref, instance, calibrated } =>
                CheckItem::ParameterInstanceRef(
                InstanceRef { parameter_ref, instance, use_calibrated_value: calibrated },
            ),
        }
    ]
}

/// Reading back the check written for a comparison gives the same fields.
pub proof fn lemma_check_round_trip(v: ConditionValues<Seq<char>>)
    ensures
        values_of_check(check_of_values(v)) == v,
{
    let c = check_of_values(v);
    lemma_operator_text_round_trip(v.operator);
    reveal_with_fuel(check_params, 4);
    reveal_with_fuel(check_value, 4);
    reveal_with_fuel(check_operator, 4);
    assert(c.drop_last().drop_last().drop_last() =~= Seq::<CheckItem<Seq<char>>>::empty());
    assert(c.drop_last().drop_last().last() == c[0]);
    assert(c.drop_last().last() == c[1]);
    assert(c.last() == c[2]);
    assert(values_of_check(c) =~= v);
}

/// The default comparison of a new condition: an empty reference to
/// instance 0, calibrated, `==`, and an empty value.
pub open spec fn default_values() -> ConditionValues<Seq<char>> {
    ConditionValues {
        left_parameter_ref: Seq::empty(),
        left_instance: 0,
        left_calibrated: true,
        operator: ComparisonOperator::Equal,
        right: RightOperand::Value(Seq::empty()),
    }
}

/// The fields of a new condition.
pub fn default_condition_values() -> (r: ConditionValues<String>)
    ensures
        r@ == default_values(),
{
    ConditionValues {
        left_parameter_ref: String::new(),
        left_instance: 0,
        left_calibrated: true,
        operator: ComparisonOperator::Equal,
        right: RightOperand::Value(String::new()),
    }
}

/// A copy of an instance reference.
fn clone_instance_ref(r: &InstanceRef<String>) -> (c: InstanceRef<String>)
    ensures
        c@ == r@,
{
    InstanceRef {
        parameter_ref: r.parameter_ref.clone(),
        instance: r.instance,
        use_calibrated_value: r.use_calibrated_value,
    }
}

impl ConditionValues<String> {
    /// The editor's fields for a comparison check (see [`values_of_check`]).
    pub fn from_check(check: &ComparisonCheck) -> (r: ConditionValues<String>)
        ensures
            r@ == values_of_check(check@),
    {
        let ghost c = check@;
        let mut left: Option<InstanceRef<String>> = None;
        let mut right: Option<InstanceRef<String>> = None;
        let mut value: Option<String> = None;
        let mut operator: Option<ComparisonOperator> = None;
        let mut i: usize = 0;
        while i < check.content.len()
            invariant
                i <= check.content.len(),
                c == check@,
                ({
                    let p = check_params(c.take(i as int));
                    &&& (p.len() > 0 <==> left is Some)
                    &&& (p.len() > 0 ==> left->Some_0@ == p[0])
                    &&& (p.len() > 1 <==> right is Some)
                    &&& (p.len() > 1 ==> right->Some_0@ == p[1])
                }),
                match value {
                    Some(v) => check_value(c.take(i as int)) == Some(v@),
                    None => check_value(c.take(i as int)) is None,
                },
                operator == check_operator(c.take(i as int)),
            decreases check.content.len() - i,
        {
            let ghost before = c.take(i as int);
            let item = &check.content[i];
            match item {
                CheckItem::ParameterInstanceRef(r) => {
                    if left.is_none() {
                        left = Some(clone_instance_ref(r));
                    } else if right.is_none() {
                        right = Some(clone_instance_ref(r));
                    }
                },
                CheckItem::ComparisonOperator(t) => {
                    if operator.is_none() {
                        let chars = crate::text::chars_of(t.as_str());
                        operator = parse_operator(&chars);
                    }
                },
                CheckItem::Value(v) => {
                    if value.is_none() {
                        value = Some(v.clone());
                    }
                },
            }
            i = i + 1;
            proof {
                let after = c.take(i as int);
                assert(after.drop_last() =~= before);
                assert(after.last() == check.content@[i - 1]@);
                let pb = check_params(before);
                let pa = check_params(after);
                if pa.len() > pb.len() {
                    assert(pa =~= pb.push(pa.last()));
                } else {
                    assert(pa =~= pb);
                }
            }
        }
        assert(c.take(check.content.len() as int) =~= c);
        let (left_parameter_ref, left_instance, left_calibrated) = match left {
            Some(r) => (r.parameter_ref, r.instance, r.use_calibrated_value),
            None => (String::new(), 0, true),
        };
        let right_operand = match right {
            Some(r) => RightOperand::Parameter {
                parameter_ref: r.parameter_ref,
                instance: r.instance,
                calibrated: r.use_calibrated_value,
            },
            None => RightOperand::Value(
                match value {
                    Some(v) => v,
                    None => String::new(),
                },
            ),
        };
        let r = ConditionValues {
            left_parameter_ref,
            left_instance,
            left_calibrated,
            operator: match operator {
                Some(o) => o,
                None => ComparisonOperator::Equal,
            },
            right: right_operand,
        };
        assert(r@ =~= values_of_check(c));
        r
    }
}

/// The comparison check the editor writes for its fields (see
/// [`check_of_values`]).
pub fn check_from_values(v: &ConditionValues<String>) -> (r: ComparisonCheck)
    ensures
        r@ == check_of_values(v@),
{
    let op = string_of(&operator_chars(v.operator));
    let last = match &v.right {
        RightOperand::Value(s) => CheckItem::Value(s.clone()),
        RightOperand::Parameter { parameter_ref, instance, calibrated } =>
            CheckItem::ParameterInstanceRef(
            InstanceRef {
                parameter_ref: parameter_ref.clone(),
                instance: *instance,
                use_calibrated_value: *calibrated,
            },
        ),
    };
    let content = vec![
        CheckItem::ParameterInstanceRef(
            InstanceRef {
                parameter_ref: v.left_parameter_ref.clone(),
                instance: v.left_instance,
                use_calibrated_value: v.left_calibrated,
            },
        ),
        CheckItem::ComparisonOperator(op),
        last,
    ];
    let r = ComparisonCheck { content };
    assert(r@ =~= check_of_values(v@));
    r
}


/// An XTCE boolean expression. In XTCE an ANDed list holds conditions and
/// ORed lists, an ORed list holds conditions and ANDed lists.
#[derive(Debug)]
pub enum BooleanExpression {
    Condition(ComparisonCheck),
    Anded(Vec<BooleanExpression>),
    Ored(Vec<BooleanExpression>),
}

/// The value of a [`BooleanExpression`].
pub enum ExpressionView {
    Condition(Seq<CheckItem<Seq<char>>>),
    Anded(Seq<ExpressionView>),
    Ored(Seq<ExpressionView>),
}

/// The value of an expression.
pub open spec fn expr_view(e: BooleanExpression) -> ExpressionView
    decreases e,
{
    match e {
        BooleanExpression::Condition(c) => ExpressionView::Condition(c@),
        BooleanExpression::Anded(v) => ExpressionView::Anded(exprs_view(v@)),
        BooleanExpression::Ored(v) => ExpressionView::Ored(exprs_view(v@)),
    }
}

/// The values of a sequence of expressions.
pub open spec fn exprs_view(s: Seq<BooleanExpression>) -> Seq<ExpressionView>
    decreases s,
{
    if s.len() == 0 {
        Seq::empty()
    } else {
        proof {
            assert(decreases_to!(s => s.last()));
        }
        exprs_view(s.drop_last()).push(expr_view(s.last()))
    }
}

impl View for BooleanExpression {
    type V = ExpressionView;

    open spec fn view(&self) -> ExpressionView {
        expr_view(*self)
    }
}

/// How the children of a group combine.
#[derive(Clone, Copy, Debug, PartialEq, Eq, Structural)]
pub enum LogicalOperator {
    And,
    Or,
}

/// The editor's tree: conditions, and groups that combine their children.
#[derive(Debug)]
pub enum BooleanNodeModel {
    Condition(ConditionValues<String>),
    Group { operator: LogicalOperator, children: Vec<BooleanNodeModel> },
}

/// The value of a [`BooleanNodeModel`].
pub enum NodeView {
    Condition(ConditionValues<Seq<char>>),
    Group { operator: LogicalOperator, children: Seq<NodeView> },
}

/// The value of a node.
pub open spec fn node_view(n: BooleanNodeModel) -> NodeView
    decreases n,
{
    match n {
        BooleanNodeModel::Condition(v) => NodeView::Condition(v@),
        BooleanNodeModel::Group { operator, children } => NodeView::Group {
            operator,
            children: nodes_view(children@),
        },
    }
}

/// The values of a sequence of nodes.
pub open spec fn nodes_view(s: Seq<BooleanNodeModel>) -> Seq<NodeView>
    decreases s,
{
    if s.len() == 0 {
        Seq::empty()
    } else {
        proof {
            assert(decreases_to!(s => s.last()));
        }
        nodes_view(s.drop_last()).push(node_view(s.last()))
    }
}

impl View for BooleanNodeModel {
    type V = NodeView;

    open spec fn view(&self) -> NodeView {
        node_view(*self)
    }
}

/// The editor's tree for an expression: the same shape, ANDed lists as AND
/// groups, ORed lists as OR groups.
pub open spec fn node_of(e: ExpressionView) -> NodeView
    decreases e,
{
    match e {
        ExpressionView::Condition(c) => NodeView::Condition(values_of_check(c)),
        ExpressionView::Anded(s) => NodeView::Group {
            operator: LogicalOperator::And,
            children: nodes_of(s),
        },
        ExpressionView::Ored(s) => NodeView::Group {
            operator: LogicalOperator::Or,
            children: nodes_of(s),
        },
    }
}

/// The editor's trees for a sequence of expressions.
pub open spec fn nodes_of(s: Seq<ExpressionView>) -> Seq<NodeView>
    decreases s,
{
    if s.len() == 0 {
        Seq::empty()
    } else {
        proof {
            assert(decreases_to!(s => s.last()));
        }
        nodes_of(s.drop_last()).push(node_of(s.last()))
    }
}

/// The XTCE expression the editor writes for a tree: a group nested in a
/// group of the same operator is merged into it, so ANDed and ORed lists
/// alternate.
pub open spec fn expression_of(n: NodeView) -> ExpressionView
    decreases n,
{
    match n {
        NodeView::Condition(v) => ExpressionView::Condition(check_of_values(v)),
        NodeView::Group { operator: LogicalOperator::And, children } => ExpressionView::Anded(
            and_content(children),
        ),
        NodeView::Group { operator: LogicalOperator::Or, children } => ExpressionView::Ored(
            or_content(children),
        ),
    }
}

/// The items of an ANDed list for the children of an AND group.
pub open spec fn and_content(s: Seq<NodeView>) -> Seq<ExpressionView>
    decreases s,
{
    if s.len() == 0 {
        Seq::empty()
    } else {
        proof {
            assert(decreases_to!(s => s.last()));
        }
        and_content(s.drop_last()) + match s.last() {
            NodeView::Condition(v) => seq![ExpressionView::Condition(check_of_values(v))],
            NodeView::Group { operator: LogicalOperator::Or, children } => seq![
                ExpressionView::Ored(or_content(children)),
            ],
            NodeView::Group { operator: LogicalOperator::And, children } => and_content(children),
        }
    }
}

/// The items of an ORed list for the children of an OR group.
pub open spec fn or_content(s: Seq<NodeView>) -> Seq<ExpressionView>
    decreases s,
{
    if s.len() == 0 {
        Seq::empty()
    } else {
        proof {
            assert(decreases_to!(s => s.last()));
        }
        or_content(s.drop_last()) + match s.last() {
            NodeView::Condition(v) => seq![ExpressionView::Condition(check_of_values(v))],
            NodeView::Group { operator: LogicalOperator::And, children } => seq![
                ExpressionView::Anded(and_content(children)),
            ],
            NodeView::Group { operator: LogicalOperator::Or, children } => or_content(children),
        }
    }
}


pub proof fn lemma_exprs_view(s: Seq<BooleanExpression>)
    ensures
        exprs_view(s).len() == s.len(),
        forall|i: int| 0 <= i < s.len() ==> #[trigger] exprs_view(s)[i] == expr_view(s[i]),
    decreases s.len(),
{
    if s.len() > 0 {
        lemma_exprs_view(s.drop_last());
    }
}

pub proof fn lemma_nodes_view(s: Seq<BooleanNodeModel>)
    ensures
        nodes_view(s).len() == s.len(),
        forall|i: int| 0 <= i < s.len() ==> #[trigger] nodes_view(s)[i] == node_view(s[i]),
    decreases s.len(),
{
    if s.len() > 0 {
        lemma_nodes_view(s.drop_last());
    }
}

impl BooleanNodeModel {
    /// The editor's tree for an expression (see [`node_of`]).
    pub fn from_expression(e: &BooleanExpression) -> (r: BooleanNodeModel)
        ensures
            r@ == node_of(e@),
        decreases e,
    {
        match e {
            BooleanExpression::Condition(c) => BooleanNodeModel::Condition(ConditionValues::from_check(c)),
            BooleanExpression::Anded(items) => BooleanNodeModel::Group {
                operator: LogicalOperator::And,
                children: nodes_from_expressions(items),
            },
            BooleanExpression::Ored(items) => BooleanNodeModel::Group {
                operator: LogicalOperator::Or,
                children: nodes_from_expressions(items),
            },
        }
    }
}

/// The editor's trees for a list of expressions.
fn nodes_from_expressions(items: &Vec<BooleanExpression>) -> (r: Vec<BooleanNodeModel>)
    ensures
        nodes_view(r@) == nodes_of(exprs_view(items@)),
    decreases items,
{
    let mut out: Vec<BooleanNodeModel> = Vec::new();
    let mut i: usize = 0;
    proof {
        lemma_exprs_view(items@);
    }
    while i < items.len()
        invariant
            i <= items.len(),
            exprs_view(items@).len() == items@.len(),
            forall|k: int| 0 <= k < items@.len() ==> #[trigger] exprs_view(items@)[k] == expr_view(items@[k]),
            nodes_view(out@) == nodes_of(exprs_view(items@).take(i as int)),
        decreases items.len() - i,
    {
        proof {
            assert(decreases_to!(items => items@[i as int]));
        }
        let node = BooleanNodeModel::from_expression(&items[i]);
        let ghost before = out@;
        out.push(node);
        proof {
            assert(out@.drop_last() =~= before);
            let t = exprs_view(items@).take(i + 1);
            assert(t.drop_last() =~= exprs_view(items@).take(i as int));
            assert(t.last() == expr_view(items@[i as int]));
        }
        i = i + 1;
    }
    assert(exprs_view(items@).take(items.len() as int) =~= exprs_view(items@));
    out
}

/// The XTCE expression the editor writes for a tree (see
/// [`expression_of`]).
pub fn expression_from_node(n: &BooleanNodeModel) -> (r: BooleanExpression)
    ensures
        r@ == expression_of(n@),
    decreases n,
{
    match n {
        BooleanNodeModel::Condition(v) => BooleanExpression::Condition(check_from_values(v)),
        BooleanNodeModel::Group { operator, children } => {
            let mut out: Vec<BooleanExpression> = Vec::new();
            if *operator == LogicalOperator::And {
                push_content(children, LogicalOperator::And, &mut out);
                assert(exprs_view(out@) =~= and_content(nodes_view(children@)));
                BooleanExpression::Anded(out)
            } else {
                push_content(children, LogicalOperator::Or, &mut out);
                assert(exprs_view(out@) =~= or_content(nodes_view(children@)));
                BooleanExpression::Ored(out)
            }
        },
    }
}

/// The list content of a group's children under an operator.
pub open spec fn group_content(op: LogicalOperator, s: Seq<NodeView>) -> Seq<ExpressionView> {
    match op {
        LogicalOperator::And => and_content(s),
        LogicalOperator::Or => or_content(s),
    }
}

proof fn lemma_exprs_view_push(s: Seq<BooleanExpression>, e: BooleanExpression)
    ensures
        exprs_view(s.push(e)) == exprs_view(s).push(expr_view(e)),
{
    assert(s.push(e).drop_last() =~= s);
}

/// Appends the list content of `children` under `op`.
fn push_content(children: &Vec<BooleanNodeModel>, op: LogicalOperator, out: &mut Vec<BooleanExpression>)
    ensures
        exprs_view(final(out)@) == exprs_view(old(out)@) + group_content(op, nodes_view(children@)),
    decreases children,
{
    proof {
        lemma_nodes_view(children@);
    }
    let mut i: usize = 0;
    while i < children.len()
        invariant
            i <= children.len(),
            nodes_view(children@).len() == children@.len(),
            forall|k: int| 0 <= k < children@.len() ==> #[trigger] nodes_view(children@)[k] == node_view(children@[k]),
            exprs_view(out@) == exprs_view(old(out)@) + group_content(
                op,
                nodes_view(children@).take(i as int),
            ),
        decreases children.len() - i,
    {
        proof {
            assert(decreases_to!(children => children@[i as int]));
        }
        let ghost before = exprs_view(out@);
        let child = &children[i];
        let ghost t = nodes_view(children@).take(i + 1);
        proof {
            assert(t.drop_last() =~= nodes_view(children@).take(i as int));
            assert(t.last() == node_view(children@[i as int]));
        }
        match child {
            BooleanNodeModel::Condition(v) => {
                let e = BooleanExpression::Condition(check_from_values(v));
                proof {
                    lemma_exprs_view_push(out@, e);
                }
                out.push(e);
                assert(exprs_view(out@) =~= exprs_view(old(out)@) + group_content(op, t));
            },
            BooleanNodeModel::Group { operator, children: grand } => {
                if *operator == op {
                    push_content(grand, op, out);
                    assert(exprs_view(out@) =~= exprs_view(old(out)@) + group_content(op, t));
                } else {
                    let mut inner: Vec<BooleanExpression> = Vec::new();
                    push_content(grand, *operator, &mut inner);
                    let e = if *operator == LogicalOperator::And {
                        BooleanExpression::Anded(inner)
                    } else {
                        BooleanExpression::Ored(inner)
                    };
                    proof {
                        assert(exprs_view(inner@) =~= group_content(*operator, nodes_view(grand@)));
                        lemma_exprs_view_push(out@, e);
                    }
                    out.push(e);
                    assert(exprs_view(out@) =~= exprs_view(old(out)@) + group_content(op, t));
                }
            },
        }
        i = i + 1;
    }
    assert(nodes_view(children@).take(children.len() as int) =~= nodes_view(children@));
}


/// Whether a check is one the editor writes: reading it and writing it back
/// gives it unchanged.
pub open spec fn canonical_check(c: Seq<CheckItem<Seq<char>>>) -> bool {
    check_of_values(values_of_check(c)) == c
}

/// Whether the items of an `op` list are what XTCE allows there (conditions,
/// and lists of the other operator) with canonical checks throughout.
pub open spec fn items_wf(op: LogicalOperator, s: Seq<ExpressionView>) -> bool
    decreases s,
{
    if s.len() == 0 {
        true
    } else {
        proof {
            assert(decreases_to!(s => s.last()));
        }
        items_wf(op, s.drop_last()) && match s.last() {
            ExpressionView::Condition(c) => canonical_check(c),
            ExpressionView::Anded(ch) => op == LogicalOperator::Or && items_wf(
                LogicalOperator::And,
                ch,
            ),
            ExpressionView::Ored(ch) => op == LogicalOperator::And && items_wf(
                LogicalOperator::Or,
                ch,
            ),
        }
    }
}

/// Whether an expression nests as XTCE allows and holds canonical checks.
pub open spec fn expr_wf(e: ExpressionView) -> bool {
    match e {
        ExpressionView::Condition(c) => canonical_check(c),
        ExpressionView::Anded(s) => items_wf(LogicalOperator::And, s),
        ExpressionView::Ored(s) => items_wf(LogicalOperator::Or, s),
    }
}

/// Whether no group of the tree has a child group of its own operator.
pub open spec fn children_alternate(op: LogicalOperator, s: Seq<NodeView>) -> bool
    decreases s,
{
    if s.len() == 0 {
        true
    } else {
        proof {
            assert(decreases_to!(s => s.last()));
        }
        children_alternate(op, s.drop_last()) && match s.last() {
            NodeView::Condition(_) => true,
            NodeView::Group { operator, children } => operator != op && children_alternate(
                operator,
                children,
            ),
        }
    }
}

/// Whether no group of the tree has a child group of its own operator.
pub open spec fn node_alternates(n: NodeView) -> bool {
    match n {
        NodeView::Condition(_) => true,
        NodeView::Group { operator, children } => children_alternate(operator, children),
    }
}

/// The expression for a list of the given operator.
pub open spec fn list_of(op: LogicalOperator, s: Seq<ExpressionView>) -> ExpressionView {
    match op {
        LogicalOperator::And => ExpressionView::Anded(s),
        LogicalOperator::Or => ExpressionView::Ored(s),
    }
}

proof fn lemma_group_content_step(op: LogicalOperator, s: Seq<NodeView>)
    requires
        s.len() > 0,
    ensures
        group_content(op, s) == group_content(op, s.drop_last()) + match s.last() {
            NodeView::Condition(v) => seq![ExpressionView::Condition(check_of_values(v))],
            NodeView::Group { operator, children } => if operator == op {
                group_content(op, children)
            } else {
                seq![list_of(operator, group_content(operator, children))]
            },
        },
{
}

proof fn lemma_items_wf_append(op: LogicalOperator, a: Seq<ExpressionView>, b: Seq<ExpressionView>)
    requires
        items_wf(op, a),
        items_wf(op, b),
    ensures
        items_wf(op, a + b),
    decreases b.len(),
{
    if b.len() == 0 {
        assert(a + b =~= a);
    } else {
        lemma_items_wf_append(op, a, b.drop_last());
        assert((a + b).drop_last() =~= a + b.drop_last());
        assert((a + b).last() == b.last());
    }
}

proof fn lemma_canonical_written(v: ConditionValues<Seq<char>>)
    ensures
        canonical_check(check_of_values(v)),
{
    lemma_check_round_trip(v);
}

/// What the editor writes for the children of an `op` group is a valid
/// `op` list.
proof fn lemma_content_wf(op: LogicalOperator, s: Seq<NodeView>)
    ensures
        items_wf(op, group_content(op, s)),
    decreases s,
{
    if s.len() > 0 {
        assert(decreases_to!(s => s.last()));
        lemma_content_wf(op, s.drop_last());
        lemma_group_content_step(op, s);
        let rest = group_content(op, s.drop_last());
        match s.last() {
            NodeView::Condition(v) => {
                lemma_canonical_written(v);
                let piece = seq![ExpressionView::Condition(check_of_values(v))];
                assert(piece.drop_last() =~= Seq::<ExpressionView>::empty());
                assert(items_wf(op, Seq::<ExpressionView>::empty()));
                assert(piece.last() == ExpressionView::Condition(check_of_values(v)));
                assert(items_wf(op, piece));
                lemma_items_wf_append(op, rest, piece);
            },
            NodeView::Group { operator, children } => {
                lemma_content_wf(operator, children);
                if operator == op {
                    lemma_items_wf_append(op, rest, group_content(op, children));
                } else {
                    let piece = seq![list_of(operator, group_content(operator, children))];
                    assert(piece.drop_last() =~= Seq::<ExpressionView>::empty());
                    assert(items_wf(op, Seq::<ExpressionView>::empty()));
                    assert(piece.last() == list_of(operator, group_content(operator, children)));
                    assert(items_wf(op, piece));
                    lemma_items_wf_append(op, rest, piece);
                }
            },
        }
    }
}

/// Whatever the tree, the expression the editor writes for it nests as
/// XTCE allows (ANDed and ORed lists alternate) and its checks read back
/// unchanged.
pub proof fn lemma_written_expression_is_valid(n: NodeView)
    ensures
        expr_wf(expression_of(n)),
{
    match n {
        NodeView::Condition(v) => lemma_canonical_written(v),
        NodeView::Group { operator, children } => lemma_content_wf(operator, children),
    }
}

proof fn lemma_nodes_of_append(a: Seq<ExpressionView>, b: Seq<ExpressionView>)
    ensures
        nodes_of(a + b) == nodes_of(a) + nodes_of(b),
    decreases b.len(),
{
    if b.len() == 0 {
        assert(a + b =~= a);
        assert(nodes_of(a) + nodes_of(b) =~= nodes_of(a));
    } else {
        lemma_nodes_of_append(a, b.drop_last());
        assert((a + b).drop_last() =~= a + b.drop_last());
        assert((a + b).last() == b.last());
        assert(nodes_of(a + b) =~= nodes_of(a) + nodes_of(b));
    }
}

proof fn lemma_nodes_of_single(e: ExpressionView)
    ensures
        nodes_of(seq![e]) == seq![node_of(e)],
{
    assert(seq![e].drop_last() =~= Seq::<ExpressionView>::empty());
    assert(nodes_of(Seq::<ExpressionView>::empty()) =~= Seq::<NodeView>::empty());
    assert(seq![e].last() == e);
    assert(nodes_of(seq![e]) =~= seq![node_of(e)]);
}

proof fn lemma_alternating_round_trip(op: LogicalOperator, s: Seq<NodeView>)
    requires
        children_alternate(op, s),
    ensures
        nodes_of(group_content(op, s)) == s,
    decreases s,
{
    if s.len() == 0 {
        assert(nodes_of(group_content(op, s)) =~= s);
    } else {
        assert(decreases_to!(s => s.last()));
        lemma_alternating_round_trip(op, s.drop_last());
        lemma_group_content_step(op, s);
        let rest = group_content(op, s.drop_last());
        match s.last() {
            NodeView::Condition(v) => {
                lemma_check_round_trip(v);
                let e = ExpressionView::Condition(check_of_values(v));
                lemma_nodes_of_single(e);
                lemma_nodes_of_append(rest, seq![e]);
            },
            NodeView::Group { operator, children } => {
                assert(operator != op);
                lemma_alternating_round_trip(operator, children);
                let e = list_of(operator, group_content(operator, children));
                lemma_nodes_of_single(e);
                lemma_nodes_of_append(rest, seq![e]);
            },
        }
        assert(s.drop_last().push(s.last()) =~= s);
    }
}

/// Reading back what the editor writes gives the same tree, when no group
/// has a child group of its own operator (such a child is merged into its
/// parent on writing).
pub proof fn lemma_tree_round_trip(n: NodeView)
    requires
        node_alternates(n),
    ensures
        node_of(expression_of(n)) == n,
{
    match n {
        NodeView::Condition(v) => lemma_check_round_trip(v),
        NodeView::Group { operator, children } => lemma_alternating_round_trip(operator, children),
    }
}

proof fn lemma_wf_round_trip(op: LogicalOperator, s: Seq<ExpressionView>)
    requires
        items_wf(op, s),
    ensures
        group_content(op, nodes_of(s)) == s,
    decreases s,
{
    if s.len() == 0 {
        assert(group_content(op, nodes_of(s)) =~= s);
    } else {
        assert(decreases_to!(s => s.last()));
        lemma_wf_round_trip(op, s.drop_last());
        let ns = nodes_of(s);
        assert(ns.drop_last() =~= nodes_of(s.drop_last()));
        assert(ns.last() == node_of(s.last()));
        lemma_group_content_step(op, ns);
        match s.last() {
            ExpressionView::Condition(c) => {
                assert(group_content(op, ns) == s.drop_last() + seq![s.last()]);
            },
            ExpressionView::Anded(ch) => {
                lemma_wf_round_trip(LogicalOperator::And, ch);
                assert(group_content(op, ns) == s.drop_last() + seq![s.last()]);
            },
            ExpressionView::Ored(ch) => {
                lemma_wf_round_trip(LogicalOperator::Or, ch);
                assert(group_content(op, ns) == s.drop_last() + seq![s.last()]);
            },
        }
        assert(s.drop_last() + seq![s.last()] =~= s);
    }
}

/// Writing back the tree read from a valid expression gives the same
/// expression.
pub proof fn lemma_expression_round_trip(e: ExpressionView)
    requires
        expr_wf(e),
    ensures
        expression_of(node_of(e)) == e,
{
    match e {
        ExpressionView::Condition(c) => {},
        ExpressionView::Anded(s) => lemma_wf_round_trip(LogicalOperator::And, s),
        ExpressionView::Ored(s) => lemma_wf_round_trip(LogicalOperator::Or, s),
    }
}


/// The tree of a new condition.
pub open spec fn default_node() -> NodeView {
    NodeView::Condition(default_values())
}

impl BooleanNodeModel {
    /// A new condition with the default comparison.
    pub fn default_condition() -> (r: BooleanNodeModel)
        ensures
            r@ == default_node(),
    {
        BooleanNodeModel::Condition(default_condition_values())
    }
}

/// The editor's tree for an expression, or a new condition when there is
/// none.
pub fn model_for(expression: Option<&BooleanExpression>) -> (r: BooleanNodeModel)
    ensures
        r@ == (match expression {
            Some(e) => node_of(e@),
            None => default_node(),
        }),
{
    match expression {
        Some(e) => BooleanNodeModel::from_expression(e),
        None => BooleanNodeModel::default_condition(),
    }
}

/// A change the editor makes at one node of the tree.
#[derive(Clone, Copy, Debug, PartialEq, Eq, Structural)]
pub enum TreeEdit {
    /// Appends a new condition to a group.
    AddCondition,
    /// Appends a group of two new conditions to a group.
    AddGroup(LogicalOperator),
    /// Changes the operator of a group.
    SetOperator(LogicalOperator),
    /// Removes a child of a group that has more than two children.
    RemoveChild(usize),
}

/// The new group that [`TreeEdit::AddGroup`] appends.
pub open spec fn new_group(operator: LogicalOperator) -> NodeView {
    NodeView::Group { operator, children: seq![default_node(), default_node()] }
}

/// A node after an edit made at that node; a condition is left as it is,
/// and so is a group that would be left with fewer than two children.
pub open spec fn edit_here(n: NodeView, e: TreeEdit) -> NodeView {
    match n {
        NodeView::Condition(_) => n,
        NodeView::Group { operator, children } => match e {
            TreeEdit::AddCondition => NodeView::Group {
                operator,
                children: children.push(default_node()),
            },
            TreeEdit::AddGroup(o) => NodeView::Group {
                operator,
                children: children.push(new_group(o)),
            },
            TreeEdit::SetOperator(o) => NodeView::Group { operator: o, children },
            TreeEdit::RemoveChild(i) => if children.len() > 2 && i < children.len() {
                NodeView::Group { operator, children: children.remove(i as int) }
            } else {
                n
            },
        },
    }
}

/// The node reached from `n` by following child indices along `path`.
pub open spec fn node_at(n: NodeView, path: Seq<usize>) -> Option<NodeView>
    decreases path.len(),
{
    if path.len() == 0 {
        Some(n)
    } else {
        match n {
            NodeView::Condition(_) => None,
            NodeView::Group { children, .. } => if path[0] < children.len() {
                node_at(children[path[0] as int], path.drop_first())
            } else {
                None
            },
        }
    }
}

/// The tree after an edit made at the node that `path` reaches; the tree
/// is unchanged when the path reaches no node.
pub open spec fn edit_at(n: NodeView, path: Seq<usize>, e: TreeEdit) -> NodeView
    decreases path.len(),
{
    if path.len() == 0 {
        edit_here(n, e)
    } else {
        match n {
            NodeView::Condition(_) => n,
            NodeView::Group { operator, children } => if path[0] < children.len() {
                NodeView::Group {
                    operator,
                    children: children.update(
                        path[0] as int,
                        edit_at(children[path[0] as int], path.drop_first(), e),
                    ),
                }
            } else {
                n
            },
        }
    }
}

proof fn lemma_nodes_view_update(s: Seq<BooleanNodeModel>, i: int, x: BooleanNodeModel)
    requires
        0 <= i < s.len(),
    ensures
        nodes_view(s.update(i, x)) == nodes_view(s).update(i, node_view(x)),
{
    lemma_nodes_view(s);
    lemma_nodes_view(s.update(i, x));
    assert(nodes_view(s.update(i, x)) =~= nodes_view(s).update(i, node_view(x)));
}

proof fn lemma_nodes_view_push(s: Seq<BooleanNodeModel>, x: BooleanNodeModel)
    ensures
        nodes_view(s.push(x)) == nodes_view(s).push(node_view(x)),
{
    assert(s.push(x).drop_last() =~= s);
}

proof fn lemma_nodes_view_remove(s: Seq<BooleanNodeModel>, i: int)
    requires
        0 <= i < s.len(),
    ensures
        nodes_view(s.remove(i)) == nodes_view(s).remove(i),
{
    lemma_nodes_view(s);
    lemma_nodes_view(s.remove(i));
    assert(nodes_view(s.remove(i)) =~= nodes_view(s).remove(i));
}

/// Makes an edit at the node itself (see [`edit_here`]).
fn apply_edit_here(node: BooleanNodeModel, e: TreeEdit) -> (r: BooleanNodeModel)
    ensures
        r@ == edit_here(node@, e),
{
    match node {
        BooleanNodeModel::Condition(v) => BooleanNodeModel::Condition(v),
        BooleanNodeModel::Group { operator, mut children } => {
            let ghost before = children@;
            proof {
                lemma_nodes_view(before);
            }
            match e {
                TreeEdit::AddCondition => {
                    let d = BooleanNodeModel::default_condition();
                    proof {
                        lemma_nodes_view_push(before, d);
                    }
                    children.push(d);
                    BooleanNodeModel::Group { operator, children }
                },
                TreeEdit::AddGroup(o) => {
                    let first = BooleanNodeModel::default_condition();
                    let second = BooleanNodeModel::default_condition();
                    let pair = vec![first, second];
                    let g = BooleanNodeModel::Group { operator: o, children: pair };
                    proof {
                        reveal_with_fuel(nodes_view, 3);
                        assert(pair@.drop_last().drop_last() =~= Seq::<BooleanNodeModel>::empty());
                        assert(pair@.drop_last() =~= seq![first]);
                        assert(nodes_view(pair@) =~= seq![default_node(), default_node()]);
                        lemma_nodes_view_push(before, g);
                    }
                    children.push(g);
                    BooleanNodeModel::Group { operator, children }
                },
                TreeEdit::SetOperator(o) => BooleanNodeModel::Group { operator: o, children },
                TreeEdit::RemoveChild(i) => {
                    if children.len() > 2 && i < children.len() {
                        proof {
                            lemma_nodes_view_remove(before, i as int);
                        }
                        children.remove(i);
                    }
                    BooleanNodeModel::Group { operator, children }
                },
            }
        },
    }
}

/// Makes an edit at the node that `path[depth..]` reaches from `node`.
fn apply_edit_at(node: BooleanNodeModel, path: &[usize], depth: usize, e: TreeEdit) -> (r:
    BooleanNodeModel)
    requires
        depth <= path@.len(),
    ensures
        r@ == edit_at(node@, path@.skip(depth as int), e),
    decreases path@.len() - depth,
{
    let ghost rest = path@.skip(depth as int);
    if depth == path.len() {
        apply_edit_here(node, e)
    } else {
        proof {
            assert(rest[0] == path@[depth as int]);
            assert(rest.drop_first() =~= path@.skip(depth + 1));
        }
        match node {
            BooleanNodeModel::Condition(v) => BooleanNodeModel::Condition(v),
            BooleanNodeModel::Group { operator, mut children } => {
                let i = path[depth];
                let ghost before = children@;
                proof {
                    lemma_nodes_view(before);
                }
                if i < children.len() {
                    let child = children.remove(i);
                    let edited = apply_edit_at(child, path, depth + 1, e);
                    children.insert(i, edited);
                    proof {
                        assert(children@ =~= before.update(i as int, edited));
                        lemma_nodes_view_update(before, i as int, edited);
                    }
                    BooleanNodeModel::Group { operator, children }
                } else {
                    BooleanNodeModel::Group { operator, children }
                }
            },
        }
    }
}

/// Makes an edit at the node that `path` reaches from the root.
fn edit_root(root: &mut BooleanNodeModel, path: &[usize], e: TreeEdit)
    ensures
        final(root)@ == edit_at(old(root)@, path@, e),
{
    let mut taken = BooleanNodeModel::default_condition();
    std::mem::swap(&mut taken, root);
    proof {
        assert(path@.skip(0) =~= path@);
    }
    *root = apply_edit_at(taken, path, 0, e);
}

/// Appends a new condition to the group that `path` reaches; nothing
/// changes when `path` reaches no group.
pub fn add_condition(root: &mut BooleanNodeModel, path: &[usize])
    ensures
        final(root)@ == edit_at(old(root)@, path@, TreeEdit::AddCondition),
{
    edit_root(root, path, TreeEdit::AddCondition)
}

/// Appends a group of two new conditions to the group that `path` reaches;
/// nothing changes when `path` reaches no group.
pub fn add_group(root: &mut BooleanNodeModel, path: &[usize], operator: LogicalOperator)
    ensures
        final(root)@ == edit_at(old(root)@, path@, TreeEdit::AddGroup(operator)),
{
    edit_root(root, path, TreeEdit::AddGroup(operator))
}

/// Changes the operator of the group that `path` reaches; nothing changes
/// when `path` reaches no group.
pub fn set_group_operator(root: &mut BooleanNodeModel, path: &[usize], operator: LogicalOperator)
    ensures
        final(root)@ == edit_at(old(root)@, path@, TreeEdit::SetOperator(operator)),
{
    edit_root(root, path, TreeEdit::SetOperator(operator))
}

/// The tree after removing the node that `path` reaches: only a child of a
/// group with more than two children is removed, else nothing changes.
pub open spec fn removed(n: NodeView, path: Seq<usize>) -> NodeView {
    if path.len() == 0 {
        n
    } else {
        edit_at(n, path.drop_last(), TreeEdit::RemoveChild(path.last()))
    }
}

/// Removes the node that `path` reaches when its parent group keeps at
/// least two children (see [`removed`]).
pub fn remove_node(root: &mut BooleanNodeModel, path: &[usize])
    ensures
        final(root)@ == removed(old(root)@, path@),
{
    let n = path.len();
    if n > 0 {
        let index = path[n - 1];
        let parent = slice_prefix(path, n - 1);
        proof {
            assert(parent@ =~= path@.drop_last());
        }
        edit_root(root, parent.as_slice(), TreeEdit::RemoveChild(index));
    }
}

/// The first `n` indices of a path.
fn slice_prefix(path: &[usize], n: usize) -> (r: Vec<usize>)
    requires
        n <= path@.len(),
    ensures
        r@ == path@.take(n as int),
{
    let mut r: Vec<usize> = Vec::new();
    let mut i: usize = 0;
    while i < n
        invariant
            i <= n,
            n <= path@.len(),
            r@ == path@.take(i as int),
        decreases n - i,
    {
        r.push(path[i]);
        i = i + 1;
        proof {
            assert(r@ =~= path@.take(i as int));
        }
    }
    r
}

/// The tree with the root and a new condition as the two children of a new
/// group.
pub open spec fn wrapped(n: NodeView, operator: LogicalOperator) -> NodeView {
    NodeView::Group { operator, children: seq![n, default_node()] }
}

/// Puts the root and a new condition in a new group of the given operator.
pub fn wrap_root(root: &mut BooleanNodeModel, operator: LogicalOperator)
    ensures
        final(root)@ == wrapped(old(root)@, operator),
{
    let mut previous = BooleanNodeModel::default_condition();
    std::mem::swap(&mut previous, root);
    let second = BooleanNodeModel::default_condition();
    let ghost p = previous;
    let children = vec![previous, second];
    proof {
        reveal_with_fuel(nodes_view, 3);
        assert(children@.drop_last().drop_last() =~= Seq::<BooleanNodeModel>::empty());
        assert(children@.drop_last() =~= seq![p]);
        assert(nodes_view(children@) =~= seq![node_view(p), default_node()]);
    }
    *root = BooleanNodeModel::Group { operator, children };
}

/// Whether every group of the tree has at least two children.
pub open spec fn groups_hold_two(n: NodeView) -> bool
    decreases n,
{
    match n {
        NodeView::Condition(_) => true,
        NodeView::Group { children, .. } => children.len() >= 2 && all_hold_two(children),
    }
}

/// Whether every group of each tree has at least two children.
pub open spec fn all_hold_two(s: Seq<NodeView>) -> bool
    decreases s,
{
    if s.len() == 0 {
        true
    } else {
        proof {
            assert(decreases_to!(s => s.last()));
        }
        all_hold_two(s.drop_last()) && groups_hold_two(s.last())
    }
}

proof fn lemma_all_hold_two(s: Seq<NodeView>)
    ensures
        all_hold_two(s) <==> forall|i: int| 0 <= i < s.len() ==> #[trigger] groups_hold_two(s[i]),
    decreases s.len(),
{
    if s.len() > 0 {
        lemma_all_hold_two(s.drop_last());
        if forall|i: int| 0 <= i < s.len() ==> #[trigger] groups_hold_two(s[i]) {
            assert forall|i: int| 0 <= i < s.drop_last().len() implies #[trigger] groups_hold_two(
                s.drop_last()[i],
            ) by {
                assert(s.drop_last()[i] == s[i]);
            }
            assert(groups_hold_two(s[s.len() - 1]));
        }
        if all_hold_two(s) {
            assert forall|i: int| 0 <= i < s.len() implies #[trigger] groups_hold_two(s[i]) by {
                if i < s.len() - 1 {
                    assert(s.drop_last()[i] == s[i]);
                }
            }
        }
    }
}

/// An edit changes the node that its path reaches and nothing else there:
/// after it, the path reaches the edited node.
pub proof fn lemma_edit_reaches(n: NodeView, path: Seq<usize>, e: TreeEdit)
    ensures
        node_at(edit_at(n, path, e), path) == (match node_at(n, path) {
            Some(m) => Some(edit_here(m, e)),
            None => None,
        }),
    decreases path.len(),
{
    if path.len() > 0 {
        match n {
            NodeView::Condition(_) => {},
            NodeView::Group { operator, children } => {
                if path[0] < children.len() {
                    lemma_edit_reaches(children[path[0] as int], path.drop_first(), e);
                }
            },
        }
    }
}

/// The editor's changes keep every group with at least two children: a new
/// group starts with two conditions, and a child is removed only from a
/// group that has more than two.
pub proof fn lemma_edit_keeps_two(n: NodeView, path: Seq<usize>, e: TreeEdit)
    requires
        groups_hold_two(n),
    ensures
        groups_hold_two(edit_at(n, path, e)),
    decreases path.len(),
{
    match n {
        NodeView::Condition(_) => {},
        NodeView::Group { operator, children } => {
            lemma_all_hold_two(children);
            if path.len() == 0 {
                match e {
                    TreeEdit::AddCondition => {
                        let c = children.push(default_node());
                        lemma_all_hold_two(c);
                        assert forall|i: int| 0 <= i < c.len() implies #[trigger] groups_hold_two(c[i]) by {
                            if i < children.len() {
                                assert(c[i] == children[i]);
                            }
                        }
                    },
                    TreeEdit::AddGroup(o) => {
                        let gc = seq![default_node(), default_node()];
                        lemma_all_hold_two(gc);
                        assert(groups_hold_two(gc[0]) && groups_hold_two(gc[1]));
                        assert(groups_hold_two(new_group(o)));
                        let c = children.push(new_group(o));
                        lemma_all_hold_two(c);
                        assert forall|i: int| 0 <= i < c.len() implies #[trigger] groups_hold_two(c[i]) by {
                            if i < children.len() {
                                assert(c[i] == children[i]);
                            }
                        }
                    },
                    TreeEdit::SetOperator(o) => {},
                    TreeEdit::RemoveChild(k) => {
                        if children.len() > 2 && k < children.len() {
                            let c = children.remove(k as int);
                            lemma_all_hold_two(c);
                            assert forall|i: int| 0 <= i < c.len() implies #[trigger] groups_hold_two(c[i]) by {
                                if i < k {
                                    assert(c[i] == children[i]);
                                } else {
                                    assert(c[i] == children[i + 1]);
                                }
                            }
                        }
                    },
                }
            } else if path[0] < children.len() {
                let k = path[0] as int;
                assert(groups_hold_two(children[k]));
                lemma_edit_keeps_two(children[k], path.drop_first(), e);
                let c = children.update(k, edit_at(children[k], path.drop_first(), e));
                lemma_all_hold_two(c);
                assert forall|i: int| 0 <= i < c.len() implies #[trigger] groups_hold_two(c[i]) by {
                    if i != k {
                        assert(c[i] == children[i]);
                    }
                }
            }
        },
    }
}

/// Removing a node keeps every group with at least two children.
pub proof fn lemma_remove_keeps_two(n: NodeView, path: Seq<usize>)
    requires
        groups_hold_two(n),
    ensures
        groups_hold_two(removed(n, path)),
{
    if path.len() > 0 {
        lemma_edit_keeps_two(n, path.drop_last(), TreeEdit::RemoveChild(path.last()));
    }
}

/// Wrapping the root in a new group keeps every group with at least two
/// children.
pub proof fn lemma_wrap_keeps_two(n: NodeView, operator: LogicalOperator)
    requires
        groups_hold_two(n),
    ensures
        groups_hold_two(wrapped(n, operator)),
{
    let c = seq![n, default_node()];
    lemma_all_hold_two(c);
    assert(groups_hold_two(c[0]) && groups_hold_two(c[1]));
}

/// Setting a group's operator: the group the path reaches takes the new
/// operator and keeps exactly its children.
pub proof fn lemma_set_operator_at(n: NodeView, path: Seq<usize>, o: LogicalOperator)
    requires
        node_at(n, path) matches Some(NodeView::Group { .. }),
    ensures
        node_at(edit_at(n, path, TreeEdit::SetOperator(o)), path) == Some(
            NodeView::Group { operator: o, children: node_at(n, path)->Some_0->Group_children },
        ),
{
    lemma_edit_reaches(n, path, TreeEdit::SetOperator(o));
}

/// Adding a condition or a group: the group the path reaches keeps its
/// operator and its children, in order, and gains one more child at the
/// end: a new condition, or a group of the chosen operator.
pub proof fn lemma_add_at(n: NodeView, path: Seq<usize>, e: TreeEdit)
    requires
        node_at(n, path) matches Some(NodeView::Group { .. }),
        e is AddCondition || e is AddGroup,
    ensures
        node_at(edit_at(n, path, e), path) matches Some(NodeView::Group { operator, children }) && {
            let old_children = node_at(n, path)->Some_0->Group_children;
            &&& operator == node_at(n, path)->Some_0->Group_operator
            &&& children.len() == old_children.len() + 1
            &&& children.take(old_children.len() as int) == old_children
            &&& (e is AddCondition ==> children.last() is Condition)
            &&& (e matches TreeEdit::AddGroup(o) ==> children.last() matches NodeView::Group {
                operator: g,
                ..
            } && g == o)
        },
{
    lemma_edit_reaches(n, path, e);
    let old_children = node_at(n, path)->Some_0->Group_children;
    let m = node_at(edit_at(n, path, e), path)->Some_0;
    assert(m->Group_children.take(old_children.len() as int) =~= old_children);
}

} // verus!
