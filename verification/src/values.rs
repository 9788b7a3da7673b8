//! Cell values and the argument shapes a formula can consume.

use vstd::prelude::*;

verus! {

/// The value held by one spreadsheet cell. A cell that was never written
/// holds `Empty`; a cell whose evaluation failed holds the dependency-error
/// sentinel, an `Error` value carrying the text given by [`dep_error_text`].
pub enum CellValue {
    Int(i64),
    Text(String),
    Error(String),
    Empty,
}

/// Mathematical image of a [`CellValue`]: strings become character sequences.
pub enum ValueView {
    Int(int),
    Text(Seq<char>),
    Error(Seq<char>),
    Empty,
}

/// The message carried by the dependency-error sentinel.
pub open spec fn dep_error_text() -> Seq<char> {
    "Dependency error"@
}

impl View for CellValue {
    type V = ValueView;

    open spec fn view(&self) -> ValueView {
        match self {
            CellValue::Int(i) => ValueView::Int(*i as int),
            CellValue::Text(s) => ValueView::Text(s@),
            CellValue::Error(s) => ValueView::Error(s@),
            CellValue::Empty => ValueView::Empty,
        }
    }
}

/// Whether a value view is the dependency-error sentinel.
pub open spec fn view_is_dep_error(v: ValueView) -> bool {
    v matches ValueView::Error(m) && m == dep_error_text()
}

impl CellValue {
    /// An explicit copy, equal to the original under the view.
    pub fn duplicate(&self) -> (r: CellValue)
        ensures
            r@ == self@,
    {
        match self {
            CellValue::Int(i) => CellValue::Int(*i),
            CellValue::Text(s) => CellValue::Text(s.clone()),
            CellValue::Error(s) => CellValue::Error(s.clone()),
            CellValue::Empty => CellValue::Empty,
        }
    }

    /// Whether this value is the dependency-error sentinel.
    pub open spec fn spec_is_dep_error(self) -> bool {
        view_is_dep_error(self@)
    }

    /// Decides whether this value is the dependency-error sentinel.
    pub fn is_dep_error(&self) -> (r: bool)
        ensures
            r == self.spec_is_dep_error(),
    {
        match self {
            CellValue::Error(m) => {
                let sentinel = dep_error_string();
                *m == sentinel
            },
            _ => false,
        }
    }
}

/// The dependency-error sentinel as an owned value.
pub fn dep_error_value() -> (r: CellValue)
    ensures
        r@ == ValueView::Error(dep_error_text()),
        r.spec_is_dep_error(),
{
    CellValue::Error(dep_error_string())
}

/// The sentinel message as an owned string.
pub fn dep_error_string() -> (r: String)
    ensures
        r@ == dep_error_text(),
{
    "Dependency error".to_owned()
}

/// Mathematical image of a sequence of cell values.
pub open spec fn values_view(vs: Seq<CellValue>) -> Seq<ValueView> {
    vs.map_values(|v: CellValue| v@)
}

/// The binding handed to the expression engine for one variable name:
/// a single value, a one-dimensional run, or a two-dimensional grid.
pub enum CellArgument {
    Value(CellValue),
    Vector(Vec<CellValue>),
    Matrix(Vec<Vec<CellValue>>),
}

/// Mathematical image of a [`CellArgument`].
pub enum ArgView {
    Value(ValueView),
    Vector(Seq<ValueView>),
    Matrix(Seq<Seq<ValueView>>),
}

impl View for CellArgument {
    type V = ArgView;

    open spec fn view(&self) -> ArgView {
        match self {
            CellArgument::Value(v) => ArgView::Value(v@),
            CellArgument::Vector(vs) => ArgView::Vector(values_view(vs@)),
            CellArgument::Matrix(m) => ArgView::Matrix(
                m@.map_values(|row: Vec<CellValue>| values_view(row@)),
            ),
        }
    }
}

} // verus!
