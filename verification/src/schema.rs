use vstd::prelude::*;

verus! {

/// The semantic type that a declared field coerces its JSON values to.
#[derive(Clone, Copy, Debug, PartialEq, Eq, Structural)]
pub enum DType {
    Utf8,
    Int64,
    Float64,
    Boolean,
}

/// One declared field of a logical table's schema: name, semantic type, and
/// whether a missing or null value is allowed.
#[derive(Clone, Debug)]
pub struct FieldSpec {
    pub name: String,
    pub dtype: DType,
    pub nullable: bool,
}

/// Mathematical image of a `FieldSpec`.
#[verifier::ext_equal]
pub struct FieldV {
    pub name: Seq<char>,
    pub dtype: DType,
    pub nullable: bool,
}

impl View for FieldSpec {
    type V = FieldV;

    open spec fn view(&self) -> FieldV {
        FieldV { name: self.name@, dtype: self.dtype, nullable: self.nullable }
    }
}

impl DeepView for FieldSpec {
    type V = FieldV;

    open spec fn deep_view(&self) -> FieldV {
        self.view()
    }
}

impl FieldSpec {
    /// Builds a field descriptor from its parts.
    pub fn new(name: &str, dtype: DType, nullable: bool) -> (r: FieldSpec)
        ensures
            r@ == (FieldV { name: name@, dtype, nullable }),
    {
        FieldSpec { name: name.to_owned(), dtype, nullable }
    }
}

/// One decoded value of a columnar batch. A 64-bit float value is carried as
/// the exact decimal text of its JSON number token.
#[derive(Clone, Debug)]
pub enum Cell {
    Null,
    Int(i64),
    Num(String),
    Str(String),
    Bool(bool),
}

/// Mathematical image of a `Cell`.
#[verifier::ext_equal]
pub enum CellV {
    Null,
    Int(int),
    Num(Seq<char>),
    Str(Seq<char>),
    Bool(bool),
}

impl View for Cell {
    type V = CellV;

    open spec fn view(&self) -> CellV {
        match self {
            Cell::Null => CellV::Null,
            Cell::Int(n) => CellV::Int(*n as int),
            Cell::Num(t) => CellV::Num(t@),
            Cell::Str(t) => CellV::Str(t@),
            Cell::Bool(b) => CellV::Bool(*b),
        }
    }
}

impl DeepView for Cell {
    type V = CellV;

    open spec fn deep_view(&self) -> CellV {
        self.view()
    }
}

/// Whether a cell value is admissible under a declared field.
pub open spec fn cell_ok(f: FieldV, c: CellV) -> bool {
    match c {
        CellV::Null => f.nullable,
        CellV::Int(_) => f.dtype == DType::Int64,
        CellV::Num(_) => f.dtype == DType::Float64,
        CellV::Str(_) => f.dtype == DType::Utf8,
        CellV::Bool(_) => f.dtype == DType::Boolean,
    }
}

/// A typed, column-oriented record set: one column per declared field, all
/// columns of equal length, every cell admissible under its field.
#[derive(Clone, Debug)]
pub struct Batch {
    pub fields: Vec<FieldSpec>,
    pub columns: Vec<Vec<Cell>>,
    pub n_rows: usize,
}

impl Batch {
    pub open spec fn well_formed(&self) -> bool {
        &&& self.columns@.len() == self.fields@.len()
        &&& forall|k: int|
            0 <= k < self.columns@.len() ==> (#[trigger] self.columns@[k])@.len()
                == self.spec_num_rows()
        &&& forall|k: int, i: int|
            0 <= k < self.columns@.len() && 0 <= i < self.columns@[k]@.len()
                ==> cell_ok(self.fields@[k]@, #[trigger] self.columns@[k]@[i]@)
    }

    /// The row count.
    pub open spec fn spec_num_rows(&self) -> nat {
        self.n_rows as nat
    }

    pub fn num_rows(&self) -> (r: usize)
        ensures
            r == self.spec_num_rows(),
    {
        self.n_rows
    }

    pub fn num_columns(&self) -> (r: usize)
        ensures
            r == self.columns@.len(),
    {
        self.columns.len()
    }

    /// The cell at a row and column.
    pub fn value_at(&self, row: usize, col: usize) -> (r: &Cell)
        requires
            self.well_formed(),
            col < self.columns@.len(),
            row < self.spec_num_rows(),
        ensures
            *r == self.columns@[col as int]@[row as int],
    {
        &self.columns[col][row]
    }
}

} // verus!
