use vstd::prelude::*;

verus! {

/// The content of one cell of the board.
#[derive(Debug, Clone, Copy, PartialEq, Eq, Structural, PartialOrd, Ord)]
pub enum CellValue {
    Empty,
    Cross,
    Circle,
}

/// The digit that stands for a cell value in a position id.
pub struct CellValueId(pub usize);

/// Number of distinct cell values, empty included.
pub const NUM_CELL_VALUES: usize = 3;

impl CellValue {
    pub open spec fn spec_value_id(self) -> nat {
        match self {
            CellValue::Empty => 0,
            CellValue::Cross => 1,
            CellValue::Circle => 2,
        }
    }

    pub open spec fn spec_value_with_id(id: int) -> CellValue {
        if id == 0 {
            CellValue::Empty
        } else if id == 1 {
            CellValue::Cross
        } else {
            CellValue::Circle
        }
    }

    pub open spec fn spec_is_set(self) -> bool {
        self != CellValue::Empty
    }

    pub open spec fn spec_char(self) -> char {
        match self {
            CellValue::Cross => 'x',
            CellValue::Circle => 'o',
            CellValue::Empty => ' ',
        }
    }

    pub fn value_id(&self) -> (r: CellValueId)
        ensures
            r.0 == self.spec_value_id(),
    {
        match self {
            CellValue::Empty => CellValueId(0),
            CellValue::Cross => CellValueId(1),
            CellValue::Circle => CellValueId(2),
        }
    }

    pub fn value_with_id(value_id: CellValueId) -> (r: CellValue)
        requires
            value_id.0 < NUM_CELL_VALUES,
        ensures
            r == CellValue::spec_value_with_id(value_id.0 as int),
            r.spec_value_id() == value_id.0,
    {
        if value_id.0 == 0 {
            CellValue::Empty
        } else if value_id.0 == 1 {
            CellValue::Cross
        } else {
            CellValue::Circle
        }
    }

    pub fn num_values() -> (r: usize)
        ensures
            r == NUM_CELL_VALUES,
    {
        NUM_CELL_VALUES
    }

    pub fn is_set(&self) -> (r: bool)
        ensures
            r == self.spec_is_set(),
    {
        match self {
            CellValue::Empty => false,
            _ => true,
        }
    }

    /// The cell value written as `c`, if any.
    pub fn from_char(c: char) -> (r: Result<CellValue, CellValueConversionError>)
        ensures
            r == spec_from_char(c),
            r matches Ok(v) ==> v.spec_char() == c,
            r is Ok <==> (c == 'x' || c == 'o' || c == ' '),
    {
        if c == 'x' {
            Ok(CellValue::Cross)
        } else if c == 'o' {
            Ok(CellValue::Circle)
        } else if c == ' ' {
            Ok(CellValue::Empty)
        } else {
            Err(CellValueConversionError(c))
        }
    }

    pub fn to_char(&self) -> (r: char)
        ensures
            r == self.spec_char(),
    {
        match self {
            CellValue::Cross => 'x',
            CellValue::Circle => 'o',
            CellValue::Empty => ' ',
        }
    }
}

/// The cell value that `c` names, or the character itself as the error.
pub open spec fn spec_from_char(c: char) -> Result<CellValue, CellValueConversionError> {
    if c == 'x' {
        Ok(CellValue::Cross)
    } else if c == 'o' {
        Ok(CellValue::Circle)
    } else if c == ' ' {
        Ok(CellValue::Empty)
    } else {
        Err(CellValueConversionError(c))
    }
}

/// A character that names no cell value.
#[derive(Debug, Clone, Copy, PartialEq, Eq, Structural)]
pub struct CellValueConversionError(pub char);

impl TryFrom<char> for CellValue {
    type Error = CellValueConversionError;

    fn try_from(c: char) -> Result<Self, Self::Error> {
        CellValue::from_char(c)
    }
}

impl vstd::std_specs::convert::TryFromSpecImpl<char> for CellValue {
    open spec fn obeys_try_from_spec() -> bool {
        true
    }

    open spec fn try_from_spec(c: char) -> Result<CellValue, CellValueConversionError> {
        spec_from_char(c)
    }
}

impl From<CellValue> for char {
    fn from(value: CellValue) -> char {
        value.to_char()
    }
}

impl vstd::std_specs::convert::FromSpecImpl<CellValue> for char {
    open spec fn obeys_from_spec() -> bool {
        true
    }

    open spec fn from_spec(v: CellValue) -> char {
        v.spec_char()
    }
}

} // verus!
