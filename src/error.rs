use vstd::prelude::*;

verus! {

/// Why scanning failed.
#[derive(Clone, Debug, PartialEq)]
pub enum LexError {
    NotFound(String),
    ValueError(String),
    UnexpectedCharacter { char: char, line: usize },
    UnterminatedString { line: usize },
    NumberParsingError { num_str: String, line: usize },
}

/// The mathematical value of a `LexError`.
pub enum LexErrorV {
    NotFound(Seq<char>),
    ValueError(Seq<char>),
    UnexpectedCharacter { char: char, line: nat },
    UnterminatedString { line: nat },
    NumberParsingError { num_str: Seq<char>, line: nat },
}

impl View for LexError {
    type V = LexErrorV;

    open spec fn view(&self) -> LexErrorV {
        match self {
            LexError::NotFound(s) => LexErrorV::NotFound(s@),
            LexError::ValueError(s) => LexErrorV::ValueError(s@),
            LexError::UnexpectedCharacter { char, line } => LexErrorV::UnexpectedCharacter {
                char: *char,
                line: *line as nat,
            },
            LexError::UnterminatedString { line } => LexErrorV::UnterminatedString {
                line: *line as nat,
            },
            LexError::NumberParsingError { num_str, line } => LexErrorV::NumberParsingError {
                num_str: num_str@,
                line: *line as nat,
            },
        }
    }
}

/// Why parsing a declaration failed.
#[derive(Clone, Debug, PartialEq)]
pub enum ParseError {
    InvalidConversion(String),
    IndexOutOfBounds,
    InvalidGrouping(String),
    MissingValue { val: String, line: usize },
}

/// The mathematical value of a `ParseError`.
pub enum ParseErrorV {
    InvalidConversion(Seq<char>),
    IndexOutOfBounds,
    InvalidGrouping(Seq<char>),
    MissingValue { val: Seq<char>, line: nat },
}

impl View for ParseError {
    type V = ParseErrorV;

    open spec fn view(&self) -> ParseErrorV {
        match self {
            ParseError::InvalidConversion(s) => ParseErrorV::InvalidConversion(s@),
            ParseError::IndexOutOfBounds => ParseErrorV::IndexOutOfBounds,
            ParseError::InvalidGrouping(s) => ParseErrorV::InvalidGrouping(s@),
            ParseError::MissingValue { val, line } => ParseErrorV::MissingValue {
                val: val@,
                line: *line as nat,
            },
        }
    }
}

/// The views of a sequence of parse errors.
pub open spec fn view_parse_errors(s: Seq<ParseError>) -> Seq<ParseErrorV> {
    s.map_values(|e: ParseError| e@)
}

/// Why a variable could not be defined or read.
#[derive(Clone, Debug, PartialEq)]
pub enum EnvironmentError {
    UndefinedVariable(String),
    MultipleAssignmentVariable(String),
}

/// The mathematical value of an `EnvironmentError`.
pub enum EnvironmentErrorV {
    UndefinedVariable(Seq<char>),
    MultipleAssignmentVariable(Seq<char>),
}

impl View for EnvironmentError {
    type V = EnvironmentErrorV;

    open spec fn view(&self) -> EnvironmentErrorV {
        match self {
            EnvironmentError::UndefinedVariable(s) => EnvironmentErrorV::UndefinedVariable(s@),
            EnvironmentError::MultipleAssignmentVariable(s) =>
                EnvironmentErrorV::MultipleAssignmentVariable(s@),
        }
    }
}

/// Why running a statement failed.
#[derive(Clone, Debug, PartialEq)]
pub enum RunTimeError {
    CouldNotEval(String),
    EnvironmentError(EnvironmentError),
}

/// The mathematical value of a `RunTimeError`.
pub enum RunTimeErrorV {
    CouldNotEval(Seq<char>),
    EnvironmentError(EnvironmentErrorV),
}

impl View for RunTimeError {
    type V = RunTimeErrorV;

    open spec fn view(&self) -> RunTimeErrorV {
        match self {
            RunTimeError::CouldNotEval(s) => RunTimeErrorV::CouldNotEval(s@),
            RunTimeError::EnvironmentError(e) => RunTimeErrorV::EnvironmentError(e@),
        }
    }
}

impl From<EnvironmentError> for RunTimeError {
    fn from(value: EnvironmentError) -> (r: RunTimeError) {
        RunTimeError::EnvironmentError(value)
    }
}

impl vstd::std_specs::convert::FromSpecImpl<EnvironmentError> for RunTimeError {
    open spec fn obeys_from_spec() -> bool {
        true
    }

    open spec fn from_spec(v: EnvironmentError) -> RunTimeError {
        RunTimeError::EnvironmentError(v)
    }
}


/// Why running a source text failed, at whichever stage.
#[derive(Clone, Debug, PartialEq)]
pub enum InterpreterError {
    LexError(LexError),
    ParseError(Vec<ParseError>),
    RunTimeError(RunTimeError),
}

impl From<LexError> for InterpreterError {
    fn from(value: LexError) -> (r: InterpreterError) {
        InterpreterError::LexError(value)
    }
}

impl vstd::std_specs::convert::FromSpecImpl<LexError> for InterpreterError {
    open spec fn obeys_from_spec() -> bool {
        true
    }

    open spec fn from_spec(v: LexError) -> InterpreterError {
        InterpreterError::LexError(v)
    }
}

impl From<Vec<ParseError>> for InterpreterError {
    fn from(value: Vec<ParseError>) -> (r: InterpreterError) {
        InterpreterError::ParseError(value)
    }
}

impl vstd::std_specs::convert::FromSpecImpl<Vec<ParseError>> for InterpreterError {
    open spec fn obeys_from_spec() -> bool {
        true
    }

    open spec fn from_spec(v: Vec<ParseError>) -> InterpreterError {
        InterpreterError::ParseError(v)
    }
}

impl From<RunTimeError> for InterpreterError {
    fn from(value: RunTimeError) -> (r: InterpreterError) {
        InterpreterError::RunTimeError(value)
    }
}

impl vstd::std_specs::convert::FromSpecImpl<RunTimeError> for InterpreterError {
    open spec fn obeys_from_spec() -> bool {
        true
    }

    open spec fn from_spec(v: RunTimeError) -> InterpreterError {
        InterpreterError::RunTimeError(v)
    }
}

} // verus!
