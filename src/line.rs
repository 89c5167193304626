//! Classified source lines and the errors of a translation.
use vstd::prelude::*;

verus! {

/// The arguments of a command: a name and an optional count or index.
#[derive(Debug)]
pub struct Args {
    pub arg1: String,
    pub arg2: Option<i32>,
}

#[allow(non_camel_case_types)]
#[derive(Clone, Copy, Debug, PartialEq, Eq, Structural)]
pub enum CommandType {
    ARITHMETIC,
    PUSH,
    POP,
    LABEL,
    GOTO,
    IF,
    FUNCTION,
    RETURN,
    CALL,
    UNKOWN,
}

#[derive(Clone, Copy, Debug, PartialEq, Eq, Structural)]
pub enum MemSeg {
    LCL,
    ARG,
    THIS,
    THAT,
    CONST,
    STATIC,
    PTR,
    TEMP,
    NONE,
}

#[derive(Clone, Copy, Debug, PartialEq, Eq, Structural)]
pub enum ArithOp {
    ADD,
    SUB,
    NEG,
    EQ,
    GT,
    LT,
    AND,
    OR,
    NOT,
    NONE,
}

/// One classified command, with the normalized text it came from.
#[derive(Debug)]
pub struct SourceLine {
    pub source: String,
    pub args: Args,
    pub mem_seg: MemSeg,
    pub arith_op: ArithOp,
    pub cmd_type: CommandType,
}

/// What the generator reads of a classified command.
pub struct CmdView {
    pub cmd_type: CommandType,
    pub mem_seg: MemSeg,
    pub arith_op: ArithOp,
    pub arg1: Seq<char>,
    pub arg2: Option<i32>,
}

impl SourceLine {
    pub open spec fn view(&self) -> CmdView {
        CmdView {
            cmd_type: self.cmd_type,
            mem_seg: self.mem_seg,
            arith_op: self.arith_op,
            arg1: self.args.arg1@,
            arg2: self.args.arg2,
        }
    }

    pub fn new(source: &str, args: Args, mem_seg: MemSeg, arith_op: ArithOp, cmd_type: CommandType) -> (r: Self)
        ensures
            r.source@ == source@,
            r.args == args,
            r.mem_seg == mem_seg,
            r.arith_op == arith_op,
            r.cmd_type == cmd_type,
    {
        SourceLine { source: String::from_str(source), args, mem_seg, arith_op, cmd_type }
    }
}

/// Why a line cannot be translated.
#[derive(Clone, Copy, Debug, PartialEq, Eq, Structural)]
pub enum ErrorKind {
    /// The number of words or the first word fits no command.
    MalformedLine,
    /// A push or pop names no segment that it can use.
    UnrecognizedSegment,
    /// A one-word line names no operator.
    UnrecognizedOperator,
    /// A command that needs an index or a count has none.
    MissingArgument,
    /// An index or count is not a decimal number that fits in an `i32`, or
    /// is out of range for its segment (a pointer index other than 0 or 1).
    InvalidNumericArgument,
    /// The unit's label counter cannot grow any further.
    LabelSpaceExhausted,
}

/// A translation failure, with the file and the line it happened on.
#[derive(Debug)]
pub struct TranslateError {
    pub kind: ErrorKind,
    pub file: String,
    /// The normalized text of the line.
    pub line: String,
    /// The line's number in its file, counting from 1.
    pub line_num: usize,
}

} // verus!
