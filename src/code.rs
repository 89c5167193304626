//! Dispatch from a classified command to its fragment.
use vstd::prelude::*;
use crate::codegen::{
    comment_text, end_label, ret_label, static_name, true_label, Asm, AsmGen,
};
use crate::frags::{
    binary_ins, call_fragment, cmp_ins, func_ins, goto_ins, if_goto_ins, label_ins, pop_seg_ins,
    pop_value_ins, push_const_ins, push_seg_ins, push_value_ins, return_ins, unary_ins,
};
use crate::hack::{render_all, text_of, BasePtr, Comp, Ins, Operand};
use crate::line::{ArithOp, CmdView, CommandType, ErrorKind, MemSeg, SourceLine};

verus! {

/// How many labels the command draws from the unit's counter.
pub open spec fn label_cost(c: CmdView) -> int {
    if c.cmd_type == CommandType::CALL {
        1
    } else if c.cmd_type == CommandType::ARITHMETIC && (c.arith_op == ArithOp::EQ || c.arith_op
        == ArithOp::GT || c.arith_op == ArithOp::LT) {
        2
    } else {
        0
    }
}

/// Why the index or count of a command cannot be used, if it cannot.
pub open spec fn index_error(c: CmdView) -> Option<ErrorKind> {
    match c.arg2 {
        None => Some(ErrorKind::MissingArgument),
        Some(n) => if n < 0 { Some(ErrorKind::InvalidNumericArgument) } else { None },
    }
}

pub open spec fn seg_ptr(s: MemSeg) -> BasePtr {
    match s {
        MemSeg::LCL => BasePtr::Lcl,
        MemSeg::ARG => BasePtr::Arg,
        MemSeg::THIS => BasePtr::This,
        _ => BasePtr::That,
    }
}

pub open spec fn is_based(s: MemSeg) -> bool {
    s == MemSeg::LCL || s == MemSeg::ARG || s == MemSeg::THIS || s == MemSeg::THAT
}

/// The instructions of a push or pop, `push` telling which, once the segment
/// and index are known to be usable.
pub open spec fn mem_ins(file: Seq<char>, c: CmdView, push: bool) -> Result<Seq<Ins>, ErrorKind> {
    let n = c.arg2.unwrap() as nat;
    if c.mem_seg == MemSeg::NONE || (!push && c.mem_seg == MemSeg::CONST) {
        Err(ErrorKind::UnrecognizedSegment)
    } else if index_error(c) is Some {
        Err(index_error(c).unwrap())
    } else if c.mem_seg == MemSeg::CONST {
        Ok(push_const_ins(n))
    } else if c.mem_seg == MemSeg::PTR && n > 1 {
        Err(ErrorKind::InvalidNumericArgument)
    } else {
        let o = if c.mem_seg == MemSeg::PTR {
            Operand::Ptr(if n == 0 { BasePtr::This } else { BasePtr::That })
        } else if c.mem_seg == MemSeg::TEMP {
            Operand::Reg(n + 5)
        } else {
            Operand::Sym(static_name(file, n))
        };
        if is_based(c.mem_seg) {
            Ok(if push { push_seg_ins(n, seg_ptr(c.mem_seg)) } else { pop_seg_ins(n, seg_ptr(c.mem_seg)) })
        } else {
            Ok(if push { push_value_ins(o) } else { pop_value_ins(o) })
        }
    }
}

pub open spec fn arith_ins(k: nat, op: ArithOp) -> Result<Seq<Ins>, ErrorKind> {
    match op {
        ArithOp::ADD => Ok(binary_ins(Comp::MgetsDplusM)),
        ArithOp::SUB => Ok(binary_ins(Comp::MgetsMminusD)),
        ArithOp::AND => Ok(binary_ins(Comp::MgetsDandM)),
        ArithOp::OR => Ok(binary_ins(Comp::MgetsDorM)),
        ArithOp::NEG => Ok(unary_ins(Comp::MgetsNegD)),
        ArithOp::NOT => Ok(unary_ins(Comp::MgetsNotD)),
        ArithOp::EQ => Ok(cmp_ins(true_label(k + 1), end_label(k + 2), Comp::JumpEq)),
        ArithOp::GT => Ok(cmp_ins(true_label(k + 1), end_label(k + 2), Comp::JumpGt)),
        ArithOp::LT => Ok(cmp_ins(true_label(k + 1), end_label(k + 2), Comp::JumpLt)),
        ArithOp::NONE => Err(ErrorKind::UnrecognizedOperator),
    }
}

/// The instructions of command `c` in unit `file` when the label counter
/// stands at `k`, or the reason it has none.
pub open spec fn command_ins(file: Seq<char>, k: nat, c: CmdView) -> Result<Seq<Ins>, ErrorKind> {
    match c.cmd_type {
        CommandType::ARITHMETIC => arith_ins(k, c.arith_op),
        CommandType::PUSH => mem_ins(file, c, true),
        CommandType::POP => mem_ins(file, c, false),
        CommandType::LABEL => Ok(label_ins(c.arg1)),
        CommandType::GOTO => Ok(goto_ins(c.arg1)),
        CommandType::IF => Ok(if_goto_ins(c.arg1)),
        CommandType::FUNCTION => if index_error(c) is Some {
            Err(index_error(c).unwrap())
        } else {
            Ok(func_ins(c.arg1, c.arg2.unwrap() as nat))
        },
        CommandType::CALL => if index_error(c) is Some {
            Err(index_error(c).unwrap())
        } else {
            Ok(call_fragment(ret_label(file, k + 1), c.arg2.unwrap() as nat, c.arg1))
        },
        CommandType::RETURN => Ok(return_ins()),
        CommandType::UNKOWN => Err(ErrorKind::MalformedLine),
    }
}

/// Generates the fragments of the commands of a unit.
pub struct Code {
    pub asm_gen: AsmGen,
}

impl Code {
    pub open spec fn wf(&self) -> bool {
        self.asm_gen.lbl_idx >= 0 && self.ready()
    }

    /// The templates are in place.
    pub closed spec fn ready(&self) -> bool {
        self.asm_gen.wf()
    }

    pub fn new(filename: &str) -> (r: Self)
        ensures
            r.wf(),
            r.asm_gen.filename@ == filename@,
            r.asm_gen.lbl_idx == 0,
    {
        Code { asm_gen: AsmGen::new(filename) }
    }

    /// Starts the next file of the unit; the label counter goes on.
    pub fn set_filename(&mut self, filename: &str)
        requires
            old(self).wf(),
        ensures
            final(self).wf(),
            final(self).asm_gen.filename@ == filename@,
            final(self).asm_gen.lbl_idx == old(self).asm_gen.lbl_idx,
    {
        self.asm_gen.set_filename(filename);
    }

    /// The bootstrap fragment.
    pub fn gen_init_asm(&mut self) -> (frag: Asm)
        requires
            old(self).wf(),
            old(self).asm_gen.lbl_idx < i32::MAX,
        ensures
            final(self).wf(),
            final(self).asm_gen.filename == old(self).asm_gen.filename,
            final(self).asm_gen.lbl_idx == old(self).asm_gen.lbl_idx + 1,
            frag.comment@ == crate::codegen::bootstrap_comment(),
            text_of(frag.lines@) == render_all(
                crate::frags::init_ins() + crate::frags::call_fragment(
                    ret_label(old(self).asm_gen.filename@, final(self).asm_gen.lbl_idx as nat),
                    0,
                    crate::codegen::entry_function(),
                ),
            ),
    {
        self.asm_gen.gen_init_asm()
    }

    /// The fragment of one command, or why it has none.
    pub fn gen_asm(&mut self, source: &SourceLine) -> (r: Result<Asm, ErrorKind>)
        requires
            old(self).wf(),
            old(self).asm_gen.lbl_idx < i32::MAX - 1,
        ensures
            final(self).wf(),
            final(self).asm_gen.filename == old(self).asm_gen.filename,
            ({
                let res = command_ins(
                    old(self).asm_gen.filename@,
                    old(self).asm_gen.lbl_idx as nat,
                    source.view(),
                );
                match r {
                    Ok(frag) => {
                        &&& res is Ok
                        &&& text_of(frag.lines@) == render_all(res->Ok_0)
                        &&& frag.comment@ == comment_text(source.source@)
                        &&& final(self).asm_gen.lbl_idx == old(self).asm_gen.lbl_idx + label_cost(
                            source.view(),
                        )
                    },
                    Err(e) => res == Err::<Seq<Ins>, ErrorKind>(e) && final(self).asm_gen.lbl_idx
                        == old(self).asm_gen.lbl_idx,
                }
            }),
    {
        match source.cmd_type {
            CommandType::ARITHMETIC => self.gen_arith_asm(source),
            CommandType::PUSH => self.gen_push_asm(source),
            CommandType::POP => self.gen_pop_asm(source),
            CommandType::IF => Ok(self.asm_gen.gen_if_asm(source)),
            CommandType::GOTO => Ok(self.asm_gen.gen_goto_asm(source)),
            CommandType::LABEL => Ok(self.asm_gen.gen_label_asm(source)),
            CommandType::CALL => match check_index(source) {
                Some(e) => Err(e),
                None => Ok(self.asm_gen.gen_call_asm(source)),
            },
            CommandType::FUNCTION => match check_index(source) {
                Some(e) => Err(e),
                None => Ok(self.asm_gen.gen_func_asm(source)),
            },
            CommandType::RETURN => Ok(self.asm_gen.gen_ret_asm(source)),
            CommandType::UNKOWN => Err(ErrorKind::MalformedLine),
        }
    }

    fn gen_arith_asm(&mut self, source: &SourceLine) -> (r: Result<Asm, ErrorKind>)
        requires
            old(self).wf(),
            old(self).asm_gen.lbl_idx < i32::MAX - 1,
            source.cmd_type == CommandType::ARITHMETIC,
        ensures
            final(self).wf(),
            final(self).asm_gen.filename == old(self).asm_gen.filename,
            ({
                let res = arith_ins(old(self).asm_gen.lbl_idx as nat, source.arith_op);
                match r {
                    Ok(frag) => {
                        &&& res is Ok
                        &&& text_of(frag.lines@) == render_all(res->Ok_0)
                        &&& frag.comment@ == comment_text(source.source@)
                        &&& final(self).asm_gen.lbl_idx == old(self).asm_gen.lbl_idx + label_cost(
                            source.view(),
                        )
                    },
                    Err(e) => res == Err::<Seq<Ins>, ErrorKind>(e) && final(self).asm_gen.lbl_idx
                        == old(self).asm_gen.lbl_idx,
                }
            }),
    {
        match source.arith_op {
            ArithOp::ADD => Ok(self.asm_gen.gen_add(source)),
            ArithOp::SUB => Ok(self.asm_gen.gen_sub(source)),
            ArithOp::NEG => Ok(self.asm_gen.gen_neg(source)),
            ArithOp::EQ => Ok(self.asm_gen.gen_eq(source)),
            ArithOp::GT => Ok(self.asm_gen.gen_gt(source)),
            ArithOp::LT => Ok(self.asm_gen.gen_lt(source)),
            ArithOp::AND => Ok(self.asm_gen.gen_and(source)),
            ArithOp::OR => Ok(self.asm_gen.gen_or(source)),
            ArithOp::NOT => Ok(self.asm_gen.gen_not(source)),
            ArithOp::NONE => Err(ErrorKind::UnrecognizedOperator),
        }
    }

    fn gen_push_asm(&mut self, source: &SourceLine) -> (r: Result<Asm, ErrorKind>)
        requires
            old(self).wf(),
            source.cmd_type == CommandType::PUSH,
        ensures
            *final(self) == *old(self),
            ({
                let res = mem_ins(old(self).asm_gen.filename@, source.view(), true);
                match r {
                    Ok(frag) => {
                        &&& res is Ok
                        &&& text_of(frag.lines@) == render_all(res->Ok_0)
                        &&& frag.comment@ == comment_text(source.source@)
                    },
                    Err(e) => res == Err::<Seq<Ins>, ErrorKind>(e),
                }
            }),
    {
        if source.mem_seg == MemSeg::NONE {
            return Err(ErrorKind::UnrecognizedSegment);
        }
        if let Some(e) = check_index(source) {
            return Err(e);
        }
        let n = match source.args.arg2 {
            Some(n) => n,
            None => 0,
        };
        match source.mem_seg {
            MemSeg::CONST => Ok(self.asm_gen.gen_push_const(source, n)),
            MemSeg::LCL => Ok(self.asm_gen.gen_push(source, BasePtr::Lcl)),
            MemSeg::ARG => Ok(self.asm_gen.gen_push(source, BasePtr::Arg)),
            MemSeg::THIS => Ok(self.asm_gen.gen_push(source, BasePtr::This)),
            MemSeg::THAT => Ok(self.asm_gen.gen_push(source, BasePtr::That)),
            MemSeg::PTR => if n > 1 {
                Err(ErrorKind::InvalidNumericArgument)
            } else {
                Ok(self.asm_gen.gen_push_ptr(source))
            },
            MemSeg::TEMP => Ok(self.asm_gen.gen_push_temp(source)),
            _ => Ok(self.asm_gen.gen_push_static(source)),
        }
    }

    pub fn gen_pop_asm(&mut self, source: &SourceLine) -> (r: Result<Asm, ErrorKind>)
        requires
            old(self).wf(),
            source.cmd_type == CommandType::POP,
        ensures
            *final(self) == *old(self),
            ({
                let res = mem_ins(old(self).asm_gen.filename@, source.view(), false);
                match r {
                    Ok(frag) => {
                        &&& res is Ok
                        &&& text_of(frag.lines@) == render_all(res->Ok_0)
                        &&& frag.comment@ == comment_text(source.source@)
                    },
                    Err(e) => res == Err::<Seq<Ins>, ErrorKind>(e),
                }
            }),
    {
        if source.mem_seg == MemSeg::NONE || source.mem_seg == MemSeg::CONST {
            return Err(ErrorKind::UnrecognizedSegment);
        }
        if let Some(e) = check_index(source) {
            return Err(e);
        }
        let n = match source.args.arg2 {
            Some(n) => n,
            None => 0,
        };
        match source.mem_seg {
            MemSeg::LCL => Ok(self.asm_gen.gen_pop(source, BasePtr::Lcl)),
            MemSeg::ARG => Ok(self.asm_gen.gen_pop(source, BasePtr::Arg)),
            MemSeg::THIS => Ok(self.asm_gen.gen_pop(source, BasePtr::This)),
            MemSeg::THAT => Ok(self.asm_gen.gen_pop(source, BasePtr::That)),
            MemSeg::PTR => if n > 1 {
                Err(ErrorKind::InvalidNumericArgument)
            } else {
                Ok(self.asm_gen.gen_pop_ptr(source))
            },
            MemSeg::TEMP => Ok(self.asm_gen.gen_pop_temp(source)),
            _ => Ok(self.asm_gen.gen_pop_static(source)),
        }
    }
}

fn check_index(source: &SourceLine) -> (r: Option<ErrorKind>)
    ensures
        r == index_error(source.view()),
{
    match source.args.arg2 {
        None => Some(ErrorKind::MissingArgument),
        Some(n) => if n < 0 {
            Some(ErrorKind::InvalidNumericArgument)
        } else {
            None
        },
    }
}

} // verus!
