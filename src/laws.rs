//! What the generated code does on the machine model, and the laws of the
//! translation.
use vstd::prelude::*;
use crate::frags::{
    call_fragment, call_ins, push_const_ins, return_ins, enter_ins, pop_d, push_addr_ins, push_d, push_value_ins, restore_ins, ret_head_ins,
    ret_jump_ins, ret_value_ins, set_arg_ins, set_lcl_ins,
};
use crate::code::{command_ins, label_cost};
use crate::codegen::{end_label, static_name, true_label};
use crate::frags::{binary_ins, cmp_ins, func_ins, locals_ins, push_local_zero_ins};
use crate::hack::{
    dec, digit_char, lemma_run_append, lemma_run_next, lemma_run_whole, operand_value, ptr_addr, run,
    word, BasePtr, Comp, Ins, Machine, Operand,
};
use crate::line::{ArithOp, CmdView, CommandType};
use crate::parser::{dec_value, digit_val, view_of};
use crate::unit::{base_name, counter_at, is_source, last_dot, line_cost, line_result, stem};

verus! {

pub proof fn lemma_push_d(m: Machine, syms: spec_fn(Seq<char>) -> int)
    requires
        16 <= (m.ram)(0) < 65535,
    ensures
        ({
            let r = run(m, push_d(), syms);
            &&& (r.ram)(0) == (m.ram)(0) + 1
            &&& (r.ram)((m.ram)(0)) == m.d
            &&& forall|i: int| i != 0 && i != (m.ram)(0) ==> #[trigger] (r.ram)(i) == (m.ram)(i)
            &&& r.d == m.d
            &&& r.jump == m.jump
        }),
{
    let p = push_d();
    lemma_run_whole(m, p, syms);
    lemma_run_next(m, p, 0, syms);
    lemma_run_next(m, p, 1, syms);
    lemma_run_next(m, p, 2, syms);
    lemma_run_next(m, p, 3, syms);
    lemma_run_next(m, p, 4, syms);
}

/// `D = the value that o loads`.
pub proof fn lemma_load_addr(m: Machine, o: Operand, syms: spec_fn(Seq<char>) -> int)
    ensures
        ({
            let r = run(m, seq![Ins::At(o), Ins::Op(Comp::DgetsA)], syms);
            &&& r.d == operand_value(o, syms)
            &&& r.ram == m.ram
            &&& r.jump == m.jump
        }),
{
    let p = seq![Ins::At(o), Ins::Op(Comp::DgetsA)];
    lemma_run_whole(m, p, syms);
    lemma_run_next(m, p, 0, syms);
    lemma_run_next(m, p, 1, syms);
}

/// `D = *(the value that o loads)`.
pub proof fn lemma_load_value(m: Machine, o: Operand, syms: spec_fn(Seq<char>) -> int)
    ensures
        ({
            let r = run(m, seq![Ins::At(o), Ins::Op(Comp::DgetsM)], syms);
            &&& r.d == (m.ram)(operand_value(o, syms))
            &&& r.ram == m.ram
            &&& r.jump == m.jump
        }),
{
    let p = seq![Ins::At(o), Ins::Op(Comp::DgetsM)];
    lemma_run_whole(m, p, syms);
    lemma_run_next(m, p, 0, syms);
    lemma_run_next(m, p, 1, syms);
}

/// Pushes the value that `o` loads.
pub proof fn lemma_push_addr(m: Machine, o: Operand, syms: spec_fn(Seq<char>) -> int)
    requires
        16 <= (m.ram)(0) < 65535,
    ensures
        ({
            let r = run(m, push_addr_ins(o), syms);
            &&& (r.ram)(0) == (m.ram)(0) + 1
            &&& (r.ram)((m.ram)(0)) == operand_value(o, syms)
            &&& forall|i: int| i != 0 && i != (m.ram)(0) ==> #[trigger] (r.ram)(i) == (m.ram)(i)
            &&& r.jump == m.jump
        }),
{
    let h = seq![Ins::At(o), Ins::Op(Comp::DgetsA)];
    lemma_run_append(m, h, push_d(), syms);
    lemma_load_addr(m, o, syms);
    lemma_push_d(run(m, h, syms), syms);
}

/// Pushes the word at the address that `o` loads.
pub proof fn lemma_push_value(m: Machine, o: Operand, syms: spec_fn(Seq<char>) -> int)
    requires
        16 <= (m.ram)(0) < 65535,
    ensures
        ({
            let r = run(m, push_value_ins(o), syms);
            &&& (r.ram)(0) == (m.ram)(0) + 1
            &&& (r.ram)((m.ram)(0)) == (m.ram)(operand_value(o, syms))
            &&& forall|i: int| i != 0 && i != (m.ram)(0) ==> #[trigger] (r.ram)(i) == (m.ram)(i)
            &&& r.jump == m.jump
        }),
{
    let h = seq![Ins::At(o), Ins::Op(Comp::DgetsM)];
    lemma_run_append(m, h, push_d(), syms);
    lemma_load_value(m, o, syms);
    lemma_push_d(run(m, h, syms), syms);
}

/// `ARG = SP - n - 5`.
pub proof fn lemma_set_arg(m: Machine, n: nat, syms: spec_fn(Seq<char>) -> int)
    requires
        n + 5 <= (m.ram)(0) < 65536,
    ensures
        ({
            let r = run(m, set_arg_ins(n), syms);
            &&& (r.ram)(2) == (m.ram)(0) - n - 5
            &&& forall|i: int| i != 2 ==> #[trigger] (r.ram)(i) == (m.ram)(i)
            &&& r.jump == m.jump
        }),
{
    let p = set_arg_ins(n);
    lemma_run_whole(m, p, syms);
    lemma_run_next(m, p, 0, syms);
    lemma_run_next(m, p, 1, syms);
    lemma_run_next(m, p, 2, syms);
    lemma_run_next(m, p, 3, syms);
    lemma_run_next(m, p, 4, syms);
    lemma_run_next(m, p, 5, syms);
    lemma_run_next(m, p, 6, syms);
    lemma_run_next(m, p, 7, syms);
}

/// `LCL = SP`.
pub proof fn lemma_set_lcl(m: Machine, syms: spec_fn(Seq<char>) -> int)
    ensures
        ({
            let r = run(m, set_lcl_ins(), syms);
            &&& (r.ram)(1) == (m.ram)(0)
            &&& forall|i: int| i != 1 ==> #[trigger] (r.ram)(i) == (m.ram)(i)
            &&& r.jump == m.jump
        }),
{
    let p = set_lcl_ins();
    lemma_run_whole(m, p, syms);
    lemma_run_next(m, p, 0, syms);
    lemma_run_next(m, p, 1, syms);
    lemma_run_next(m, p, 2, syms);
    lemma_run_next(m, p, 3, syms);
}

pub proof fn lemma_enter(m: Machine, f: Seq<char>, ret: Seq<char>, syms: spec_fn(Seq<char>) -> int)
    ensures
        ({
            let r = run(m, enter_ins(f, ret), syms);
            &&& r.ram == m.ram
            &&& r.jump == Some(syms(f))
        }),
{
    let p = enter_ins(f, ret);
    lemma_run_whole(m, p, syms);
    lemma_run_next(m, p, 0, syms);
    lemma_run_next(m, p, 1, syms);
    lemma_run_next(m, p, 2, syms);
}

/// `SP = SP - 1; D = *SP`.
pub proof fn lemma_pop_d(m: Machine, syms: spec_fn(Seq<char>) -> int)
    requires
        17 <= (m.ram)(0) < 65536,
    ensures
        ({
            let r = run(m, pop_d(), syms);
            &&& (r.ram)(0) == (m.ram)(0) - 1
            &&& r.d == (m.ram)((m.ram)(0) - 1)
            &&& forall|i: int| i != 0 ==> #[trigger] (r.ram)(i) == (m.ram)(i)
            &&& r.jump == m.jump
        }),
{
    let p = pop_d();
    lemma_run_whole(m, p, syms);
    lemma_run_next(m, p, 0, syms);
    lemma_run_next(m, p, 1, syms);
    lemma_run_next(m, p, 2, syms);
    lemma_run_next(m, p, 3, syms);
}

/// `R13 = LCL; R14 = *(LCL - 5)`.
pub proof fn lemma_ret_head(m: Machine, syms: spec_fn(Seq<char>) -> int)
    requires
        21 <= (m.ram)(1) < 65536,
    ensures
        ({
            let r = run(m, ret_head_ins(), syms);
            &&& (r.ram)(13) == (m.ram)(1)
            &&& (r.ram)(14) == (m.ram)((m.ram)(1) - 5)
            &&& forall|i: int| i != 13 && i != 14 ==> #[trigger] (r.ram)(i) == (m.ram)(i)
            &&& r.jump == m.jump
        }),
{
    let p = ret_head_ins();
    lemma_run_whole(m, p, syms);
    lemma_run_next(m, p, 0, syms);
    lemma_run_next(m, p, 1, syms);
    lemma_run_next(m, p, 2, syms);
    lemma_run_next(m, p, 3, syms);
    lemma_run_next(m, p, 4, syms);
    lemma_run_next(m, p, 5, syms);
    lemma_run_next(m, p, 6, syms);
    lemma_run_next(m, p, 7, syms);
    lemma_run_next(m, p, 8, syms);
}

/// `*ARG = D; SP = ARG + 1`.
pub proof fn lemma_ret_store(m: Machine, syms: spec_fn(Seq<char>) -> int)
    requires
        16 <= (m.ram)(2) < 65535,
    ensures
        ({
            let r = run(m, ret_value_ins().subrange(4, 11), syms);
            &&& (r.ram)((m.ram)(2)) == m.d
            &&& (r.ram)(0) == (m.ram)(2) + 1
            &&& forall|i: int| i != 0 && i != (m.ram)(2) ==> #[trigger] (r.ram)(i) == (m.ram)(i)
            &&& r.jump == m.jump
        }),
{
    let p = ret_value_ins().subrange(4, 11);
    lemma_run_whole(m, p, syms);
    lemma_run_next(m, p, 0, syms);
    lemma_run_next(m, p, 1, syms);
    lemma_run_next(m, p, 2, syms);
    lemma_run_next(m, p, 3, syms);
    lemma_run_next(m, p, 4, syms);
    lemma_run_next(m, p, 5, syms);
    lemma_run_next(m, p, 6, syms);
}

/// `p = *(--R13)`.
pub proof fn lemma_restore(m: Machine, b: BasePtr, syms: spec_fn(Seq<char>) -> int)
    requires
        17 <= (m.ram)(13) < 65536,
    ensures
        ({
            let r = run(m, restore_ins(b), syms);
            &&& (r.ram)(13) == (m.ram)(13) - 1
            &&& (r.ram)(ptr_addr(b)) == (m.ram)((m.ram)(13) - 1)
            &&& forall|i: int| i != 13 && i != ptr_addr(b) ==> #[trigger] (r.ram)(i) == (m.ram)(i)
            &&& r.jump == m.jump
        }),
{
    let p = restore_ins(b);
    lemma_run_whole(m, p, syms);
    lemma_run_next(m, p, 0, syms);
    lemma_run_next(m, p, 1, syms);
    lemma_run_next(m, p, 2, syms);
    lemma_run_next(m, p, 3, syms);
    lemma_run_next(m, p, 4, syms);
    lemma_run_next(m, p, 5, syms);
}

/// Jumps to the address in R14.
pub proof fn lemma_ret_jump(m: Machine, syms: spec_fn(Seq<char>) -> int)
    ensures
        ({
            let r = run(m, ret_jump_ins(), syms);
            &&& r.ram == m.ram
            &&& r.jump == Some((m.ram)(14))
        }),
{
    let p = ret_jump_ins();
    lemma_run_whole(m, p, syms);
    lemma_run_next(m, p, 0, syms);
    lemma_run_next(m, p, 1, syms);
    lemma_run_next(m, p, 2, syms);
}

/// What a call does: the frame (return address, LCL, ARG, THIS, THAT) is
/// pushed, ARG points `n` words below it, LCL and SP just above it, and
/// control goes to `f`.
pub proof fn lemma_call(m: Machine, ret: Seq<char>, n: nat, f: Seq<char>, syms: spec_fn(Seq<char>) -> int)
    requires
        16 <= (m.ram)(0) < 65530,
        n <= (m.ram)(0),
    ensures
        ({
            let s = (m.ram)(0);
            let r = run(m, call_ins(ret, n, f), syms);
            &&& (r.ram)(0) == s + 5
            &&& (r.ram)(1) == s + 5
            &&& (r.ram)(2) == s - n
            &&& (r.ram)(3) == (m.ram)(3)
            &&& (r.ram)(4) == (m.ram)(4)
            &&& (r.ram)(s) == syms(ret)
            &&& (r.ram)(s + 1) == (m.ram)(1)
            &&& (r.ram)(s + 2) == (m.ram)(2)
            &&& (r.ram)(s + 3) == (m.ram)(3)
            &&& (r.ram)(s + 4) == (m.ram)(4)
            &&& forall|i: int| 4 < i && !(s <= i < s + 5) ==> #[trigger] (r.ram)(i) == (m.ram)(i)
            &&& r.jump == Some(syms(f))
        }),
{
    let a = push_addr_ins(Operand::Sym(ret));
    let b = push_value_ins(Operand::Ptr(BasePtr::Lcl));
    let c = push_value_ins(Operand::Ptr(BasePtr::Arg));
    let d = push_value_ins(Operand::Ptr(BasePtr::This));
    let e = push_value_ins(Operand::Ptr(BasePtr::That));
    let g = set_arg_ins(n);
    let h = set_lcl_ins();
    let j = enter_ins(f, ret);
    lemma_run_append(m, a + b + c + d + e + g + h, j, syms);
    lemma_run_append(m, a + b + c + d + e + g, h, syms);
    lemma_run_append(m, a + b + c + d + e, g, syms);
    lemma_run_append(m, a + b + c + d, e, syms);
    lemma_run_append(m, a + b + c, d, syms);
    lemma_run_append(m, a + b, c, syms);
    lemma_run_append(m, a, b, syms);
    let m1 = run(m, a, syms);
    lemma_push_addr(m, Operand::Sym(ret), syms);
    let m2 = run(m1, b, syms);
    lemma_push_value(m1, Operand::Ptr(BasePtr::Lcl), syms);
    let m3 = run(m2, c, syms);
    lemma_push_value(m2, Operand::Ptr(BasePtr::Arg), syms);
    let m4 = run(m3, d, syms);
    lemma_push_value(m3, Operand::Ptr(BasePtr::This), syms);
    let m5 = run(m4, e, syms);
    lemma_push_value(m4, Operand::Ptr(BasePtr::That), syms);
    let m6 = run(m5, g, syms);
    lemma_set_arg(m5, n, syms);
    let m7 = run(m6, h, syms);
    lemma_set_lcl(m6, syms);
    lemma_enter(m7, f, ret, syms);
}

/// What a return does, given a frame that a call left below LCL and the
/// return value on top of the stack.
pub proof fn lemma_return(m: Machine, syms: spec_fn(Seq<char>) -> int)
    requires
        21 <= (m.ram)(1) < (m.ram)(0) < 65536,
        16 <= (m.ram)(2) < (m.ram)(1) - 5,
    ensures
        ({
            let l = (m.ram)(1);
            let r = run(m, return_ins(), syms);
            &&& (r.ram)(0) == (m.ram)(2) + 1
            &&& (r.ram)((m.ram)(2)) == (m.ram)((m.ram)(0) - 1)
            &&& (r.ram)(1) == (m.ram)(l - 4)
            &&& (r.ram)(2) == (m.ram)(l - 3)
            &&& (r.ram)(3) == (m.ram)(l - 2)
            &&& (r.ram)(4) == (m.ram)(l - 1)
            &&& r.jump == Some((m.ram)(l - 5))
        }),
{
    let l = (m.ram)(1);
    let hd = ret_head_ins();
    let st = ret_value_ins().subrange(4, 11);
    assert(ret_value_ins() =~= pop_d() + st);
    let t1 = restore_ins(BasePtr::That);
    let t2 = restore_ins(BasePtr::This);
    let t3 = restore_ins(BasePtr::Arg);
    let t4 = restore_ins(BasePtr::Lcl);
    let jm = ret_jump_ins();
    assert(return_ins() == hd + (pop_d() + st) + t1 + t2 + t3 + t4 + jm);
    lemma_run_append(m, hd + (pop_d() + st) + t1 + t2 + t3 + t4, jm, syms);
    lemma_run_append(m, hd + (pop_d() + st) + t1 + t2 + t3, t4, syms);
    lemma_run_append(m, hd + (pop_d() + st) + t1 + t2, t3, syms);
    lemma_run_append(m, hd + (pop_d() + st) + t1, t2, syms);
    lemma_run_append(m, hd + (pop_d() + st), t1, syms);
    lemma_run_append(m, hd, pop_d() + st, syms);
    let m1 = run(m, hd, syms);
    lemma_ret_head(m, syms);
    lemma_run_append(m1, pop_d(), st, syms);
    let m2 = run(m1, pop_d(), syms);
    lemma_pop_d(m1, syms);
    let m3 = run(m2, st, syms);
    lemma_ret_store(m2, syms);
    let m4 = run(m3, t1, syms);
    lemma_restore(m3, BasePtr::That, syms);
    let m5 = run(m4, t2, syms);
    lemma_restore(m4, BasePtr::This, syms);
    let m6 = run(m5, t3, syms);
    lemma_restore(m5, BasePtr::Arg, syms);
    let m7 = run(m6, t4, syms);
    lemma_restore(m6, BasePtr::Lcl, syms);
    lemma_ret_jump(m7, syms);
}

/// `push constant k` leaves exactly `k` on top of a stack one word higher,
/// and its first line loads `k` literally.
pub proof fn lemma_push_constant(m: Machine, k: nat, syms: spec_fn(Seq<char>) -> int)
    requires
        k < 32768,
        16 <= (m.ram)(0) < 65535,
    ensures
        push_const_ins(k)[0] == Ins::At(Operand::Num(k)),
        ({
            let r = run(m, push_const_ins(k), syms);
            &&& (r.ram)(0) == (m.ram)(0) + 1
            &&& (r.ram)((m.ram)(0)) == k
            &&& forall|i: int| i != 0 && i != (m.ram)(0) ==> #[trigger] (r.ram)(i) == (m.ram)(i)
        }),
{
    lemma_push_addr(m, Operand::Num(k), syms);
}

/// Frame symmetry of calls: run a call of `f` with `n` arguments on top of
/// the stack, then any body that keeps LCL, ARG and the saved frame and
/// leaves its return value on top of the stack, then a return. The caller's
/// stack ends with exactly one new word, the return value, where the
/// arguments began; LCL, ARG, THIS and THAT are restored; control goes to
/// the return label. The callee saw its arguments (or, with none, the slot
/// reserved for the result) at ARG.
pub proof fn lemma_call_return_frame(
    m0: Machine,
    ret: Seq<char>,
    n: nat,
    f: Seq<char>,
    body: Machine,
    syms: spec_fn(Seq<char>) -> int,
)
    requires
        n + 16 <= (m0.ram)(0) < 65528,
        ({
            let m1 = run(m0, call_fragment(ret, n, f), syms);
            &&& (body.ram)(1) == (m1.ram)(1)
            &&& (body.ram)(2) == (m1.ram)(2)
            &&& forall|i: int| (m1.ram)(1) - 5 <= i < (m1.ram)(1) ==> #[trigger] (body.ram)(i) == (m1.ram)(i)
            &&& (m1.ram)(1) < (body.ram)(0) < 65536
        }),
    ensures
        ({
            let base = (m0.ram)(0) - n;
            let m1 = run(m0, call_fragment(ret, n, f), syms);
            let m3 = run(body, return_ins(), syms);
            &&& m1.jump == Some(syms(f))
            &&& (m1.ram)(2) == base
            &&& (m3.ram)(0) == base + 1
            &&& (m3.ram)(base) == (body.ram)((body.ram)(0) - 1)
            &&& (m3.ram)(1) == (m0.ram)(1)
            &&& (m3.ram)(2) == (m0.ram)(2)
            &&& (m3.ram)(3) == (m0.ram)(3)
            &&& (m3.ram)(4) == (m0.ram)(4)
            &&& m3.jump == Some(syms(ret))
        }),
{
    let s0 = (m0.ram)(0);
    let m1 = run(m0, call_fragment(ret, n, f), syms);
    if n == 0 {
        lemma_run_append(m0, push_const_ins(0), call_ins(ret, 1, f), syms);
        lemma_push_addr(m0, Operand::Num(0), syms);
        let ma = run(m0, push_const_ins(0), syms);
        lemma_call(ma, ret, 1, f, syms);
        assert((m1.ram)(1) == s0 + 6);
        assert((body.ram)(s0 + 1) == (m1.ram)(s0 + 1));
        assert((body.ram)(s0 + 2) == (m1.ram)(s0 + 2));
        assert((body.ram)(s0 + 3) == (m1.ram)(s0 + 3));
        assert((body.ram)(s0 + 4) == (m1.ram)(s0 + 4));
        assert((body.ram)(s0 + 5) == (m1.ram)(s0 + 5));
    } else {
        lemma_call(m0, ret, n, f, syms);
        assert((body.ram)(s0) == (m1.ram)(s0));
        assert((body.ram)(s0 + 1) == (m1.ram)(s0 + 1));
        assert((body.ram)(s0 + 2) == (m1.ram)(s0 + 2));
        assert((body.ram)(s0 + 3) == (m1.ram)(s0 + 3));
        assert((body.ram)(s0 + 4) == (m1.ram)(s0 + 4));
    }
    lemma_return(body, syms);
}

/// Replaces the two top words by their sum.
pub proof fn lemma_add(m: Machine, syms: spec_fn(Seq<char>) -> int)
    requires
        18 <= (m.ram)(0) < 65536,
        0 <= (m.ram)((m.ram)(0) - 1) < 65536,
        0 <= (m.ram)((m.ram)(0) - 2) < 65536,
    ensures
        ({
            let sp = (m.ram)(0);
            let r = run(m, binary_ins(Comp::MgetsDplusM), syms);
            &&& (r.ram)(0) == sp - 1
            &&& (r.ram)(sp - 2) == word((m.ram)(sp - 1) + (m.ram)(sp - 2))
            &&& forall|i: int| i != 0 && i != sp - 2 ==> #[trigger] (r.ram)(i) == (m.ram)(i)
        }),
{
    let t = binary_ins(Comp::MgetsDplusM).subrange(4, 10);
    assert(binary_ins(Comp::MgetsDplusM) =~= pop_d() + t);
    lemma_run_append(m, pop_d(), t, syms);
    lemma_pop_d(m, syms);
    let m1 = run(m, pop_d(), syms);
    let p = t;
    lemma_run_whole(m1, p, syms);
    lemma_run_next(m1, p, 0, syms);
    lemma_run_next(m1, p, 1, syms);
    lemma_run_next(m1, p, 2, syms);
    lemma_run_next(m1, p, 3, syms);
    lemma_run_next(m1, p, 4, syms);
    lemma_run_next(m1, p, 5, syms);
}

/// `push constant 7`, `push constant 8`, `add` leaves 15 on top of a stack
/// one word higher.
pub proof fn lemma_seven_plus_eight(m: Machine, syms: spec_fn(Seq<char>) -> int)
    requires
        16 <= (m.ram)(0) < 65530,
    ensures
        ({
            let r = run(m, push_const_ins(7) + push_const_ins(8) + binary_ins(Comp::MgetsDplusM), syms);
            &&& (r.ram)(0) == (m.ram)(0) + 1
            &&& (r.ram)((m.ram)(0)) == 15
        }),
{
    lemma_run_append(m, push_const_ins(7) + push_const_ins(8), binary_ins(Comp::MgetsDplusM), syms);
    lemma_run_append(m, push_const_ins(7), push_const_ins(8), syms);
    lemma_push_constant(m, 7, syms);
    let m1 = run(m, push_const_ins(7), syms);
    lemma_push_constant(m1, 8, syms);
    let m2 = run(m1, push_const_ins(8), syms);
    lemma_add(m2, syms);
}

pub proof fn lemma_dec_value_of_dec(n: nat)
    ensures
        dec_value(dec(n)) == n,
    decreases n,
{
    lemma_digit_val((n % 10) as nat);
    if n >= 10 {
        lemma_dec_value_of_dec(n / 10);
        let s = dec(n / 10).push(digit_char(n % 10));
        assert(s.drop_last() =~= dec(n / 10));
        assert(s.last() == digit_char(n % 10));
        assert(dec(n) == s);
        assert(dec_value(s) == dec_value(dec(n / 10)) * 10 + digit_val(digit_char(n % 10)));
        assert(n == (n / 10) * 10 + n % 10) by (nonlinear_arith);
    } else {
        assert(seq![digit_char(n)].drop_last() =~= Seq::<char>::empty());
        assert(dec_value(Seq::<char>::empty()) == 0);
        assert(n % 10 == n);
        assert(dec(n) == seq![digit_char(n)]);
        assert(dec_value(seq![digit_char(n)]) == digit_val(digit_char(n)));
    }
}

pub proof fn lemma_digit_val(d: nat)
    requires
        d < 10,
    ensures
        digit_val(digit_char(d)) == d,
{
}

/// Distinct numbers have distinct decimal texts.
pub proof fn lemma_dec_injective(a: nat, b: nat)
    requires
        a != b,
    ensures
        dec(a) != dec(b),
{
    lemma_dec_value_of_dec(a);
    lemma_dec_value_of_dec(b);
}

/// The labels of a comparison made with the counter at `k`: its "true"
/// label and its "end" label.
pub open spec fn cmp_labels(k: int) -> Seq<Seq<char>> {
    seq![true_label((k + 1) as nat), end_label((k + 2) as nat)]
}

pub open spec fn is_comparison(c: CmdView) -> bool {
    c.cmd_type == CommandType::ARITHMETIC && (c.arith_op == ArithOp::EQ || c.arith_op == ArithOp::GT
        || c.arith_op == ArithOp::LT)
}

/// No "true" label is an "end" label, and each kind is told apart by its
/// number.
pub proof fn lemma_label_texts(a: nat, b: nat)
    ensures
        true_label(a) != end_label(b),
        a != b ==> true_label(a) != true_label(b),
        a != b ==> end_label(a) != end_label(b),
{
    reveal_strlit("TRUE_");
    reveal_strlit("END_");
    assert(true_label(a)[0] == 'T');
    assert(end_label(b)[0] == 'E');
    if a != b {
        lemma_dec_injective(a, b);
        assert(true_label(a).subrange(5, true_label(a).len() as int) =~= dec(a));
        assert(true_label(b).subrange(5, true_label(b).len() as int) =~= dec(b));
        assert(end_label(a).subrange(4, end_label(a).len() as int) =~= dec(a));
        assert(end_label(b).subrange(4, end_label(b).len() as int) =~= dec(b));
    }
}

pub proof fn lemma_counter_mono(k0: int, cl: Seq<Seq<char>>, i: int, j: int)
    requires
        0 <= i <= j,
    ensures
        counter_at(k0, cl, i) <= counter_at(k0, cl, j),
    decreases j - i,
{
    if i < j {
        lemma_counter_mono(k0, cl, i, j - 1);
        reveal(line_cost);
    }
}

/// Within one translated file, whose commands draw on one label counter,
/// the labels of all comparisons are pairwise distinct: the two labels of
/// each comparison differ, and no label of one comparison is a label of
/// another. Each comparison's fragment declares exactly its two labels.
pub proof fn lemma_comparison_labels_unique(f: Seq<char>, k0: int, cl: Seq<Seq<char>>, i: int, j: int)
    requires
        0 <= k0,
        0 <= i < j < cl.len(),
        is_comparison(view_of(cl[i])),
        is_comparison(view_of(cl[j])),
    ensures
        ({
            let a = counter_at(k0, cl, i);
            let b = counter_at(k0, cl, j);
            &&& line_result(f, a as nat, cl[i]) is Ok ==> exists|c: Comp|
                line_result(f, a as nat, cl[i])->Ok_0 == cmp_ins(cmp_labels(a)[0], cmp_labels(a)[1], c)
            &&& cmp_labels(a)[0] != cmp_labels(a)[1]
            &&& forall|x: int, y: int|
                0 <= x < 2 && 0 <= y < 2 ==> #[trigger] cmp_labels(a)[x] != #[trigger] cmp_labels(b)[y]
        }),
{
    let a = counter_at(k0, cl, i);
    let b = counter_at(k0, cl, j);
    lemma_counter_mono(k0, cl, 0, i);
    lemma_counter_mono(k0, cl, i + 1, j);
    reveal(line_cost);
    assert(counter_at(k0, cl, i + 1) == a + 2);
    assert(b >= a + 2);
    lemma_label_texts((a + 1) as nat, (a + 2) as nat);
    lemma_label_texts((a + 1) as nat, (b + 2) as nat);
    lemma_label_texts((b + 1) as nat, (a + 2) as nat);
    lemma_label_texts((a + 1) as nat, (b + 1) as nat);
    lemma_label_texts((a + 2) as nat, (b + 2) as nat);
    reveal(line_result);
    let c = view_of(cl[i]);
    if line_result(f, a as nat, cl[i]) is Ok {
        let j = if c.arith_op == ArithOp::EQ { Comp::JumpEq } else if c.arith_op == ArithOp::GT { Comp::JumpGt } else { Comp::JumpLt };
        assert(line_result(f, a as nat, cl[i])->Ok_0 == cmp_ins(cmp_labels(a)[0], cmp_labels(a)[1], j));
    }
}

/// Across the files of a unit the counter goes on from where the previous
/// file left it: a comparison made at any later count `b` has labels
/// distinct from those of every comparison of an earlier file.
pub proof fn lemma_comparison_labels_across_files(k0: int, cl: Seq<Seq<char>>, i: int, b: int)
    requires
        0 <= k0,
        0 <= i < cl.len(),
        is_comparison(view_of(cl[i])),
        b >= counter_at(k0, cl, cl.len() as int),
    ensures
        forall|x: int, y: int|
            0 <= x < 2 && 0 <= y < 2 ==> #[trigger] cmp_labels(counter_at(k0, cl, i))[x]
                != #[trigger] cmp_labels(b)[y],
{
    let a = counter_at(k0, cl, i);
    lemma_counter_mono(k0, cl, 0, i);
    lemma_counter_mono(k0, cl, i + 1, cl.len() as int);
    reveal(line_cost);
    assert(counter_at(k0, cl, i + 1) == a + 2);
    lemma_label_texts((a + 1) as nat, (b + 2) as nat);
    lemma_label_texts((b + 1) as nat, (a + 2) as nat);
    lemma_label_texts((a + 1) as nat, (b + 1) as nat);
    lemma_label_texts((a + 2) as nat, (b + 2) as nat);
}

/// Static variables are scoped by unit: the same slot in two units with
/// different names is two different symbols.
pub proof fn lemma_static_names_unit_scoped(a: Seq<char>, b: Seq<char>, i: nat)
    requires
        a != b,
    ensures
        static_name(a, i) != static_name(b, i),
{
    if a.len() == b.len() {
        assert(static_name(a, i).subrange(0, a.len() as int) =~= a);
        assert(static_name(b, i).subrange(0, b.len() as int) =~= b);
    } else {
        assert(static_name(a, i).len() != static_name(b, i).len());
    }
}

/// The unit name of a source file is its file name without the extension.
pub proof fn lemma_source_stem(p: Seq<char>)
    requires
        is_source(base_name(p)),
    ensures
        base_name(p) == stem(p) + ".vm"@,
{
    reveal_strlit(".vm");
    let b = base_name(p);
    let n = b.len() as int;
    assert(b.subrange(n - 3, n) == ".vm"@);
    assert(b[n - 1] == b.subrange(n - 3, n)[2]);
    assert(b[n - 2] == b.subrange(n - 3, n)[1]);
    assert(b[n - 3] == b.subrange(n - 3, n)[0]);
    assert(last_dot(b, n - 2) == n - 3);
    assert(last_dot(b, n - 1) == n - 3);
    assert(last_dot(b, n) == n - 3);
    assert(b =~= stem(p) + ".vm"@);
}

/// Static variables of two source files with different file names are
/// different symbols, for every slot.
pub proof fn lemma_static_names_across_files(p: Seq<char>, q: Seq<char>, i: nat)
    requires
        base_name(p) != base_name(q),
        is_source(base_name(p)),
        is_source(base_name(q)),
    ensures
        stem(p) != stem(q),
        static_name(stem(p), i) != static_name(stem(q), i),
{
    lemma_source_stem(p);
    lemma_source_stem(q);
    lemma_static_names_unit_scoped(stem(p), stem(q), i);
}

/// Sets local `i` to zero and advances the stack pointer.
pub proof fn lemma_push_local_zero(m: Machine, i: nat, syms: spec_fn(Seq<char>) -> int)
    requires
        16 <= (m.ram)(1),
        (m.ram)(1) + i < 65536,
        0 <= (m.ram)(0) < 65535,
    ensures
        ({
            let r = run(m, push_local_zero_ins(i), syms);
            &&& (r.ram)(0) == (m.ram)(0) + 1
            &&& (r.ram)((m.ram)(1) + i) == 0
            &&& forall|a: int| a != 0 && a != (m.ram)(1) + i ==> #[trigger] (r.ram)(a) == (m.ram)(a)
        }),
{
    let p = push_local_zero_ins(i);
    lemma_run_whole(m, p, syms);
    lemma_run_next(m, p, 0, syms);
    lemma_run_next(m, p, 1, syms);
    lemma_run_next(m, p, 2, syms);
    lemma_run_next(m, p, 3, syms);
    lemma_run_next(m, p, 4, syms);
    lemma_run_next(m, p, 5, syms);
    lemma_run_next(m, p, 6, syms);
}

pub proof fn lemma_locals(m: Machine, k: nat, syms: spec_fn(Seq<char>) -> int)
    requires
        16 <= (m.ram)(0) == (m.ram)(1),
        (m.ram)(0) + k < 65535,
    ensures
        ({
            let s = (m.ram)(0);
            let r = run(m, locals_ins(k), syms);
            &&& (r.ram)(0) == s + k
            &&& (r.ram)(1) == s
            &&& forall|a: int| s <= a < s + k ==> #[trigger] (r.ram)(a) == 0
            &&& forall|a: int| a != 0 && !(s <= a < s + k) ==> #[trigger] (r.ram)(a) == (m.ram)(a)
        }),
    decreases k,
{
    if k == 0 {
        assert(locals_ins(0) =~= Seq::<Ins>::empty());
    } else {
        let k1 = (k - 1) as nat;
        lemma_locals(m, k1, syms);
        lemma_run_append(m, locals_ins(k1), push_local_zero_ins(k1), syms);
        let m1 = run(m, locals_ins(k1), syms);
        lemma_push_local_zero(m1, k1, syms);
    }
}

/// Entering a function with `k` locals, when SP and LCL both point at `s`,
/// leaves `k` zero words at `s .. s + k` and SP at `s + k`, and changes
/// nothing else.
pub proof fn lemma_function_entry(m: Machine, f: Seq<char>, k: nat, syms: spec_fn(Seq<char>) -> int)
    requires
        16 <= (m.ram)(0) == (m.ram)(1),
        (m.ram)(0) + k < 65535,
    ensures
        ({
            let s = (m.ram)(0);
            let r = run(m, func_ins(f, k), syms);
            &&& (r.ram)(0) == s + k
            &&& (r.ram)(1) == s
            &&& forall|a: int| s <= a < s + k ==> #[trigger] (r.ram)(a) == 0
            &&& forall|a: int| a != 0 && !(s <= a < s + k) ==> #[trigger] (r.ram)(a) == (m.ram)(a)
        }),
{
    let h = seq![Ins::Label(f)];
    lemma_run_append(m, h, locals_ins(k), syms);
    lemma_run_whole(m, h, syms);
    lemma_run_next(m, h, 0, syms);
    lemma_locals(run(m, h, syms), k, syms);
}

} // verus!
