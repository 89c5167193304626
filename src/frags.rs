//! The instruction sequences that the generator emits, stated over the model
//! of `hack`, and executable builders for their text.
use vstd::prelude::*;
use crate::hack::{
    label_line, num_line, op_line, ptr_line, reg_line, render, render_all, sym_line, text_of, BasePtr,
    Comp, Ins, Operand,
};

verus! {

/// `*SP = D; SP = SP + 1`.
pub open spec fn push_d() -> Seq<Ins> {
    seq![
        Ins::At(Operand::Ptr(BasePtr::Sp)),
        Ins::Op(Comp::AgetsM),
        Ins::Op(Comp::MgetsD),
        Ins::At(Operand::Ptr(BasePtr::Sp)),
        Ins::Op(Comp::MgetsMplus1),
    ]
}

/// `SP = SP - 1; D = *SP`.
pub open spec fn pop_d() -> Seq<Ins> {
    seq![
        Ins::At(Operand::Ptr(BasePtr::Sp)),
        Ins::Op(Comp::MgetsMminus1),
        Ins::Op(Comp::AgetsM),
        Ins::Op(Comp::DgetsM),
    ]
}

/// Pushes the constant `k`.
pub open spec fn push_const_ins(k: nat) -> Seq<Ins> {
    seq![Ins::At(Operand::Num(k)), Ins::Op(Comp::DgetsA)] + push_d()
}

/// Pushes the address that `o` loads (a label's address, for instance).
pub open spec fn push_addr_ins(o: Operand) -> Seq<Ins> {
    seq![Ins::At(o), Ins::Op(Comp::DgetsA)] + push_d()
}

/// Pushes the word stored at the address that `o` loads.
pub open spec fn push_value_ins(o: Operand) -> Seq<Ins> {
    seq![Ins::At(o), Ins::Op(Comp::DgetsM)] + push_d()
}

/// Pushes `*(seg + i)`.
pub open spec fn push_seg_ins(i: nat, seg: BasePtr) -> Seq<Ins> {
    seq![
        Ins::At(Operand::Num(i)),
        Ins::Op(Comp::DgetsA),
        Ins::At(Operand::Ptr(seg)),
        Ins::Op(Comp::AgetsDplusM),
        Ins::Op(Comp::DgetsM),
    ] + push_d()
}

/// Pops into the word at the address that `o` loads.
pub open spec fn pop_value_ins(o: Operand) -> Seq<Ins> {
    pop_d() + seq![Ins::At(o), Ins::Op(Comp::MgetsD)]
}

/// Pops into `*(seg + i)`, with R13 and R14 as scratch.
pub open spec fn pop_seg_ins(i: nat, seg: BasePtr) -> Seq<Ins> {
    pop_d() + seq![
        Ins::At(Operand::Reg(13)),
        Ins::Op(Comp::MgetsD),
        Ins::At(Operand::Num(i)),
        Ins::Op(Comp::DgetsA),
        Ins::At(Operand::Ptr(seg)),
        Ins::Op(Comp::DgetsDplusM),
        Ins::At(Operand::Reg(14)),
        Ins::Op(Comp::MgetsD),
        Ins::At(Operand::Reg(13)),
        Ins::Op(Comp::DgetsM),
        Ins::At(Operand::Reg(14)),
        Ins::Op(Comp::AgetsM),
        Ins::Op(Comp::MgetsD),
    ]
}

/// Replaces the two top words by `c` applied to them.
pub open spec fn binary_ins(c: Comp) -> Seq<Ins> {
    pop_d() + seq![
        Ins::At(Operand::Ptr(BasePtr::Sp)),
        Ins::Op(Comp::MgetsMminus1),
        Ins::Op(Comp::AgetsM),
        Ins::Op(c),
        Ins::At(Operand::Ptr(BasePtr::Sp)),
        Ins::Op(Comp::MgetsMplus1),
    ]
}

/// Replaces the top word by `c` applied to it.
pub open spec fn unary_ins(c: Comp) -> Seq<Ins> {
    pop_d() + seq![
        Ins::Op(c),
        Ins::At(Operand::Ptr(BasePtr::Sp)),
        Ins::Op(Comp::MgetsMplus1),
    ]
}

/// Replaces the two top words `x`, `y` by true (-1) when `x - y` meets the
/// jump condition `j`, else by false (0); `t` and `e` are its two labels.
pub open spec fn cmp_ins(t: Seq<char>, e: Seq<char>, j: Comp) -> Seq<Ins> {
    pop_d() + seq![
        Ins::At(Operand::Ptr(BasePtr::Sp)),
        Ins::Op(Comp::MgetsMminus1),
        Ins::Op(Comp::AgetsM),
        Ins::Op(Comp::DgetsMminusD),
        Ins::At(Operand::Sym(t)),
        Ins::Op(j),
        Ins::At(Operand::Ptr(BasePtr::Sp)),
        Ins::Op(Comp::AgetsM),
        Ins::Op(Comp::MgetsZero),
        Ins::At(Operand::Sym(e)),
        Ins::Op(Comp::Jmp),
        Ins::Label(t),
        Ins::At(Operand::Ptr(BasePtr::Sp)),
        Ins::Op(Comp::AgetsM),
        Ins::Op(Comp::MgetsMinusOne),
        Ins::Label(e),
        Ins::At(Operand::Ptr(BasePtr::Sp)),
        Ins::Op(Comp::MgetsMplus1),
    ]
}

/// Pops the top word and jumps to `l` when it is not zero.
pub open spec fn if_goto_ins(l: Seq<char>) -> Seq<Ins> {
    pop_d() + seq![Ins::At(Operand::Sym(l)), Ins::Op(Comp::JumpNe)]
}

pub open spec fn goto_ins(l: Seq<char>) -> Seq<Ins> {
    seq![Ins::At(Operand::Sym(l)), Ins::Op(Comp::Jmp)]
}

pub open spec fn label_ins(l: Seq<char>) -> Seq<Ins> {
    seq![Ins::Label(l)]
}

/// Sets local `i` to zero and advances the stack over it.
pub open spec fn push_local_zero_ins(i: nat) -> Seq<Ins> {
    seq![
        Ins::At(Operand::Num(i)),
        Ins::Op(Comp::DgetsA),
        Ins::At(Operand::Ptr(BasePtr::Lcl)),
        Ins::Op(Comp::AgetsDplusM),
        Ins::Op(Comp::MgetsZero),
        Ins::At(Operand::Ptr(BasePtr::Sp)),
        Ins::Op(Comp::MgetsMplus1),
    ]
}

/// Zero-initialises locals `0 .. k`.
pub open spec fn locals_ins(k: nat) -> Seq<Ins>
    decreases k,
{
    if k == 0 {
        Seq::empty()
    } else {
        locals_ins((k - 1) as nat) + push_local_zero_ins((k - 1) as nat)
    }
}

/// Entry of function `f` with `k` locals.
pub open spec fn func_ins(f: Seq<char>, k: nat) -> Seq<Ins> {
    seq![Ins::Label(f)] + locals_ins(k)
}

/// `ARG = SP - n - 5`.
pub open spec fn set_arg_ins(n: nat) -> Seq<Ins> {
    seq![
        Ins::At(Operand::Num(n)),
        Ins::Op(Comp::DgetsA),
        Ins::At(Operand::Num(5)),
        Ins::Op(Comp::DgetsDplusA),
        Ins::At(Operand::Ptr(BasePtr::Sp)),
        Ins::Op(Comp::DgetsMminusD),
        Ins::At(Operand::Ptr(BasePtr::Arg)),
        Ins::Op(Comp::MgetsD),
    ]
}

/// `LCL = SP`.
pub open spec fn set_lcl_ins() -> Seq<Ins> {
    seq![
        Ins::At(Operand::Ptr(BasePtr::Sp)),
        Ins::Op(Comp::DgetsM),
        Ins::At(Operand::Ptr(BasePtr::Lcl)),
        Ins::Op(Comp::MgetsD),
    ]
}

/// Jumps to `f` and declares the return label `ret` after the jump.
pub open spec fn enter_ins(f: Seq<char>, ret: Seq<char>) -> Seq<Ins> {
    seq![Ins::At(Operand::Sym(f)), Ins::Op(Comp::Jmp), Ins::Label(ret)]
}

/// Saves the caller's frame, points ARG at `n` words below the frame and
/// LCL at the new stack top, jumps to `f` and declares the return label
/// `ret`.
pub open spec fn call_ins(ret: Seq<char>, n: nat, f: Seq<char>) -> Seq<Ins> {
    push_addr_ins(Operand::Sym(ret))
    + push_value_ins(Operand::Ptr(BasePtr::Lcl))
    + push_value_ins(Operand::Ptr(BasePtr::Arg))
    + push_value_ins(Operand::Ptr(BasePtr::This))
    + push_value_ins(Operand::Ptr(BasePtr::That))
    + set_arg_ins(n) + set_lcl_ins() + enter_ins(f, ret)
}

/// A call with `n` arguments; with none, a slot for the return value is
/// pushed first and the call counts it as one argument.
pub open spec fn call_fragment(ret: Seq<char>, n: nat, f: Seq<char>) -> Seq<Ins> {
    if n == 0 {
        push_const_ins(0) + call_ins(ret, 1, f)
    } else {
        call_ins(ret, n, f)
    }
}

/// `p = *(--R13)`.
pub open spec fn restore_ins(p: BasePtr) -> Seq<Ins> {
    seq![
        Ins::At(Operand::Reg(13)),
        Ins::Op(Comp::MgetsMminus1),
        Ins::Op(Comp::AgetsM),
        Ins::Op(Comp::DgetsM),
        Ins::At(Operand::Ptr(p)),
        Ins::Op(Comp::MgetsD),
    ]
}

/// The first part of a return: R13 = LCL, R14 = the return address.
pub open spec fn ret_head_ins() -> Seq<Ins> {
    seq![
        Ins::At(Operand::Ptr(BasePtr::Lcl)),
        Ins::Op(Comp::DgetsM),
        Ins::At(Operand::Reg(13)),
        Ins::Op(Comp::MgetsD),
        Ins::At(Operand::Num(5)),
        Ins::Op(Comp::AgetsDminusA),
        Ins::Op(Comp::DgetsM),
        Ins::At(Operand::Reg(14)),
        Ins::Op(Comp::MgetsD),
    ]
}

/// `*ARG = pop(); SP = ARG + 1`.
pub open spec fn ret_value_ins() -> Seq<Ins> {
    pop_d() + seq![
        Ins::At(Operand::Ptr(BasePtr::Arg)),
        Ins::Op(Comp::AgetsM),
        Ins::Op(Comp::MgetsD),
        Ins::At(Operand::Ptr(BasePtr::Arg)),
        Ins::Op(Comp::DgetsMplus1),
        Ins::At(Operand::Ptr(BasePtr::Sp)),
        Ins::Op(Comp::MgetsD),
    ]
}

pub open spec fn ret_jump_ins() -> Seq<Ins> {
    seq![
        Ins::At(Operand::Reg(14)),
        Ins::Op(Comp::AgetsM),
        Ins::Op(Comp::Jmp),
    ]
}

/// Return from a function: the caller's frame is restored and the return
/// value replaces the arguments.
pub open spec fn return_ins() -> Seq<Ins> {
    ret_head_ins() + ret_value_ins() + restore_ins(BasePtr::That) + restore_ins(BasePtr::This)
        + restore_ins(BasePtr::Arg) + restore_ins(BasePtr::Lcl) + ret_jump_ins()
}

/// `SP = 256`.
pub open spec fn init_ins() -> Seq<Ins> {
    seq![
        Ins::At(Operand::Num(256)),
        Ins::Op(Comp::DgetsA),
        Ins::At(Operand::Ptr(BasePtr::Sp)),
        Ins::Op(Comp::MgetsD),
    ]
}

pub proof fn lemma_text_append(a: Seq<String>, b: Seq<String>)
    ensures
        text_of(a + b) == text_of(a) + text_of(b),
{
    assert(text_of(a + b) =~= text_of(a) + text_of(b));
}

pub proof fn lemma_render_append(a: Seq<Ins>, b: Seq<Ins>)
    ensures
        render_all(a + b) == render_all(a) + render_all(b),
{
    assert(render_all(a + b) =~= render_all(a) + render_all(b));
}

pub proof fn lemma_render_update(p: Seq<Ins>, i: int, x: Ins)
    requires
        0 <= i < p.len(),
    ensures
        render_all(p.update(i, x)) == render_all(p).update(i, render(x)),
{
    assert(render_all(p.update(i, x)) =~= render_all(p).update(i, render(x)));
}

/// The name that stands in a template where a label or symbol goes.
pub open spec fn blank() -> Seq<char> {
    "_"@
}

fn seq2(a: String, b: String) -> (r: Vec<String>)
    ensures
        r@ == seq![a, b],
{
    vec![a, b]
}

/// Appends `b` to `a`.
pub fn join_frags<T>(a: &mut Vec<T>, b: Vec<T>)
    ensures
        final(a)@ == old(a)@ + b@,
{
    let mut b = b;
    a.append(&mut b);
}

/// Appends `b` to `a`, keeping track of the text.
pub fn join(a: &mut Vec<String>, b: Vec<String>)
    ensures
        final(a)@ == old(a)@ + b@,
        text_of(final(a)@) == text_of(old(a)@) + text_of(b@),
{
    let mut b = b;
    a.append(&mut b);
    proof {
        lemma_text_append(old(a)@, b@);
    }
}

pub fn push_d_lines() -> (r: Vec<String>)
    ensures
        text_of(r@) == render_all(push_d()),
{
    let r = vec![
        ptr_line(BasePtr::Sp),
        op_line(Comp::AgetsM),
        op_line(Comp::MgetsD),
        ptr_line(BasePtr::Sp),
        op_line(Comp::MgetsMplus1),
    ];
    assert(text_of(r@) =~= render_all(push_d()));
    r
}

pub fn pop_d_lines() -> (r: Vec<String>)
    ensures
        text_of(r@) == render_all(pop_d()),
{
    let r = vec![
        ptr_line(BasePtr::Sp),
        op_line(Comp::MgetsMminus1),
        op_line(Comp::AgetsM),
        op_line(Comp::DgetsM),
    ];
    assert(text_of(r@) =~= render_all(pop_d()));
    r
}

/// Two lines followed by a push of D.
fn then_push_d(first: String, second: String, Ghost(head): Ghost<Seq<Ins>>) -> (r: Vec<String>)
    requires
        head.len() == 2,
        first@ == render(head[0]),
        second@ == render(head[1]),
    ensures
        text_of(r@) == render_all(head + push_d()),
{
    let mut r = seq2(first, second);
    assert(text_of(r@) =~= render_all(head));
    join(&mut r, push_d_lines());
    proof {
        lemma_render_append(head, push_d());
    }
    r
}

pub fn push_const_template() -> (r: Vec<String>)
    ensures
        text_of(r@) == render_all(push_const_ins(0)),
{
    let ghost h = seq![Ins::At(Operand::Num(0)), Ins::Op(Comp::DgetsA)];
    then_push_d(num_line(0), op_line(Comp::DgetsA), Ghost(h))
}

pub fn push_value_template() -> (r: Vec<String>)
    ensures
        text_of(r@) == render_all(push_value_ins(Operand::Reg(5))),
{
    let ghost h = seq![Ins::At(Operand::Reg(5)), Ins::Op(Comp::DgetsM)];
    then_push_d(reg_line(5), op_line(Comp::DgetsM), Ghost(h))
}

fn push_ptr_value_lines(p: BasePtr) -> (r: Vec<String>)
    ensures
        text_of(r@) == render_all(push_value_ins(Operand::Ptr(p))),
{
    let ghost h = seq![Ins::At(Operand::Ptr(p)), Ins::Op(Comp::DgetsM)];
    then_push_d(ptr_line(p), op_line(Comp::DgetsM), Ghost(h))
}

pub fn push_seg_template() -> (r: Vec<String>)
    ensures
        text_of(r@) == render_all(push_seg_ins(0, BasePtr::Lcl)),
{
    let mut r = vec![
        num_line(0),
        op_line(Comp::DgetsA),
        ptr_line(BasePtr::Lcl),
        op_line(Comp::AgetsDplusM),
        op_line(Comp::DgetsM),
    ];
    let ghost head = seq![
        Ins::At(Operand::Num(0)),
        Ins::Op(Comp::DgetsA),
        Ins::At(Operand::Ptr(BasePtr::Lcl)),
        Ins::Op(Comp::AgetsDplusM),
        Ins::Op(Comp::DgetsM),
    ];
    assert(text_of(r@) =~= render_all(head));
    join(&mut r, push_d_lines());
    proof {
        lemma_render_append(head, push_d());
    }
    r
}

/// `pop_d` followed by the lines `tail`.
fn pop_d_then(tail: Vec<String>, Ghost(t): Ghost<Seq<Ins>>) -> (r: Vec<String>)
    requires
        text_of(tail@) == render_all(t),
    ensures
        text_of(r@) == render_all(pop_d() + t),
{
    let mut r = pop_d_lines();
    join(&mut r, tail);
    proof {
        lemma_render_append(pop_d(), t);
    }
    r
}

pub fn pop_value_template() -> (r: Vec<String>)
    ensures
        text_of(r@) == render_all(pop_value_ins(Operand::Reg(5))),
{
    let t = seq2(reg_line(5), op_line(Comp::MgetsD));
    let ghost g = seq![Ins::At(Operand::Reg(5)), Ins::Op(Comp::MgetsD)];
    assert(text_of(t@) =~= render_all(g));
    pop_d_then(t, Ghost(g))
}

pub fn pop_seg_template() -> (r: Vec<String>)
    ensures
        text_of(r@) == render_all(pop_seg_ins(0, BasePtr::Lcl)),
{
    let t = vec![
        reg_line(13),
        op_line(Comp::MgetsD),
        num_line(0),
        op_line(Comp::DgetsA),
        ptr_line(BasePtr::Lcl),
        op_line(Comp::DgetsDplusM),
        reg_line(14),
        op_line(Comp::MgetsD),
        reg_line(13),
        op_line(Comp::DgetsM),
        reg_line(14),
        op_line(Comp::AgetsM),
        op_line(Comp::MgetsD),
    ];
    let ghost g = pop_seg_ins(0, BasePtr::Lcl).subrange(4, 17);
    assert(pop_d() + g =~= pop_seg_ins(0, BasePtr::Lcl));
    assert(text_of(t@) =~= render_all(g));
    pop_d_then(t, Ghost(g))
}

pub fn binary_template() -> (r: Vec<String>)
    ensures
        text_of(r@) == render_all(binary_ins(Comp::MgetsDplusM)),
{
    let t = vec![
        ptr_line(BasePtr::Sp),
        op_line(Comp::MgetsMminus1),
        op_line(Comp::AgetsM),
        op_line(Comp::MgetsDplusM),
        ptr_line(BasePtr::Sp),
        op_line(Comp::MgetsMplus1),
    ];
    let ghost g = binary_ins(Comp::MgetsDplusM).subrange(4, 10);
    assert(pop_d() + g =~= binary_ins(Comp::MgetsDplusM));
    assert(text_of(t@) =~= render_all(g));
    pop_d_then(t, Ghost(g))
}

pub fn unary_template() -> (r: Vec<String>)
    ensures
        text_of(r@) == render_all(unary_ins(Comp::MgetsNegD)),
{
    let t = vec![op_line(Comp::MgetsNegD), ptr_line(BasePtr::Sp), op_line(Comp::MgetsMplus1)];
    let ghost g = unary_ins(Comp::MgetsNegD).subrange(4, 7);
    assert(pop_d() + g =~= unary_ins(Comp::MgetsNegD));
    assert(text_of(t@) =~= render_all(g));
    pop_d_then(t, Ghost(g))
}

pub fn cmp_template() -> (r: Vec<String>)
    ensures
        text_of(r@) == render_all(cmp_ins(blank(), blank(), Comp::JumpEq)),
{
    let t = vec![
        ptr_line(BasePtr::Sp),
        op_line(Comp::MgetsMminus1),
        op_line(Comp::AgetsM),
        op_line(Comp::DgetsMminusD),
        sym_line("_"),
        op_line(Comp::JumpEq),
        ptr_line(BasePtr::Sp),
        op_line(Comp::AgetsM),
        op_line(Comp::MgetsZero),
        sym_line("_"),
        op_line(Comp::Jmp),
        label_line("_"),
        ptr_line(BasePtr::Sp),
        op_line(Comp::AgetsM),
        op_line(Comp::MgetsMinusOne),
        label_line("_"),
        ptr_line(BasePtr::Sp),
        op_line(Comp::MgetsMplus1),
    ];
    let ghost g = cmp_ins(blank(), blank(), Comp::JumpEq).subrange(4, 22);
    assert(pop_d() + g =~= cmp_ins(blank(), blank(), Comp::JumpEq));
    assert(text_of(t@) =~= render_all(g));
    pop_d_then(t, Ghost(g))
}

pub fn if_goto_template() -> (r: Vec<String>)
    ensures
        text_of(r@) == render_all(if_goto_ins(blank())),
{
    let t = seq2(sym_line("_"), op_line(Comp::JumpNe));
    let ghost g = seq![Ins::At(Operand::Sym(blank())), Ins::Op(Comp::JumpNe)];
    assert(text_of(t@) =~= render_all(g));
    pop_d_then(t, Ghost(g))
}

pub fn func_template() -> (r: Vec<String>)
    ensures
        text_of(r@) == render_all(func_ins(blank(), 0)),
{
    let r = vec![label_line("_")];
    assert(text_of(r@) =~= render_all(func_ins(blank(), 0)));
    r
}

pub fn push_local_zero_template() -> (r: Vec<String>)
    ensures
        text_of(r@) == render_all(push_local_zero_ins(0)),
{
    let r = vec![
        num_line(0),
        op_line(Comp::DgetsA),
        ptr_line(BasePtr::Lcl),
        op_line(Comp::AgetsDplusM),
        op_line(Comp::MgetsZero),
        ptr_line(BasePtr::Sp),
        op_line(Comp::MgetsMplus1),
    ];
    assert(text_of(r@) =~= render_all(push_local_zero_ins(0)));
    r
}

pub fn init_template() -> (r: Vec<String>)
    ensures
        text_of(r@) == render_all(init_ins()),
{
    let r = vec![num_line(256), op_line(Comp::DgetsA), ptr_line(BasePtr::Sp), op_line(Comp::MgetsD)];
    assert(text_of(r@) =~= render_all(init_ins()));
    r
}

pub fn call_template() -> (r: Vec<String>)
    ensures
        text_of(r@) == render_all(call_ins(blank(), 0, blank())),
{
    let ghost h = seq![Ins::At(Operand::Sym(blank())), Ins::Op(Comp::DgetsA)];
    let mut r = then_push_d(sym_line("_"), op_line(Comp::DgetsA), Ghost(h));
    assert(seq![Ins::At(Operand::Sym(blank())), Ins::Op(Comp::DgetsA)] + push_d() == push_addr_ins(Operand::Sym(blank())));
    let ghost mut g = push_addr_ins(Operand::Sym(blank()));
    join(&mut r, push_ptr_value_lines(BasePtr::Lcl));
    proof {
        lemma_render_append(g, push_value_ins(Operand::Ptr(BasePtr::Lcl)));
        g = g + push_value_ins(Operand::Ptr(BasePtr::Lcl));
    }
    join(&mut r, push_ptr_value_lines(BasePtr::Arg));
    proof {
        lemma_render_append(g, push_value_ins(Operand::Ptr(BasePtr::Arg)));
        g = g + push_value_ins(Operand::Ptr(BasePtr::Arg));
    }
    join(&mut r, push_ptr_value_lines(BasePtr::This));
    proof {
        lemma_render_append(g, push_value_ins(Operand::Ptr(BasePtr::This)));
        g = g + push_value_ins(Operand::Ptr(BasePtr::This));
    }
    join(&mut r, push_ptr_value_lines(BasePtr::That));
    proof {
        lemma_render_append(g, push_value_ins(Operand::Ptr(BasePtr::That)));
        g = g + push_value_ins(Operand::Ptr(BasePtr::That));
    }
    let t = vec![
        num_line(0),
        op_line(Comp::DgetsA),
        num_line(5),
        op_line(Comp::DgetsDplusA),
        ptr_line(BasePtr::Sp),
        op_line(Comp::DgetsMminusD),
        ptr_line(BasePtr::Arg),
        op_line(Comp::MgetsD),
        ptr_line(BasePtr::Sp),
        op_line(Comp::DgetsM),
        ptr_line(BasePtr::Lcl),
        op_line(Comp::MgetsD),
        sym_line("_"),
        op_line(Comp::Jmp),
        label_line("_"),
    ];
    let ghost tail = call_ins(blank(), 0, blank()).subrange(35, 50);
    assert(g + tail =~= call_ins(blank(), 0, blank()));
    assert(text_of(t@) =~= render_all(tail));
    join(&mut r, t);
    proof {
        lemma_render_append(g, tail);
    }
    r
}

fn restore_lines(p: BasePtr) -> (r: Vec<String>)
    ensures
        text_of(r@) == render_all(restore_ins(p)),
{
    let r = vec![
        reg_line(13),
        op_line(Comp::MgetsMminus1),
        op_line(Comp::AgetsM),
        op_line(Comp::DgetsM),
        ptr_line(p),
        op_line(Comp::MgetsD),
    ];
    assert(text_of(r@) =~= render_all(restore_ins(p)));
    r
}

pub fn return_template() -> (r: Vec<String>)
    ensures
        text_of(r@) == render_all(return_ins()),
{
    let mut r = vec![
        ptr_line(BasePtr::Lcl),
        op_line(Comp::DgetsM),
        reg_line(13),
        op_line(Comp::MgetsD),
        num_line(5),
        op_line(Comp::AgetsDminusA),
        op_line(Comp::DgetsM),
        reg_line(14),
        op_line(Comp::MgetsD),
    ];
    assert(text_of(r@) =~= render_all(ret_head_ins()));
    let t = vec![
        ptr_line(BasePtr::Arg),
        op_line(Comp::AgetsM),
        op_line(Comp::MgetsD),
        ptr_line(BasePtr::Arg),
        op_line(Comp::DgetsMplus1),
        ptr_line(BasePtr::Sp),
        op_line(Comp::MgetsD),
    ];
    let ghost tg = ret_value_ins().subrange(4, 11);
    assert(pop_d() + tg =~= ret_value_ins());
    assert(text_of(t@) =~= render_all(tg));
    join(&mut r, pop_d_then(t, Ghost(tg)));
    let ghost mut g = ret_head_ins();
    proof {
        lemma_render_append(g, ret_value_ins());
        g = g + ret_value_ins();
    }
    join(&mut r, restore_lines(BasePtr::That));
    proof {
        lemma_render_append(g, restore_ins(BasePtr::That));
        g = g + restore_ins(BasePtr::That);
    }
    join(&mut r, restore_lines(BasePtr::This));
    proof {
        lemma_render_append(g, restore_ins(BasePtr::This));
        g = g + restore_ins(BasePtr::This);
    }
    join(&mut r, restore_lines(BasePtr::Arg));
    proof {
        lemma_render_append(g, restore_ins(BasePtr::Arg));
        g = g + restore_ins(BasePtr::Arg);
    }
    join(&mut r, restore_lines(BasePtr::Lcl));
    proof {
        lemma_render_append(g, restore_ins(BasePtr::Lcl));
        g = g + restore_ins(BasePtr::Lcl);
    }
    let j = vec![reg_line(14), op_line(Comp::AgetsM), op_line(Comp::Jmp)];
    assert(text_of(j@) =~= render_all(ret_jump_ins()));
    join(&mut r, j);
    proof {
        lemma_render_append(g, ret_jump_ins());
    }
    r
}

} // verus!
