//! A model of the target assembly language: instructions, their text form and
//! what they do to the machine.
use vstd::prelude::*;

verus! {

/// The value that an A-instruction (`@...`) loads.
pub enum Operand {
    /// A decimal literal, `@17`.
    Num(nat),
    /// A numbered register, `@R13`.
    Reg(nat),
    /// One of the named segment pointers, `@SP`, `@LCL`, ...
    Ptr(BasePtr),
    /// A program symbol: a label or a static variable.
    Sym(Seq<char>),
}

/// The five named pointer registers of the machine.
#[derive(Clone, Copy, Debug, PartialEq, Eq, Structural)]
pub enum BasePtr {
    Sp,
    Lcl,
    Arg,
    This,
    That,
}

/// The computation instructions that the generated code uses.
#[derive(Clone, Copy, Debug, PartialEq, Eq, Structural)]
pub enum Comp {
    DgetsA,
    DgetsM,
    DgetsMplus1,
    DgetsDplusA,
    DgetsDplusM,
    DgetsMminusD,
    MgetsD,
    MgetsZero,
    MgetsMinusOne,
    MgetsMplus1,
    MgetsMminus1,
    MgetsDplusM,
    MgetsMminusD,
    MgetsDandM,
    MgetsDorM,
    MgetsNegD,
    MgetsNotD,
    AgetsM,
    AgetsDplusM,
    AgetsDminusA,
    Jmp,
    JumpNe,
    JumpEq,
    JumpGt,
    JumpLt,
}

/// One line of assembly.
pub enum Ins {
    At(Operand),
    Label(Seq<char>),
    Op(Comp),
}

pub open spec fn digit_char(d: nat) -> char {
    if d == 0 { '0' }
    else if d == 1 { '1' }
    else if d == 2 { '2' }
    else if d == 3 { '3' }
    else if d == 4 { '4' }
    else if d == 5 { '5' }
    else if d == 6 { '6' }
    else if d == 7 { '7' }
    else if d == 8 { '8' }
    else { '9' }
}

/// The decimal digits of `n`, without leading zeros.
pub open spec fn dec(n: nat) -> Seq<char>
    decreases n,
{
    if n < 10 {
        seq![digit_char(n)]
    } else {
        dec(n / 10).push(digit_char(n % 10))
    }
}

pub open spec fn ptr_name(p: BasePtr) -> Seq<char> {
    match p {
        BasePtr::Sp => "SP"@,
        BasePtr::Lcl => "LCL"@,
        BasePtr::Arg => "ARG"@,
        BasePtr::This => "THIS"@,
        BasePtr::That => "THAT"@,
    }
}

pub open spec fn operand_text(o: Operand) -> Seq<char> {
    match o {
        Operand::Num(n) => dec(n),
        Operand::Reg(n) => seq!['R'] + dec(n),
        Operand::Ptr(p) => ptr_name(p),
        Operand::Sym(s) => s,
    }
}

pub open spec fn comp_text(c: Comp) -> Seq<char> {
    match c {
        Comp::DgetsA => "D=A"@,
        Comp::DgetsM => "D=M"@,
        Comp::DgetsMplus1 => "D=M+1"@,
        Comp::DgetsDplusA => "D=D+A"@,
        Comp::DgetsDplusM => "D=D+M"@,
        Comp::DgetsMminusD => "D=M-D"@,
        Comp::MgetsD => "M=D"@,
        Comp::MgetsZero => "M=0"@,
        Comp::MgetsMinusOne => "M=-1"@,
        Comp::MgetsMplus1 => "M=M+1"@,
        Comp::MgetsMminus1 => "M=M-1"@,
        Comp::MgetsDplusM => "M=D+M"@,
        Comp::MgetsMminusD => "M=M-D"@,
        Comp::MgetsDandM => "M=D&M"@,
        Comp::MgetsDorM => "M=D|M"@,
        Comp::MgetsNegD => "M=-D"@,
        Comp::MgetsNotD => "M=!D"@,
        Comp::AgetsM => "A=M"@,
        Comp::AgetsDplusM => "A=D+M"@,
        Comp::AgetsDminusA => "A=D-A"@,
        Comp::Jmp => "0;JMP"@,
        Comp::JumpNe => "D;JNE"@,
        Comp::JumpEq => "D;JEQ"@,
        Comp::JumpGt => "D;JGT"@,
        Comp::JumpLt => "D;JLT"@,
    }
}

/// The text of one assembly line.
pub open spec fn render(i: Ins) -> Seq<char> {
    match i {
        Ins::At(o) => seq!['@'] + operand_text(o),
        Ins::Label(s) => seq!['('] + s + seq![')'],
        Ins::Op(c) => comp_text(c),
    }
}

/// The text of a sequence of assembly lines.
pub open spec fn render_all(p: Seq<Ins>) -> Seq<Seq<char>> {
    p.map_values(|i: Ins| render(i))
}

/// The text of a vector of lines.
pub open spec fn text_of(v: Seq<String>) -> Seq<Seq<char>> {
    v.map_values(|s: String| s@)
}

/// The state of the machine that a straight run of instructions changes: the
/// two registers, memory, and the target of the last jump taken.
pub struct Machine {
    pub a: int,
    pub d: int,
    pub ram: spec_fn(int) -> int,
    pub jump: Option<int>,
}

/// Values are 16-bit words, kept in `0..65536`: the sum or difference of two
/// words wraps around once at most.
pub open spec fn word(x: int) -> int {
    if x < 0 {
        x + 65536
    } else if x >= 65536 {
        x - 65536
    } else {
        x
    }
}

/// A word read as a signed number.
pub open spec fn signed(x: int) -> int {
    if x < 32768 { x } else { x - 65536 }
}

pub open spec fn ptr_addr(p: BasePtr) -> int {
    match p {
        BasePtr::Sp => 0,
        BasePtr::Lcl => 1,
        BasePtr::Arg => 2,
        BasePtr::This => 3,
        BasePtr::That => 4,
    }
}

/// What an A-instruction loads; `syms` gives the address of each program
/// symbol.
pub open spec fn operand_value(o: Operand, syms: spec_fn(Seq<char>) -> int) -> int {
    match o {
        Operand::Num(n) => n as int,
        Operand::Reg(n) => n as int,
        Operand::Ptr(p) => ptr_addr(p),
        Operand::Sym(s) => syms(s),
    }
}

pub open spec fn write(m: Machine, v: int) -> Machine {
    Machine { ram: |i: int| if i == m.a { v } else { (m.ram)(i) }, ..m }
}

pub open spec fn jump_if(m: Machine, c: bool) -> Machine {
    if c { Machine { jump: Some(m.a), ..m } } else { m }
}

/// The effect of one computation instruction.
pub open spec fn exec_comp(m: Machine, c: Comp) -> Machine {
    let mv = (m.ram)(m.a);
    match c {
        Comp::DgetsA => Machine { d: m.a, ..m },
        Comp::DgetsM => Machine { d: mv, ..m },
        Comp::DgetsMplus1 => Machine { d: word(mv + 1), ..m },
        Comp::DgetsDplusA => Machine { d: word(m.d + m.a), ..m },
        Comp::DgetsDplusM => Machine { d: word(m.d + mv), ..m },
        Comp::DgetsMminusD => Machine { d: word(mv - m.d), ..m },
        Comp::MgetsD => write(m, m.d),
        Comp::MgetsZero => write(m, 0),
        Comp::MgetsMinusOne => write(m, 65535),
        Comp::MgetsMplus1 => write(m, word(mv + 1)),
        Comp::MgetsMminus1 => write(m, word(mv - 1)),
        Comp::MgetsDplusM => write(m, word(m.d + mv)),
        Comp::MgetsMminusD => write(m, word(mv - m.d)),
        Comp::MgetsDandM => write(m, ((m.d as u16) & (mv as u16)) as int),
        Comp::MgetsDorM => write(m, ((m.d as u16) | (mv as u16)) as int),
        Comp::MgetsNegD => write(m, word(0 - m.d)),
        Comp::MgetsNotD => write(m, 65535 - m.d),
        Comp::AgetsM => Machine { a: mv, ..m },
        Comp::AgetsDplusM => Machine { a: word(m.d + mv), ..m },
        Comp::AgetsDminusA => Machine { a: word(m.d - m.a), ..m },
        Comp::Jmp => jump_if(m, true),
        Comp::JumpNe => jump_if(m, m.d != 0),
        Comp::JumpEq => jump_if(m, m.d == 0),
        Comp::JumpGt => jump_if(m, signed(m.d) > 0),
        Comp::JumpLt => jump_if(m, signed(m.d) < 0),
    }
}

/// The effect of one line; a label declaration does nothing.
pub open spec fn step(m: Machine, i: Ins, syms: spec_fn(Seq<char>) -> int) -> Machine {
    match i {
        Ins::At(o) => Machine { a: operand_value(o, syms), ..m },
        Ins::Label(_) => m,
        Ins::Op(c) => exec_comp(m, c),
    }
}

/// Runs the lines of `p` one after another from the first to the last, taking
/// no jump but recording the target of the last one taken.
pub open spec fn run(m: Machine, p: Seq<Ins>, syms: spec_fn(Seq<char>) -> int) -> Machine
    decreases p.len(),
{
    if p.len() == 0 {
        m
    } else {
        step(run(m, p.drop_last(), syms), p.last(), syms)
    }
}

pub proof fn lemma_run_append(m: Machine, p: Seq<Ins>, q: Seq<Ins>, syms: spec_fn(Seq<char>) -> int)
    ensures
        run(m, p + q, syms) == run(run(m, p, syms), q, syms),
    decreases q.len(),
{
    if q.len() == 0 {
        assert(p + q =~= p);
    } else {
        assert((p + q).drop_last() =~= p + q.drop_last());
        lemma_run_append(m, p, q.drop_last(), syms);
    }
}

/// Running the first `k + 1` lines is running the first `k`, then line `k`.
pub proof fn lemma_run_next(m: Machine, p: Seq<Ins>, k: int, syms: spec_fn(Seq<char>) -> int)
    requires
        0 <= k < p.len(),
    ensures
        run(m, p.subrange(0, k + 1), syms) == step(run(m, p.subrange(0, k), syms), p[k], syms),
{
    assert(p.subrange(0, k + 1).drop_last() =~= p.subrange(0, k));
}

/// Running the whole of `p` is running its first `p.len()` lines.
pub proof fn lemma_run_whole(m: Machine, p: Seq<Ins>, syms: spec_fn(Seq<char>) -> int)
    ensures
        run(m, p.subrange(0, 0), syms) == m,
        run(m, p.subrange(0, p.len() as int), syms) == run(m, p, syms),
{
    assert(p.subrange(0, p.len() as int) =~= p);
}

/// Text of a computation instruction.
pub fn op_line(c: Comp) -> (r: String)
    ensures
        r@ == render(Ins::Op(c)),
{
    let t = match c {
        Comp::DgetsA => "D=A",
        Comp::DgetsM => "D=M",
        Comp::DgetsMplus1 => "D=M+1",
        Comp::DgetsDplusA => "D=D+A",
        Comp::DgetsDplusM => "D=D+M",
        Comp::DgetsMminusD => "D=M-D",
        Comp::MgetsD => "M=D",
        Comp::MgetsZero => "M=0",
        Comp::MgetsMinusOne => "M=-1",
        Comp::MgetsMplus1 => "M=M+1",
        Comp::MgetsMminus1 => "M=M-1",
        Comp::MgetsDplusM => "M=D+M",
        Comp::MgetsMminusD => "M=M-D",
        Comp::MgetsDandM => "M=D&M",
        Comp::MgetsDorM => "M=D|M",
        Comp::MgetsNegD => "M=-D",
        Comp::MgetsNotD => "M=!D",
        Comp::AgetsM => "A=M",
        Comp::AgetsDplusM => "A=D+M",
        Comp::AgetsDminusA => "A=D-A",
        Comp::Jmp => "0;JMP",
        Comp::JumpNe => "D;JNE",
        Comp::JumpEq => "D;JEQ",
        Comp::JumpGt => "D;JGT",
        Comp::JumpLt => "D;JLT",
    };
    String::from_str(t)
}

/// `@` and the text `t`.
fn at_text(t: &str) -> (r: String)
    ensures
        r@ == seq!['@'] + t@,
{
    proof {
        reveal_strlit("@");
    }
    let mut r = String::from_str("@");
    r.append(t);
    r
}

/// `@SP`, `@LCL`, ...
pub fn ptr_line(p: BasePtr) -> (r: String)
    ensures
        r@ == render(Ins::At(Operand::Ptr(p))),
{
    let t = match p {
        BasePtr::Sp => "SP",
        BasePtr::Lcl => "LCL",
        BasePtr::Arg => "ARG",
        BasePtr::This => "THIS",
        BasePtr::That => "THAT",
    };
    at_text(t)
}

/// `@n` for a decimal literal.
pub fn num_line(n: u64) -> (r: String)
    ensures
        r@ == render(Ins::At(Operand::Num(n as nat))),
{
    let t = dec_string(n);
    at_text(t.as_str())
}

/// `@Rn`.
pub fn reg_line(n: u64) -> (r: String)
    ensures
        r@ == render(Ins::At(Operand::Reg(n as nat))),
{
    proof {
        reveal_strlit("R");
    }
    let mut t = String::from_str("R");
    let d = dec_string(n);
    t.append(d.as_str());
    assert(t@ == seq!['R'] + dec(n as nat));
    at_text(t.as_str())
}

/// `@s` for a program symbol.
pub fn sym_line(s: &str) -> (r: String)
    ensures
        r@ == render(Ins::At(Operand::Sym(s@))),
{
    at_text(s)
}

/// `(s)`, the declaration of label `s`.
pub fn label_line(s: &str) -> (r: String)
    ensures
        r@ == render(Ins::Label(s@)),
{
    proof {
        reveal_strlit("(");
        reveal_strlit(")");
    }
    let mut r = String::from_str("(");
    r.append(s);
    r.append(")");
    r
}

/// Decimal text of a number.
pub fn dec_string(n: u64) -> (r: String)
    ensures
        r@ == dec(n as nat),
    decreases n,
{
    if n < 10 {
        String::from_str(digit_str(n))
    } else {
        let mut s = dec_string(n / 10);
        s.append(digit_str(n % 10));
        s
    }
}

fn digit_str(d: u64) -> (r: &'static str)
    requires
        d < 10,
    ensures
        r@ == seq![digit_char(d as nat)],
{
    proof {
        reveal_strlit("0");
        reveal_strlit("1");
        reveal_strlit("2");
        reveal_strlit("3");
        reveal_strlit("4");
        reveal_strlit("5");
        reveal_strlit("6");
        reveal_strlit("7");
        reveal_strlit("8");
        reveal_strlit("9");
    }
    if d == 0 { "0" }
    else if d == 1 { "1" }
    else if d == 2 { "2" }
    else if d == 3 { "3" }
    else if d == 4 { "4" }
    else if d == 5 { "5" }
    else if d == 6 { "6" }
    else if d == 7 { "7" }
    else if d == 8 { "8" }
    else { "9" }
}

} // verus!
