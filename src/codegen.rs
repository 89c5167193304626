//! Assembly fragments and the code generator that fills the templates.
use vstd::prelude::*;
use crate::frags::{
    binary_ins, binary_template, blank, call_fragment, call_ins, call_template, cmp_ins,
    cmp_template, func_ins, func_template, goto_ins, if_goto_ins, if_goto_template, init_ins,
    init_template, label_ins, lemma_render_append, lemma_render_update, locals_ins, pop_seg_ins,
    pop_seg_template, pop_value_ins, pop_value_template, push_const_ins, push_const_template,
    push_local_zero_ins, push_local_zero_template, push_seg_ins, push_seg_template, push_value_ins,
    push_value_template, return_ins, return_template, unary_ins, unary_template,
};
use crate::hack::{
    dec, dec_string, label_line, num_line, op_line, ptr_line, reg_line, render, render_all,
    sym_line, text_of, BasePtr, Comp, Ins, Operand,
};
use crate::line::SourceLine;

verus! {

/// One generated fragment: a comment echoing its source, then its lines.
#[derive(Debug)]
pub struct Asm {
    pub comment: String,
    pub lines: Vec<String>,
}

/// The comment line that heads the fragment of a source line.
pub open spec fn comment_text(src: Seq<char>) -> Seq<char> {
    "//"@ + src
}

pub open spec fn unknown_text() -> Seq<char> {
    "//UNKOWN"@
}

fn comment_of(s: &str) -> (r: String)
    ensures
        r@ == comment_text(s@),
{
    let mut r = String::from_str("//");
    r.append(s);
    r
}

pub proof fn lemma_text_update(v: Seq<String>, i: int, s: String)
    requires
        0 <= i < v.len(),
    ensures
        text_of(v.update(i, s)) == text_of(v).update(i, s@),
{
    assert(text_of(v.update(i, s)) =~= text_of(v).update(i, s@));
}

/// A copy of a vector of lines.
pub fn copy_lines(v: &Vec<String>) -> (r: Vec<String>)
    ensures
        r@ == v@,
{
    let mut r: Vec<String> = Vec::new();
    let mut i: usize = 0;
    while i < v.len()
        invariant
            i <= v@.len(),
            r@ == v@.subrange(0, i as int),
        decreases v@.len() - i,
    {
        r.push(v[i].clone());
        assert(r@ =~= v@.subrange(0, i + 1));
        i = i + 1;
    }
    assert(v@.subrange(0, i as int) =~= v@);
    r
}

impl Asm {
    pub fn new(source: &SourceLine, lines: Vec<String>) -> (r: Self)
        ensures
            r.comment@ == comment_text(source.source@),
            r.lines@ == lines@,
    {
        Asm { comment: comment_of(source.source.as_str()), lines }
    }

    /// A fragment that marks a line that could not be translated.
    pub fn unkown(comment: &str) -> (r: Self)
        ensures
            r.comment@ == comment_text(comment@),
            text_of(r.lines@) == seq![unknown_text()],
    {
        let lines = vec![String::from_str("//UNKOWN")];
        assert(text_of(lines@) =~= seq![unknown_text()]);
        Asm { comment: comment_of(comment), lines }
    }

    pub fn set_line(&mut self, line_num: usize, new_line: String)
        requires
            line_num < old(self).lines@.len(),
        ensures
            final(self).lines@ == old(self).lines@.update(line_num as int, new_line),
            final(self).comment == old(self).comment,
    {
        self.lines.set(line_num, new_line);
    }

    /// Replaces line `i` of a fragment whose lines are the text of `p`.
    fn patch(&mut self, i: usize, line: String, Ghost(p): Ghost<Seq<Ins>>, Ghost(x): Ghost<Ins>)
        requires
            text_of(old(self).lines@) == render_all(p),
            i < p.len(),
            line@ == render(x),
        ensures
            text_of(final(self).lines@) == render_all(p.update(i as int, x)),
            final(self).comment == old(self).comment,
    {
        assert(text_of(self.lines@).len() == self.lines@.len());
        assert(render_all(p).len() == p.len());
        proof {
            lemma_text_update(self.lines@, i as int, line);
            lemma_render_update(p, i as int, x);
        }
        self.set_line(i, line);
    }
}

impl Default for Asm {
    fn default() -> (r: Self)
        ensures
            r.comment@ == unknown_text(),
            text_of(r.lines@) == seq![unknown_text()],
    {
        let lines = vec![String::from_str("//UNKOWN")];
        assert(text_of(lines@) =~= seq![unknown_text()]);
        Asm { comment: String::from_str("//UNKOWN"), lines }
    }
}

/// The label of the `k`-th "true" branch of a comparison.
pub open spec fn true_label(k: nat) -> Seq<char> {
    "TRUE_"@ + dec(k)
}

/// The label that ends the `k`-th comparison.
pub open spec fn end_label(k: nat) -> Seq<char> {
    "END_"@ + dec(k)
}

/// The return-address label of the `k`-th call made from unit `file`.
pub open spec fn ret_label(file: Seq<char>, k: nat) -> Seq<char> {
    file + "$ret."@ + dec(k)
}

/// The variable of static slot `i` of unit `file`.
pub open spec fn static_name(file: Seq<char>, i: nat) -> Seq<char> {
    file + "."@ + dec(i)
}

/// The name of the program's entry function.
pub open spec fn entry_function() -> Seq<char> {
    "Sys.init"@
}

pub open spec fn bootstrap_comment() -> Seq<char> {
    "// Sys Init bootstrap"@
}

/// `a`, then `b`, then the decimal text of `n`.
fn join_dec(a: &str, b: &str, n: u64) -> (r: String)
    ensures
        r@ == a@ + b@ + dec(n as nat),
{
    let mut r = String::from_str(a);
    r.append(b);
    let d = dec_string(n);
    r.append(d.as_str());
    r
}

/// The templates of every fragment kind, each a fixed sequence of lines in
/// which the generator overwrites the lines that vary.
pub struct AsmReader {
    pub call: Vec<String>,
    pub cmp: Vec<String>,
    pub func: Vec<String>,
    pub if_goto: Vec<String>,
    pub init: Vec<String>,
    pub neg: Vec<String>,
    pub pop_mem_seg: Vec<String>,
    pub pop_ptr: Vec<String>,
    pub pop_static_temp: Vec<String>,
    pub push_const: Vec<String>,
    pub push_lcl: Vec<String>,
    pub push_mem_seg: Vec<String>,
    pub push_ptr: Vec<String>,
    pub push_static_temp: Vec<String>,
    pub ret: Vec<String>,
    pub sum: Vec<String>,
}

impl AsmReader {
    /// Every template holds the lines of its fragment kind.
    pub open spec fn wf(&self) -> bool {
        &&& text_of(self.call@) == render_all(call_ins(blank(), 0, blank()))
        &&& text_of(self.cmp@) == render_all(cmp_ins(blank(), blank(), Comp::JumpEq))
        &&& text_of(self.func@) == render_all(func_ins(blank(), 0))
        &&& text_of(self.if_goto@) == render_all(if_goto_ins(blank()))
        &&& text_of(self.init@) == render_all(init_ins())
        &&& text_of(self.neg@) == render_all(unary_ins(Comp::MgetsNegD))
        &&& text_of(self.pop_mem_seg@) == render_all(pop_seg_ins(0, BasePtr::Lcl))
        &&& text_of(self.pop_ptr@) == render_all(pop_value_ins(Operand::Reg(5)))
        &&& text_of(self.pop_static_temp@) == render_all(pop_value_ins(Operand::Reg(5)))
        &&& text_of(self.push_const@) == render_all(push_const_ins(0))
        &&& text_of(self.push_lcl@) == render_all(push_local_zero_ins(0))
        &&& text_of(self.push_mem_seg@) == render_all(push_seg_ins(0, BasePtr::Lcl))
        &&& text_of(self.push_ptr@) == render_all(push_value_ins(Operand::Reg(5)))
        &&& text_of(self.push_static_temp@) == render_all(push_value_ins(Operand::Reg(5)))
        &&& text_of(self.ret@) == render_all(return_ins())
        &&& text_of(self.sum@) == render_all(binary_ins(Comp::MgetsDplusM))
    }

    pub fn new() -> (r: Self)
        ensures
            r.wf(),
    {
        AsmReader {
            call: call_template(),
            cmp: cmp_template(),
            func: func_template(),
            if_goto: if_goto_template(),
            init: init_template(),
            neg: unary_template(),
            pop_mem_seg: pop_seg_template(),
            pop_ptr: pop_value_template(),
            pop_static_temp: pop_value_template(),
            push_const: push_const_template(),
            push_lcl: push_local_zero_template(),
            push_mem_seg: push_seg_template(),
            push_ptr: push_value_template(),
            push_static_temp: push_value_template(),
            ret: return_template(),
            sum: binary_template(),
        }
    }

    pub fn call(&self) -> (r: Vec<String>)
        ensures
            r@ == self.call@,
    {
        copy_lines(&self.call)
    }

    pub fn cmp(&self) -> (r: Vec<String>)
        ensures
            r@ == self.cmp@,
    {
        copy_lines(&self.cmp)
    }

    pub fn func(&self) -> (r: Vec<String>)
        ensures
            r@ == self.func@,
    {
        copy_lines(&self.func)
    }

    pub fn if_goto(&self) -> (r: Vec<String>)
        ensures
            r@ == self.if_goto@,
    {
        copy_lines(&self.if_goto)
    }

    pub fn init(&self) -> (r: Vec<String>)
        ensures
            r@ == self.init@,
    {
        copy_lines(&self.init)
    }

    pub fn neg(&self) -> (r: Vec<String>)
        ensures
            r@ == self.neg@,
    {
        copy_lines(&self.neg)
    }

    pub fn pop_mem_seg(&self) -> (r: Vec<String>)
        ensures
            r@ == self.pop_mem_seg@,
    {
        copy_lines(&self.pop_mem_seg)
    }

    pub fn pop_ptr(&self) -> (r: Vec<String>)
        ensures
            r@ == self.pop_ptr@,
    {
        copy_lines(&self.pop_ptr)
    }

    pub fn pop_static_temp(&self) -> (r: Vec<String>)
        ensures
            r@ == self.pop_static_temp@,
    {
        copy_lines(&self.pop_static_temp)
    }

    pub fn push_const(&self) -> (r: Vec<String>)
        ensures
            r@ == self.push_const@,
    {
        copy_lines(&self.push_const)
    }

    pub fn push_lcl(&self) -> (r: Vec<String>)
        ensures
            r@ == self.push_lcl@,
    {
        copy_lines(&self.push_lcl)
    }

    pub fn push_mem_seg(&self) -> (r: Vec<String>)
        ensures
            r@ == self.push_mem_seg@,
    {
        copy_lines(&self.push_mem_seg)
    }

    pub fn push_ptr(&self) -> (r: Vec<String>)
        ensures
            r@ == self.push_ptr@,
    {
        copy_lines(&self.push_ptr)
    }

    pub fn push_static_temp(&self) -> (r: Vec<String>)
        ensures
            r@ == self.push_static_temp@,
    {
        copy_lines(&self.push_static_temp)
    }

    pub fn ret(&self) -> (r: Vec<String>)
        ensures
            r@ == self.ret@,
    {
        copy_lines(&self.ret)
    }

    pub fn sum(&self) -> (r: Vec<String>)
        ensures
            r@ == self.sum@,
    {
        copy_lines(&self.sum)
    }
}

/// A count or index that a command carries.
pub open spec fn count_of(source: SourceLine) -> nat {
    source.args.arg2.unwrap() as nat
}

/// The command carries a non-negative count or index.
pub open spec fn has_index(source: SourceLine) -> bool {
    source.args.arg2 matches Some(n) && n >= 0
}

/// Generates the fragment of each command; carries the unit's label counter
/// and the base name of the file being translated.
pub struct AsmGen {
    pub lbl_idx: i32,
    pub filename: String,
    pub asm_reader: AsmReader,
}

impl AsmGen {
    pub open spec fn wf(&self) -> bool {
        self.asm_reader.wf() && self.lbl_idx >= 0
    }

    /// The generator state is unchanged but for the label counter.
    pub open spec fn same_unit(&self, other: &AsmGen) -> bool {
        self.filename == other.filename && self.asm_reader == other.asm_reader
    }

    pub fn new(filename: &str) -> (r: Self)
        ensures
            r.wf(),
            r.filename@ == filename@,
            r.lbl_idx == 0,
    {
        AsmGen { lbl_idx: 0, filename: String::from_str(filename), asm_reader: AsmReader::new() }
    }

    /// Starts the next file of the unit; the label counter goes on.
    pub fn set_filename(&mut self, filename: &str)
        ensures
            final(self).filename@ == filename@,
            final(self).lbl_idx == old(self).lbl_idx,
            final(self).asm_reader == old(self).asm_reader,
    {
        self.filename = String::from_str(filename);
    }

    /// Sets the stack pointer, then calls the entry function.
    pub fn gen_init_asm(&mut self) -> (frag: Asm)
        requires
            old(self).wf(),
            old(self).lbl_idx < i32::MAX,
        ensures
            final(self).wf(),
            final(self).same_unit(old(self)),
            final(self).lbl_idx == old(self).lbl_idx + 1,
            frag.comment@ == bootstrap_comment(),
            text_of(frag.lines@) == render_all(
                init_ins() + call_fragment(
                    ret_label(old(self).filename@, final(self).lbl_idx as nat),
                    0,
                    entry_function(),
                ),
            ),
    {
        let call_lines = self.asm_reader.call();
        let k = self.next_lbl_idx();
        let ret = join_dec(self.filename.as_str(), "$ret.", k as u64);
        let mut frag = Asm { comment: String::from_str("// Sys Init bootstrap"), lines: call_lines };
        let ghost t0 = call_ins(blank(), 0, blank());
        let ghost t1 = t0.update(0, Ins::At(Operand::Sym(ret@)));
        frag.patch(0, sym_line(ret.as_str()), Ghost(t0), Ghost(Ins::At(Operand::Sym(ret@))));
        frag.patch(35, num_line(1), Ghost(t1), Ghost(Ins::At(Operand::Num(1))));
        let ghost t2 = t1.update(35, Ins::At(Operand::Num(1)));
        frag.patch(47, sym_line("Sys.init"), Ghost(t2), Ghost(Ins::At(Operand::Sym(entry_function()))));
        let ghost t3 = t2.update(47, Ins::At(Operand::Sym(entry_function())));
        frag.patch(49, label_line(ret.as_str()), Ghost(t3), Ghost(Ins::Label(ret@)));
        let ghost t4 = t3.update(49, Ins::Label(ret@));
        assert(t4 =~= call_ins(ret@, 1, entry_function()));
        let mut call = self.asm_reader.push_const();
        crate::frags::join(&mut call, frag.lines);
        proof {
            lemma_render_append(push_const_ins(0), t4);
        }
        let mut lines = self.asm_reader.init();
        crate::frags::join(&mut lines, call);
        proof {
            lemma_render_append(init_ins(), call_fragment(ret@, 0, entry_function()));
        }
        Asm { comment: frag.comment, lines }
    }

    pub fn gen_ret_asm(&mut self, source: &SourceLine) -> (frag: Asm)
        requires
            old(self).wf(),
        ensures
            *final(self) == *old(self),
            frag.comment@ == comment_text(source.source@),
            text_of(frag.lines@) == render_all(return_ins()),
    {
        Asm::new(source, self.asm_reader.ret())
    }

    /// The entry label of the function, then its locals set to zero.
    pub fn gen_func_asm(&mut self, source: &SourceLine) -> (frag: Asm)
        requires
            old(self).wf(),
            has_index(*source),
        ensures
            *final(self) == *old(self),
            frag.comment@ == comment_text(source.source@),
            text_of(frag.lines@) == render_all(func_ins(source.args.arg1@, count_of(*source))),
    {
        let mut frag = Asm::new(source, self.asm_reader.func());
        let ghost f = source.args.arg1@;
        frag.patch(0, label_line(source.args.arg1.as_str()), Ghost(func_ins(blank(), 0)), Ghost(Ins::Label(f)));
        assert(func_ins(blank(), 0).update(0, Ins::Label(f)) =~= func_ins(f, 0));
        let n = match source.args.arg2 {
            Some(n) => n,
            None => 0,
        };
        let mut i: i32 = 0;
        while i < n
            invariant
                0 <= i <= n,
                n as nat == count_of(*source),
                self.wf(),
                frag.comment@ == comment_text(source.source@),
                text_of(frag.lines@) == render_all(func_ins(f, i as nat)),
            decreases n - i,
        {
            let mut set_lcl = self.asm_reader.push_lcl();
            patch_lines(&mut set_lcl, 0, num_line(i as u64), Ghost(push_local_zero_ins(0)), Ghost(Ins::At(Operand::Num(i as nat))));
            assert(push_local_zero_ins(0).update(0, Ins::At(Operand::Num(i as nat))) =~= push_local_zero_ins(i as nat));
            crate::frags::join(&mut frag.lines, set_lcl);
            proof {
                lemma_render_append(func_ins(f, i as nat), push_local_zero_ins(i as nat));
                assert(func_ins(f, (i + 1) as nat) =~= func_ins(f, i as nat) + push_local_zero_ins(i as nat));
            }
            i = i + 1;
        }
        frag
    }

    /// A call; with no argument, a slot for the return value is reserved
    /// first.
    pub fn gen_call_asm(&mut self, source: &SourceLine) -> (frag: Asm)
        requires
            old(self).wf(),
            old(self).lbl_idx < i32::MAX,
            has_index(*source),
        ensures
            final(self).wf(),
            final(self).same_unit(old(self)),
            final(self).lbl_idx == old(self).lbl_idx + 1,
            frag.comment@ == comment_text(source.source@),
            text_of(frag.lines@) == render_all(
                call_fragment(
                    ret_label(old(self).filename@, final(self).lbl_idx as nat),
                    count_of(*source),
                    source.args.arg1@,
                ),
            ),
    {
        let raw_lines = self.asm_reader.call();
        let k = self.next_lbl_idx();
        let ret = join_dec(self.filename.as_str(), "$ret.", k as u64);
        let mut frag = Asm::new(source, raw_lines);
        let ghost f = source.args.arg1@;
        let ghost t0 = call_ins(blank(), 0, blank());
        let ghost t1 = t0.update(0, Ins::At(Operand::Sym(ret@)));
        frag.patch(0, sym_line(ret.as_str()), Ghost(t0), Ghost(Ins::At(Operand::Sym(ret@))));
        frag.patch(47, sym_line(source.args.arg1.as_str()), Ghost(t1), Ghost(Ins::At(Operand::Sym(f))));
        let ghost t2 = t1.update(47, Ins::At(Operand::Sym(f)));
        frag.patch(49, label_line(ret.as_str()), Ghost(t2), Ghost(Ins::Label(ret@)));
        let ghost t3 = t2.update(49, Ins::Label(ret@));
        let n = match source.args.arg2 {
            Some(n) => n,
            None => 0,
        };
        if n == 0 {
            frag.patch(35, num_line(1), Ghost(t3), Ghost(Ins::At(Operand::Num(1))));
            assert(t3.update(35, Ins::At(Operand::Num(1))) =~= call_ins(ret@, 1, f));
            let mut push_const = self.asm_reader.push_const();
            patch_lines(&mut push_const, 0, num_line(0), Ghost(push_const_ins(0)), Ghost(Ins::At(Operand::Num(0))));
            assert(push_const_ins(0).update(0, Ins::At(Operand::Num(0))) =~= push_const_ins(0));
            crate::frags::join(&mut push_const, frag.lines);
            proof {
                lemma_render_append(push_const_ins(0), call_ins(ret@, 1, f));
            }
            frag.lines = push_const;
        } else {
            frag.patch(35, num_line(n as u64), Ghost(t3), Ghost(Ins::At(Operand::Num(n as nat))));
            assert(t3.update(35, Ins::At(Operand::Num(n as nat))) =~= call_ins(ret@, n as nat, f));
        }
        frag
    }

    pub fn gen_if_asm(&mut self, source: &SourceLine) -> (frag: Asm)
        requires
            old(self).wf(),
        ensures
            *final(self) == *old(self),
            frag.comment@ == comment_text(source.source@),
            text_of(frag.lines@) == render_all(if_goto_ins(source.args.arg1@)),
    {
        let mut frag = Asm::new(source, self.asm_reader.if_goto());
        let ghost l = source.args.arg1@;
        frag.patch(4, sym_line(source.args.arg1.as_str()), Ghost(if_goto_ins(blank())), Ghost(Ins::At(Operand::Sym(l))));
        assert(if_goto_ins(blank()).update(4, Ins::At(Operand::Sym(l))) =~= if_goto_ins(l));
        frag
    }

    pub fn gen_goto_asm(&mut self, source: &SourceLine) -> (frag: Asm)
        ensures
            *final(self) == *old(self),
            frag.comment@ == comment_text(source.source@),
            text_of(frag.lines@) == render_all(goto_ins(source.args.arg1@)),
    {
        let lines = vec![sym_line(source.args.arg1.as_str()), op_line(Comp::Jmp)];
        assert(text_of(lines@) =~= render_all(goto_ins(source.args.arg1@)));
        Asm::new(source, lines)
    }

    pub fn gen_label_asm(&mut self, source: &SourceLine) -> (frag: Asm)
        ensures
            *final(self) == *old(self),
            frag.comment@ == comment_text(source.source@),
            text_of(frag.lines@) == render_all(label_ins(source.args.arg1@)),
    {
        let lines = vec![label_line(source.args.arg1.as_str())];
        assert(text_of(lines@) =~= render_all(label_ins(source.args.arg1@)));
        Asm::new(source, lines)
    }

    pub fn gen_add(&mut self, source: &SourceLine) -> (frag: Asm)
        requires
            old(self).wf(),
        ensures
            *final(self) == *old(self),
            frag.comment@ == comment_text(source.source@),
            text_of(frag.lines@) == render_all(binary_ins(Comp::MgetsDplusM)),
    {
        self.gen_sum_asm(source.source.as_str(), Comp::MgetsDplusM)
    }

    pub fn gen_sub(&mut self, source: &SourceLine) -> (frag: Asm)
        requires
            old(self).wf(),
        ensures
            *final(self) == *old(self),
            frag.comment@ == comment_text(source.source@),
            text_of(frag.lines@) == render_all(binary_ins(Comp::MgetsMminusD)),
    {
        self.gen_sum_asm(source.source.as_str(), Comp::MgetsMminusD)
    }

    pub fn gen_and(&mut self, source: &SourceLine) -> (frag: Asm)
        requires
            old(self).wf(),
        ensures
            *final(self) == *old(self),
            frag.comment@ == comment_text(source.source@),
            text_of(frag.lines@) == render_all(binary_ins(Comp::MgetsDandM)),
    {
        self.gen_sum_asm(source.source.as_str(), Comp::MgetsDandM)
    }

    pub fn gen_or(&mut self, source: &SourceLine) -> (frag: Asm)
        requires
            old(self).wf(),
        ensures
            *final(self) == *old(self),
            frag.comment@ == comment_text(source.source@),
            text_of(frag.lines@) == render_all(binary_ins(Comp::MgetsDorM)),
    {
        self.gen_sum_asm(source.source.as_str(), Comp::MgetsDorM)
    }

    pub fn gen_eq(&mut self, source: &SourceLine) -> (frag: Asm)
        requires
            old(self).wf(),
            old(self).lbl_idx < i32::MAX - 1,
        ensures
            final(self).wf(),
            final(self).same_unit(old(self)),
            final(self).lbl_idx == old(self).lbl_idx + 2,
            frag.comment@ == comment_text(source.source@),
            text_of(frag.lines@) == render_all(
                cmp_ins(
                    true_label((old(self).lbl_idx + 1) as nat),
                    end_label((old(self).lbl_idx + 2) as nat),
                    Comp::JumpEq,
                ),
            ),
    {
        self.gen_cmp_asm(source.source.as_str(), Comp::JumpEq)
    }

    pub fn gen_lt(&mut self, source: &SourceLine) -> (frag: Asm)
        requires
            old(self).wf(),
            old(self).lbl_idx < i32::MAX - 1,
        ensures
            final(self).wf(),
            final(self).same_unit(old(self)),
            final(self).lbl_idx == old(self).lbl_idx + 2,
            frag.comment@ == comment_text(source.source@),
            text_of(frag.lines@) == render_all(
                cmp_ins(
                    true_label((old(self).lbl_idx + 1) as nat),
                    end_label((old(self).lbl_idx + 2) as nat),
                    Comp::JumpLt,
                ),
            ),
    {
        self.gen_cmp_asm(source.source.as_str(), Comp::JumpLt)
    }

    pub fn gen_gt(&mut self, source: &SourceLine) -> (frag: Asm)
        requires
            old(self).wf(),
            old(self).lbl_idx < i32::MAX - 1,
        ensures
            final(self).wf(),
            final(self).same_unit(old(self)),
            final(self).lbl_idx == old(self).lbl_idx + 2,
            frag.comment@ == comment_text(source.source@),
            text_of(frag.lines@) == render_all(
                cmp_ins(
                    true_label((old(self).lbl_idx + 1) as nat),
                    end_label((old(self).lbl_idx + 2) as nat),
                    Comp::JumpGt,
                ),
            ),
    {
        self.gen_cmp_asm(source.source.as_str(), Comp::JumpGt)
    }

    pub fn gen_neg(&mut self, source: &SourceLine) -> (frag: Asm)
        requires
            old(self).wf(),
        ensures
            *final(self) == *old(self),
            frag.comment@ == comment_text(source.source@),
            text_of(frag.lines@) == render_all(unary_ins(Comp::MgetsNegD)),
    {
        self.gen_neg_asm(source.source.as_str(), Comp::MgetsNegD)
    }

    pub fn gen_not(&mut self, source: &SourceLine) -> (frag: Asm)
        requires
            old(self).wf(),
        ensures
            *final(self) == *old(self),
            frag.comment@ == comment_text(source.source@),
            text_of(frag.lines@) == render_all(unary_ins(Comp::MgetsNotD)),
    {
        self.gen_neg_asm(source.source.as_str(), Comp::MgetsNotD)
    }

    /// `push <segment> i` for a segment addressed through its base pointer.
    pub fn gen_push(&mut self, source: &SourceLine, mem_seg_lbl: BasePtr) -> (frag: Asm)
        requires
            old(self).wf(),
            has_index(*source),
        ensures
            *final(self) == *old(self),
            frag.comment@ == comment_text(source.source@),
            text_of(frag.lines@) == render_all(push_seg_ins(count_of(*source), mem_seg_lbl)),
    {
        let i = match source.args.arg2 {
            Some(n) => n,
            None => 0,
        };
        self.gen_push_mem_seg_asm(source.source.as_str(), i, mem_seg_lbl)
    }

    /// `push temp i`: register `R(5 + i)`.
    pub fn gen_push_temp(&mut self, source: &SourceLine) -> (frag: Asm)
        requires
            old(self).wf(),
            has_index(*source),
        ensures
            *final(self) == *old(self),
            frag.comment@ == comment_text(source.source@),
            text_of(frag.lines@) == render_all(push_value_ins(Operand::Reg(count_of(*source) + 5))),
    {
        let i = match source.args.arg2 {
            Some(n) => n,
            None => 0,
        };
        let ghost o = Operand::Reg((i + 5) as nat);
        self.gen_push_static_temp_asm(source.source.as_str(), reg_line(i as u64 + 5), Ghost(o))
    }

    /// `push static i`: the variable `<file>.i` of the current unit.
    pub fn gen_push_static(&mut self, source: &SourceLine) -> (frag: Asm)
        requires
            old(self).wf(),
            has_index(*source),
        ensures
            *final(self) == *old(self),
            frag.comment@ == comment_text(source.source@),
            text_of(frag.lines@) == render_all(
                push_value_ins(Operand::Sym(static_name(old(self).filename@, count_of(*source)))),
            ),
    {
        let i = match source.args.arg2 {
            Some(n) => n,
            None => 0,
        };
        let name = join_dec(self.filename.as_str(), ".", i as u64);
        let ghost o = Operand::Sym(name@);
        self.gen_push_static_temp_asm(source.source.as_str(), sym_line(name.as_str()), Ghost(o))
    }

    /// `push constant value`.
    pub fn gen_push_const(&self, source: &SourceLine, value: i32) -> (frag: Asm)
        requires
            self.wf(),
            value >= 0,
        ensures
            frag.comment@ == comment_text(source.source@),
            text_of(frag.lines@) == render_all(push_const_ins(value as nat)),
    {
        let mut frag = Asm::new(source, self.asm_reader.push_const());
        frag.patch(0, num_line(value as u64), Ghost(push_const_ins(0)), Ghost(Ins::At(Operand::Num(value as nat))));
        assert(push_const_ins(0).update(0, Ins::At(Operand::Num(value as nat))) =~= push_const_ins(value as nat));
        frag
    }

    /// `push pointer 0` reads THIS, `push pointer 1` reads THAT.
    pub fn gen_push_ptr(&self, source: &SourceLine) -> (frag: Asm)
        requires
            self.wf(),
            source.args.arg2 == Some(0i32) || source.args.arg2 == Some(1i32),
        ensures
            frag.comment@ == comment_text(source.source@),
            text_of(frag.lines@) == render_all(
                push_value_ins(Operand::Ptr(if source.args.arg2 == Some(0i32) { BasePtr::This } else { BasePtr::That })),
            ),
    {
        if source.args.arg2 == Some(0i32) {
            self.gen_push_ptr_asm(source.source.as_str(), BasePtr::This)
        } else {
            self.gen_push_ptr_asm(source.source.as_str(), BasePtr::That)
        }
    }

    /// `pop <segment> i` for a segment addressed through its base pointer.
    pub fn gen_pop(&mut self, source: &SourceLine, mem_seg_lbl: BasePtr) -> (frag: Asm)
        requires
            old(self).wf(),
            has_index(*source),
        ensures
            *final(self) == *old(self),
            frag.comment@ == comment_text(source.source@),
            text_of(frag.lines@) == render_all(pop_seg_ins(count_of(*source), mem_seg_lbl)),
    {
        let i = match source.args.arg2 {
            Some(n) => n,
            None => 0,
        };
        self.gen_pop_mem_seg_asm(source.source.as_str(), i, mem_seg_lbl)
    }

    /// `pop static i`.
    pub fn gen_pop_static(&mut self, source: &SourceLine) -> (frag: Asm)
        requires
            old(self).wf(),
            has_index(*source),
        ensures
            *final(self) == *old(self),
            frag.comment@ == comment_text(source.source@),
            text_of(frag.lines@) == render_all(
                pop_value_ins(Operand::Sym(static_name(old(self).filename@, count_of(*source)))),
            ),
    {
        let i = match source.args.arg2 {
            Some(n) => n,
            None => 0,
        };
        let name = join_dec(self.filename.as_str(), ".", i as u64);
        let ghost o = Operand::Sym(name@);
        self.gen_pop_static_temp_asm(source.source.as_str(), sym_line(name.as_str()), Ghost(o))
    }

    /// `pop temp i`.
    pub fn gen_pop_temp(&mut self, source: &SourceLine) -> (frag: Asm)
        requires
            old(self).wf(),
            has_index(*source),
        ensures
            *final(self) == *old(self),
            frag.comment@ == comment_text(source.source@),
            text_of(frag.lines@) == render_all(pop_value_ins(Operand::Reg(count_of(*source) + 5))),
    {
        let i = match source.args.arg2 {
            Some(n) => n,
            None => 0,
        };
        let ghost o = Operand::Reg((i + 5) as nat);
        self.gen_pop_static_temp_asm(source.source.as_str(), reg_line(i as u64 + 5), Ghost(o))
    }

    /// `pop pointer 0` writes THIS, `pop pointer 1` writes THAT.
    pub fn gen_pop_ptr(&self, source: &SourceLine) -> (frag: Asm)
        requires
            self.wf(),
            source.args.arg2 == Some(0i32) || source.args.arg2 == Some(1i32),
        ensures
            frag.comment@ == comment_text(source.source@),
            text_of(frag.lines@) == render_all(
                pop_value_ins(Operand::Ptr(if source.args.arg2 == Some(0i32) { BasePtr::This } else { BasePtr::That })),
            ),
    {
        if source.args.arg2 == Some(0i32) {
            self.gen_pop_ptr_asm(source.source.as_str(), BasePtr::This)
        } else {
            self.gen_pop_ptr_asm(source.source.as_str(), BasePtr::That)
        }
    }

    fn gen_push_ptr_asm(&self, comment: &str, mem_seg_lbl: BasePtr) -> (frag: Asm)
        requires
            self.wf(),
        ensures
            frag.comment@ == comment_text(comment@),
            text_of(frag.lines@) == render_all(push_value_ins(Operand::Ptr(mem_seg_lbl))),
    {
        let mut frag = Asm { comment: comment_of(comment), lines: self.asm_reader.push_ptr() };
        let ghost x = Ins::At(Operand::Ptr(mem_seg_lbl));
        frag.patch(0, ptr_line(mem_seg_lbl), Ghost(push_value_ins(Operand::Reg(5))), Ghost(x));
        assert(push_value_ins(Operand::Reg(5)).update(0, x) =~= push_value_ins(Operand::Ptr(mem_seg_lbl)));
        frag
    }

    fn gen_push_static_temp_asm(&mut self, comment: &str, head: String, Ghost(o): Ghost<Operand>) -> (frag: Asm)
        requires
            old(self).wf(),
            head@ == render(Ins::At(o)),
        ensures
            *final(self) == *old(self),
            frag.comment@ == comment_text(comment@),
            text_of(frag.lines@) == render_all(push_value_ins(o)),
    {
        let mut frag = Asm { comment: comment_of(comment), lines: self.asm_reader.push_static_temp() };
        frag.patch(0, head, Ghost(push_value_ins(Operand::Reg(5))), Ghost(Ins::At(o)));
        assert(push_value_ins(Operand::Reg(5)).update(0, Ins::At(o)) =~= push_value_ins(o));
        frag
    }

    fn gen_push_mem_seg_asm(&mut self, comment: &str, mem_index: i32, mem_seg_lbl: BasePtr) -> (frag: Asm)
        requires
            old(self).wf(),
            mem_index >= 0,
        ensures
            *final(self) == *old(self),
            frag.comment@ == comment_text(comment@),
            text_of(frag.lines@) == render_all(push_seg_ins(mem_index as nat, mem_seg_lbl)),
    {
        let mut frag = Asm { comment: comment_of(comment), lines: self.asm_reader.push_mem_seg() };
        let ghost t0 = push_seg_ins(0, BasePtr::Lcl);
        let ghost x0 = Ins::At(Operand::Num(mem_index as nat));
        let ghost x2 = Ins::At(Operand::Ptr(mem_seg_lbl));
        frag.patch(0, num_line(mem_index as u64), Ghost(t0), Ghost(x0));
        frag.patch(2, ptr_line(mem_seg_lbl), Ghost(t0.update(0, x0)), Ghost(x2));
        assert(t0.update(0, x0).update(2, x2) =~= push_seg_ins(mem_index as nat, mem_seg_lbl));
        frag
    }

    fn gen_pop_ptr_asm(&self, comment: &str, mem_seg_lbl: BasePtr) -> (frag: Asm)
        requires
            self.wf(),
        ensures
            frag.comment@ == comment_text(comment@),
            text_of(frag.lines@) == render_all(pop_value_ins(Operand::Ptr(mem_seg_lbl))),
    {
        let mut frag = Asm { comment: comment_of(comment), lines: self.asm_reader.pop_ptr() };
        let ghost x = Ins::At(Operand::Ptr(mem_seg_lbl));
        frag.patch(4, ptr_line(mem_seg_lbl), Ghost(pop_value_ins(Operand::Reg(5))), Ghost(x));
        assert(pop_value_ins(Operand::Reg(5)).update(4, x) =~= pop_value_ins(Operand::Ptr(mem_seg_lbl)));
        frag
    }

    fn gen_pop_mem_seg_asm(&mut self, comment: &str, mem_index: i32, mem_seg_lbl: BasePtr) -> (frag: Asm)
        requires
            old(self).wf(),
            mem_index >= 0,
        ensures
            *final(self) == *old(self),
            frag.comment@ == comment_text(comment@),
            text_of(frag.lines@) == render_all(pop_seg_ins(mem_index as nat, mem_seg_lbl)),
    {
        let mut frag = Asm { comment: comment_of(comment), lines: self.asm_reader.pop_mem_seg() };
        let ghost t0 = pop_seg_ins(0, BasePtr::Lcl);
        let ghost x6 = Ins::At(Operand::Num(mem_index as nat));
        let ghost x8 = Ins::At(Operand::Ptr(mem_seg_lbl));
        frag.patch(6, num_line(mem_index as u64), Ghost(t0), Ghost(x6));
        frag.patch(8, ptr_line(mem_seg_lbl), Ghost(t0.update(6, x6)), Ghost(x8));
        assert(t0.update(6, x6).update(8, x8) =~= pop_seg_ins(mem_index as nat, mem_seg_lbl));
        frag
    }

    fn gen_pop_static_temp_asm(&mut self, comment: &str, head: String, Ghost(o): Ghost<Operand>) -> (frag: Asm)
        requires
            old(self).wf(),
            head@ == render(Ins::At(o)),
        ensures
            *final(self) == *old(self),
            frag.comment@ == comment_text(comment@),
            text_of(frag.lines@) == render_all(pop_value_ins(o)),
    {
        let mut frag = Asm { comment: comment_of(comment), lines: self.asm_reader.pop_static_temp() };
        frag.patch(4, head, Ghost(pop_value_ins(Operand::Reg(5))), Ghost(Ins::At(o)));
        assert(pop_value_ins(Operand::Reg(5)).update(4, Ins::At(o)) =~= pop_value_ins(o));
        frag
    }

    fn gen_neg_asm(&self, comment: &str, neg_cmd: Comp) -> (frag: Asm)
        requires
            self.wf(),
        ensures
            frag.comment@ == comment_text(comment@),
            text_of(frag.lines@) == render_all(unary_ins(neg_cmd)),
    {
        let mut frag = Asm { comment: comment_of(comment), lines: self.asm_reader.neg() };
        frag.patch(4, op_line(neg_cmd), Ghost(unary_ins(Comp::MgetsNegD)), Ghost(Ins::Op(neg_cmd)));
        assert(unary_ins(Comp::MgetsNegD).update(4, Ins::Op(neg_cmd)) =~= unary_ins(neg_cmd));
        frag
    }

    fn gen_sum_asm(&self, comment: &str, sum_cmd: Comp) -> (frag: Asm)
        requires
            self.wf(),
        ensures
            frag.comment@ == comment_text(comment@),
            text_of(frag.lines@) == render_all(binary_ins(sum_cmd)),
    {
        let mut frag = Asm { comment: comment_of(comment), lines: self.asm_reader.sum() };
        frag.patch(7, op_line(sum_cmd), Ghost(binary_ins(Comp::MgetsDplusM)), Ghost(Ins::Op(sum_cmd)));
        assert(binary_ins(Comp::MgetsDplusM).update(7, Ins::Op(sum_cmd)) =~= binary_ins(sum_cmd));
        frag
    }

    fn gen_cmp_asm(&mut self, comment: &str, compare_cmd: Comp) -> (frag: Asm)
        requires
            old(self).wf(),
            old(self).lbl_idx < i32::MAX - 1,
        ensures
            final(self).wf(),
            final(self).same_unit(old(self)),
            final(self).lbl_idx == old(self).lbl_idx + 2,
            frag.comment@ == comment_text(comment@),
            text_of(frag.lines@) == render_all(
                cmp_ins(
                    true_label((old(self).lbl_idx + 1) as nat),
                    end_label((old(self).lbl_idx + 2) as nat),
                    compare_cmd,
                ),
            ),
    {
        let mut frag = Asm { comment: comment_of(comment), lines: self.asm_reader.cmp() };
        let a = self.next_lbl_idx();
        let true_lbl = join_dec("TRUE_", "", a as u64);
        let b = self.next_lbl_idx();
        let end_lbl = join_dec("END_", "", b as u64);
        proof {
            reveal_strlit("");
            assert(true_lbl@ =~= true_label(a as nat));
            assert(end_lbl@ =~= end_label(b as nat));
        }
        let ghost t = true_lbl@;
        let ghost e = end_lbl@;
        let ghost t0 = cmp_ins(blank(), blank(), Comp::JumpEq);
        let ghost t1 = t0.update(15, Ins::Label(t));
        let ghost t2 = t1.update(19, Ins::Label(e));
        let ghost t3 = t2.update(9, Ins::Op(compare_cmd));
        let ghost t4 = t3.update(8, Ins::At(Operand::Sym(t)));
        frag.patch(15, label_line(true_lbl.as_str()), Ghost(t0), Ghost(Ins::Label(t)));
        frag.patch(19, label_line(end_lbl.as_str()), Ghost(t1), Ghost(Ins::Label(e)));
        frag.patch(9, op_line(compare_cmd), Ghost(t2), Ghost(Ins::Op(compare_cmd)));
        frag.patch(8, sym_line(true_lbl.as_str()), Ghost(t3), Ghost(Ins::At(Operand::Sym(t))));
        frag.patch(13, sym_line(end_lbl.as_str()), Ghost(t4), Ghost(Ins::At(Operand::Sym(e))));
        assert(t4.update(13, Ins::At(Operand::Sym(e))) =~= cmp_ins(t, e, compare_cmd));
        frag
    }

    fn next_lbl_idx(&mut self) -> (r: i32)
        requires
            old(self).lbl_idx < i32::MAX,
        ensures
            final(self).lbl_idx == old(self).lbl_idx + 1,
            r == final(self).lbl_idx,
            final(self).filename == old(self).filename,
            final(self).asm_reader == old(self).asm_reader,
    {
        self.lbl_idx = self.lbl_idx + 1;
        self.lbl_idx
    }
}

/// Replaces line `i` of lines that are the text of `p`.
fn patch_lines(v: &mut Vec<String>, i: usize, line: String, Ghost(p): Ghost<Seq<Ins>>, Ghost(x): Ghost<Ins>)
    requires
        text_of(old(v)@) == render_all(p),
        i < p.len(),
        line@ == render(x),
    ensures
        text_of(final(v)@) == render_all(p.update(i as int, x)),
{
    assert(text_of(v@).len() == v@.len());
    assert(render_all(p).len() == p.len());
    proof {
        lemma_text_update(v@, i as int, line);
        lemma_render_update(p, i as int, x);
    }
    v.set(i, line);
}

} // verus!
