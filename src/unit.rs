//! Translation of whole source files and of multi-file units.
use vstd::prelude::*;
use crate::code::{command_ins, label_cost, Code};
use crate::codegen::{comment_text, Asm};
use crate::hack::{render_all, text_of, Ins};
use crate::line::{ErrorKind, TranslateError};
use crate::parser::{cleaned, count_ok, normalize, view_of, LineParser, Parser};

verus! {

/// The index just after the last `/` among the first `i` characters.
pub open spec fn after_last_slash(p: Seq<char>, i: int) -> int
    decreases i,
{
    if i <= 0 {
        0
    } else if p[i - 1] == '/' {
        i
    } else {
        after_last_slash(p, i - 1)
    }
}

/// The file name of a path.
pub open spec fn base_name(p: Seq<char>) -> Seq<char> {
    p.subrange(after_last_slash(p, p.len() as int), p.len() as int)
}

/// The index of the last `.` among the first `i` characters, or the length
/// where there is none.
pub open spec fn last_dot(s: Seq<char>, i: int) -> int
    decreases i,
{
    if i <= 0 {
        s.len() as int
    } else if s[i - 1] == '.' {
        i - 1
    } else {
        last_dot(s, i - 1)
    }
}

/// The file name without its extension: the unit name of a source file.
pub open spec fn stem(p: Seq<char>) -> Seq<char> {
    let b = base_name(p);
    b.subrange(0, last_dot(b, b.len() as int))
}

/// The translation of a normalized line when the counter stands at `k`.
#[verifier::opaque]
pub open spec fn line_result(file: Seq<char>, k: nat, norm: Seq<char>) -> Result<Seq<Ins>, ErrorKind> {
    if !count_ok(norm) {
        Err(ErrorKind::InvalidNumericArgument)
    } else if k >= i32::MAX - 1 {
        Err(ErrorKind::LabelSpaceExhausted)
    } else {
        command_ins(file, k, view_of(norm))
    }
}

/// How many labels a normalized line draws from the counter.
#[verifier::opaque]
pub open spec fn line_cost(norm: Seq<char>) -> int {
    label_cost(view_of(norm))
}

/// The counter before line `i`, when it stood at `k0` before line 0.
pub open spec fn counter_at(k0: int, cl: Seq<Seq<char>>, i: int) -> int
    decreases i,
{
    if i <= 0 {
        k0
    } else {
        counter_at(k0, cl, i - 1) + line_cost(cl[i - 1])
    }
}

pub proof fn lemma_counter_agree(k0: int, a: Seq<Seq<char>>, b: Seq<Seq<char>>, i: int)
    requires
        0 <= i <= a.len(),
        i <= b.len(),
        forall|j: int| 0 <= j < i ==> a[j] == b[j],
    ensures
        counter_at(k0, a, i) == counter_at(k0, b, i),
    decreases i,
{
    if i > 0 {
        lemma_counter_agree(k0, a, b, i - 1);
    }
}

/// The file name of a path.
pub fn file_base_name(path: &str) -> (r: &str)
    ensures
        r@ == base_name(path@),
{
    let n = path.unicode_len();
    let mut i: usize = n;
    while i > 0 && path.get_char(i - 1) != '/'
        invariant
            n == path@.len(),
            i <= n,
            after_last_slash(path@, n as int) == after_last_slash(path@, i as int),
        decreases i,
    {
        i = i - 1;
    }
    path.substring_char(i, n)
}

/// The unit name of a path.
pub fn file_stem(path: &str) -> (r: String)
    ensures
        r@ == stem(path@),
{
    let base = file_base_name(path);
    let m = base.unicode_len();
    let mut j: usize = m;
    while j > 0 && base.get_char(j - 1) != '.'
        invariant
            m == base@.len(),
            j <= m,
            last_dot(base@, m as int) == last_dot(base@, j as int),
        decreases j,
    {
        j = j - 1;
    }
    let end = if j == 0 { m } else { j - 1 };
    String::from_str(base.substring_char(0, end))
}

/// The fragments `v` are the translations of the lines `cl`, the counter
/// standing at `k0` before the first.
#[verifier::opaque]
pub open spec fn frags_match(v: Seq<Asm>, f: Seq<char>, k0: int, cl: Seq<Seq<char>>) -> bool {
    &&& v.len() == cl.len()
    &&& forall|i: int|
        0 <= i < cl.len() ==> #[trigger] line_result(f, counter_at(k0, cl, i) as nat, cl[i]) is Ok
            && v[i].comment@ == comment_text(cl[i]) && text_of(v[i].lines@) == render_all(
            line_result(f, counter_at(k0, cl, i) as nat, cl[i])->Ok_0,
        )
}

/// Line `i` of `cl` is the first that cannot be translated, for reason
/// `kind`.
pub open spec fn fails_first(f: Seq<char>, k0: int, cl: Seq<Seq<char>>, i: int, kind: ErrorKind) -> bool {
    &&& 0 <= i < cl.len()
    &&& forall|j: int| 0 <= j < i ==> #[trigger] line_result(f, counter_at(k0, cl, j) as nat, cl[j]) is Ok
    &&& line_result(f, counter_at(k0, cl, i) as nat, cl[i]) == Err::<Seq<Ins>, ErrorKind>(kind)
}

pub open spec fn prefix_cleaned(raw: Seq<String>, k: int) -> Seq<Seq<char>> {
    cleaned(text_of(raw.subrange(0, k)))
}

proof fn lemma_prefix_step(raw: Seq<String>, k: int)
    requires
        0 <= k < raw.len(),
    ensures
        crate::parser::line_words(raw[k]@).len() == 0 ==> prefix_cleaned(raw, k + 1) == prefix_cleaned(raw, k),
        crate::parser::line_words(raw[k]@).len() != 0 ==> prefix_cleaned(raw, k + 1) == prefix_cleaned(raw, k).push(
            crate::parser::normalize(raw[k]@),
        ),
{
    let after_raw = text_of(raw.subrange(0, k + 1));
    assert(after_raw.drop_last() =~= text_of(raw.subrange(0, k)));
    assert(after_raw.last() == raw[k]@);
}

/// Translates one normalized line.
fn translate_line(code: &mut Code, norm: &String) -> (r: Result<Asm, ErrorKind>)
    requires
        old(code).wf(),
    ensures
        final(code).wf(),
        final(code).asm_gen.filename == old(code).asm_gen.filename,
        ({
            let res = line_result(old(code).asm_gen.filename@, old(code).asm_gen.lbl_idx as nat, norm@);
            match r {
                Ok(frag) => {
                    &&& res is Ok
                    &&& text_of(frag.lines@) == render_all(res->Ok_0)
                    &&& frag.comment@ == comment_text(norm@)
                    &&& final(code).asm_gen.lbl_idx == old(code).asm_gen.lbl_idx + line_cost(norm@)
                },
                Err(e) => res == Err::<Seq<Ins>, ErrorKind>(e),
            }
        }),
{
    reveal(line_result);
    reveal(line_cost);
    match Parser::classify(norm.as_str()) {
        None => Err(ErrorKind::InvalidNumericArgument),
        Some(line) => {
            if code.asm_gen.lbl_idx >= i32::MAX - 1 {
                return Err(ErrorKind::LabelSpaceExhausted);
            }
            assert(line.view() == view_of(norm@));
            code.gen_asm(&line)
        },
    }
}

proof fn lemma_frags_push(v: Seq<Asm>, f: Seq<char>, k0: int, cl: Seq<Seq<char>>, frag: Asm, norm: Seq<char>)
    requires
        frags_match(v, f, k0, cl),
        line_result(f, counter_at(k0, cl, cl.len() as int) as nat, norm) is Ok,
        frag.comment@ == comment_text(norm),
        text_of(frag.lines@) == render_all(line_result(f, counter_at(k0, cl, cl.len() as int) as nat, norm)->Ok_0),
    ensures
        frags_match(v.push(frag), f, k0, cl.push(norm)),
        counter_at(k0, cl.push(norm), cl.len() + 1int) == counter_at(k0, cl, cl.len() as int) + line_cost(norm),
{
    reveal(frags_match);
    let c2 = cl.push(norm);
    assert forall|i: int| 0 <= i <= cl.len() implies #[trigger] counter_at(k0, c2, i) == counter_at(k0, cl, i) by {
        lemma_counter_agree(k0, cl, c2, i);
    }
    assert(c2[cl.len() as int] == norm);
    assert(counter_at(k0, c2, cl.len() + 1int) == counter_at(k0, c2, cl.len() as int) + line_cost(
        c2[cl.len() as int],
    ));
}

/// The raw lines `0..k` end in a line whose normalized form fails: it is the
/// first failure of the whole source.
proof fn lemma_first_failure(raw: Seq<String>, k: int, f: Seq<char>, k0: int, norm: Seq<char>, kind: ErrorKind, v: Seq<Asm>)
    requires
        0 <= k < raw.len(),
        prefix_cleaned(raw, k + 1) == prefix_cleaned(raw, k).push(norm),
        frags_match(v, f, k0, prefix_cleaned(raw, k)),
        line_result(f, counter_at(k0, prefix_cleaned(raw, k), prefix_cleaned(raw, k).len() as int) as nat, norm) == Err::<Seq<Ins>, ErrorKind>(kind),
    ensures
        fails_first(f, k0, cleaned(text_of(raw)), prefix_cleaned(raw, k).len() as int, kind),
        cleaned(text_of(raw))[prefix_cleaned(raw, k).len() as int] == norm,
{
    reveal(frags_match);
    let all = cleaned(text_of(raw));
    let c = prefix_cleaned(raw, k);
    let c1 = prefix_cleaned(raw, k + 1);
    let idx = c.len() as int;
    assert(text_of(raw.subrange(0, k + 1)) =~= text_of(raw).subrange(0, k + 1));
    crate::parser::lemma_cleaned_prefix(text_of(raw), k + 1);
    assert(c1[idx] == norm);
    assert forall|j: int| 0 <= j <= idx implies #[trigger] counter_at(k0, all, j) == counter_at(k0, c, j) by {
        lemma_counter_agree(k0, all, c1, j);
        lemma_counter_agree(k0, c, c1, j);
    }
    assert forall|j: int| 0 <= j < idx implies #[trigger] line_result(f, counter_at(k0, all, j) as nat, all[j]) is Ok by {
        assert(counter_at(k0, all, j) == counter_at(k0, c, j));
        assert(all[j] == c1[j]);
        assert(c1[j] == c[j]);
    }
}

/// Translates one source file, given as its path and raw lines, with the
/// unit's generator: its unit name becomes the file's stem, and its label
/// counter goes on from where it stands. Stops at the first line that cannot
/// be translated.
pub fn gen_asm(code: &mut Code, filename: &str, raw: &Vec<String>) -> (r: Result<Vec<Asm>, TranslateError>)
    requires
        old(code).wf(),
    ensures
        final(code).wf(),
        final(code).asm_gen.filename@ == stem(filename@),
        ({
            let cl = cleaned(text_of(raw@));
            let f = stem(filename@);
            let k0 = old(code).asm_gen.lbl_idx as int;
            match r {
                Ok(v) => {
                    &&& frags_match(v@, f, k0, cl)
                    &&& final(code).asm_gen.lbl_idx == counter_at(k0, cl, cl.len() as int)
                },
                Err(e) => {
                    &&& e.file@ == filename@
                    &&& exists|i: int|
                        fails_first(f, k0, cl, i, e.kind) && #[trigger] cl[i] == e.line@ && e.file@
                            == filename@
                    &&& 1 <= e.line_num <= raw@.len()
                    &&& normalize(raw@[e.line_num - 1]@) == e.line@
                },
            }
        }),
{
    let stem_name = file_stem(filename);
    code.set_filename(stem_name.as_str());
    let ghost f = stem_name@;
    let ghost k0 = code.asm_gen.lbl_idx as int;
    let mut out: Vec<Asm> = Vec::new();
    let mut k: usize = 0;
    assert(prefix_cleaned(raw@, 0) =~= Seq::<Seq<char>>::empty()) by {
        assert(text_of(raw@.subrange(0, 0)) =~= Seq::<Seq<char>>::empty());
    }
    assert(frags_match(out@, f, k0, prefix_cleaned(raw@, 0))) by {
        reveal(frags_match);
    }
    while k < raw.len()
        invariant
            k <= raw@.len(),
            f == stem(filename@),
            code.wf(),
            code.asm_gen.filename@ == f,
            k0 >= 0,
            k0 == old(code).asm_gen.lbl_idx,
            frags_match(out@, f, k0, prefix_cleaned(raw@, k as int)),
            out@.len() == prefix_cleaned(raw@, k as int).len(),
            code.asm_gen.lbl_idx == counter_at(k0, prefix_cleaned(raw@, k as int), out@.len() as int),
        decreases raw@.len() - k,
    {
        let ghost before = prefix_cleaned(raw@, k as int);
        proof {
            lemma_prefix_step(raw@, k as int);
        }
        match LineParser::clean_line(raw[k].as_str()) {
            None => {},
            Some(norm) => {
                match translate_line(code, &norm) {
                    Err(kind) => {
                        proof {
                            lemma_first_failure(raw@, k as int, f, k0, norm@, kind, out@);
                        }
                        let ghost idx = before.len() as int;
                        let e = TranslateError {
                            kind,
                            file: String::from_str(filename),
                            line: norm,
                            line_num: k + 1,
                        };
                        assert(fails_first(stem(filename@), k0, cleaned(text_of(raw@)), idx, e.kind)
                            && cleaned(text_of(raw@))[idx] == e.line@ && e.file@ == filename@);
                        return Err(e);
                    },
                    Ok(frag) => {
                        proof {
                            lemma_frags_push(out@, f, k0, before, frag, norm@);
                        }
                        out.push(frag);
                    },
                }
            },
        }
        k = k + 1;
    }
    assert(raw@.subrange(0, k as int) =~= raw@);
    assert(prefix_cleaned(raw@, k as int) == cleaned(text_of(raw@)));
    Ok(out)
}

/// One source file of a unit: its path and its raw lines.
pub struct SourceFile {
    pub name: String,
    pub lines: Vec<String>,
}

/// The entry-point file, which holds the program's entry function.
pub open spec fn is_entry(name: Seq<char>) -> bool {
    base_name(name) == "Sys.vm"@
}

/// A file with the source extension.
pub open spec fn is_source(name: Seq<char>) -> bool {
    name.len() >= 3 && name.subrange(name.len() - 3, name.len() as int) == ".vm"@
}

/// The files that the general sweep takes, in order: those with the source
/// extension, but for the entry point.
pub open spec fn sweep(fs: Seq<SourceFile>) -> Seq<SourceFile>
    decreases fs.len(),
{
    if fs.len() == 0 {
        Seq::empty()
    } else if is_source(fs.last().name@) && !is_entry(fs.last().name@) {
        sweep(fs.drop_last()).push(fs.last())
    } else {
        sweep(fs.drop_last())
    }
}

/// The normalized lines of a file.
pub open spec fn file_lines(f: SourceFile) -> Seq<Seq<char>> {
    cleaned(text_of(f.lines@))
}

/// The counter after a file whose translation starts with it at `k`.
pub open spec fn file_end(k: int, f: SourceFile) -> int {
    counter_at(k, file_lines(f), file_lines(f).len() as int)
}

/// Every line of the file translates, the counter starting at `k`.
pub open spec fn file_ok(k: int, f: SourceFile) -> bool {
    forall|i: int|
        0 <= i < file_lines(f).len() ==> #[trigger] line_result(
            stem(f.name@),
            counter_at(k, file_lines(f), i) as nat,
            file_lines(f)[i],
        ) is Ok
}

/// The counter after the files `fs`, translated one after another from `k0`.
pub open spec fn counter_after(k0: int, fs: Seq<SourceFile>) -> int
    decreases fs.len(),
{
    if fs.len() == 0 {
        k0
    } else {
        file_end(counter_after(k0, fs.drop_last()), fs.last())
    }
}

/// Every line of every file of `fs` translates, with one counter carried on
/// from file to file.
pub open spec fn files_ok(k0: int, fs: Seq<SourceFile>) -> bool
    decreases fs.len(),
{
    if fs.len() == 0 {
        true
    } else {
        files_ok(k0, fs.drop_last()) && file_ok(counter_after(k0, fs.drop_last()), fs.last())
    }
}

/// `v` is the fragments of the files `fs` one after another, each file's
/// fragments those of its lines with the counter carried on from the file
/// before.
pub open spec fn files_match(v: Seq<Asm>, fs: Seq<SourceFile>, k0: int) -> bool
    decreases fs.len(),
{
    if fs.len() == 0 {
        v.len() == 0
    } else {
        let n = v.len() - file_lines(fs.last()).len();
        &&& 0 <= n
        &&& files_match(v.subrange(0, n), fs.drop_last(), k0)
        &&& frags_match(
            v.subrange(n, v.len() as int),
            stem(fs.last().name@),
            counter_after(k0, fs.drop_last()),
            file_lines(fs.last()),
        )
    }
}

/// The entry-point file, where there is one, as a sequence of at most one.
pub open spec fn entry_part(fs: Seq<SourceFile>) -> Seq<SourceFile> {
    match entry_index(fs, fs.len() as int) {
        Some(e) => seq![fs[e]],
        None => Seq::empty(),
    }
}

/// The files of a unit in the order they are translated.
pub open spec fn unit_files(fs: Seq<SourceFile>) -> Seq<SourceFile> {
    entry_part(fs) + sweep(fs)
}

/// The counter when the unit's first file starts: the bootstrap draws one
/// label where there is an entry point.
pub open spec fn unit_start(fs: Seq<SourceFile>) -> int {
    if entry_index(fs, fs.len() as int) is Some { 1 } else { 0 }
}

proof fn lemma_files_push(v: Seq<Asm>, fs: Seq<SourceFile>, k0: int, w: Seq<Asm>, f: SourceFile)
    requires
        files_match(v, fs, k0),
        files_ok(k0, fs),
        frags_match(w, stem(f.name@), counter_after(k0, fs), file_lines(f)),
    ensures
        files_match(v + w, fs.push(f), k0),
        files_ok(k0, fs.push(f)),
        counter_after(k0, fs.push(f)) == file_end(counter_after(k0, fs), f),
{
    reveal(frags_match);
    let g = fs.push(f);
    assert(g.drop_last() =~= fs);
    assert(g.last() == f);
    assert((v + w).subrange(0, v.len() as int) =~= v);
    assert((v + w).subrange(v.len() as int, (v + w).len() as int) =~= w);
    assert(file_ok(counter_after(k0, fs), f));
}

proof fn lemma_sweep_prefix(fs: Seq<SourceFile>, k: int)
    requires
        0 <= k <= fs.len(),
    ensures
        sweep(fs.subrange(0, k)).len() <= sweep(fs).len(),
        forall|i: int|
            0 <= i < sweep(fs.subrange(0, k)).len() ==> #[trigger] sweep(fs.subrange(0, k))[i]
                == sweep(fs)[i],
    decreases fs.len(),
{
    if k < fs.len() {
        assert(fs.drop_last().subrange(0, k) =~= fs.subrange(0, k));
        lemma_sweep_prefix(fs.drop_last(), k);
    } else {
        assert(fs.subrange(0, k) =~= fs);
    }
}

/// The index of the first entry-point file among the first `i`, if any.
pub open spec fn entry_index(fs: Seq<SourceFile>, i: int) -> Option<int>
    decreases i,
{
    if i <= 0 {
        None
    } else if entry_index(fs, i - 1) is Some {
        entry_index(fs, i - 1)
    } else if is_entry(fs[i - 1].name@) {
        Some(i - 1)
    } else {
        None
    }
}

/// Whether the path names the entry-point file.
pub fn is_entry_file(name: &str) -> (r: bool)
    ensures
        r == is_entry(name@),
{
    crate::parser::same_text(file_base_name(name), "Sys.vm")
}

/// Whether the path has the source extension.
pub fn is_source_file(name: &str) -> (r: bool)
    ensures
        r == is_source(name@),
{
    let n = name.unicode_len();
    n >= 3 && crate::parser::same_text(name.substring_char(n - 3, n), ".vm")
}

/// The bootstrap fragment, then the translation of the entry-point file.
pub fn gen_init_asm(code: &mut Code, sys: &SourceFile) -> (r: Result<Vec<Asm>, TranslateError>)
    requires
        old(code).wf(),
        old(code).asm_gen.lbl_idx < i32::MAX,
    ensures
        final(code).wf(),
        r matches Ok(v) ==> {
            &&& v@.len() >= 1
            &&& v@[0].comment@ == crate::codegen::bootstrap_comment()
            &&& text_of(v@[0].lines@) == render_all(
                crate::frags::init_ins() + crate::frags::call_fragment(
                    crate::codegen::ret_label(old(code).asm_gen.filename@, (old(code).asm_gen.lbl_idx + 1) as nat),
                    0,
                    crate::codegen::entry_function(),
                ),
            )
            &&& frags_match(
                v@.drop_first(),
                stem(sys.name@),
                old(code).asm_gen.lbl_idx + 1,
                cleaned(text_of(sys.lines@)),
            )
        },
        r is Ok ==> final(code).asm_gen.lbl_idx == file_end(old(code).asm_gen.lbl_idx + 1, *sys),
        r is Err ==> exists|i: int| #[trigger] fails_first(stem(sys.name@), old(code).asm_gen.lbl_idx + 1, cleaned(text_of(sys.lines@)), i, r->Err_0.kind),
        r matches Err(e) ==> e.file@ == sys.name@,
{
    let boot = code.gen_init_asm();
    let mut out = vec![boot];
    match gen_asm(code, sys.name.as_str(), &sys.lines) {
        Err(e) => Err(e),
        Ok(v) => {
            let ghost vv = v@;
            crate::frags::join_frags(&mut out, v);
            assert(out@.drop_first() =~= vv);
            Ok(out)
        },
    }
}

/// Translates a multi-file unit: the bootstrap and the entry-point file
/// first where there is one, then every other source file in the order
/// given, with one label counter for the whole unit. Stops at the first line
/// of these files, in that order, that cannot be translated.
pub fn translate_dir(files: &Vec<SourceFile>) -> (r: Result<Vec<Asm>, TranslateError>)
    ensures
        ({
            let fs = unit_files(files@);
            let k = unit_start(files@);
            match r {
                Ok(v) => {
                    &&& v@.len() >= k
                    &&& boot_ok(v@, k == 1)
                    &&& files_match(v@.subrange(k, v@.len() as int), fs, k)
                },
                Err(e) => exists|i: int|
                    0 <= i < fs.len() && files_ok(k, fs.subrange(0, i)) && #[trigger] fs[i].name@ == e.file@
                        && exists|j: int|
                        fails_first(
                            stem(fs[i].name@),
                            counter_after(k, fs.subrange(0, i)),
                            file_lines(fs[i]),
                            j,
                            e.kind,
                        ),
            }
        }),
{
    let mut code = Code::new("SysInitBootstrap");
    let mut out: Vec<Asm> = Vec::new();
    let mut i: usize = 0;
    let mut found = false;
    while !found && i < files.len()
        invariant
            i <= files@.len(),
            entry_index(files@, i as int) is None,
            found ==> i < files@.len() && is_entry(files@[i as int].name@),
            !found ==> i < files@.len() || i == files@.len(),
        decreases files@.len() - i + (if found { 0int } else { 1int }),
    {
        if is_entry_file(files[i].name.as_str()) {
            found = true;
        } else {
            i = i + 1;
        }
    }
    assert(entry_index(files@, files@.len() as int) == if i < files@.len() { Some(i as int) } else { None::<int> }) by {
        lemma_entry_index_stable(files@, i as int);
    }
    let ghost start: int = unit_start(files@);
    let ghost ent = entry_part(files@);
    let ghost fs = unit_files(files@);
    assert(files@.subrange(0, 0) =~= Seq::<SourceFile>::empty());
    assert(sweep(files@.subrange(0, 0)) == Seq::<SourceFile>::empty());
    if i < files.len() {
        let v = match gen_init_asm(&mut code, &files[i]) {
            Ok(v) => v,
            Err(e) => {
                proof {
                    assert(fs[0] == files@[i as int]);
                    assert(fs.subrange(0, 0) =~= Seq::<SourceFile>::empty());
                    assert(files_ok(start, fs.subrange(0, 0)));
                    assert(counter_after(start, fs.subrange(0, 0)) == 1);
                    let j = choose|j: int| fails_first(stem(files@[i as int].name@), 1, file_lines(files@[i as int]), j, e.kind);
                    assert(fails_first(stem(fs[0].name@), counter_after(start, fs.subrange(0, 0)), file_lines(fs[0]), j, e.kind));
                    assert(fs[0].name@ == e.file@);
                }
                return Err(e);
            },
        };
        proof {
            assert(v@.subrange(1, v@.len() as int) =~= Seq::<Asm>::empty() + v@.drop_first());
            lemma_files_push(Seq::empty(), Seq::empty(), 1, v@.drop_first(), files@[i as int]);
            assert(Seq::<SourceFile>::empty().push(files@[i as int]) =~= ent);
            assert(ent + sweep(files@.subrange(0, 0)) =~= ent);
        }
        out = v;
    } else {
        assert(ent + sweep(files@.subrange(0, 0)) =~= Seq::<SourceFile>::empty());
        assert(out@.subrange(0, 0) =~= Seq::<Asm>::empty());
    }
    let mut j: usize = 0;
    while j < files.len()
        invariant
            j <= files@.len(),
            code.wf(),
            start == unit_start(files@),
            ent == entry_part(files@),
            fs == unit_files(files@),
            out@.len() >= start,
            boot_ok(out@, start == 1),
            files_match(out@.subrange(start, out@.len() as int), ent + sweep(files@.subrange(0, j as int)), start),
            files_ok(start, ent + sweep(files@.subrange(0, j as int))),
            code.asm_gen.lbl_idx == counter_after(start, ent + sweep(files@.subrange(0, j as int))),
        decreases files@.len() - j,
    {
        let ghost pre = files@.subrange(0, j as int);
        let ghost done = ent + sweep(pre);
        assert(files@.subrange(0, j + 1).drop_last() =~= pre);
        assert(files@.subrange(0, j + 1).last() == files@[j as int]);
        let name = files[j].name.as_str();
        if is_source_file(name) && !is_entry_file(name) {
            let v = match gen_asm(&mut code, name, &files[j].lines) {
                Ok(v) => v,
                Err(e) => {
                    proof {
                        lemma_sweep_prefix(files@, j + 1);
                        let idx = done.len() as int;
                        assert(sweep(files@.subrange(0, j + 1)) == sweep(pre).push(files@[j as int]));
                        let sw1 = sweep(files@.subrange(0, j + 1));
                        assert(sw1[sweep(pre).len() as int] == files@[j as int]);
                        assert(sweep(files@)[sweep(pre).len() as int] == files@[j as int]);
                        assert(fs[idx] == files@[j as int]);
                        assert forall|m: int| 0 <= m < idx implies #[trigger] fs.subrange(0, idx)[m] == done[m] by {
                            if m >= ent.len() {
                                let q = m - ent.len();
                                assert(sw1[q] == sweep(pre)[q]);
                                assert(sw1[q] == sweep(files@)[q]);
                            }
                        }
                        assert(fs.subrange(0, idx) =~= done);
                        let jj = choose|jj: int| fails_first(stem(name@), counter_after(start, done), file_lines(files@[j as int]), jj, e.kind);
                        assert(fails_first(stem(fs[idx].name@), counter_after(start, fs.subrange(0, idx)), file_lines(fs[idx]), jj, e.kind));
                        assert(fs[idx].name@ == e.file@);
                    }
                    return Err(e);
                },
            };
            proof {
                lemma_files_push(out@.subrange(start, out@.len() as int), done, start, v@, files@[j as int]);
                assert(done.push(files@[j as int]) =~= ent + sweep(files@.subrange(0, j + 1)));
            }
            let ghost o = out@;
            crate::frags::join_frags(&mut out, v);
            assert(out@.subrange(start, out@.len() as int) =~= o.subrange(start, o.len() as int) + v@);
        }
        j = j + 1;
    }
    assert(files@.subrange(0, j as int) =~= files@);
    Ok(out)
}

/// Where there is an entry point, the first fragment is the bootstrap.
pub open spec fn boot_ok(v: Seq<Asm>, has_entry: bool) -> bool {
    has_entry ==> v.len() >= 1 && v[0].comment@ == crate::codegen::bootstrap_comment() && text_of(
        v[0].lines@,
    ) == render_all(
        crate::frags::init_ins() + crate::frags::call_fragment(
            crate::codegen::ret_label("SysInitBootstrap"@, 1),
            0,
            crate::codegen::entry_function(),
        ),
    )
}

proof fn lemma_entry_index_stable(fs: Seq<SourceFile>, i: int)
    requires
        0 <= i <= fs.len(),
        entry_index(fs, i) is None,
        i < fs.len() ==> is_entry(fs[i].name@),
    ensures
        entry_index(fs, fs.len() as int) == if i < fs.len() { Some(i) } else { None::<int> },
    decreases fs.len() - i,
{
    if i < fs.len() {
        lemma_entry_index_from(fs, fs.len() as int, i);
    }
}

proof fn lemma_entry_index_from(fs: Seq<SourceFile>, n: int, i: int)
    requires
        0 <= i < n <= fs.len(),
        entry_index(fs, i) is None,
        is_entry(fs[i].name@),
    ensures
        entry_index(fs, n) == Some(i),
    decreases n,
{
    if n > i + 1 {
        lemma_entry_index_from(fs, n - 1, i);
    }
}

} // verus!
