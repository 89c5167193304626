//! The tokenizer and the command classifier.
use vstd::prelude::*;
use crate::hack::text_of;
use crate::line::{Args, ArithOp, CmdView, CommandType, ErrorKind, MemSeg, SourceLine, TranslateError};

verus! {

/// The characters with the Unicode `White_Space` property.
pub open spec fn is_ws(c: char) -> bool {
    ('\u{9}' <= c && c <= '\u{d}') || c == ' ' || c == '\u{85}' || c == '\u{a0}' || c == '\u{1680}'
        || ('\u{2000}' <= c && c <= '\u{200a}') || c == '\u{2028}' || c == '\u{2029}' || c
        == '\u{202f}' || c == '\u{205f}' || c == '\u{3000}'
}

/// Whether a comment marker `//` starts at index `j`.
pub open spec fn comment_at(s: Seq<char>, j: int) -> bool {
    0 <= j && j + 1 < s.len() && s[j] == '/' && s[j + 1] == '/'
}

/// The first index at or after `from` where a comment starts, or the length.
pub open spec fn first_comment(s: Seq<char>, from: int) -> int
    decreases s.len() - from,
{
    if from >= s.len() {
        s.len() as int
    } else if comment_at(s, from) {
        from
    } else {
        first_comment(s, from + 1)
    }
}

/// The line without its comment.
pub open spec fn strip_comment(s: Seq<char>) -> Seq<char> {
    s.subrange(0, first_comment(s, 0))
}

/// The maximal runs of non-whitespace characters, in order.
pub open spec fn words(s: Seq<char>) -> Seq<Seq<char>>
    decreases s.len(),
{
    if s.len() == 0 {
        Seq::empty()
    } else {
        let w = words(s.drop_last());
        let c = s.last();
        if is_ws(c) {
            w
        } else if s.len() >= 2 && !is_ws(s[s.len() - 2]) {
            w.update(w.len() - 1, w.last().push(c))
        } else {
            w.push(seq![c])
        }
    }
}

/// The words joined by single spaces.
pub open spec fn join_spec(ws: Seq<Seq<char>>) -> Seq<char>
    decreases ws.len(),
{
    if ws.len() == 0 {
        Seq::empty()
    } else if ws.len() == 1 {
        ws[0]
    } else {
        join_spec(ws.drop_last()) + seq![' '] + ws.last()
    }
}

/// The words of a raw line, its comment removed.
pub open spec fn line_words(s: Seq<char>) -> Seq<Seq<char>> {
    words(strip_comment(s))
}

/// The normalized form of a raw line.
pub open spec fn normalize(s: Seq<char>) -> Seq<char> {
    join_spec(line_words(s))
}

/// The normalized lines of a source, blank and comment-only lines left out.
pub open spec fn cleaned(raw: Seq<Seq<char>>) -> Seq<Seq<char>>
    decreases raw.len(),
{
    if raw.len() == 0 {
        Seq::empty()
    } else if line_words(raw.last()).len() == 0 {
        cleaned(raw.drop_last())
    } else {
        cleaned(raw.drop_last()).push(normalize(raw.last()))
    }
}

pub open spec fn is_digit(c: char) -> bool {
    '0' <= c && c <= '9'
}

pub open spec fn digit_val(c: char) -> nat {
    (c as int - '0' as int) as nat
}

/// The value of a string of decimal digits.
pub open spec fn dec_value(t: Seq<char>) -> nat
    decreases t.len(),
{
    if t.len() == 0 {
        0
    } else {
        dec_value(t.drop_last()) * 10 + digit_val(t.last())
    }
}

pub open spec fn all_digits(t: Seq<char>) -> bool {
    forall|i: int| 0 <= i < t.len() ==> is_digit(#[trigger] t[i])
}

/// A non-empty run of digits whose value fits in an `i32`.
pub open spec fn parse_digits(t: Seq<char>) -> Option<i32> {
    if t.len() > 0 && all_digits(t) && dec_value(t) <= i32::MAX {
        Some(dec_value(t) as i32)
    } else {
        None
    }
}

/// A count or index: digits, with an optional leading `+`.
pub open spec fn parse_count(t: Seq<char>) -> Option<i32> {
    if t.len() > 0 && t[0] == '+' {
        parse_digits(t.drop_first())
    } else {
        parse_digits(t)
    }
}

pub open spec fn cmd_type_of(ws: Seq<Seq<char>>) -> CommandType {
    if ws.len() == 1 {
        if ws[0] == "return"@ { CommandType::RETURN } else { CommandType::ARITHMETIC }
    } else if ws.len() == 2 {
        if ws[0] == "label"@ {
            CommandType::LABEL
        } else if ws[0] == "goto"@ {
            CommandType::GOTO
        } else if ws[0] == "if-goto"@ {
            CommandType::IF
        } else {
            CommandType::UNKOWN
        }
    } else if ws.len() == 3 {
        if ws[0] == "push"@ {
            CommandType::PUSH
        } else if ws[0] == "pop"@ {
            CommandType::POP
        } else if ws[0] == "call"@ {
            CommandType::CALL
        } else if ws[0] == "function"@ {
            CommandType::FUNCTION
        } else {
            CommandType::UNKOWN
        }
    } else {
        CommandType::UNKOWN
    }
}

/// Whether the command carries a count or index as its third word.
pub open spec fn has_count(ct: CommandType) -> bool {
    ct == CommandType::PUSH || ct == CommandType::POP || ct == CommandType::FUNCTION || ct
        == CommandType::CALL
}

pub open spec fn arg1_of(ws: Seq<Seq<char>>, ct: CommandType) -> Seq<char> {
    match ct {
        CommandType::ARITHMETIC | CommandType::RETURN => ws[0],
        CommandType::UNKOWN => Seq::empty(),
        _ => ws[1],
    }
}

pub open spec fn mem_seg_of(ct: CommandType, a: Seq<char>) -> MemSeg {
    if ct != CommandType::PUSH && ct != CommandType::POP {
        MemSeg::NONE
    } else if a == "local"@ {
        MemSeg::LCL
    } else if a == "argument"@ {
        MemSeg::ARG
    } else if a == "this"@ {
        MemSeg::THIS
    } else if a == "that"@ {
        MemSeg::THAT
    } else if a == "constant"@ {
        MemSeg::CONST
    } else if a == "static"@ {
        MemSeg::STATIC
    } else if a == "temp"@ {
        MemSeg::TEMP
    } else if a == "pointer"@ {
        MemSeg::PTR
    } else {
        MemSeg::NONE
    }
}

pub open spec fn arith_op_of(ct: CommandType, a: Seq<char>) -> ArithOp {
    if ct != CommandType::ARITHMETIC {
        ArithOp::NONE
    } else if a == "add"@ {
        ArithOp::ADD
    } else if a == "sub"@ {
        ArithOp::SUB
    } else if a == "neg"@ {
        ArithOp::NEG
    } else if a == "eq"@ {
        ArithOp::EQ
    } else if a == "gt"@ {
        ArithOp::GT
    } else if a == "lt"@ {
        ArithOp::LT
    } else if a == "and"@ {
        ArithOp::AND
    } else if a == "or"@ {
        ArithOp::OR
    } else if a == "not"@ {
        ArithOp::NOT
    } else {
        ArithOp::NONE
    }
}

/// Whether a normalized line's count, where it needs one, parses.
pub open spec fn count_ok(norm: Seq<char>) -> bool {
    let ws = words(norm);
    has_count(cmd_type_of(ws)) ==> parse_count(ws[2]) is Some
}

/// What the generator reads of the classification of `norm`.
pub open spec fn view_of(norm: Seq<char>) -> CmdView {
    let ws = words(norm);
    let ct = cmd_type_of(ws);
    let a1 = arg1_of(ws, ct);
    CmdView {
        cmd_type: ct,
        mem_seg: mem_seg_of(ct, a1),
        arith_op: arith_op_of(ct, a1),
        arg1: a1,
        arg2: if has_count(ct) { parse_count(ws[2]) } else { None },
    }
}

/// `l` is the classification of the normalized line `norm`.
pub open spec fn classified(l: SourceLine, norm: Seq<char>) -> bool {
    let ws = words(norm);
    let ct = cmd_type_of(ws);
    &&& l.source@ == norm
    &&& l.cmd_type == ct
    &&& l.args.arg1@ == arg1_of(ws, ct)
    &&& l.args.arg2 == (if has_count(ct) { parse_count(ws[2]) } else { None })
    &&& l.mem_seg == mem_seg_of(ct, l.args.arg1@)
    &&& l.arith_op == arith_op_of(ct, l.args.arg1@)
}

/// Whether two strings hold the same characters.
pub fn same_text(a: &str, b: &str) -> (r: bool)
    ensures
        r == (a@ == b@),
{
    let n = a.unicode_len();
    if n != b.unicode_len() {
        return false;
    }
    let mut i: usize = 0;
    while i < n
        invariant
            n == a@.len() == b@.len(),
            i <= n,
            a@.subrange(0, i as int) == b@.subrange(0, i as int),
        decreases n - i,
    {
        if a.get_char(i) != b.get_char(i) {
            assert(a@[i as int] != b@[i as int]);
            return false;
        }
        assert(a@.subrange(0, i + 1) =~= a@.subrange(0, i as int).push(a@[i as int]));
        assert(b@.subrange(0, i + 1) =~= b@.subrange(0, i as int).push(b@[i as int]));
        i = i + 1;
    }
    assert(a@ =~= a@.subrange(0, n as int));
    assert(b@ =~= b@.subrange(0, n as int));
    true
}

fn is_ws_char(c: char) -> (r: bool)
    ensures
        r == is_ws(c),
{
    ('\u{9}' <= c && c <= '\u{d}') || c == ' ' || c == '\u{85}' || c == '\u{a0}' || c == '\u{1680}'
        || ('\u{2000}' <= c && c <= '\u{200a}') || c == '\u{2028}' || c == '\u{2029}' || c
        == '\u{202f}' || c == '\u{205f}' || c == '\u{3000}'
}

pub proof fn lemma_dec_value_prefix(t: Seq<char>, i: int)
    requires
        0 <= i <= t.len(),
    ensures
        dec_value(t.subrange(0, i)) <= dec_value(t),
    decreases t.len(),
{
    if i < t.len() {
        assert(t.drop_last().subrange(0, i) =~= t.subrange(0, i));
        lemma_dec_value_prefix(t.drop_last(), i);
    } else {
        assert(t.subrange(0, i) =~= t);
    }
}

/// Parses a count or an index.
pub fn parse_count_str(t: &str) -> (r: Option<i32>)
    ensures
        r == parse_count(t@),
{
    let n = t.unicode_len();
    if n > 0 && t.get_char(0) == '+' {
        let u = t.substring_char(1, n);
        assert(u@ =~= t@.drop_first());
        parse_digits_str(u)
    } else {
        parse_digits_str(t)
    }
}

fn parse_digits_str(t: &str) -> (r: Option<i32>)
    ensures
        r == parse_digits(t@),
{
    let n = t.unicode_len();
    if n == 0 {
        return None;
    }
    let mut acc: u64 = 0;
    let mut i: usize = 0;
    while i < n
        invariant
            n == t@.len(),
            i <= n,
            all_digits(t@.subrange(0, i as int)),
            acc == dec_value(t@.subrange(0, i as int)),
            acc <= i32::MAX,
        decreases n - i,
    {
        let c = t.get_char(i);
        if !('0' <= c && c <= '9') {
            assert(!is_digit(t@[i as int]));
            return None;
        }
        let ghost pre = t@.subrange(0, i as int);
        let ghost next = t@.subrange(0, i + 1);
        assert(next.drop_last() =~= pre);
        assert(next.last() == c);
        acc = acc * 10 + (c as u64 - '0' as u64);
        assert(all_digits(next));
        if acc > i32::MAX as u64 {
            proof {
                lemma_dec_value_prefix(t@, i + 1);
            }
            return None;
        }
        i = i + 1;
    }
    assert(t@.subrange(0, n as int) =~= t@);
    Some(acc as i32)
}

/// Turns the raw lines of one source file into classified commands.
pub struct Parser {
    pub in_fn: String,
}

impl Parser {
    pub fn new(in_fn: &str) -> (r: Self)
        ensures
            r.in_fn@ == in_fn@,
    {
        Parser { in_fn: String::from_str(in_fn) }
    }

    /// Classifies every command of a source file, given as its raw lines.
    /// Fails on the first command whose count or index does not parse.
    pub fn read_lines(&self, raw: &Vec<String>) -> (r: Result<Vec<SourceLine>, TranslateError>)
        ensures
            ({
                let cl = cleaned(text_of(raw@));
                match r {
                    Ok(v) => {
                        &&& forall|i: int| 0 <= i < cl.len() ==> count_ok(#[trigger] cl[i])
                        &&& v@.len() == cl.len()
                        &&& forall|i: int| 0 <= i < cl.len() ==> classified(#[trigger] v@[i], cl[i])
                    },
                    Err(e) => exists|i: int|
                        0 <= i < cl.len() && !count_ok(#[trigger] cl[i]) && (forall|j: int|
                            0 <= j < i ==> count_ok(#[trigger] cl[j])) && e.kind
                            == ErrorKind::InvalidNumericArgument && e.line@ == cl[i] && e.file@
                            == self.in_fn@ && 1 <= e.line_num <= raw@.len() && normalize(
                            raw@[e.line_num - 1]@,
                        ) == e.line@,
                }
            }),
    {
        let mut out: Vec<SourceLine> = Vec::new();
        let mut k: usize = 0;
        while k < raw.len()
            invariant
                k <= raw@.len(),
                out@.len() == cleaned(text_of(raw@.subrange(0, k as int))).len(),
                forall|i: int|
                    0 <= i < out@.len() ==> count_ok(
                        #[trigger] cleaned(text_of(raw@.subrange(0, k as int)))[i],
                    ),
                forall|i: int|
                    0 <= i < out@.len() ==> classified(
                        #[trigger] out@[i],
                        cleaned(text_of(raw@.subrange(0, k as int)))[i],
                    ),
            decreases raw@.len() - k,
        {
            let ghost before = text_of(raw@.subrange(0, k as int));
            let ghost after = text_of(raw@.subrange(0, k + 1));
            assert(after.drop_last() =~= before);
            assert(after.last() == raw@[k as int]@);
            match LineParser::clean_line(raw[k].as_str()) {
                None => {},
                Some(norm) => {
                    match Self::classify(norm.as_str()) {
                        Some(line) => {
                            out.push(line);
                        },
                        None => {
                            let e = TranslateError {
                                kind: ErrorKind::InvalidNumericArgument,
                                file: self.in_fn.clone(),
                                line: norm,
                                line_num: k + 1,
                            };
                            proof {
                                lemma_cleaned_prefix(text_of(raw@), k as int + 1);
                                lemma_cleaned_prefix(text_of(raw@), k as int);
                                assert(text_of(raw@).subrange(0, k + 1) =~= after);
                                assert(text_of(raw@).subrange(0, k as int) =~= before);
                                let cl = cleaned(text_of(raw@));
                                let idx = out@.len() as int;
                                assert(cleaned(after) == cleaned(before).push(norm@));
                                assert(cleaned(text_of(raw@).subrange(0, k + 1))[idx] == cl[idx]);
                                assert(cl[idx] == norm@);
                                assert(forall|j: int| 0 <= j < idx ==> cl[j] == #[trigger] cleaned(text_of(raw@).subrange(0, k as int))[j]);
                                assert forall|j: int| 0 <= j < idx implies count_ok(#[trigger] cl[j]) by {
                                    assert(cleaned(text_of(raw@).subrange(0, k as int))[j] == cl[j]);
                                    assert(count_ok(cleaned(before)[j]));
                                }
                            }
                            return Err(e);
                        },
                    }
                },
            }
            k = k + 1;
        }
        assert(raw@.subrange(0, k as int) =~= raw@);
        Ok(out)
    }

    /// The classification of one normalized line, or `None` where its count
    /// or index does not parse.
    pub fn classify(norm: &str) -> (r: Option<SourceLine>)
        ensures
            r is Some <==> count_ok(norm@),
            r matches Some(l) ==> classified(l, norm@),
    {
        let ws = LineParser::strip_white_space(norm);
        let ct = Self::get_cmd_type(&ws);
        match Self::get_args(&ws, ct) {
            None => None,
            Some(args) => {
                let mem_seg = Self::get_mem_seg(&args, ct);
                let arith_op = Self::get_arith_op(&args, ct);
                Some(SourceLine::new(norm, args, mem_seg, arith_op, ct))
            },
        }
    }

    fn get_cmd_type(ws: &Vec<String>) -> (r: CommandType)
        ensures
            r == cmd_type_of(text_of(ws@)),
    {
        let ghost t = text_of(ws@);
        if ws.len() == 1 {
            if same_text(ws[0].as_str(), "return") {
                CommandType::RETURN
            } else {
                CommandType::ARITHMETIC
            }
        } else if ws.len() == 2 {
            let w = ws[0].as_str();
            if same_text(w, "label") {
                CommandType::LABEL
            } else if same_text(w, "goto") {
                CommandType::GOTO
            } else if same_text(w, "if-goto") {
                CommandType::IF
            } else {
                CommandType::UNKOWN
            }
        } else if ws.len() == 3 {
            let w = ws[0].as_str();
            if same_text(w, "push") {
                CommandType::PUSH
            } else if same_text(w, "pop") {
                CommandType::POP
            } else if same_text(w, "call") {
                CommandType::CALL
            } else if same_text(w, "function") {
                CommandType::FUNCTION
            } else {
                CommandType::UNKOWN
            }
        } else {
            CommandType::UNKOWN
        }
    }

    fn get_args(ws: &Vec<String>, ct: CommandType) -> (r: Option<Args>)
        requires
            ct == cmd_type_of(text_of(ws@)),
        ensures
            r is Some <==> (has_count(ct) ==> parse_count(text_of(ws@)[2]) is Some),
            r matches Some(a) ==> a.arg1@ == arg1_of(text_of(ws@), ct) && a.arg2 == (if has_count(
                ct,
            ) {
                parse_count(text_of(ws@)[2])
            } else {
                None
            }),
    {
        match ct {
            CommandType::ARITHMETIC | CommandType::RETURN => Some(
                Args { arg1: ws[0].clone(), arg2: None },
            ),
            CommandType::UNKOWN => Some(Args { arg1: String::new(), arg2: None }),
            CommandType::PUSH | CommandType::POP | CommandType::FUNCTION | CommandType::CALL => {
                match parse_count_str(ws[2].as_str()) {
                    None => None,
                    Some(n) => Some(Args { arg1: ws[1].clone(), arg2: Some(n) }),
                }
            },
            _ => Some(Args { arg1: ws[1].clone(), arg2: None }),
        }
    }

    fn get_mem_seg(args: &Args, ct: CommandType) -> (r: MemSeg)
        ensures
            r == mem_seg_of(ct, args.arg1@),
    {
        if ct != CommandType::PUSH && ct != CommandType::POP {
            return MemSeg::NONE;
        }
        let a = args.arg1.as_str();
        if same_text(a, "local") {
            MemSeg::LCL
        } else if same_text(a, "argument") {
            MemSeg::ARG
        } else if same_text(a, "this") {
            MemSeg::THIS
        } else if same_text(a, "that") {
            MemSeg::THAT
        } else if same_text(a, "constant") {
            MemSeg::CONST
        } else if same_text(a, "static") {
            MemSeg::STATIC
        } else if same_text(a, "temp") {
            MemSeg::TEMP
        } else if same_text(a, "pointer") {
            MemSeg::PTR
        } else {
            MemSeg::NONE
        }
    }

    fn get_arith_op(args: &Args, ct: CommandType) -> (r: ArithOp)
        ensures
            r == arith_op_of(ct, args.arg1@),
    {
        if ct != CommandType::ARITHMETIC {
            return ArithOp::NONE;
        }
        let a = args.arg1.as_str();
        if same_text(a, "add") {
            ArithOp::ADD
        } else if same_text(a, "sub") {
            ArithOp::SUB
        } else if same_text(a, "neg") {
            ArithOp::NEG
        } else if same_text(a, "eq") {
            ArithOp::EQ
        } else if same_text(a, "gt") {
            ArithOp::GT
        } else if same_text(a, "lt") {
            ArithOp::LT
        } else if same_text(a, "and") {
            ArithOp::AND
        } else if same_text(a, "or") {
            ArithOp::OR
        } else if same_text(a, "not") {
            ArithOp::NOT
        } else {
            ArithOp::NONE
        }
    }
}

/// `cleaned` of a prefix is a prefix of `cleaned`, and each of its lines
/// keeps its place.
pub proof fn lemma_cleaned_prefix(raw: Seq<Seq<char>>, k: int)
    requires
        0 <= k <= raw.len(),
    ensures
        cleaned(raw.subrange(0, k)).len() <= cleaned(raw).len(),
        forall|i: int|
            0 <= i < cleaned(raw.subrange(0, k)).len() ==> #[trigger] cleaned(raw.subrange(0, k))[i]
                == cleaned(raw)[i],
    decreases raw.len(),
{
    if k < raw.len() {
        assert(raw.drop_last().subrange(0, k) =~= raw.subrange(0, k));
        lemma_cleaned_prefix(raw.drop_last(), k);
    } else {
        assert(raw.subrange(0, k) =~= raw);
    }
}

/// Normalizes single lines: comments and extra whitespace removed.
pub struct LineParser {}

impl LineParser {
    /// The line up to its first comment marker.
    pub fn strip_comments(line: &str) -> (r: String)
        ensures
            r@ == strip_comment(line@),
    {
        let n = line.unicode_len();
        let mut i: usize = 0;
        let mut found = false;
        while !found && i < n
            invariant
                n == line@.len(),
                i <= n,
                first_comment(line@, 0) == first_comment(line@, i as int),
                found ==> comment_at(line@, i as int),
            decreases n - i + (if found { 0int } else { 1int }),
        {
            if i + 1 < n && line.get_char(i) == '/' && line.get_char(i + 1) == '/' {
                found = true;
            } else {
                i = i + 1;
            }
        }
        assert(first_comment(line@, i as int) == i);
        String::from_str(line.substring_char(0, i))
    }

    /// The words of the line.
    pub fn strip_white_space(line: &str) -> (r: Vec<String>)
        ensures
            text_of(r@) == words(line@),
    {
        let n = line.unicode_len();
        let mut out: Vec<String> = Vec::new();
        let mut i: usize = 0;
        let mut start: usize = 0;
        while i < n
            invariant
                n == line@.len(),
                start <= i <= n,
                (i > 0 && !is_ws(line@[i - 1])) ==> words(line@.subrange(0, i as int)) == text_of(
                    out@,
                ).push(line@.subrange(start as int, i as int)) && start < i,
                !(i > 0 && !is_ws(line@[i - 1])) ==> words(line@.subrange(0, i as int))
                    == text_of(out@),
            decreases n - i,
        {
            let c = line.get_char(i);
            let ghost pre = line@.subrange(0, i as int);
            let ghost next = line@.subrange(0, i + 1);
            assert(next.drop_last() =~= pre);
            assert(next.last() == c);
            let in_word = i > 0 && !is_ws_char(line.get_char(i - 1));
            if is_ws_char(c) {
                if in_word {
                    let w = String::from_str(line.substring_char(start, i));
                    proof {
                        lemma_text_push(out@, w);
                    }
                    out.push(w);
                }
            } else {
                if in_word {
                    assert(next[next.len() - 2] == line@[i - 1]);
                    assert(line@.subrange(start as int, i + 1) =~= line@.subrange(
                        start as int,
                        i as int,
                    ).push(c));
                    assert(words(next) =~= text_of(out@).push(line@.subrange(start as int, i + 1)));
                } else {
                    start = i;
                    assert(line@.subrange(start as int, i + 1) =~= seq![c]);
                }
            }
            i = i + 1;
        }
        assert(line@.subrange(0, n as int) =~= line@);
        if n > 0 && !is_ws_char(line.get_char(n - 1)) {
            let w = String::from_str(line.substring_char(start, n));
            proof {
                lemma_text_push(out@, w);
            }
            out.push(w);
        }
        out
    }

    /// The words joined by single spaces.
    pub fn join_words(words: Vec<String>) -> (r: String)
        ensures
            r@ == join_spec(text_of(words@)),
    {
        proof {
            reveal_strlit(" ");
        }
        let mut r = String::new();
        let mut i: usize = 0;
        while i < words.len()
            invariant
                i <= words@.len(),
                r@ == join_spec(text_of(words@.subrange(0, i as int))),
            decreases words@.len() - i,
        {
            let ghost next = text_of(words@.subrange(0, i + 1));
            assert(next.drop_last() =~= text_of(words@.subrange(0, i as int)));
            assert(next.last() == words@[i as int]@);
            if i > 0 {
                proof {
                    reveal_strlit(" ");
                }
                assert(" "@ =~= seq![' ']);
                assert(join_spec(next) == join_spec(next.drop_last()) + seq![' '] + next.last());
                r.append(" ");
                r.append(words[i].as_str());
                assert(r@ =~= join_spec(next));
            } else {
                assert(next.len() == 1);
                r.append(words[i].as_str());
                assert(r@ =~= join_spec(next));
            }
            i = i + 1;
        }
        assert(words@.subrange(0, i as int) =~= words@);
        r
    }

    /// The normalized line, or `None` where it holds no word.
    pub fn clean_line(line: &str) -> (r: Option<String>)
        ensures
            r is None <==> line_words(line@).len() == 0,
            r matches Some(s) ==> s@ == normalize(line@),
    {
        let stripped = Self::strip_comments(line);
        let ws = Self::strip_white_space(stripped.as_str());
        if ws.len() == 0 {
            None
        } else {
            Some(Self::join_words(ws))
        }
    }
}

pub proof fn lemma_text_push(v: Seq<String>, s: String)
    ensures
        text_of(v.push(s)) == text_of(v).push(s@),
{
    assert(text_of(v.push(s)) =~= text_of(v).push(s@));
}

} // verus!
