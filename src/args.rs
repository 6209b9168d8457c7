//! The argument-list syntax: its tree, its parser and its printed form.
use vstd::prelude::*;
use crate::text::{push_char, chars_of};

verus! {

/// One element of a parsed argument list: an expression, an expression
/// tagged with a color expression, a parenthesized group or a braced block.
#[derive(Debug)]
pub enum MacroArg {
    Simple(String),
    KeyValue(String, String),
    Group(Vec<MacroArg>),
    Block(Vec<MacroArg>),
}

/// The mathematical form of a `MacroArg`.
pub enum ArgTree {
    Simple(Seq<char>),
    KeyValue(Seq<char>, Seq<char>),
    Group(Seq<ArgTree>),
    Block(Seq<ArgTree>),
}

pub open spec fn arg_view(a: MacroArg) -> ArgTree
    decreases a, 0nat,
{
    match a {
        MacroArg::Simple(v) => ArgTree::Simple(v@),
        MacroArg::KeyValue(v, c) => ArgTree::KeyValue(v@, c@),
        MacroArg::Group(s) => ArgTree::Group(list_view(s@)),
        MacroArg::Block(s) => ArgTree::Block(list_view(s@)),
    }
}

pub open spec fn list_view(s: Seq<MacroArg>) -> Seq<ArgTree>
    decreases s, s.len(),
{
    if s.len() == 0 {
        Seq::empty()
    } else {
        list_view(s.drop_last()).push(arg_view(s.last()))
    }
}

pub proof fn lemma_list_view(s: Seq<MacroArg>)
    ensures
        list_view(s).len() == s.len(),
        forall|i: int| 0 <= i < s.len() ==> #[trigger] list_view(s)[i] == arg_view(s[i]),
    decreases s.len(),
{
    if s.len() > 0 {
        lemma_list_view(s.drop_last());
    }
}

/// Whether a text is one well-formed Rust expression.
pub uninterp spec fn host_expr(s: Seq<char>) -> bool;

/// Relies on `syn::parse_str::<syn::Expr>`: whether the whole text parses as
/// one Rust expression.
#[verifier::external_body]
fn parses_as_expr(s: &str) -> (r: bool)
    ensures
        r == host_expr(s@),
{
    syn::parse_str::<syn::Expr>(s).is_ok()
}

pub open spec fn is_space(c: char) -> bool {
    c == ' ' || c == '\t' || c == '\n' || c == '\r'
}

pub open spec fn is_open(c: char) -> bool {
    c == '(' || c == '[' || c == '{'
}

pub open spec fn is_close(c: char) -> bool {
    c == ')' || c == ']' || c == '}'
}

/// The first position from `i` on that holds no whitespace.
pub open spec fn skip_space(s: Seq<char>, i: nat) -> nat
    decreases s.len() - i,
{
    if i < s.len() && is_space(s[i as int]) {
        skip_space(s, i + 1)
    } else {
        i
    }
}

/// The position after the closing `q` of a quoted literal whose body starts at
/// `i`; a backslash escapes the character after it.
pub open spec fn quoted_end(s: Seq<char>, i: nat, q: char) -> Option<nat>
    decreases s.len() - i,
{
    if i >= s.len() {
        None
    } else if s[i as int] == q {
        Some(i + 1)
    } else if s[i as int] == '\\' {
        if i + 1 < s.len() {
            quoted_end(s, i + 2, q)
        } else {
            None
        }
    } else {
        quoted_end(s, i + 1, q)
    }
}

/// The position after a character literal that starts with the quote at `i`,
/// if one does: an escape up to the next unescaped quote, or one character and
/// a quote. A quote that starts none (as in a lifetime) is an ordinary
/// character.
pub open spec fn char_lit_end(s: Seq<char>, i: nat) -> Option<nat> {
    if i + 1 < s.len() && s[(i + 1) as int] == '\\' {
        quoted_end(s, i + 1, '\'')
    } else if i + 2 < s.len() && s[(i + 1) as int] != '\'' && s[(i + 2) as int] == '\'' {
        Some(i + 3)
    } else {
        None
    }
}

/// Whether `=>` starts at `i`.
pub open spec fn arrow_at(s: Seq<char>, i: int) -> bool {
    0 <= i && i + 1 < s.len() && s[i as int] == '=' && s[(i + 1) as int] == '>'
}

/// The end of `s[i..e]` once trailing whitespace is dropped.
pub open spec fn trim_end(s: Seq<char>, i: nat, e: nat) -> nat
    decreases e,
{
    if e > i && is_space(s[(e - 1) as int]) {
        trim_end(s, i, (e - 1) as nat)
    } else {
        e
    }
}

/// Whether the text from `start` up to `i`, trailing whitespace dropped, is one
/// well-formed expression.
pub open spec fn expr_ends_at(s: Seq<char>, start: nat, i: nat) -> bool {
    trim_end(s, start, i) > start && host_expr(s.subrange(start as int, trim_end(s, start, i) as int))
}

/// Where an expression that starts at `start` and has reached nesting `depth`
/// at `i` ends: at the first closing delimiter outside every nesting, or the
/// end of the text, or the first `,` or `=>` outside every nesting before which
/// the text is a well-formed expression. String and character literals are
/// passed over whole. `None` where a literal or a nesting is left open.
pub open spec fn expr_end(s: Seq<char>, start: nat, i: nat, depth: nat) -> Option<nat>
    decreases s.len() - i,
{
    if i >= s.len() {
        if depth == 0 {
            Some(i)
        } else {
            None
        }
    } else if s[i as int] == '"' {
        match quoted_end(s, i + 1, '"') {
            Some(j) => if i < j <= s.len() {
                expr_end(s, start, j, depth)
            } else {
                None
            },
            None => None,
        }
    } else if s[i as int] == '\'' && char_lit_end(s, i) is Some {
        let j = char_lit_end(s, i)->Some_0;
        if i < j <= s.len() {
            expr_end(s, start, j, depth)
        } else {
            None
        }
    } else if depth == 0 && is_close(s[i as int]) {
        Some(i)
    } else if depth == 0 && (s[i as int] == ',' || arrow_at(s, i as int)) && expr_ends_at(s, start, i) {
        Some(i)
    } else if is_open(s[i as int]) {
        expr_end(s, start, i + 1, depth + 1)
    } else if is_close(s[i as int]) {
        expr_end(s, start, i + 1, (depth - 1) as nat)
    } else {
        expr_end(s, start, i + 1, depth)
    }
}

/// The expression that starts at `i` and where it ends, if it is not empty and
/// is well formed.
pub open spec fn expr_at(s: Seq<char>, i: nat) -> Option<(Seq<char>, nat)> {
    match expr_end(s, i, i, 0) {
        None => None,
        Some(e) => {
            let t = s.subrange(i as int, trim_end(s, i, e) as int);
            if t.len() == 0 || !host_expr(t) {
                None
            } else {
                Some((t, e))
            }
        },
    }
}

/// Whether a list that `close` ends (the end of the text where `None`) ends at `p`.
pub open spec fn list_done(s: Seq<char>, p: nat, close: Option<char>) -> bool {
    match close {
        None => p >= s.len(),
        Some(c) => p < s.len() && s[p as int] == c,
    }
}

/// The position after the end of a list that is done at `p`.
pub open spec fn after_close(p: nat, close: Option<char>) -> nat {
    if close is Some {
        p + 1
    } else {
        p
    }
}

/// The argument that starts at `i` (no whitespace there), and where it ends.
pub open spec fn parse_arg(s: Seq<char>, i: nat) -> Option<(ArgTree, nat)>
    decreases s.len() - i, 0nat,
{
    if i >= s.len() {
        None
    } else if s[i as int] == '{' {
        match parse_list(s, i + 1, Some('}'), Seq::empty()) {
            Some((l, j)) => Some((ArgTree::Block(l), j)),
            None => None,
        }
    } else if s[i as int] == '(' {
        match parse_list(s, i + 1, Some(')'), Seq::empty()) {
            Some((l, j)) => Some((ArgTree::Group(l), j)),
            None => None,
        }
    } else {
        match expr_at(s, i) {
            None => None,
            Some((k, e)) => if arrow_at(s, e as int) {
                match expr_at(s, skip_space(s, e + 2)) {
                    None => None,
                    Some((c, e2)) => Some((ArgTree::KeyValue(k, c), e2)),
                }
            } else {
                Some((ArgTree::Simple(k), e))
            },
        }
    }
}

/// The rest of a list from `i`, after the elements `acc`: comma-separated
/// arguments, a trailing comma allowed, up to `close`.
pub open spec fn parse_list(s: Seq<char>, i: nat, close: Option<char>, acc: Seq<ArgTree>) -> Option<(Seq<ArgTree>, nat)>
    decreases s.len() - i, 1nat,
{
    let p = skip_space(s, i);
    if list_done(s, p, close) {
        Some((acc, after_close(p, close)))
    } else if p >= s.len() || p < i {
        None
    } else {
        match parse_arg(s, p) {
            None => None,
            Some((a, q)) => {
                let q2 = skip_space(s, q);
                if list_done(s, q2, close) {
                    Some((acc.push(a), after_close(q2, close)))
                } else if q2 < s.len() && s[q2 as int] == ',' && q2 >= i {
                    parse_list(s, q2 + 1, close, acc.push(a))
                } else {
                    None
                }
            },
        }
    }
}

/// The argument list that a whole text holds, if it is well formed.
pub open spec fn parse_text(s: Seq<char>) -> Option<Seq<ArgTree>> {
    match parse_list(s, 0, None, Seq::empty()) {
        Some((l, _)) => Some(l),
        None => None,
    }
}

pub open spec fn opt_pos(r: Option<usize>) -> Option<nat> {
    match r {
        Some(j) => Some(j as nat),
        None => None,
    }
}

fn skip_space_exec(s: &Vec<char>, i: usize) -> (r: usize)
    requires
        i <= s.len(),
    ensures
        r == skip_space(s@, i as nat),
        i <= r <= s.len(),
{
    let mut j = i;
    while j < s.len() && (s[j] == ' ' || s[j] == '\t' || s[j] == '\n' || s[j] == '\r')
        invariant
            i <= j <= s.len(),
            skip_space(s@, i as nat) == skip_space(s@, j as nat),
        decreases s.len() - j,
    {
        j = j + 1;
    }
    j
}

fn quoted_end_exec(s: &Vec<char>, i: usize, q: char) -> (r: Option<usize>)
    requires
        i <= s.len(),
    ensures
        opt_pos(r) == quoted_end(s@, i as nat, q),
        r matches Some(j) ==> i < j <= s.len(),
{
    let mut j = i;
    while j < s.len()
        invariant
            i <= j <= s.len(),
            quoted_end(s@, i as nat, q) == quoted_end(s@, j as nat, q),
        decreases s.len() - j,
    {
        if s[j] == q {
            return Some(j + 1);
        } else if s[j] == '\\' {
            if j + 1 < s.len() {
                j = j + 2;
            } else {
                return None;
            }
        } else {
            j = j + 1;
        }
    }
    None
}

fn char_lit_end_exec(s: &Vec<char>, i: usize) -> (r: Option<usize>)
    requires
        i < s.len(),
    ensures
        opt_pos(r) == char_lit_end(s@, i as nat),
        r matches Some(j) ==> i < j <= s.len(),
{
    if i + 1 < s.len() && s[i + 1] == '\\' {
        quoted_end_exec(s, i + 1, '\'')
    } else if i + 1 < s.len() && i + 2 < s.len() && s[i + 1] != '\'' && s[i + 2] == '\'' {
        Some(i + 3)
    } else {
        None
    }
}

fn expr_ends_at_exec(s: &Vec<char>, start: usize, i: usize) -> (r: bool)
    requires
        start <= i <= s.len(),
    ensures
        r == expr_ends_at(s@, start as nat, i as nat),
{
    let k = trim_end_exec(s, start, i);
    k > start && parses_as_expr(text_of(s, start, k).as_str())
}

fn expr_end_exec(s: &Vec<char>, i: usize) -> (r: Option<usize>)
    requires
        i <= s.len(),
    ensures
        opt_pos(r) == expr_end(s@, i as nat, i as nat, 0),
        r matches Some(e) ==> i <= e <= s.len(),
{
    let mut j = i;
    let mut depth: usize = 0;
    while j < s.len()
        invariant
            i <= j <= s.len(),
            depth <= j,
            expr_end(s@, i as nat, i as nat, 0) == expr_end(s@, i as nat, j as nat, depth as nat),
        decreases s.len() - j,
    {
        let c = s[j];
        if c == '"' {
            match quoted_end_exec(s, j + 1, '"') {
                Some(k) => {
                    j = k;
                },
                None => return None,
            }
        } else if c == '\'' && char_lit_end_exec(s, j).is_some() {
            j = char_lit_end_exec(s, j).unwrap();
        } else if depth == 0 && (c == ')' || c == ']' || c == '}') {
            return Some(j);
        } else if depth == 0 && (c == ',' || (c == '=' && j + 1 < s.len() && s[j + 1] == '>'))
            && expr_ends_at_exec(s, i, j) {
            return Some(j);
        } else if c == '(' || c == '[' || c == '{' {
            depth = depth + 1;
            j = j + 1;
        } else if c == ')' || c == ']' || c == '}' {
            depth = depth - 1;
            j = j + 1;
        } else {
            j = j + 1;
        }
    }
    if depth == 0 {
        Some(j)
    } else {
        None
    }
}

fn trim_end_exec(s: &Vec<char>, i: usize, e: usize) -> (r: usize)
    requires
        i <= e <= s.len(),
    ensures
        r == trim_end(s@, i as nat, e as nat),
        i <= r <= e,
{
    let mut k = e;
    while k > i && (s[k - 1] == ' ' || s[k - 1] == '\t' || s[k - 1] == '\n' || s[k - 1] == '\r')
        invariant
            i <= k <= e,
            e <= s.len(),
            trim_end(s@, i as nat, e as nat) == trim_end(s@, i as nat, k as nat),
        decreases k,
    {
        k = k - 1;
    }
    k
}

/// The characters `s[from..to]` as a `String`.
fn text_of(s: &Vec<char>, from: usize, to: usize) -> (r: String)
    requires
        from <= to <= s.len(),
    ensures
        r@ == s@.subrange(from as int, to as int),
{
    let mut r = String::new();
    let mut k = from;
    while k < to
        invariant
            from <= k <= to,
            to <= s.len(),
            r@ == s@.subrange(from as int, k as int),
        decreases to - k,
    {
        push_char(&mut r, s[k]);
        assert(r@ =~= s@.subrange(from as int, k + 1));
        k = k + 1;
    }
    r
}

fn expr_at_exec(s: &Vec<char>, i: usize) -> (r: Option<(String, usize)>)
    requires
        i <= s.len(),
    ensures
        r matches Some((t, e)) ==> expr_at(s@, i as nat) == Some((t@, e as nat)) && i <= e <= s.len(),
        r is None ==> expr_at(s@, i as nat) is None,
{
    match expr_end_exec(s, i) {
        None => None,
        Some(e) => {
            let k = trim_end_exec(s, i, e);
            let t = text_of(s, i, k);
            if k == i || !parses_as_expr(t.as_str()) {
                None
            } else {
                Some((t, e))
            }
        },
    }
}

fn list_done_exec(s: &Vec<char>, p: usize, close: Option<char>) -> (r: bool)
    requires
        p <= s.len(),
    ensures
        r == list_done(s@, p as nat, close),
{
    match close {
        None => p >= s.len(),
        Some(c) => p < s.len() && s[p] == c,
    }
}

fn parse_arg_exec(s: &Vec<char>, i: usize) -> (r: Option<(MacroArg, usize)>)
    requires
        i <= s.len(),
    ensures
        r matches Some((a, j)) ==> parse_arg(s@, i as nat) == Some((arg_view(a), j as nat)) && i < j <= s.len(),
        r is None ==> parse_arg(s@, i as nat) is None,
    decreases s.len() - i, 0nat,
{
    if i >= s.len() {
        None
    } else if s[i] == '{' {
        match parse_list_exec(s, i + 1, Some('}')) {
            Some((l, j)) => Some((MacroArg::Block(l), j)),
            None => None,
        }
    } else if s[i] == '(' {
        match parse_list_exec(s, i + 1, Some(')')) {
            Some((l, j)) => Some((MacroArg::Group(l), j)),
            None => None,
        }
    } else {
        match expr_at_exec(s, i) {
            None => None,
            Some((k, e)) => {
                if e < s.len() && s[e] == '=' && e + 1 < s.len() && s[e + 1] == '>' {
                    let v = skip_space_exec(s, e + 2);
                    match expr_at_exec(s, v) {
                        None => None,
                        Some((c, e2)) => Some((MacroArg::KeyValue(k, c), e2)),
                    }
                } else {
                    Some((MacroArg::Simple(k), e))
                }
            },
        }
    }
}

fn parse_list_exec(s: &Vec<char>, i: usize, close: Option<char>) -> (r: Option<(Vec<MacroArg>, usize)>)
    requires
        i <= s.len(),
    ensures
        r matches Some((l, j)) ==> parse_list(s@, i as nat, close, Seq::empty()) == Some((list_view(l@), j as nat)) && i <= j <= s.len() && (close is Some ==> i < j),
        r is None ==> parse_list(s@, i as nat, close, Seq::empty()) is None,
    decreases s.len() - i, 1nat,
{
    let mut acc: Vec<MacroArg> = Vec::new();
    let mut cur = i;
    assert(list_view(acc@) =~= Seq::<ArgTree>::empty());
    loop
        invariant
            i <= cur <= s.len(),
            parse_list(s@, i as nat, close, Seq::empty()) == parse_list(s@, cur as nat, close, list_view(acc@)),
        decreases s.len() - cur,
    {
        let p = skip_space_exec(s, cur);
        if list_done_exec(s, p, close) {
            let end = if close.is_some() { p + 1 } else { p };
            return Some((acc, end));
        }
        if p >= s.len() {
            return None;
        }
        match parse_arg_exec(s, p) {
            None => return None,
            Some((a, q)) => {
                let q2 = skip_space_exec(s, q);
                let ghost before = acc@;
                acc.push(a);
                assert(acc@.drop_last() =~= before);
                if list_done_exec(s, q2, close) {
                    let end = if close.is_some() { q2 + 1 } else { q2 };
                    return Some((acc, end));
                }
                if q2 < s.len() && s[q2] == ',' {
                    cur = q2 + 1;
                } else {
                    return None;
                }
            },
        }
    }
}

/// The printed form of an argument: an expression as written, `k => c` for a
/// tagged one, a group in parentheses, a block in braces.
pub open spec fn print_arg(a: ArgTree) -> Seq<char>
    decreases a, 0nat,
{
    match a {
        ArgTree::Simple(v) => v,
        ArgTree::KeyValue(k, c) => k + seq![' ', '=', '>', ' '] + c,
        ArgTree::Group(l) => seq!['('] + print_list(l) + seq![')'],
        ArgTree::Block(l) => seq!['{', ' '] + print_list(l) + seq![' ', '}'],
    }
}

/// The printed forms of a list's arguments, separated by `, `.
pub open spec fn print_list(l: Seq<ArgTree>) -> Seq<char>
    decreases l, 1nat,
{
    if l.len() == 0 {
        Seq::empty()
    } else if l.len() == 1 {
        print_arg(l[0])
    } else {
        print_list(l.drop_last()) + seq![',', ' '] + print_arg(l.last())
    }
}

impl MacroArg {
    /// The printed form of this argument.
    pub fn to_source(&self) -> (r: String)
        ensures
            r@ == print_arg(arg_view(*self)),
        decreases *self, 0nat,
    {
        match self {
            MacroArg::Simple(v) => v.clone(),
            MacroArg::KeyValue(k, c) => {
                let mut r = k.clone();
                r.append(" => ");
                r.append(c.as_str());
                proof {
                    reveal_strlit(" => ");
                    assert(r@ =~= print_arg(arg_view(*self)));
                }
                r
            },
            MacroArg::Group(l) => {
                let mut r = String::from_str("(");
                r.append(list_source(l).as_str());
                r.append(")");
                proof {
                    reveal_strlit("(");
                    reveal_strlit(")");
                    assert(r@ =~= print_arg(arg_view(*self)));
                }
                r
            },
            MacroArg::Block(l) => {
                let mut r = String::from_str("{ ");
                r.append(list_source(l).as_str());
                r.append(" }");
                proof {
                    reveal_strlit("{ ");
                    reveal_strlit(" }");
                    assert(r@ =~= print_arg(arg_view(*self)));
                }
                r
            },
        }
    }
}

fn list_source(l: &Vec<MacroArg>) -> (r: String)
    ensures
        r@ == print_list(list_view(l@)),
    decreases l@, 1nat,
{
    let ghost lv = list_view(l@);
    proof {
        lemma_list_view(l@);
    }
    let mut r = String::new();
    let mut i: usize = 0;
    while i < l.len()
        invariant
            i <= l.len(),
            lv == list_view(l@),
            lv.len() == l.len(),
            r@ == print_list(lv.take(i as int)),
        decreases l.len() - i,
    {
        proof {
            lemma_list_view(l@);
        }
        let piece = l[i].to_source();
        let ghost before = r@;
        if i > 0 {
            r.append(", ");
        }
        r.append(piece.as_str());
        proof {
            reveal_strlit(", ");
            assert(lv.take(i + 1).drop_last() =~= lv.take(i as int));
            assert(lv.take(i + 1).last() == arg_view(l@[i as int]));
            if i == 0 {
                assert(r@ =~= print_list(lv.take(1)));
            } else {
                assert(r@ =~= print_list(lv.take(i + 1)));
            }
        }
        i = i + 1;
    }
    assert(lv.take(l.len() as int) =~= lv);
    r
}

/// A character that neither opens nor closes anything, nor separates.
pub open spec fn plain_char(c: char) -> bool {
    !is_open(c) && !is_close(c) && c != ',' && c != '"' && c != '\''
}

/// Whether scanning `v` from `i` at nesting `depth` reads on to its end, back
/// at no nesting, without stopping: no comma, `=>` or closing delimiter outside
/// every nesting, every string and escaped character literal closed, and a
/// quote that starts no character literal at least two characters before the
/// end.
pub open spec fn scans_whole(v: Seq<char>, i: nat, depth: nat) -> bool
    decreases v.len() - i,
{
    if i >= v.len() {
        depth == 0
    } else if v[i as int] == '"' {
        match quoted_end(v, i + 1, '"') {
            Some(j) => i < j <= v.len() && scans_whole(v, j, depth),
            None => false,
        }
    } else if v[i as int] == '\'' && char_lit_end(v, i) is Some {
        let j = char_lit_end(v, i)->Some_0;
        i < j <= v.len() && scans_whole(v, j, depth)
    } else if v[i as int] == '\'' && (i + 2 >= v.len() || v[(i + 1) as int] == '\\') {
        false
    } else if depth == 0 && (is_close(v[i as int]) || v[i as int] == ',' || arrow_at(v, i as int)) {
        false
    } else if is_open(v[i as int]) {
        scans_whole(v, i + 1, depth + 1)
    } else if is_close(v[i as int]) {
        scans_whole(v, i + 1, (depth - 1) as nat)
    } else {
        scans_whole(v, i + 1, depth)
    }
}

/// An expression that prints and parses back as itself: well formed, not
/// empty, with no whitespace at its ends, not starting with `(` or `{`, and
/// read whole by the scanner (no comma, `=>` or closing delimiter outside its
/// literals and nestings).
pub open spec fn bare_expr(v: Seq<char>) -> bool {
    &&& v.len() > 0
    &&& !is_space(v[0])
    &&& !is_space(v.last())
    &&& v[0] != '(' && v[0] != '{'
    &&& scans_whole(v, 0, 0)
    &&& host_expr(v)
}

proof fn lemma_quoted_local(s: Seq<char>, st: nat, v: Seq<char>, i: nat, q: char)
    requires
        st + v.len() <= s.len(),
        forall|y: int| 0 <= y < v.len() ==> s[st + y] == #[trigger] v[y],
    ensures
        quoted_end(v, i, q) matches Some(j) ==> quoted_end(s, st + i, q) == Some(st + j),
    decreases v.len() - i,
{
    if i < v.len() {
        assert(s[(st + i) as int] == v[i as int]);
        if v[i as int] != q && v[i as int] == '\\' && i + 1 < v.len() {
            lemma_quoted_local(s, st, v, i + 2, q);
        } else if v[i as int] != q && v[i as int] != '\\' {
            lemma_quoted_local(s, st, v, i + 1, q);
        }
    }
}

proof fn lemma_scan_local(s: Seq<char>, st: nat, v: Seq<char>, i: nat, depth: nat)
    requires
        scans_whole(v, i, depth),
        i <= v.len(),
        st + v.len() <= s.len(),
        forall|y: int| 0 <= y < v.len() ==> s[st + y] == #[trigger] v[y],
        st + v.len() < s.len() ==> s[(st + v.len()) as int] != '>',
    ensures
        expr_end(s, st, st + i, depth) == expr_end(s, st, st + v.len(), 0),
    decreases v.len() - i,
{
    if i < v.len() {
        let c = v[i as int];
        assert(s[(st + i) as int] == c);
        if c == '"' {
            lemma_quoted_local(s, st, v, i + 1, '"');
            let j = quoted_end(v, i + 1, '"')->Some_0;
            lemma_scan_local(s, st, v, j, depth);
        } else if c == '\'' && char_lit_end(v, i) is Some {
            let j = char_lit_end(v, i)->Some_0;
            if i + 1 < v.len() && v[(i + 1) as int] == '\\' {
                assert(s[(st + i + 1) as int] == v[(i + 1) as int]);
                lemma_quoted_local(s, st, v, i + 1, '\'');
            } else {
                assert(s[(st + i + 1) as int] == v[(i + 1) as int]);
                assert(s[(st + i + 2) as int] == v[(i + 2) as int]);
            }
            assert(char_lit_end(s, st + i) == Some(st + j));
            lemma_scan_local(s, st, v, j, depth);
        } else {
            if c == '\'' {
                assert(s[(st + i + 1) as int] == v[(i + 1) as int]);
                assert(s[(st + i + 2) as int] == v[(i + 2) as int]);
                assert(char_lit_end(s, st + i) is None);
            }
            if i + 1 < v.len() {
                assert(s[(st + i + 1) as int] == v[(i + 1) as int]);
            }
            assert(arrow_at(s, (st + i) as int) == arrow_at(v, i as int));
            if is_open(c) {
                lemma_scan_local(s, st, v, i + 1, depth + 1);
            } else if is_close(c) {
                lemma_scan_local(s, st, v, i + 1, (depth - 1) as nat);
            } else {
                lemma_scan_local(s, st, v, i + 1, depth);
            }
        }
    }
}

/// A tree whose expressions are all bare.
pub open spec fn printable(a: ArgTree) -> bool
    decreases a, 0nat,
{
    match a {
        ArgTree::Simple(v) => bare_expr(v),
        ArgTree::KeyValue(k, c) => bare_expr(k) && bare_expr(c),
        ArgTree::Group(l) => printable_list(l),
        ArgTree::Block(l) => printable_list(l),
    }
}

pub open spec fn printable_list(l: Seq<ArgTree>) -> bool
    decreases l, 1nat,
{
    forall|i: int| 0 <= i < l.len() ==> printable(#[trigger] l[i])
}

/// What may follow an argument in a list: whitespace, then a comma, a closing
/// delimiter or the end of the text.
pub open spec fn follows(s: Seq<char>, x: nat) -> bool {
    let z = skip_space(s, x);
    z >= s.len() || s[z as int] == ',' || s[z as int] == ')' || s[z as int] == '}'
}

proof fn lemma_skip_props(s: Seq<char>, x: nat)
    requires
        x <= s.len(),
    ensures
        x <= skip_space(s, x) <= s.len(),
        forall|y: int| x <= y < skip_space(s, x) ==> is_space(#[trigger] s[y]),
        skip_space(s, x) < s.len() ==> !is_space(s[skip_space(s, x) as int]),
    decreases s.len() - x,
{
    if x < s.len() && is_space(s[x as int]) {
        lemma_skip_props(s, x + 1);
    }
}

proof fn lemma_skip_to(s: Seq<char>, x: nat, z: nat)
    requires
        x <= z <= s.len(),
        forall|y: int| x <= y < z ==> is_space(#[trigger] s[y]),
        z < s.len() ==> !is_space(s[z as int]),
    ensures
        skip_space(s, x) == z,
    decreases z - x,
{
    if x < z {
        lemma_skip_to(s, x + 1, z);
    }
}

proof fn lemma_scan_plain(s: Seq<char>, st: nat, i: nat, m: nat)
    requires
        i + m <= s.len(),
        forall|y: int| i <= y < i + m ==> plain_char(#[trigger] s[y]),
        forall|y: int| i <= y < i + m - 1 ==> !(#[trigger] s[y] == '=' && s[(y + 1) as int] == '>'),
        i + m == s.len() || s[(i + m) as int] != '>',
    ensures
        expr_end(s, st, i, 0) == expr_end(s, st, i + m, 0),
    decreases m,
{
    if m > 0 {
        assert(plain_char(s[i as int]));
        if m == 1 {
            assert(!arrow_at(s, i as int));
        } else {
            assert(!(s[i as int] == '=' && s[(i + 1) as int] == '>'));
        }
        lemma_scan_plain(s, st, i + 1, (m - 1) as nat);
    }
}

proof fn lemma_trim(s: Seq<char>, i: nat, x: nat, z: nat)
    requires
        i < x <= z <= s.len(),
        !is_space(s[(x - 1) as int]),
        forall|y: int| x <= y < z ==> is_space(#[trigger] s[y]),
    ensures
        trim_end(s, i, z) == x,
    decreases z,
{
    if z > x {
        lemma_trim(s, i, x, (z - 1) as nat);
    }
}

/// A bare expression at `i`, followed as in a list, reads back as itself.
proof fn lemma_expr_at_bare(s: Seq<char>, i: nat, v: Seq<char>)
    requires
        bare_expr(v),
        i + v.len() <= s.len(),
        s.subrange(i as int, (i + v.len()) as int) == v,
        follows(s, i + v.len()),
    ensures
        expr_at(s, i) == Some((v, skip_space(s, i + v.len()))),
{
    let x = i + v.len();
    let z = skip_space(s, x);
    lemma_skip_props(s, x);
    assert forall|y: int| 0 <= y < v.len() implies s[i + y] == #[trigger] v[y] by {
        assert(s.subrange(i as int, x as int)[y] == s[i + y]);
    }
    assert(x < s.len() ==> s[x as int] != '>') by {
        if x < s.len() && !is_space(s[x as int]) {
            lemma_skip_to(s, x, x);
        }
    }
    lemma_scan_local(s, i, v, 0, 0);
    lemma_scan_plain(s, i, x, (z - x) as nat);
    assert(s[(x - 1) as int] == v.last());
    lemma_trim(s, i, x, z);
    assert(s.subrange(i as int, x as int) =~= v);
    assert(expr_end(s, i, z, 0) == Some(z));
}

proof fn lemma_print_first(a: ArgTree)
    requires
        printable(a),
    ensures
        print_arg(a).len() > 0,
        !is_space(print_arg(a)[0]),
        !is_close(print_arg(a)[0]),
        print_arg(a)[0] == '(' ==> a is Group,
        print_arg(a)[0] == '{' ==> a is Block,
{
    match a {
        ArgTree::Simple(v) => {
            assert(scans_whole(v, 0, 0));
        },
        ArgTree::KeyValue(k, c) => {
            assert(scans_whole(k, 0, 0));
            assert(print_arg(a)[0] == k[0]);
        },
        _ => {},
    }
}

proof fn lemma_print_front(l: Seq<ArgTree>)
    requires
        l.len() >= 2,
    ensures
        print_list(l) == print_arg(l[0]) + seq![',', ' '] + print_list(l.skip(1)),
    decreases l.len(),
{
    let d = l.drop_last();
    if l.len() == 2 {
        assert(l.skip(1).len() == 1);
        assert(l.skip(1)[0] == l[1]);
        assert(print_list(l.skip(1)) == print_arg(l[1]));
        assert(d.len() == 1);
        assert(d[0] == l[0]);
        assert(print_list(d) == print_arg(l[0]));
        assert(print_list(l) == print_list(d) + seq![',', ' '] + print_arg(l.last()));
    } else {
        lemma_print_front(d);
        assert(d.skip(1) =~= l.skip(1).drop_last());
        assert(print_list(l.skip(1)) == print_list(l.skip(1).drop_last()) + seq![',', ' '] + print_arg(l.last()));
        assert(print_list(l) =~= print_arg(l[0]) + seq![',', ' '] + print_list(l.skip(1)));
    }
}

proof fn lemma_keyvalue_printed(s: Seq<char>, i: nat, k: Seq<char>, c: Seq<char>)
    requires
        bare_expr(k),
        bare_expr(c),
        i + k.len() + 4 + c.len() <= s.len(),
        s.subrange(i as int, (i + k.len() + 4 + c.len()) as int) == k + seq![' ', '=', '>', ' '] + c,
        follows(s, i + k.len() + 4 + c.len()),
    ensures
        parse_arg(s, i) == Some((ArgTree::KeyValue(k, c), skip_space(s, i + k.len() + 4 + c.len()))),
{
    let pa = k + seq![' ', '=', '>', ' '] + c;
    let x = i + pa.len();
    let x1 = i + k.len();
    let e = x1 + 1;
    let i2 = e + 3;
    assert forall|y: int| i <= y < x implies s[y] == pa[y - i] by {
        assert(s.subrange(i as int, x as int)[y - i] == s[y]);
    }
    assert(s[x1 as int] == ' ' && s[e as int] == '=' && s[(e + 1) as int] == '>' && s[(e + 2) as int] == ' ') by {
        assert(pa[k.len() as int] == ' ');
        assert(pa[(k.len() + 1) as int] == '=');
        assert(pa[(k.len() + 2) as int] == '>');
        assert(pa[(k.len() + 3) as int] == ' ');
    }
    assert forall|y: int| 0 <= y < k.len() implies s[i + y] == #[trigger] k[y] by {
        assert(s[i + y] == pa[y]);
    }
    lemma_scan_local(s, i, k, 0, 0);
    lemma_scan_plain(s, i, x1, 1);
    assert(s[x1 - 1] == k.last());
    lemma_trim(s, i, x1, e);
    assert(s.subrange(i as int, x1 as int) =~= k);
    assert(expr_ends_at(s, i, e));
    assert(expr_end(s, i, e, 0) == Some(e));
    assert(expr_at(s, i) == Some((k, e)));
    lemma_skip_to(s, e + 2, i2);
    assert(s.subrange(i2 as int, (i2 + c.len()) as int) =~= c) by {
        assert forall|y: int| 0 <= y < c.len() implies s[i2 + y] == c[y] by {
            assert(s[i2 + y] == pa[k.len() + 4 + y]);
        }
    }
    lemma_expr_at_bare(s, i2, c);
}

proof fn lemma_group_printed(s: Seq<char>, i: nat, l: Seq<ArgTree>)
    requires
        printable_list(l),
        i + print_list(l).len() + 2 <= s.len(),
        s.subrange(i as int, (i + print_list(l).len() + 2) as int) == seq!['('] + print_list(l) + seq![')'],
    ensures
        parse_arg(s, i) == Some((ArgTree::Group(l), i + print_list(l).len() + 2)),
    decreases l, 2nat,
{
    let pl = print_list(l);
    let pa = seq!['('] + pl + seq![')'];
    let x = i + pa.len();
    assert forall|y: int| i <= y < x implies s[y] == pa[y - i] by {
        assert(s.subrange(i as int, x as int)[y - i] == s[y]);
    }
    assert(s[i as int] == '(');
    assert(s.subrange((i + 1) as int, (i + 1 + pl.len()) as int) =~= pl) by {
        assert forall|y: int| 0 <= y < pl.len() implies s[i + 1 + y] == pl[y] by {
            assert(s[i + 1 + y] == pa[1 + y]);
        }
    }
    assert(s[(i + 1 + pl.len()) as int] == ')') by {
        assert(s[(i + 1 + pl.len()) as int] == pa[(1 + pl.len()) as int]);
    }
    lemma_skip_to(s, i + 1 + pl.len(), i + 1 + pl.len());
    lemma_parse_list_printed(s, i + 1, i + 1, l, Some(')'), Seq::empty());
    assert(Seq::<ArgTree>::empty() + l =~= l);
}

proof fn lemma_block_printed(s: Seq<char>, i: nat, l: Seq<ArgTree>)
    requires
        printable_list(l),
        i + print_list(l).len() + 4 <= s.len(),
        s.subrange(i as int, (i + print_list(l).len() + 4) as int) == seq!['{', ' '] + print_list(l) + seq![' ', '}'],
    ensures
        parse_arg(s, i) == Some((ArgTree::Block(l), i + print_list(l).len() + 4)),
    decreases l, 2nat,
{
    let pl = print_list(l);
    let pa = seq!['{', ' '] + pl + seq![' ', '}'];
    let x = i + pa.len();
    assert forall|y: int| i <= y < x implies s[y] == pa[y - i] by {
        assert(s.subrange(i as int, x as int)[y - i] == s[y]);
    }
    assert(s[i as int] == '{');
    assert(s.subrange((i + 2) as int, (i + 2 + pl.len()) as int) =~= pl) by {
        assert forall|y: int| 0 <= y < pl.len() implies s[i + 2 + y] == pl[y] by {
            assert(s[i + 2 + y] == pa[2 + y]);
        }
    }
    assert(s[(i + 1) as int] == ' ') by {
        assert(s[(i + 1) as int] == pa[1]);
    }
    assert(s[(i + 2 + pl.len()) as int] == ' ' && s[(i + 3 + pl.len()) as int] == '}') by {
        assert(s[(i + 2 + pl.len()) as int] == pa[(2 + pl.len()) as int]);
        assert(s[(i + 3 + pl.len()) as int] == pa[(3 + pl.len()) as int]);
    }
    lemma_skip_to(s, i + 2 + pl.len(), i + 3 + pl.len());
    lemma_parse_list_printed(s, i + 1, i + 2, l, Some('}'), Seq::empty());
    assert(Seq::<ArgTree>::empty() + l =~= l);
}

proof fn lemma_parse_arg_printed(s: Seq<char>, i: nat, a: ArgTree)
    requires
        printable(a),
        i + print_arg(a).len() <= s.len(),
        s.subrange(i as int, (i + print_arg(a).len()) as int) == print_arg(a),
        follows(s, i + print_arg(a).len()),
    ensures
        parse_arg(s, i) matches Some((b, e)) && b == a && e <= s.len() && skip_space(s, e)
            == skip_space(s, i + print_arg(a).len()),
    decreases a, 1nat,
{
    let x = i + print_arg(a).len();
    lemma_skip_props(s, x);
    let z = skip_space(s, x);
    lemma_skip_to(s, z, z);
    match a {
        ArgTree::Simple(v) => {
            assert(s[i as int] == v[0]) by {
                assert(s.subrange(i as int, x as int)[0] == s[i as int]);
            }
            assert(v[0] != '(' && v[0] != '{');
            lemma_expr_at_bare(s, i, v);
        },
        ArgTree::KeyValue(k, c) => {
            lemma_keyvalue_printed(s, i, k, c);
        },
        ArgTree::Group(l) => {
            lemma_group_printed(s, i, l);
        },
        ArgTree::Block(l) => {
            lemma_block_printed(s, i, l);
        },
    }
}

proof fn lemma_parse_list_printed(s: Seq<char>, j: nat, j0: nat, l: Seq<ArgTree>, close: Option<char>, acc: Seq<ArgTree>)
    requires
        j <= j0,
        forall|y: int| j <= y < j0 ==> is_space(#[trigger] s[y]),
        printable_list(l),
        j0 + print_list(l).len() <= s.len(),
        s.subrange(j0 as int, (j0 + print_list(l).len()) as int) == print_list(l),
        list_done(s, skip_space(s, j0 + print_list(l).len()), close),
        close is None || close == Some(')') || close == Some('}'),
    ensures
        parse_list(s, j, close, acc) == Some((acc + l, after_close(skip_space(s, j0 + print_list(l).len()), close))),
    decreases l, 1nat,
{
    let pl = print_list(l);
    let x = j0 + pl.len();
    let z = skip_space(s, x);
    lemma_skip_props(s, x);
    if l.len() == 0 {
        lemma_skip_props(s, j0);
        assert forall|y: int| j <= y < z implies is_space(#[trigger] s[y]) by {}
        lemma_skip_to(s, j, z);
        assert(acc + l =~= acc);
    } else {
        let a = l[0];
        let pa = print_arg(a);
        assert(printable(a));
        lemma_print_first(a);
        if l.len() >= 2 {
            lemma_print_front(l);
        }
        assert(pl.len() >= pa.len());
        assert(pl.subrange(0, pa.len() as int) =~= pa);
        assert(s.subrange(j0 as int, (j0 + pa.len()) as int) =~= pa) by {
            assert forall|y: int| 0 <= y < pa.len() implies s[(j0 + y) as int] == pa[y] by {
                assert(s.subrange(j0 as int, x as int)[y] == s[(j0 + y) as int]);
            }
        }
        assert(s[j0 as int] == pa[0]);
        lemma_skip_to(s, j, j0);
        let xa = j0 + pa.len();
        if l.len() == 1 {
            assert(pl == pa);
            lemma_parse_arg_printed(s, j0, a);
            assert(acc.push(a) =~= acc + l);
        } else {
            let rest = l.skip(1);
            let pr = print_list(rest);
            assert(s[xa as int] == ',' && s[(xa + 1) as int] == ' ') by {
                assert(s.subrange(j0 as int, x as int)[pa.len() as int] == s[xa as int]);
                assert(s.subrange(j0 as int, x as int)[(pa.len() + 1) as int] == s[(xa + 1) as int]);
            }
            lemma_skip_to(s, xa, xa);
            lemma_parse_arg_printed(s, j0, a);
            assert(s.subrange((xa + 2) as int, (xa + 2 + pr.len()) as int) =~= pr) by {
                assert forall|y: int| 0 <= y < pr.len() implies s[(xa + 2 + y) as int] == pr[y] by {
                    assert(s.subrange(j0 as int, x as int)[pa.len() + 2 + y] == s[(xa + 2 + y) as int]);
                }
            }
            assert(xa + 2 + pr.len() == x);
            assert(printable_list(rest)) by {
                assert forall|i: int| 0 <= i < rest.len() implies printable(#[trigger] rest[i]) by {
                    assert(rest[i] == l[i + 1]);
                }
            }
            lemma_parse_list_printed(s, xa + 1, xa + 2, rest, close, acc.push(a));
            assert(acc.push(a) + rest =~= acc + l);
        }
    }
}

/// Printing a list whose expressions are bare and parsing the printed form
/// gives the list back.
pub proof fn parse_print_round_trip(l: Seq<ArgTree>)
    requires
        printable_list(l),
    ensures
        parse_text(print_list(l)) == Some(l),
{
    let s = print_list(l);
    assert(s.subrange(0, s.len() as int) =~= s);
    lemma_skip_to(s, s.len(), s.len());
    lemma_parse_list_printed(s, 0, 0, l, None, Seq::empty());
    assert(Seq::<ArgTree>::empty() + l =~= l);
}

/// A parsed argument list.
pub struct MacroArgs {
    pub args: Vec<MacroArg>,
}

/// An argument list that is not well formed: an unbalanced delimiter or string,
/// an empty or malformed expression (as after a dangling `=>`), or two
/// elements without a comma between them.
#[derive(Debug)]
pub struct SyntaxError;

impl MacroArgs {
    /// Parses a comma-separated argument list: braced blocks, parenthesized
    /// groups, and expressions, each optionally followed by `=>` and a color
    /// expression.
    pub fn parse(input: &str) -> (r: Result<MacroArgs, SyntaxError>)
        ensures
            r matches Ok(m) ==> parse_text(input@) == Some(list_view(m.args@)),
            r is Err ==> parse_text(input@) is None,
    {
        let s = chars_of(input);
        match parse_list_exec(&s, 0, None) {
            Some((args, _)) => Ok(MacroArgs { args }),
            None => Err(SyntaxError),
        }
    }

    /// The printed form of the list.
    pub fn to_source(&self) -> (r: String)
        ensures
            r@ == print_list(list_view(self.args@)),
    {
        list_source(&self.args)
    }
}

} // verus!
