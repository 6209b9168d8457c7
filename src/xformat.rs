//! The two renderers of an argument list: a single colored line, and a tree
//! drawn with connector glyphs.
use vstd::prelude::*;
use crate::args::{MacroArg, ArgTree, arg_view, list_view, lemma_list_view};
use crate::colors::{Color, fg};
use crate::colorizing::{painted, name_fg, color_key, unknown_color_message, TextStyle};
use crate::text::{repeat, repeat_str, push_char, chars_of};

verus! {

/// The glyphs a tree is drawn with, and whether deeper rows show the vertical
/// line of their parent.
#[derive(Clone, Copy, Debug)]
pub struct TreeGlyphs {
    pub top_left: &'static str,
    pub top_right: &'static str,
    pub bottom_left: &'static str,
    pub bottom_right: &'static str,
    pub vertical: &'static str,
    pub horizontal: &'static str,
    pub branch_right: &'static str,
    pub branch_left: &'static str,
    pub cross: &'static str,
    pub up_tee: &'static str,
    pub down_tee: &'static str,
    pub branches: bool,
}

/// The built-in glyph sets.
#[derive(Clone, Copy, Debug)]
pub enum TreeStyle {
    Simple,
    Indent,
    Thick,
    Line,
}

pub open spec fn glyphs_of(style: TreeStyle, branches: bool) -> TreeGlyphs {
    match style {
        TreeStyle::Simple => TreeGlyphs {
            top_left: "+", top_right: "+", bottom_left: "+", bottom_right: "+",
            vertical: "|", horizontal: "-", branch_right: "+", branch_left: "+",
            cross: "+", up_tee: "+", down_tee: "+", branches,
        },
        TreeStyle::Indent => TreeGlyphs {
            top_left: "", top_right: "", bottom_left: "", bottom_right: "",
            vertical: "", horizontal: "", branch_right: "", branch_left: "",
            cross: "", up_tee: "", down_tee: "", branches: false,
        },
        TreeStyle::Thick => TreeGlyphs {
            top_left: "╔", top_right: "╗", bottom_left: "╚", bottom_right: "╝",
            vertical: "║", horizontal: "═", branch_right: "╠", branch_left: "╣",
            cross: "╬", up_tee: "╩", down_tee: "╦", branches,
        },
        TreeStyle::Line => TreeGlyphs {
            top_left: "┌", top_right: "┐", bottom_left: "└", bottom_right: "┘",
            vertical: "│", horizontal: "─", branch_right: "├", branch_left: "┤",
            cross: "┼", up_tee: "┴", down_tee: "┬", branches,
        },
    }
}

impl TreeStyle {
    /// The glyph set of this style; `Indent` never draws branches.
    pub fn style(&self, branches: bool) -> (r: TreeGlyphs)
        ensures
            r == glyphs_of(*self, branches),
    {
        match self {
            TreeStyle::Simple => TreeGlyphs {
                top_left: "+", top_right: "+", bottom_left: "+", bottom_right: "+",
                vertical: "|", horizontal: "-", branch_right: "+", branch_left: "+",
                cross: "+", up_tee: "+", down_tee: "+", branches,
            },
            TreeStyle::Indent => TreeGlyphs {
                top_left: "", top_right: "", bottom_left: "", bottom_right: "",
                vertical: "", horizontal: "", branch_right: "", branch_left: "",
                cross: "", up_tee: "", down_tee: "", branches: false,
            },
            TreeStyle::Thick => TreeGlyphs {
                top_left: "╔", top_right: "╗", bottom_left: "╚", bottom_right: "╝",
                vertical: "║", horizontal: "═", branch_right: "╠", branch_left: "╣",
                cross: "╬", up_tee: "╩", down_tee: "╦", branches,
            },
            TreeStyle::Line => TreeGlyphs {
                top_left: "┌", top_right: "┐", bottom_left: "└", bottom_right: "┘",
                vertical: "│", horizontal: "─", branch_right: "├", branch_left: "┤",
                cross: "┼", up_tee: "┴", down_tee: "┬", branches,
            },
        }
    }
}

/// Why a rendering failed.
pub enum RenderFault {
    /// The template's placeholders and the remaining arguments differ in number.
    Mismatch,
    /// A color text names no color; the message says which.
    Unresolved(Seq<char>),
}

/// Why a rendering failed.
#[derive(Debug)]
pub enum XformatError {
    FormatMismatch,
    ColorResolution(String),
}

impl View for XformatError {
    type V = RenderFault;

    open spec fn view(&self) -> RenderFault {
        match self {
            XformatError::FormatMismatch => RenderFault::Mismatch,
            XformatError::ColorResolution(m) => RenderFault::Unresolved(m@),
        }
    }
}

pub open spec fn out_view(r: Result<String, XformatError>) -> Result<Seq<char>, RenderFault> {
    match r {
        Ok(s) => Ok(s@),
        Err(e) => Err(e@),
    }
}

/// The text-color sequence of a color text.
pub open spec fn color_code(c: Seq<char>) -> Result<Seq<char>, RenderFault> {
    match name_fg(color_key(c)) {
        Some(code) => Ok(code),
        None => Err(RenderFault::Unresolved(unknown_color_message(color_key(c)))),
    }
}

/// `p` put before a text that may be missing.
pub open spec fn prepend(p: Seq<char>, r: Option<Seq<char>>) -> Option<Seq<char>> {
    match r {
        Some(x) => Some(p + x),
        None => None,
    }
}

/// A template with each `{}` replaced by the next argument, `{{` and `}}`
/// read as single braces; `None` where another brace stands alone or the
/// placeholders and arguments differ in number.
pub open spec fn fill(t: Seq<char>, args: Seq<Seq<char>>) -> Option<Seq<char>>
    decreases t.len(),
{
    if t.len() == 0 {
        if args.len() == 0 {
            Some(Seq::empty())
        } else {
            None
        }
    } else if t.len() >= 2 && t[0] == '{' && t[1] == '}' {
        if args.len() == 0 {
            None
        } else {
            prepend(args[0], fill(t.skip(2), args.skip(1)))
        }
    } else if t.len() >= 2 && ((t[0] == '{' && t[1] == '{') || (t[0] == '}' && t[1] == '}')) {
        prepend(seq![t[0]], fill(t.skip(2), args))
    } else if t[0] == '{' || t[0] == '}' {
        None
    } else {
        prepend(seq![t[0]], fill(t.skip(1), args))
    }
}

/// The glyph set that blocks inside a single-line rendering are drawn with.
pub open spec fn inline_glyphs() -> TreeGlyphs {
    glyphs_of(TreeStyle::Thick, true)
}

/// One argument rendered on its own.
pub open spec fn inline_arg(a: ArgTree) -> Result<Seq<char>, RenderFault>
    decreases a, 0nat,
{
    match a {
        ArgTree::Simple(v) => Ok(v),
        ArgTree::KeyValue(v, c) => match color_code(c) {
            Ok(code) => Ok(painted(code, v)),
            Err(e) => Err(e),
        },
        ArgTree::Group(l) => inline_list(l),
        ArgTree::Block(l) => tree_list(l, inline_glyphs(), 0),
    }
}

/// Each argument rendered on its own, or the first failure.
pub open spec fn inline_items(l: Seq<ArgTree>) -> Result<Seq<Seq<char>>, RenderFault>
    decreases l, 0nat,
{
    if l.len() == 0 {
        Ok(Seq::empty())
    } else {
        match inline_items(l.drop_last()) {
            Err(e) => Err(e),
            Ok(p) => match inline_arg(l.last()) {
                Ok(x) => Ok(p.push(x)),
                Err(e) => Err(e),
            },
        }
    }
}

/// The template that the first argument supplies, and the sequence of the
/// color to put round the result, if it has one.
pub open spec fn head_parts(a: ArgTree) -> Result<(Seq<char>, Option<Seq<char>>), RenderFault>
    decreases a, 0nat,
{
    match a {
        ArgTree::Simple(v) => Ok((v, None)),
        ArgTree::KeyValue(v, c) => match color_code(c) {
            Ok(code) => Ok((v, Some(code))),
            Err(e) => Err(e),
        },
        ArgTree::Group(l) => match inline_list(l) {
            Ok(x) => Ok((x, None)),
            Err(e) => Err(e),
        },
        ArgTree::Block(l) => match tree_list(l, inline_glyphs(), 0) {
            Ok(x) => Ok((x, None)),
            Err(e) => Err(e),
        },
    }
}

/// A list rendered on one line: nothing, the only argument, or the first
/// argument's template filled with the others and, where the first is tagged,
/// colored as a whole.
pub open spec fn inline_list(l: Seq<ArgTree>) -> Result<Seq<char>, RenderFault>
    decreases l, 1nat,
{
    if l.len() == 0 {
        Ok(Seq::empty())
    } else if l.len() == 1 {
        inline_arg(l[0])
    } else {
        match head_parts(l[0]) {
            Err(e) => Err(e),
            Ok((t, code)) => match inline_items(l.skip(1)) {
                Err(e) => Err(e),
                Ok(args) => match fill(t, args) {
                    None => Err(RenderFault::Mismatch),
                    Some(x) => Ok(
                        match code {
                            Some(k) => painted(k, x),
                            None => x,
                        },
                    ),
                },
            },
        }
    }
}

/// The connector of the element at `i` of `n`: the first one opens, the last
/// one closes, the others branch.
pub open spec fn connector(t: TreeGlyphs, i: int, n: int) -> Seq<char> {
    if i == 0 {
        t.top_left@
    } else if i == n - 1 {
        t.bottom_left@
    } else {
        t.branch_right@
    }
}

/// The connector part of a row at `depth`.
pub open spec fn tree_mark(t: TreeGlyphs, i: int, n: int, depth: nat) -> Seq<char> {
    if depth == 0 {
        connector(t, i, n)
    } else if t.branches {
        t.vertical@ + seq![' ', ' '] + connector(t, i, n) + repeat(t.horizontal@, 2 * depth + 1)
    } else {
        t.branch_right@ + repeat(t.horizontal@, 2 * depth + 1)
    }
}

/// What a row starts with: the connector part, one more horizontal glyph and a
/// space, or nothing where the connector part is empty.
pub open spec fn row_prefix(t: TreeGlyphs, i: int, n: int, depth: nat) -> Seq<char> {
    let m = tree_mark(t, i, n, depth);
    if m.len() == 0 {
        Seq::empty()
    } else {
        m + t.horizontal@ + seq![' ']
    }
}

/// The rows joined with line breaks.
pub open spec fn join_lines(rows: Seq<Seq<char>>) -> Seq<char>
    decreases rows.len(),
{
    if rows.len() == 0 {
        Seq::empty()
    } else if rows.len() == 1 {
        rows[0]
    } else {
        join_lines(rows.drop_last()) + seq!['\n'] + rows.last()
    }
}

/// The slot of the element `a` at `i` of `n`: a prefixed row, or for a block
/// the lines of the block one level deeper.
pub open spec fn tree_row(a: ArgTree, i: int, n: int, t: TreeGlyphs, depth: nat) -> Result<Seq<char>, RenderFault>
    decreases a, 0nat,
{
    let p = row_prefix(t, i, n, depth);
    match a {
        ArgTree::Simple(v) => Ok(p + v),
        ArgTree::KeyValue(v, c) => match color_code(c) {
            Ok(code) => Ok(painted(code, p) + painted(code, v)),
            Err(e) => Err(e),
        },
        ArgTree::Group(l) => match inline_list(l) {
            Ok(x) => Ok(p + x),
            Err(e) => Err(e),
        },
        ArgTree::Block(l) => tree_list(l, t, depth + 1),
    }
}

/// The rows of the first `k` elements of `l`, or the first failure. A block
/// that draws nothing adds no row.
pub open spec fn tree_rows(l: Seq<ArgTree>, k: nat, t: TreeGlyphs, depth: nat) -> Result<Seq<Seq<char>>, RenderFault>
    decreases l, k,
{
    if k == 0 || k > l.len() {
        Ok(Seq::empty())
    } else {
        match tree_rows(l, (k - 1) as nat, t, depth) {
            Err(e) => Err(e),
            Ok(p) => match tree_row(l[k - 1], k - 1, l.len() as int, t, depth) {
                Ok(x) => if l[k - 1] is Block && x.len() == 0 {
                    Ok(p)
                } else {
                    Ok(p.push(x))
                },
                Err(e) => Err(e),
            },
        }
    }
}

/// A list drawn as a tree at `depth`: one row per element, joined with line
/// breaks; a block stands for the lines it draws, and adds none where it draws
/// nothing.
pub open spec fn tree_list(l: Seq<ArgTree>, t: TreeGlyphs, depth: nat) -> Result<Seq<char>, RenderFault>
    decreases l, l.len() + 1,
{
    match tree_rows(l, l.len(), t, depth) {
        Ok(rows) => Ok(join_lines(rows)),
        Err(e) => Err(e),
    }
}

pub open spec fn strings_view(v: Seq<String>) -> Seq<Seq<char>> {
    v.map_values(|s: String| s@)
}

proof fn lemma_prepend_twice(o: Seq<char>, p: Seq<char>, r: Option<Seq<char>>)
    ensures
        prepend(o, prepend(p, r)) == prepend(o + p, r),
{
    if let Some(x) = r {
        assert(o + (p + x) =~= (o + p) + x);
    }
}

proof fn lemma_repeat_two_more(s: Seq<char>, n: nat)
    ensures
        repeat(s, n + 2) == repeat(s, n) + s + s,
{
    assert(repeat(s, n + 2) == repeat(s, n + 1) + s);
    assert(repeat(s, n + 1) == repeat(s, n) + s);
}

proof fn lemma_rows_err(l: Seq<ArgTree>, k: nat, k2: nat, t: TreeGlyphs, depth: nat)
    requires
        k <= k2 <= l.len(),
        tree_rows(l, k, t, depth) is Err,
    ensures
        tree_rows(l, k2, t, depth) == tree_rows(l, k, t, depth),
    decreases k2,
{
    if k2 > k {
        lemma_rows_err(l, k, (k2 - 1) as nat, t, depth);
    }
}

proof fn lemma_items_err(s: Seq<ArgTree>, j: int, j2: int)
    requires
        0 <= j <= j2 <= s.len(),
        inline_items(s.take(j)) is Err,
    ensures
        inline_items(s.take(j2)) == inline_items(s.take(j)),
    decreases j2,
{
    if j2 > j {
        lemma_items_err(s, j, j2 - 1);
        assert(s.take(j2).drop_last() =~= s.take(j2 - 1));
    }
}

/// Fills `tpl`: each `{}` takes the next of `args`, `{{` and `}}` stand for
/// single braces. `None` where another brace stands alone or the numbers of
/// placeholders and arguments differ.
pub fn fill_template(tpl: &str, args: &Vec<String>) -> (r: Option<String>)
    ensures
        r matches Some(x) ==> fill(tpl@, strings_view(args@)) == Some(x@),
        r is None ==> fill(tpl@, strings_view(args@)) is None,
{
    let t = chars_of(tpl);
    let ghost av = strings_view(args@);
    let mut out = String::new();
    let mut i: usize = 0;
    let mut k: usize = 0;
    assert(t@.skip(0) =~= t@);
    assert(av.skip(0) =~= av);
    while i < t.len()
        invariant
            t@ == tpl@,
            av == strings_view(args@),
            av.len() == args.len(),
            i <= t.len(),
            k <= args.len(),
            fill(tpl@, av) == prepend(out@, fill(t@.skip(i as int), av.skip(k as int))),
        decreases t.len() - i,
    {
        let ghost rest = t@.skip(i as int);
        let ghost ra = av.skip(k as int);
        let ghost before = out@;
        if i + 1 < t.len() && t[i] == '{' && t[i + 1] == '}' {
            if k >= args.len() {
                return None;
            }
            out.append(args[k].as_str());
            proof {
                assert(rest.skip(2) =~= t@.skip(i + 2));
                assert(ra.skip(1) =~= av.skip(k + 1));
                lemma_prepend_twice(before, av[k as int], fill(t@.skip(i + 2), av.skip(k + 1)));
            }
            i = i + 2;
            k = k + 1;
        } else if i + 1 < t.len() && ((t[i] == '{' && t[i + 1] == '{') || (t[i] == '}' && t[i + 1] == '}')) {
            push_char(&mut out, t[i]);
            proof {
                assert(rest.skip(2) =~= t@.skip(i + 2));
                lemma_prepend_twice(before, seq![t@[i as int]], fill(t@.skip(i + 2), ra));
                assert(out@ =~= before + seq![t@[i as int]]);
            }
            i = i + 2;
        } else if t[i] == '{' || t[i] == '}' {
            return None;
        } else {
            push_char(&mut out, t[i]);
            proof {
                assert(rest.skip(1) =~= t@.skip(i + 1));
                lemma_prepend_twice(before, seq![t@[i as int]], fill(t@.skip(i + 1), ra));
                assert(out@ =~= before + seq![t@[i as int]]);
            }
            i = i + 1;
        }
    }
    if k < args.len() {
        return None;
    }
    proof {
        assert(out@ + Seq::<char>::empty() =~= out@);
    }
    Some(out)
}

fn row_prefix_exec(t: &TreeGlyphs, i: usize, n: usize, deep: bool, run: &String, depth: Ghost<nat>) -> (r: String)
    requires
        i < n,
        deep == (depth@ > 0),
        run@ == repeat(t.horizontal@, 2 * depth@ + 1),
    ensures
        r@ == row_prefix(*t, i as int, n as int, depth@),
{
    let conn = if i == 0 {
        t.top_left
    } else if i == n - 1 {
        t.bottom_left
    } else {
        t.branch_right
    };
    let mut m = String::new();
    if !deep {
        m.append(conn);
    } else if t.branches {
        m.append(t.vertical);
        m.append("  ");
        m.append(conn);
        m.append(run.as_str());
    } else {
        m.append(t.branch_right);
        m.append(run.as_str());
    }
    proof {
        reveal_strlit("  ");
        assert(m@ =~= tree_mark(*t, i as int, n as int, depth@));
    }
    if m.as_str().is_empty() {
        String::new()
    } else {
        m.append(t.horizontal);
        m.append(" ");
        proof {
            reveal_strlit(" ");
        }
        m
    }
}

/// The lines of `block` at depth `depth`; `run` holds the horizontal glyph
/// `2 * depth + 1` times.
fn render_rows(block: &Vec<MacroArg>, t: &TreeGlyphs, depth: Ghost<nat>, deep: bool, run: &String) -> (r: Result<String, XformatError>)
    requires
        deep == (depth@ > 0),
        run@ == repeat(t.horizontal@, 2 * depth@ + 1),
    ensures
        out_view(r) == tree_list(list_view(block@), *t, depth@),
    decreases block@, 1nat,
{
    let ghost l = list_view(block@);
    proof {
        lemma_list_view(block@);
    }
    let n = block.len();
    let mut out = String::new();
    let ghost mut rows: Seq<Seq<char>> = Seq::empty();
    let mut started = false;
    let mut i: usize = 0;
    while i < n
        invariant
            l == list_view(block@),
            l.len() == n,
            n == block.len(),
            i <= n,
            deep == (depth@ > 0),
            run@ == repeat(t.horizontal@, 2 * depth@ + 1),
            rows.len() <= i,
            started == (rows.len() > 0),
            tree_rows(l, i as nat, *t, depth@) == Ok::<Seq<Seq<char>>, RenderFault>(rows),
            out@ == join_lines(rows),
        decreases n - i,
    {
        proof {
            lemma_list_view(block@);
        }
        assert(l[i as int] == arg_view(block@[i as int]));
        match render_row(&block[i], i, n, t, depth, deep, run) {
            Ok(x) => {
                let empty_block = match &block[i] {
                    MacroArg::Block(_) => x.as_str().is_empty(),
                    _ => false,
                };
                if !empty_block {
                    let ghost before = out@;
                    if started {
                        push_char(&mut out, '\n');
                    }
                    out.append(x.as_str());
                    proof {
                        let nr = rows.push(x@);
                        assert(nr.drop_last() =~= rows);
                        if !started {
                            assert(out@ =~= x@);
                        }
                        rows = nr;
                    }
                    started = true;
                }
                i = i + 1;
            },
            Err(e) => {
                proof {
                    lemma_rows_err(l, (i + 1) as nat, n as nat, *t, depth@);
                }
                return Err(e);
            },
        }
    }
    Ok(out)
}

/// The slot of `a` at `i` of `n`.
fn render_row(a: &MacroArg, i: usize, n: usize, t: &TreeGlyphs, depth: Ghost<nat>, deep: bool, run: &String) -> (r: Result<String, XformatError>)
    requires
        i < n,
        deep == (depth@ > 0),
        run@ == repeat(t.horizontal@, 2 * depth@ + 1),
    ensures
        out_view(r) == tree_row(arg_view(*a), i as int, n as int, *t, depth@),
    decreases *a, 0nat,
{
    match a {
        MacroArg::Simple(v) => {
            let mut p = row_prefix_exec(t, i, n, deep, run, depth);
            p.append(v.as_str());
            Ok(p)
        },
        MacroArg::KeyValue(v, c) => {
            match Color::from_text(c.as_str()) {
                Ok(col) => {
                    let p = row_prefix_exec(t, i, n, deep, run, depth);
                    let mut x = p.as_str().colorize(col);
                    let y = v.as_str().colorize(col);
                    x.append(y.as_str());
                    Ok(x)
                },
                Err(m) => Err(XformatError::ColorResolution(m)),
            }
        },
        MacroArg::Group(l) => {
            match xformat_args(l) {
                Ok(x) => {
                    let mut p = row_prefix_exec(t, i, n, deep, run, depth);
                    p.append(x.as_str());
                    Ok(p)
                },
                Err(e) => Err(e),
            }
        },
        MacroArg::Block(l) => {
            let mut next = run.clone();
            next.append(t.horizontal);
            next.append(t.horizontal);
            proof {
                lemma_repeat_two_more(t.horizontal@, 2 * depth@ + 1);
                assert(next@ =~= repeat(t.horizontal@, 2 * (depth@ + 1) + 1));
            }
            render_rows(l, t, Ghost(depth@ + 1), true, &next)
        },
    }
}

/// One argument rendered on its own.
fn inline_one(a: &MacroArg) -> (r: Result<String, XformatError>)
    ensures
        out_view(r) == inline_arg(arg_view(*a)),
    decreases *a, 0nat,
{
    match a {
        MacroArg::Simple(v) => Ok(v.clone()),
        MacroArg::KeyValue(v, c) => match Color::from_text(c.as_str()) {
            Ok(col) => Ok(v.as_str().colorize(col)),
            Err(m) => Err(XformatError::ColorResolution(m)),
        },
        MacroArg::Group(l) => xformat_args(l),
        MacroArg::Block(l) => {
            let g = TreeStyle::Thick.style(true);
            let run = repeat_str(g.horizontal, 1);
            render_rows(l, &g, Ghost(0), false, &run)
        },
    }
}

/// The template of a first argument, and the color to put round the result.
fn head_exec(a: &MacroArg) -> (r: Result<(String, Option<Color>), XformatError>)
    ensures
        r matches Ok((tpl, code)) ==> head_parts(arg_view(*a)) == Ok::<(Seq<char>, Option<Seq<char>>), RenderFault>((
            tpl@,
            match code {
                Some(c) => Some(fg(c)),
                None => None,
            },
        )),
        r matches Err(e) ==> head_parts(arg_view(*a)) == Err::<(Seq<char>, Option<Seq<char>>), RenderFault>(e@),
    decreases *a, 0nat,
{
    match a {
        MacroArg::Simple(v) => Ok((v.clone(), None)),
        MacroArg::KeyValue(v, c) => match Color::from_text(c.as_str()) {
            Ok(col) => Ok((v.clone(), Some(col))),
            Err(m) => Err(XformatError::ColorResolution(m)),
        },
        MacroArg::Group(l) => match xformat_args(l) {
            Ok(x) => Ok((x, None)),
            Err(e) => Err(e),
        },
        MacroArg::Block(l) => {
            let g = TreeStyle::Thick.style(true);
            let run = repeat_str(g.horizontal, 1);
            match render_rows(l, &g, Ghost(0), false, &run) {
                Ok(x) => Ok((x, None)),
                Err(e) => Err(e),
            }
        },
    }
}

/// Renders a list on one line. An empty list gives the empty text and a single
/// argument its own rendering. Otherwise the first argument's text is a
/// template whose `{}` placeholders take the other arguments in order; where the
/// first argument is tagged with a color, the filled template is colored as a
/// whole. Groups render the same way, blocks as a tree at depth 0.
pub fn xformat_args(args: &Vec<MacroArg>) -> (r: Result<String, XformatError>)
    ensures
        out_view(r) == inline_list(list_view(args@)),
    decreases args@, 1nat,
{
    let ghost l = list_view(args@);
    proof {
        lemma_list_view(args@);
    }
    let n = args.len();
    if n == 0 {
        return Ok(String::new());
    }
    if n == 1 {
        return inline_one(&args[0]);
    }
    let (tpl, code) = match head_exec(&args[0]) {
        Ok(p) => p,
        Err(e) => return Err(e),
    };
    let ghost s = l.skip(1);
    assert(l[0] == arg_view(args@[0]));
    let mut items: Vec<String> = Vec::new();
    let mut i: usize = 1;
    assert(s.take(0) =~= Seq::<ArgTree>::empty());
    assert(strings_view(items@) =~= Seq::<Seq<char>>::empty());
    while i < n
        invariant
            1 <= i <= n,
            n == args.len(),
            l == list_view(args@),
            l.len() == n,
            s == l.skip(1),
            n >= 2,
            head_parts(l[0]) is Ok,
            inline_items(s.take(i - 1)) == Ok::<Seq<Seq<char>>, RenderFault>(strings_view(items@)),
        decreases n - i,
    {
        proof {
            lemma_list_view(args@);
        }
        assert(l[i as int] == arg_view(args@[i as int]));
        assert(s.take(i as int).drop_last() =~= s.take(i - 1));
        assert(s.take(i as int).last() == l[i as int]);
        match inline_one(&args[i]) {
            Ok(x) => {
                let ghost before = items@;
                items.push(x);
                assert(strings_view(items@) =~= strings_view(before).push(x@));
                i = i + 1;
            },
            Err(e) => {
                proof {
                    assert(inline_items(s.take(i as int)) is Err);
                    lemma_items_err(s, i as int, n - 1);
                    assert(s.take(n - 1) =~= s);
                }
                return Err(e);
            },
        }
    }
    assert(s.take(n - 1) =~= s);
    match fill_template(tpl.as_str(), &items) {
        None => Err(XformatError::FormatMismatch),
        Some(x) => match code {
            Some(col) => Ok(x.as_str().colorize(col)),
            None => Ok(x),
        },
    }
}

/// Draws a list as a tree at `depth`: one slot per element joined with line
/// breaks, each row led by its connector, and each block drawn one level
/// deeper in place of its slot.
pub fn xformat_block(block: &Vec<MacroArg>, style: &TreeGlyphs, depth: u16) -> (r: Result<String, XformatError>)
    ensures
        out_view(r) == tree_list(list_view(block@), *style, depth as nat),
{
    let run = repeat_str(style.horizontal, 2 * (depth as usize) + 1);
    render_rows(block, style, Ghost(depth as nat), depth > 0, &run)
}

/// An empty list renders as the empty text.
pub proof fn inline_empty()
    ensures
        inline_list(Seq::empty()) == Ok::<Seq<char>, RenderFault>(Seq::empty()),
{
}

/// A list of one plain value renders as that value.
pub proof fn inline_single_plain(v: Seq<char>)
    ensures
        inline_list(seq![ArgTree::Simple(v)]) == Ok::<Seq<char>, RenderFault>(v),
{
}

/// A list of one tagged value renders as that value in its color, or fails as
/// the color does.
pub proof fn inline_single_tagged(v: Seq<char>, c: Seq<char>)
    ensures
        inline_list(seq![ArgTree::KeyValue(v, c)]) == match color_code(c) {
            Ok(code) => Ok(painted(code, v)),
            Err(e) => Err(e),
        },
{
}

/// Below the top level, with branches drawn, a row's prefix is the vertical
/// glyph, two spaces, the connector, the run of `2 * depth + 1` horizontal
/// glyphs, the one horizontal glyph that ends every prefix, and a space.
pub proof fn deep_prefix(t: TreeGlyphs, i: int, n: int, depth: nat)
    requires
        depth > 0,
        t.branches,
    ensures
        row_prefix(t, i, n, depth) == t.vertical@ + seq![' ', ' '] + connector(t, i, n)
            + repeat(t.horizontal@, 2 * depth + 1) + t.horizontal@ + seq![' '],
{
    let m = tree_mark(t, i, n, depth);
    assert(m.len() >= 2);
}

proof fn lemma_repeat_empty(s: Seq<char>, n: nat)
    requires
        s.len() == 0,
    ensures
        repeat(s, n).len() == 0,
    decreases n,
{
    if n > 0 {
        lemma_repeat_empty(s, (n - 1) as nat);
    }
}

/// Under `Indent` no row has a prefix.
pub proof fn indent_has_no_prefix(branches: bool, i: int, n: int, depth: nat)
    ensures
        row_prefix(glyphs_of(TreeStyle::Indent, branches), i, n, depth).len() == 0,
{
    reveal_strlit("");
    let t = glyphs_of(TreeStyle::Indent, branches);
    lemma_repeat_empty(t.horizontal@, 2 * depth + 1);
    assert(tree_mark(t, i, n, depth).len() == 0);
}

/// The number of line breaks in a text.
pub open spec fn breaks(s: Seq<char>) -> nat
    decreases s.len(),
{
    if s.len() == 0 {
        0
    } else {
        breaks(s.drop_last()) + if s.last() == '\n' { 1nat } else { 0nat }
    }
}

/// The leaf slots of a list once every block is expanded: one per element that
/// is not a block.
pub open spec fn slot_count(l: Seq<ArgTree>) -> nat
    decreases l, 1nat,
{
    if l.len() == 0 {
        0
    } else {
        slot_count(l.drop_last()) + arg_slots(l.last())
    }
}

pub open spec fn arg_slots(a: ArgTree) -> nat
    decreases a, 0nat,
{
    match a {
        ArgTree::Block(s) => slot_count(s),
        _ => 1,
    }
}

/// Every leaf slot among the first `k` elements of `l` draws a row that is
/// not empty and holds no line break of its own.
pub open spec fn flat_upto(l: Seq<ArgTree>, k: nat, t: TreeGlyphs, depth: nat) -> bool
    decreases l, k,
{
    if k == 0 || k > l.len() {
        true
    } else {
        flat_upto(l, (k - 1) as nat, t, depth) && match l[k - 1] {
            ArgTree::Block(s) => flat_upto(s, s.len(), t, depth + 1),
            a => tree_row(a, k - 1, l.len() as int, t, depth) matches Ok(x) ==> (x.len() > 0
                && breaks(x) == 0),
        }
    }
}

proof fn lemma_breaks_concat(a: Seq<char>, b: Seq<char>)
    ensures
        breaks(a + b) == breaks(a) + breaks(b),
    decreases b.len(),
{
    if b.len() > 0 {
        lemma_breaks_concat(a, b.drop_last());
        assert((a + b).drop_last() =~= a + b.drop_last());
    } else {
        assert(a + b =~= a);
    }
}

/// What the line count of a drawn text says: empty exactly where there are no
/// leaf slots, otherwise one line per slot, and no line break at the end.
pub open spec fn lines_match(out: Seq<char>, slots: nat) -> bool {
    &&& (out.len() == 0 <==> slots == 0)
    &&& slots > 0 ==> breaks(out) + 1 == slots && out.last() != '\n'
}

proof fn lemma_rows_lines(l: Seq<ArgTree>, k: nat, t: TreeGlyphs, depth: nat)
    requires
        k <= l.len(),
        flat_upto(l, k, t, depth),
        tree_rows(l, k, t, depth) is Ok,
    ensures
        lines_match(join_lines(tree_rows(l, k, t, depth)->Ok_0), slot_count(l.take(k as int))),
        (tree_rows(l, k, t, depth)->Ok_0.len() == 0) == (slot_count(l.take(k as int)) == 0),
    decreases l, k,
{
    let rows = tree_rows(l, k, t, depth)->Ok_0;
    if k == 0 {
        assert(l.take(0) =~= Seq::<ArgTree>::empty());
        assert(slot_count(Seq::<ArgTree>::empty()) == 0);
    } else {
        let a = l[k - 1];
        let p = tree_rows(l, (k - 1) as nat, t, depth)->Ok_0;
        let x = tree_row(a, k - 1, l.len() as int, t, depth)->Ok_0;
        lemma_rows_lines(l, (k - 1) as nat, t, depth);
        assert(l.take(k as int).drop_last() =~= l.take(k - 1));
        assert(l.take(k as int).last() == a);
        assert(slot_count(l.take(k as int)) == slot_count(l.take(k - 1)) + arg_slots(a));
        match a {
            ArgTree::Block(sub) => {
                lemma_list_lines(sub, t, depth + 1);
            },
            _ => {
                assert(x.len() > 0 && breaks(x) == 0);
            },
        }
        assert(lines_match(x, arg_slots(a)));
        if x.len() > 0 || !(a is Block) {
            assert(rows == p.push(x));
            assert(rows.drop_last() =~= p);
            if p.len() == 0 {
                assert(join_lines(rows) == x);
            } else {
                let jp = join_lines(p);
                assert(join_lines(rows) == jp + seq!['\n'] + x);
                lemma_breaks_concat(jp, seq!['\n']);
                lemma_breaks_concat(jp + seq!['\n'], x);
                assert(breaks(seq!['\n']) == 1) by {
                    assert(seq!['\n'].drop_last() =~= Seq::<char>::empty());
                    assert(breaks(Seq::<char>::empty()) == 0);
                }
            }
        } else {
            assert(rows == p);
        }
    }
}

proof fn lemma_list_lines(l: Seq<ArgTree>, t: TreeGlyphs, depth: nat)
    requires
        flat_upto(l, l.len(), t, depth),
        tree_list(l, t, depth) is Ok,
    ensures
        lines_match(tree_list(l, t, depth)->Ok_0, slot_count(l)),
    decreases l, l.len() + 1,
{
    lemma_rows_lines(l, l.len(), t, depth);
    assert(l.take(l.len() as int) =~= l);
}

/// A drawn tree has one line per leaf slot once every block is expanded (and
/// is empty where there is none), wherever every leaf slot draws a row that is
/// not empty and holds no line break of its own.
pub proof fn tree_line_count(l: Seq<ArgTree>, t: TreeGlyphs, depth: nat)
    requires
        flat_upto(l, l.len(), t, depth),
        tree_list(l, t, depth) is Ok,
    ensures
        tree_list(l, t, depth)->Ok_0.len() == 0 <==> slot_count(l) == 0,
        slot_count(l) > 0 ==> breaks(tree_list(l, t, depth)->Ok_0) + 1 == slot_count(l),
{
    lemma_list_lines(l, t, depth);
}

/// A drawn tree never ends with a line break, wherever every leaf slot draws a
/// row that is not empty and holds no line break of its own.
pub proof fn tree_no_trailing_break(l: Seq<ArgTree>, t: TreeGlyphs, depth: nat)
    requires
        flat_upto(l, l.len(), t, depth),
        tree_list(l, t, depth) is Ok,
    ensures
        tree_list(l, t, depth)->Ok_0.len() > 0 ==> tree_list(l, t, depth)->Ok_0.last() != '\n',
{
    lemma_list_lines(l, t, depth);
}

/// Every element of the list is a plain value.
pub open spec fn all_plain(l: Seq<ArgTree>) -> bool {
    forall|i: int| 0 <= i < l.len() ==> #[trigger] l[i] is Simple
}

/// The rows of the first `k` plain values: each one's prefix, then the value.
pub open spec fn plain_rows(l: Seq<ArgTree>, k: nat, t: TreeGlyphs, depth: nat) -> Seq<Seq<char>> {
    Seq::new(k, |i: int| row_prefix(t, i, l.len() as int, depth) + l[i]->Simple_0)
}

proof fn lemma_plain_rows(l: Seq<ArgTree>, k: nat, t: TreeGlyphs, depth: nat)
    requires
        all_plain(l),
        k <= l.len(),
    ensures
        tree_rows(l, k, t, depth) == Ok::<Seq<Seq<char>>, RenderFault>(plain_rows(l, k, t, depth)),
    decreases k,
{
    if k == 0 {
        assert(plain_rows(l, 0, t, depth) =~= Seq::<Seq<char>>::empty());
    } else {
        lemma_plain_rows(l, (k - 1) as nat, t, depth);
        let a = l[k - 1];
        assert(a is Simple);
        assert(tree_row(a, k - 1, l.len() as int, t, depth) == Ok::<Seq<char>, RenderFault>(
            row_prefix(t, k - 1, l.len() as int, depth) + a->Simple_0,
        ));
        assert(!(a is Block));
        assert(plain_rows(l, k, t, depth) =~= plain_rows(l, (k - 1) as nat, t, depth).push(
            row_prefix(t, k - 1, l.len() as int, depth) + l[k - 1]->Simple_0,
        ));
    }
}

/// A list of plain values draws one line per value: line `i` is the row
/// prefix of `i`, then the value.
pub proof fn plain_lines(l: Seq<ArgTree>, t: TreeGlyphs, depth: nat)
    requires
        all_plain(l),
    ensures
        tree_list(l, t, depth) == Ok::<Seq<char>, RenderFault>(join_lines(plain_rows(l, l.len(), t, depth))),
{
    lemma_plain_rows(l, l.len(), t, depth);
}

/// Below the top level, with branches drawn, line `i` of a list of plain values
/// is the vertical glyph, two spaces, the connector, the run of `2 * depth + 1`
/// horizontal glyphs, the one horizontal glyph that ends every prefix, a space,
/// and the value.
pub proof fn deep_plain_lines(l: Seq<ArgTree>, t: TreeGlyphs, depth: nat)
    requires
        all_plain(l),
        depth > 0,
        t.branches,
    ensures
        tree_list(l, t, depth) == Ok::<Seq<char>, RenderFault>(join_lines(
            Seq::new(
                l.len(),
                |i: int|
                    t.vertical@ + seq![' ', ' '] + connector(t, i, l.len() as int) + repeat(
                        t.horizontal@,
                        2 * depth + 1,
                    ) + t.horizontal@ + seq![' '] + l[i]->Simple_0,
            ),
        )),
{
    plain_lines(l, t, depth);
    assert forall|i: int| 0 <= i < l.len() implies row_prefix(t, i, l.len() as int, depth)
        == t.vertical@ + seq![' ', ' '] + connector(t, i, l.len() as int) + repeat(t.horizontal@, 2 * depth + 1)
        + t.horizontal@ + seq![' '] by {
        deep_prefix(t, i, l.len() as int, depth);
    }
    assert(plain_rows(l, l.len(), t, depth) =~= Seq::new(
        l.len(),
        |i: int|
            t.vertical@ + seq![' ', ' '] + connector(t, i, l.len() as int) + repeat(t.horizontal@, 2 * depth + 1)
                + t.horizontal@ + seq![' '] + l[i]->Simple_0,
    ));
}

/// Under `Indent` each line of a list of plain values is the value alone.
pub proof fn indent_plain_lines(l: Seq<ArgTree>, branches: bool, depth: nat)
    requires
        all_plain(l),
    ensures
        tree_list(l, glyphs_of(TreeStyle::Indent, branches), depth) == Ok::<Seq<char>, RenderFault>(
            join_lines(Seq::new(l.len(), |i: int| l[i]->Simple_0)),
        ),
{
    let t = glyphs_of(TreeStyle::Indent, branches);
    plain_lines(l, t, depth);
    assert forall|i: int| 0 <= i < l.len() implies row_prefix(t, i, l.len() as int, depth).len() == 0 by {
        indent_has_no_prefix(branches, i, l.len() as int, depth);
    }
    assert forall|i: int| 0 <= i < l.len() implies #[trigger] plain_rows(l, l.len(), t, depth)[i] == l[i]->Simple_0 by {
        assert(row_prefix(t, i, l.len() as int, depth) =~= Seq::<char>::empty());
        assert(Seq::<char>::empty() + l[i]->Simple_0 =~= l[i]->Simple_0);
    }
    assert(plain_rows(l, l.len(), t, depth) =~= Seq::new(l.len(), |i: int| l[i]->Simple_0));
}

/// A tree of plain values and blocks only, each value non-empty and without
/// line breaks.
pub open spec fn plain_tree(l: Seq<ArgTree>) -> bool
    decreases l,
{
    forall|i: int|
        0 <= i < l.len() ==> match #[trigger] l[i] {
            ArgTree::Simple(v) => v.len() > 0 && breaks(v) == 0,
            ArgTree::Block(sub) => plain_tree(sub),
            _ => false,
        }
}

/// The glyphs that row prefixes are made of hold no line break.
pub open spec fn glyphs_unbroken(t: TreeGlyphs) -> bool {
    &&& breaks(t.top_left@) == 0
    &&& breaks(t.bottom_left@) == 0
    &&& breaks(t.branch_right@) == 0
    &&& breaks(t.vertical@) == 0
    &&& breaks(t.horizontal@) == 0
}

proof fn lemma_breaks_repeat(h: Seq<char>, n: nat)
    requires
        breaks(h) == 0,
    ensures
        breaks(repeat(h, n)) == 0,
    decreases n,
{
    if n > 0 {
        lemma_breaks_repeat(h, (n - 1) as nat);
        lemma_breaks_concat(repeat(h, (n - 1) as nat), h);
    }
}

proof fn lemma_breaks_spaces()
    ensures
        breaks(seq![' ']) == 0,
        breaks(seq![' ', ' ']) == 0,
{
    assert(seq![' '].drop_last() =~= Seq::<char>::empty());
    assert(seq![' ', ' '].drop_last() =~= seq![' ']);
    assert(breaks(Seq::<char>::empty()) == 0);
}

proof fn lemma_prefix_unbroken(t: TreeGlyphs, i: int, n: int, depth: nat)
    requires
        glyphs_unbroken(t),
    ensures
        breaks(row_prefix(t, i, n, depth)) == 0,
{
    let h = t.horizontal@;
    let c = connector(t, i, n);
    let r = repeat(h, 2 * depth + 1);
    lemma_breaks_repeat(h, 2 * depth + 1);
    lemma_breaks_spaces();
    assert(breaks(Seq::<char>::empty()) == 0);
    lemma_breaks_concat(t.vertical@, seq![' ', ' ']);
    lemma_breaks_concat(t.vertical@ + seq![' ', ' '], c);
    lemma_breaks_concat(t.vertical@ + seq![' ', ' '] + c, r);
    lemma_breaks_concat(t.branch_right@, r);
    let m = tree_mark(t, i, n, depth);
    assert(breaks(m) == 0);
    lemma_breaks_concat(m, h);
    lemma_breaks_concat(m + h, seq![' ']);
}

proof fn lemma_plain_tree_rows(l: Seq<ArgTree>, k: nat, t: TreeGlyphs, depth: nat)
    requires
        plain_tree(l),
        glyphs_unbroken(t),
        k <= l.len(),
    ensures
        tree_rows(l, k, t, depth) is Ok,
        flat_upto(l, k, t, depth),
    decreases l, k,
{
    if k > 0 {
        lemma_plain_tree_rows(l, (k - 1) as nat, t, depth);
        let a = l[k - 1];
        assert(a is Simple || a is Block);
        match a {
            ArgTree::Simple(v) => {
                let p = row_prefix(t, k - 1, l.len() as int, depth);
                lemma_prefix_unbroken(t, k - 1, l.len() as int, depth);
                lemma_breaks_concat(p, v);
                assert(tree_row(a, k - 1, l.len() as int, t, depth) == Ok::<Seq<char>, RenderFault>(p + v));
            },
            ArgTree::Block(sub) => {
                assert(plain_tree(sub));
                lemma_plain_tree_rows(sub, sub.len(), t, depth + 1);
                assert(tree_list(sub, t, depth + 1) is Ok);
                assert(tree_row(a, k - 1, l.len() as int, t, depth) == tree_list(sub, t, depth + 1));
            },
            _ => {},
        }
        assert(tree_row(a, k - 1, l.len() as int, t, depth) is Ok);
    }
}

/// A tree of non-empty plain values without line breaks, drawn with glyphs
/// without line breaks, draws one line per value once every block is expanded,
/// is empty where it has no value, and never ends with a line break.
pub proof fn plain_tree_lines(l: Seq<ArgTree>, t: TreeGlyphs, depth: nat)
    requires
        plain_tree(l),
        glyphs_unbroken(t),
    ensures
        tree_list(l, t, depth) is Ok,
        tree_list(l, t, depth)->Ok_0.len() == 0 <==> slot_count(l) == 0,
        slot_count(l) > 0 ==> breaks(tree_list(l, t, depth)->Ok_0) + 1 == slot_count(l),
        tree_list(l, t, depth)->Ok_0.len() > 0 ==> tree_list(l, t, depth)->Ok_0.last() != '\n',
{
    lemma_plain_tree_rows(l, l.len(), t, depth);
    tree_line_count(l, t, depth);
    tree_no_trailing_break(l, t, depth);
}

} // verus!
