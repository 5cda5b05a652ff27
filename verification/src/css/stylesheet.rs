//! The structure of a parsed stylesheet, and the text processing that
//! comes before selectors are parsed: removing comments, cutting the text
//! into rule blocks, and cutting a block's body into declarations.
use vstd::prelude::*;
use crate::text::{chars_of, string_of, sub_string, trim, trimmed};

verus! {

/// One part of a simple selector chain.
#[derive(Debug, Clone)]
pub enum SelectorComponent {
    Tag(String),
    Class(String),
    Id(String),
    Universal,
    Descendant,
    Child,
}

/// Selector specificity, compared by ids, then classes, then elements.
#[derive(Debug, Clone, Copy, PartialEq, Eq, PartialOrd, Ord, Structural)]
pub struct Specificity {
    pub ids: u32,
    pub classes: u32,
    pub elements: u32,
}

/// A selector with its specificity.
#[derive(Debug, Clone)]
pub struct Selector {
    pub specificity: Specificity,
    pub components: Vec<SelectorComponent>,
}

/// `s` without its `/* ... */` comments, starting inside a comment when
/// `in_comment` holds; an unterminated comment runs to the end.
pub open spec fn strip_from(s: Seq<char>, in_comment: bool) -> Seq<char>
    decreases s.len(),
{
    if s.len() == 0 {
        Seq::empty()
    } else if in_comment {
        if s.len() >= 2 && s[0] == '*' && s[1] == '/' {
            strip_from(s.subrange(2, s.len() as int), false)
        } else {
            strip_from(s.drop_first(), true)
        }
    } else if s.len() >= 2 && s[0] == '/' && s[1] == '*' {
        strip_from(s.subrange(2, s.len() as int), true)
    } else {
        seq![s[0]] + strip_from(s.drop_first(), false)
    }
}

/// Remove `/* ... */` comments from a stylesheet.
pub fn strip_comments(css: &str) -> (r: String)
    ensures
        r@ == strip_from(css@, false),
{
    let v = chars_of(css);
    let n = v.len();
    let mut out: Vec<char> = Vec::new();
    let mut in_comment = false;
    let mut i: usize = 0;
    assert(v@.subrange(0, n as int) =~= v@);
    while i < n
        invariant
            v@ == css@,
            n == v@.len(),
            i <= n,
            out@ + strip_from(v@.subrange(i as int, n as int), in_comment) == strip_from(css@, false),
        decreases n - i,
    {
        let ghost rest = v@.subrange(i as int, n as int);
        if in_comment {
            if i + 1 < n && v[i] == '*' && v[i + 1] == '/' {
                assert(rest.subrange(2, rest.len() as int) =~= v@.subrange(i + 2, n as int));
                in_comment = false;
                i += 2;
            } else {
                assert(rest.drop_first() =~= v@.subrange(i + 1, n as int));
                i += 1;
            }
        } else if i + 1 < n && v[i] == '/' && v[i + 1] == '*' {
            assert(rest.subrange(2, rest.len() as int) =~= v@.subrange(i + 2, n as int));
            in_comment = true;
            i += 2;
        } else {
            let ghost before = out@;
            out.push(v[i]);
            assert(rest.drop_first() =~= v@.subrange(i + 1, n as int));
            assert(out@ =~= before + seq![rest[0]]);
            assert(before + strip_from(rest, false) =~= out@ + strip_from(rest.drop_first(), false));
            i += 1;
        }
    }
    assert(v@.subrange(n as int, n as int) =~= Seq::<char>::empty());
    assert(out@ =~= out@ + Seq::<char>::empty());
    string_of(out.as_slice())
}

/// The index of the first `c` in `s`, if any.
pub open spec fn first_index(s: Seq<char>, c: char) -> Option<int> {
    if exists|k: int| 0 <= k < s.len() && s[k] == c {
        Some(choose|k: int| 0 <= k < s.len() && s[k] == c && forall|j: int| 0 <= j < k ==> s[j] != c)
    } else {
        None
    }
}

/// `s` without every trailing `c` (`str::trim_end_matches`).
pub open spec fn trim_end_char(s: Seq<char>, c: char) -> Seq<char>
    decreases s.len(),
{
    if s.len() > 0 && s.last() == c {
        trim_end_char(s.drop_last(), c)
    } else {
        s
    }
}

/// The rule a block of text yields: `selectors { declarations }`, with the
/// selectors trimmed and the trailing `}`s removed from the declarations.
/// Empty blocks, at-rules and blocks without `{` yield nothing.
pub open spec fn block_rule(b: Seq<char>) -> Seq<(Seq<char>, Seq<char>)> {
    let t = trimmed(b);
    if t.len() == 0 || t[0] == '@' {
        Seq::empty()
    } else {
        match first_index(t, '{') {
            Some(k) => seq![(trimmed(t.subrange(0, k)), trim_end_char(t.subrange(k + 1, t.len() as int), '}'))],
            None => Seq::empty(),
        }
    }
}

/// The state of cutting text into blocks: the brace depth, the block
/// being read, and the rules found so far.
pub struct BlockState {
    pub depth: int,
    pub cur: Seq<char>,
    pub rules: Seq<(Seq<char>, Seq<char>)>,
}

/// Reading one more character: a block ends at a `}` that brings the depth
/// back to zero.
pub open spec fn blocks_step(st: BlockState, ch: char) -> BlockState {
    let cur2 = st.cur.push(ch);
    if ch == '{' {
        BlockState { depth: st.depth + 1, cur: cur2, rules: st.rules }
    } else if ch == '}' {
        if st.depth - 1 == 0 {
            BlockState { depth: 0, cur: Seq::empty(), rules: st.rules + block_rule(cur2) }
        } else {
            BlockState { depth: st.depth - 1, cur: cur2, rules: st.rules }
        }
    } else {
        BlockState { depth: st.depth, cur: cur2, rules: st.rules }
    }
}

/// The state after reading `c`.
pub open spec fn blocks_run(c: Seq<char>) -> BlockState
    decreases c.len(),
{
    if c.len() == 0 {
        BlockState { depth: 0, cur: Seq::empty(), rules: Seq::empty() }
    } else {
        blocks_step(blocks_run(c.drop_last()), c.last())
    }
}

/// Pairs of strings by their text.
pub open spec fn pairs_view(v: Seq<(String, String)>) -> Seq<(Seq<char>, Seq<char>)> {
    v.map_values(|p: (String, String)| (p.0@, p.1@))
}

/// The first `{` of `v`, if any.
fn find_open_brace(v: &Vec<char>) -> (r: Option<usize>)
    ensures
        match r {
            Some(k) => k < v@.len() && first_index(v@, '{') == Some(k as int),
            None => first_index(v@, '{') is None,
        },
{
    let mut k: usize = 0;
    while k < v.len()
        invariant
            k <= v@.len(),
            forall|j: int| 0 <= j < k ==> v@[j] != '{',
        decreases v@.len() - k,
    {
        if v[k] == '{' {
            assert(v@[k as int] == '{');
            let ghost w = choose|w: int| 0 <= w < v@.len() && v@[w] == '{' && forall|j: int| 0 <= j < w ==> v@[j] != '{';
            assert(w == k) by {
                if w < k {
                } else if w > k {
                }
            }
            return Some(k);
        }
        k += 1;
    }
    None
}

/// The rule of one block (see `block_rule`).
fn rule_of_block(b: &Vec<char>) -> (r: Option<(String, String)>)
    ensures
        match r {
            Some(p) => block_rule(b@) == seq![(p.0@, p.1@)],
            None => block_rule(b@).len() == 0,
        },
{
    let tb = trim(string_of(b.as_slice()).as_str());
    let t = chars_of(tb.as_str());
    if t.len() == 0 || t[0] == '@' {
        return None;
    }
    match find_open_brace(&t) {
        None => None,
        Some(k) => {
            let sel = sub_string(&t, 0, k);
            let sel = trim(sel.as_str());
            let mut e = t.len();
            assert(t@.subrange(k + 1, e as int) == t@.subrange(k + 1, t@.len() as int));
            while e > k + 1 && t[e - 1] == '}'
                invariant
                    k + 1 <= e <= t@.len(),
                    trim_end_char(t@.subrange(k + 1, t@.len() as int), '}') == trim_end_char(
                        t@.subrange(k + 1, e as int),
                        '}',
                    ),
                decreases e,
            {
                assert(t@.subrange(k + 1, e as int).drop_last() =~= t@.subrange(k + 1, e - 1));
                e -= 1;
            }
            let decls = sub_string(&t, k + 1, e);
            Some((sel, decls))
        },
    }
}

/// Whether the brace depth stays within `i32` at every point of `c`.
pub open spec fn depth_fits(c: Seq<char>) -> bool {
    forall|i: int|
        0 <= i <= c.len() ==> i32::MIN <= #[trigger] blocks_run(c.take(i)).depth <= i32::MAX
}

/// Whether `css_blocks` can count the braces of `css` in an `i32`.
pub fn brace_depth_fits(css: &str) -> (r: bool)
    ensures
        r == depth_fits(css@),
{
    let v = chars_of(css);
    let mut depth: i64 = 0;
    let mut i: usize = 0;
    assert(v@.take(0) =~= Seq::<char>::empty());
    while i < v.len()
        invariant
            v@ == css@,
            i <= v@.len(),
            depth as int == blocks_run(v@.take(i as int)).depth,
            forall|j: int|
                0 <= j <= i ==> i32::MIN <= #[trigger] blocks_run(v@.take(j)).depth <= i32::MAX,
        decreases v@.len() - i,
    {
        assert(v@.take(i + 1).drop_last() =~= v@.take(i as int));
        let ch = v[i];
        if ch == '{' {
            depth = depth + 1;
        } else if ch == '}' {
            if depth == 1 {
                depth = 0;
            } else {
                depth = depth - 1;
            }
        }
        if depth > 0x7fff_ffff || depth < -0x8000_0000 {
            assert(blocks_run(v@.take(i + 1)).depth == depth);
            return false;
        }
        i += 1;
    }
    assert(v@.take(v@.len() as int) =~= v@);
    true
}

/// Cut a comment-free stylesheet into rules: `(selectors, declarations)`
/// for each top-level block, in order (see `blocks_run`).
pub fn css_blocks(css: &str) -> (r: Vec<(String, String)>)
    requires
        depth_fits(css@),
    ensures
        pairs_view(r@) == blocks_run(css@).rules,
{
    let v = chars_of(css);
    let mut rules: Vec<(String, String)> = Vec::new();
    let mut cur: Vec<char> = Vec::new();
    let mut depth: i32 = 0;
    let mut i: usize = 0;
    assert(v@.take(0) =~= Seq::<char>::empty());
    while i < v.len()
        invariant
            v@ == css@,
            depth_fits(v@),
            i <= v@.len(),
            depth as int == blocks_run(v@.take(i as int)).depth,
            cur@ == blocks_run(v@.take(i as int)).cur,
            pairs_view(rules@) == blocks_run(v@.take(i as int)).rules,
        decreases v@.len() - i,
    {
        let ghost st = blocks_run(v@.take(i as int));
        assert(v@.take(i + 1).drop_last() =~= v@.take(i as int));
        assert(blocks_run(v@.take(i + 1)) == blocks_step(st, v@[i as int]));
        let ghost next = blocks_run(v@.take(i + 1)).depth;
        assert(i32::MIN <= next <= i32::MAX);
        let ch = v[i];
        cur.push(ch);
        if ch == '{' {
            depth = depth + 1;
        } else if ch == '}' {
            if depth == 1 {
                depth = 0;
                let ghost before = rules@;
                match rule_of_block(&cur) {
                    Some(p) => {
                        rules.push(p);
                        assert(pairs_view(rules@) =~= pairs_view(before) + block_rule(cur@));
                    },
                    None => {
                        assert(pairs_view(rules@) =~= pairs_view(before) + block_rule(cur@));
                    },
                }
                cur = Vec::new();
                assert(cur@ =~= Seq::<char>::empty());
            } else {
                depth = depth - 1;
            }
        }
        i += 1;
    }
    assert(v@.take(v@.len() as int) =~= v@);
    rules
}

/// The declaration one `;`-separated part holds: `property: value`, both
/// trimmed and non-empty; otherwise none.
pub open spec fn decl_of(part: Seq<char>) -> Seq<(Seq<char>, Seq<char>)> {
    match first_index(part, ':') {
        Some(k) => {
            let p = trimmed(part.subrange(0, k));
            let v = trimmed(part.subrange(k + 1, part.len() as int));
            if p.len() > 0 && v.len() > 0 {
                seq![(p, v)]
            } else {
                Seq::empty()
            }
        },
        None => Seq::empty(),
    }
}

/// Reading declarations: the part being read and the declarations found.
pub struct DeclState {
    pub cur: Seq<char>,
    pub decls: Seq<(Seq<char>, Seq<char>)>,
}

/// The state after reading `c`; each `;` ends a part.
pub open spec fn decls_run(c: Seq<char>) -> DeclState
    decreases c.len(),
{
    if c.len() == 0 {
        DeclState { cur: Seq::empty(), decls: Seq::empty() }
    } else {
        let st = decls_run(c.drop_last());
        if c.last() == ';' {
            DeclState { cur: Seq::empty(), decls: st.decls + decl_of(st.cur) }
        } else {
            DeclState { cur: st.cur.push(c.last()), decls: st.decls }
        }
    }
}

/// The declarations of a rule body: each `;`-separated part, the last one
/// included (see `decl_of`).
pub open spec fn declarations_of(s: Seq<char>) -> Seq<(Seq<char>, Seq<char>)> {
    decls_run(s).decls + decl_of(decls_run(s).cur)
}

/// The first `:` of `v`, if any.
pub(crate) fn find_colon(v: &Vec<char>) -> (r: Option<usize>)
    ensures
        match r {
            Some(k) => k < v@.len() && first_index(v@, ':') == Some(k as int),
            None => first_index(v@, ':') is None,
        },
{
    let mut k: usize = 0;
    while k < v.len()
        invariant
            k <= v@.len(),
            forall|j: int| 0 <= j < k ==> v@[j] != ':',
        decreases v@.len() - k,
    {
        if v[k] == ':' {
            assert(v@[k as int] == ':');
            let ghost w = choose|w: int| 0 <= w < v@.len() && v@[w] == ':' && forall|j: int| 0 <= j < w ==> v@[j] != ':';
            assert(w == k) by {
                if w < k {
                } else if w > k {
                }
            }
            return Some(k);
        }
        k += 1;
    }
    None
}

/// The declaration of one part (see `decl_of`).
fn part_decl(part: &Vec<char>) -> (r: Option<(String, String)>)
    ensures
        match r {
            Some(d) => decl_of(part@) == seq![(d.0@, d.1@)],
            None => decl_of(part@).len() == 0,
        },
{
    let n = part.len();
    let found = find_colon(part);
    match found {
        None => None,
        Some(k) => {
            assert(k < n);
            let p = trim(sub_string(part, 0, k).as_str());
            let v = trim(sub_string(part, k + 1, n).as_str());
            if crate::text::str_is_empty(p.as_str()) || crate::text::str_is_empty(v.as_str()) {
                None
            } else {
                Some((p, v))
            }
        },
    }
}

/// Append the declaration of `part`, if it has one.
fn push_part_decl(decls: &mut Vec<(String, String)>, part: &Vec<char>)
    ensures
        pairs_view(final(decls)@) == pairs_view(old(decls)@) + decl_of(part@),
{
    let ghost before = decls@;
    match part_decl(part) {
        Some(d) => {
            decls.push(d);
        },
        None => {},
    }
    assert(pairs_view(decls@) =~= pairs_view(before) + decl_of(part@));
}

/// Cut a rule body into `(property, value)` declarations.
#[verifier::rlimit(40)]
pub fn css_declarations(body: &str) -> (r: Vec<(String, String)>)
    ensures
        pairs_view(r@) == declarations_of(body@),
{
    let v = chars_of(body);
    let mut decls: Vec<(String, String)> = Vec::new();
    let mut cur: Vec<char> = Vec::new();
    let mut i: usize = 0;
    proof {
        assert(v@.take(0) =~= Seq::<char>::empty());
        assert(pairs_view(decls@) =~= Seq::<(Seq<char>, Seq<char>)>::empty());
        assert(cur@ =~= Seq::<char>::empty());
    }
    while i < v.len()
        invariant
            v@ == body@,
            i <= v@.len(),
            cur@ == decls_run(v@.take(i as int)).cur,
            pairs_view(decls@) == decls_run(v@.take(i as int)).decls,
        decreases v@.len() - i,
    {
        assert(v@.take(i + 1).drop_last() =~= v@.take(i as int));
        if v[i] == ';' {
            push_part_decl(&mut decls, &cur);
            cur = Vec::new();
            assert(cur@ =~= Seq::<char>::empty());
        } else {
            cur.push(v[i]);
        }
        i += 1;
    }
    proof {
        assert(v@.take(v@.len() as int) =~= v@);
    }
    let ghost st = decls_run(body@);
    assert(cur@ == st.cur && pairs_view(decls@) == st.decls);
    push_part_decl(&mut decls, &cur);
    decls
}

} // verus!
