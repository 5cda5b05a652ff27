//! The cascade: the order in which matched rules apply, and the resolution
//! of `var(--name)` references against the custom properties in scope.
use vstd::prelude::*;
use crate::text::{chars_of, has_sub, occurs_at, str_contains, string_of, to_owned_string};

verus! {

/// Rule `a` applies before rule `b`: lower specificity first, and of equal
/// specificity the earlier rule first (so the later one wins).
pub open spec fn applies_before(spec: Seq<u32>, a: int, b: int) -> bool {
    spec[a] < spec[b] || (spec[a] == spec[b] && a < b)
}

/// `r` lists the rules `0..spec.len()` in cascade order.
pub open spec fn in_cascade_order(spec: Seq<u32>, r: Seq<usize>) -> bool {
    &&& r.len() == spec.len()
    &&& forall|i: int| 0 <= i < r.len() ==> (#[trigger] r[i]) < spec.len()
    &&& forall|i: int, j: int|
        0 <= i < j < r.len() ==> applies_before(spec, #[trigger] r[i] as int, #[trigger] r[j] as int)
    &&& forall|k: int| 0 <= k < spec.len() ==> #[trigger] r.contains(k as usize)
}

/// The order in which matched rules apply, given their specificities in
/// stylesheet order: a stable sort by specificity.
pub fn cascade_order(specificities: &Vec<u32>) -> (r: Vec<usize>)
    ensures
        in_cascade_order(specificities@, r@),
{
    let ghost sp = specificities@;
    let n = specificities.len();
    let mut r: Vec<usize> = Vec::new();
    let mut i: usize = 0;
    while i < n
        invariant
            n == sp.len(),
            sp == specificities@,
            i <= n,
            r@.len() == i,
            forall|a: int| 0 <= a < r@.len() ==> (#[trigger] r@[a]) < i,
            forall|a: int, b: int|
                0 <= a < b < r@.len() ==> applies_before(sp, #[trigger] r@[a] as int, #[trigger] r@[b] as int),
            forall|k: int| 0 <= k < i ==> #[trigger] r@.contains(k as usize),
        decreases n - i,
    {
        let s = specificities[i];
        let mut j: usize = 0;
        while j < r.len() && specificities[r[j]] <= s
            invariant
                n == sp.len(),
                sp == specificities@,
                i < n,
                s == sp[i as int],
                j <= r@.len(),
                forall|a: int| 0 <= a < r@.len() ==> (#[trigger] r@[a]) < i,
                forall|a: int| 0 <= a < j ==> sp[(#[trigger] r@[a]) as int] <= s,
            decreases r@.len() - j,
        {
            j += 1;
        }
        let ghost old_r = r@;
        proof {
            assert forall|a: int| j <= a < old_r.len() implies s < sp[(#[trigger] old_r[a]) as int] by {
                if a > j {
                    assert(applies_before(sp, old_r[j as int] as int, old_r[a] as int));
                }
            }
        }
        r.insert(j, i);
        proof {
            assert(r@ =~= old_r.take(j as int).push(i) + old_r.skip(j as int));
            assert forall|a: int, b: int| 0 <= a < b < r@.len() implies applies_before(
                sp,
                #[trigger] r@[a] as int,
                #[trigger] r@[b] as int,
            ) by {
                if b < j {
                    assert(r@[a] == old_r[a] && r@[b] == old_r[b]);
                } else if b == j {
                    assert(r@[a] == old_r[a]);
                } else if a < j {
                    assert(r@[a] == old_r[a] && r@[b] == old_r[b - 1]);
                } else if a == j {
                    assert(r@[b] == old_r[b - 1]);
                } else {
                    assert(r@[a] == old_r[a - 1] && r@[b] == old_r[b - 1]);
                }
            }
            assert forall|k: int| 0 <= k < i + 1 implies #[trigger] r@.contains(k as usize) by {
                if k == i {
                    assert(r@[j as int] == i);
                } else {
                    assert(old_r.contains(k as usize));
                    let w = choose|w: int| 0 <= w < old_r.len() && old_r[w] == k as usize;
                    if w < j {
                        assert(r@[w] == k as usize);
                    } else {
                        assert(r@[w + 1] == k as usize);
                    }
                }
            }
            assert forall|a: int| 0 <= a < r@.len() implies (#[trigger] r@[a]) < i + 1 by {
                if a < j {
                    assert(r@[a] == old_r[a]);
                } else if a > j {
                    assert(r@[a] == old_r[a - 1]);
                }
            }
        }
        i += 1;
    }
    r
}

/// `s` with every occurrence of `pat` replaced by `rep`, scanning left to
/// right without overlaps (`str::replace`, for a non-empty pattern).
pub open spec fn replace_all(s: Seq<char>, pat: Seq<char>, rep: Seq<char>) -> Seq<char>
    recommends
        pat.len() > 0,
    decreases s.len(),
{
    if s.len() == 0 || pat.len() == 0 {
        s
    } else if occurs_at(s, pat, 0) {
        rep + replace_all(s.subrange(pat.len() as int, s.len() as int), pat, rep)
    } else {
        seq![s[0]] + replace_all(s.drop_first(), pat, rep)
    }
}

/// Replace every occurrence of `pat` in `s` by `rep`.
pub fn replace_str(s: &str, pat: &str, rep: &str) -> (r: String)
    requires
        pat@.len() > 0,
    ensures
        r@ == replace_all(s@, pat@, rep@),
{
    let v = chars_of(s);
    let p = chars_of(pat);
    let q = chars_of(rep);
    let n = v.len();
    let m = p.len();
    let mut out: Vec<char> = Vec::new();
    let mut i: usize = 0;
    assert(v@.subrange(0, n as int) =~= v@);
    while i < n
        invariant
            v@ == s@,
            p@ == pat@,
            q@ == rep@,
            n == v@.len(),
            m == p@.len(),
            m > 0,
            i <= n,
            out@ + replace_all(v@.subrange(i as int, n as int), p@, q@) == replace_all(v@, p@, q@),
        decreases n - i,
    {
        let ghost rest = v@.subrange(i as int, n as int);
        let at = crate::text::occurs_at_exec(&v, &p, i);
        proof {
            if occurs_at(rest, p@, 0) {
                assert(rest.subrange(0, m as int) =~= v@.subrange(i as int, i + m));
            } else if i + m <= n {
                assert(rest.subrange(0, m as int) =~= v@.subrange(i as int, i + m));
            }
        }
        if at {
            let ghost before = out@;
            let mut k: usize = 0;
            while k < q.len()
                invariant
                    q@ == rep@,
                    k <= q@.len(),
                    out@ == before + q@.take(k as int),
                decreases q@.len() - k,
            {
                out.push(q[k]);
                k += 1;
                assert(out@ =~= before + q@.take(k as int));
            }
            assert(q@.take(q@.len() as int) =~= q@);
            assert(rest.subrange(m as int, rest.len() as int) =~= v@.subrange(i + m, n as int));
            assert(out@ + replace_all(v@.subrange(i + m, n as int), p@, q@) =~= before + (q@ + replace_all(
                v@.subrange(i + m, n as int),
                p@,
                q@,
            )));
            i = i + m;
        } else {
            let ghost before = out@;
            out.push(v[i]);
            assert(rest.drop_first() =~= v@.subrange(i + 1, n as int));
            assert(rest[0] == v@[i as int]);
            assert(out@ + replace_all(v@.subrange(i + 1, n as int), p@, q@) =~= before + (seq![rest[0]]
                + replace_all(rest.drop_first(), p@, q@)));
            i = i + 1;
        }
    }
    assert(v@.subrange(n as int, n as int) =~= Seq::<char>::empty());
    assert(out@ =~= out@ + Seq::<char>::empty());
    string_of(out.as_slice())
}

/// The pattern a custom property is referred to by: `var(` name `)`.
pub open spec fn var_pattern(name: Seq<char>) -> Seq<char> {
    "var("@ + name + ")"@
}

/// `value` with the references to `props` substituted one property after
/// the other, in order.
pub open spec fn substitute_vars(value: Seq<char>, props: Seq<(Seq<char>, Seq<char>)>) -> Seq<char>
    decreases props.len(),
{
    if props.len() == 0 {
        value
    } else {
        replace_all(substitute_vars(value, props.drop_last()), var_pattern(props.last().0), props.last().1)
    }
}

/// The value a property referring to custom properties takes: the
/// references substituted, and `transparent` when a `var(` is left over.
pub open spec fn resolved_value(value: Seq<char>, props: Seq<(Seq<char>, Seq<char>)>) -> Seq<char> {
    let s = substitute_vars(value, props);
    if has_sub(s, "var("@) {
        "transparent"@
    } else {
        s
    }
}

/// Custom properties by their text.
pub open spec fn props_view(p: Seq<(String, String)>) -> Seq<(Seq<char>, Seq<char>)> {
    p.map_values(|e: (String, String)| (e.0@, e.1@))
}

/// Resolve the `var(--name)` references of `value` against the custom
/// properties in scope, taken in the order given.
pub fn resolve_vars(value: &str, props: &Vec<(String, String)>) -> (r: String)
    ensures
        r@ == resolved_value(value@, props_view(props@)),
{
    let mut cur = to_owned_string(value);
    let mut i: usize = 0;
    while i < props.len()
        invariant
            i <= props@.len(),
            cur@ == substitute_vars(value@, props_view(props@).take(i as int)),
        decreases props@.len() - i,
    {
        let mut pattern = to_owned_string("var(");
        crate::text::push_str(&mut pattern, props[i].0.as_str());
        crate::text::push_str(&mut pattern, ")");
        proof {
            reveal_strlit("var(");
        }
        assert(pattern@ == var_pattern(props@[i as int].0@));
        let next = replace_str(cur.as_str(), pattern.as_str(), props[i].1.as_str());
        assert(props_view(props@).take(i + 1).drop_last() =~= props_view(props@).take(i as int));
        cur = next;
        i += 1;
    }
    assert(props_view(props@).take(props@.len() as int) =~= props_view(props@));
    if str_contains(cur.as_str(), "var(") {
        to_owned_string("transparent")
    } else {
        cur
    }
}

} // verus!
