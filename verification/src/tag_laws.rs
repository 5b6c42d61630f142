use vstd::prelude::*;
use vstd::utf8::encode_utf8;
use crate::font_query::{canonical_subtag, canonical_subtags, canonical_tag_text, tag_casing_defined};
use crate::text::{
    all_ascii, ascii_lower_char, ascii_lower_text, ascii_upper_char, ascii_upper_text, join_with,
    lemma_split_nonempty, split_on,
};

verus! {

// ---------------------------------------------------------------------------
// Laws of BCP-47 recasing on ASCII tags, and the facts about splitting and
// joining on a separator that they rest on.
// ---------------------------------------------------------------------------

/// No piece of a split holds the separator.
pub open spec fn sep_free(p: Seq<char>, sep: char) -> bool {
    forall|k: int| 0 <= k < p.len() ==> p[k] != sep
}

pub open spec fn all_sep_free(ps: Seq<Seq<char>>, sep: char) -> bool {
    forall|i: int| 0 <= i < ps.len() ==> sep_free(#[trigger] ps[i], sep)
}

pub open spec fn all_parts_ascii(ps: Seq<Seq<char>>) -> bool {
    forall|i: int| 0 <= i < ps.len() ==> all_ascii(#[trigger] ps[i])
}

proof fn lemma_split_parts(s: Seq<char>, sep: char)
    ensures
        all_sep_free(split_on(s, sep), sep),
        all_ascii(s) ==> all_parts_ascii(split_on(s, sep)),
    decreases s.len(),
{
    if s.len() > 0 {
        lemma_split_parts(s.drop_last(), sep);
        lemma_split_nonempty(s.drop_last(), sep);
        let p = split_on(s.drop_last(), sep);
        if s.last() != sep {
            let q = p.update(p.len() - 1, p.last().push(s.last()));
            assert forall|i: int| 0 <= i < q.len() implies sep_free(#[trigger] q[i], sep) by {
                if i != p.len() - 1 {
                    assert(q[i] == p[i]);
                }
            }
            if all_ascii(s) {
                assert(all_ascii(s.drop_last()));
                assert forall|i: int| 0 <= i < q.len() implies all_ascii(#[trigger] q[i]) by {
                    if i != p.len() - 1 {
                        assert(q[i] == p[i]);
                    } else {
                        assert(all_ascii(p[i]));
                        assert((s[s.len() - 1] as u32) < 128);
                    }
                }
            }
        } else {
            let q = p.push(seq![]);
            assert forall|i: int| 0 <= i < q.len() implies sep_free(#[trigger] q[i], sep) by {
                if i < p.len() {
                    assert(q[i] == p[i]);
                }
            }
            if all_ascii(s) {
                assert(all_ascii(s.drop_last()));
                assert forall|i: int| 0 <= i < q.len() implies all_ascii(#[trigger] q[i]) by {
                    if i < p.len() {
                        assert(q[i] == p[i]);
                    }
                }
            }
        }
    }
}

/// Joining the pieces of a split gives the text back.
proof fn lemma_join_split(s: Seq<char>, sep: char)
    ensures
        join_with(split_on(s, sep), sep) == s,
    decreases s.len(),
{
    if s.len() == 0 {
        assert(join_with(split_on(s, sep), sep) =~= s);
    } else {
        let t = s.drop_last();
        lemma_join_split(t, sep);
        lemma_split_nonempty(t, sep);
        let p = split_on(t, sep);
        let c = s.last();
        if c == sep {
            let q = p.push(seq![]);
            assert(q.drop_last() =~= p);
            assert(join_with(q, sep) =~= s);
        } else {
            let q = p.update(p.len() - 1, p.last().push(c));
            if p.len() == 1 {
                assert(join_with(q, sep) =~= s);
            } else {
                assert(q.drop_last() =~= p.drop_last());
                assert(join_with(q, sep) =~= join_with(p, sep).push(c));
                assert(join_with(q, sep) =~= s);
            }
        }
    }
}

/// A text without the separator splits into itself alone.
proof fn lemma_split_single(y: Seq<char>, sep: char)
    requires
        sep_free(y, sep),
    ensures
        split_on(y, sep) == seq![y],
    decreases y.len(),
{
    if y.len() == 0 {
        assert(y =~= seq![]);
    } else {
        lemma_split_single(y.drop_last(), sep);
        assert(y[y.len() - 1] != sep);
        assert(y.drop_last().push(y.last()) =~= y);
        assert(seq![y.drop_last()].update(0, y.drop_last().push(y.last())) =~= seq![y]);
    }
}

/// Splitting `x`, a separator and a separator-free `y` gives the pieces of
/// `x` and then `y`.
proof fn lemma_split_append(x: Seq<char>, y: Seq<char>, sep: char)
    requires
        sep_free(y, sep),
    ensures
        split_on(x.push(sep) + y, sep) == split_on(x, sep).push(y),
    decreases y.len(),
{
    if y.len() == 0 {
        assert(y =~= seq![]);
        assert(x.push(sep) + y =~= x.push(sep));
        assert(x.push(sep).drop_last() =~= x);
    } else {
        let y0 = y.drop_last();
        lemma_split_append(x, y0, sep);
        let s = x.push(sep) + y;
        assert(s.drop_last() =~= x.push(sep) + y0);
        assert(s.last() == y.last());
        assert(y[y.len() - 1] != sep);
        assert(y0.push(y.last()) =~= y);
        let q = split_on(x, sep).push(y0);
        assert(q.update(q.len() - 1, q.last().push(y.last())) =~= split_on(x, sep).push(y));
    }
}

/// Splitting the join of separator-free pieces gives the pieces back.
proof fn lemma_split_join(ps: Seq<Seq<char>>, sep: char)
    requires
        ps.len() >= 1,
        all_sep_free(ps, sep),
    ensures
        split_on(join_with(ps, sep), sep) == ps,
    decreases ps.len(),
{
    if ps.len() == 1 {
        assert(sep_free(ps[0], sep));
        lemma_split_single(ps[0], sep);
        assert(seq![ps[0]] =~= ps);
    } else {
        let init = ps.drop_last();
        assert forall|i: int| 0 <= i < init.len() implies sep_free(#[trigger] init[i], sep) by {
            assert(init[i] == ps[i]);
        }
        lemma_split_join(init, sep);
        assert(sep_free(ps[ps.len() - 1], sep));
        lemma_split_append(join_with(init, sep), ps.last(), sep);
        assert(init.push(ps.last()) =~= ps);
    }
}

/// Joining commutes with a character map that keeps the separator.
proof fn lemma_map_join(ps: Seq<Seq<char>>, sep: char, f: spec_fn(char) -> char)
    requires
        f(sep) == sep,
    ensures
        join_with(ps, sep).map_values(f) == join_with(
            ps.map_values(|p: Seq<char>| p.map_values(f)),
            sep,
        ),
    decreases ps.len(),
{
    let g = |p: Seq<char>| p.map_values(f);
    if ps.len() == 0 {
        assert(join_with(ps, sep).map_values(f) =~= join_with(ps.map_values(g), sep));
    } else if ps.len() == 1 {
        assert(join_with(ps, sep).map_values(f) =~= join_with(ps.map_values(g), sep));
    } else {
        lemma_map_join(ps.drop_last(), sep, f);
        assert(ps.map_values(g).drop_last() =~= ps.drop_last().map_values(g));
        assert(join_with(ps, sep).map_values(f) =~= join_with(ps.drop_last(), sep).map_values(f).push(
            sep,
        ) + ps.last().map_values(f));
        assert(join_with(ps, sep).map_values(f) =~= join_with(ps.map_values(g), sep));
    }
}

proof fn lemma_join_ascii(ps: Seq<Seq<char>>, sep: char)
    requires
        all_parts_ascii(ps),
        (sep as u32) < 128,
    ensures
        all_ascii(join_with(ps, sep)),
    decreases ps.len(),
{
    if ps.len() == 1 {
        assert(all_ascii(ps[0]));
    } else if ps.len() > 1 {
        let init = ps.drop_last();
        assert forall|i: int| 0 <= i < init.len() implies all_ascii(#[trigger] init[i]) by {
            assert(init[i] == ps[i]);
        }
        lemma_join_ascii(init, sep);
        assert(all_ascii(ps[ps.len() - 1]));
        let j = join_with(ps, sep);
        let a = join_with(init, sep).push(sep);
        assert forall|k: int| 0 <= k < j.len() implies (#[trigger] j[k] as u32) < 128 by {
            if k < a.len() {
                assert(j[k] == a[k]);
            } else {
                assert(j[k] == ps.last()[k - a.len()]);
            }
        }
    }
}

proof fn lemma_ascii_utf8_len(s: Seq<char>)
    requires
        all_ascii(s),
    ensures
        encode_utf8(s).len() == s.len(),
    decreases s.len(),
{
    if s.len() > 0 {
        vstd::utf8::char_is_scalar(s[0]);
        assert(all_ascii(s.drop_first()));
        lemma_ascii_utf8_len(s.drop_first());
    }
}

proof fn lemma_case_chars(c: char)
    requires
        (c as u32) < 128,
    ensures
        (ascii_lower_char(c) as u32) < 128,
        (ascii_upper_char(c) as u32) < 128,
        ascii_lower_char(ascii_lower_char(c)) == ascii_lower_char(c),
        ascii_upper_char(ascii_upper_char(c)) == ascii_upper_char(c),
        ascii_lower_char(ascii_upper_char(c)) == ascii_lower_char(c),
        ascii_upper_char(ascii_lower_char(c)) == ascii_upper_char(c),
        ascii_lower_char(c) == '-' <==> c == '-',
        ascii_upper_char(c) == '-' <==> c == '-',
{
}

/// What the casings do to an ASCII piece without separators.
proof fn lemma_case_text(p: Seq<char>)
    requires
        all_ascii(p),
        sep_free(p, '-'),
    ensures
        all_ascii(ascii_lower_text(p)),
        all_ascii(ascii_upper_text(p)),
        sep_free(ascii_lower_text(p), '-'),
        sep_free(ascii_upper_text(p), '-'),
        ascii_lower_text(ascii_lower_text(p)) == ascii_lower_text(p),
        ascii_upper_text(ascii_upper_text(p)) == ascii_upper_text(p),
        ascii_lower_text(ascii_upper_text(p)) == ascii_lower_text(p),
        ascii_upper_text(ascii_lower_text(p)) == ascii_upper_text(p),
{
    assert forall|k: int| 0 <= k < p.len() implies {
        &&& (#[trigger] ascii_lower_text(p)[k] as u32) < 128
        &&& (ascii_upper_text(p)[k] as u32) < 128
        &&& ascii_lower_text(p)[k] != '-'
        &&& ascii_upper_text(p)[k] != '-'
    } by {
        assert((p[k] as u32) < 128);
        lemma_case_chars(p[k]);
    }
    assert forall|k: int| 0 <= k < p.len() implies (#[trigger] ascii_upper_text(p)[k] as u32) < 128 by {
        assert((p[k] as u32) < 128);
        lemma_case_chars(p[k]);
    }
    assert forall|k: int| 0 <= k < p.len() implies #[trigger] ascii_upper_text(p)[k] != '-' by {
        assert((p[k] as u32) < 128);
        lemma_case_chars(p[k]);
    }
    assert forall|k: int| 0 <= k < p.len() implies #[trigger] ascii_lower_text(p)[k] != '-' by {
        assert((p[k] as u32) < 128);
        lemma_case_chars(p[k]);
    }
    assert forall|k: int| 0 <= k < p.len() implies {
        &&& ascii_lower_text(ascii_lower_text(p))[k] == #[trigger] ascii_lower_text(p)[k]
        &&& ascii_lower_text(ascii_upper_text(p))[k] == ascii_lower_text(p)[k]
    } by {
        assert((p[k] as u32) < 128);
        lemma_case_chars(p[k]);
    }
    assert forall|k: int| 0 <= k < p.len() implies {
        &&& ascii_upper_text(ascii_upper_text(p))[k] == #[trigger] ascii_upper_text(p)[k]
        &&& ascii_upper_text(ascii_lower_text(p))[k] == ascii_upper_text(p)[k]
    } by {
        assert((p[k] as u32) < 128);
        lemma_case_chars(p[k]);
    }
    assert(ascii_lower_text(ascii_lower_text(p)) =~= ascii_lower_text(p));
    assert(ascii_upper_text(ascii_upper_text(p)) =~= ascii_upper_text(p));
    assert(ascii_lower_text(ascii_upper_text(p)) =~= ascii_lower_text(p));
    assert(ascii_upper_text(ascii_lower_text(p)) =~= ascii_upper_text(p));
}

/// What recasing does to one ASCII subtag without separators.
proof fn lemma_subtag_ascii(i: int, p: Seq<char>)
    requires
        all_ascii(p),
        sep_free(p, '-'),
    ensures
        all_ascii(canonical_subtag(i, p)),
        sep_free(canonical_subtag(i, p), '-'),
        ascii_lower_text(canonical_subtag(i, p)) == ascii_lower_text(p),
        canonical_subtag(i, canonical_subtag(i, p)) == canonical_subtag(i, p),
        all_ascii(ascii_upper_text(p)),
        sep_free(ascii_upper_text(p), '-'),
        canonical_subtag(i, ascii_upper_text(p)) == canonical_subtag(i, p),
{
    lemma_case_text(p);
    lemma_ascii_utf8_len(p);
    let lp = ascii_lower_text(p);
    let up = ascii_upper_text(p);
    lemma_ascii_utf8_len(lp);
    lemma_ascii_utf8_len(up);
    if i != 0 && p.len() == 4 {
        let h = p.subrange(0, 1);
        let r = p.subrange(1, 4);
        assert(all_ascii(h));
        assert(all_ascii(r));
        assert(sep_free(h, '-'));
        assert(sep_free(r, '-'));
        lemma_case_text(h);
        lemma_case_text(r);
        let c = ascii_upper_text(h) + ascii_lower_text(r);
        assert(canonical_subtag(i, p) == c);
        assert(c.len() == 4);
        assert forall|k: int| 0 <= k < c.len() implies (#[trigger] c[k] as u32) < 128 && c[k] != '-' by {
            if k < 1 {
                assert(c[k] == ascii_upper_text(h)[k]);
            } else {
                assert(c[k] == ascii_lower_text(r)[k - 1]);
            }
        }
        assert(ascii_lower_text(c) =~= ascii_lower_text(ascii_upper_text(h)) + ascii_lower_text(
            ascii_lower_text(r),
        ));
        assert(ascii_lower_text(h) + ascii_lower_text(r) =~= lp);
        lemma_ascii_utf8_len(c);
        assert(c.subrange(0, 1) =~= ascii_upper_text(h));
        assert(c.subrange(1, 4) =~= ascii_lower_text(r));
        assert(canonical_subtag(i, c) == c);
        assert(up.subrange(0, 1) =~= ascii_upper_text(h));
        assert(up.subrange(1, 4) =~= ascii_upper_text(r));
        assert(all_ascii(up.subrange(0, 1)));
        assert(all_ascii(up.subrange(1, 4)));
        assert(canonical_subtag(i, up) == c);
    }
}

/// On ASCII tags, recasing is defined, keeps the tag's length and its
/// letters (it only changes their case), leaves a recased tag as it is, and
/// does not depend on the case the tag came in.
pub proof fn lemma_canonical_tag_ascii(tag: Seq<char>)
    requires
        all_ascii(tag),
    ensures
        tag_casing_defined(tag),
        all_ascii(canonical_tag_text(tag)),
        canonical_tag_text(tag).len() == tag.len(),
        ascii_lower_text(canonical_tag_text(tag)) == ascii_lower_text(tag),
        canonical_tag_text(canonical_tag_text(tag)) == canonical_tag_text(tag),
        canonical_tag_text(ascii_upper_text(tag)) == canonical_tag_text(tag),
{
    let parts = split_on(tag, '-');
    lemma_split_parts(tag, '-');
    lemma_split_nonempty(tag, '-');
    lemma_join_split(tag, '-');
    let cs = canonical_subtags(tag);
    assert forall|i: int| 0 <= i < parts.len() implies {
        &&& all_ascii(#[trigger] cs[i])
        &&& sep_free(cs[i], '-')
        &&& ascii_lower_text(cs[i]) == ascii_lower_text(parts[i])
        &&& canonical_subtag(i, cs[i]) == cs[i]
        &&& all_ascii(ascii_upper_text(parts[i]))
        &&& sep_free(ascii_upper_text(parts[i]), '-')
        &&& canonical_subtag(i, ascii_upper_text(parts[i])) == cs[i]
    } by {
        assert(all_ascii(parts[i]));
        assert(sep_free(parts[i], '-'));
        lemma_subtag_ascii(i, parts[i]);
    }
    assert forall|i: int|
        0 < i < parts.len() && #[trigger] encode_utf8(parts[i]).len() == 4 implies (parts[i][0] as u32)
        < 128 by {
        assert(all_ascii(parts[i]));
        lemma_ascii_utf8_len(parts[i]);
    }
    let joined = join_with(cs, '-');
    assert(joined == canonical_tag_text(tag));
    lemma_join_ascii(cs, '-');

    // Lower-cased, the recased tag is the lower-cased tag.
    let lf = |c: char| ascii_lower_char(c);
    lemma_map_join(cs, '-', lf);
    lemma_map_join(parts, '-', lf);
    let lcs = cs.map_values(|p: Seq<char>| p.map_values(lf));
    let lparts = parts.map_values(|p: Seq<char>| p.map_values(lf));
    assert forall|i: int| 0 <= i < lcs.len() implies lcs[i] == lparts[i] by {
        assert(lcs[i] =~= ascii_lower_text(cs[i]));
        assert(lparts[i] =~= ascii_lower_text(parts[i]));
    }
    assert(lcs =~= lparts);
    assert(ascii_lower_text(joined) =~= joined.map_values(lf));
    assert(ascii_lower_text(tag) =~= tag.map_values(lf));
    assert(ascii_lower_text(joined) == ascii_lower_text(tag));
    assert(ascii_lower_text(joined).len() == joined.len());

    // Recasing again finds the same subtags, already in their case.
    lemma_split_join(cs, '-');
    assert(canonical_subtags(joined) =~= cs);

    // An upper-cased tag splits into the upper-cased subtags.
    let uf = |c: char| ascii_upper_char(c);
    lemma_map_join(parts, '-', uf);
    let uparts = parts.map_values(|p: Seq<char>| p.map_values(uf));
    assert forall|i: int| 0 <= i < uparts.len() implies #[trigger] uparts[i] == ascii_upper_text(parts[i]) by {
        assert(uparts[i] =~= ascii_upper_text(parts[i]));
    }
    let upper = ascii_upper_text(tag);
    assert(upper =~= tag.map_values(uf));
    assert forall|i: int| 0 <= i < uparts.len() implies sep_free(#[trigger] uparts[i], '-') by {
        assert(uparts[i] == ascii_upper_text(parts[i]));
    }
    lemma_split_join(uparts, '-');
    assert(split_on(upper, '-') == uparts);
    assert(canonical_subtags(upper) =~= cs);
}

} // verus!
