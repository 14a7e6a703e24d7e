//! The text of a manifest record: one path per line, each line ended by a
//! newline.
use vstd::prelude::*;
use vstd::string::*;
use crate::manifest::paths_view;

verus! {

/// The record text of `ps`: each path followed by a newline.
pub open spec fn render_lines(ps: Seq<Seq<char>>) -> Seq<char>
    decreases ps.len(),
{
    if ps.len() == 0 {
        Seq::empty()
    } else {
        ps[0] + seq!['\n'] + render_lines(ps.drop_first())
    }
}

/// No path of `ps` holds a newline.
pub open spec fn newline_free(ps: Seq<Seq<char>>) -> bool {
    forall|k: int| 0 <= k < ps.len() ==> !(#[trigger] ps[k]).contains('\n')
}

/// Rendering distributes over appending one more path.
pub proof fn lemma_render_push(ps: Seq<Seq<char>>, p: Seq<char>)
    ensures
        render_lines(ps.push(p)) == render_lines(ps) + p + seq!['\n'],
    decreases ps.len(),
{
    assert(ps.push(p)[0] == if ps.len() == 0 { p } else { ps[0] });
    if ps.len() == 0 {
        assert(ps.push(p).drop_first() =~= Seq::<Seq<char>>::empty());
        assert(render_lines(ps.push(p).drop_first()) == Seq::<char>::empty());
        assert(render_lines(ps.push(p)) =~= render_lines(ps) + p + seq!['\n']);
    } else {
        assert(ps.push(p).drop_first() =~= ps.drop_first().push(p));
        lemma_render_push(ps.drop_first(), p);
        assert(render_lines(ps.push(p)) =~= render_lines(ps) + p + seq!['\n']);
    }
}

/// Two newline-free path lists with the same record text are the same list.
pub proof fn lemma_render_injective(a: Seq<Seq<char>>, b: Seq<Seq<char>>)
    requires
        newline_free(a),
        newline_free(b),
        render_lines(a) == render_lines(b),
    ensures
        a == b,
    decreases a.len(),
{
    if a.len() == 0 {
        if b.len() != 0 {
            assert(render_lines(b).len() > 0);
        }
        assert(a =~= b);
    } else {
        if b.len() == 0 {
            assert(render_lines(a).len() > 0);
        }
        let ra = render_lines(a);
        let a0 = a[0];
        let b0 = b[0];
        assert(!a0.contains('\n'));
        assert(!b0.contains('\n'));
        if a0.len() < b0.len() {
            assert(ra[a0.len() as int] == '\n');
            assert(b0[a0.len() as int] == ra[a0.len() as int]);
            assert(false);
        }
        if b0.len() < a0.len() {
            assert(ra[b0.len() as int] == '\n');
            assert(a0[b0.len() as int] == ra[b0.len() as int]);
            assert(false);
        }
        assert(a0 =~= b0) by {
            assert forall|k: int| 0 <= k < a0.len() implies a0[k] == b0[k] by {
                assert(a0[k] == ra[k]);
            }
        }
        let n = a0.len() + 1;
        let n = n as int;
        assert(render_lines(a.drop_first()) =~= ra.skip(n));
        assert(render_lines(b.drop_first()) =~= ra.skip(n));
        assert forall|k: int| 0 <= k < a.drop_first().len() implies !(#[trigger] a.drop_first()[k]).contains('\n') by {
            assert(a.drop_first()[k] == a[k + 1]);
        }
        assert forall|k: int| 0 <= k < b.drop_first().len() implies !(#[trigger] b.drop_first()[k]).contains('\n') by {
            assert(b.drop_first()[k] == b[k + 1]);
        }
        lemma_render_injective(a.drop_first(), b.drop_first());
        assert forall|k: int| 0 <= k < a.len() implies a[k] == b[k] by {
            if k > 0 {
                assert(a[k] == a.drop_first()[k - 1]);
                assert(b[k] == b.drop_first()[k - 1]);
            }
        }
        assert(a =~= b);
    }
}

/// `ps` is what reading the record text `text` gives: newline-free lines
/// whose record text is `text`, with a newline added where the last line
/// lacks one.
pub open spec fn is_parse_of(text: Seq<char>, ps: Seq<Seq<char>>) -> bool {
    &&& newline_free(ps)
    &&& (text.len() == 0 || text.last() == '\n' ==> render_lines(ps) == text)
    &&& (text.len() > 0 && text.last() != '\n' ==> render_lines(ps) == text + seq!['\n'])
}

/// A record text is empty or ends with a newline.
pub proof fn lemma_render_ends_with_newline(ps: Seq<Seq<char>>)
    ensures
        render_lines(ps).len() == 0 || render_lines(ps).last() == '\n',
    decreases ps.len(),
{
    if ps.len() > 0 {
        lemma_render_ends_with_newline(ps.drop_first());
    }
}

/// The record text of the manifest `ps`.
pub fn render_manifest(ps: &Vec<String>) -> (r: String)
    ensures
        r@ == render_lines(paths_view(ps@)),
{
    proof {
        reveal_strlit("\n");
        assert("\n"@ =~= seq!['\n']);
    }
    let mut r = String::new();
    let mut i: usize = 0;
    while i < ps.len()
        invariant
            i <= ps@.len(),
            r@ == render_lines(paths_view(ps@.take(i as int))),
            "\n"@ == seq!['\n'],
        decreases ps@.len() - i,
    {
        proof {
            assert(paths_view(ps@.take(i as int + 1)) =~= paths_view(ps@.take(i as int)).push(ps@[i as int]@));
            lemma_render_push(paths_view(ps@.take(i as int)), ps@[i as int]@);
        }
        let ghost before = r@;
        let line = ps[i].as_str();
        assert(line@ == ps@[i as int]@);
        r.append(line);
        r.append("\n");
        assert(r@ =~= render_lines(paths_view(ps@.take(i as int + 1))));
        i = i + 1;
    }
    assert(ps@.take(ps@.len() as int) =~= ps@);
    r
}

/// The paths of a manifest record's text, one per line. A last line without
/// its newline still counts.
pub fn parse_manifest(text: &str) -> (r: Vec<String>)
    ensures
        is_parse_of(text@, paths_view(r@)),
{
    let n = text.unicode_len();
    let mut r: Vec<String> = Vec::new();
    let mut cur = String::new();
    let mut i: usize = 0;
    while i < n
        invariant
            n == text@.len(),
            i <= n,
            newline_free(paths_view(r@)),
            !cur@.contains('\n'),
            render_lines(paths_view(r@)) + cur@ == text@.take(i as int),
        decreases n - i,
    {
        let c = text.get_char(i);
        if c == '\n' {
            let ghost before = r@;
            proof {
                lemma_render_push(paths_view(before), cur@);
            }
            r.push(cur);
            assert(paths_view(r@) =~= paths_view(before).push(cur@));
            cur = String::new();
            assert(render_lines(paths_view(r@)) + cur@ =~= text@.take(i as int + 1));
        } else {
            let piece = text.substring_char(i, i + 1);
            let ghost old_cur = cur@;
            assert(piece@ =~= seq![c]);
            cur.append(piece);
            assert(cur@ =~= old_cur.push(c));
            assert(text@.take(i as int + 1) =~= text@.take(i as int).push(c));
            assert(!cur@.contains('\n')) by {
                if cur@.contains('\n') {
                    let k = choose|k: int| 0 <= k < cur@.len() && cur@[k] == '\n';
                    if k < old_cur.len() {
                        assert(old_cur[k] == '\n');
                    }
                }
            }
            assert(render_lines(paths_view(r@)) + cur@ =~= text@.take(i as int + 1));
        }
        i = i + 1;
    }
    assert(text@.take(n as int) =~= text@);
    proof {
        lemma_render_ends_with_newline(paths_view(r@));
        if cur@.len() > 0 {
            assert(text@.last() == cur@.last());
        } else {
            assert(text@ =~= render_lines(paths_view(r@)));
        }
    }
    if cur.unicode_len() > 0 {
        let ghost before = r@;
        proof {
            lemma_render_push(paths_view(before), cur@);
        }
        r.push(cur);
        assert(paths_view(r@) =~= paths_view(before).push(cur@));
    }
    r
}

/// A manifest record read back gives the manifest that was written, for
/// paths that hold no newline.
pub proof fn law_manifest_round_trip(ps: Seq<Seq<char>>, parsed: Seq<Seq<char>>)
    requires
        newline_free(ps),
        is_parse_of(render_lines(ps), parsed),
    ensures
        parsed == ps,
{
    lemma_render_ends_with_newline(ps);
    lemma_render_injective(parsed, ps);
}

} // verus!
