//! Lists of song ids: reading them from the text of an id file, and merging
//! the ids given on the command line with those from a file.
use vstd::prelude::*;
use crate::error::DownloadError;
use crate::text::{
    lemma_seq_lt_asymmetric, lemma_seq_lt_irreflexive, lemma_seq_lt_total,
    lemma_seq_lt_transitive, lines_spec, seq_lt, split_lines, str_eq, str_lt, trim, trim_spec,
};

verus! {

/// A trimmed line that names an id: not empty, not a `#` comment.
pub open spec fn is_id_line(t: Seq<char>) -> bool {
    t.len() > 0 && t[0] != '#'
}

/// The trimmed lines of `ls` that name ids, in order.
pub open spec fn id_lines_of(ls: Seq<Seq<char>>) -> Seq<Seq<char>>
    decreases ls.len(),
{
    if ls.len() == 0 {
        seq![]
    } else if is_id_line(trim_spec(ls.last())) {
        id_lines_of(ls.drop_last()).push(trim_spec(ls.last()))
    } else {
        id_lines_of(ls.drop_last())
    }
}

/// The ids in the text of an id file: each line trimmed, empty lines and
/// lines that start with `#` left out.
pub fn parse_id_lines(content: &str) -> (r: Vec<String>)
    ensures
        r.deep_view() == id_lines_of(lines_spec(content@)),
{
    let lines = split_lines(content);
    let ghost ls = lines.deep_view();
    let mut out: Vec<String> = Vec::new();
    let n = lines.len();
    let mut i: usize = 0;
    assert(ls.take(0) =~= Seq::<Seq<char>>::empty());
    while i < n
        invariant
            i <= n,
            n == lines@.len(),
            ls == lines.deep_view(),
            out.deep_view() == id_lines_of(ls.take(i as int)),
        decreases n - i,
    {
        let t = trim(lines[i].as_str());
        assert(ls.take(i + 1).drop_last() =~= ls.take(i as int));
        assert(ls.take(i + 1).last() == lines@[i as int]@);
        if t.unicode_len() > 0 && t.as_str().get_char(0) != '#' {
            let ghost before = out.deep_view();
            out.push(t);
            assert(out.deep_view() =~= before.push(t@));
        }
        i += 1;
    }
    assert(ls.take(n as int) =~= ls);
    out
}

/// Strictly increasing in string order: sorted, and no id twice.
pub open spec fn strictly_sorted(s: Seq<Seq<char>>) -> bool {
    forall|i: int, j: int| 0 <= i < j < s.len() ==> seq_lt(#[trigger] s[i], #[trigger] s[j])
}

/// All ids from the command line and from the file, in that order.
pub open spec fn all_ids(cli_ids: Seq<Seq<char>>, file_ids: Option<Seq<Seq<char>>>) -> Seq<
    Seq<char>,
> {
    match file_ids {
        Some(f) => cli_ids + f,
        None => cli_ids,
    }
}

/// Every id read from an id file is a trimmed line that is neither empty
/// nor a `#` comment.
pub proof fn lemma_id_lines_are_ids(ls: Seq<Seq<char>>)
    ensures
        forall|i: int|
            0 <= i < id_lines_of(ls).len() ==> is_id_line(#[trigger] id_lines_of(ls)[i]),
    decreases ls.len(),
{
    if ls.len() > 0 {
        lemma_id_lines_are_ids(ls.drop_last());
        let r = id_lines_of(ls.drop_last());
        let t = trim_spec(ls.last());
        if is_id_line(t) {
            assert forall|i: int| 0 <= i < r.push(t).len() implies is_id_line(
                #[trigger] r.push(t)[i],
            ) by {
                if i < r.len() {
                    assert(r.push(t)[i] == r[i]);
                }
            }
        }
    }
}

/// The merged id list depends only on which ids were given: two strictly
/// sorted lists that hold the same ids are the same list. So the order in
/// which ids are given, and repeats among them, make no difference, and
/// merging a merged list gives it back.
pub proof fn lemma_strictly_sorted_unique(a: Seq<Seq<char>>, b: Seq<Seq<char>>)
    requires
        strictly_sorted(a),
        strictly_sorted(b),
        a.to_set() == b.to_set(),
    ensures
        a == b,
    decreases a.len(),
{
    if a.len() == 0 {
        if b.len() > 0 {
            assert(b.to_set().contains(b[0]));
        }
        assert(a =~= b);
    } else if b.len() == 0 {
        assert(a.to_set().contains(a[0]));
    } else {
        assert(b.to_set().contains(a[0]));
        assert(a.to_set().contains(b[0]));
        let j = choose|j: int| 0 <= j < b.len() && b[j] == a[0];
        let k = choose|k: int| 0 <= k < a.len() && a[k] == b[0];
        if j > 0 {
            assert(seq_lt(b[0], b[j]));
            if k > 0 {
                assert(seq_lt(a[0], a[k]));
                lemma_seq_lt_asymmetric(a[0], b[0]);
            } else {
                lemma_seq_lt_irreflexive(b[0]);
            }
        }
        assert(a[0] == b[0]);
        let a1 = a.drop_first();
        let b1 = b.drop_first();
        assert(a1.to_set() =~= b1.to_set()) by {
            assert forall|e: Seq<char>| a1.to_set().contains(e) implies b1.to_set().contains(e) by {
                let p = choose|p: int| 0 <= p < a1.len() && a1[p] == e;
                assert(a[p + 1] == e);
                assert(seq_lt(a[0], a[p + 1]));
                assert(b.to_set().contains(e));
                let q = choose|q: int| 0 <= q < b.len() && b[q] == e;
                if q == 0 {
                    lemma_seq_lt_irreflexive(e);
                }
                assert(b1[q - 1] == e);
            }
            assert forall|e: Seq<char>| b1.to_set().contains(e) implies a1.to_set().contains(e) by {
                let p = choose|p: int| 0 <= p < b1.len() && b1[p] == e;
                assert(b[p + 1] == e);
                assert(seq_lt(b[0], b[p + 1]));
                assert(a.to_set().contains(e));
                let q = choose|q: int| 0 <= q < a.len() && a[q] == e;
                if q == 0 {
                    lemma_seq_lt_irreflexive(e);
                }
                assert(a1[q - 1] == e);
            }
        }
        lemma_strictly_sorted_unique(a1, b1);
        assert(a =~= b) by {
            assert forall|i: int| 0 <= i < a.len() implies a[i] == b[i] by {
                if i > 0 {
                    assert(a[i] == a1[i - 1]);
                    assert(b[i] == b1[i - 1]);
                }
            }
        }
    }
}

/// Adds `x` to the strictly sorted `out`, unless it is there already.
fn insert_sorted(out: &mut Vec<String>, x: String)
    requires
        strictly_sorted(old(out).deep_view()),
    ensures
        strictly_sorted(final(out).deep_view()),
        final(out).deep_view().to_set() == old(out).deep_view().to_set().insert(x@),
{
    let ghost s = out.deep_view();
    let n = out.len();
    let mut pos: usize = 0;
    while pos < n && str_lt(out[pos].as_str(), x.as_str())
        invariant
            pos <= n,
            n == out@.len(),
            s == out.deep_view(),
            strictly_sorted(s),
            forall|k: int| 0 <= k < pos ==> seq_lt(#[trigger] s[k], x@),
        decreases n - pos,
    {
        pos += 1;
    }
    if pos < n && str_eq(out[pos].as_str(), x.as_str()) {
        assert(s.to_set().insert(x@) =~= s.to_set()) by {
            assert(s[pos as int] == x@);
        }
        return;
    }
    proof {
        if pos < n {
            lemma_seq_lt_total(s[pos as int], x@);
            assert forall|j: int| pos <= j < n implies seq_lt(x@, #[trigger] s[j]) by {
                if j > pos {
                    lemma_seq_lt_transitive(x@, s[pos as int], s[j]);
                }
            }
        }
    }
    out.insert(pos, x);
    let ghost t = out.deep_view();
    assert(t =~= s.insert(pos as int, x@));
    assert forall|i: int, j: int| 0 <= i < j < t.len() implies seq_lt(
        #[trigger] t[i],
        #[trigger] t[j],
    ) by {
        if j < pos {
        } else if j == pos {
        } else if i < pos {
            if i < pos && j > pos {
                lemma_seq_lt_transitive(s[i], x@, s[j - 1]);
            }
        } else if i == pos {
        } else {
        }
    }
    assert(t.to_set() =~= s.to_set().insert(x@)) by {
        assert forall|e: Seq<char>| t.contains(e) <==> s.contains(e) || e == x@ by {
            if t.contains(e) {
                let k = choose|k: int| 0 <= k < t.len() && t[k] == e;
                if k < pos {
                    assert(s[k] == e);
                } else if k > pos {
                    assert(s[k - 1] == e);
                }
            }
            if s.contains(e) {
                let k = choose|k: int| 0 <= k < s.len() && s[k] == e;
                if k < pos {
                    assert(t[k] == e);
                } else {
                    assert(t[k + 1] == e);
                }
            }
            if e == x@ {
                assert(t[pos as int] == e);
            }
        }
    }
}

/// The ids to work on: those given on the command line and those from the id
/// file, sorted and without repeats. An empty list is an error.
pub fn merge_ids(cli_ids: Vec<String>, file_ids: Option<Vec<String>>) -> (r: Result<
    Vec<String>,
    DownloadError,
>)
    ensures
        all_ids(cli_ids.deep_view(), file_ids.deep_view()).len() == 0 ==> r
            == Err::<Vec<String>, DownloadError>(DownloadError::NoIds),
        all_ids(cli_ids.deep_view(), file_ids.deep_view()).len() > 0 ==> (r matches Ok(ids)
            && strictly_sorted(ids.deep_view()) && ids.deep_view().to_set() == all_ids(
            cli_ids.deep_view(),
            file_ids.deep_view(),
        ).to_set()),
{
    let ghost all = all_ids(cli_ids.deep_view(), file_ids.deep_view());
    let mut ids = cli_ids;
    match file_ids {
        Some(f) => {
            let ghost before = ids.deep_view();
            let mut f = f;
            let ghost fv = f.deep_view();
            ids.append(&mut f);
            assert(ids.deep_view() =~= before + fv);
        },
        None => {},
    }
    assert(ids.deep_view() == all);
    let n = ids.len();
    let mut out: Vec<String> = Vec::new();
    let mut i: usize = 0;
    assert(out.deep_view().to_set() =~= all.take(0).to_set());
    while i < n
        invariant
            i <= n,
            n == ids@.len(),
            ids.deep_view() == all,
            strictly_sorted(out.deep_view()),
            out.deep_view().to_set() == all.take(i as int).to_set(),
        decreases n - i,
    {
        let x = ids[i].clone();
        insert_sorted(&mut out, x);
        assert(all.take(i + 1).to_set() =~= all.take(i as int).to_set().insert(all[i as int])) by {
            assert(all.take(i + 1) =~= all.take(i as int).push(all[i as int]));
            all.take(i as int).lemma_push_to_set_commute(all[i as int]);
        }
        i += 1;
    }
    assert(all.take(n as int) =~= all);
    if out.len() == 0 {
        assert(all.len() == 0) by {
            if all.len() > 0 {
                assert(all.to_set().contains(all[0]));
            }
        }
        return Err(DownloadError::NoIds);
    }
    assert(all.len() > 0) by {
        assert(out.deep_view().to_set().contains(out.deep_view()[0]));
        assert(all.to_set().contains(out.deep_view()[0]));
    }
    Ok(out)
}

} // verus!
