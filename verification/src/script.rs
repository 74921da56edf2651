//! The hook script transformer: idempotent injection and removal of this
//! tool's invocation line in a hook's shell script.
//!
//! A script is modelled as a sequence of characters, decomposed into lines
//! where every line carries its terminating newline except, possibly, the
//! final one. Pruning drops exactly the lines that contain the invocation
//! marker; activation appends a newline and a fresh invocation line. The
//! lemmas at the end show that the rewrite converges: applying it twice
//! gives the same document as applying it once, deactivation after
//! activation restores the pruned original, and unrelated lines are kept
//! byte for byte in their original order.

use vstd::prelude::*;

use crate::hooks::Hook;

verus! {

/// The literal that identifies this tool's invocation line inside a script.
pub open spec fn marker() -> Seq<char> {
    "cpt-hook run"@
}

/// Does the line contain the invocation marker as a contiguous run?
pub open spec fn has_marker(line: Seq<char>) -> bool {
    exists|i: int|
        0 <= i && i + marker().len() <= line.len() && #[trigger] line.subrange(
            i,
            i + marker().len(),
        ) == marker()
}

/// The length of the first line of `s`, its newline terminator included;
/// the whole of `s` when no newline occurs.
pub open spec fn first_line_len(s: Seq<char>) -> nat
    decreases s.len(),
{
    if s.len() == 0 {
        0
    } else if s[0] == '\n' {
        1
    } else {
        (1 + first_line_len(s.drop_first())) as nat
    }
}

proof fn lemma_first_line_len_bounds(s: Seq<char>)
    ensures
        s.len() == 0 ==> first_line_len(s) == 0,
        s.len() > 0 ==> 1 <= first_line_len(s) <= s.len(),
    decreases s.len(),
{
    if s.len() > 0 && s[0] != '\n' {
        lemma_first_line_len_bounds(s.drop_first());
    }
}

/// The decomposition of a document into its lines.
pub open spec fn split_lines(s: Seq<char>) -> Seq<Seq<char>>
    decreases s.len(),
    via split_lines_decreases
{
    if s.len() == 0 {
        Seq::empty()
    } else {
        seq![s.take(first_line_len(s) as int)] + split_lines(s.skip(first_line_len(s) as int))
    }
}

#[via_fn]
proof fn split_lines_decreases(s: Seq<char>) {
    lemma_first_line_len_bounds(s);
}

/// A well-formed line: nonempty, with a newline in final position at most.
pub open spec fn is_line(l: Seq<char>) -> bool {
    l.len() >= 1 && forall|j: int| 0 <= j < l.len() - 1 ==> l[j] != '\n'
}

/// Does the line end with its newline terminator?
pub open spec fn is_terminated(l: Seq<char>) -> bool {
    l.len() >= 1 && l.last() == '\n'
}

/// A sequence of lines that some document splits into: every piece is a
/// line, and only the final one may lack its terminator.
pub open spec fn valid_lines(ls: Seq<Seq<char>>) -> bool {
    &&& forall|i: int| 0 <= i < ls.len() ==> is_line(#[trigger] ls[i])
    &&& forall|i: int| 0 <= i < ls.len() - 1 ==> is_terminated(#[trigger] ls[i])
}

/// The first line starts with the characters before the first newline.
proof fn lemma_first_line_shape(s: Seq<char>)
    ensures
        forall|j: int| 0 <= j < first_line_len(s) - 1 ==> s[j] != '\n',
        first_line_len(s) < s.len() || s.len() == 0 ==> first_line_len(s) == 0 || s[first_line_len(
            s,
        ) - 1] == '\n',
    decreases s.len(),
{
    lemma_first_line_len_bounds(s);
    if s.len() > 0 && s[0] != '\n' {
        lemma_first_line_len_bounds(s.drop_first());
        lemma_first_line_shape(s.drop_first());
        assert forall|j: int| 0 <= j < first_line_len(s) - 1 implies s[j] != '\n' by {
            if j > 0 {
                assert(s.drop_first()[j - 1] == s[j]);
            }
        }
    }
}

/// Where the first newline is known, the first line ends right after it.
proof fn lemma_first_line_len_at(s: Seq<char>, k: int)
    requires
        0 <= k <= s.len(),
        forall|j: int| 0 <= j < k ==> s[j] != '\n',
        k < s.len() ==> s[k] == '\n',
    ensures
        k < s.len() ==> first_line_len(s) == k + 1,
        k == s.len() ==> first_line_len(s) == k,
    decreases k,
{
    if s.len() > 0 && s[0] != '\n' {
        assert forall|j: int| 0 <= j < k - 1 implies s.drop_first()[j] != '\n' by {
            assert(s.drop_first()[j] == s[j + 1]);
        }
        lemma_first_line_len_at(s.drop_first(), k - 1);
    }
}

/// Joining the lines of a document gives the document back.
pub proof fn lemma_join_split_lines(s: Seq<char>)
    ensures
        split_lines(s).flatten() == s,
    decreases s.len(),
{
    if s.len() > 0 {
        lemma_first_line_len_bounds(s);
        let k = first_line_len(s) as int;
        lemma_join_split_lines(s.skip(k));
        assert(split_lines(s).drop_first() =~= split_lines(s.skip(k)));
        assert(split_lines(s).flatten() =~= s.take(k) + s.skip(k));
        assert(s.take(k) + s.skip(k) =~= s);
    }
}

/// The decomposition of a document is made of well-formed lines.
pub proof fn lemma_split_lines_valid(s: Seq<char>)
    ensures
        valid_lines(split_lines(s)),
    decreases s.len(),
{
    if s.len() > 0 {
        lemma_first_line_len_bounds(s);
        lemma_first_line_shape(s);
        let k = first_line_len(s) as int;
        let first = s.take(k);
        let rest = split_lines(s.skip(k));
        lemma_split_lines_valid(s.skip(k));
        assert(is_line(first));
        if k < s.len() {
            assert(first.last() == s[k - 1]);
            assert(s[k - 1] == '\n');
            assert(is_terminated(first));
        } else {
            assert(s.skip(k).len() == 0);
            assert(rest.len() == 0);
        }
        assert forall|i: int| 0 <= i < split_lines(s).len() implies is_line(
            #[trigger] split_lines(s)[i],
        ) by {
            if i > 0 {
                assert(split_lines(s)[i] == rest[i - 1]);
            }
        }
        assert forall|i: int| 0 <= i < split_lines(s).len() - 1 implies is_terminated(
            #[trigger] split_lines(s)[i],
        ) by {
            if i > 0 {
                assert(split_lines(s)[i] == rest[i - 1]);
            }
        }
    }
}

/// Splitting the join of well-formed lines gives the lines back.
pub proof fn lemma_split_of_join(ls: Seq<Seq<char>>)
    requires
        valid_lines(ls),
    ensures
        split_lines(ls.flatten()) == ls,
    decreases ls.len(),
{
    if ls.len() == 0 {
        assert(ls.flatten() =~= Seq::<char>::empty());
        assert(split_lines(ls.flatten()) =~= ls);
    } else {
        let l0 = ls.first();
        let rest = ls.drop_first();
        let s = ls.flatten();
        assert(s == l0 + rest.flatten());
        assert(valid_lines(rest)) by {
            assert forall|i: int| 0 <= i < rest.len() implies is_line(#[trigger] rest[i]) by {
                assert(rest[i] == ls[i + 1]);
            }
            assert forall|i: int| 0 <= i < rest.len() - 1 implies is_terminated(
                #[trigger] rest[i],
            ) by {
                assert(rest[i] == ls[i + 1]);
            }
        }
        lemma_split_of_join(rest);
        assert(is_line(l0));
        if rest.len() == 0 {
            assert(s =~= l0);
            if is_terminated(l0) {
                lemma_first_line_len_at(s, l0.len() - 1);
            } else {
                assert forall|j: int| 0 <= j < s.len() implies s[j] != '\n' by {
                    if j == l0.len() - 1 {
                        assert(!is_terminated(l0));
                    }
                }
                lemma_first_line_len_at(s, l0.len() as int);
            }
            assert(first_line_len(s) == l0.len());
            assert(s.take(l0.len() as int) =~= l0);
            assert(s.skip(l0.len() as int) =~= Seq::<char>::empty());
            assert(split_lines(s) =~= ls);
        } else {
            assert(is_terminated(l0));
            assert forall|j: int| 0 <= j < l0.len() - 1 implies s[j] != '\n' by {
                assert(s[j] == l0[j]);
            }
            assert(s[l0.len() - 1] == l0.last());
            lemma_first_line_len_at(s, l0.len() - 1);
            assert(first_line_len(s) == l0.len());
            assert(s.take(l0.len() as int) =~= l0);
            assert(s.skip(l0.len() as int) =~= rest.flatten());
            assert(split_lines(s) =~= seq![l0] + rest);
            assert(seq![l0] + rest =~= ls);
        }
    }
}

/// Keeps the lines that do not carry the invocation marker.
pub open spec fn keep_pred() -> spec_fn(Seq<char>) -> bool {
    |l: Seq<char>| !has_marker(l)
}

/// The lines of a document that survive pruning, in their original order.
pub open spec fn kept_lines(s: Seq<char>) -> Seq<Seq<char>> {
    split_lines(s).filter(keep_pred())
}

/// The document ends in an unterminated line that carries the marker: the
/// shape left by an earlier injection into a document that did not end
/// with a newline of its own.
pub open spec fn dangling_marker(s: Seq<char>) -> bool {
    split_lines(s).len() > 0 && !is_terminated(split_lines(s).last()) && has_marker(
        split_lines(s).last(),
    )
}

/// Pruning: every line that carries the marker is removed together with
/// its newline. For a marker line at the very end of the document, the
/// newline that separates it from the rest serves as its terminator and
/// goes with it.
pub open spec fn prune_spec(s: Seq<char>) -> Seq<char> {
    let j = kept_lines(s).flatten();
    if dangling_marker(s) && j.len() > 0 {
        j.drop_last()
    } else {
        j
    }
}

/// No line of the document carries the marker.
pub open spec fn marker_free(s: Seq<char>) -> bool {
    forall|i: int| 0 <= i < split_lines(s).len() ==> !has_marker(#[trigger] split_lines(s)[i])
}

/// A well-formed hook name: nonempty and free of newlines. Every canonical
/// hook name satisfies this; see [`lemma_hook_name_wf`].
pub open spec fn name_wf(name: Seq<char>) -> bool {
    name.len() >= 1 && forall|j: int| 0 <= j < name.len() ==> name[j] != '\n'
}

/// The single line injected into an active hook script: it re-invokes this
/// tool's run command with the hook's canonical name, quoted so the name
/// survives shell re-parsing unchanged.
pub open spec fn invocation_line(name: Seq<char>) -> Seq<char> {
    "cpt-hook run --hook \""@ + name + "\""@
}

/// Activation appends a separating newline, then the invocation line.
pub open spec fn inject_spec(s: Seq<char>, name: Seq<char>) -> Seq<char> {
    s + seq!['\n'] + invocation_line(name)
}

/// The whole rewrite of one hook script's contents: prune unconditionally,
/// then append a fresh invocation line when activating.
pub open spec fn transform_spec(s: Seq<char>, name: Seq<char>, active: bool) -> Seq<char> {
    if active {
        inject_spec(prune_spec(s), name)
    } else {
        prune_spec(s)
    }
}

/// The minimal template used when the script does not exist yet.
pub open spec fn default_script_spec() -> Seq<char> {
    "#!/bin/sh\n\n"@
}

proof fn lemma_marker_chars()
    ensures
        marker().len() == 12,
        forall|j: int| 0 <= j < marker().len() ==> marker()[j] != '\n',
{
    broadcast use vstd::string::group_string_axioms;

    reveal_strlit("cpt-hook run");
}

/// A short line cannot carry the marker.
proof fn lemma_short_line_no_marker(l: Seq<char>)
    requires
        l.len() < marker().len(),
    ensures
        !has_marker(l),
{
}

/// A line that gains its terminator gains no marker.
proof fn lemma_no_marker_terminate(l: Seq<char>)
    requires
        !has_marker(l),
    ensures
        !has_marker(l.push('\n')),
{
    lemma_marker_chars();
    let e = l.push('\n');
    assert forall|i: int| 0 <= i && i + marker().len() <= e.len() implies #[trigger] e.subrange(
        i,
        i + marker().len(),
    ) != marker() by {
        if i + marker().len() <= l.len() {
            assert(e.subrange(i, i + marker().len()) =~= l.subrange(i, i + marker().len()));
        } else {
            let k = l.len() - i;
            assert(e.subrange(i, i + marker().len())[k] == '\n');
        }
    }
}

/// A line that loses its final character keeps having no marker.
proof fn lemma_no_marker_shrink(l: Seq<char>)
    requires
        !has_marker(l),
        l.len() >= 1,
    ensures
        !has_marker(l.drop_last()),
{
    let d = l.drop_last();
    assert forall|i: int| 0 <= i && i + marker().len() <= d.len() implies #[trigger] d.subrange(
        i,
        i + marker().len(),
    ) != marker() by {
        assert(d.subrange(i, i + marker().len()) =~= l.subrange(i, i + marker().len()));
    }
}

/// The injected line carries the marker: what is injected is what pruning
/// removes, so the two cannot drift apart.
pub proof fn lemma_invocation_line_marker(name: Seq<char>)
    ensures
        has_marker(invocation_line(name)),
{
    broadcast use vstd::string::group_string_axioms;

    reveal_strlit("cpt-hook run");
    reveal_strlit("cpt-hook run --hook \"");
    let line = invocation_line(name);
    let i: int = 0;
    assert(line.subrange(i, i + marker().len()) =~= marker());
}

/// For a well-formed name, the injected text is one unterminated line.
proof fn lemma_invocation_line_shape(name: Seq<char>)
    requires
        name_wf(name),
    ensures
        is_line(invocation_line(name)),
        !is_terminated(invocation_line(name)),
{
    broadcast use vstd::string::group_string_axioms;

    reveal_strlit("cpt-hook run --hook \"");
    reveal_strlit("\"");
    let prefix = "cpt-hook run --hook \""@;
    let quote = "\""@;
    let line = invocation_line(name);
    assert forall|j: int| 0 <= j < line.len() implies line[j] != '\n' by {
        if j < prefix.len() {
            assert(line[j] == prefix[j]);
        } else if j < prefix.len() + name.len() {
            assert(line[j] == name[j - prefix.len()]);
        } else {
            assert(line[j] == quote[j - prefix.len() - name.len()]);
        }
    }
    assert(line.last() != '\n');
}

/// A filter that keeps every line is the identity.
proof fn lemma_filter_all_kept(ls: Seq<Seq<char>>, pred: spec_fn(Seq<char>) -> bool)
    requires
        forall|i: int| 0 <= i < ls.len() ==> pred(#[trigger] ls[i]),
    ensures
        ls.filter(pred) == ls,
    decreases ls.len(),
{
    reveal(Seq::filter);
    if ls.len() > 0 {
        let a = ls.drop_last();
        assert(forall|i: int| 0 <= i < a.len() ==> #[trigger] a[i] == ls[i]);
        lemma_filter_all_kept(a, pred);
        assert(pred(ls.last()));
        assert(ls.filter(pred) =~= ls);
    }
}

/// Filtering fully terminated lines yields fully terminated lines.
proof fn lemma_filter_terminated(ls: Seq<Seq<char>>, pred: spec_fn(Seq<char>) -> bool)
    requires
        forall|i: int|
            0 <= i < ls.len() ==> is_line(#[trigger] ls[i]) && is_terminated(#[trigger] ls[i]),
    ensures
        forall|i: int|
            0 <= i < ls.filter(pred).len() ==> is_line(#[trigger] ls.filter(pred)[i])
                && is_terminated(#[trigger] ls.filter(pred)[i]),
    decreases ls.len(),
{
    reveal(Seq::filter);
    if ls.len() > 0 {
        let a = ls.drop_last();
        assert(forall|i: int| 0 <= i < a.len() ==> #[trigger] a[i] == ls[i]);
        lemma_filter_terminated(a, pred);
        if pred(ls.last()) {
            assert forall|i: int| 0 <= i < ls.filter(pred).len() implies is_line(
                #[trigger] ls.filter(pred)[i],
            ) && is_terminated(#[trigger] ls.filter(pred)[i]) by {
                if i < ls.filter(pred).len() - 1 {
                    assert(ls.filter(pred)[i] == a.filter(pred)[i]);
                } else {
                    assert(ls.filter(pred)[i] == ls.last());
                }
            }
        }
    }
}

/// Filtering a well-formed decomposition keeps it well-formed; when the
/// final line is dropped, everything kept is terminated.
proof fn lemma_filter_lines_valid(ls: Seq<Seq<char>>, pred: spec_fn(Seq<char>) -> bool)
    requires
        valid_lines(ls),
    ensures
        valid_lines(ls.filter(pred)),
        ls.len() > 0 && !pred(ls.last()) ==> forall|i: int|
            0 <= i < ls.filter(pred).len() ==> is_line(#[trigger] ls.filter(pred)[i])
                && is_terminated(#[trigger] ls.filter(pred)[i]),
{
    reveal(Seq::filter);
    if ls.len() > 0 {
        let a = ls.drop_last();
        assert(forall|i: int| 0 <= i < a.len() ==> #[trigger] a[i] == ls[i]);
        lemma_filter_terminated(a, pred);
        if pred(ls.last()) {
            let f = ls.filter(pred);
            assert(f =~= a.filter(pred).push(ls.last()));
            assert forall|i: int| 0 <= i < f.len() implies is_line(#[trigger] f[i]) by {
                if i < f.len() - 1 {
                    assert(f[i] == a.filter(pred)[i]);
                } else {
                    assert(f[i] == ls.last());
                }
            }
            assert forall|i: int| 0 <= i < f.len() - 1 implies is_terminated(#[trigger] f[i]) by {
                assert(f[i] == a.filter(pred)[i]);
            }
        }
    }
}

/// After pruning, no line of the document carries the marker: pruning a
/// second time can remove nothing further.
#[verifier::spinoff_prover]
pub proof fn lemma_prune_marker_free(s: Seq<char>)
    ensures
        marker_free(prune_spec(s)),
{
    broadcast use Seq::lemma_filter_pred, Seq::lemma_flatten_push;

    let ls = split_lines(s);
    let pred = keep_pred();
    let f = ls.filter(pred);
    let j = f.flatten();
    lemma_split_lines_valid(s);
    lemma_filter_lines_valid(ls, pred);
    if dangling_marker(s) && j.len() > 0 {
        assert(!pred(ls.last()));
        if f.len() == 0 {
            assert(j.len() == 0);
        }
        let last = f.last();
        let a = f.drop_last();
        assert(f =~= a.push(last));
        assert(j == a.flatten() + last);
        assert(is_terminated(last));
        assert(j.drop_last() =~= a.flatten() + last.drop_last());
        assert(!has_marker(last));
        if last.len() == 1 {
            assert(j.drop_last() =~= a.flatten());
            lemma_split_of_join(a);
            assert(split_lines(prune_spec(s)) == a);
            assert forall|i: int|
                0 <= i < split_lines(prune_spec(s)).len() implies !has_marker(
                #[trigger] split_lines(prune_spec(s))[i],
            ) by {
                assert(a[i] == f[i]);
            }
        } else {
            let shortened = last.drop_last();
            lemma_no_marker_shrink(last);
            let ls2 = a.push(shortened);
            assert(valid_lines(ls2)) by {
                assert forall|i: int| 0 <= i < ls2.len() implies is_line(#[trigger] ls2[i]) by {
                    if i < ls2.len() - 1 {
                        assert(ls2[i] == f[i]);
                    } else {
                        assert(ls2[i] == shortened);
                        assert(is_line(last));
                        assert(forall|k: int| 0 <= k < shortened.len() ==> shortened[k] == last[k]);
                    }
                }
                assert forall|i: int| 0 <= i < ls2.len() - 1 implies is_terminated(
                    #[trigger] ls2[i],
                ) by {
                    assert(ls2[i] == f[i]);
                }
            }
            assert(ls2.flatten() == a.flatten() + shortened);
            assert(ls2.flatten() =~= j.drop_last());
            lemma_split_of_join(ls2);
            assert(split_lines(prune_spec(s)) == ls2);
            assert forall|i: int|
                0 <= i < split_lines(prune_spec(s)).len() implies !has_marker(
                #[trigger] split_lines(prune_spec(s))[i],
            ) by {
                if i < ls2.len() - 1 {
                    assert(ls2[i] == f[i]);
                } else {
                    assert(ls2[i] == shortened);
                }
            }
        }
    } else {
        assert(prune_spec(s) == j);
        lemma_split_of_join(f);
        assert(split_lines(prune_spec(s)) == f);
    }
}

/// Pruning a document without marker lines leaves it unchanged.
pub proof fn lemma_prune_noop(s: Seq<char>)
    requires
        marker_free(s),
    ensures
        prune_spec(s) == s,
{
    let ls = split_lines(s);
    let pred = keep_pred();
    assert(forall|i: int| 0 <= i < ls.len() ==> pred(#[trigger] ls[i]));
    lemma_filter_all_kept(ls, pred);
    lemma_join_split_lines(s);
    if ls.len() > 0 {
        assert(!has_marker(ls.last()));
    }
}

/// Filtering a two-line tail where only the first line is kept.
proof fn lemma_filter_two(x: Seq<char>, y: Seq<char>, pred: spec_fn(Seq<char>) -> bool)
    requires
        pred(x),
        !pred(y),
    ensures
        (Seq::<Seq<char>>::empty().push(x).push(y)).filter(pred) == seq![x],
{
    broadcast use Seq::lemma_filter_push;

    reveal(Seq::filter);
    assert(Seq::<Seq<char>>::empty().filter(pred) =~= Seq::<Seq<char>>::empty());
    assert((Seq::<Seq<char>>::empty().push(x).push(y)).filter(pred) =~= seq![x]);
}

/// The join of a two-line sequence.
proof fn lemma_flatten_two(x: Seq<char>, y: Seq<char>)
    ensures
        (Seq::<Seq<char>>::empty().push(x).push(y)).flatten() == x + y,
{
    broadcast use Seq::lemma_flatten_push;

    assert(Seq::<Seq<char>>::empty().flatten() =~= Seq::<char>::empty());
    assert((Seq::<Seq<char>>::empty().push(x).push(y)).flatten() =~= x + y);
}

/// The join of a one-line sequence.
proof fn lemma_flatten_one(x: Seq<char>)
    ensures
        seq![x].flatten() == x,
{
    broadcast use Seq::lemma_flatten_push;

    assert(Seq::<Seq<char>>::empty().flatten() =~= Seq::<char>::empty());
    assert(Seq::<Seq<char>>::empty().push(x) =~= seq![x]);
    assert(seq![x].flatten() =~= x);
}

/// Common part of the injection round trip: the case split on how the
/// marker-free document ends.
#[verifier::spinoff_prover]
proof fn lemma_prune_after_inject_empty(p: Seq<char>, name: Seq<char>)
    requires
        split_lines(p).len() == 0,
        name_wf(name),
    ensures
        prune_spec(inject_spec(p, name)) == p,
{
    let line = invocation_line(name);
    let nl_line = seq!['\n'];
    let s = inject_spec(p, name);
    let pred = keep_pred();
    lemma_marker_chars();
    lemma_invocation_line_marker(name);
    lemma_invocation_line_shape(name);
    lemma_join_split_lines(p);
    lemma_short_line_no_marker(nl_line);
    assert(p =~= Seq::<char>::empty());
    let ls2 = Seq::<Seq<char>>::empty().push(nl_line).push(line);
    assert(valid_lines(ls2));
    lemma_flatten_two(nl_line, line);
    assert(ls2.flatten() =~= s);
    lemma_split_of_join(ls2);
    assert(split_lines(s) == ls2);
    lemma_filter_two(nl_line, line, pred);
    let f = ls2.filter(pred);
    lemma_flatten_one(nl_line);
    assert(dangling_marker(s));
    assert(prune_spec(s) =~= p);
}

#[verifier::spinoff_prover]
#[verifier::rlimit(30)]
proof fn lemma_prune_after_inject_terminated(p: Seq<char>, name: Seq<char>)
    requires
        marker_free(p),
        name_wf(name),
        split_lines(p).len() > 0,
        is_terminated(split_lines(p).last()),
    ensures
        prune_spec(inject_spec(p, name)) == p,
{
    let line = invocation_line(name);
    let nl_line = seq!['\n'];
    let s = inject_spec(p, name);
    let pred = keep_pred();
    lemma_marker_chars();
    lemma_invocation_line_marker(name);
    lemma_invocation_line_shape(name);
    lemma_split_lines_valid(p);
    lemma_join_split_lines(p);
    lemma_short_line_no_marker(nl_line);
    let ls = split_lines(p);
    let tail = Seq::<Seq<char>>::empty().push(nl_line).push(line);
    let ls2 = ls + tail;
    assert(valid_lines(ls2)) by {
        assert forall|i: int| 0 <= i < ls2.len() implies is_line(#[trigger] ls2[i]) by {
            if i < ls.len() {
                assert(ls2[i] == ls[i]);
            } else if i == ls.len() {
                assert(ls2[i] == nl_line);
            } else {
                assert(ls2[i] == line);
            }
        }
        assert forall|i: int| 0 <= i < ls2.len() - 1 implies is_terminated(#[trigger] ls2[i]) by {
            if i < ls.len() - 1 {
                assert(ls2[i] == ls[i]);
            } else if i == ls.len() - 1 {
                assert(ls2[i] == ls.last());
            } else {
                assert(ls2[i] == nl_line);
            }
        }
    }
    vstd::seq_lib::lemma_flatten_concat(ls, tail);
    lemma_flatten_two(nl_line, line);
    assert(ls2.flatten() =~= s);
    lemma_split_of_join(ls2);
    assert(split_lines(s) == ls2);
    Seq::filter_distributes_over_add(ls, tail, pred);
    let f = ls2.filter(pred);
    assert(forall|i: int| 0 <= i < ls.len() ==> pred(#[trigger] ls[i]));
    lemma_filter_all_kept(ls, pred);
    lemma_filter_two(nl_line, line, pred);
    assert(f == ls + seq![nl_line]);
    vstd::seq_lib::lemma_flatten_concat(ls, seq![nl_line]);
    lemma_flatten_one(nl_line);
    assert(f.flatten() =~= p + nl_line);
    assert(dangling_marker(s)) by {
        assert(ls2.last() == line);
    }
    assert(f.flatten().len() > 0);
    assert(prune_spec(s) == f.flatten().drop_last());
    assert(f.flatten().drop_last() =~= p);
}

#[verifier::spinoff_prover]
#[verifier::rlimit(30)]
proof fn lemma_prune_after_inject_unterminated(p: Seq<char>, name: Seq<char>)
    requires
        marker_free(p),
        name_wf(name),
        split_lines(p).len() > 0,
        !is_terminated(split_lines(p).last()),
    ensures
        prune_spec(inject_spec(p, name)) == p,
{
    broadcast use Seq::lemma_flatten_push;

    let line = invocation_line(name);
    let nl_line = seq!['\n'];
    let s = inject_spec(p, name);
    let pred = keep_pred();
    lemma_marker_chars();
    lemma_invocation_line_marker(name);
    lemma_invocation_line_shape(name);
    lemma_split_lines_valid(p);
    lemma_join_split_lines(p);
    let ls = split_lines(p);
    let last = ls.last();
    let a = ls.drop_last();
    let ext = last.push('\n');
    assert(!has_marker(last));
    lemma_no_marker_terminate(last);
    let tail = Seq::<Seq<char>>::empty().push(ext).push(line);
    let ls2 = a + tail;
    assert(is_line(ext) && is_terminated(ext)) by {
        assert(is_line(last));
        assert(forall|k: int| 0 <= k < last.len() ==> ext[k] == last[k]);
        assert(last[last.len() - 1] != '\n') by {
            assert(!is_terminated(last));
        }
        assert(forall|k: int| 0 <= k < ext.len() - 1 ==> ext[k] != '\n');
    }
    assert(valid_lines(ls2)) by {
        assert forall|i: int| 0 <= i < ls2.len() implies is_line(#[trigger] ls2[i]) by {
            if i < a.len() {
                assert(ls2[i] == ls[i]);
            } else if i == a.len() {
                assert(ls2[i] == ext);
            } else {
                assert(ls2[i] == line);
            }
        }
        assert forall|i: int| 0 <= i < ls2.len() - 1 implies is_terminated(#[trigger] ls2[i]) by {
            if i < a.len() {
                assert(ls2[i] == ls[i]);
            } else {
                assert(ls2[i] == ext);
            }
        }
    }
    assert(ls =~= a.push(last));
    assert(p == a.flatten() + last);
    vstd::seq_lib::lemma_flatten_concat(a, tail);
    lemma_flatten_two(ext, line);
    assert(ls2.flatten() =~= s) by {
        assert(ext =~= last + nl_line);
    }
    lemma_split_of_join(ls2);
    assert(split_lines(s) == ls2);
    Seq::filter_distributes_over_add(a, tail, pred);
    let f = ls2.filter(pred);
    assert(forall|i: int| 0 <= i < a.len() ==> pred(#[trigger] a[i])) by {
        assert(forall|i: int| 0 <= i < a.len() ==> a[i] == ls[i]);
    }
    lemma_filter_all_kept(a, pred);
    lemma_filter_two(ext, line, pred);
    assert(f == a + seq![ext]);
    vstd::seq_lib::lemma_flatten_concat(a, seq![ext]);
    lemma_flatten_one(ext);
    assert(f.flatten() =~= p + nl_line) by {
        assert(ext =~= last + nl_line);
    }
    assert(dangling_marker(s)) by {
        assert(ls2.last() == line);
    }
    assert(f.flatten().len() > 0);
    assert(prune_spec(s) == f.flatten().drop_last());
    assert(f.flatten().drop_last() =~= p);
}

/// Pruning after injection restores the marker-free original: what
/// activation adds, the next prune removes, byte for byte.
pub proof fn lemma_prune_after_inject(p: Seq<char>, name: Seq<char>)
    requires
        marker_free(p),
        name_wf(name),
    ensures
        prune_spec(inject_spec(p, name)) == p,
{
    let ls = split_lines(p);
    if ls.len() == 0 {
        lemma_prune_after_inject_empty(p, name);
    } else if is_terminated(ls.last()) {
        lemma_prune_after_inject_terminated(p, name);
    } else {
        lemma_prune_after_inject_unterminated(p, name);
    }
}

/// Every canonical hook name is nonempty and free of newlines.
pub proof fn lemma_hook_name_wf(h: Hook)
    ensures
        name_wf(h.name_spec()),
{
    broadcast use vstd::string::group_string_axioms;

    reveal_strlit("applypatch-msg");
    reveal_strlit("pre-applypatch");
    reveal_strlit("post-applypatch");
    reveal_strlit("pre-commit");
    reveal_strlit("pre-merge-commit");
    reveal_strlit("prepare-commit-msg");
    reveal_strlit("commit-msg");
    reveal_strlit("post-commit");
    reveal_strlit("pre-rebase");
    reveal_strlit("post-checkout");
    reveal_strlit("post-merge");
    reveal_strlit("pre-push");
    reveal_strlit("pre-receive");
    reveal_strlit("update");
    reveal_strlit("proc-receive");
    reveal_strlit("post-receive");
    reveal_strlit("post-update");
    reveal_strlit("reference-transaction");
    reveal_strlit("push-to-checkout");
    reveal_strlit("pre-auto-gc");
    reveal_strlit("post-rewrite");
    reveal_strlit("sendemail-validate");
    reveal_strlit("fsmonitor-watchman");
    reveal_strlit("fsmonitor-watchmanv2");
    reveal_strlit("p4-changelist");
    reveal_strlit("p4-prepare-changelist");
    reveal_strlit("p4-post-changelist");
    reveal_strlit("p4-pre-submit");
    reveal_strlit("post-index-change");
}

/// Idempotence: rewriting a script twice with the same hook and the same
/// activation flag gives exactly the document that one rewrite gives.
pub proof fn lemma_transform_idempotent(s: Seq<char>, h: Hook, active: bool)
    ensures
        transform_spec(transform_spec(s, h.name_spec(), active), h.name_spec(), active)
            == transform_spec(s, h.name_spec(), active),
{
    lemma_hook_name_wf(h);
    lemma_prune_marker_free(s);
    if active {
        lemma_prune_after_inject(prune_spec(s), h.name_spec());
    } else {
        lemma_prune_noop(prune_spec(s));
    }
}

/// Round-trip deactivation: activating and then deactivating a hook leaves
/// exactly the pruned original, so every line the user wrote survives.
pub proof fn lemma_activate_then_deactivate(s: Seq<char>, h: Hook)
    ensures
        transform_spec(transform_spec(s, h.name_spec(), true), h.name_spec(), false)
            == prune_spec(s),
{
    lemma_hook_name_wf(h);
    lemma_prune_marker_free(s);
    lemma_prune_after_inject(prune_spec(s), h.name_spec());
}

/// Round-trip deactivation at line level: after activating and then
/// deactivating a hook, the script holds exactly the marker-free lines of
/// the original, unchanged and in their original order.
pub proof fn lemma_round_trip_lines(s: Seq<char>, h: Hook)
    requires
        !dangling_marker(s),
    ensures
        split_lines(
            transform_spec(transform_spec(s, h.name_spec(), true), h.name_spec(), false),
        ) == kept_lines(s),
{
    lemma_activate_then_deactivate(s, h);
    lemma_prune_preserves_unrelated(s);
}

/// Content preservation: as long as the document does not end in an
/// unterminated marker line, pruning gives exactly the marker-free lines
/// of the original, byte for byte and in their original order.
pub proof fn lemma_prune_preserves_unrelated(s: Seq<char>)
    requires
        !dangling_marker(s),
    ensures
        split_lines(prune_spec(s)) == kept_lines(s),
        forall|i: int| 0 <= i < kept_lines(s).len() ==> !has_marker(#[trigger] kept_lines(s)[i]),
        prune_spec(s) == kept_lines(s).flatten(),
{
    broadcast use Seq::lemma_filter_pred;

    lemma_split_lines_valid(s);
    lemma_filter_lines_valid(split_lines(s), keep_pred());
    lemma_split_of_join(kept_lines(s));
}

/// Is the given slice of `line` exactly `m`? A character-by-character
/// comparison.
fn match_at(line: &str, m: &str, i: usize) -> (b: bool)
    requires
        i + m@.len() <= line@.len(),
    ensures
        b == (line@.subrange(i as int, i + m@.len()) == m@),
{
    let mlen = m.unicode_len();
    let n = line.unicode_len();
    let mut j: usize = 0;
    while j < mlen
        invariant
            j <= mlen,
            mlen == m@.len(),
            n == line@.len(),
            i + mlen <= n,
            forall|t: int| 0 <= t < j ==> line@[i + t] == m@[t],
        decreases mlen - j,
    {
        if line.get_char(i + j) != m.get_char(j) {
            proof {
                assert(line@.subrange(i as int, i + m@.len())[j as int] == line@[i + j]);
            }
            return false;
        }
        j = j + 1;
    }
    proof {
        assert(line@.subrange(i as int, i + m@.len()) =~= m@);
    }
    true
}

/// Does the line contain the invocation marker? A linear scan over every
/// starting position.
fn line_has_marker(line: &str) -> (b: bool)
    ensures
        b == has_marker(line@),
{
    let m = "cpt-hook run";
    proof {
        lemma_marker_chars();
    }
    let mlen = m.unicode_len();
    let n = line.unicode_len();
    if n < mlen {
        return false;
    }
    let end = n - mlen;
    let mut i: usize = 0;
    while i <= end
        invariant
            m@ == marker(),
            mlen == marker().len(),
            1 <= mlen <= n,
            n == line@.len(),
            end == n - mlen,
            i <= end + 1,
            forall|k: int| 0 <= k < i ==> #[trigger] line@.subrange(k, k + marker().len()) != marker(),
        decreases end + 1 - i,
    {
        if match_at(line, m, i) {
            proof {
                assert(line@.subrange(i as int, i + marker().len()) == marker());
            }
            return true;
        }
        i = i + 1;
    }
    proof {
        assert forall|k: int|
            0 <= k && k + marker().len() <= line@.len() implies #[trigger] line@.subrange(
            k,
            k + marker().len(),
        ) != marker() by {
            assert(k < i);
        }
    }
    false
}

/// Splits a script into its lines, each line keeping its terminator.
fn split_script(s: &str) -> (lines: Vec<String>)
    ensures
        lines.deep_view() == split_lines(s@),
{
    let n = s.unicode_len();
    let mut lines: Vec<String> = Vec::new();
    let mut start: usize = 0;
    let mut i: usize = 0;
    proof {
        assert(s@.skip(0) =~= s@);
        assert(lines.deep_view() =~= Seq::<Seq<char>>::empty());
        assert(lines.deep_view() + split_lines(s@) =~= split_lines(s@));
    }
    while i < n
        invariant
            start <= i <= n,
            n == s@.len(),
            lines.deep_view() + split_lines(s@.skip(start as int)) == split_lines(s@),
            forall|j: int| start <= j < i ==> s@[j] != '\n',
        decreases n - i,
    {
        if s.get_char(i) == '\n' {
            let line = s.substring_char(start, i + 1).to_owned();
            proof {
                let tail = s@.skip(start as int);
                assert forall|j: int| 0 <= j < i - start implies tail[j] != '\n' by {
                    assert(tail[j] == s@[start + j]);
                }
                assert(tail[i - start] == '\n');
                lemma_first_line_len_at(tail, i - start);
                assert(first_line_len(tail) == i - start + 1);
                assert(tail.take(i - start + 1) =~= s@.subrange(start as int, i + 1));
                assert(tail.skip(i - start + 1) =~= s@.skip(i + 1));
                assert(split_lines(tail) == seq![s@.subrange(start as int, i + 1)] + split_lines(
                    s@.skip(i + 1),
                ));
            }
            let ghost prior = lines.deep_view();
            lines.push(line);
            proof {
                assert(lines.deep_view() =~= prior.push(line@));
                assert(line@ == s@.subrange(start as int, i + 1));
                assert(lines.deep_view() + split_lines(s@.skip(i + 1)) =~= split_lines(s@));
            }
            start = i + 1;
        }
        i = i + 1;
    }
    if start < n {
        let line = s.substring_char(start, n).to_owned();
        proof {
            let tail = s@.skip(start as int);
            assert forall|j: int| 0 <= j < n - start implies tail[j] != '\n' by {
                assert(tail[j] == s@[start + j]);
            }
            lemma_first_line_len_at(tail, n - start);
            assert(first_line_len(tail) == n - start);
            assert(tail.take(n - start) =~= s@.subrange(start as int, n as int));
            assert(tail.skip(n - start) =~= Seq::<char>::empty());
            reveal_with_fuel(split_lines, 2);
            assert(split_lines(tail) =~= seq![s@.subrange(start as int, n as int)]);
        }
        let ghost prior = lines.deep_view();
        lines.push(line);
        proof {
            assert(lines.deep_view() =~= prior.push(line@));
            assert(lines.deep_view() =~= split_lines(s@));
        }
    } else {
        proof {
            assert(s@.skip(start as int) =~= Seq::<char>::empty());
            assert(lines.deep_view() =~= split_lines(s@));
        }
    }
    lines
}

/// Removes every line that carries the invocation marker, together with
/// the newline that separates it from the rest of the document.
pub fn prune_hook(content: &str) -> (r: String)
    ensures
        r@ == prune_spec(content@),
{
    let ghost ls = split_lines(content@);
    let ghost pred = keep_pred();
    proof {
        lemma_split_lines_valid(content@);
    }
    let lines = split_script(content);
    let n = lines.len();
    let mut out = String::new();
    let mut dangling = false;
    let mut idx: usize = 0;
    proof {
        reveal(Seq::filter);
        assert(ls.take(0) =~= Seq::<Seq<char>>::empty());
        assert(Seq::<Seq<char>>::empty().filter(pred) =~= Seq::<Seq<char>>::empty());
        assert(Seq::<Seq<char>>::empty().flatten() =~= Seq::<char>::empty());
    }
    while idx < n
        invariant
            n == lines.len(),
            lines.deep_view() == ls,
            valid_lines(ls),
            pred == keep_pred(),
            idx <= n,
            out@ == ls.take(idx as int).filter(pred).flatten(),
            dangling == (idx > 0 && !is_terminated(ls[idx - 1]) && has_marker(ls[idx - 1])),
        decreases n - idx,
    {
        let line = &lines[idx];
        proof {
            assert(line@ == ls[idx as int]);
            assert(is_line(ls[idx as int]));
        }
        let is_marker = line_has_marker(line.as_str());
        let llen = line.as_str().unicode_len();
        let terminated = line.as_str().get_char(llen - 1) == '\n';
        if !is_marker {
            out.append(line.as_str());
        }
        dangling = is_marker && !terminated;
        proof {
            let prior = ls.take(idx as int);
            assert(ls.take(idx as int + 1) =~= prior.push(ls[idx as int]));
            prior.lemma_filter_push(ls[idx as int], pred);
            if !is_marker {
                prior.filter(pred).lemma_flatten_push(ls[idx as int]);
            }
            assert(out@ == ls.take(idx as int + 1).filter(pred).flatten());
        }
        idx = idx + 1;
    }
    proof {
        assert(ls.take(n as int) =~= ls);
        assert(out@ == kept_lines(content@).flatten());
        assert(dangling == dangling_marker(content@)) by {
            if n > 0 {
                assert(ls[n - 1] == ls.last());
            }
        }
    }
    if dangling {
        let olen = out.as_str().unicode_len();
        if olen > 0 {
            let shortened = out.as_str().substring_char(0, olen - 1).to_owned();
            proof {
                assert(shortened@ =~= out@.drop_last());
            }
            return shortened;
        }
    }
    out
}

/// Appends the separating newline and the invocation line for `hook` to
/// the script contents.
pub fn inject(content: &mut String, hook: &str)
    ensures
        final(content)@ == inject_spec(old(content)@, hook@),
{
    content.append("\n");
    content.append("cpt-hook run --hook \"");
    content.append(hook);
    content.append("\"");
    proof {
        broadcast use vstd::string::group_string_axioms;

        reveal_strlit("\n");
        assert("\n"@ =~= seq!['\n']);
        assert(content@ =~= inject_spec(old(content)@, hook@));
    }
}

/// Computes the new contents of one hook script: the current contents (or
/// the default two-line template when the script does not exist yet) are
/// pruned of every invocation line, then, when activating, a single fresh
/// invocation line for `hook` is appended.
pub fn render_hook_script(existing: Option<&str>, hook: &Hook, active: bool) -> (r: String)
    ensures
        match existing {
            Some(s) => r@ == transform_spec(s@, hook.name_spec(), active),
            None => r@ == transform_spec(default_script_spec(), hook.name_spec(), active),
        },
{
    let mut out = match existing {
        Some(s) => prune_hook(s),
        None => prune_hook("#!/bin/sh\n\n"),
    };
    if active {
        let name = hook.name();
        inject(&mut out, name.as_str());
    }
    out
}

/// The on-disk path of the hook's script below the repository root.
pub fn hook_script_path(repository_path: &str, hook: &Hook) -> (r: String)
    ensures
        r@ == repository_path@ + "/.git/hooks/"@ + hook.name_spec(),
{
    let mut p = repository_path.to_owned();
    p.append("/.git/hooks/");
    let name = hook.name();
    p.append(name.as_str());
    proof {
        assert(p@ =~= repository_path@ + "/.git/hooks/"@ + hook.name_spec());
    }
    p
}

} // verus!
