//! Discovery of node scripts in a package manifest: the manifest text is
//! parsed by serde_json behind a trusted wrapper, and the names found in
//! its script table are filtered here — entries whose names end in the
//! reserved lifecycle suffixes are excluded from direct selection.

use vstd::prelude::*;

use crate::actions::NodeScript;

verus! {

/// The keys of the JSON object stored under `key` in the document `text`,
/// in the order serde_json's map yields them; nothing when `text` is not
/// valid JSON or holds no object under `key`. A function of the two
/// arguments alone.
pub uninterp spec fn json_object_keys(text: Seq<char>, key: Seq<char>) -> Option<Seq<Seq<char>>>;

/// Relies on serde_json::from_str, serde_json::Value::get and
/// serde_json::Value::as_object: parses the document and hands out the
/// keys of the object stored under `key`. serde_json's map is backed by a
/// B-tree, so the order of the keys depends on the document alone.
#[verifier::external_body]
fn object_keys(text: &str, key: &str) -> (r: Option<Vec<String>>)
    ensures
        r is Some <==> json_object_keys(text@, key@) is Some,
        r is Some ==> r.unwrap().deep_view() == json_object_keys(text@, key@).unwrap(),
{
    let value: serde_json::Value = serde_json::from_str(text).ok()?;
    let table = value.get(key)?.as_object()?;
    Some(table.keys().cloned().collect())
}

/// Does `s` end with `suffix`?
pub open spec fn ends_with(s: Seq<char>, suffix: Seq<char>) -> bool {
    s.len() >= suffix.len() && s.subrange(s.len() - suffix.len(), s.len() as int) == suffix
}

/// A script name offered for direct selection: the reserved suffixes mark
/// lifecycle entries that run around another script, not on their own.
pub open spec fn selectable(name: Seq<char>) -> bool {
    !ends_with(name, "before"@) && !ends_with(name, "after"@)
}

/// Keeps the directly selectable script names.
pub open spec fn selectable_pred() -> spec_fn(Seq<char>) -> bool {
    |name: Seq<char>| selectable(name)
}

/// The scripts that a manifest offers for selection: the entries of its
/// script table except the reserved lifecycle names; none when the
/// document is not valid JSON or has no script table.
pub open spec fn scripts_spec(text: Seq<char>) -> Seq<Seq<char>> {
    match json_object_keys(text, "scripts"@) {
        Some(names) => names.filter(selectable_pred()),
        None => Seq::empty(),
    }
}

/// Does `s` end with `suffix`? A character-by-character comparison.
fn str_ends_with(s: &str, suffix: &str) -> (b: bool)
    ensures
        b == ends_with(s@, suffix@),
{
    let n = s.unicode_len();
    let m = suffix.unicode_len();
    if n < m {
        return false;
    }
    let off = n - m;
    let mut j: usize = 0;
    while j < m
        invariant
            j <= m,
            m == suffix@.len(),
            n == s@.len(),
            off == n - m,
            forall|t: int| 0 <= t < j ==> s@[off + t] == suffix@[t],
        decreases m - j,
    {
        if s.get_char(off + j) != suffix.get_char(j) {
            proof {
                assert(s@.subrange(s@.len() - suffix@.len(), s@.len() as int)[j as int] == s@[off
                    + j]);
            }
            return false;
        }
        j = j + 1;
    }
    proof {
        assert(s@.subrange(s@.len() - suffix@.len(), s@.len() as int) =~= suffix@);
    }
    true
}

/// Builds one node script action per directly selectable entry of the
/// manifest's script table, in table order; none when the manifest is
/// absent or unparsable — discovery failure contributes zero actions
/// rather than failing the registry.
pub fn get_node_scripts(manifest: Option<&str>) -> (r: Vec<NodeScript>)
    ensures
        match manifest {
            Some(text) => r@.map_values(|a: NodeScript| a.cmd@) == scripts_spec(text@),
            None => r@.len() == 0,
        },
{
    let text = match manifest {
        Some(text) => text,
        None => {
            return Vec::new();
        },
    };
    let ghost pred = selectable_pred();
    let names = match object_keys(text, "scripts") {
        Some(names) => names,
        None => {
            let r: Vec<NodeScript> = Vec::new();
            proof {
                assert(r@.map_values(|a: NodeScript| a.cmd@) =~= scripts_spec(text@));
            }
            return r;
        },
    };
    let ghost keys = names.deep_view();
    let n = names.len();
    let mut r: Vec<NodeScript> = Vec::new();
    let mut i: usize = 0;
    proof {
        reveal(Seq::filter);
        assert(keys.take(0) =~= Seq::<Seq<char>>::empty());
        assert(Seq::<Seq<char>>::empty().filter(pred) =~= Seq::<Seq<char>>::empty());
        assert(r@.map_values(|a: NodeScript| a.cmd@) =~= Seq::<Seq<char>>::empty());
    }
    while i < n
        invariant
            n == names.len(),
            keys == names.deep_view(),
            pred == selectable_pred(),
            i <= n,
            r@.map_values(|a: NodeScript| a.cmd@) == keys.take(i as int).filter(pred),
        decreases n - i,
    {
        let name = &names[i];
        proof {
            assert(name@ == keys[i as int]);
        }
        let keep = !str_ends_with(name.as_str(), "before") && !str_ends_with(
            name.as_str(),
            "after",
        );
        let ghost prior = r@;
        if keep {
            r.push(NodeScript { cmd: name.clone() });
        }
        proof {
            let f = |a: NodeScript| a.cmd@;
            assert(keys.take(i as int + 1) =~= keys.take(i as int).push(keys[i as int]));
            keys.take(i as int).lemma_filter_push(keys[i as int], pred);
            if keep {
                assert(r@.map_values(f) =~= prior.map_values(f).push(keys[i as int]));
            }
            assert(r@.map_values(f) == keys.take(i as int + 1).filter(pred));
        }
        i = i + 1;
    }
    proof {
        assert(keys.take(n as int) =~= keys);
    }
    r
}

} // verus!
