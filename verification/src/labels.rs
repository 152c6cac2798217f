//! Labels that users give to spaces, displays and scratchpad windows.
use vstd::prelude::*;

use crate::idmap;
use crate::idmap::{Id, IdMap};
use crate::literals;
use crate::text;

verus! {

/// The labels as texts.
pub open spec fn label_map<K>(m: Map<K, String>) -> Map<K, Seq<char>> {
    m.map_values(|s: String| s@)
}

/// No two owners share a label.
pub open spec fn unique<K>(labels: Map<K, Seq<char>>) -> bool {
    forall|a: K, b: K|
        labels.dom().contains(a) && labels.dom().contains(b) && #[trigger] labels[a]
            == #[trigger] labels[b] ==> a == b
}

/// Whether `k` owns the label.
pub open spec fn owns<K>(labels: Map<K, Seq<char>>, k: K, label: Seq<char>) -> bool {
    labels.dom().contains(k) && labels[k] == label
}

/// The owner of a label.
pub open spec fn owner<K>(labels: Map<K, Seq<char>>, label: Seq<char>) -> Option<K> {
    if exists|k: K| owns(labels, k, label) {
        Some(choose|k: K| owns(labels, k, label))
    } else {
        None
    }
}

/// The labels without one of them.
pub open spec fn freed<K>(labels: Map<K, Seq<char>>, label: Seq<char>) -> Map<K, Seq<char>> {
    Map::new(|k: K| labels.dom().contains(k) && labels[k] != label, |k: K| labels[k])
}

/// Where a label belongs.
#[derive(Debug, Clone, Copy, PartialEq, Eq, Structural)]
pub enum LabelKind {
    Space,
    Display,
}

/// Words that selectors use for themselves.
pub open spec fn is_keyword(kind: LabelKind, label: Seq<char>) -> bool {
    ||| label == "prev"@
    ||| label == "next"@
    ||| label == "first"@
    ||| label == "last"@
    ||| label == "recent"@
    ||| label == "mouse"@
    ||| kind == LabelKind::Display && (label == "north"@ || label == "east"@ || label == "south"@
        || label == "west"@)
}

/// Why a label is turned down, if it is.
pub open spec fn label_error(kind: LabelKind, label: Seq<char>) -> Option<Seq<char>> {
    if label.len() == 0 {
        None
    } else if literals::float_literal(label) {
        Some("'"@ + label + "' cannot be used as a label.\n"@)
    } else if is_keyword(kind, label) {
        Some("'"@ + label + "' is a reserved keyword and cannot be used as a label.\n"@)
    } else {
        None
    }
}

/// The labels after `id` is given a label: an empty one clears its label, any
/// other is taken from whoever had it.
pub open spec fn relabelled<K>(
    labels: Map<K, Seq<char>>,
    id: K,
    label: Seq<char>,
) -> Map<K, Seq<char>> {
    if label.len() == 0 {
        labels.remove(id)
    } else {
        freed(labels, label).insert(id, label)
    }
}

/// The owner of a label.
pub fn find_label<K: Id>(map: &IdMap<K, String>, label: &str) -> (r: Option<K>)
    requires
        map.wf(),
        unique(label_map(map@)),
    ensures
        r == owner(label_map(map@), label@),
        r is Some ==> owns(label_map(map@), r->0, label@),
{
    let ghost labels = label_map(map@);
    let ids = map.keys();
    let mut i: usize = 0;
    while i < ids.len()
        invariant
            map.wf(),
            labels == label_map(map@),
            unique(labels),
            idmap::lists(ids@, map@.dom()),
            i <= ids@.len(),
            forall|j: int| 0 <= j < i ==> !owns(labels, #[trigger] ids@[j], label@),
        decreases ids.len() - i,
    {
        let k = ids[i];
        let held = match map.get(k) {
            Some(value) => text::same(value.as_str(), label),
            None => false,
        };
        assert(ids@.contains(k));
        if held {
            proof {
                assert(owns(labels, k, label@));
                let c = choose|k: K| owns(labels, k, label@);
                assert(labels[c] == labels[k]);
            }
            return Some(k);
        }
        i += 1;
    }
    proof {
        if exists|k: K| owns(labels, k, label@) {
            let k = choose|k: K| owns(labels, k, label@);
            assert(ids@.contains(k));
        }
    }
    None
}

/// Take a label from whoever has it.
pub fn free_label<K: Id>(map: &mut IdMap<K, String>, label: &str)
    requires
        old(map).wf(),
        unique(label_map(old(map)@)),
    ensures
        final(map).wf(),
        unique(label_map(final(map)@)),
        label_map(final(map)@) == freed(label_map(old(map)@), label@),
{
    let ghost pre = label_map(map@);
    match find_label(map, label) {
        Some(k) => {
            let _ = map.remove(k);
            proof {
                assert(label_map(map@) =~= freed(pre, label@)) by {
                    assert forall|q: K| pre.dom().contains(q) && q != k implies pre[q]
                        != label@ by {
                        if pre[q] == label@ {
                            assert(pre[q] == pre[k]);
                        }
                    }
                }
            }
        },
        None => {
            proof {
                assert forall|q: K| pre.dom().contains(q) implies pre[q] != label@ by {
                    if pre[q] == label@ {
                        assert(owns(pre, q, label@));
                    }
                }
                assert(label_map(map@) =~= freed(pre, label@));
            }
        },
    }
}

/// Whether a word is one that selectors use for themselves.
fn keyword(kind: LabelKind, label: &str) -> (r: bool)
    ensures
        r == is_keyword(kind, label@),
{
    if text::same(label, "prev") || text::same(label, "next") || text::same(label, "first")
        || text::same(label, "last") || text::same(label, "recent") || text::same(label, "mouse") {
        return true;
    }
    kind == LabelKind::Display && (text::same(label, "north") || text::same(label, "east")
        || text::same(label, "south") || text::same(label, "west"))
}

/// Give `id` a label, or clear its label if it is empty. Numbers and keywords
/// are turned down; a label is taken from whoever had it.
pub fn set_label<K: Id>(map: &mut IdMap<K, String>, kind: LabelKind, id: K, label: &str) -> (r:
    Result<(), String>)
    requires
        old(map).wf(),
        unique(label_map(old(map)@)),
    ensures
        final(map).wf(),
        unique(label_map(final(map)@)),
        match label_error(kind, label@) {
            Some(error) => r is Err && r->Err_0@ == error && label_map(final(map)@) == label_map(
                old(map)@,
            ),
            None => r is Ok && label_map(final(map)@) == relabelled(
                label_map(old(map)@),
                id,
                label@,
            ),
        },
{
    let ghost pre = label_map(map@);
    if label.is_empty() {
        let _ = map.remove(id);
        assert(label_map(map@) =~= pre.remove(id));
        return Ok(());
    }
    if literals::is_float_literal(label) {
        let mut out = "'".to_owned();
        out.append(label);
        out.append("' cannot be used as a label.\n");
        return Err(out);
    }
    if keyword(kind, label) {
        let mut out = "'".to_owned();
        out.append(label);
        out.append("' is a reserved keyword and cannot be used as a label.\n");
        return Err(out);
    }
    free_label(map, label);
    let ghost mid = label_map(map@);
    let owned = label.to_owned();
    map.insert(id, owned);
    proof {
        assert(label_map(map@) =~= mid.insert(id, label@));
        let now = label_map(map@);
        assert forall|a: K, b: K|
            now.dom().contains(a) && now.dom().contains(b) && #[trigger] now[a]
                == #[trigger] now[b] implies a == b by {
            if a != id {
                assert(mid.dom().contains(a));
                assert(mid[a] != label@);
            }
            if b != id {
                assert(mid.dom().contains(b));
                assert(mid[b] != label@);
            }
            if a != id && b != id {
                assert(mid[a] == mid[b]);
            }
        }
    }
    Ok(())
}

/// A label that was accepted selects what it was given to.
pub proof fn law_label_selects_its_owner<K>(
    labels: Map<K, Seq<char>>,
    kind: LabelKind,
    id: K,
    label: Seq<char>,
)
    requires
        unique(labels),
        label.len() > 0,
        label_error(kind, label) is None,
    ensures
        owner(relabelled(labels, id, label), label) == Some(id),
        unique(relabelled(labels, id, label)),
{
    let now = relabelled(labels, id, label);
    assert(owns(now, id, label));
    let c = choose|k: K| owns(now, k, label);
    assert(c == id);
    assert forall|a: K, b: K|
        now.dom().contains(a) && now.dom().contains(b) && #[trigger] now[a]
            == #[trigger] now[b] implies a == b by {
        if a != id && b != id {
            assert(labels[a] == labels[b]);
        }
    }
}

/// Clearing a label frees it: nothing is selected by it any more.
pub proof fn law_cleared_label_selects_nothing<K>(labels: Map<K, Seq<char>>, id: K)
    requires
        unique(labels),
        labels.dom().contains(id),
    ensures
        owner(relabelled(labels, id, Seq::empty()), labels[id]) is None,
{
    let now = relabelled(labels, id, Seq::<char>::empty());
    assert forall|k: K| !owns(now, k, labels[id]) by {
        if owns(now, k, labels[id]) {
            assert(labels[k] == labels[id]);
        }
    }
}

/// A label given takes nothing from others but the same label, and a label cleared
/// takes nothing from others.
pub proof fn law_labelling_spares_others<K>(
    labels: Map<K, Seq<char>>,
    id: K,
    label: Seq<char>,
    other: K,
)
    requires
        other != id,
    ensures
        ({
            let after = relabelled(labels, id, label);
            &&& labels.dom().contains(other) && (label.len() == 0 || labels[other] != label)
                ==> after.dom().contains(other) && after[other] == labels[other]
            &&& labels.dom().contains(other) && label.len() > 0 && labels[other] == label
                ==> !after.dom().contains(other)
            &&& !labels.dom().contains(other) ==> !after.dom().contains(other)
            &&& label.len() > 0 ==> after.dom().contains(id) && after[id] == label
            &&& label.len() == 0 ==> !after.dom().contains(id)
        }),
{
}

/// The owner of a label is who has it, and there is none if nobody has it.
pub proof fn law_label_owner<K>(labels: Map<K, Seq<char>>, id: K, label: Seq<char>)
    requires
        unique(labels),
    ensures
        labels.dom().contains(id) && labels[id] == label ==> owner(labels, label) == Some(id),
        owner(labels, label) == Some(id) ==> labels.dom().contains(id) && labels[id] == label,
        (forall|k: K| labels.dom().contains(k) ==> #[trigger] labels[k] != label) ==> owner(
            labels,
            label,
        ) is None,
{
    if labels.dom().contains(id) && labels[id] == label {
        assert(owns(labels, id, label));
        let k = choose|k: K| owns(labels, k, label);
        assert(labels[k] == labels[id]);
    }
    if owner(labels, label) is None && labels.dom().contains(id) {
        assert(!owns(labels, id, label));
    }
}

/// The words of the selectors are refused as labels, the directions for displays
/// alone; so is a number. An empty label, and any other, is accepted.
pub proof fn law_refused_labels(kind: LabelKind, label: Seq<char>)
    ensures
        label.len() == 0 ==> label_error(kind, label) is None,
        label.len() > 0 && literals::float_literal(label) ==> label_error(kind, label) == Some(
            "'"@ + label + "' cannot be used as a label.\n"@,
        ),
        !literals::float_literal(label) && (label == "prev"@ || label == "next"@ || label
            == "first"@ || label == "last"@ || label == "recent"@ || label == "mouse"@)
            ==> label_error(kind, label) == Some(
            "'"@ + label + "' is a reserved keyword and cannot be used as a label.\n"@,
        ),
        !literals::float_literal(label) && (label == "north"@ || label == "east"@ || label
            == "south"@ || label == "west"@) ==> {
            &&& label_error(LabelKind::Display, label) == Some(
                "'"@ + label + "' is a reserved keyword and cannot be used as a label.\n"@,
            )
            &&& label_error(LabelKind::Space, label) is None
        },
        label.len() > 0 && !literals::float_literal(label) && label != "prev"@ && label != "next"@
            && label != "first"@ && label != "last"@ && label != "recent"@ && label != "mouse"@
            && label != "north"@ && label != "east"@ && label != "south"@ && label != "west"@
            ==> label_error(kind, label) is None,
{
    reveal_strlit("prev");
    reveal_strlit("next");
    reveal_strlit("first");
    reveal_strlit("last");
    reveal_strlit("recent");
    reveal_strlit("mouse");
    reveal_strlit("north");
    reveal_strlit("east");
    reveal_strlit("south");
    reveal_strlit("west");
    assert("prev"@.len() == 4 && "next"@.len() == 4 && "first"@.len() == 5 && "last"@.len() == 4);
    assert("recent"@.len() == 6 && "mouse"@.len() == 5);
    assert("north"@[0] == 'n' && "south"@[0] == 's' && "east"@[0] == 'e' && "west"@[0] == 'w');
    assert("first"@[0] == 'f' && "mouse"@[0] == 'm' && "prev"@[0] == 'p' && "next"@[0] == 'n'
        && "last"@[0] == 'l');
}

} // verus!
