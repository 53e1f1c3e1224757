use vstd::prelude::*;

verus! {

/// A known incompatibility between two mods.
#[derive(Debug, Clone)]
pub struct ModConflict {
    pub mod_id_a: String,
    pub mod_id_b: String,
    pub reason: String,
    /// "warning" or "critical".
    pub severity: String,
}

pub struct ConflictView {
    pub mod_id_a: Seq<char>,
    pub mod_id_b: Seq<char>,
    pub reason: Seq<char>,
    pub severity: Seq<char>,
}

impl View for ModConflict {
    type V = ConflictView;

    open spec fn view(&self) -> ConflictView {
        ConflictView {
            mod_id_a: self.mod_id_a@,
            mod_id_b: self.mod_id_b@,
            reason: self.reason@,
            severity: self.severity@,
        }
    }
}

pub open spec fn conflicts_view(v: Seq<ModConflict>) -> Seq<ConflictView> {
    v.map_values(|c: ModConflict| c@)
}

/// The conflicts this manager knows of.
pub open spec fn known_conflicts_spec() -> Seq<ConflictView> {
    seq![
        ConflictView {
            mod_id_a: "731604991"@,
            mod_id_b: "1999447172"@,
            reason: "Both mods modify structure placement and core structures. Using both crashes the server."@,
            severity: "critical"@,
        },
        ConflictView {
            mod_id_a: "1404697612"@,
            mod_id_b: "1404697612"@,
            reason: "Duplicate mod ID logic (not a real conflict but example)"@,
            severity: "warning"@,
        },
    ]
}

/// The known conflicts whose two mods are both active, in order.
pub open spec fn active_conflicts_spec(known: Seq<ConflictView>, active: Seq<Seq<char>>) -> Seq<ConflictView>
    decreases known.len(),
{
    if known.len() == 0 {
        Seq::empty()
    } else if active.contains(known.last().mod_id_a) && active.contains(known.last().mod_id_b) {
        active_conflicts_spec(known.drop_last(), active).push(known.last())
    } else {
        active_conflicts_spec(known.drop_last(), active)
    }
}

pub open spec fn ids_view(ids: Seq<String>) -> Seq<Seq<char>> {
    ids.map_values(|s: String| s@)
}

fn listed(ids: &[String], id: &String) -> (r: bool)
    ensures
        r == ids_view(ids@).contains(id@),
{
    let mut j: usize = 0;
    while j < ids.len()
        invariant
            j <= ids@.len(),
            forall|k: int| 0 <= k < j ==> ids@[k]@ != id@,
        decreases ids@.len() - j,
    {
        if ids[j] == *id {
            assert(ids_view(ids@)[j as int] == id@);
            return true;
        }
        j = j + 1;
    }
    proof {
        if ids_view(ids@).contains(id@) {
            let k = choose|k: int| 0 <= k < ids_view(ids@).len() && ids_view(ids@)[k] == id@;
            assert(ids@[k]@ == id@);
        }
    }
    false
}

/// Checks a set of active mods against the known conflicts.
pub struct ModCompatibilityService;

impl ModCompatibilityService {
    fn get_known_conflicts() -> (r: Vec<ModConflict>)
        ensures
            conflicts_view(r@) == known_conflicts_spec(),
    {
        let r = vec![
            ModConflict {
                mod_id_a: String::from_str("731604991"),
                mod_id_b: String::from_str("1999447172"),
                reason: String::from_str(
                    "Both mods modify structure placement and core structures. Using both crashes the server.",
                ),
                severity: String::from_str("critical"),
            },
            ModConflict {
                mod_id_a: String::from_str("1404697612"),
                mod_id_b: String::from_str("1404697612"),
                reason: String::from_str("Duplicate mod ID logic (not a real conflict but example)"),
                severity: String::from_str("warning"),
            },
        ];
        assert(conflicts_view(r@) =~= known_conflicts_spec());
        r
    }

    /// The known conflicts whose two mods are both among the active ones,
    /// in the order they are known.
    pub fn check_conflicts(active_mod_ids: &[String]) -> (r: Vec<ModConflict>)
        ensures
            conflicts_view(r@) == active_conflicts_spec(known_conflicts_spec(), ids_view(active_mod_ids@)),
    {
        let known = Self::get_known_conflicts();
        let ghost active = ids_view(active_mod_ids@);
        let mut found: Vec<ModConflict> = Vec::new();
        let mut i: usize = 0;
        while i < known.len()
            invariant
                i <= known@.len(),
                active == ids_view(active_mod_ids@),
                conflicts_view(known@) == known_conflicts_spec(),
                conflicts_view(found@) == active_conflicts_spec(conflicts_view(known@.subrange(0, i as int)), active),
            decreases known@.len() - i,
        {
            proof {
                let pre = conflicts_view(known@.subrange(0, i + 1));
                assert(pre.drop_last() =~= conflicts_view(known@.subrange(0, i as int)));
                assert(pre.last() == known@[i as int]@);
            }
            let both = listed(active_mod_ids, &known[i].mod_id_a) && listed(active_mod_ids, &known[i].mod_id_b);
            if both {
                let c = ModConflict {
                    mod_id_a: known[i].mod_id_a.clone(),
                    mod_id_b: known[i].mod_id_b.clone(),
                    reason: known[i].reason.clone(),
                    severity: known[i].severity.clone(),
                };
                let ghost prev = found@;
                found.push(c);
                assert(conflicts_view(found@) =~= conflicts_view(prev).push(c@));
            }
            i = i + 1;
        }
        proof {
            assert(known@.subrange(0, known@.len() as int) =~= known@);
        }
        found
    }
}

} // verus!
