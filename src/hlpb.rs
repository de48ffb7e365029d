use vstd::prelude::*;
use vstd::string::StringExecFns;

use crate::widgets::{bone_combo_options, combo_options};

verus! {

/// The literal option that aim type combo boxes offer beside the bone names.
pub open spec fn default_aim_type() -> Seq<char> {
    seq!['D', 'E', 'F', 'A', 'U', 'L', 'T']
}

/// The values that an orient constraint's type can take, in the order offered.
pub open spec fn unk_type_choices() -> Seq<u32> {
    seq![1u32, 2u32]
}

/// The options of an aim type combo box: with a skeleton, every bone name and
/// then "DEFAULT", also when the skeleton has no bones; without one, free text.
pub fn aim_type_options(bone_names: Option<&Vec<String>>) -> (r: Option<Vec<String>>)
    ensures
        r.is_some() == bone_names.is_some(),
        bone_names matches Some(b) ==> {
            &&& r matches Some(o)
            &&& o@.len() == b@.len() + 1
            &&& forall|i: int| 0 <= i < b@.len() ==> #[trigger] o@[i] == b@[i]
            &&& o@.last()@ == default_aim_type()
        },
{
    let mut extra: Vec<String> = Vec::new();
    let literal = String::from_str("DEFAULT");
    proof {
        reveal_strlit("DEFAULT");
    }
    assert(literal@ =~= default_aim_type());
    extra.push(literal);
    let r = bone_combo_options(bone_names, &extra);
    proof {
        if let Some(b) = bone_names {
            let o = r.unwrap()@;
            assert(o == b@ + extra@);
            assert(o.last() == extra@[0]);
        }
    }
    r
}

/// The heading of an orient constraint: its name and, in parentheses, the
/// helper bone that it drives.
pub fn orient_header(name: &String, target_bone: &String) -> (r: String)
    ensures
        r@ == name@ + seq![' ', '('] + target_bone@ + seq![')'],
{
    let mut r = name.clone();
    r.append(" (");
    r.append(target_bone.as_str());
    r.append(")");
    proof {
        reveal_strlit(" (");
        reveal_strlit(")");
    }
    assert(r@ =~= name@ + seq![' ', '('] + target_bone@ + seq![')']);
    r
}

/// The heading of an aim constraint: its name and, in parentheses, the two
/// bones that it targets.
pub fn aim_header(name: &String, target_bone1: &String, target_bone2: &String) -> (r: String)
    ensures
        r@ == name@ + seq![' ', '('] + target_bone1@ + seq![' ', '/', ' '] + target_bone2@
            + seq![')'],
{
    let mut r = name.clone();
    r.append(" (");
    r.append(target_bone1.as_str());
    r.append(" / ");
    r.append(target_bone2.as_str());
    r.append(")");
    proof {
        reveal_strlit(" (");
        reveal_strlit(" / ");
        reveal_strlit(")");
    }
    assert(r@ =~= name@ + seq![' ', '('] + target_bone1@ + seq![' ', '/', ' '] + target_bone2@
        + seq![')']);
    r
}

/// Applies a pick in an orient constraint's type box, whose choices are 1 and
/// 2; any other position picks nothing. Reports whether the type changed.
pub fn select_unk_type(value: &mut u32, picked: Option<usize>) -> (changed: bool)
    ensures
        picked matches Some(i) ==> if i < 2 {
            *final(value) == unk_type_choices()[i as int]
        } else {
            *final(value) == *old(value)
        },
        picked.is_none() ==> *final(value) == *old(value),
        changed == (*final(value) != *old(value)),
{
    match picked {
        Some(i) => {
            if i < 2 {
                let choice: u32 = if i == 0 {
                    1
                } else {
                    2
                };
                let changed = *value != choice;
                *value = choice;
                changed
            } else {
                false
            }
        },
        None => false,
    }
}

} // verus!
