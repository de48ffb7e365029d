use vstd::prelude::*;

verus! {

/// The options of a bone combo box: without a skeleton there are none and the
/// box takes free text; with one, every bone name in skeleton order, then the
/// extra literal options.
pub open spec fn combo_options(bone_names: Option<Seq<String>>, extra: Seq<String>) -> Option<
    Seq<String>,
> {
    match bone_names {
        Some(b) => Some(b + extra),
        None => None,
    }
}

/// What the user did to a bone combo box in one frame.
#[derive(Debug, Clone)]
pub enum BoneComboInput {
    /// Nothing that edits the value: hovering, opening or closing the list.
    Nothing,
    /// Text typed into the box.
    Typed(String),
    /// The option at this position of the list was picked.
    Picked(usize),
}

/// Collects the options that a bone combo box offers.
pub fn bone_combo_options(bone_names: Option<&Vec<String>>, extra: &Vec<String>) -> (r: Option<
    Vec<String>,
>)
    ensures
        r.is_some() == bone_names.is_some(),
        r matches Some(o) ==> Some(o@) == combo_options(
            Some(bone_names.unwrap()@),
            extra@,
        ),
{
    match bone_names {
        None => None,
        Some(bones) => {
            let mut options: Vec<String> = Vec::new();
            let mut i: usize = 0;
            while i < bones.len()
                invariant
                    i <= bones@.len(),
                    options@ == bones@.subrange(0, i as int),
                decreases bones@.len() - i,
            {
                options.push(bones[i].clone());
                i = i + 1;
                assert(options@ =~= bones@.subrange(0, i as int));
            }
            let mut j: usize = 0;
            while j < extra.len()
                invariant
                    j <= extra@.len(),
                    options@ == bones@ + extra@.subrange(0, j as int),
                decreases extra@.len() - j,
            {
                options.push(extra[j].clone());
                j = j + 1;
                assert(options@ =~= bones@ + extra@.subrange(0, j as int));
            }
            assert(bones@.subrange(0, bones@.len() as int) =~= bones@);
            assert(extra@.subrange(0, extra@.len() as int) =~= extra@);
            Some(options)
        },
    }
}

/// Applies one frame's input to the bone name that a combo box edits, and
/// reports whether the name changed. Without options (no skeleton) typed text
/// is taken as it is. With options only a listed option can be picked, and a
/// name that matches no option stays until one is picked.
pub fn apply_bone_combo_input(
    value: &mut String,
    options: &Option<Vec<String>>,
    input: BoneComboInput,
) -> (changed: bool)
    ensures
        changed == (final(value)@ != old(value)@),
        match (options, input) {
            (None, BoneComboInput::Typed(text)) => final(value)@ == text@,
            (Some(o), BoneComboInput::Picked(i)) => i < o@.len() ==> final(value)@ == o@[i as int]@,
            _ => final(value)@ == old(value)@,
        },
        options matches Some(o) && input matches BoneComboInput::Picked(i) && i >= o@.len()
            ==> final(value)@ == old(value)@,
{
    match (options, input) {
        (None, BoneComboInput::Typed(text)) => {
            let changed = !(text == *value);
            *value = text;
            changed
        },
        (Some(o), BoneComboInput::Picked(i)) => {
            if i < o.len() {
                let changed = !(o[i] == *value);
                *value = o[i].clone();
                changed
            } else {
                false
            }
        },
        _ => false,
    }
}

} // verus!
