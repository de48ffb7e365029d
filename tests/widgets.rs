use ssbh_editor::hlpb::{aim_header, aim_type_options, orient_header, select_unk_type};
use ssbh_editor::{apply_bone_combo_input, bone_combo_options, BoneComboInput};

fn strings(s: &[&str]) -> Vec<String> {
    s.iter().map(|x| x.to_string()).collect()
}

#[test]
fn aim_type_options_add_default() {
    let bones = strings(&["Trans", "Hip", "ArmL"]);
    assert_eq!(
        Some(strings(&["Trans", "Hip", "ArmL", "DEFAULT"])),
        aim_type_options(Some(&bones))
    );
}

#[test]
fn aim_type_options_default_without_bones() {
    let bones = Vec::new();
    assert_eq!(Some(strings(&["DEFAULT"])), aim_type_options(Some(&bones)));
}

#[test]
fn aim_type_without_skeleton_is_free_text() {
    assert_eq!(None, aim_type_options(None));
}

#[test]
fn options_are_bones_then_extras() {
    let bones = strings(&["A", "B"]);
    let extra = strings(&["X"]);
    assert_eq!(Some(strings(&["A", "B", "X"])), bone_combo_options(Some(&bones), &extra));
    assert_eq!(None, bone_combo_options(None, &extra));
}

#[test]
fn free_text_without_skeleton() {
    let mut value = "Hip".to_string();
    let changed = apply_bone_combo_input(&mut value, &None, BoneComboInput::Typed("NotABone".to_string()));
    assert!(changed);
    assert_eq!("NotABone", value);
}

#[test]
fn same_text_is_no_change() {
    let mut value = "Hip".to_string();
    assert!(!apply_bone_combo_input(&mut value, &None, BoneComboInput::Typed("Hip".to_string())));
    assert_eq!("Hip", value);
}

#[test]
fn skeleton_only_allows_listed_options() {
    let options = Some(strings(&["Trans", "Hip", "DEFAULT"]));
    let mut value = "custom_bone".to_string();
    assert!(!apply_bone_combo_input(&mut value, &options, BoneComboInput::Typed("Other".to_string())));
    assert_eq!("custom_bone", value);
    assert!(!apply_bone_combo_input(&mut value, &options, BoneComboInput::Picked(3)));
    assert_eq!("custom_bone", value);
    assert!(!apply_bone_combo_input(&mut value, &options, BoneComboInput::Nothing));
    assert_eq!("custom_bone", value);
    assert!(apply_bone_combo_input(&mut value, &options, BoneComboInput::Picked(2)));
    assert_eq!("DEFAULT", value);
    assert!(!apply_bone_combo_input(&mut value, &options, BoneComboInput::Picked(2)));
}

#[test]
fn headers_name_target_bones() {
    let name = "nuHelperBoneRotateInterp1".to_string();
    assert_eq!("nuHelperBoneRotateInterp1 (H_ShoulderL)", orient_header(&name, &"H_ShoulderL".to_string()));
    assert_eq!(
        "aim (H_A / H_B)",
        aim_header(&"aim".to_string(), &"H_A".to_string(), &"H_B".to_string())
    );
}

#[test]
fn unk_type_choices_are_one_and_two() {
    let mut value = 1;
    assert!(select_unk_type(&mut value, Some(1)));
    assert_eq!(2, value);
    assert!(!select_unk_type(&mut value, Some(1)));
    assert!(!select_unk_type(&mut value, Some(2)));
    assert!(!select_unk_type(&mut value, None));
    assert_eq!(2, value);
    assert!(select_unk_type(&mut value, Some(0)));
    assert_eq!(1, value);
}
