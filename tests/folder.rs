use ssbh_editor::{sort_by_name, sort_files, AnimationIndex, AnimationSlot, ModFolder};

type Folder = ModFolder<u8, Result<u32, String>, u8, u8, u8, u8, u8, u8>;

fn files<T: Clone>(names: &[&str], value: T) -> Vec<(String, T)> {
    names.iter().map(|n| (n.to_string(), value.clone())).collect()
}

fn folder(name: &str, file_names: &[&str]) -> Folder {
    ModFolder {
        folder_name: name.to_string(),
        adjs: files(file_names, 1),
        anims: file_names
            .iter()
            .enumerate()
            .map(|(i, n)| (n.to_string(), Ok(i as u32)))
            .collect(),
        hlpbs: files(file_names, 3),
        matls: files(file_names, 4),
        meshes: files(file_names, 5),
        modls: files(file_names, 6),
        nutexbs: files(file_names, 7),
        skels: files(file_names, 8),
    }
}

fn names<T>(list: &[(String, T)]) -> Vec<&str> {
    list.iter().map(|(n, _)| n.as_str()).collect()
}

#[test]
fn folders_and_files_sorted_from_reverse_order() {
    let mut models = vec![
        folder("c", &["z.numshb", "b.numshb", "a.numshb"]),
        folder("b", &["model.numdlb", "Model.numdlb"]),
        folder("a", &[]),
    ];
    sort_files(&mut models);
    let folder_names: Vec<&str> = models.iter().map(|m| m.folder_name.as_str()).collect();
    assert_eq!(vec!["a", "b", "c"], folder_names);
    let c = &models[2];
    for list in [
        names(&c.adjs),
        names(&c.anims),
        names(&c.hlpbs),
        names(&c.matls),
        names(&c.meshes),
        names(&c.modls),
        names(&c.nutexbs),
        names(&c.skels),
    ] {
        assert_eq!(vec!["a.numshb", "b.numshb", "z.numshb"], list);
    }
    assert_eq!(vec!["Model.numdlb", "model.numdlb"], names(&models[1].meshes));
    assert!(models[0].skels.is_empty());
}

#[test]
fn sort_keeps_parse_results_with_their_files() {
    let mut models = vec![folder("x", &["c", "a", "b"])];
    sort_files(&mut models);
    let anims: Vec<(&str, Result<u32, String>)> =
        models[0].anims.iter().map(|(n, r)| (n.as_str(), r.clone())).collect();
    assert_eq!(vec![("a", Ok(1)), ("b", Ok(2)), ("c", Ok(0))], anims);
}

#[test]
fn sort_is_stable_and_by_code_point() {
    let mut v = vec![
        ("é".to_string(), 0),
        ("b".to_string(), 1),
        ("ab".to_string(), 2),
        ("b".to_string(), 3),
        ("a".to_string(), 4),
        ("".to_string(), 5),
    ];
    sort_by_name(&mut v);
    let order: Vec<i32> = v.iter().map(|(_, i)| *i).collect();
    assert_eq!(vec![5, 4, 2, 1, 3, 0], order);
}

#[test]
fn random_order_folders_sorted() {
    let mut models = vec![folder("m", &[]), folder("d", &[]), folder("x", &[]), folder("a", &[]), folder("d2", &[])];
    sort_files(&mut models);
    let folder_names: Vec<&str> = models.iter().map(|m| m.folder_name.as_str()).collect();
    assert_eq!(vec!["a", "d", "d2", "m", "x"], folder_names);
}

#[test]
fn animation_index_finds_animation() {
    let models = vec![folder("a", &["idle.nuanmb"]), folder("b", &["run.nuanmb", "walk.nuanmb"])];
    let index = AnimationIndex { folder_index: 1, anim_index: 1 };
    let (name, result) = index.get_animation(&models).unwrap();
    assert_eq!("walk.nuanmb", name);
    assert_eq!(&Ok(1), result);
}

#[test]
fn animation_index_out_of_range_is_none() {
    let models = vec![folder("a", &["idle.nuanmb"])];
    assert!(AnimationIndex { folder_index: 0, anim_index: 1 }.get_animation(&models).is_none());
    assert!(AnimationIndex { folder_index: 1, anim_index: 0 }.get_animation(&models).is_none());
}

#[test]
fn new_slot_is_enabled_without_animation() {
    let slot = AnimationSlot::new();
    assert!(slot.is_enabled);
    assert!(slot.animation.is_none());
    assert_eq!(slot, AnimationSlot::default());
}
