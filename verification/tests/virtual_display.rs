use open_space::grid_layout::center_main_display;
use open_space::virtual_display::{
    plan_virtual_displays, virtual_screen_name_text, VirtualDisplayInfo, VirtualDisplays,
};

fn info(id: u32) -> VirtualDisplayInfo {
    VirtualDisplayInfo { display_id: id, width: 1920, height: 1080, name: format!("Virtual Screen {id}") }
}

#[test]
fn ids_and_infos_follow_creation_order() {
    let mut v = VirtualDisplays::new();
    assert!(v.displays().is_empty());
    v.add(info(11));
    v.add(info(12));
    v.add(info(13));
    assert_eq!(v.display_ids(), vec![11, 12, 13]);
    let infos = v.displays();
    assert_eq!(infos.len(), 3);
    assert_eq!(infos[1].display_id, 12);
    assert_eq!(infos[1].name, "Virtual Screen 12");
    assert_eq!(infos[2].width, 1920);
}

#[test]
fn displays_without_modes_are_removed() {
    let mut v = VirtualDisplays::new();
    v.add(info(11));
    v.add(info(12));
    v.add(info(13));
    let removed = v.remove_displays(&[13, 99, 11]);
    assert_eq!(removed, vec![11, 13]);
    assert_eq!(v.display_ids(), vec![12]);
    let none = v.remove_displays(&[]);
    assert!(none.is_empty());
    assert_eq!(v.display_ids(), vec![12]);
}

#[test]
fn six_screens_plan_five_virtual_displays() {
    let plan = plan_virtual_displays(6);
    assert_eq!(plan.len(), 5);
    let slots: Vec<usize> = plan.iter().map(|p| p.grid_pos).collect();
    assert_eq!(slots, vec![0, 1, 2, 3, 5]);
    assert_eq!((plan[4].row, plan[4].col), (1, 2));
    assert_eq!(plan[0].name, "Virtual Screen 1");
    assert_eq!(plan[4].name, "Virtual Screen 5");
    assert_eq!(plan[3].serial, 3);
    assert_eq!((plan[2].width, plan[2].height), (1920, 1080));
}

#[test]
fn one_or_zero_screens_plan_nothing() {
    assert!(plan_virtual_displays(1).is_empty());
    assert!(plan_virtual_displays(0).is_empty());
    let two = plan_virtual_displays(2);
    assert_eq!(two.len(), 1);
    assert_eq!(two[0].grid_pos, 0);
}

#[test]
fn planned_slots_match_centering() {
    for screens in 1u32..=10 {
        let plan = plan_virtual_displays(screens);
        let main_id = 1000u32;
        let mut specs: Vec<u32> = (0..plan.len() as u32).collect();
        specs.push(main_id);
        center_main_display(&mut specs, main_id, |id| *id);
        for (i, p) in plan.iter().enumerate() {
            assert_eq!(specs[p.grid_pos], i as u32);
        }
    }
}

#[test]
fn names_count_from_one() {
    assert_eq!(virtual_screen_name_text(1), "Virtual Screen 1");
    assert_eq!(virtual_screen_name_text(12), "Virtual Screen 12");
}
